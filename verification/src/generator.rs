use vstd::prelude::*;
use rand::rngs::ThreadRng;
use crate::position::Position;
use crate::random::draw_seed;
use crate::voxel::{Instance, Voxel};
use crate::voxel_map::{is_surface_of, VoxelMap};

verus! {

/// Why a depth map could not be made.
#[derive(Clone, Copy, Debug, PartialEq, Eq, Structural)]
pub enum GeneratorError {
    /// The number of samples is not the square of the size.
    SampleCount,
}

/// A square plane of terrain samples, each already scaled to a whole number
/// of voxels: the sample of column `(x, z)` stands at index `x + z * size`.
#[derive(Debug)]
pub struct DepthMap {
    size: u32,
    depths: Vec<i32>,
}

impl DepthMap {
    /// There is one sample for each column of the plane.
    #[verifier::type_invariant]
    spec fn square(self) -> bool {
        self.depths@.len() == self.size * self.size
    }

    /// The number of columns along each side of the plane.
    pub closed spec fn size_spec(&self) -> u32 {
        self.size
    }

    /// The samples, row after row.
    pub closed spec fn depths_spec(&self) -> Seq<i32> {
        self.depths@
    }

    /// A plane of `size` by `size` columns over `depths`, which must hold one
    /// sample for each column.
    pub fn new(size: u32, depths: Vec<i32>) -> (r: Result<DepthMap, GeneratorError>)
        ensures
            r is Ok <==> depths@.len() == size * size,
            r matches Ok(m) ==> m.size_spec() == size && m.depths_spec() == depths@,
            r matches Err(e) ==> e == GeneratorError::SampleCount,
    {
        assert(size * size <= 0xFFFF_FFFF * 0xFFFF_FFFF) by (nonlinear_arith)
            requires
                0 <= size <= 0xFFFF_FFFF,
        ;
        let wanted: u128 = size as u128 * size as u128;
        if depths.len() as u128 == wanted {
            Ok(DepthMap { size, depths })
        } else {
            Err(GeneratorError::SampleCount)
        }
    }

    pub fn size(&self) -> (s: u32)
        ensures
            s == self.size_spec(),
            self.depths_spec().len() == s * s,
    {
        proof {
            use_type_invariant(self);
        }
        self.size
    }

    /// The sample of column `(x, z)`; 0 outside the plane.
    pub fn get_value(&self, x: u32, z: u32) -> (d: i32)
        ensures
            d == sample(self.size_spec() as int, self.depths_spec(), x as int, z as int),
    {
        proof {
            use_type_invariant(self);
        }
        if x < self.size && z < self.size {
            let width: usize = self.size as usize;
            let total: usize = self.depths.len();
            assert(0 <= z * width <= x + z * width < total) by (nonlinear_arith)
                requires
                    0 <= x < width,
                    0 <= z < width,
                    total == width * width,
            ;
            self.depths[x as usize + z as usize * width]
        } else {
            0
        }
    }
}

/// The sample of column `(x, z)` of a plane of `size` by `size` columns; 0
/// outside the plane.
pub open spec fn sample(size: int, depths: Seq<i32>, x: int, z: int) -> int {
    if 0 <= x < size && 0 <= z < size && 0 <= x + z * size < depths.len() {
        depths[x + z * size] as int
    } else {
        0
    }
}

/// The column of the plane that stands at the centre of the generated world.
pub open spec fn center(size: int) -> int {
    size / 2
}

/// Whether column `(x, z)` of the plane lies in the circular footprint: no
/// farther from the centre column than half the size.
pub open spec fn in_footprint(size: int, x: int, z: int) -> bool {
    &&& 0 <= x < size
    &&& 0 <= z < size
    &&& 4 * ((x - center(size)) * (x - center(size)) + (z - center(size)) * (z - center(size)))
        <= size * size
}

/// Whether the generated world has a voxel at `p`: the column of `p`, taken
/// back from centred to plane coordinates, lies in the footprint, and `p` is
/// one of the `depth` cells directly below height 0, `depth` being the
/// column's sample. A column whose sample is not positive is empty.
pub open spec fn is_terrain(size: int, depths: Seq<i32>, p: Position) -> bool {
    let x = p.x + center(size);
    let z = p.z + center(size);
    &&& in_footprint(size, x, z)
    &&& -sample(size, depths, x, z) <= p.y < 0
}

/// The cells of the world generated from a plane of samples.
pub open spec fn terrain(size: int, depths: Seq<i32>) -> Set<Position> {
    Set::new(|p: Position| is_terrain(size, depths, p))
}

/// Whether `world` is the world generated with `seed` over a plane of `size`
/// by `size` columns with the samples `depths`.
pub open spec fn is_generated(world: WorldGenerator, seed: u32, size: u32, depths: Seq<i32>) -> bool {
    &&& world.seed_spec() == seed
    &&& world.size_spec() == size
    &&& world@ == terrain(size as int, depths)
}

/// Whether `sample`, asked for a plane of `size` by `size` columns with
/// `seed`, may hand back `depths`.
pub open spec fn gives<F: Fn(u32, u32) -> Vec<i32>>(
    sample: F,
    seed: u32,
    size: u32,
    depths: Vec<i32>,
) -> bool {
    call_ensures(sample, (seed, size), depths)
}

/// Whether `r` is what generating with `seed` over a plane of `size` by
/// `size` columns gives when the plane's samples are `depths`: the world,
/// where there is one sample for each column; else the rejection.
pub open spec fn is_generated_or_rejected(
    r: Result<WorldGenerator, GeneratorError>,
    seed: u32,
    size: u32,
    depths: Seq<i32>,
) -> bool {
    if depths.len() == size * size {
        r is Ok && is_generated(r->Ok_0, seed, size, depths)
    } else {
        r == Err::<WorldGenerator, GeneratorError>(GeneratorError::SampleCount)
    }
}

/// Generation is deterministic: two worlds generated with the same seed over
/// the same plane hold the same cells.
pub proof fn lemma_generation_is_deterministic(
    first: WorldGenerator,
    second: WorldGenerator,
    seed: u32,
    size: u32,
    depths: Seq<i32>,
)
    requires
        is_generated(first, seed, size, depths),
        is_generated(second, seed, size, depths),
    ensures
        first@ == second@,
        first.seed_spec() == second.seed_spec(),
        first.size_spec() == second.size_spec(),
{
}

/// With a source that answers the same question in the same way, generating
/// twice with the same seed and size gives the same outcome: the same cells,
/// or the same rejection.
pub proof fn lemma_from_seed_is_deterministic<F: Fn(u32, u32) -> Vec<i32>>(
    sample: F,
    seed: u32,
    size: u32,
    first: Result<WorldGenerator, GeneratorError>,
    second: Result<WorldGenerator, GeneratorError>,
)
    requires
        forall|a: Vec<i32>, b: Vec<i32>|
            #![trigger gives(sample, seed, size, a), gives(sample, seed, size, b)]
            gives(sample, seed, size, a) && gives(sample, seed, size, b) ==> a@ == b@,
        exists|depths: Vec<i32>| #[trigger]
            gives(sample, seed, size, depths) && is_generated_or_rejected(
                first,
                seed,
                size,
                depths@,
            ),
        exists|depths: Vec<i32>| #[trigger]
            gives(sample, seed, size, depths) && is_generated_or_rejected(
                second,
                seed,
                size,
                depths@,
            ),
    ensures
        first is Ok <==> second is Ok,
        first is Ok ==> first->Ok_0@ == second->Ok_0@,
        first is Err ==> first->Err_0 == second->Err_0,
{
    let a = choose|depths: Vec<i32>| #[trigger]
        gives(sample, seed, size, depths) && is_generated_or_rejected(first, seed, size, depths@);
    let b = choose|depths: Vec<i32>| #[trigger]
        gives(sample, seed, size, depths) && is_generated_or_rejected(second, seed, size, depths@);
    assert(a@ == b@);
}

/// The generated world is centred on the origin and lies below height 0: a
/// plane of `size` columns a side spans the coordinates from `-(size / 2)` up
/// to, not including, `size - size / 2`.
pub proof fn lemma_terrain_is_centered(size: int, depths: Seq<i32>, p: Position)
    requires
        is_terrain(size, depths, p),
    ensures
        -center(size) <= p.x < size - center(size),
        -center(size) <= p.z < size - center(size),
        p.y < 0,
{
}

/// Where no sample is positive the generated world is empty.
pub proof fn lemma_flat_plane_is_empty(size: int, depths: Seq<i32>)
    requires
        forall|i: int| 0 <= i < depths.len() ==> depths[i] <= 0,
    ensures
        terrain(size, depths) == Set::<Position>::empty(),
{
    assert(terrain(size, depths) =~= Set::<Position>::empty());
}

/// Whether a build that walks the plane column by column, x outermost, and
/// fills each column from the bottom up, has placed the voxel at `p` by the
/// time it comes to height `y` of column `(x, z)`.
pub open spec fn is_terrain_up_to(
    size: int,
    depths: Seq<i32>,
    p: Position,
    x: int,
    z: int,
    y: int,
) -> bool {
    let px = p.x + center(size);
    let pz = p.z + center(size);
    is_terrain(size, depths, p) && (px < x || (px == x && (pz < z || (pz == z && p.y < y))))
}

/// The cells that such a build has placed by then.
pub open spec fn terrain_up_to(size: int, depths: Seq<i32>, x: int, z: int, y: int) -> Set<
    Position,
> {
    Set::new(|p: Position| is_terrain_up_to(size, depths, p, x, z, y))
}

/// Whether column `(x, z)` of a plane of `size` by `size` columns lies in the
/// circular footprint.
pub fn is_in_footprint(size: u32, x: u32, z: u32) -> (b: bool)
    ensures
        b == in_footprint(size as int, x as int, z as int),
{
    if x < size && z < size {
        let c: i128 = (size / 2) as i128;
        let dx: i128 = x as i128 - c;
        let dz: i128 = z as i128 - c;
        let side: i128 = size as i128;
        assert(0 <= dx * dx <= 0xFFFF_FFFF * 0xFFFF_FFFF && 0 <= dz * dz <= 0xFFFF_FFFF
            * 0xFFFF_FFFF && 0 <= side * side <= 0xFFFF_FFFF * 0xFFFF_FFFF) by (nonlinear_arith)
            requires
                -0xFFFF_FFFF <= dx <= 0xFFFF_FFFF,
                -0xFFFF_FFFF <= dz <= 0xFFFF_FFFF,
                0 <= side <= 0xFFFF_FFFF,
        ;
        4 * (dx * dx + dz * dz) <= side * side
    } else {
        false
    }
}

/// A generated world: the seed and size it was made from, and its voxels.
/// Nothing changes it once it is made.
#[derive(Debug)]
pub struct WorldGenerator {
    seed: u32,
    size: u32,
    map: VoxelMap,
}

impl View for WorldGenerator {
    type V = Set<Position>;

    /// The occupied cells.
    closed spec fn view(&self) -> Set<Position> {
        self.map@
    }
}

impl WorldGenerator {
    /// The seed that the world's samples were drawn with.
    pub closed spec fn seed_spec(&self) -> u32 {
        self.seed
    }

    /// The number of columns along each side of the sampled plane.
    pub closed spec fn size_spec(&self) -> u32 {
        self.size
    }

    /// Builds the world for `seed` over a plane of `size` by `size` columns,
    /// which `sample` is asked for: it is called once, with `seed` and `size`,
    /// and hands back the plane's samples row after row, each scaled to a
    /// whole number of voxels. A plane with the wrong number of samples is
    /// rejected.
    pub fn from_seed<F: Fn(u32, u32) -> Vec<i32>>(seed: u32, size: u32, sample: &F) -> (r: Result<
        WorldGenerator,
        GeneratorError,
    >)
        requires
            call_requires(*sample, (seed, size)),
        ensures
            exists|depths: Vec<i32>| #[trigger]
                gives(*sample, seed, size, depths) && is_generated_or_rejected(
                    r,
                    seed,
                    size,
                    depths@,
                ),
    {
        let depths = sample(seed, size);
        let ghost given = depths;
        let r = match DepthMap::new(size, depths) {
            Ok(depth_map) => Ok(Self::from_depth_map(seed, &depth_map)),
            Err(e) => Err(e),
        };
        assert(gives(*sample, seed, size, given) && is_generated_or_rejected(
            r,
            seed,
            size,
            given@,
        ));
        r
    }

    /// Builds the world for a seed drawn from `rng`, over a plane of `size` by
    /// `size` columns that `sample` is asked for with that seed. The seed can
    /// be read back from the world.
    pub fn from_random_seed<F: Fn(u32, u32) -> Vec<i32>>(
        rng: &mut ThreadRng,
        size: u32,
        sample: &F,
    ) -> (r: Result<WorldGenerator, GeneratorError>)
        requires
            forall|seed: u32| call_requires(*sample, (seed, size)),
        ensures
            exists|seed: u32, depths: Vec<i32>| #[trigger]
                gives(*sample, seed, size, depths) && is_generated_or_rejected(
                    r,
                    seed,
                    size,
                    depths@,
                ),
    {
        let seed = draw_seed(rng);
        let r = Self::from_seed(seed, size, sample);
        proof {
            let depths = choose|depths: Vec<i32>| #[trigger]
                gives(*sample, seed, size, depths) && is_generated_or_rejected(
                    r,
                    seed,
                    size,
                    depths@,
                );
            assert(gives(*sample, seed, size, depths));
        }
        r
    }

    /// Builds the world over `depth_map`, whose samples were drawn with
    /// `seed`: a disc of columns centred on the origin, each as deep as its
    /// sample and ending just below height 0.
    pub fn from_depth_map(seed: u32, depth_map: &DepthMap) -> (world: WorldGenerator)
        ensures
            is_generated(world, seed, depth_map.size_spec(), depth_map.depths_spec()),
    {
        let size = depth_map.size();
        let center: u32 = size / 2;
        let ghost n = size as int;
        let ghost depths = depth_map.depths_spec();
        let ghost floor = i32::MIN as int;
        let mut map = VoxelMap::new();
        assert(map@ =~= terrain_up_to(n, depths, 0, 0, floor));
        let mut x: u32 = 0;
        while x < size
            invariant
                x <= size,
                n == size,
                center == size / 2,
                floor == i32::MIN,
                depths == depth_map.depths_spec(),
                size == depth_map.size_spec(),
                map@ == terrain_up_to(n, depths, x as int, 0, floor),
            decreases size - x,
        {
            let mut z: u32 = 0;
            while z < size
                invariant
                    x < size,
                    z <= size,
                    n == size,
                    center == size / 2,
                    floor == i32::MIN,
                    depths == depth_map.depths_spec(),
                    size == depth_map.size_spec(),
                    map@ == terrain_up_to(n, depths, x as int, z as int, floor),
                decreases size - z,
            {
                let depth = depth_map.get_value(x, z);
                if is_in_footprint(size, x, z) && depth > 0 {
                    let px: i32 = (x as i64 - center as i64) as i32;
                    let pz: i32 = (z as i64 - center as i64) as i32;
                    let mut y: i32 = -depth;
                    assert(map@ =~= terrain_up_to(n, depths, x as int, z as int, y as int));
                    while y < 0
                        invariant
                            x < size,
                            z < size,
                            n == size,
                            center == size / 2,
                            px == x - center,
                            pz == z - center,
                            -depth <= y <= 0,
                            depth == sample(n, depths, x as int, z as int),
                            in_footprint(n, x as int, z as int),
                            map@ == terrain_up_to(n, depths, x as int, z as int, y as int),
                        decreases 0 - y,
                    {
                        map.insert(Position::new(px, y, pz));
                        y = y + 1;
                        assert(map@ =~= terrain_up_to(n, depths, x as int, z as int, y as int));
                    }
                }
                z = z + 1;
                assert(map@ =~= terrain_up_to(n, depths, x as int, z as int, floor));
            }
            x = x + 1;
            assert(map@ =~= terrain_up_to(n, depths, x as int, 0, floor));
        }
        assert(map@ =~= terrain(n, depths));
        WorldGenerator { seed, size, map }
    }

    pub fn seed(&self) -> (s: u32)
        ensures
            s == self.seed_spec(),
    {
        self.seed
    }

    pub fn size(&self) -> (s: u32)
        ensures
            s == self.size_spec(),
    {
        self.size
    }

    /// The voxel at `position`, if the cell is occupied.
    pub fn at(&self, position: Position) -> (v: Option<&Voxel>)
        ensures
            v is Some <==> self@.contains(position),
            v is Some ==> v->0.position_spec() == position,
    {
        self.map.at(position)
    }

    /// The face-exposure pass over the world's voxels.
    pub fn to_instances(&self) -> (instances: Vec<Instance>)
        ensures
            is_surface_of(instances@, self@),
    {
        self.map.to_instances()
    }
}

} // verus!
