use vstd::prelude::*;
use crate::position::Position;
use crate::shapable::{effective_action, Shapable, ShapeAction};
use crate::voxel::{Instance, Voxel};
use crate::voxel_map::{is_surface_of, VoxelMap};

verus! {

/// Why a shape could not be made.
#[derive(Clone, Copy, Debug, PartialEq, Eq, Structural)]
pub enum ShapeError {
    /// On some axis the minimum bound lies above the maximum bound.
    InvertedBounds,
}

/// Whether `min` lies at or below `max` on every axis.
pub open spec fn ordered(min: Position, max: Position) -> bool {
    min.x <= max.x && min.y <= max.y && min.z <= max.z
}

/// Whether `p` lies in the half-open region from `min` up to `max`.
pub open spec fn in_region(min: Position, max: Position, p: Position) -> bool {
    &&& min.x <= p.x < max.x
    &&& min.y <= p.y < max.y
    &&& min.z <= p.z < max.z
}

/// Whether `p` is occupied once `action` has taken effect on a cell that was
/// occupied or not as `was` says.
pub open spec fn occupied_after(was: bool, action: ShapeAction) -> bool {
    match action {
        ShapeAction::Additive => true,
        ShapeAction::Subtractive => false,
        ShapeAction::NoChange => was,
    }
}

/// The cells occupied after one pass of `shapeable` over the region: inside
/// the region each cell follows the action that takes effect there, outside
/// it nothing changes.
pub open spec fn processed<S: Shapable>(
    cells: Set<Position>,
    min: Position,
    max: Position,
    action: ShapeAction,
    shapeable: S,
) -> Set<Position> {
    Set::new(
        |p: Position|
            if in_region(min, max, p) {
                occupied_after(cells.contains(p), effective_action(shapeable.covers(p), action))
            } else {
                cells.contains(p)
            },
    )
}

/// Whether a scan of the region in x, then y, then z order that has come to
/// the cell `(x, y, z)` has passed `p` already.
pub open spec fn scanned(min: Position, max: Position, p: Position, x: int, y: int, z: int) -> bool {
    in_region(min, max, p) && (p.x < x || (p.x == x && (p.y < y || (p.y == y && p.z < z))))
}

/// The cells occupied while a pass of `shapeable` is under way and has come
/// to the cell `(x, y, z)`.
pub open spec fn processed_up_to<S: Shapable>(
    cells: Set<Position>,
    min: Position,
    max: Position,
    action: ShapeAction,
    shapeable: S,
    x: int,
    y: int,
    z: int,
) -> Set<Position> {
    Set::new(
        |p: Position|
            if scanned(min, max, p, x, y, z) {
                occupied_after(cells.contains(p), effective_action(shapeable.covers(p), action))
            } else {
                cells.contains(p)
            },
    )
}

/// Carving: an additive pass followed by a subtractive pass of the same solid
/// leaves no voxel where the solid's footprint meets the region, and leaves
/// every other cell as it was before the two passes.
pub proof fn lemma_carve<S: Shapable>(
    cells: Set<Position>,
    min: Position,
    max: Position,
    shapeable: S,
    p: Position,
)
    ensures
        ({
            let added = processed(cells, min, max, ShapeAction::Additive, shapeable);
            let carved = processed(added, min, max, ShapeAction::Subtractive, shapeable);
            &&& in_region(min, max, p) && shapeable.covers(p) ==> !carved.contains(p)
            &&& !(in_region(min, max, p) && shapeable.covers(p)) ==> carved.contains(p)
                == cells.contains(p)
        }),
{
}

/// A pass that requests `NoChange` changes nothing, however often it is
/// repeated.
pub proof fn lemma_no_change_is_identity<S: Shapable>(
    cells: Set<Position>,
    min: Position,
    max: Position,
    shapeable: S,
)
    ensures
        processed(cells, min, max, ShapeAction::NoChange, shapeable) == cells,
{
    assert(processed(cells, min, max, ShapeAction::NoChange, shapeable) =~= cells);
}

/// A pass never occupies a cell outside the region.
pub proof fn lemma_pass_stays_in_region<S: Shapable>(
    cells: Set<Position>,
    min: Position,
    max: Position,
    action: ShapeAction,
    shapeable: S,
    p: Position,
)
    requires
        forall|q: Position| #[trigger] cells.contains(q) ==> in_region(min, max, q),
        processed(cells, min, max, action, shapeable).contains(p),
    ensures
        in_region(min, max, p),
{
}

/// A bounded region of the lattice and the voxels that occupy it.
#[derive(Debug)]
pub struct Shape {
    min: Position,
    max: Position,
    map: VoxelMap,
}

impl View for Shape {
    type V = Set<Position>;

    /// The occupied cells.
    closed spec fn view(&self) -> Set<Position> {
        self.map@
    }
}

impl Shape {
    /// The bounds are in order and every occupied cell lies within them.
    #[verifier::type_invariant]
    spec fn bounded(self) -> bool {
        &&& ordered(self.min, self.max)
        &&& forall|p: Position| #[trigger] self.map@.contains(p) ==> in_region(self.min, self.max, p)
    }

    /// The lowest corner of the region.
    pub closed spec fn min_spec(&self) -> Position {
        self.min
    }

    /// The corner just past the highest cell of the region.
    pub closed spec fn max_spec(&self) -> Position {
        self.max
    }

    /// An empty shape over the region from `min` up to, not including, `max`.
    /// Bounds that are inverted on any axis are rejected.
    pub fn new(min: Position, max: Position) -> (r: Result<Shape, ShapeError>)
        ensures
            r is Ok <==> ordered(min, max),
            r matches Ok(s) ==> s@ == Set::<Position>::empty() && s.min_spec() == min
                && s.max_spec() == max,
            r matches Err(e) ==> e == ShapeError::InvertedBounds,
    {
        if min.x <= max.x && min.y <= max.y && min.z <= max.z {
            Ok(Shape { min, max, map: VoxelMap::new() })
        } else {
            Err(ShapeError::InvertedBounds)
        }
    }

    pub fn min(&self) -> (p: Position)
        ensures
            p == self.min_spec(),
            ordered(self.min_spec(), self.max_spec()),
    {
        proof {
            use_type_invariant(self);
        }
        self.min
    }

    pub fn max(&self) -> (p: Position)
        ensures
            p == self.max_spec(),
    {
        self.max
    }

    /// The voxel at `position`, if the cell is occupied.
    pub fn at(&self, position: Position) -> (v: Option<&Voxel>)
        ensures
            v is Some <==> self@.contains(position),
            v is Some ==> v->0.position_spec() == position,
            v is Some ==> in_region(self.min_spec(), self.max_spec(), position),
    {
        proof {
            use_type_invariant(self);
        }
        self.map.at(position)
    }

    /// One pass of `shapeable` over the region: every cell of the region is
    /// visited once and follows the action that takes effect there. Hands the
    /// shape back so that passes can be chained.
    pub fn process<S: Shapable>(&mut self, action: ShapeAction, shapeable: &S) -> (shape: &mut Self)
        ensures
            shape@ == processed(
                old(self)@,
                old(self).min_spec(),
                old(self).max_spec(),
                action,
                *shapeable,
            ),
            shape.min_spec() == old(self).min_spec(),
            shape.max_spec() == old(self).max_spec(),
            *final(self) == *final(shape),
    {
        proof {
            use_type_invariant(&*self);
        }
        let min = self.min;
        let max = self.max;
        let mut map = VoxelMap::new();
        std::mem::swap(&mut self.map, &mut map);
        let ghost before = map@;
        assert(map@ =~= processed_up_to(
            before,
            min,
            max,
            action,
            *shapeable,
            min.x as int,
            min.y as int,
            min.z as int,
        ));
        let mut x: i32 = min.x;
        while x < max.x
            invariant
                ordered(min, max),
                min.x <= x <= max.x,
                forall|p: Position| #[trigger] before.contains(p) ==> in_region(min, max, p),
                map@ == processed_up_to(
                    before,
                    min,
                    max,
                    action,
                    *shapeable,
                    x as int,
                    min.y as int,
                    min.z as int,
                ),
            decreases max.x - x,
        {
            let mut y: i32 = min.y;
            while y < max.y
                invariant
                    ordered(min, max),
                    min.x <= x < max.x,
                    min.y <= y <= max.y,
                    forall|p: Position| #[trigger] before.contains(p) ==> in_region(min, max, p),
                    map@ == processed_up_to(
                        before,
                        min,
                        max,
                        action,
                        *shapeable,
                        x as int,
                        y as int,
                        min.z as int,
                    ),
                decreases max.y - y,
            {
                let mut z: i32 = min.z;
                while z < max.z
                    invariant
                        ordered(min, max),
                        min.x <= x < max.x,
                        min.y <= y < max.y,
                        min.z <= z <= max.z,
                        forall|p: Position| #[trigger]
                            before.contains(p) ==> in_region(min, max, p),
                        map@ == processed_up_to(
                            before,
                            min,
                            max,
                            action,
                            *shapeable,
                            x as int,
                            y as int,
                            z as int,
                        ),
                    decreases max.z - z,
                {
                    let point = Position::new(x, y, z);
                    match shapeable.shape_action(action, point) {
                        ShapeAction::Additive => {
                            map.insert(point);
                        },
                        ShapeAction::Subtractive => {
                            map.remove(point);
                        },
                        ShapeAction::NoChange => {},
                    }
                    z = z + 1;
                    assert(map@ =~= processed_up_to(
                        before,
                        min,
                        max,
                        action,
                        *shapeable,
                        x as int,
                        y as int,
                        z as int,
                    ));
                }
                y = y + 1;
                assert(map@ =~= processed_up_to(
                    before,
                    min,
                    max,
                    action,
                    *shapeable,
                    x as int,
                    y as int,
                    min.z as int,
                ));
            }
            x = x + 1;
            assert(map@ =~= processed_up_to(
                before,
                min,
                max,
                action,
                *shapeable,
                x as int,
                min.y as int,
                min.z as int,
            ));
        }
        assert(map@ =~= processed(before, min, max, action, *shapeable));
        std::mem::swap(&mut self.map, &mut map);
        self
    }

    /// The face-exposure pass over the shape's voxels.
    pub fn make_instances(&self) -> (instances: Vec<Instance>)
        ensures
            is_surface_of(instances@, self@),
    {
        self.map.to_instances()
    }
}

} // verus!
