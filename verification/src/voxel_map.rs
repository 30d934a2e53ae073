use vstd::prelude::*;
use std::collections::HashMap;
use vstd::std_specs::iter::IteratorSpec;
use crate::position::{Face, Position};
use crate::voxel::{Instance, Rotation, Voxel};

verus! {

/// Whether the cell across `face` from `p` exists and is occupied in `cells`.
pub open spec fn covered(cells: Set<Position>, p: Position, face: Face) -> bool {
    p.has_neighbor(face) && cells.contains(p.neighbor_spec(face))
}

/// 1 where `face` of `p` is covered, else 0.
pub open spec fn covered_count(cells: Set<Position>, p: Position, face: Face) -> int {
    if covered(cells, p, face) {
        1
    } else {
        0
    }
}

/// How many of the six faces of `p` are covered by an occupied cell.
pub open spec fn occupied_neighbors(cells: Set<Position>, p: Position) -> int {
    covered_count(cells, p, Face::XPos) + covered_count(cells, p, Face::XNeg) + covered_count(
        cells,
        p,
        Face::YPos,
    ) + covered_count(cells, p, Face::YNeg) + covered_count(cells, p, Face::ZPos)
        + covered_count(cells, p, Face::ZNeg)
}

/// Whether `p` is occupied and shows at least one face: at most five of its
/// six neighbors are occupied.
pub open spec fn exposed(cells: Set<Position>, p: Position) -> bool {
    cells.contains(p) && occupied_neighbors(cells, p) <= 5
}

/// The positions of `instances`, in order.
pub open spec fn positions_of(instances: Seq<Instance>) -> Seq<Position> {
    instances.map_values(|i: Instance| i.position)
}

/// Whether `instances` is the surface of `cells`: one instance for each
/// exposed cell and for no other, none twice, each the instance of the voxel
/// at its position.
pub open spec fn is_surface_of(instances: Seq<Instance>, cells: Set<Position>) -> bool {
    &&& positions_of(instances).no_duplicates()
    &&& forall|p: Position| #[trigger] positions_of(instances).contains(p) <==> exposed(cells, p)
    &&& forall|i: int|
        0 <= i < instances.len() ==> (#[trigger] instances[i]).rotation
            == Rotation::zero_spec()
}

/// A cell whose six neighbors are all occupied is in no surface.
pub proof fn lemma_enclosed_is_culled(instances: Seq<Instance>, cells: Set<Position>, p: Position)
    requires
        is_surface_of(instances, cells),
        occupied_neighbors(cells, p) == 6,
    ensures
        !positions_of(instances).contains(p),
{
}

/// An occupied cell without any occupied neighbor is in every surface.
pub proof fn lemma_isolated_is_kept(instances: Seq<Instance>, cells: Set<Position>, p: Position)
    requires
        is_surface_of(instances, cells),
        cells.contains(p),
        occupied_neighbors(cells, p) == 0,
    ensures
        positions_of(instances).contains(p),
{
}

/// Two surfaces of the same cells show the same positions, and as many.
pub proof fn lemma_surfaces_agree(first: Seq<Instance>, second: Seq<Instance>, cells: Set<Position>)
    requires
        is_surface_of(first, cells),
        is_surface_of(second, cells),
    ensures
        positions_of(first).to_set() == positions_of(second).to_set(),
        first.len() == second.len(),
{
    assert(positions_of(first).to_set() =~= positions_of(second).to_set());
    positions_of(first).unique_seq_to_set();
    positions_of(second).unique_seq_to_set();
}

/// A sparse set of occupied lattice cells, each filed under the key of its
/// position.
#[derive(Debug)]
pub struct VoxelMap {
    cells: HashMap<u128, Voxel>,
}

impl View for VoxelMap {
    type V = Set<Position>;

    /// The occupied cells.
    closed spec fn view(&self) -> Set<Position> {
        Set::new(|p: Position| self.cells@.contains_key(p.key_spec()))
    }
}

impl VoxelMap {
    /// Every entry is filed under the key of the cell that its voxel occupies.
    #[verifier::type_invariant]
    spec fn filed_by_position(self) -> bool {
        forall|k: u128| #[trigger]
            self.cells@.contains_key(k) ==> Position::is_key(k)
                && self.cells@[k].position_spec() == Position::from_key_spec(k)
    }

    pub fn new() -> (m: VoxelMap)
        ensures
            m@ == Set::<Position>::empty(),
    {
        let m = VoxelMap { cells: HashMap::new() };
        assert(m@ =~= Set::<Position>::empty());
        m
    }

    /// Occupies `position`; a voxel already there is overwritten.
    pub fn insert(&mut self, position: Position)
        ensures
            final(self)@ == old(self)@.insert(position),
    {
        proof {
            use_type_invariant(&*self);
        }
        let k = position.key();
        let mut cells: HashMap<u128, Voxel> = HashMap::new();
        std::mem::swap(&mut self.cells, &mut cells);
        cells.insert(k, Voxel::new(position));
        std::mem::swap(&mut self.cells, &mut cells);
        assert(self@ =~= old(self)@.insert(position)) by {
            assert forall|p: Position| self@.contains(p) == old(self)@.insert(position).contains(
                p,
            ) by {
                if p.key_spec() == k {
                    Position::lemma_key_injective(p, position);
                }
            }
        }
    }

    /// Frees `position`; nothing happens where no voxel is.
    pub fn remove(&mut self, position: Position)
        ensures
            final(self)@ == old(self)@.remove(position),
    {
        proof {
            use_type_invariant(&*self);
        }
        let k = position.key();
        let mut cells: HashMap<u128, Voxel> = HashMap::new();
        std::mem::swap(&mut self.cells, &mut cells);
        cells.remove(&k);
        std::mem::swap(&mut self.cells, &mut cells);
        assert(self@ =~= old(self)@.remove(position)) by {
            assert forall|p: Position| self@.contains(p) == old(self)@.remove(position).contains(
                p,
            ) by {
                if p.key_spec() == k {
                    Position::lemma_key_injective(p, position);
                }
            }
        }
    }

    /// The voxel at `position`, if the cell is occupied.
    pub fn at(&self, position: Position) -> (v: Option<&Voxel>)
        ensures
            v is Some <==> self@.contains(position),
            v is Some ==> v->0.position_spec() == position,
    {
        proof {
            use_type_invariant(self);
        }
        let k = position.key();
        self.cells.get(&k)
    }

    pub fn contains(&self, position: Position) -> (b: bool)
        ensures
            b == self@.contains(position),
    {
        let k = position.key();
        self.cells.contains_key(&k)
    }

    /// Whether the cell across `face` from `position` exists and is occupied.
    pub fn is_covered(&self, position: Position, face: Face) -> (b: bool)
        ensures
            b == covered(self@, position, face),
    {
        match position.neighbor(face) {
            Some(n) => self.contains(n),
            None => false,
        }
    }

    /// How many of the six neighbors of `position` are occupied.
    pub fn count_neighbors(&self, position: Position) -> (n: u8)
        ensures
            n == occupied_neighbors(self@, position),
            n <= 6,
    {
        let mut counter: u8 = 0;
        if self.is_covered(position, Face::XPos) {
            counter += 1;
        }
        if self.is_covered(position, Face::XNeg) {
            counter += 1;
        }
        if self.is_covered(position, Face::YPos) {
            counter += 1;
        }
        if self.is_covered(position, Face::YNeg) {
            counter += 1;
        }
        if self.is_covered(position, Face::ZPos) {
            counter += 1;
        }
        if self.is_covered(position, Face::ZNeg) {
            counter += 1;
        }
        counter
    }

    /// The face-exposure pass: one instance per occupied cell that is not
    /// occupied on all six sides, in the order in which the map is walked.
    pub fn to_instances(&self) -> (instances: Vec<Instance>)
        ensures
            is_surface_of(instances@, self@),
            forall|p: Position|
                occupied_neighbors(self@, p) == 6 ==> !(#[trigger] positions_of(
                    instances@,
                ).contains(p)),
            forall|p: Position|
                self@.contains(p) && occupied_neighbors(self@, p) == 0 ==> #[trigger] positions_of(
                    instances@,
                ).contains(p),
    {
        proof {
            use_type_invariant(self);
        }
        let mut instances: Vec<Instance> = Vec::new();
        let keys = self.cells.keys();
        let ghost all = keys.remaining();
        let ghost filed = all.unref();
        assert(filed.no_duplicates()) by {
            assert forall|i: int, j: int| 0 <= i < filed.len() && 0 <= j < filed.len() && i != j implies filed[i] != filed[j] by {
                assert(all[i] != all[j]);
            }
        }
        assert(positions_of(instances@) =~= Seq::<Position>::empty());
        for key in it: keys
            invariant
                it.seq() == all,
                filed == all.unref(),
                filed.no_duplicates(),
                filed.to_set() == self.cells@.dom(),
                forall|k: u128| #[trigger]
                    self.cells@.contains_key(k) ==> Position::is_key(k)
                        && self.cells@[k].position_spec() == Position::from_key_spec(k),
                positions_of(instances@).no_duplicates(),
                forall|p: Position| #[trigger]
                    positions_of(instances@).contains(p) <==> exposed(self@, p) && exists|j: int|
                        0 <= j < it.index() && filed[j] == p.key_spec(),
                forall|i: int|
                    0 <= i < instances.len() ==> (#[trigger] instances[i]).rotation
                        == Rotation::zero_spec(),
        {
            let ghost at = it.index();
            let ghost before = instances@;
            assert(filed[at] == *key);
            assert(self.cells@.contains_key(*key)) by {
                assert(filed.to_set().contains(filed[at]));
            }
            let position = Position::from_key(*key);
            let mut kept = false;
            if self.count_neighbors(position) <= 5 {
                let origin = self.cells.get(key);
                match origin {
                    Some(voxel) => {
                        instances.push(voxel.to_instance());
                        kept = true;
                    },
                    None => {},
                }
            }
            proof {
                assert(self@.contains(position));
                assert(kept == exposed(self@, position));
                if kept {
                    assert(positions_of(instances@) =~= positions_of(before).push(position));
                    assert(!positions_of(before).contains(position)) by {
                        if positions_of(before).contains(position) {
                            let j = choose|j: int| 0 <= j < at && filed[j] == position.key_spec();
                            assert(filed[j] == filed[at]);
                        }
                    }
                }
                assert forall|p: Position| #[trigger]
                    positions_of(instances@).contains(p) <==> exposed(self@, p) && exists|j: int|
                        0 <= j < at + 1 && filed[j] == p.key_spec() by {
                    if positions_of(before).contains(p) {
                        let j = choose|j: int| 0 <= j < at && filed[j] == p.key_spec();
                        assert(0 <= j < at + 1 && filed[j] == p.key_spec());
                        if kept {
                            let w = choose|w: int| 0 <= w < positions_of(before).len() && positions_of(before)[w] == p;
                            assert(positions_of(instances@)[w] == p);
                        }
                    } else if kept && p == position {
                        assert(positions_of(instances@)[before.len() as int] == p);
                        assert(0 <= at < at + 1 && filed[at] == p.key_spec());
                    } else {
                        if exposed(self@, p) && exists|j: int| 0 <= j < at + 1 && filed[j] == p.key_spec() {
                            let j = choose|j: int| 0 <= j < at + 1 && filed[j] == p.key_spec();
                            if j == at {
                                Position::lemma_key_injective(p, position);
                            } else {
                                assert(0 <= j < at && filed[j] == p.key_spec());
                            }
                        }
                    }
                }
            }
        }
        proof {
            assert forall|p: Position| #[trigger]
                positions_of(instances@).contains(p) <==> exposed(self@, p) by {
                if exposed(self@, p) {
                    assert(filed.to_set().contains(p.key_spec()));
                    let j = choose|j: int| 0 <= j < filed.len() && filed[j] == p.key_spec();
                    assert(0 <= j < filed.len() && filed[j] == p.key_spec());
                }
            }
        }
        instances
    }
}

} // verus!
