use vstd::prelude::*;
use crate::position::Position;

verus! {

/// An orientation as the four components of a quaternion.
#[derive(Clone, Copy, Debug, PartialEq, Eq, Structural)]
pub struct Rotation {
    pub s: i32,
    pub x: i32,
    pub y: i32,
    pub z: i32,
}

impl Rotation {
    /// The quaternion whose four components are zero: the orientation that
    /// generated instances carry.
    pub open spec fn zero_spec() -> Rotation {
        Rotation { s: 0, x: 0, y: 0, z: 0 }
    }

    pub fn zero() -> (r: Rotation)
        ensures
            r == Self::zero_spec(),
    {
        Rotation { s: 0, x: 0, y: 0, z: 0 }
    }
}

/// A per-draw transform: where one copy of a shared mesh is placed, and how
/// it is turned.
#[derive(Clone, Copy, Debug, PartialEq, Eq, Structural)]
pub struct Instance {
    pub position: Position,
    pub rotation: Rotation,
}

impl Instance {
    pub fn new(position: Position, rotation: Rotation) -> (i: Instance)
        ensures
            i == (Instance { position, rotation }),
    {
        Instance { position, rotation }
    }
}

/// An occupied lattice cell.
#[derive(Clone, Copy, Debug, PartialEq, Eq, Structural)]
pub struct Voxel {
    position: Position,
}

impl Voxel {
    /// The cell that the voxel occupies.
    pub closed spec fn position_spec(&self) -> Position {
        self.position
    }

    pub fn new(position: Position) -> (v: Voxel)
        ensures
            v.position_spec() == position,
    {
        Voxel { position }
    }

    pub fn position(&self) -> (p: Position)
        ensures
            p == self.position_spec(),
    {
        self.position
    }

    /// The instance that draws this voxel: at the voxel's cell, with the
    /// all-zero rotation.
    pub open spec fn to_instance_spec(&self) -> Instance {
        Instance { position: self.position_spec(), rotation: Rotation::zero_spec() }
    }

    pub fn to_instance(&self) -> (i: Instance)
        ensures
            i == self.to_instance_spec(),
    {
        Instance::new(self.position, Rotation::zero())
    }
}

} // verus!
