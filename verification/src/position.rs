use vstd::prelude::*;

verus! {

/// A cell of the integer lattice.
#[derive(Clone, Copy, Debug, PartialEq, Eq, Structural)]
pub struct Position {
    pub x: i32,
    pub y: i32,
    pub z: i32,
}

/// One of the six axis-aligned directions in which a cell has a face.
#[derive(Clone, Copy, Debug, PartialEq, Eq, Structural)]
pub enum Face {
    XPos,
    XNeg,
    YPos,
    YNeg,
    ZPos,
    ZNeg,
}

impl Face {
    /// The step along the x axis that crosses this face.
    pub open spec fn dx(self) -> int {
        match self {
            Face::XPos => 1,
            Face::XNeg => -1,
            _ => 0,
        }
    }

    /// The step along the y axis that crosses this face.
    pub open spec fn dy(self) -> int {
        match self {
            Face::YPos => 1,
            Face::YNeg => -1,
            _ => 0,
        }
    }

    /// The step along the z axis that crosses this face.
    pub open spec fn dz(self) -> int {
        match self {
            Face::ZPos => 1,
            Face::ZNeg => -1,
            _ => 0,
        }
    }
}

/// Whether `v` is a coordinate that a lattice cell can have.
pub open spec fn is_coordinate(v: int) -> bool {
    i32::MIN <= v <= i32::MAX
}

impl Position {
    pub fn new(x: i32, y: i32, z: i32) -> (p: Position)
        ensures
            p == (Position { x, y, z }),
    {
        Position { x, y, z }
    }

    /// Whether the cell across `face` still lies on the lattice.
    pub open spec fn has_neighbor(self, face: Face) -> bool {
        &&& is_coordinate(self.x + face.dx())
        &&& is_coordinate(self.y + face.dy())
        &&& is_coordinate(self.z + face.dz())
    }

    /// The cell across `face`; meaningful where `has_neighbor` holds.
    pub open spec fn neighbor_spec(self, face: Face) -> Position {
        Position {
            x: (self.x + face.dx()) as i32,
            y: (self.y + face.dy()) as i32,
            z: (self.z + face.dz()) as i32,
        }
    }

    /// The cell across `face`, or `None` at the rim of the lattice, where
    /// there is no such cell.
    pub fn neighbor(&self, face: Face) -> (n: Option<Position>)
        ensures
            n is Some <==> self.has_neighbor(face),
            n is Some ==> n->0 == self.neighbor_spec(face),
    {
        match face {
            Face::XPos => if self.x < i32::MAX {
                Some(Position { x: self.x + 1, y: self.y, z: self.z })
            } else {
                None
            },
            Face::XNeg => if self.x > i32::MIN {
                Some(Position { x: self.x - 1, y: self.y, z: self.z })
            } else {
                None
            },
            Face::YPos => if self.y < i32::MAX {
                Some(Position { x: self.x, y: self.y + 1, z: self.z })
            } else {
                None
            },
            Face::YNeg => if self.y > i32::MIN {
                Some(Position { x: self.x, y: self.y - 1, z: self.z })
            } else {
                None
            },
            Face::ZPos => if self.z < i32::MAX {
                Some(Position { x: self.x, y: self.y, z: self.z + 1 })
            } else {
                None
            },
            Face::ZNeg => if self.z > i32::MIN {
                Some(Position { x: self.x, y: self.y, z: self.z - 1 })
            } else {
                None
            },
        }
    }

    /// The number under which a sparse map files this cell: the three
    /// coordinates, each shifted to be non-negative, as base-2^32 digits.
    pub open spec fn key_spec(self) -> u128 {
        (((self.x - i32::MIN) * 0x1_0000_0000_0000_0000 + (self.y - i32::MIN) * 0x1_0000_0000
            + (self.z - i32::MIN)) as u128)
    }

    /// Whether `k` is the key of some cell.
    pub open spec fn is_key(k: u128) -> bool {
        k < 0x1_0000_0000_0000_0000_0000_0000
    }

    /// The cell that `k` is the key of; meaningful where `is_key` holds.
    pub open spec fn from_key_spec(k: u128) -> Position {
        Position {
            x: ((k / 0x1_0000_0000_0000_0000) + i32::MIN) as i32,
            y: (((k / 0x1_0000_0000) % 0x1_0000_0000) + i32::MIN) as i32,
            z: ((k % 0x1_0000_0000) + i32::MIN) as i32,
        }
    }

    pub fn key(&self) -> (k: u128)
        ensures
            k == self.key_spec(),
            Self::is_key(k),
            Self::from_key_spec(k) == *self,
    {
        let ux: u128 = (self.x as i64 - i32::MIN as i64) as u128;
        let uy: u128 = (self.y as i64 - i32::MIN as i64) as u128;
        let uz: u128 = (self.z as i64 - i32::MIN as i64) as u128;
        ux * 0x1_0000_0000_0000_0000 + uy * 0x1_0000_0000 + uz
    }

    pub fn from_key(k: u128) -> (p: Position)
        requires
            Self::is_key(k),
        ensures
            p == Self::from_key_spec(k),
            p.key_spec() == k,
    {
        let ux: u128 = k / 0x1_0000_0000_0000_0000;
        let uy: u128 = (k / 0x1_0000_0000) % 0x1_0000_0000;
        let uz: u128 = k % 0x1_0000_0000;
        Position {
            x: (ux as i64 + i32::MIN as i64) as i32,
            y: (uy as i64 + i32::MIN as i64) as i32,
            z: (uz as i64 + i32::MIN as i64) as i32,
        }
    }

    /// Two cells with the same key are the same cell.
    pub proof fn lemma_key_injective(p: Position, q: Position)
        requires
            p.key_spec() == q.key_spec(),
        ensures
            p == q,
    {
    }
}

} // verus!
