use vstd::prelude::*;
use crate::position::Position;

verus! {

/// What a solid decides for one lattice cell.
#[derive(Clone, Copy, Debug, PartialEq, Eq, Structural)]
pub enum ShapeAction {
    /// Occupy the cell, overwriting a voxel already there.
    Additive,
    /// Free the cell.
    Subtractive,
    /// Leave the cell as it is.
    NoChange,
}

/// The action that takes effect at a cell: the requested one inside the
/// solid's footprint, `NoChange` outside it.
pub open spec fn effective_action(inside: bool, requested: ShapeAction) -> ShapeAction {
    if inside {
        requested
    } else {
        ShapeAction::NoChange
    }
}

/// A parametric solid: a predicate over lattice cells that carries no
/// mutable state.
pub trait Shapable {
    /// Whether `point` lies in the solid's footprint.
    spec fn covers(&self, point: Position) -> bool;

    /// The action that takes effect at `point` when `action` is requested.
    fn shape_action(&self, action: ShapeAction, point: Position) -> (effective: ShapeAction)
        ensures
            effective == effective_action(self.covers(point), action),
    ;
}

/// The squared Euclidean distance between two cells.
pub open spec fn squared_distance(a: Position, b: Position) -> int {
    (a.x - b.x) * (a.x - b.x) + (a.y - b.y) * (a.y - b.y) + (a.z - b.z) * (a.z - b.z)
}

/// The square of the difference of two coordinates.
fn squared_difference(a: i32, b: i32) -> (sq: u128)
    ensures
        sq == (a - b) * (a - b),
        sq <= 0xFFFF_FFFF * 0xFFFF_FFFF,
{
    let d: i64 = a as i64 - b as i64;
    let m: u128 = if d < 0 {
        (-d) as u128
    } else {
        d as u128
    };
    assert(m * m == (a - b) * (a - b) && m * m <= 0xFFFF_FFFF * 0xFFFF_FFFF) by (nonlinear_arith)
        requires
            m == a - b || m == -(a - b),
            0 <= m <= 0xFFFF_FFFF,
    ;
    m * m
}

/// A ball of whole-numbered radius around a centre cell.
#[derive(Clone, Copy, Debug, PartialEq, Eq, Structural)]
pub struct Sphere {
    pub center: Position,
    pub radius: u32,
}

impl Sphere {
    pub fn new(center: Position, radius: u32) -> (s: Sphere)
        ensures
            s == (Sphere { center, radius }),
    {
        Sphere { center, radius }
    }
}

/// The square of a whole number is 0 for 0, 1 for 1 and -1, and at least 4
/// otherwise.
proof fn lemma_small_squares(d: int)
    ensures
        d == 0 ==> d * d == 0,
        d == 1 || d == -1 ==> d * d == 1,
        d >= 2 || d <= -2 ==> d * d >= 4,
{
    assert(d == 0 ==> d * d == 0) by (nonlinear_arith);
    assert(d == 1 || d == -1 ==> d * d == 1) by (nonlinear_arith);
    assert(d >= 2 || d <= -2 ==> d * d >= 4) by (nonlinear_arith);
}

/// The distance between two coordinates.
pub open spec fn apart(a: int, b: int) -> int {
    if a >= b {
        a - b
    } else {
        b - a
    }
}

/// A ball of radius 1 is the seven-cell cross: its centre and the six cells
/// that share a face with the centre.
pub proof fn lemma_unit_sphere_is_cross(center: Position, point: Position)
    ensures
        (Sphere { center, radius: 1 }).covers(point) <==> apart(center.x as int, point.x as int)
            + apart(center.y as int, point.y as int) + apart(center.z as int, point.z as int)
            <= 1,
{
    lemma_small_squares(center.x - point.x);
    lemma_small_squares(center.y - point.y);
    lemma_small_squares(center.z - point.z);
    assert(1u32 * 1u32 == 1) by (nonlinear_arith);
}

impl Shapable for Sphere {
    /// A cell is in the ball when its squared distance from the centre is at
    /// most the squared radius.
    open spec fn covers(&self, point: Position) -> bool {
        squared_distance(self.center, point) <= self.radius * self.radius
    }

    fn shape_action(&self, action: ShapeAction, point: Position) -> (effective: ShapeAction) {
        let dx = squared_difference(self.center.x, point.x);
        let dy = squared_difference(self.center.y, point.y);
        let dz = squared_difference(self.center.z, point.z);
        let r: u128 = self.radius as u128;
        assert(r * r <= 0xFFFF_FFFF * 0xFFFF_FFFF) by (nonlinear_arith)
            requires
                0 <= r <= 0xFFFF_FFFF,
        ;
        if dx + dy + dz <= r * r {
            action
        } else {
            ShapeAction::NoChange
        }
    }
}

/// A cube that reaches `diameter - 1` cells from its centre along each axis.
#[derive(Clone, Copy, Debug, PartialEq, Eq, Structural)]
pub struct UniformCube {
    pub center: Position,
    pub diameter: u32,
}

/// Whether `v` is within `reach` of `center`.
pub open spec fn within_reach(center: int, reach: int, v: int) -> bool {
    center - reach <= v <= center + reach
}

fn is_within_reach(center: i32, reach: i64, v: i32) -> (b: bool)
    requires
        -1 <= reach <= u32::MAX,
    ensures
        b == within_reach(center as int, reach as int, v as int),
{
    center as i64 - reach <= v as i64 && v as i64 <= center as i64 + reach
}

impl UniformCube {
    pub fn new(center: Position, diameter: u32) -> (c: UniformCube)
        ensures
            c == (UniformCube { center, diameter }),
    {
        UniformCube { center, diameter }
    }

    /// How far the cube reaches from its centre; -1, and so no cell at all,
    /// for a diameter of 0.
    pub open spec fn half_width(&self) -> int {
        self.diameter - 1
    }

    /// A cube of diameter 1 covers its centre and nothing else.
    pub proof fn lemma_unit_cube_is_its_center(center: Position, point: Position)
        ensures
            (UniformCube { center, diameter: 1 }).covers(point) <==> point == center,
    {
    }
}

impl Shapable for UniformCube {
    open spec fn covers(&self, point: Position) -> bool {
        &&& within_reach(self.center.x as int, self.half_width(), point.x as int)
        &&& within_reach(self.center.y as int, self.half_width(), point.y as int)
        &&& within_reach(self.center.z as int, self.half_width(), point.z as int)
    }

    fn shape_action(&self, action: ShapeAction, point: Position) -> (effective: ShapeAction) {
        let reach: i64 = self.diameter as i64 - 1;
        if is_within_reach(self.center.x, reach, point.x) && is_within_reach(
            self.center.y,
            reach,
            point.y,
        ) && is_within_reach(self.center.z, reach, point.z) {
            action
        } else {
            ShapeAction::NoChange
        }
    }
}

/// Where a `VariableCube` is anchored.
#[derive(Clone, Copy, Debug, PartialEq, Eq, Structural)]
pub enum Anchor {
    /// The anchor cell is the box's minimum corner.
    Corner,
    /// The anchor cell is the box's centroid.
    Center,
}

/// An axis-aligned box of `width` by `height` by `depth` cells.
#[derive(Clone, Copy, Debug, PartialEq, Eq, Structural)]
pub struct VariableCube {
    pub anchor: Position,
    pub anchored: Anchor,
    pub width: u32,
    pub height: u32,
    pub depth: u32,
}

/// The lowest coordinate of a box side of `extent` cells anchored at `anchor`.
/// A centred side starts half its extent below the anchor, the half taken by
/// integer division: with an odd extent the anchor is the middle cell, with an
/// even one the cell just above the middle.
pub open spec fn side_start(anchor: int, anchored: Anchor, extent: int) -> int {
    match anchored {
        Anchor::Corner => anchor,
        Anchor::Center => anchor - extent / 2,
    }
}

/// Whether `v` falls on a box side of `extent` cells anchored at `anchor`.
pub open spec fn on_side(anchor: int, anchored: Anchor, extent: int, v: int) -> bool {
    side_start(anchor, anchored, extent) <= v < side_start(anchor, anchored, extent) + extent
}

fn is_on_side(anchor: i32, anchored: Anchor, extent: u32, v: i32) -> (b: bool)
    ensures
        b == on_side(anchor as int, anchored, extent as int, v as int),
{
    let start: i64 = match anchored {
        Anchor::Corner => anchor as i64,
        Anchor::Center => anchor as i64 - (extent / 2) as i64,
    };
    start <= v as i64 && (v as i64) < start + extent as i64
}

impl VariableCube {
    /// The box whose minimum corner is `origin`.
    pub fn at_point(origin: Position, width: u32, height: u32, depth: u32) -> (c: VariableCube)
        ensures
            c == (VariableCube { anchor: origin, anchored: Anchor::Corner, width, height, depth }),
    {
        VariableCube { anchor: origin, anchored: Anchor::Corner, width, height, depth }
    }

    /// The box whose centroid is `center`, each half extent rounded down.
    pub fn at_center(center: Position, width: u32, height: u32, depth: u32) -> (c: VariableCube)
        ensures
            c == (VariableCube { anchor: center, anchored: Anchor::Center, width, height, depth }),
    {
        VariableCube { anchor: center, anchored: Anchor::Center, width, height, depth }
    }
}

impl Shapable for VariableCube {
    open spec fn covers(&self, point: Position) -> bool {
        &&& on_side(self.anchor.x as int, self.anchored, self.width as int, point.x as int)
        &&& on_side(self.anchor.y as int, self.anchored, self.height as int, point.y as int)
        &&& on_side(self.anchor.z as int, self.anchored, self.depth as int, point.z as int)
    }

    fn shape_action(&self, action: ShapeAction, point: Position) -> (effective: ShapeAction) {
        if is_on_side(self.anchor.x, self.anchored, self.width, point.x) && is_on_side(
            self.anchor.y,
            self.anchored,
            self.height,
            point.y,
        ) && is_on_side(self.anchor.z, self.anchored, self.depth, point.z) {
            action
        } else {
            ShapeAction::NoChange
        }
    }
}

} // verus!
