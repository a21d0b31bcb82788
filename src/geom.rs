//! Fixed-point plane geometry.
use vstd::prelude::*;

verus! {

/// Number of world units in one scene unit: positions are ten-thousandths.
pub const SCALE: i32 = 10_000;

/// Fixed-point one for the components of a rotation.
pub const ROT_ONE: i32 = 10_000;

/// A point or vector in world units.
#[derive(Clone, Copy, Debug, PartialEq, Eq, Structural, Hash)]
pub struct Vec2 {
    pub x: i32,
    pub y: i32,
}

/// A rotation given by its cosine and sine, each scaled by `ROT_ONE`.
#[derive(Clone, Copy, Debug, PartialEq, Eq, Structural, Hash)]
pub struct Rotation {
    pub cos: i32,
    pub sin: i32,
}

/// A vector in a body's local frame, in world units times `ROT_ONE`.
#[derive(Clone, Copy, Debug, PartialEq, Eq, Structural, Hash)]
pub struct LocalPoint {
    pub x: i128,
    pub y: i128,
}

impl Vec2 {
    pub fn new(x: i32, y: i32) -> (r: Vec2)
        ensures
            r == (Vec2 { x, y }),
    {
        Vec2 { x, y }
    }

    pub fn zero() -> (r: Vec2)
        ensures
            r == (Vec2 { x: 0, y: 0 }),
    {
        Vec2 { x: 0, y: 0 }
    }
}

impl Rotation {
    /// The identity rotation.
    pub fn identity() -> (r: Rotation)
        ensures
            r == (Rotation { cos: ROT_ONE, sin: 0 }),
    {
        Rotation { cos: ROT_ONE, sin: 0 }
    }
}

/// Squared Euclidean distance between two points.
pub open spec fn sq_dist(a: Vec2, b: Vec2) -> int {
    (a.x - b.x) * (a.x - b.x) + (a.y - b.y) * (a.y - b.y)
}

/// Whether `a` lies within distance `radius` of `b`, boundary included.
pub open spec fn within(a: Vec2, b: Vec2, radius: int) -> bool {
    sq_dist(a, b) <= radius * radius
}

/// `rot` undone on `p - origin`: the vector from `origin` to `p` seen from a
/// frame turned by `rot`.
pub open spec fn to_local(rot: Rotation, origin: Vec2, p: Vec2) -> (int, int) {
    let dx = p.x - origin.x;
    let dy = p.y - origin.y;
    (rot.cos * dx + rot.sin * dy, rot.cos * dy - rot.sin * dx)
}

pub fn squared_distance(a: Vec2, b: Vec2) -> (r: i128)
    ensures
        r == sq_dist(a, b),
{
    let dx = a.x as i128 - b.x as i128;
    let dy = a.y as i128 - b.y as i128;
    assert(0 <= dx * dx <= 0x1_0000_0000_0000_0000) by (nonlinear_arith)
        requires
            -0x1_0000_0000 <= dx <= 0x1_0000_0000,
    ;
    assert(0 <= dy * dy <= 0x1_0000_0000_0000_0000) by (nonlinear_arith)
        requires
            -0x1_0000_0000 <= dy <= 0x1_0000_0000,
    ;
    dx * dx + dy * dy
}

/// Whether `a` lies within distance `radius` of `b`, boundary included.
pub fn is_within(a: Vec2, b: Vec2, radius: i64) -> (r: bool)
    ensures
        r == within(a, b, radius as int),
{
    let d = squared_distance(a, b);
    let r = radius as i128;
    assert(0 <= r * r <= 0x4000_0000_0000_0000_0000_0000_0000_0000) by (nonlinear_arith)
        requires
            -0x8000_0000_0000_0000 <= r <= 0x8000_0000_0000_0000,
    ;
    d <= r * r
}

/// The vector from `origin` to `p`, expressed in a frame turned by `rot`.
pub fn local_point(rot: Rotation, origin: Vec2, p: Vec2) -> (r: LocalPoint)
    ensures
        (r.x as int, r.y as int) == to_local(rot, origin, p),
{
    let dx = p.x as i128 - origin.x as i128;
    let dy = p.y as i128 - origin.y as i128;
    let c = rot.cos as i128;
    let s = rot.sin as i128;
    assert(-0x2_0000_0000_0000_0000 <= c * dx <= 0x2_0000_0000_0000_0000) by (nonlinear_arith)
        requires
            -0x1_0000_0000 <= dx <= 0x1_0000_0000,
            -0x8000_0000 <= c <= 0x8000_0000,
    ;
    assert(-0x2_0000_0000_0000_0000 <= s * dy <= 0x2_0000_0000_0000_0000) by (nonlinear_arith)
        requires
            -0x1_0000_0000 <= dy <= 0x1_0000_0000,
            -0x8000_0000 <= s <= 0x8000_0000,
    ;
    assert(-0x2_0000_0000_0000_0000 <= c * dy <= 0x2_0000_0000_0000_0000) by (nonlinear_arith)
        requires
            -0x1_0000_0000 <= dy <= 0x1_0000_0000,
            -0x8000_0000 <= c <= 0x8000_0000,
    ;
    assert(-0x2_0000_0000_0000_0000 <= s * dx <= 0x2_0000_0000_0000_0000) by (nonlinear_arith)
        requires
            -0x1_0000_0000 <= dx <= 0x1_0000_0000,
            -0x8000_0000 <= s <= 0x8000_0000,
    ;
    LocalPoint { x: c * dx + s * dy, y: c * dy - s * dx }
}

} // verus!
