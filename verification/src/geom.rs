//! Fixed-point geometry: positions, hitboxes and distances in milliunits
//! (1000 milliunits per world unit).

use vstd::prelude::*;

verus! {

/// How close (squared, in squared milliunits) a player must be to an item to
/// interact with it: two world units.
pub const MAX_INTERACTION_DISTANCE_SQUARED: i128 = 4_000_000;

/// A position and orientation: a translation in milliunits and a rotation in
/// millidegrees. Sent from server to client for every physical entity.
#[derive(Clone, Copy, Debug, PartialEq, Eq, Structural)]
pub struct Pos {
    pub x: i32,
    pub y: i32,
    pub rot: i32,
}

impl Pos {
    /// A position at the given translation with no rotation.
    pub fn vec(x: i32, y: i32) -> (r: Pos)
        ensures
            r == (Pos { x, y, rot: 0 }),
    {
        Pos { x, y, rot: 0 }
    }
}

/// The squared distance between the translations of two positions.
pub open spec fn spec_dist_sq(a: Pos, b: Pos) -> int {
    (a.x - b.x) * (a.x - b.x) + (a.y - b.y) * (a.y - b.y)
}

/// The squared distance between two positions, exact in `i128`.
pub fn dist_sq(a: &Pos, b: &Pos) -> (r: i128)
    ensures
        r == spec_dist_sq(*a, *b),
{
    let dx: i64 = a.x as i64 - b.x as i64;
    let dy: i64 = a.y as i64 - b.y as i64;
    proof {
        assert((dx as i128) * (dx as i128) + (dy as i128) * (dy as i128)
            <= 0x20000000000000000i128 && (dx as i128) * (dx as i128) >= 0 && (dy as i128) * (
        dy as i128) >= 0) by (nonlinear_arith)
            requires
                -0x100000000 <= dx <= 0x100000000,
                -0x100000000 <= dy <= 0x100000000,
        ;
    }
    (dx as i128) * (dx as i128) + (dy as i128) * (dy as i128)
}

/// Whether two positions are close enough for a pickup interaction.
pub fn within_interaction_range(a: &Pos, b: &Pos) -> (r: bool)
    ensures
        r == (spec_dist_sq(*a, *b) < MAX_INTERACTION_DISTANCE_SQUARED),
{
    dist_sq(a, b) < MAX_INTERACTION_DISTANCE_SQUARED
}

/// An axis-aligned collision box: half extents in milliunits. Consumed by the
/// external movement/collision systems; the core only replicates it.
#[derive(Clone, Copy, Debug, PartialEq, Eq, Structural)]
pub struct Hitbox {
    pub half_w: i32,
    pub half_h: i32,
}

} // verus!
