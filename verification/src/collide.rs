//! The two-axis swept collision test shared by every pairing.
//!
//! Each axis is tested independently: the actor's leading edge is projected
//! with its velocity on the axis under test, while the cross axis is tested
//! where the actor currently stands. A pairing decides what a hit means; the
//! geometry here is the one primitive they all share.
use vstd::prelude::*;
use crate::vec2::{Vec2, V2, comp_bounded};

verus! {

/// An axis-aligned rectangle: top-left corner and extent.
pub struct RectV {
    pub pos: V2,
    pub dim: V2,
}

/// Swept test on the horizontal axis: the horizontal edges are projected
/// with the horizontal velocity, the vertical extent is tested in place.
/// The four disjunctions are the four ways of being clear of the target.
pub open spec fn hit_x(pos: V2, vel: V2, dim: V2, t: RectV) -> bool {
    let fut_x = pos.x + vel.x;
    !(fut_x >= t.pos.x + t.dim.x || fut_x + dim.x <= t.pos.x || pos.y >= t.pos.y + t.dim.y
        || pos.y + dim.y <= t.pos.y)
}

/// Swept test on the vertical axis, the mirror image of `hit_x`.
pub open spec fn hit_y(pos: V2, vel: V2, dim: V2, t: RectV) -> bool {
    let fut_y = pos.y + vel.y;
    !(pos.x >= t.pos.x + t.dim.x || pos.x + dim.x <= t.pos.x || fut_y >= t.pos.y + t.dim.y
        || fut_y + dim.y <= t.pos.y)
}

/// An actor clear of the target on both axes registers no hit at all, so no
/// pairing's response can change any of its state.
pub proof fn lemma_clear_means_no_hit(pos: V2, vel: V2, dim: V2, t: RectV)
    requires
        pos.x + vel.x >= t.pos.x + t.dim.x || pos.x + vel.x + dim.x <= t.pos.x,
        pos.y + vel.y >= t.pos.y + t.dim.y || pos.y + vel.y + dim.y <= t.pos.y,
        pos.x >= t.pos.x + t.dim.x || pos.x + dim.x <= t.pos.x,
        pos.y >= t.pos.y + t.dim.y || pos.y + dim.y <= t.pos.y,
    ensures
        !hit_x(pos, vel, dim, t),
        !hit_y(pos, vel, dim, t),
{
}

/// Executable swept test on the horizontal axis.
pub fn overlap_x(pos: Vec2, vel: Vec2, dim: Vec2, tpos: Vec2, tdim: Vec2) -> (r: bool)
    requires
        comp_bounded(pos.v(), 2_100_000_000),
        comp_bounded(vel.v(), 400_000_000),
        comp_bounded(dim.v(), 1_000_000),
        comp_bounded(tpos.v(), 2_100_000_000),
        comp_bounded(tdim.v(), 1_000_000),
    ensures
        r == hit_x(pos.v(), vel.v(), dim.v(), RectV { pos: tpos.v(), dim: tdim.v() }),
{
    let fut_x = pos.x + vel.x;
    if fut_x >= tpos.x + tdim.x {
        false
    } else if fut_x + dim.x <= tpos.x {
        false
    } else if pos.y >= tpos.y + tdim.y {
        false
    } else if pos.y + dim.y <= tpos.y {
        false
    } else {
        true
    }
}

/// Executable swept test on the vertical axis.
pub fn overlap_y(pos: Vec2, vel: Vec2, dim: Vec2, tpos: Vec2, tdim: Vec2) -> (r: bool)
    requires
        comp_bounded(pos.v(), 2_100_000_000),
        comp_bounded(vel.v(), 400_000_000),
        comp_bounded(dim.v(), 1_000_000),
        comp_bounded(tpos.v(), 2_100_000_000),
        comp_bounded(tdim.v(), 1_000_000),
    ensures
        r == hit_y(pos.v(), vel.v(), dim.v(), RectV { pos: tpos.v(), dim: tdim.v() }),
{
    let fut_y = pos.y + vel.y;
    if pos.x >= tpos.x + tdim.x {
        false
    } else if pos.x + dim.x <= tpos.x {
        false
    } else if fut_y >= tpos.y + tdim.y {
        false
    } else if fut_y + dim.y <= tpos.y {
        false
    } else {
        true
    }
}

} // verus!
