//! Scrolling platforms: opaque rectangles the player lands on.
//!
//! Every platform drifts downward by the shared scroll speed; one that passes
//! the bottom edge wraps to a newly randomized slot one row above the top.
use vstd::prelude::*;
use crate::collide::RectV;
use crate::enemy::COORD_LIMIT;
use crate::rng::{new_rng, random_below};
use crate::vec2::{Vec2, V2, comp_bounded};
use crate::WINDOW_HEIGHT;

verus! {

/// Horizontal grid pitch of a randomized platform slot (68 units).
pub const PLATFORM_GRID_X: i64 = 68_000;
/// Vertical grid pitch of a randomized platform slot (37 units).
pub const PLATFORM_GRID_Y: i64 = 37_000;

pub struct Platform {
    position: Vec2,
    dimension: Vec2,
    rng: rand::rngs::ThreadRng,
}

impl Platform {
    /// The rectangle this platform occupies.
    pub closed spec fn v(self) -> RectV {
        RectV { pos: self.position.v(), dim: self.dimension.v() }
    }

    /// Field ranges every method keeps.
    pub open spec fn wf(self) -> bool {
        &&& comp_bounded(self.v().pos, COORD_LIMIT as int)
        &&& 0 <= self.v().dim.x <= 1_000_000
        &&& 0 <= self.v().dim.y <= 1_000_000
    }

    /// A new platform: either at the given position, or on a random slot of
    /// the 10-by-13 spawn grid.
    pub fn new(dim: Vec2, use_random: bool, pos: Vec2) -> (r: Platform)
        requires
            comp_bounded(pos.v(), COORD_LIMIT as int),
            0 <= dim.v().x <= 1_000_000,
            0 <= dim.v().y <= 1_000_000,
        ensures
            r.wf(),
            r.v().dim == dim.v(),
            !use_random ==> r.v().pos == pos.v(),
            use_random ==> (exists|gx: int|
                0 <= gx <= 9 && r.v().pos.x == #[trigger] (gx * PLATFORM_GRID_X)),
            use_random ==> (exists|gy: int|
                0 <= gy <= 12 && r.v().pos.y == #[trigger] (gy * PLATFORM_GRID_Y)
                    + PLATFORM_GRID_Y),
    {
        let mut rng = new_rng();
        if use_random {
            let gx = random_below(&mut rng, 10) as i64;
            let gy = random_below(&mut rng, 13) as i64;
            let p = Platform {
                position: Vec2::new(gx * PLATFORM_GRID_X, gy * PLATFORM_GRID_Y + PLATFORM_GRID_Y),
                dimension: dim,
                rng,
            };
            proof {
                assert(0 <= gx <= 9 && 0 <= gy <= 12 && p.v().pos == (V2 {
                    x: (gx as int) * PLATFORM_GRID_X,
                    y: (gy as int) * PLATFORM_GRID_Y + PLATFORM_GRID_Y,
                }));
            }
            p
        } else {
            Platform { position: pos, dimension: dim, rng }
        }
    }

    /// One scroll step: drift down by the shared speed; past the bottom
    /// edge, wrap one row above the top onto a random horizontal slot.
    pub fn update(&mut self, down_speed: i64)
        requires
            old(self).wf(),
            0 <= down_speed <= 1_000_000,
            old(self).v().pos.y <= COORD_LIMIT - 1_000_000,
        ensures
            final(self).wf(),
            final(self).v().dim == old(self).v().dim,
            old(self).v().pos.y + down_speed < WINDOW_HEIGHT ==> final(self).v().pos == (V2 {
                x: old(self).v().pos.x,
                y: old(self).v().pos.y + down_speed,
            }),
            old(self).v().pos.y + down_speed >= WINDOW_HEIGHT ==> {
                &&& final(self).v().pos.y == old(self).v().pos.y + down_speed - (
                WINDOW_HEIGHT + PLATFORM_GRID_Y)
                &&& (exists|gx: int|
                    0 <= gx <= 9 && final(self).v().pos.x == #[trigger] (gx * PLATFORM_GRID_X))
            },
    {
        self.position.y = self.position.y + down_speed;
        if self.position.y >= WINDOW_HEIGHT {
            self.position.y = self.position.y - (WINDOW_HEIGHT + PLATFORM_GRID_Y);
            let gx = random_below(&mut self.rng, 10) as i64;
            self.position.x = gx * PLATFORM_GRID_X;
            proof {
                assert(0 <= gx as int <= 9 && self.v().pos.x == (gx as int) * PLATFORM_GRID_X);
            }
        }
    }

    pub fn get_pos(&self) -> (r: Vec2)
        ensures
            r.v() == self.v().pos,
    {
        self.position
    }

    pub fn get_dim(&self) -> (r: Vec2)
        ensures
            r.v() == self.v().dim,
    {
        self.dimension
    }
}

} // verus!
