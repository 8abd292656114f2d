//! Collectible tokens: opaque rectangles that reward the player on touch.
//!
//! Tokens scroll downward like platforms; one that passes the bottom edge
//! wraps back above the top onto a random horizontal slot.
use vstd::prelude::*;
use crate::collide::RectV;
use crate::enemy::COORD_LIMIT;
use crate::rng::{new_rng, random_below};
use crate::vec2::{Vec2, V2, comp_bounded};
use crate::WINDOW_HEIGHT;

verus! {

/// Horizontal grid pitch of a randomized token slot (16 units).
pub const TOKEN_GRID_X: i64 = 16_000;
/// Vertical grid pitch of a randomized token slot (15 units).
pub const TOKEN_GRID_Y: i64 = 15_000;

pub struct Token {
    position: Vec2,
    dimension: Vec2,
    rng: rand::rngs::ThreadRng,
}

impl Token {
    /// The rectangle this token occupies.
    pub closed spec fn v(self) -> RectV {
        RectV { pos: self.position.v(), dim: self.dimension.v() }
    }

    /// Field ranges every method keeps.
    pub open spec fn wf(self) -> bool {
        &&& comp_bounded(self.v().pos, COORD_LIMIT as int)
        &&& 0 <= self.v().dim.x <= 1_000_000
        &&& 0 <= self.v().dim.y <= 1_000_000
    }

    /// A new token: either at the given position, or on a random slot of the
    /// 30-by-43 spawn grid.
    pub fn new(dim: Vec2, use_random: bool, pos: Vec2) -> (r: Token)
        requires
            comp_bounded(pos.v(), COORD_LIMIT as int),
            0 <= dim.v().x <= 1_000_000,
            0 <= dim.v().y <= 1_000_000,
        ensures
            r.wf(),
            r.v().dim == dim.v(),
            !use_random ==> r.v().pos == pos.v(),
            use_random ==> (exists|gx: int|
                0 <= gx <= 29 && r.v().pos.x == #[trigger] (gx * TOKEN_GRID_X)),
            use_random ==> (exists|gy: int|
                0 <= gy <= 42 && r.v().pos.y == #[trigger] (gy * TOKEN_GRID_Y)),
    {
        let mut rng = new_rng();
        if use_random {
            let gy = random_below(&mut rng, 43) as i64;
            let gx = random_below(&mut rng, 30) as i64;
            let t = Token {
                position: Vec2::new(gx * TOKEN_GRID_X, gy * TOKEN_GRID_Y),
                dimension: dim,
                rng,
            };
            proof {
                assert(0 <= gx <= 29 && 0 <= gy <= 42 && t.v().pos == (V2 {
                    x: (gx as int) * TOKEN_GRID_X,
                    y: (gy as int) * TOKEN_GRID_Y,
                }));
            }
            t
        } else {
            Token { position: pos, dimension: dim, rng }
        }
    }

    /// One scroll step: drift down by the shared speed; past the bottom
    /// edge, wrap back above the top onto a random horizontal slot.
    pub fn update(&mut self, down_speed: i64)
        requires
            old(self).wf(),
            0 <= down_speed <= 1_000_000,
            old(self).v().pos.y <= COORD_LIMIT - 1_000_000,
        ensures
            final(self).wf(),
            final(self).v().dim == old(self).v().dim,
            old(self).v().pos.y + down_speed < WINDOW_HEIGHT ==> final(self).v().pos == (V2 {
                x: old(self).v().pos.x,
                y: old(self).v().pos.y + down_speed,
            }),
            old(self).v().pos.y + down_speed >= WINDOW_HEIGHT ==> {
                &&& final(self).v().pos.y == old(self).v().pos.y + down_speed - (
                WINDOW_HEIGHT + TOKEN_GRID_Y)
                &&& (exists|gx: int|
                    0 <= gx <= 29 && final(self).v().pos.x == #[trigger] (gx * TOKEN_GRID_X))
            },
    {
        self.position.y = self.position.y + down_speed;
        if self.position.y >= WINDOW_HEIGHT {
            self.position.y = self.position.y - (WINDOW_HEIGHT + TOKEN_GRID_Y);
            let gx = random_below(&mut self.rng, 30) as i64;
            self.position.x = gx * TOKEN_GRID_X;
            proof {
                assert(0 <= gx as int <= 29 && self.v().pos.x == (gx as int) * TOKEN_GRID_X);
            }
        }
    }

    pub fn get_pos(&self) -> (r: Vec2)
        ensures
            r.v() == self.v().pos,
    {
        self.position
    }

    pub fn get_dim(&self) -> (r: Vec2)
        ensures
            r.v() == self.v().dim,
    {
        self.dimension
    }
}

} // verus!
