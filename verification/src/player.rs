//! The player controller.
//!
//! Each tick integrates the input intents into the velocity (gravity or the
//! below-floor health drain, horizontal damping, movement, jump, crouch,
//! restart), resolves collisions against platforms, then enemies, then
//! tokens — in that order, since the platform response changes the velocity
//! the later projections use — records the position into the lagged history
//! queue, and finally integrates the position.
use vstd::prelude::*;
use crate::collide::{RectV, hit_x, hit_y, overlap_x, overlap_y};
use crate::enemy::{Enemy, COORD_LIMIT};
use crate::platform::Platform;
use crate::queue::Queue;
use crate::token::Token;
use crate::vec2::{Vec2, V2, add2, comp_bounded, trunc_div, views_of, scale_div};
use crate::{InputIntent, POSITION_BUFFER_SIZE, WINDOW_HEIGHT};

verus! {

/// Downward pull added to the vertical velocity each tick (0.75).
pub const GRAVITY: i64 = 750;
/// Health drained per tick spent below the floor threshold (2.5).
pub const FLOOR_PENALTY: i64 = 2500;
/// Numerator of the per-tick horizontal damping (0.8).
pub const DAMPING_NUM: i64 = 800;
/// Horizontal speed added per held direction key (1.2).
pub const MOVE_SPEED: i64 = 1200;
/// Upward impulse of a jump (15).
pub const JUMP_IMPULSE: i64 = 15_000;
/// Downward impulse of the crouch key (0.4).
pub const DOWN_IMPULSE: i64 = 400;
/// Health cost of touching an enemy on one axis (0.1).
pub const ENEMY_TOUCH_COST: i64 = 100;
/// Upward nudge applied on landing (0.1).
pub const POS_NUDGE: i64 = 100;
/// Health reward of collecting a token (10).
pub const TOKEN_REWARD: i64 = 10_000;
/// Full health (100).
pub const MAX_HEALTH: i64 = 100_000;
/// Largest stored player velocity magnitude per component a tick accepts.
pub const PLAYER_VEL_LIMIT: i64 = 100_000_000;
/// Largest number of targets one collision pass accepts.
pub const MAX_TARGETS: usize = 10_000;

/// The mathematical value of the player.
pub struct PlayerV {
    pub pos: V2,
    pub spawn: V2,
    pub dim: V2,
    pub vel: V2,
    pub hist: Seq<V2>,
    pub health: int,
    pub facing_left: bool,
    pub jumping: bool,
    pub wall_jumping: bool,
    pub collision: bool,
    pub score: int,
}

/// The rectangles of a platform list, in order.
pub open spec fn platform_rects(s: Seq<Platform>) -> Seq<RectV> {
    s.map_values(|p: Platform| p.v())
}

/// The rectangles of an enemy list, in order.
pub open spec fn enemy_rects(s: Seq<Enemy>) -> Seq<RectV> {
    s.map_values(|e: Enemy| RectV { pos: e.v().pos, dim: e.v().dim })
}

/// The rectangles of a token list, in order.
pub open spec fn token_rects(s: Seq<Token>) -> Seq<RectV> {
    s.map_values(|t: Token| t.v())
}

/// Gravity, damping, ceiling stop, movement keys, jump, crouch and restart,
/// applied in this exact order.
pub open spec fn input_steps(p: PlayerV, inp: InputIntent) -> PlayerV {
    let p1 = if p.pos.y < WINDOW_HEIGHT + p.dim.y {
        PlayerV { vel: V2 { x: p.vel.x, y: p.vel.y + GRAVITY }, ..p }
    } else if p.health > 0 {
        PlayerV { health: p.health - FLOOR_PENALTY, ..p }
    } else {
        p
    };
    let p2 = PlayerV {
        vel: V2 { x: trunc_div(p1.vel.x * DAMPING_NUM, 1000), y: p1.vel.y },
        ..p1
    };
    let p3 = if p2.pos.y + p2.vel.y < 0 {
        PlayerV { vel: V2 { x: p2.vel.x, y: 0 }, ..p2 }
    } else {
        p2
    };
    let p4 = if inp.left {
        PlayerV { vel: V2 { x: p3.vel.x - MOVE_SPEED, y: p3.vel.y }, facing_left: true, ..p3 }
    } else {
        p3
    };
    let p5 = if inp.right {
        PlayerV { vel: V2 { x: p4.vel.x + MOVE_SPEED, y: p4.vel.y }, facing_left: false, ..p4 }
    } else {
        p4
    };
    let p6 = if !p5.jumping && inp.jump {
        PlayerV { vel: V2 { x: p5.vel.x, y: p5.vel.y - JUMP_IMPULSE }, jumping: true, ..p5 }
    } else {
        p5
    };
    let p7 = if inp.down {
        PlayerV { vel: V2 { x: p6.vel.x, y: p6.vel.y + DOWN_IMPULSE }, ..p6 }
    } else {
        p6
    };
    if inp.restart {
        PlayerV { health: MAX_HEALTH as int, pos: p7.spawn, ..p7 }
    } else {
        p7
    }
}

/// The platform response: a horizontal hit zeroes the horizontal velocity
/// and, unless already wall-jumping, starts a wall jump; a vertical hit
/// zeroes the vertical velocity and either marks the player as ascending
/// (hit from below) or as grounded with a small upward nudge.
pub open spec fn resolve_platform(p: PlayerV, t: RectV) -> PlayerV {
    let p1 = if hit_x(p.pos, p.vel, p.dim, t) {
        if p.wall_jumping {
            PlayerV { vel: V2 { x: 0, y: p.vel.y }, ..p }
        } else {
            PlayerV { vel: V2 { x: 0, y: p.vel.y }, wall_jumping: true, jumping: false, ..p }
        }
    } else {
        p
    };
    if hit_y(p.pos, p.vel, p.dim, t) {
        if p1.pos.y > t.pos.y {
            PlayerV { vel: V2 { x: p1.vel.x, y: 0 }, collision: true, jumping: true, ..p1 }
        } else {
            PlayerV {
                vel: V2 { x: p1.vel.x, y: 0 },
                collision: true,
                jumping: false,
                wall_jumping: false,
                pos: V2 { x: p1.pos.x, y: p1.pos.y - POS_NUDGE },
                ..p1
            }
        }
    } else {
        p1
    }
}

/// The enemy response: each axis that hits costs the fixed health deduction,
/// each guarded by the health still being positive, so one overlapping tick
/// can cost the deduction twice.
pub open spec fn resolve_enemy(p: PlayerV, t: RectV) -> PlayerV {
    let p1 = if hit_x(p.pos, p.vel, p.dim, t) && p.health > 0 {
        PlayerV { health: p.health - ENEMY_TOUCH_COST, ..p }
    } else {
        p
    };
    if hit_y(p.pos, p.vel, p.dim, t) && p1.health > 0 {
        PlayerV { health: p1.health - ENEMY_TOUCH_COST, ..p1 }
    } else {
        p1
    }
}

/// The token response: a hit on either axis rewards health and score once,
/// and the health is then clamped to full.
pub open spec fn resolve_token(p: PlayerV, t: RectV) -> PlayerV {
    if hit_x(p.pos, p.vel, p.dim, t) || hit_y(p.pos, p.vel, p.dim, t) {
        let p1 = if p.health > 0 {
            PlayerV { health: p.health + TOKEN_REWARD, score: p.score + 1, ..p }
        } else {
            p
        };
        if p1.health > MAX_HEALTH {
            PlayerV { health: MAX_HEALTH as int, ..p1 }
        } else {
            p1
        }
    } else {
        p
    }
}

pub open spec fn resolve_platforms(p: PlayerV, ts: Seq<RectV>) -> PlayerV
    decreases ts.len(),
{
    if ts.len() == 0 {
        p
    } else {
        resolve_platforms(resolve_platform(p, ts[0]), ts.skip(1))
    }
}

pub open spec fn resolve_enemies(p: PlayerV, ts: Seq<RectV>) -> PlayerV
    decreases ts.len(),
{
    if ts.len() == 0 {
        p
    } else {
        resolve_enemies(resolve_enemy(p, ts[0]), ts.skip(1))
    }
}

pub open spec fn resolve_tokens(p: PlayerV, ts: Seq<RectV>) -> PlayerV
    decreases ts.len(),
{
    if ts.len() == 0 {
        p
    } else {
        resolve_tokens(resolve_token(p, ts[0]), ts.skip(1))
    }
}

/// The history step: the current position goes to the back of the queue and,
/// once more than capacity - 1 entries are live, the oldest leaves.
pub open spec fn hist_step(p: PlayerV) -> PlayerV {
    let h = p.hist.push(p.pos);
    if h.len() > POSITION_BUFFER_SIZE - 1 {
        PlayerV { hist: h.skip(1), ..p }
    } else {
        PlayerV { hist: h, ..p }
    }
}

/// One full player tick: inputs, the three collision passes in order, the
/// history step, then position integration.
pub open spec fn player_tick(
    p: PlayerV,
    inp: InputIntent,
    plats: Seq<RectV>,
    foes: Seq<RectV>,
    toks: Seq<RectV>,
) -> PlayerV {
    let p1 = input_steps(p, inp);
    let p2 = resolve_platforms(p1, plats);
    let p3 = resolve_enemies(p2, foes);
    let p4 = resolve_tokens(p3, toks);
    let p5 = hist_step(p4);
    PlayerV { pos: add2(p5.pos, p5.vel), ..p5 }
}

/// An actor fully clear of a target on both axes is untouched by the
/// platform response: velocity, flags, position and everything else keep
/// their values.
pub proof fn lemma_clear_no_response(p: PlayerV, t: RectV)
    requires
        !hit_x(p.pos, p.vel, p.dim, t),
        !hit_y(p.pos, p.vel, p.dim, t),
    ensures
        resolve_platform(p, t) == p,
        resolve_enemy(p, t) == p,
        resolve_token(p, t) == p,
{
}

/// A projected box overlapping a platform from above (the player's top at or
/// above the platform's top) zeroes the vertical velocity and grounds the
/// player: no jump, no wall jump, the collision flag set.
pub proof fn lemma_land_from_above(p: PlayerV, t: RectV)
    requires
        hit_y(p.pos, p.vel, p.dim, t),
        p.pos.y <= t.pos.y,
    ensures
        resolve_platform(p, t).vel.y == 0,
        !resolve_platform(p, t).jumping,
        !resolve_platform(p, t).wall_jumping,
        resolve_platform(p, t).collision,
{
}

/// A token hit on a single axis already pays the reward, exactly once per
/// token: one score point and the health reward, clamped to full.
pub proof fn lemma_token_reward_once(p: PlayerV, t: RectV)
    requires
        hit_x(p.pos, p.vel, p.dim, t) || hit_y(p.pos, p.vel, p.dim, t),
        0 < p.health <= MAX_HEALTH,
    ensures
        resolve_token(p, t).score == p.score + 1,
        resolve_token(p, t).health == (if p.health + TOKEN_REWARD > MAX_HEALTH {
            MAX_HEALTH as int
        } else {
            p.health + TOKEN_REWARD
        }),
        resolve_token(p, t).health <= MAX_HEALTH,
{
}

pub struct Player {
    position: Vec2,
    spawn_pos: Vec2,
    dimension: Vec2,
    velocity: Vec2,
    pos_buf: Queue<Vec2>,
    health: i64,
    is_facing_left: bool,
    is_jumping: bool,
    is_wall_jumping: bool,
    collision: bool,
    move_speed: i64,
    score: u32,
}

impl Player {
    /// The mathematical value of the player.
    pub closed spec fn v(self) -> PlayerV {
        PlayerV {
            pos: self.position.v(),
            spawn: self.spawn_pos.v(),
            dim: self.dimension.v(),
            vel: self.velocity.v(),
            hist: views_of(self.pos_buf@),
            health: self.health as int,
            facing_left: self.is_facing_left,
            jumping: self.is_jumping,
            wall_jumping: self.is_wall_jumping,
            collision: self.collision,
            score: self.score as int,
        }
    }

    /// The ranges every tick re-establishes: a sound history queue holding
    /// at most the buffer size of in-range positions, health between the
    /// lowest overshoot one floor penalty can reach and full, an in-range
    /// spawn anchor and extent, and the fixed move speed.
    pub closed spec fn wf(self) -> bool {
        &&& self.pos_buf.wf()
        &&& self.pos_buf.cap() == POSITION_BUFFER_SIZE
        &&& self.pos_buf@.len() <= POSITION_BUFFER_SIZE
        &&& (forall|i: int|
            0 <= i < self.pos_buf@.len() ==> comp_bounded(
                #[trigger] self.pos_buf@[i].v(),
                COORD_LIMIT as int,
            ))
        &&& -(FLOOR_PENALTY as int) <= self.v().health <= MAX_HEALTH
        &&& comp_bounded(self.v().spawn, COORD_LIMIT - 1_000_000)
        &&& 0 <= self.v().dim.x <= 1_000_000
        &&& 0 <= self.v().dim.y <= 1_000_000
        &&& self.move_speed == MOVE_SPEED
    }

    /// A new player at the start position: at rest, full health, no score,
    /// the history queue filled with the start position.
    pub fn new(start_pos: Vec2) -> (r: Player)
        requires
            comp_bounded(start_pos.v(), COORD_LIMIT - 1_000_000),
        ensures
            r.wf(),
            r.v().pos == start_pos.v(),
            r.v().spawn == start_pos.v(),
            r.v().dim == (V2 { x: 10_000, y: 10_000 }),
            r.v().vel == (V2 { x: 0, y: 0 }),
            r.v().hist == Seq::new(POSITION_BUFFER_SIZE as nat, |i: int| start_pos.v()),
            r.v().health == MAX_HEALTH,
            !r.v().facing_left,
            !r.v().jumping,
            !r.v().wall_jumping,
            !r.v().collision,
            r.v().score == 0,
    {
        let mut q: Queue<Vec2> = Queue::new(POSITION_BUFFER_SIZE);
        q.fill_with(start_pos);
        let r = Player {
            position: start_pos,
            spawn_pos: start_pos,
            dimension: Vec2::new(10_000, 10_000),
            velocity: Vec2::new(0, 0),
            pos_buf: q,
            health: MAX_HEALTH,
            is_facing_left: false,
            is_jumping: false,
            is_wall_jumping: false,
            collision: false,
            move_speed: MOVE_SPEED,
            score: 0,
        };
        proof {
            assert(r.v().hist =~= Seq::new(POSITION_BUFFER_SIZE as nat, |i: int| start_pos.v()));
        }
        r
    }

    /// The player's own lagged position: the history entry four ticks stale,
    /// the zero vector while the queue is still shorter than that.
    pub fn oldest_player_pos(&self) -> (r: Vec2)
        requires
            self.wf(),
        ensures
            r.v() == crate::enemy::lagged_pos(self.v().hist, 4),
    {
        if 4 <= POSITION_BUFFER_SIZE - 1 {
            match self.pos_buf.get_at(4) {
                Some(p) => *p,
                None => Vec2::new(0, 0),
            }
        } else {
            Vec2::new(0, 0)
        }
    }

    /// Read-only view of the history queue, for the agents that chase it.
    pub fn pos_history(&self) -> (r: &Queue<Vec2>)
        ensures
            views_of(r@) == self.v().hist,
            self.wf() ==> r.wf(),
            self.wf() ==> r@.len() <= POSITION_BUFFER_SIZE,
            self.wf() ==> (forall|i: int|
                0 <= i < r@.len() ==> comp_bounded(#[trigger] r@[i].v(), COORD_LIMIT as int)),
    {
        &self.pos_buf
    }

    pub fn get_pos(&self) -> (r: Vec2)
        ensures
            r.v() == self.v().pos,
    {
        self.position
    }

    pub fn get_vel(&self) -> (r: Vec2)
        ensures
            r.v() == self.v().vel,
    {
        self.velocity
    }

    pub fn get_dim(&self) -> (r: Vec2)
        ensures
            r.v() == self.v().dim,
    {
        self.dimension
    }

    pub fn get_health(&self) -> (r: i64)
        ensures
            r == self.v().health,
    {
        self.health
    }

    pub fn get_score(&self) -> (r: u32)
        ensures
            r == self.v().score,
    {
        self.score
    }

    pub fn is_facing_left(&self) -> (r: bool)
        ensures
            r == self.v().facing_left,
    {
        self.is_facing_left
    }

    /// Resolves the player against every platform, front to back.
    fn platform_collisions(&mut self, platforms: &Vec<Platform>)
        requires
            old(self).wf(),
            comp_bounded(old(self).v().pos, 1_100_000_000),
            comp_bounded(old(self).v().vel, 200_000_000),
            platforms@.len() <= MAX_TARGETS,
            forall|i: int| 0 <= i < platforms@.len() ==> (#[trigger] platforms@[i]).wf(),
        ensures
            final(self).v() == resolve_platforms(old(self).v(), platform_rects(platforms@)),
            final(self).wf(),
            comp_bounded(final(self).v().vel, 200_000_000),
            final(self).v().pos.x == old(self).v().pos.x,
            old(self).v().pos.y - 100 * platforms@.len() <= final(self).v().pos.y
                <= old(self).v().pos.y,
            final(self).v().score == old(self).v().score,
            final(self).v().hist == old(self).v().hist,
            final(self).v().vel.x == old(self).v().vel.x || final(self).v().vel.x == 0,
            final(self).v().vel.y == old(self).v().vel.y || final(self).v().vel.y == 0,
    {
        let ghost rects = platform_rects(platforms@);
        let ghost p0 = self.v();
        proof {
            assert(rects.skip(0) =~= rects);
        }
        let mut i: usize = 0;
        while i < platforms.len()
            invariant
                i <= platforms@.len() <= MAX_TARGETS,
                rects == platform_rects(platforms@),
                forall|j: int| 0 <= j < platforms@.len() ==> (#[trigger] platforms@[j]).wf(),
                resolve_platforms(p0, rects) == resolve_platforms(
                    self.v(),
                    rects.skip(i as int),
                ),
                self.wf(),
                comp_bounded(self.v().vel, 200_000_000),
                self.v().pos.x == p0.pos.x,
                p0.pos.y - 100 * (i as int) <= self.v().pos.y <= p0.pos.y,
                self.v().score == p0.score,
                self.v().hist == p0.hist,
                self.v().vel.x == p0.vel.x || self.v().vel.x == 0,
                self.v().vel.y == p0.vel.y || self.v().vel.y == 0,
                comp_bounded(p0.pos, 1_100_000_000),
            decreases platforms@.len() - i,
        {
            let ghost pre = self.v();
            proof {
                assert(rects.skip(i as int)[0] == rects[i as int]);
                assert(rects.skip(i as int).skip(1) =~= rects.skip(i as int + 1));
                assert(rects[i as int] == platforms@[i as int].v());
            }
            let pos = platforms[i].get_pos();
            let dim = platforms[i].get_dim();
            if overlap_x(self.position, self.velocity, self.dimension, pos, dim) {
                self.velocity.x = 0;
                if !self.is_wall_jumping {
                    self.is_wall_jumping = true;
                    self.is_jumping = false;
                }
            }
            if overlap_y(self.position, self.velocity, self.dimension, pos, dim) {
                self.velocity.y = 0;
                self.collision = true;
                if self.position.y > pos.y {
                    self.is_jumping = true;
                } else {
                    self.is_jumping = false;
                    self.position.y = self.position.y - POS_NUDGE;
                    self.is_wall_jumping = false;
                }
            }
            proof {
                assert(self.v() == resolve_platform(pre, rects[i as int]));
            }
            i = i + 1;
        }
        proof {
            assert(rects.skip(platforms@.len() as int) =~= Seq::<RectV>::empty());
        }
    }

    /// Resolves the player against every enemy, front to back; each axis of
    /// overlap costs health independently.
    fn enemy_collisions(&mut self, enemies: &Vec<Enemy>)
        requires
            old(self).wf(),
            comp_bounded(old(self).v().pos, 1_100_000_000),
            comp_bounded(old(self).v().vel, 200_000_000),
            enemies@.len() <= MAX_TARGETS,
            forall|i: int| 0 <= i < enemies@.len() ==> (#[trigger] enemies@[i]).wf(),
            forall|i: int|
                0 <= i < enemies@.len() ==> comp_bounded(
                    (#[trigger] enemies@[i]).v().pos,
                    2_000_000_000,
                ),
        ensures
            final(self).v() == resolve_enemies(old(self).v(), enemy_rects(enemies@)),
            final(self).wf(),
            final(self).v().pos == old(self).v().pos,
            final(self).v().vel == old(self).v().vel,
            final(self).v().score == old(self).v().score,
            final(self).v().hist == old(self).v().hist,
    {
        let ghost rects = enemy_rects(enemies@);
        let ghost p0 = self.v();
        proof {
            assert(rects.skip(0) =~= rects);
        }
        let mut i: usize = 0;
        while i < enemies.len()
            invariant
                i <= enemies@.len() <= MAX_TARGETS,
                rects == enemy_rects(enemies@),
                forall|j: int| 0 <= j < enemies@.len() ==> (#[trigger] enemies@[j]).wf(),
                forall|j: int|
                    0 <= j < enemies@.len() ==> comp_bounded(
                        (#[trigger] enemies@[j]).v().pos,
                        2_000_000_000,
                    ),
                resolve_enemies(p0, rects) == resolve_enemies(self.v(), rects.skip(i as int)),
                self.wf(),
                self.v().pos == p0.pos,
                self.v().vel == p0.vel,
                self.v().score == p0.score,
                self.v().hist == p0.hist,
                comp_bounded(p0.pos, 1_100_000_000),
                comp_bounded(p0.vel, 200_000_000),
            decreases enemies@.len() - i,
        {
            let ghost pre = self.v();
            proof {
                assert(rects.skip(i as int)[0] == rects[i as int]);
                assert(rects.skip(i as int).skip(1) =~= rects.skip(i as int + 1));
                assert(rects[i as int] == (RectV {
                    pos: enemies@[i as int].v().pos,
                    dim: enemies@[i as int].v().dim,
                }));
            }
            let e_pos = enemies[i].get_pos();
            let e_dim = enemies[i].get_dim();
            if overlap_x(self.position, self.velocity, self.dimension, e_pos, e_dim) {
                if self.health > 0 {
                    self.health = self.health - ENEMY_TOUCH_COST;
                }
            }
            if overlap_y(self.position, self.velocity, self.dimension, e_pos, e_dim) {
                if self.health > 0 {
                    self.health = self.health - ENEMY_TOUCH_COST;
                }
            }
            proof {
                assert(self.v() == resolve_enemy(pre, rects[i as int]));
            }
            i = i + 1;
        }
        proof {
            assert(rects.skip(enemies@.len() as int) =~= Seq::<RectV>::empty());
        }
    }

    /// Resolves the player against every token, front to back; a hit on
    /// either axis rewards health (clamped to full) and score once.
    fn token_collisions(&mut self, tokens: &Vec<Token>)
        requires
            old(self).wf(),
            comp_bounded(old(self).v().pos, 1_100_000_000),
            comp_bounded(old(self).v().vel, 200_000_000),
            tokens@.len() <= MAX_TARGETS,
            old(self).v().score + tokens@.len() <= u32::MAX,
            forall|i: int| 0 <= i < tokens@.len() ==> (#[trigger] tokens@[i]).wf(),
        ensures
            final(self).v() == resolve_tokens(old(self).v(), token_rects(tokens@)),
            final(self).wf(),
            final(self).v().pos == old(self).v().pos,
            final(self).v().vel == old(self).v().vel,
    {
        let ghost rects = token_rects(tokens@);
        let ghost p0 = self.v();
        proof {
            assert(rects.skip(0) =~= rects);
        }
        let mut i: usize = 0;
        while i < tokens.len()
            invariant
                i <= tokens@.len() <= MAX_TARGETS,
                rects == token_rects(tokens@),
                forall|j: int| 0 <= j < tokens@.len() ==> (#[trigger] tokens@[j]).wf(),
                resolve_tokens(p0, rects) == resolve_tokens(self.v(), rects.skip(i as int)),
                self.wf(),
                self.v().pos == p0.pos,
                self.v().vel == p0.vel,
                self.v().score <= p0.score + i,
                p0.score + tokens@.len() <= u32::MAX,
                comp_bounded(p0.pos, 1_100_000_000),
                comp_bounded(p0.vel, 200_000_000),
            decreases tokens@.len() - i,
        {
            let ghost pre = self.v();
            proof {
                assert(rects.skip(i as int)[0] == rects[i as int]);
                assert(rects.skip(i as int).skip(1) =~= rects.skip(i as int + 1));
                assert(rects[i as int] == tokens@[i as int].v());
            }
            let t_pos = tokens[i].get_pos();
            let t_dim = tokens[i].get_dim();
            let hx = overlap_x(self.position, self.velocity, self.dimension, t_pos, t_dim);
            let hy = overlap_y(self.position, self.velocity, self.dimension, t_pos, t_dim);
            if hx || hy {
                if self.health > 0 {
                    self.health = self.health + TOKEN_REWARD;
                    self.score = self.score + 1;
                }
                if self.health > MAX_HEALTH {
                    self.health = MAX_HEALTH;
                }
            }
            proof {
                assert(self.v() == resolve_token(pre, rects[i as int]));
            }
            i = i + 1;
        }
        proof {
            assert(rects.skip(tokens@.len() as int) =~= Seq::<RectV>::empty());
        }
    }

    /// One full player tick, in the fixed order: inputs into the
    /// velocity, the three collision passes, the history step, position
    /// integration.
    /// Integrates one tick's input intents into the velocity, health and
    /// position, before any collision pass.
    #[verifier::rlimit(100)]
    fn apply_inputs(&mut self, input: &InputIntent)
        requires
            old(self).wf(),
            comp_bounded(old(self).v().pos, COORD_LIMIT - 1_000_000),
            comp_bounded(old(self).v().vel, PLAYER_VEL_LIMIT as int),
        ensures
            final(self).v() == input_steps(old(self).v(), *input),
            final(self).wf(),
            comp_bounded(final(self).v().pos, COORD_LIMIT - 1_000_000),
            comp_bounded(final(self).v().vel, PLAYER_VEL_LIMIT + 20_000),
    {
        let ghost q0 = self.v();
        if self.position.y < WINDOW_HEIGHT + self.dimension.y {
            self.velocity.y = self.velocity.y + GRAVITY;
        } else {
            if self.health > 0 {
                self.health = self.health - FLOOR_PENALTY;
            }
        }
        let ghost q1 = self.v();
        proof {
            assert(q1 == (if q0.pos.y < WINDOW_HEIGHT + q0.dim.y {
                PlayerV { vel: V2 { x: q0.vel.x, y: q0.vel.y + GRAVITY }, ..q0 }
            } else if q0.health > 0 {
                PlayerV { health: q0.health - FLOOR_PENALTY, ..q0 }
            } else {
                q0
            }));
            crate::vec2::lemma_trunc_div_bound(
                self.velocity.v().x * DAMPING_NUM,
                1000,
                PLAYER_VEL_LIMIT as int,
            );
        }
        self.velocity.x = scale_div(self.velocity.x, DAMPING_NUM, 1000);
        let ghost q2 = self.v();
        proof {
            assert(q2 == (PlayerV {
                vel: V2 { x: trunc_div(q1.vel.x * DAMPING_NUM, 1000), y: q1.vel.y },
                ..q1
            }));
        }
        if self.position.y + self.velocity.y < 0 {
            self.velocity.y = 0;
        }
        let ghost q3 = self.v();
        proof {
            assert(q3 == (if q2.pos.y + q2.vel.y < 0 {
                PlayerV { vel: V2 { x: q2.vel.x, y: 0 }, ..q2 }
            } else {
                q2
            }));
        }
        if input.left {
            self.velocity.x = self.velocity.x - self.move_speed;
            self.is_facing_left = true;
        }
        if input.right {
            self.velocity.x = self.velocity.x + self.move_speed;
            self.is_facing_left = false;
        }
        let ghost q5 = self.v();
        proof {
            let q4 = if input.left {
                PlayerV {
                    vel: V2 { x: q3.vel.x - MOVE_SPEED, y: q3.vel.y },
                    facing_left: true,
                    ..q3
                }
            } else {
                q3
            };
            assert(q5 == (if input.right {
                PlayerV {
                    vel: V2 { x: q4.vel.x + MOVE_SPEED, y: q4.vel.y },
                    facing_left: false,
                    ..q4
                }
            } else {
                q4
            }));
        }
        if !self.is_jumping && input.jump {
            self.velocity.y = self.velocity.y - JUMP_IMPULSE;
            self.is_jumping = true;
        }
        if input.down {
            self.velocity.y = self.velocity.y + DOWN_IMPULSE;
        }
        let ghost q7 = self.v();
        proof {
            let q6 = if !q5.jumping && input.jump {
                PlayerV {
                    vel: V2 { x: q5.vel.x, y: q5.vel.y - JUMP_IMPULSE },
                    jumping: true,
                    ..q5
                }
            } else {
                q5
            };
            assert(q7 == (if input.down {
                PlayerV { vel: V2 { x: q6.vel.x, y: q6.vel.y + DOWN_IMPULSE }, ..q6 }
            } else {
                q6
            }));
        }
        if input.restart {
            self.health = MAX_HEALTH;
            self.position = self.spawn_pos;
        }
        proof {
            assert(self.v() == (if input.restart {
                PlayerV { health: MAX_HEALTH as int, pos: q7.spawn, ..q7 }
            } else {
                q7
            }));
            assert(self.v() == input_steps(q0, *input));
        }
    }

    #[verifier::rlimit(100)]
    pub fn update(
        &mut self,
        input: &InputIntent,
        platforms: &Vec<Platform>,
        enemies: &Vec<Enemy>,
        tokens: &Vec<Token>,
    )
        requires
            old(self).wf(),
            comp_bounded(old(self).v().pos, COORD_LIMIT - 1_000_000),
            comp_bounded(old(self).v().vel, PLAYER_VEL_LIMIT as int),
            platforms@.len() <= MAX_TARGETS,
            enemies@.len() <= MAX_TARGETS,
            tokens@.len() <= MAX_TARGETS,
            old(self).v().score + tokens@.len() <= u32::MAX,
            forall|i: int| 0 <= i < platforms@.len() ==> (#[trigger] platforms@[i]).wf(),
            forall|i: int| 0 <= i < enemies@.len() ==> (#[trigger] enemies@[i]).wf(),
            forall|i: int|
                0 <= i < enemies@.len() ==> comp_bounded(
                    (#[trigger] enemies@[i]).v().pos,
                    2_000_000_000,
                ),
            forall|i: int| 0 <= i < tokens@.len() ==> (#[trigger] tokens@[i]).wf(),
        ensures
            final(self).v() == player_tick(
                old(self).v(),
                *input,
                platform_rects(platforms@),
                enemy_rects(enemies@),
                token_rects(tokens@),
            ),
            final(self).wf(),
            comp_bounded(final(self).v().vel, PLAYER_VEL_LIMIT + 20_000),
            comp_bounded(final(self).v().pos, COORD_LIMIT + PLAYER_VEL_LIMIT + 20_000),
    {
        self.apply_inputs(input);
        let ghost p1v = self.v();
        self.platform_collisions(platforms);
        proof {
            assert(self.v() == resolve_platforms(p1v, platform_rects(platforms@)));
        }
        let ghost p2v = self.v();
        self.enemy_collisions(enemies);
        proof {
            assert(self.v() == resolve_enemies(p2v, enemy_rects(enemies@)));
        }
        let ghost p3v = self.v();
        self.token_collisions(tokens);
        proof {
            assert(self.v() == resolve_tokens(p3v, token_rects(tokens@)));
        }
        let ghost p4v = self.v();
        self.pos_buf.push(self.position);
        proof {
            assert(views_of(self.pos_buf@) =~= p4v.hist.push(p4v.pos));
        }
        if self.pos_buf.get_items_in_q() > POSITION_BUFFER_SIZE - 1 {
            let _ = self.pos_buf.pop();
            proof {
                assert(views_of(self.pos_buf@) =~= p4v.hist.push(p4v.pos).skip(1));
            }
        }
        proof {
            assert(self.v() == hist_step(p4v));
        }
        self.position.y = self.position.y + self.velocity.y;
        self.position.x = self.position.x + self.velocity.x;
        proof {
            assert(self.v() == player_tick(
                old(self).v(),
                *input,
                platform_rects(platforms@),
                enemy_rects(enemies@),
                token_rects(tokens@),
            ));
        }
    }
}

} // verus!
