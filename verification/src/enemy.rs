//! The bat agent: a per-agent state machine over two behaviours.
//!
//! In `Chase` the agent heads for a stale player position, sampled at its own
//! fixed offset into the player's history queue. In `Boid` it follows the
//! classic flocking rules: cohesion toward the perceived centroid, separation
//! from close neighbours, velocity matching, a nudge away from the window
//! edges, and an attraction toward the lagged player position. Either way the
//! velocity then passes a speed clamp and is integrated into the position.
use vstd::prelude::*;
use crate::queue::Queue;
use crate::rng::random_below;
use crate::vec2::{
    Vec2, V2, add2, sub2, scale2, div2, zero2, norm_sq, dist_sq2, comp_bounded, trunc_div,
    views_of, isqrt_spec, isqrt, lemma_isqrt_bounds, lemma_sq_bound, scale_div,
};
use crate::{POSITION_BUFFER_SIZE, WINDOW_WIDTH, WINDOW_HEIGHT};

verus! {

/// Maximum speed after the clamp, in thousandths of a unit per tick (4.5).
pub const MAX_SPEED: i64 = 4500;
/// Neighbours closer than this repel (15 units).
pub const SEPARATION_DISTANCE: i64 = 15_000;
/// Numerator of the 0.005 factor shared by cohesion, separation, matching and
/// player attraction; the denominator is the fixed-point scale.
pub const FLOCK_FACTOR: i64 = 5;
/// Distance from a window edge inside which the edge pushes back (10 units).
pub const WINDOW_MARGIN: i64 = 10_000;
/// Strength of the push away from a window edge (0.2).
pub const EDGE_TURN: i64 = 200;
/// Numerator of the per-tick self-reinforcing growth in flock mode (1.01).
pub const GROWTH_NUM: i64 = 1010;
/// Numerator of the release impulse on the x axis when leaving Chase (10.74).
pub const RELEASE_X_NUM: i64 = 10_740;
/// Numerator of the release impulse on the y axis when leaving Chase (10.5).
pub const RELEASE_Y_NUM: i64 = 10_500;
/// Seed of the centroid accumulator (0.02 on the x axis).
pub const CENTER_SEED_X: i64 = 20;
/// Largest coordinate magnitude the simulation accepts; keeps every product
/// in the rules inside `i64`.
pub const COORD_LIMIT: i64 = 1_000_000_000;
/// Largest stored agent velocity magnitude per component the rules accept.
pub const AGENT_VEL_LIMIT: i64 = 1_000_000;
/// Largest perception radius the rules accept.
pub const MAX_VISUAL_RANGE: i64 = 500_000;
/// Largest population the flocking sums accept.
pub const MAX_POPULATION: usize = 100_000;

/// The two behaviours of an agent.
#[derive(Clone, Copy, PartialEq, Eq, Structural, Debug)]
pub enum BatState {
    Chase,
    Boid,
}

/// The mathematical value of an agent.
pub struct EnemyV {
    pub id: int,
    pub pos: V2,
    pub vel: V2,
    pub dim: V2,
    pub dest_ind: int,
    pub facing_left: bool,
    pub chasing: bool,
    pub center: V2,
    pub vr: int,
}

/// The peers within the perception radius (inclusive), in population order.
/// Self-distance is zero, so an agent whose own position is in the list
/// always perceives at least itself.
pub open spec fn visible_peers(ps: Seq<V2>, pos: V2, vr: int) -> Seq<V2>
    decreases ps.len(),
{
    if ps.len() == 0 {
        Seq::empty()
    } else {
        let rest = visible_peers(ps.drop_last(), pos, vr);
        if dist_sq2(pos, ps.last()) <= vr * vr {
            rest.push(ps.last())
        } else {
            rest
        }
    }
}

/// Componentwise sum of a sequence of vectors.
pub open spec fn sum2(s: Seq<V2>) -> V2
    decreases s.len(),
{
    if s.len() == 0 {
        zero2()
    } else {
        add2(sum2(s.drop_last()), s.last())
    }
}

/// Perceived centroid: the average of the perceived peers, seeded with the
/// small (0.02, 0) offset. Meaningful only for a nonempty perceived set.
pub open spec fn center_of(seen: Seq<V2>) -> V2 {
    div2(add2(V2 { x: CENTER_SEED_X as int, y: 0 }, sum2(seen)), seen.len() as int)
}

/// Cohesion: pull toward the perceived centroid, scaled by 0.005.
pub open spec fn cohesion(center: V2, pos: V2) -> V2 {
    scale2(sub2(center, pos), FLOCK_FACTOR as int, 1000)
}

/// Accumulated repulsion: away from every member of the whole population
/// strictly closer than the separation distance.
pub open spec fn repulsion(ps: Seq<V2>, pos: V2) -> V2
    decreases ps.len(),
{
    if ps.len() == 0 {
        zero2()
    } else {
        let rest = repulsion(ps.drop_last(), pos);
        if dist_sq2(pos, ps.last()) < SEPARATION_DISTANCE * SEPARATION_DISTANCE {
            add2(rest, sub2(pos, ps.last()))
        } else {
            rest
        }
    }
}

/// Separation: the accumulated repulsion scaled by 0.005.
pub open spec fn separation(ps: Seq<V2>, pos: V2) -> V2 {
    scale2(repulsion(ps, pos), FLOCK_FACTOR as int, 1000)
}

/// Sum of the population's velocities that differ from the agent's own.
pub open spec fn matching_sum(vs: Seq<V2>, vel: V2) -> V2
    decreases vs.len(),
{
    if vs.len() == 0 {
        zero2()
    } else {
        let rest = matching_sum(vs.drop_last(), vel);
        if vs.last() != vel {
            add2(rest, vs.last())
        } else {
            rest
        }
    }
}

/// Velocity matching: the differing velocities averaged over the population
/// minus one, less the agent's own velocity, scaled by 0.005.
pub open spec fn velocity_matching(vs: Seq<V2>, vel: V2) -> V2 {
    scale2(sub2(div2(matching_sum(vs, vel), vs.len() - 1), vel), FLOCK_FACTOR as int, 1000)
}

/// Bounds avoidance: a fixed inward nudge near any of the four window edges.
pub open spec fn bounds_nudge(pos: V2) -> V2 {
    V2 {
        x: (if pos.x < WINDOW_MARGIN { EDGE_TURN as int } else { 0 })
            + (if pos.x > WINDOW_WIDTH - WINDOW_MARGIN { -(EDGE_TURN as int) } else { 0 }),
        y: (if pos.y < WINDOW_MARGIN { EDGE_TURN as int } else { 0 })
            + (if pos.y > WINDOW_HEIGHT - WINDOW_MARGIN { -(EDGE_TURN as int) } else { 0 }),
    }
}

/// Player attraction: toward the lagged player position, scaled by 0.005,
/// when it lies strictly within the perception radius; zero otherwise.
pub open spec fn player_attraction(pos: V2, target: V2, vr: int) -> V2 {
    if dist_sq2(pos, target) < vr * vr {
        scale2(sub2(target, pos), FLOCK_FACTOR as int, 1000)
    } else {
        zero2()
    }
}

/// The stale position at offset `ind` from the front of a history queue;
/// the zero vector when the offset is out of range.
pub open spec fn lagged_pos(hist: Seq<V2>, ind: int) -> V2 {
    if ind <= POSITION_BUFFER_SIZE - 1 && 0 <= ind < hist.len() {
        hist[ind]
    } else {
        zero2()
    }
}

/// The flocking velocity delta: the five rule outputs summed, not averaged.
pub open spec fn flock_delta(pos: V2, vel: V2, target: V2, ps: Seq<V2>, vs: Seq<V2>, vr: int) -> V2 {
    let c = center_of(visible_peers(ps, pos, vr));
    add2(
        add2(add2(add2(cohesion(c, pos), separation(ps, pos)), velocity_matching(vs, vel)),
            bounds_nudge(pos)),
        player_attraction(pos, target, vr),
    )
}

/// The speed clamp: a velocity whose squared magnitude exceeds the maximum is
/// rescaled onto (just about) the maximum circle, preserving direction.
pub open spec fn clamp_vel(v: V2) -> V2 {
    if norm_sq(v) > MAX_SPEED * MAX_SPEED {
        scale2(v, MAX_SPEED as int, isqrt_spec(norm_sq(v) as nat) as int)
    } else {
        v
    }
}

/// Chase velocity: straight from the agent's position to the stale target.
pub open spec fn chase_vel(pos: V2, hist: Seq<V2>, ind: int) -> V2 {
    sub2(lagged_pos(hist, ind), pos)
}

/// The toggle command: Chase becomes Boid with the asymmetric release
/// impulse applied to the velocity; Boid becomes Chase unchanged.
pub open spec fn toggle_spec(e: EnemyV) -> EnemyV {
    if e.chasing {
        EnemyV {
            chasing: false,
            vel: V2 {
                x: trunc_div(e.vel.x * RELEASE_X_NUM, 1000),
                y: trunc_div(e.vel.y * RELEASE_Y_NUM, 1000),
            },
            ..e
        }
    } else {
        EnemyV { chasing: true, ..e }
    }
}

/// One tick of an agent against the previous tick's population snapshot
/// (`ps`, `vs`, index-aligned) and the player's history queue.
pub open spec fn enemy_tick(e: EnemyV, hist: Seq<V2>, ps: Seq<V2>, vs: Seq<V2>) -> EnemyV {
    let target = lagged_pos(hist, e.dest_ind);
    let raw = if e.chasing {
        chase_vel(e.pos, hist, e.dest_ind)
    } else {
        add2(scale2(e.vel, GROWTH_NUM as int, 1000), flock_delta(e.pos, e.vel, target, ps, vs, e.vr))
    };
    let v = clamp_vel(raw);
    let c = if e.chasing {
        e.center
    } else {
        center_of(visible_peers(ps, e.pos, e.vr))
    };
    EnemyV {
        vel: v,
        pos: add2(e.pos, v),
        facing_left: v.x < 0,
        center: c,
        ..e
    }
}

/// Filtering keeps at most as many peers as the population holds.
pub proof fn lemma_visible_len(ps: Seq<V2>, pos: V2, vr: int)
    ensures
        visible_peers(ps, pos, vr).len() <= ps.len(),
    decreases ps.len(),
{
    if ps.len() > 0 {
        lemma_visible_len(ps.drop_last(), pos, vr);
    }
}

/// An agent whose own position stands in the population always perceives at
/// least one peer (itself): the flocking centroid is never an average over
/// an empty set.
pub proof fn lemma_visible_nonempty(ps: Seq<V2>, pos: V2, vr: int)
    requires
        vr >= 0,
        exists|i: int| 0 <= i < ps.len() && ps[i] == pos,
    ensures
        visible_peers(ps, pos, vr).len() >= 1,
    decreases ps.len(),
{
    let i = choose|i: int| 0 <= i < ps.len() && ps[i] == pos;
    lemma_sq_bound(vr, vr);
    if i == ps.len() - 1 {
        assert(ps.last() == pos);
        assert(dist_sq2(pos, ps.last()) == 0);
    } else {
        assert(ps.drop_last()[i] == ps[i]);
        lemma_visible_nonempty(ps.drop_last(), pos, vr);
    }
}

/// With a single perceived peer the flocking centroid is exactly that peer's
/// position plus the (0.02, 0) seed, divided by one.
pub proof fn lemma_centroid_single_peer(p: V2)
    ensures
        center_of(seq![p]) == (V2 { x: p.x + CENTER_SEED_X, y: p.y }),
{
    let s = seq![p];
    assert(s.drop_last() =~= Seq::<V2>::empty());
    assert(sum2(s) == add2(sum2(Seq::<V2>::empty()), p));
    vstd::arithmetic::div_mod::lemma_div_basics(p.x + CENTER_SEED_X);
    vstd::arithmetic::div_mod::lemma_div_basics(p.y as int);
    vstd::arithmetic::div_mod::lemma_div_basics(-(p.x + CENTER_SEED_X));
    vstd::arithmetic::div_mod::lemma_div_basics(-p.y);
}

/// Separation is boundary-exclusive: a peer at exactly the separation
/// distance (or farther) contributes no repulsion at all; only strictly
/// closer peers repel.
pub proof fn lemma_separation_boundary(ps: Seq<V2>, pos: V2, b: V2)
    requires
        dist_sq2(pos, b) >= SEPARATION_DISTANCE * SEPARATION_DISTANCE,
    ensures
        repulsion(ps.push(b), pos) == repulsion(ps, pos),
{
    assert(ps.push(b).drop_last() =~= ps);
    assert(ps.push(b).last() == b);
}

/// A chasing agent with lag offset `ind` aims, before the speed clamp,
/// exactly at the stale position minus its own position: with offset zero
/// and a known front entry `p`, the raw chase velocity is `p - pos`.
pub proof fn lemma_chase_targets_stale(pos: V2, hist: Seq<V2>, p: V2)
    requires
        hist.len() > 0,
        hist[0] == p,
    ensures
        chase_vel(pos, hist, 0) == sub2(p, pos),
{
}

/// The speed clamp keeps every velocity within the maximum: after the clamp
/// the squared magnitude is at most `(MAX_SPEED + 1) * (MAX_SPEED + 1)` — the
/// speed never exceeds 4.5 units per tick plus one fixed-point epsilon — and
/// each component stays within `MAX_SPEED`.
pub proof fn lemma_speed_clamp(v: V2)
    requires
        comp_bounded(v, 2_100_000_000),
    ensures
        norm_sq(clamp_vel(v)) <= (MAX_SPEED + 1) * (MAX_SPEED + 1),
        comp_bounded(clamp_vel(v), MAX_SPEED as int),
{
    let s = norm_sq(v);
    lemma_sq_bound(v.x as int, 2_100_000_000);
    lemma_sq_bound(v.y as int, 2_100_000_000);
    if s > MAX_SPEED * MAX_SPEED {
        lemma_isqrt_bounds(s as nat);
        let m = isqrt_spec(s as nat) as int;
        assert(m * m <= s);
        assert(s < (m + 1) * (m + 1));
        assert(m >= 4500) by (nonlinear_arith)
            requires
                m >= 0,
                s < (m + 1) * (m + 1),
                s > 4500 * 4500,
        ;
        assert(-m <= v.x <= m && -m <= v.y <= m) by (nonlinear_arith)
            requires
                s == v.x * v.x + v.y * v.y,
                s < (m + 1) * (m + 1),
                m >= 0,
        ;
        let px = if v.x >= 0 { v.x } else { -v.x };
        let py = if v.y >= 0 { v.y } else { -v.y };
        let qx = trunc_div(v.x * 4500, m);
        let qy = trunc_div(v.y * 4500, m);
        let ux = trunc_div(px * 4500, m);
        let uy = trunc_div(py * 4500, m);
        if v.x < 0 {
            crate::vec2::lemma_trunc_div_neg(px * 4500, m);
            assert(v.x * 4500 == -(px * 4500));
        }
        if v.y < 0 {
            crate::vec2::lemma_trunc_div_neg(py * 4500, m);
            assert(v.y * 4500 == -(py * 4500));
        }
        assert(qx == ux || qx == -ux);
        assert(qy == uy || qy == -uy);
        crate::vec2::lemma_div_mul_le(px * 4500, m);
        crate::vec2::lemma_div_mul_le(py * 4500, m);
        assert(ux == (px * 4500) / m);
        assert(uy == (py * 4500) / m);
        assert(ux * m <= px * 4500 && 0 <= ux);
        assert(uy * m <= py * 4500 && 0 <= uy);
        assert(px * 4500 <= m * 4500);
        assert(py * 4500 <= m * 4500);
        assert(ux <= 4500) by (nonlinear_arith)
            requires
                ux * m <= m * 4500,
                m > 0,
                ux >= 0,
        ;
        assert(uy <= 4500) by (nonlinear_arith)
            requires
                uy * m <= m * 4500,
                m > 0,
                uy >= 0,
        ;
        assert(ux * ux * (m * m) <= ((v.x * v.x) * (4500 * 4500))) by (nonlinear_arith)
            requires
                0 <= ux,
                0 <= m,
                ux * m <= px * 4500,
                0 <= px * 4500,
                px == v.x || px == -v.x,
        ;
        assert(uy * uy * (m * m) <= ((v.y * v.y) * (4500 * 4500))) by (nonlinear_arith)
            requires
                0 <= uy,
                0 <= m,
                uy * m <= py * 4500,
                0 <= py * 4500,
                py == v.y || py == -v.y,
        ;
        assert((ux * ux + uy * uy) * (m * m) <= s * (4500 * 4500)) by (nonlinear_arith)
            requires
                ux * ux * (m * m) <= ((v.x * v.x) * (4500 * 4500)),
                uy * uy * (m * m) <= ((v.y * v.y) * (4500 * 4500)),
                s == v.x * v.x + v.y * v.y,
        ;
        assert(4500 * (m + 1) <= 4501 * m);
        assert(s * (4500 * 4500) <= (m * m) * (4501 * 4501) - 4500 * 4500) by (nonlinear_arith)
            requires
                s <= (m + 1) * (m + 1) - 1,
                0 <= 4500 * (m + 1),
                4500 * (m + 1) <= 4501 * m,
        ;
        assert(ux * ux + uy * uy <= 4501 * 4501 - 1) by (nonlinear_arith)
            requires
                (ux * ux + uy * uy) * (m * m) <= (m * m) * (4501 * 4501) - 4500 * 4500,
                m >= 4500,
        ;
        assert(qx * qx == ux * ux && qy * qy == uy * uy) by (nonlinear_arith)
            requires
                qx == ux || qx == -ux,
                qy == uy || qy == -uy,
        ;
        assert(clamp_vel(v) == scale2(v, MAX_SPEED as int, m));
        assert(-4500 <= qx <= 4500 && -4500 <= qy <= 4500);
    } else {
        assert(-4500 <= v.x <= 4500 && -4500 <= v.y <= 4500) by (nonlinear_arith)
            requires
                v.x * v.x + v.y * v.y <= 4500 * 4500,
        ;
        assert(4500 * 4500 <= 4501 * 4501) by (nonlinear_arith);
    }
}

/// An enemy agent.
pub struct Enemy {
    id: u16,
    position: Vec2,
    velocity: Vec2,
    dimension: Vec2,
    dest_ind: usize,
    is_facing_left: bool,
    state: BatState,
    boids_center: Vec2,
    visual_range: i64,
}

impl Enemy {
    /// The mathematical value of this agent.
    pub closed spec fn v(self) -> EnemyV {
        EnemyV {
            id: self.id as int,
            pos: self.position.v(),
            vel: self.velocity.v(),
            dim: self.dimension.v(),
            dest_ind: self.dest_ind as int,
            facing_left: self.is_facing_left,
            chasing: self.state is Chase,
            center: self.boids_center.v(),
            vr: self.visual_range as int,
        }
    }

    /// The ranges the agent's fields stay inside so that every rule's
    /// arithmetic fits the fixed-point representation.
    pub open spec fn wf(self) -> bool {
        &&& 0 <= self.v().vr <= MAX_VISUAL_RANGE
        &&& 0 <= self.v().dest_ind < POSITION_BUFFER_SIZE
        &&& comp_bounded(self.v().vel, AGENT_VEL_LIMIT as int)
        &&& comp_bounded(self.v().dim, AGENT_VEL_LIMIT as int)
        &&& 0 <= self.v().dim.x && 0 <= self.v().dim.y
    }

    /// A new agent: random position in the spawn band, a random personal lag
    /// offset into the player's history, at rest, flocking, facing left.
    pub fn new(id: u16, dim: Vec2, rng: &mut rand::rngs::ThreadRng, visual_range: i64)
        -> (e: Enemy)
        requires
            0 <= visual_range <= MAX_VISUAL_RANGE,
            0 <= dim.v().x <= AGENT_VEL_LIMIT,
            0 <= dim.v().y <= AGENT_VEL_LIMIT,
        ensures
            e.wf(),
            e.v().id == id,
            0 <= e.v().pos.x < WINDOW_WIDTH,
            -200_000 <= e.v().pos.y < WINDOW_HEIGHT - 200_000,
            e.v().vel == zero2(),
            e.v().dim == dim.v(),
            0 <= e.v().dest_ind < POSITION_BUFFER_SIZE,
            e.v().facing_left,
            !e.v().chasing,
            e.v().center == zero2(),
            e.v().vr == visual_range,
    {
        let x_pos = random_below(rng, WINDOW_WIDTH as u64) as i64;
        let y_pos = random_below(rng, WINDOW_HEIGHT as u64) as i64 - 200_000;
        let dest_ind = random_below(rng, POSITION_BUFFER_SIZE as u64) as usize;
        Enemy {
            id,
            position: Vec2::new(x_pos, y_pos),
            velocity: Vec2::new(0, 0),
            dimension: dim,
            dest_ind,
            is_facing_left: true,
            state: BatState::Boid,
            boids_center: Vec2::new(0, 0),
            visual_range,
        }
    }

    pub fn get_pos(&self) -> (r: Vec2)
        ensures
            r.v() == self.v().pos,
    {
        self.position
    }

    pub fn get_vel(&self) -> (r: Vec2)
        ensures
            r.v() == self.v().vel,
    {
        self.velocity
    }

    pub fn get_dim(&self) -> (r: Vec2)
        ensures
            r.v() == self.v().dim,
    {
        self.dimension
    }

    pub fn is_facing_left(&self) -> (r: bool)
        ensures
            r == self.v().facing_left,
    {
        self.is_facing_left
    }

    pub fn is_chasing(&self) -> (r: bool)
        ensures
            r == self.v().chasing,
    {
        match self.state {
            BatState::Chase => true,
            BatState::Boid => false,
        }
    }

    /// Forces the behaviour: chase when `is_chase`, flock otherwise. The
    /// velocity is untouched either way.
    pub fn set_state(&mut self, is_chase: bool)
        ensures
            final(self).v() == (EnemyV { chasing: is_chase, ..old(self).v() }),
            final(self).wf() == old(self).wf(),
    {
        if is_chase {
            self.state = BatState::Chase;
        } else {
            self.state = BatState::Boid;
        }
    }

    /// Flips the behaviour; leaving Chase applies the release impulse
    /// (x scaled by 10.74, y by 10.5).
    pub fn toggle_state(&mut self)
        requires
            old(self).wf(),
            comp_bounded(old(self).v().vel, 50_000),
        ensures
            final(self).v() == toggle_spec(old(self).v()),
            final(self).wf(),
    {
        match self.state {
            BatState::Chase => {
                self.state = BatState::Boid;
                let nx = scale_div(self.velocity.x, RELEASE_X_NUM, 1000);
                let ny = scale_div(self.velocity.y, RELEASE_Y_NUM, 1000);
                proof {
                    crate::vec2::lemma_trunc_div_bound(
                        old(self).v().vel.x * RELEASE_X_NUM, 1000, 537_000);
                    crate::vec2::lemma_trunc_div_bound(
                        old(self).v().vel.y * RELEASE_Y_NUM, 1000, 525_000);
                }
                self.velocity = Vec2 { x: nx, y: ny };
            },
            BatState::Boid => {
                self.state = BatState::Chase;
            },
        }
    }

    /// Rescales the velocity onto the maximum-speed circle when it is too
    /// fast, preserving direction.
    fn limit_speed(&mut self)
        requires
            comp_bounded(old(self).v().vel, 2_100_000_000),
        ensures
            final(self).v() == (EnemyV { vel: clamp_vel(old(self).v().vel), ..old(self).v() }),
            comp_bounded(final(self).v().vel, MAX_SPEED as int),
    {
        proof {
            lemma_speed_clamp(self.velocity.v());
            lemma_sq_bound(self.velocity.v().x, 2_100_000_000);
            lemma_sq_bound(self.velocity.v().y, 2_100_000_000);
        }
        let vx = self.velocity.x;
        let vy = self.velocity.y;
        let s: i64 = vx * vx + vy * vy;
        if s > MAX_SPEED * MAX_SPEED {
            let m_u: u64 = isqrt(s as u64);
            proof {
                lemma_isqrt_bounds(s as nat);
                assert(m_u >= 4500) by (nonlinear_arith)
                    requires
                        m_u >= 0,
                        (s as int) < (m_u + 1) * (m_u + 1),
                        (s as int) > 4500 * 4500,
                ;
            }
            let m: i64 = m_u as i64;
            let nx = scale_div(vx, MAX_SPEED, m);
            let ny = scale_div(vy, MAX_SPEED, m);
            self.velocity = Vec2 { x: nx, y: ny };
        }
    }

    /// The stale player position this agent aims for: the entry at its own
    /// lag offset into the player's history, the zero vector when absent.
    fn oldest_player_pos(&self, player_pos_buf: &Queue<Vec2>) -> (r: Vec2)
        requires
            player_pos_buf.wf(),
        ensures
            r.v() == lagged_pos(views_of(player_pos_buf@), self.v().dest_ind),
    {
        if self.dest_ind <= POSITION_BUFFER_SIZE - 1 {
            match player_pos_buf.get_at(self.dest_ind) {
                Some(p) => *p,
                None => Vec2::new(0, 0),
            }
        } else {
            Vec2::new(0, 0)
        }
    }

    /// The chase velocity: from the agent straight to the stale target.
    fn chase_player(&self, player_pos_buf: &Queue<Vec2>) -> (r: Vec2)
        requires
            player_pos_buf.wf(),
            comp_bounded(self.v().pos, COORD_LIMIT as int),
            forall|i: int|
                0 <= i < player_pos_buf@.len()
                    ==> comp_bounded(#[trigger] player_pos_buf@[i].v(), COORD_LIMIT as int),
        ensures
            r.v() == chase_vel(self.v().pos, views_of(player_pos_buf@), self.v().dest_ind),
            comp_bounded(r.v(), 2 * COORD_LIMIT as int),
    {
        let target = self.oldest_player_pos(player_pos_buf);
        Vec2::new(target.x - self.position.x, target.y - self.position.y)
    }

    /// Squared distance from this agent to a point.
    fn distance_sq(&self, b: &Vec2) -> (r: i64)
        requires
            comp_bounded(self.v().pos, COORD_LIMIT as int),
            comp_bounded(b.v(), COORD_LIMIT as int),
        ensures
            r == dist_sq2(self.v().pos, b.v()),
            r >= 0,
    {
        let dx = self.position.x - b.x;
        let dy = self.position.y - b.y;
        proof {
            lemma_sq_bound(dx as int, 2_000_000_000);
            lemma_sq_bound(dy as int, 2_000_000_000);
        }
        dx * dx + dy * dy
    }

    /// Cohesion: toward the perceived centroid, scaled by 0.005.
    fn rule1(&self) -> (r: Vec2)
        requires
            comp_bounded(self.v().pos, COORD_LIMIT as int),
            comp_bounded(self.v().center, 2_000_000_000),
        ensures
            r.v() == cohesion(self.v().center, self.v().pos),
            comp_bounded(r.v(), 15_000_000),
    {
        let dx = self.boids_center.x - self.position.x;
        let dy = self.boids_center.y - self.position.y;
        proof {
            crate::vec2::lemma_trunc_div_bound(dx * FLOCK_FACTOR, 1000, 15_000_000);
            crate::vec2::lemma_trunc_div_bound(dy * FLOCK_FACTOR, 1000, 15_000_000);
        }
        Vec2::new(scale_div(dx, FLOCK_FACTOR, 1000), scale_div(dy, FLOCK_FACTOR, 1000))
    }

    /// Bounds avoidance: a fixed inward nudge near any window edge.
    fn stay_within_window(&self) -> (r: Vec2)
        ensures
            r.v() == bounds_nudge(self.v().pos),
            comp_bounded(r.v(), 400),
    {
        let mut rx: i64 = 0;
        let mut ry: i64 = 0;
        if self.position.x < WINDOW_MARGIN {
            rx = rx + EDGE_TURN;
        }
        if self.position.x > WINDOW_WIDTH - WINDOW_MARGIN {
            rx = rx - EDGE_TURN;
        }
        if self.position.y < WINDOW_MARGIN {
            ry = ry + EDGE_TURN;
        }
        if self.position.y > WINDOW_HEIGHT - WINDOW_MARGIN {
            ry = ry - EDGE_TURN;
        }
        Vec2::new(rx, ry)
    }

    /// Player attraction: toward the stale player position when it lies
    /// strictly within the perception radius.
    fn boids_towards_player(&self, player_pos_buf: &Queue<Vec2>) -> (r: Vec2)
        requires
            player_pos_buf.wf(),
            comp_bounded(self.v().pos, COORD_LIMIT as int),
            0 <= self.v().vr <= MAX_VISUAL_RANGE,
            forall|i: int|
                0 <= i < player_pos_buf@.len()
                    ==> comp_bounded(#[trigger] player_pos_buf@[i].v(), COORD_LIMIT as int),
        ensures
            r.v() == player_attraction(
                self.v().pos,
                lagged_pos(views_of(player_pos_buf@), self.v().dest_ind),
                self.v().vr,
            ),
            comp_bounded(r.v(), 10_000_000),
    {
        let player_pos = self.oldest_player_pos(player_pos_buf);
        let distance_sq_to_player = self.distance_sq(&player_pos);
        proof {
            lemma_sq_bound(self.visual_range as int, 500_000);
        }
        if distance_sq_to_player < self.visual_range * self.visual_range {
            let dx = player_pos.x - self.position.x;
            let dy = player_pos.y - self.position.y;
            proof {
                crate::vec2::lemma_trunc_div_bound(dx * FLOCK_FACTOR, 1000, 10_000_000);
                crate::vec2::lemma_trunc_div_bound(dy * FLOCK_FACTOR, 1000, 10_000_000);
            }
            Vec2::new(scale_div(dx, FLOCK_FACTOR, 1000), scale_div(dy, FLOCK_FACTOR, 1000))
        } else {
            Vec2::new(0, 0)
        }
    }

    /// Separation: accumulated repulsion from every population member
    /// strictly closer than the separation distance, scaled by 0.005.
    fn rule2(&self, boids_pos: &Vec<Vec2>) -> (r: Vec2)
        requires
            comp_bounded(self.v().pos, COORD_LIMIT as int),
            boids_pos@.len() <= MAX_POPULATION,
            forall|i: int|
                0 <= i < boids_pos@.len()
                    ==> comp_bounded(#[trigger] boids_pos@[i].v(), COORD_LIMIT as int),
        ensures
            r.v() == separation(views_of(boids_pos@), self.v().pos),
            comp_bounded(r.v(), 7_500_000),
    {
        let ghost vs = views_of(boids_pos@);
        let mut rx: i64 = 0;
        let mut ry: i64 = 0;
        let mut i: usize = 0;
        while i < boids_pos.len()
            invariant
                i <= boids_pos@.len(),
                boids_pos@.len() <= MAX_POPULATION,
                vs == views_of(boids_pos@),
                comp_bounded(self.v().pos, COORD_LIMIT as int),
                forall|j: int|
                    0 <= j < boids_pos@.len()
                        ==> comp_bounded(#[trigger] boids_pos@[j].v(), COORD_LIMIT as int),
                (V2 { x: rx as int, y: ry as int }) == repulsion(vs.take(i as int), self.v().pos),
                -(i as int) * 15_000 <= rx as int <= (i as int) * 15_000,
                -(i as int) * 15_000 <= ry as int <= (i as int) * 15_000,
            decreases boids_pos@.len() - i,
        {
            let b = boids_pos[i];
            let d2 = self.distance_sq(&b);
            proof {
                assert(vs.take(i as int + 1).drop_last() =~= vs.take(i as int));
                assert(vs.take(i as int + 1).last() == vs[i as int]);
            }
            if d2 < SEPARATION_DISTANCE * SEPARATION_DISTANCE {
                let dx = self.position.x - b.x;
                let dy = self.position.y - b.y;
                proof {
                    assert(-15_000 <= dx as int <= 15_000 && -15_000 <= dy as int <= 15_000)
                        by (nonlinear_arith)
                        requires
                            (dx as int) * (dx as int) + (dy as int) * (dy as int) < 15_000
                                * 15_000,
                    ;
                }
                rx = rx + dx;
                ry = ry + dy;
            }
            i = i + 1;
        }
        proof {
            assert(vs.take(boids_pos@.len() as int) =~= vs);
            crate::vec2::lemma_trunc_div_bound(rx * FLOCK_FACTOR, 1000, 7_500_000);
            crate::vec2::lemma_trunc_div_bound(ry * FLOCK_FACTOR, 1000, 7_500_000);
        }
        Vec2::new(scale_div(rx, FLOCK_FACTOR, 1000), scale_div(ry, FLOCK_FACTOR, 1000))
    }

    /// Velocity matching: the population's differing velocities, averaged
    /// over the population minus one, less the agent's own velocity, scaled
    /// by 0.005.
    fn rule3(&self, boids_vel: &Vec<Vec2>) -> (r: Vec2)
        requires
            comp_bounded(self.v().vel, AGENT_VEL_LIMIT as int),
            2 <= boids_vel@.len() <= MAX_POPULATION,
            forall|i: int|
                0 <= i < boids_vel@.len()
                    ==> comp_bounded(#[trigger] boids_vel@[i].v(), AGENT_VEL_LIMIT as int),
        ensures
            r.v() == velocity_matching(views_of(boids_vel@), self.v().vel),
            comp_bounded(r.v(), 15_000),
    {
        let ghost vs = views_of(boids_vel@);
        let mut sx: i64 = 0;
        let mut sy: i64 = 0;
        let mut i: usize = 0;
        while i < boids_vel.len()
            invariant
                i <= boids_vel@.len(),
                boids_vel@.len() <= MAX_POPULATION,
                vs == views_of(boids_vel@),
                comp_bounded(self.v().vel, AGENT_VEL_LIMIT as int),
                forall|j: int|
                    0 <= j < boids_vel@.len()
                        ==> comp_bounded(#[trigger] boids_vel@[j].v(), AGENT_VEL_LIMIT as int),
                (V2 { x: sx as int, y: sy as int }) == matching_sum(vs.take(i as int), self.v().vel),
                -(i as int) * 1_000_000 <= sx as int <= (i as int) * 1_000_000,
                -(i as int) * 1_000_000 <= sy as int <= (i as int) * 1_000_000,
            decreases boids_vel@.len() - i,
        {
            let b = boids_vel[i];
            proof {
                assert(vs.take(i as int + 1).drop_last() =~= vs.take(i as int));
                assert(vs.take(i as int + 1).last() == vs[i as int]);
            }
            if !(b == self.velocity) {
                sx = sx + b.x;
                sy = sy + b.y;
            }
            i = i + 1;
        }
        let n1: i64 = (boids_vel.len() - 1) as i64;
        proof {
            assert(vs.take(boids_vel@.len() as int) =~= vs);
            assert(sx * 1 == sx && sy * 1 == sy);
            crate::vec2::lemma_trunc_div_bound(sx as int, n1 as int, 2_000_000);
            crate::vec2::lemma_trunc_div_bound(sy as int, n1 as int, 2_000_000);
        }
        let ax = scale_div(sx, 1, n1);
        let ay = scale_div(sy, 1, n1);
        let dx = ax - self.velocity.x;
        let dy = ay - self.velocity.y;
        proof {
            crate::vec2::lemma_trunc_div_bound(dx * FLOCK_FACTOR, 1000, 15_000);
            crate::vec2::lemma_trunc_div_bound(dy * FLOCK_FACTOR, 1000, 15_000);
        }
        Vec2::new(scale_div(dx, FLOCK_FACTOR, 1000), scale_div(dy, FLOCK_FACTOR, 1000))
    }

    /// The subset of the population within the perception radius.
    fn boids_in_range(&self, boids_pos: &Vec<Vec2>) -> (r: Vec<Vec2>)
        requires
            comp_bounded(self.v().pos, COORD_LIMIT as int),
            0 <= self.v().vr <= MAX_VISUAL_RANGE,
            forall|i: int|
                0 <= i < boids_pos@.len()
                    ==> comp_bounded(#[trigger] boids_pos@[i].v(), COORD_LIMIT as int),
        ensures
            views_of(r@) == visible_peers(views_of(boids_pos@), self.v().pos, self.v().vr),
            r@.len() <= boids_pos@.len(),
            forall|i: int|
                0 <= i < r@.len() ==> comp_bounded(#[trigger] r@[i].v(), COORD_LIMIT as int),
    {
        let ghost vs = views_of(boids_pos@);
        let mut res: Vec<Vec2> = Vec::new();
        let mut i: usize = 0;
        proof {
            assert(views_of(res@) =~= visible_peers(vs.take(0), self.v().pos, self.v().vr));
        }
        while i < boids_pos.len()
            invariant
                i <= boids_pos@.len(),
                vs == views_of(boids_pos@),
                comp_bounded(self.v().pos, COORD_LIMIT as int),
                0 <= self.v().vr <= MAX_VISUAL_RANGE,
                forall|j: int|
                    0 <= j < boids_pos@.len()
                        ==> comp_bounded(#[trigger] boids_pos@[j].v(), COORD_LIMIT as int),
                views_of(res@) == visible_peers(vs.take(i as int), self.v().pos, self.v().vr),
                res@.len() <= i,
                forall|j: int|
                    0 <= j < res@.len() ==> comp_bounded(#[trigger] res@[j].v(), COORD_LIMIT as int),
            decreases boids_pos@.len() - i,
        {
            let b = boids_pos[i];
            let d2 = self.distance_sq(&b);
            proof {
                assert(vs.take(i as int + 1).drop_last() =~= vs.take(i as int));
                assert(vs.take(i as int + 1).last() == vs[i as int]);
                lemma_sq_bound(self.visual_range as int, 500_000);
            }
            if d2 <= self.visual_range * self.visual_range {
                res.push(b);
                proof {
                    assert(views_of(res@) =~= visible_peers(
                        vs.take(i as int + 1),
                        self.v().pos,
                        self.v().vr,
                    ));
                }
            }
            i = i + 1;
        }
        proof {
            assert(vs.take(boids_pos@.len() as int) =~= vs);
        }
        res
    }

    /// Recomputes the perceived centroid from the peers seen this tick.
    fn calculate_center(&mut self, boids_seen: &Vec<Vec2>)
        requires
            1 <= boids_seen@.len() <= MAX_POPULATION,
            forall|i: int|
                0 <= i < boids_seen@.len()
                    ==> comp_bounded(#[trigger] boids_seen@[i].v(), COORD_LIMIT as int),
        ensures
            final(self).v() == (EnemyV {
                center: center_of(views_of(boids_seen@)),
                ..old(self).v()
            }),
            comp_bounded(final(self).v().center, 1_000_000_020),
    {
        let ghost vs = views_of(boids_seen@);
        let mut sx: i64 = CENTER_SEED_X;
        let mut sy: i64 = 0;
        let mut i: usize = 0;
        while i < boids_seen.len()
            invariant
                i <= boids_seen@.len(),
                boids_seen@.len() <= MAX_POPULATION,
                vs == views_of(boids_seen@),
                forall|j: int|
                    0 <= j < boids_seen@.len()
                        ==> comp_bounded(#[trigger] boids_seen@[j].v(), COORD_LIMIT as int),
                sx as int == CENTER_SEED_X + sum2(vs.take(i as int)).x,
                sy as int == sum2(vs.take(i as int)).y,
                20 - (i as int) * 1_000_000_000 <= sx as int <= 20 + (i as int) * 1_000_000_000,
                -(i as int) * 1_000_000_000 <= sy as int <= (i as int) * 1_000_000_000,
            decreases boids_seen@.len() - i,
        {
            let b = boids_seen[i];
            proof {
                assert(vs.take(i as int + 1).drop_last() =~= vs.take(i as int));
                assert(vs.take(i as int + 1).last() == vs[i as int]);
            }
            sx = sx + b.x;
            sy = sy + b.y;
            i = i + 1;
        }
        let n: i64 = boids_seen.len() as i64;
        proof {
            assert(vs.take(boids_seen@.len() as int) =~= vs);
            assert(sx * 1 == sx && sy * 1 == sy);
            crate::vec2::lemma_trunc_div_bound(sx as int, n as int, 1_000_000_020);
            crate::vec2::lemma_trunc_div_bound(sy as int, n as int, 1_000_000_020);
        }
        let cx = scale_div(sx, 1, n);
        let cy = scale_div(sy, 1, n);
        self.boids_center = Vec2 { x: cx, y: cy };
    }

    /// One flocking step: recomputes the perceived centroid, then sums the
    /// five rule outputs into the velocity delta for this tick.
    fn boid(&mut self, player_pos_buf: &Queue<Vec2>, boids_pos: &Vec<Vec2>, boids_vel: &Vec<Vec2>)
        -> (r: Vec2)
        requires
            old(self).wf(),
            comp_bounded(old(self).v().pos, COORD_LIMIT as int),
            player_pos_buf.wf(),
            forall|i: int|
                0 <= i < player_pos_buf@.len()
                    ==> comp_bounded(#[trigger] player_pos_buf@[i].v(), COORD_LIMIT as int),
            2 <= boids_pos@.len() <= MAX_POPULATION,
            boids_vel@.len() == boids_pos@.len(),
            forall|i: int|
                0 <= i < boids_pos@.len()
                    ==> comp_bounded(#[trigger] boids_pos@[i].v(), COORD_LIMIT as int),
            forall|i: int|
                0 <= i < boids_vel@.len()
                    ==> comp_bounded(#[trigger] boids_vel@[i].v(), AGENT_VEL_LIMIT as int),
            exists|i: int|
                0 <= i < boids_pos@.len() && boids_pos@[i].v() == old(self).v().pos,
        ensures
            r.v() == flock_delta(
                old(self).v().pos,
                old(self).v().vel,
                lagged_pos(views_of(player_pos_buf@), old(self).v().dest_ind),
                views_of(boids_pos@),
                views_of(boids_vel@),
                old(self).v().vr,
            ),
            final(self).v() == (EnemyV {
                center: center_of(
                    visible_peers(views_of(boids_pos@), old(self).v().pos, old(self).v().vr),
                ),
                ..old(self).v()
            }),
            final(self).wf(),
            comp_bounded(r.v(), 33_000_000),
    {
        let boids_seen = self.boids_in_range(boids_pos);
        proof {
            let w = choose|i: int|
                0 <= i < boids_pos@.len() && boids_pos@[i].v() == self.v().pos;
            assert(views_of(boids_pos@)[w] == self.v().pos);
            lemma_visible_nonempty(views_of(boids_pos@), self.v().pos, self.v().vr);
            lemma_visible_len(views_of(boids_pos@), self.v().pos, self.v().vr);
        }
        self.calculate_center(&boids_seen);
        let towards_player = self.boids_towards_player(player_pos_buf);
        let rule1 = self.rule1();
        let rule2 = self.rule2(boids_pos);
        let rule3 = self.rule3(boids_vel);
        let stay_inside = self.stay_within_window();
        Vec2::new(
            rule1.x + rule2.x + rule3.x + stay_inside.x + towards_player.x,
            rule1.y + rule2.y + rule3.y + stay_inside.y + towards_player.y,
        )
    }

    /// One tick: in Chase the velocity is set to the vector toward the stale
    /// player position; in Boid it grows slightly and takes the flocking
    /// delta. Then the speed clamp runs, the facing follows the sign of the
    /// horizontal velocity, and the position integrates the velocity.
    pub fn update(&mut self, player_pos_buf: &Queue<Vec2>, boids_pos: &Vec<Vec2>, boids_vel: &Vec<Vec2>)
        requires
            old(self).wf(),
            comp_bounded(old(self).v().pos, COORD_LIMIT as int),
            player_pos_buf.wf(),
            forall|i: int|
                0 <= i < player_pos_buf@.len()
                    ==> comp_bounded(#[trigger] player_pos_buf@[i].v(), COORD_LIMIT as int),
            !old(self).v().chasing ==> 2 <= boids_pos@.len() <= MAX_POPULATION,
            !old(self).v().chasing ==> boids_vel@.len() == boids_pos@.len(),
            !old(self).v().chasing ==> (forall|i: int|
                0 <= i < boids_pos@.len()
                    ==> comp_bounded(#[trigger] boids_pos@[i].v(), COORD_LIMIT as int)),
            !old(self).v().chasing ==> (forall|i: int|
                0 <= i < boids_vel@.len()
                    ==> comp_bounded(#[trigger] boids_vel@[i].v(), AGENT_VEL_LIMIT as int)),
            !old(self).v().chasing ==> (exists|i: int|
                0 <= i < boids_pos@.len() && boids_pos@[i].v() == old(self).v().pos),
        ensures
            final(self).v() == enemy_tick(
                old(self).v(),
                views_of(player_pos_buf@),
                views_of(boids_pos@),
                views_of(boids_vel@),
            ),
            final(self).wf(),
            comp_bounded(final(self).v().vel, MAX_SPEED as int),
            final(self).v().pos == add2(old(self).v().pos, final(self).v().vel),
    {
        match self.state {
            BatState::Chase => {
                let nv = self.chase_player(player_pos_buf);
                self.velocity = nv;
            },
            BatState::Boid => {
                let d = self.boid(player_pos_buf, boids_pos, boids_vel);
                proof {
                    crate::vec2::lemma_trunc_div_bound(
                        self.velocity.v().x * GROWTH_NUM, 1000, 1_010_000);
                    crate::vec2::lemma_trunc_div_bound(
                        self.velocity.v().y * GROWTH_NUM, 1000, 1_010_000);
                }
                let gx = scale_div(self.velocity.x, GROWTH_NUM, 1000);
                let gy = scale_div(self.velocity.y, GROWTH_NUM, 1000);
                self.velocity = Vec2 { x: gx + d.x, y: gy + d.y };
            },
        }
        self.limit_speed();
        if self.velocity.x < 0 {
            self.is_facing_left = true;
        } else {
            self.is_facing_left = false;
        }
        self.position = Vec2 {
            x: self.position.x + self.velocity.x,
            y: self.position.y + self.velocity.y,
        };
    }
}

} // verus!
