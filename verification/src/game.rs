//! The simulation loop: one game state and one tick over it.
//!
//! A tick applies the toggle intent to every agent, freezes a snapshot of the
//! population's positions and velocities, scrolls platforms and tokens,
//! updates every agent against the frozen snapshot and the player's history,
//! and finally updates the player against the post-tick entities — the order
//! the design fixes so that no agent sees a half-updated population.
use vstd::prelude::*;
use crate::collide::RectV;
use crate::enemy::{
    Enemy, EnemyV, enemy_tick, toggle_spec, COORD_LIMIT, MAX_SPEED,
};
use crate::platform::{Platform, PLATFORM_GRID_X, PLATFORM_GRID_Y};
use crate::player::{
    Player, PlayerV, player_tick, platform_rects, enemy_rects, token_rects, MAX_TARGETS,
    PLAYER_VEL_LIMIT,
};
use crate::rng::new_rng;
use crate::token::{Token, TOKEN_GRID_X, TOKEN_GRID_Y};
use crate::vec2::{Vec2, V2, comp_bounded, views_of};
use crate::{InputIntent, WINDOW_HEIGHT};

verus! {

/// How many platforms a game holds.
pub const PLATFORM_NUM: usize = 35;
/// How many agents a game holds.
pub const ENEMY_NUM: usize = 40;
/// How many tokens a game holds.
pub const TOKEN_NUM: usize = 5;
/// Perception radius of every agent (100 units).
pub const BAT_VISUAL_RANGE: i64 = 100_000;
/// The shared downward scroll speed (0.4).
pub const DOWN_SPEED_INITIAL: i64 = 400;

/// How one scroll step moves a platform: down by the shared speed, wrapping
/// one row above the top onto a random slot after passing the bottom edge.
pub open spec fn platform_scrolled(o: RectV, n: RectV, down: int) -> bool {
    &&& n.dim == o.dim
    &&& (o.pos.y + down < WINDOW_HEIGHT ==> n.pos == (V2 { x: o.pos.x, y: o.pos.y + down }))
    &&& (o.pos.y + down >= WINDOW_HEIGHT ==> {
        &&& n.pos.y == o.pos.y + down - (WINDOW_HEIGHT + PLATFORM_GRID_Y)
        &&& (exists|gx: int| 0 <= gx <= 9 && n.pos.x == #[trigger] (gx * PLATFORM_GRID_X))
    })
}

/// How one scroll step moves a token.
pub open spec fn token_scrolled(o: RectV, n: RectV, down: int) -> bool {
    &&& n.dim == o.dim
    &&& (o.pos.y + down < WINDOW_HEIGHT ==> n.pos == (V2 { x: o.pos.x, y: o.pos.y + down }))
    &&& (o.pos.y + down >= WINDOW_HEIGHT ==> {
        &&& n.pos.y == o.pos.y + down - (WINDOW_HEIGHT + TOKEN_GRID_Y)
        &&& (exists|gx: int| 0 <= gx <= 29 && n.pos.x == #[trigger] (gx * TOKEN_GRID_X))
    })
}

pub struct GameState {
    player: Player,
    platforms: Vec<Platform>,
    enemies: Vec<Enemy>,
    tokens: Vec<Token>,
    down_speed: i64,
}

impl GameState {
    pub closed spec fn player_v(self) -> PlayerV {
        self.player.v()
    }

    pub closed spec fn enemies_v(self) -> Seq<EnemyV> {
        self.enemies@.map_values(|e: Enemy| e.v())
    }

    pub closed spec fn platforms_v(self) -> Seq<RectV> {
        platform_rects(self.platforms@)
    }

    pub closed spec fn tokens_v(self) -> Seq<RectV> {
        token_rects(self.tokens@)
    }

    /// The structural invariant a tick preserves: a sound player, a
    /// population of at least two bounded-velocity agents, scrolling
    /// entities inside their band, and the fixed scroll speed.
    pub closed spec fn wf(self) -> bool {
        &&& self.player.wf()
        &&& 2 <= self.enemies@.len() <= MAX_TARGETS
        &&& self.platforms@.len() <= MAX_TARGETS
        &&& self.tokens@.len() <= MAX_TARGETS
        &&& (forall|i: int|
            0 <= i < self.enemies@.len() ==> (#[trigger] self.enemies@[i]).wf())
        &&& (forall|i: int|
            0 <= i < self.enemies@.len() ==> comp_bounded(
                (#[trigger] self.enemies@[i]).v().vel,
                MAX_SPEED as int,
            ))
        &&& (forall|i: int|
            0 <= i < self.platforms@.len() ==> (#[trigger] self.platforms@[i]).wf())
        &&& (forall|i: int|
            0 <= i < self.platforms@.len()
                ==> (#[trigger] self.platforms@[i]).v().pos.y <= 2_000_000)
        &&& (forall|i: int| 0 <= i < self.tokens@.len() ==> (#[trigger] self.tokens@[i]).wf())
        &&& (forall|i: int|
            0 <= i < self.tokens@.len() ==> (#[trigger] self.tokens@[i]).v().pos.y
                <= 2_000_000)
        &&& self.down_speed == DOWN_SPEED_INITIAL
    }

    /// The drifting quantities a tick consumes but does not re-establish:
    /// positions far from the fixed-point range's edge, and room in the
    /// score. A caller checks them each tick with `check_bounds`.
    pub closed spec fn bounds_ok(self) -> bool {
        &&& comp_bounded(self.player.v().pos, COORD_LIMIT - 1_000_000)
        &&& comp_bounded(self.player.v().vel, PLAYER_VEL_LIMIT as int)
        &&& (forall|i: int|
            0 <= i < self.enemies@.len() ==> comp_bounded(
                (#[trigger] self.enemies@[i]).v().pos,
                COORD_LIMIT - 5_000,
            ))
        &&& self.player.v().score + self.tokens@.len() <= u32::MAX
    }

    /// Whether this tick's drifting quantities are still in range.
    pub fn check_bounds(&self) -> (r: bool)
        ensures
            r == self.bounds_ok(),
    {
        let lim: i64 = COORD_LIMIT - 1_000_000;
        let p = self.player.get_pos();
        let v = self.player.get_vel();
        let mut ok: bool = -lim <= p.x && p.x <= lim && -lim <= p.y && p.y <= lim
            && -PLAYER_VEL_LIMIT <= v.x && v.x <= PLAYER_VEL_LIMIT && -PLAYER_VEL_LIMIT <= v.y
            && v.y <= PLAYER_VEL_LIMIT;
        let elim: i64 = COORD_LIMIT - 5_000;
        let mut i: usize = 0;
        while i < self.enemies.len()
            invariant
                i <= self.enemies@.len(),
                ok == ({
                    &&& comp_bounded(self.player.v().pos, COORD_LIMIT - 1_000_000)
                    &&& comp_bounded(self.player.v().vel, PLAYER_VEL_LIMIT as int)
                    &&& (forall|j: int|
                        0 <= j < i ==> comp_bounded(
                            (#[trigger] self.enemies@[j]).v().pos,
                            COORD_LIMIT - 5_000,
                        ))
                }),
                elim == COORD_LIMIT - 5_000,
            decreases self.enemies@.len() - i,
        {
            let ep = self.enemies[i].get_pos();
            ok = ok && -elim <= ep.x && ep.x <= elim && -elim <= ep.y && ep.y <= elim;
            i = i + 1;
        }
        let score = self.player.get_score();
        ok && (self.tokens.len() as u64) <= (u32::MAX - score) as u64
    }

    pub fn get_player(&self) -> (r: &Player)
        ensures
            r.v() == self.player_v(),
            self.wf() ==> r.wf(),
    {
        &self.player
    }

    pub fn get_enemies(&self) -> (r: &Vec<Enemy>)
        ensures
            r@.map_values(|e: Enemy| e.v()) == self.enemies_v(),
            r@.len() == self.enemies_v().len(),
    {
        &self.enemies
    }

    pub fn get_platforms(&self) -> (r: &Vec<Platform>)
        ensures
            platform_rects(r@) == self.platforms_v(),
            r@.len() == self.platforms_v().len(),
    {
        &self.platforms
    }

    pub fn get_tokens(&self) -> (r: &Vec<Token>)
        ensures
            token_rects(r@) == self.tokens_v(),
            r@.len() == self.tokens_v().len(),
    {
        &self.tokens
    }

    /// A fresh game: the player on the anchored first platform, the rest of
    /// the platforms and the tokens on random slots, and a flock of agents at
    /// random spawn positions with sequential identities.
    pub fn new() -> (r: GameState)
        ensures
            r.wf(),
            r.bounds_ok(),
            r.player_v().pos == (V2 { x: 32_000, y: 32_000 }),
            r.player_v().health == crate::player::MAX_HEALTH,
            r.player_v().score == 0,
            r.enemies_v().len() == ENEMY_NUM,
            r.platforms_v().len() == PLATFORM_NUM,
            r.tokens_v().len() == TOKEN_NUM,
            forall|i: int| 0 <= i < ENEMY_NUM ==> (#[trigger] r.enemies_v()[i]).id == i,
            forall|i: int| 0 <= i < ENEMY_NUM ==> !((#[trigger] r.enemies_v()[i]).chasing),
    {
        let start_pos = Vec2::new(32_000, 32_000);
        let player = Player::new(start_pos);
        let mut platforms: Vec<Platform> = Vec::new();
        let mut enemies: Vec<Enemy> = Vec::new();
        let mut tokens: Vec<Token> = Vec::new();
        let mut rng = new_rng();
        let plat_dim = Vec2::new(78_000, 50_000);
        platforms.push(Platform::new(plat_dim, false, Vec2::new(0, 148_000)));
        let mut i: usize = 1;
        while i < PLATFORM_NUM
            invariant
                1 <= i <= PLATFORM_NUM,
                platforms@.len() == i,
                forall|j: int| 0 <= j < i ==> (#[trigger] platforms@[j]).wf(),
                forall|j: int| 0 <= j < i ==> (#[trigger] platforms@[j]).v().pos.y <= 2_000_000,
                plat_dim.v() == (V2 { x: 78_000, y: 50_000 }),
            decreases PLATFORM_NUM - i,
        {
            platforms.push(Platform::new(plat_dim, true, Vec2::new(0, 0)));
            i = i + 1;
        }
        let token_dim = Vec2::new(15_000, 16_000);
        let mut i: usize = 0;
        while i < TOKEN_NUM
            invariant
                i <= TOKEN_NUM,
                tokens@.len() == i,
                forall|j: int| 0 <= j < i ==> (#[trigger] tokens@[j]).wf(),
                forall|j: int| 0 <= j < i ==> (#[trigger] tokens@[j]).v().pos.y <= 2_000_000,
                token_dim.v() == (V2 { x: 15_000, y: 16_000 }),
            decreases TOKEN_NUM - i,
        {
            tokens.push(Token::new(token_dim, true, Vec2::new(0, 0)));
            i = i + 1;
        }
        let bat_dim = Vec2::new(20_000, 20_000);
        let mut next_available_id: u16 = 0;
        let mut i: usize = 0;
        while i < ENEMY_NUM
            invariant
                i <= ENEMY_NUM,
                enemies@.len() == i,
                next_available_id == i,
                forall|j: int| 0 <= j < i ==> (#[trigger] enemies@[j]).wf(),
                forall|j: int| 0 <= j < i ==> comp_bounded(
                    (#[trigger] enemies@[j]).v().vel,
                    MAX_SPEED as int,
                ),
                forall|j: int| 0 <= j < i ==> comp_bounded(
                    (#[trigger] enemies@[j]).v().pos,
                    COORD_LIMIT - 5_000,
                ),
                forall|j: int| 0 <= j < i ==> (#[trigger] enemies@[j]).v().id == j,
                forall|j: int| 0 <= j < i ==> !((#[trigger] enemies@[j]).v().chasing),
                bat_dim.v() == (V2 { x: 20_000, y: 20_000 }),
            decreases ENEMY_NUM - i,
        {
            enemies.push(Enemy::new(next_available_id, bat_dim, &mut rng, BAT_VISUAL_RANGE));
            next_available_id = next_available_id + 1;
            i = i + 1;
        }
        let r = GameState { player, platforms, enemies, tokens, down_speed: DOWN_SPEED_INITIAL };
        proof {
            assert(r.enemies_v().len() == ENEMY_NUM);
            assert(forall|i: int|
                0 <= i < ENEMY_NUM ==> (#[trigger] r.enemies_v()[i]) == r.enemies@[i].v());
        }
        r
    }

    /// Applies the toggle command to every agent.
    fn toggle_all(&mut self)
        requires
            2 <= old(self).enemies@.len() <= MAX_TARGETS,
            forall|i: int| 0 <= i < old(self).enemies@.len() ==> (#[trigger] old(self).enemies@[i]).wf(),
            forall|i: int|
                0 <= i < old(self).enemies@.len() ==> comp_bounded(
                    (#[trigger] old(self).enemies@[i]).v().vel,
                    MAX_SPEED as int,
                ),
        ensures
            final(self).enemies@.len() == old(self).enemies@.len(),
            forall|i: int|
                0 <= i < old(self).enemies@.len() ==> (#[trigger] final(self).enemies@[i]).v()
                    == toggle_spec(old(self).enemies@[i].v()),
            forall|i: int|
                0 <= i < old(self).enemies@.len() ==> (#[trigger] final(self).enemies@[i]).wf(),
            forall|i: int|
                0 <= i < old(self).enemies@.len() ==> comp_bounded(
                    (#[trigger] final(self).enemies@[i]).v().vel,
                    540_000,
                ),
            final(self).player == old(self).player,
            final(self).platforms == old(self).platforms,
            final(self).tokens == old(self).tokens,
            final(self).down_speed == old(self).down_speed,
    {
        let ghost es0 = self.enemies@;
        let mut i: usize = 0;
        while i < self.enemies.len()
            invariant
                i <= self.enemies@.len(),
                self.enemies@.len() == es0.len(),
                2 <= es0.len() <= MAX_TARGETS,
                forall|j: int|
                    0 <= j < i ==> (#[trigger] self.enemies@[j]).v() == toggle_spec(es0[j].v()),
                forall|j: int| 0 <= j < i ==> (#[trigger] self.enemies@[j]).wf(),
                forall|j: int| 0 <= j < i ==> comp_bounded(
                    (#[trigger] self.enemies@[j]).v().vel,
                    540_000,
                ),
                forall|j: int| i <= j < es0.len() ==> (#[trigger] self.enemies@[j]) == es0[j],
                forall|j: int| 0 <= j < es0.len() ==> (#[trigger] es0[j]).wf(),
                forall|j: int| 0 <= j < es0.len() ==> comp_bounded(
                    (#[trigger] es0[j]).v().vel,
                    MAX_SPEED as int,
                ),
                self.player == old(self).player,
                self.platforms == old(self).platforms,
                self.tokens == old(self).tokens,
                self.down_speed == old(self).down_speed,
            decreases self.enemies@.len() - i,
        {
            let ghost pre = self.enemies@;
            let mut e = self.enemies.remove(i);
            e.toggle_state();
            proof {
                crate::vec2::lemma_trunc_div_bound(
                    es0[i as int].v().vel.x * crate::enemy::RELEASE_X_NUM,
                    1000,
                    540_000,
                );
                crate::vec2::lemma_trunc_div_bound(
                    es0[i as int].v().vel.y * crate::enemy::RELEASE_Y_NUM,
                    1000,
                    540_000,
                );
            }
            self.enemies.insert(i, e);
            proof {
                assert(self.enemies@ =~= pre.update(i as int, e));
            }
            i = i + 1;
        }
    }

    /// Scrolls every platform one step.
    fn scroll_platforms(&mut self)
        requires
            old(self).platforms@.len() <= MAX_TARGETS,
            old(self).down_speed == DOWN_SPEED_INITIAL,
            forall|i: int|
                0 <= i < old(self).platforms@.len() ==> (#[trigger] old(self).platforms@[i]).wf(),
            forall|i: int|
                0 <= i < old(self).platforms@.len()
                    ==> (#[trigger] old(self).platforms@[i]).v().pos.y <= 2_000_000,
        ensures
            final(self).platforms@.len() == old(self).platforms@.len(),
            forall|i: int|
                0 <= i < old(self).platforms@.len() ==> platform_scrolled(
                    old(self).platforms@[i].v(),
                    (#[trigger] final(self).platforms@[i]).v(),
                    DOWN_SPEED_INITIAL as int,
                ),
            forall|i: int|
                0 <= i < old(self).platforms@.len() ==> (#[trigger] final(self).platforms@[i]).wf(),
            forall|i: int|
                0 <= i < old(self).platforms@.len()
                    ==> (#[trigger] final(self).platforms@[i]).v().pos.y <= 2_000_000,
            final(self).player == old(self).player,
            final(self).enemies == old(self).enemies,
            final(self).tokens == old(self).tokens,
            final(self).down_speed == old(self).down_speed,
    {
        let mut i: usize = 0;
        let ghost ps0 = self.platforms@;
        while i < self.platforms.len()
            invariant
                i <= self.platforms@.len(),
                self.platforms@.len() == ps0.len(),
                ps0.len() <= MAX_TARGETS,
                self.down_speed == DOWN_SPEED_INITIAL,
                forall|j: int| 0 <= j < i ==> platform_scrolled(
                    ps0[j].v(),
                    (#[trigger] self.platforms@[j]).v(),
                    DOWN_SPEED_INITIAL as int,
                ),
                forall|j: int| 0 <= j < i ==> (#[trigger] self.platforms@[j]).wf(),
                forall|j: int|
                    0 <= j < i ==> (#[trigger] self.platforms@[j]).v().pos.y <= 2_000_000,
                forall|j: int| i <= j < ps0.len() ==> (#[trigger] self.platforms@[j]) == ps0[j],
                forall|j: int| 0 <= j < ps0.len() ==> (#[trigger] ps0[j]).wf(),
                forall|j: int| 0 <= j < ps0.len() ==> (#[trigger] ps0[j]).v().pos.y <= 2_000_000,
                self.player == old(self).player,
                self.enemies == old(self).enemies,
                self.tokens == old(self).tokens,
                self.down_speed == old(self).down_speed,
            decreases self.platforms@.len() - i,
        {
            let ghost pre = self.platforms@;
            let mut p = self.platforms.remove(i);
            p.update(self.down_speed);
            self.platforms.insert(i, p);
            proof {
                assert(self.platforms@ =~= pre.update(i as int, p));
            }
            i = i + 1;
        }
    }

    /// Scrolls every token one step.
    fn scroll_tokens(&mut self)
        requires
            old(self).tokens@.len() <= MAX_TARGETS,
            old(self).down_speed == DOWN_SPEED_INITIAL,
            forall|i: int|
                0 <= i < old(self).tokens@.len() ==> (#[trigger] old(self).tokens@[i]).wf(),
            forall|i: int|
                0 <= i < old(self).tokens@.len()
                    ==> (#[trigger] old(self).tokens@[i]).v().pos.y <= 2_000_000,
        ensures
            final(self).tokens@.len() == old(self).tokens@.len(),
            forall|i: int|
                0 <= i < old(self).tokens@.len() ==> token_scrolled(
                    old(self).tokens@[i].v(),
                    (#[trigger] final(self).tokens@[i]).v(),
                    DOWN_SPEED_INITIAL as int,
                ),
            forall|i: int|
                0 <= i < old(self).tokens@.len() ==> (#[trigger] final(self).tokens@[i]).wf(),
            forall|i: int|
                0 <= i < old(self).tokens@.len()
                    ==> (#[trigger] final(self).tokens@[i]).v().pos.y <= 2_000_000,
            final(self).player == old(self).player,
            final(self).enemies == old(self).enemies,
            final(self).platforms == old(self).platforms,
            final(self).down_speed == old(self).down_speed,
    {
        let mut i: usize = 0;
        let ghost ts0 = self.tokens@;
        while i < self.tokens.len()
            invariant
                i <= self.tokens@.len(),
                self.tokens@.len() == ts0.len(),
                ts0.len() <= MAX_TARGETS,
                self.down_speed == DOWN_SPEED_INITIAL,
                forall|j: int| 0 <= j < i ==> token_scrolled(
                    ts0[j].v(),
                    (#[trigger] self.tokens@[j]).v(),
                    DOWN_SPEED_INITIAL as int,
                ),
                forall|j: int| 0 <= j < i ==> (#[trigger] self.tokens@[j]).wf(),
                forall|j: int| 0 <= j < i ==> (#[trigger] self.tokens@[j]).v().pos.y <= 2_000_000,
                forall|j: int| i <= j < ts0.len() ==> (#[trigger] self.tokens@[j]) == ts0[j],
                forall|j: int| 0 <= j < ts0.len() ==> (#[trigger] ts0[j]).wf(),
                forall|j: int| 0 <= j < ts0.len() ==> (#[trigger] ts0[j]).v().pos.y <= 2_000_000,
                self.player == old(self).player,
                self.enemies == old(self).enemies,
                self.platforms == old(self).platforms,
                self.down_speed == old(self).down_speed,
            decreases self.tokens@.len() - i,
        {
            let ghost pre = self.tokens@;
            let mut t = self.tokens.remove(i);
            t.update(self.down_speed);
            self.tokens.insert(i, t);
            proof {
                assert(self.tokens@ =~= pre.update(i as int, t));
            }
            i = i + 1;
        }
    }

    /// Updates every agent against the frozen pre-tick snapshot and the
    /// player's history queue.
    fn update_enemies(&mut self)
        requires
            old(self).player.wf(),
            2 <= old(self).enemies@.len() <= MAX_TARGETS,
            forall|i: int| 0 <= i < old(self).enemies@.len() ==> (#[trigger] old(self).enemies@[i]).wf(),
            forall|i: int|
                0 <= i < old(self).enemies@.len() ==> comp_bounded(
                    (#[trigger] old(self).enemies@[i]).v().vel,
                    540_000,
                ),
            forall|i: int|
                0 <= i < old(self).enemies@.len() ==> comp_bounded(
                    (#[trigger] old(self).enemies@[i]).v().pos,
                    COORD_LIMIT - 5_000,
                ),
        ensures
            final(self).enemies@.len() == old(self).enemies@.len(),
            ({
                let es0 = old(self).enemies@.map_values(|e: Enemy| e.v());
                let ps = es0.map_values(|e: EnemyV| e.pos);
                let vs = es0.map_values(|e: EnemyV| e.vel);
                forall|i: int|
                    0 <= i < es0.len() ==> (#[trigger] final(self).enemies@[i]).v() == enemy_tick(
                        es0[i],
                        old(self).player.v().hist,
                        ps,
                        vs,
                    )
            }),
            forall|i: int|
                0 <= i < old(self).enemies@.len() ==> (#[trigger] final(self).enemies@[i]).wf(),
            forall|i: int|
                0 <= i < old(self).enemies@.len() ==> comp_bounded(
                    (#[trigger] final(self).enemies@[i]).v().vel,
                    MAX_SPEED as int,
                ),
            forall|i: int|
                0 <= i < old(self).enemies@.len() ==> comp_bounded(
                    (#[trigger] final(self).enemies@[i]).v().pos,
                    COORD_LIMIT as int,
                ),
            final(self).player == old(self).player,
            final(self).platforms == old(self).platforms,
            final(self).tokens == old(self).tokens,
            final(self).down_speed == old(self).down_speed,
    {
        let ghost es0 = self.enemies@.map_values(|e: Enemy| e.v());
        let ghost ps = es0.map_values(|e: EnemyV| e.pos);
        let ghost vs = es0.map_values(|e: EnemyV| e.vel);
        let n = self.enemies.len();
        let mut boids_pos: Vec<Vec2> = Vec::new();
        let mut boids_vel: Vec<Vec2> = Vec::new();
        let mut i: usize = 0;
        while i < n
            invariant
                i <= n,
                n == self.enemies@.len() == es0.len(),
                boids_pos@.len() == i,
                boids_vel@.len() == i,
                forall|j: int| 0 <= j < i ==> (#[trigger] boids_pos@[j]).v() == es0[j].pos,
                forall|j: int| 0 <= j < i ==> (#[trigger] boids_vel@[j]).v() == es0[j].vel,
                es0 == self.enemies@.map_values(|e: Enemy| e.v()),
            decreases n - i,
        {
            boids_pos.push(self.enemies[i].get_pos());
            boids_vel.push(self.enemies[i].get_vel());
            i = i + 1;
        }
        proof {
            assert(views_of(boids_pos@) =~= ps);
            assert(views_of(boids_vel@) =~= vs);
        }
        let q = self.player.pos_history();
        let mut i: usize = 0;
        while i < n
            invariant
                i <= n,
                n == self.enemies@.len() == es0.len(),
                2 <= es0.len() <= MAX_TARGETS,
                views_of(boids_pos@) == ps,
                views_of(boids_vel@) == vs,
                boids_pos@.len() == es0.len(),
                boids_vel@.len() == es0.len(),
                forall|j: int| 0 <= j < es0.len() ==> (#[trigger] boids_pos@[j]).v() == es0[j].pos,
                forall|j: int| 0 <= j < es0.len() ==> (#[trigger] boids_vel@[j]).v() == es0[j].vel,
                forall|j: int| 0 <= j < es0.len() ==> comp_bounded(
                    (#[trigger] es0[j]).pos,
                    COORD_LIMIT - 5_000,
                ),
                forall|j: int| 0 <= j < es0.len() ==> comp_bounded(
                    (#[trigger] es0[j]).vel,
                    540_000,
                ),
                views_of(q@) == old(self).player.v().hist,
                q.wf(),
                forall|j: int|
                    0 <= j < q@.len() ==> comp_bounded(
                        (#[trigger] q@[j]).v(),
                        COORD_LIMIT as int,
                    ),
                forall|j: int| 0 <= j < i ==> (#[trigger] self.enemies@[j]).v() == enemy_tick(
                    es0[j],
                    old(self).player.v().hist,
                    ps,
                    vs,
                ),
                forall|j: int| 0 <= j < i ==> (#[trigger] self.enemies@[j]).wf(),
                forall|j: int| 0 <= j < i ==> comp_bounded(
                    (#[trigger] self.enemies@[j]).v().vel,
                    MAX_SPEED as int,
                ),
                forall|j: int| 0 <= j < i ==> comp_bounded(
                    (#[trigger] self.enemies@[j]).v().pos,
                    COORD_LIMIT as int,
                ),
                forall|j: int| i <= j < es0.len() ==> (#[trigger] self.enemies@[j]).v() == es0[j],
                forall|j: int| i <= j < es0.len() ==> (#[trigger] self.enemies@[j]).wf(),
                forall|j: int| i <= j < es0.len() ==> comp_bounded(
                    (#[trigger] self.enemies@[j]).v().vel,
                    540_000,
                ),
                forall|j: int| i <= j < es0.len() ==> comp_bounded(
                    (#[trigger] self.enemies@[j]).v().pos,
                    COORD_LIMIT - 5_000,
                ),
                self.player == old(self).player,
                self.platforms == old(self).platforms,
                self.tokens == old(self).tokens,
                self.down_speed == old(self).down_speed,
            decreases n - i,
        {
            let ghost pre = self.enemies@;
            let mut e = self.enemies.remove(i);
            proof {
                assert(es0[i as int].pos == boids_pos@[i as int].v());
            }
            e.update(q, &boids_pos, &boids_vel);
            self.enemies.insert(i, e);
            proof {
                assert(self.enemies@ =~= pre.update(i as int, e));
            }
            i = i + 1;
        }
    }

    /// One full tick: the toggle intent, the scroll step for platforms and
    /// tokens, every agent against the frozen pre-tick snapshot and the
    /// pre-tick player history, and finally the player against the post-tick
    /// entities.
    pub fn update(&mut self, input: &InputIntent)
        requires
            old(self).wf(),
            old(self).bounds_ok(),
        ensures
            final(self).wf(),
            final(self).enemies_v().len() == old(self).enemies_v().len(),
            final(self).platforms_v().len() == old(self).platforms_v().len(),
            final(self).tokens_v().len() == old(self).tokens_v().len(),
            ({
                let es0 = if input.toggle {
                    old(self).enemies_v().map_values(|e: EnemyV| toggle_spec(e))
                } else {
                    old(self).enemies_v()
                };
                let ps = es0.map_values(|e: EnemyV| e.pos);
                let vs = es0.map_values(|e: EnemyV| e.vel);
                forall|i: int|
                    0 <= i < es0.len() ==> (#[trigger] final(self).enemies_v()[i]) == enemy_tick(
                        es0[i],
                        old(self).player_v().hist,
                        ps,
                        vs,
                    )
            }),
            forall|i: int|
                0 <= i < old(self).platforms_v().len() ==> platform_scrolled(
                    old(self).platforms_v()[i],
                    #[trigger] final(self).platforms_v()[i],
                    DOWN_SPEED_INITIAL as int,
                ),
            forall|i: int|
                0 <= i < old(self).tokens_v().len() ==> token_scrolled(
                    old(self).tokens_v()[i],
                    #[trigger] final(self).tokens_v()[i],
                    DOWN_SPEED_INITIAL as int,
                ),
            final(self).player_v() == player_tick(
                old(self).player_v(),
                *input,
                final(self).platforms_v(),
                final(self).enemies_v().map_values(|e: EnemyV| RectV { pos: e.pos, dim: e.dim }),
                final(self).tokens_v(),
            ),
    {
        if input.toggle {
            self.toggle_all();
        }
        proof {
            let es0 = if input.toggle {
                old(self).enemies_v().map_values(|e: EnemyV| toggle_spec(e))
            } else {
                old(self).enemies_v()
            };
            assert(self.enemies@.map_values(|e: Enemy| e.v()) =~= es0);
        }
        self.scroll_platforms();
        self.scroll_tokens();
        self.update_enemies();
        self.player.update(input, &self.platforms, &self.enemies, &self.tokens);
        proof {
            assert(enemy_rects(self.enemies@) =~= self.enemies@.map_values(|e: Enemy| e.v())
                .map_values(|e: EnemyV| RectV { pos: e.pos, dim: e.dim }));
        }
    }
}

} // verus!
