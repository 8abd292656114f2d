use batflock::enemy::Enemy;
use batflock::platform::Platform;
use batflock::player::Player;
use batflock::queue::Queue;
use batflock::token::Token;
use batflock::vec2::Vec2;
use batflock::InputIntent;

fn no_input() -> InputIntent {
    InputIntent { left: false, right: false, jump: false, down: false, toggle: false, restart: false }
}

fn no_platforms() -> Vec<Platform> {
    Vec::new()
}

fn no_enemies() -> Vec<Enemy> {
    Vec::new()
}

fn no_tokens() -> Vec<Token> {
    Vec::new()
}

/// Drives a chasing agent until it sits exactly on `target` at rest.
fn park_enemy(target: Vec2) -> Enemy {
    let mut rng = rand::thread_rng();
    let mut e = Enemy::new(9, Vec2::new(20_000, 20_000), &mut rng, 100_000);
    e.set_state(true);
    let mut q: Queue<Vec2> = Queue::new(100);
    q.fill_with(target);
    let no_pos: Vec<Vec2> = Vec::new();
    let no_vel: Vec<Vec2> = Vec::new();
    for _ in 0..400 {
        e.update(&q, &no_pos, &no_vel);
    }
    assert_eq!(e.get_pos(), target);
    e
}

#[test]
fn new_player_is_at_rest_and_healthy() {
    let p = Player::new(Vec2::new(32_000, 32_000));
    assert_eq!(p.get_pos(), Vec2::new(32_000, 32_000));
    assert_eq!(p.get_vel(), Vec2::new(0, 0));
    assert_eq!(p.get_health(), 100_000);
    assert_eq!(p.get_score(), 0);
    assert!(!p.is_facing_left());
    // The history starts full of the spawn position.
    assert_eq!(p.oldest_player_pos(), Vec2::new(32_000, 32_000));
}

#[test]
fn gravity_and_movement_integrate() {
    let mut p = Player::new(Vec2::new(32_000, 32_000));
    let inp = InputIntent { left: true, ..no_input() };
    p.update(&inp, &no_platforms(), &no_enemies(), &no_tokens());
    // Gravity adds 750 down; damping keeps zero at zero; left subtracts 1200.
    assert_eq!(p.get_vel(), Vec2::new(-1_200, 750));
    assert_eq!(p.get_pos(), Vec2::new(32_000 - 1_200, 32_000 + 750));
    assert!(p.is_facing_left());
}

#[test]
fn jump_fires_once_until_grounded() {
    let mut p = Player::new(Vec2::new(32_000, 32_000));
    let inp = InputIntent { jump: true, ..no_input() };
    p.update(&inp, &no_platforms(), &no_enemies(), &no_tokens());
    assert_eq!(p.get_vel(), Vec2::new(0, 750 - 15_000));
    // A second jump while airborne does nothing but gravity.
    p.update(&inp, &no_platforms(), &no_enemies(), &no_tokens());
    assert_eq!(p.get_vel(), Vec2::new(0, 750 - 15_000 + 750));
}

#[test]
fn restart_resets_health_and_position() {
    let mut p = Player::new(Vec2::new(32_000, 600_000));
    // Below the floor threshold the tick drains health instead of gravity.
    p.update(&no_input(), &no_platforms(), &no_enemies(), &no_tokens());
    assert_eq!(p.get_health(), 97_500);
    assert_eq!(p.get_pos(), Vec2::new(32_000, 600_000));
    let inp = InputIntent { restart: true, ..no_input() };
    p.update(&inp, &no_platforms(), &no_enemies(), &no_tokens());
    assert_eq!(p.get_health(), 100_000);
    // The position returns to the spawn, then integrates the velocity.
    assert_eq!(p.get_pos(), Vec2::new(32_000, 600_000));
}

#[test]
fn clear_platform_changes_nothing() {
    let mut p = Player::new(Vec2::new(32_000, 32_000));
    let far = Platform::new(Vec2::new(78_000, 50_000), false, Vec2::new(300_000, 300_000));
    p.update(&no_input(), &vec![far], &no_enemies(), &no_tokens());
    // Same outcome as a tick with no platform at all.
    assert_eq!(p.get_vel(), Vec2::new(0, 750));
    assert_eq!(p.get_pos(), Vec2::new(32_000, 32_750));
}

#[test]
fn landing_grounds_the_player() {
    let mut p = Player::new(Vec2::new(32_000, 32_000));
    // A platform just below: the projected box overlaps it from above, so the
    // vertical velocity is zeroed, the player is grounded, and the position
    // is nudged up by 0.1 units.
    let ground = Platform::new(Vec2::new(78_000, 50_000), false, Vec2::new(0, 38_000));
    p.update(&no_input(), &vec![ground], &no_enemies(), &no_tokens());
    assert_eq!(p.get_vel(), Vec2::new(0, 0));
    assert_eq!(p.get_pos(), Vec2::new(32_000, 32_000 - 100));
}

#[test]
fn token_single_axis_hit_rewards_once() {
    let mut p = Player::new(Vec2::new(32_000, 600_000));
    // Five below-floor ticks drain health to 87500 with the position frozen.
    for _ in 0..5 {
        p.update(&no_input(), &no_platforms(), &no_enemies(), &no_tokens());
    }
    assert_eq!(p.get_health(), 87_500);
    // Jumping up past the token's lower edge: the horizontal axis still hits
    // (the projection only moves vertically), the vertical one does not.
    let token = Token::new(Vec2::new(15_000, 16_000), false, Vec2::new(30_000, 595_000));
    let inp = InputIntent { jump: true, ..no_input() };
    p.update(&inp, &no_platforms(), &no_enemies(), &vec![token]);
    // This tick drains 2500 more, then pays the reward exactly once.
    assert_eq!(p.get_health(), 87_500 - 2_500 + 10_000);
    assert_eq!(p.get_score(), 1);
}

#[test]
fn token_reward_is_clamped_at_full_health() {
    let mut p = Player::new(Vec2::new(32_000, 32_000));
    // Overlapping token at full health: the reward would exceed full, so the
    // health clamps to 100 while the score still counts.
    let token = Token::new(Vec2::new(15_000, 16_000), false, Vec2::new(30_000, 30_000));
    p.update(&no_input(), &no_platforms(), &no_enemies(), &vec![token]);
    assert_eq!(p.get_health(), 100_000);
    assert_eq!(p.get_score(), 1);
}

#[test]
fn enemy_overlap_costs_both_axes() {
    let mut p = Player::new(Vec2::new(32_000, 600_000));
    // Drain to exactly 7500 over 37 below-floor ticks.
    for _ in 0..37 {
        p.update(&no_input(), &no_platforms(), &no_enemies(), &no_tokens());
    }
    assert_eq!(p.get_health(), 100_000 - 37 * 2_500);
    // A parked enemy overlapping the player on both axes: the tick drains the
    // floor penalty down to 5 health, then each axis deducts 0.1 on its own,
    // ending at 4.8 — not the 4.9 a single-axis check would give.
    let e = park_enemy(Vec2::new(32_000, 600_000));
    p.update(&no_input(), &no_platforms(), &vec![e], &no_tokens());
    assert_eq!(p.get_health(), 5_000 - 100 - 100);
}
