use batflock::enemy::Enemy;
use batflock::queue::Queue;
use batflock::vec2::Vec2;

/// Drives a chasing agent until it sits exactly on `target`: once the agent
/// is within the speed limit of the target, one chase step lands on it
/// exactly, and from then on the velocity is zero.
fn park(e: &mut Enemy, target: Vec2) {
    e.set_state(true);
    let mut q: Queue<Vec2> = Queue::new(100);
    q.fill_with(target);
    let no_pos: Vec<Vec2> = Vec::new();
    let no_vel: Vec<Vec2> = Vec::new();
    for _ in 0..400 {
        e.update(&q, &no_pos, &no_vel);
    }
    assert_eq!(e.get_pos(), target);
    assert_eq!(e.get_vel(), Vec2::new(0, 0));
}

fn fresh_enemy(id: u16) -> Enemy {
    let mut rng = rand::thread_rng();
    Enemy::new(id, Vec2::new(20_000, 20_000), &mut rng, 100_000)
}

#[test]
fn spawn_is_inside_the_band() {
    let e = fresh_enemy(0);
    let p = e.get_pos();
    assert!(0 <= p.x && p.x < 640_000);
    assert!(-200_000 <= p.y && p.y < 280_000);
    assert_eq!(e.get_vel(), Vec2::new(0, 0));
    assert!(e.is_facing_left());
    assert!(!e.is_chasing());
}

#[test]
fn chase_aims_exactly_at_the_stale_position() {
    // Lag offset irrelevant: the whole history holds the same entry, so the
    // sampled stale position is known exactly.
    let mut e = fresh_enemy(1);
    park(&mut e, Vec2::new(100_000, 100_000));
    let mut q: Queue<Vec2> = Queue::new(100);
    q.fill_with(Vec2::new(103_000, 102_000));
    let no_pos: Vec<Vec2> = Vec::new();
    let no_vel: Vec<Vec2> = Vec::new();
    e.update(&q, &no_pos, &no_vel);
    // Distance 3606 is under the speed limit: no clamping, the velocity is
    // exactly target - position.
    assert_eq!(e.get_vel(), Vec2::new(3_000, 2_000));
    assert_eq!(e.get_pos(), Vec2::new(103_000, 102_000));
    assert!(!e.is_facing_left());
}

#[test]
fn speed_clamp_caps_the_magnitude() {
    let mut e = fresh_enemy(2);
    park(&mut e, Vec2::new(100_000, 100_000));
    // A target 500 units to the right: the raw chase velocity (500000, 0)
    // is rescaled onto the maximum-speed circle exactly.
    let mut q: Queue<Vec2> = Queue::new(100);
    q.fill_with(Vec2::new(600_000, 100_000));
    let no_pos: Vec<Vec2> = Vec::new();
    let no_vel: Vec<Vec2> = Vec::new();
    e.update(&q, &no_pos, &no_vel);
    assert_eq!(e.get_vel(), Vec2::new(4_500, 0));
}

#[test]
fn speed_clamp_preserves_direction() {
    let mut e = fresh_enemy(3);
    park(&mut e, Vec2::new(100_000, 100_000));
    // Raw velocity (30000, 40000) has magnitude 50000; scaled by 4500/50000
    // it becomes exactly (2700, 3600), of magnitude exactly 4500.
    let mut q: Queue<Vec2> = Queue::new(100);
    q.fill_with(Vec2::new(130_000, 140_000));
    let no_pos: Vec<Vec2> = Vec::new();
    let no_vel: Vec<Vec2> = Vec::new();
    e.update(&q, &no_pos, &no_vel);
    let v = e.get_vel();
    assert_eq!(v, Vec2::new(2_700, 3_600));
    assert!(v.x * v.x + v.y * v.y <= 4_501 * 4_501);
}

#[test]
fn toggle_applies_the_release_impulse() {
    let mut e = fresh_enemy(4);
    park(&mut e, Vec2::new(100_000, 100_000));
    let mut q: Queue<Vec2> = Queue::new(100);
    q.fill_with(Vec2::new(103_000, 102_000));
    let no_pos: Vec<Vec2> = Vec::new();
    let no_vel: Vec<Vec2> = Vec::new();
    e.update(&q, &no_pos, &no_vel);
    assert_eq!(e.get_vel(), Vec2::new(3_000, 2_000));
    assert!(e.is_chasing());
    e.toggle_state();
    // Leaving Chase scales the velocity by (10.74, 10.5).
    assert!(!e.is_chasing());
    assert_eq!(e.get_vel(), Vec2::new(3_000 * 10_740 / 1000, 2_000 * 10_500 / 1000));
    e.toggle_state();
    // Entering Chase leaves the velocity alone.
    assert!(e.is_chasing());
    assert_eq!(e.get_vel(), Vec2::new(32_220, 21_000));
}

#[test]
fn separation_is_boundary_exclusive_at_fifteen_units() {
    // Two agents exactly 15 units apart: the peer contributes no repulsion,
    // so the whole flocking delta for A is the cohesion pull alone:
    // centroid = (A + B + (0.02, 0)) / 2 = (107510, 100000), and the delta is
    // ((107510 - 100000) * 5 / 1000, 0) = (37, 0).
    let mut a = fresh_enemy(5);
    let mut b = fresh_enemy(6);
    park(&mut a, Vec2::new(100_000, 100_000));
    park(&mut b, Vec2::new(115_000, 100_000));
    a.set_state(false);
    b.set_state(false);
    let boids_pos = vec![a.get_pos(), b.get_pos()];
    let boids_vel = vec![a.get_vel(), b.get_vel()];
    // A history far away: the player attraction contributes nothing.
    let mut q: Queue<Vec2> = Queue::new(100);
    q.fill_with(Vec2::new(500_000, 100_000));
    a.update(&q, &boids_pos, &boids_vel);
    assert_eq!(a.get_vel(), Vec2::new(37, 0));
    assert_eq!(a.get_pos(), Vec2::new(100_037, 100_000));
}

#[test]
fn separation_repels_strictly_inside_fifteen_units() {
    // The same setup one thousandth closer: the peer now repels with
    // (100000 - 114999) * 5 / 1000 = -74, while the cohesion pull is
    // (7509 * 5) / 1000 = 37, so the delta is (37 - 74, 0) = (-37, 0).
    let mut a = fresh_enemy(7);
    let mut b = fresh_enemy(8);
    park(&mut a, Vec2::new(100_000, 100_000));
    park(&mut b, Vec2::new(114_999, 100_000));
    a.set_state(false);
    b.set_state(false);
    let boids_pos = vec![a.get_pos(), b.get_pos()];
    let boids_vel = vec![a.get_vel(), b.get_vel()];
    let mut q: Queue<Vec2> = Queue::new(100);
    q.fill_with(Vec2::new(500_000, 100_000));
    a.update(&q, &boids_pos, &boids_vel);
    assert_eq!(a.get_vel(), Vec2::new(-37, 0));
    assert!(a.is_facing_left());
}
