use batflock::game::GameState;
use batflock::vec2::{isqrt, scale_div, Vec2};
use batflock::InputIntent;

fn no_input() -> InputIntent {
    InputIntent { left: false, right: false, jump: false, down: false, toggle: false, restart: false }
}

#[test]
fn integer_square_root_is_exact() {
    assert_eq!(isqrt(0), 0);
    assert_eq!(isqrt(1), 1);
    assert_eq!(isqrt(3), 1);
    assert_eq!(isqrt(4), 2);
    assert_eq!(isqrt(20_249_999), 4_499);
    assert_eq!(isqrt(20_250_000), 4_500);
    assert_eq!(isqrt(250_000_000_000), 500_000);
    assert_eq!(isqrt(0x7fff_ffff_ffff_ffff), 3_037_000_499);
}

#[test]
fn scaling_rounds_toward_zero() {
    assert_eq!(scale_div(5, 800, 1000), 4);
    assert_eq!(scale_div(-5, 800, 1000), -4);
    assert_eq!(scale_div(1999, 1, 1000), 1);
    assert_eq!(scale_div(-1999, 1, 1000), -1);
    assert_eq!(scale_div(3_000, 10_740, 1000), 32_220);
}

#[test]
fn new_game_has_the_advertised_shape() {
    let g = GameState::new();
    assert_eq!(g.get_enemies().len(), 40);
    assert_eq!(g.get_platforms().len(), 35);
    assert_eq!(g.get_tokens().len(), 5);
    assert_eq!(g.get_player().get_pos(), Vec2::new(32_000, 32_000));
    assert_eq!(g.get_player().get_health(), 100_000);
    assert_eq!(g.get_player().get_score(), 0);
    assert!(g.check_bounds());
    for e in g.get_enemies() {
        assert!(!e.is_chasing());
        let p = e.get_pos();
        assert!(0 <= p.x && p.x < 640_000);
        assert!(-200_000 <= p.y && p.y < 280_000);
    }
}

#[test]
fn first_platform_is_anchored_and_the_rest_sit_on_the_grid() {
    let g = GameState::new();
    let plats = g.get_platforms();
    assert_eq!(plats[0].get_pos(), Vec2::new(0, 148_000));
    for p in plats.iter().skip(1) {
        let pos = p.get_pos();
        assert_eq!(pos.x % 68_000, 0);
        assert!(0 <= pos.x && pos.x <= 9 * 68_000);
        assert_eq!((pos.y - 37_000) % 37_000, 0);
        assert!(37_000 <= pos.y && pos.y <= 13 * 37_000);
    }
    for t in g.get_tokens() {
        let pos = t.get_pos();
        assert_eq!(pos.x % 16_000, 0);
        assert!(0 <= pos.x && pos.x <= 29 * 16_000);
        assert_eq!(pos.y % 15_000, 0);
        assert!(0 <= pos.y && pos.y <= 42 * 15_000);
    }
}

#[test]
fn ticks_keep_the_simulation_sane() {
    let mut g = GameState::new();
    for _ in 0..50 {
        assert!(g.check_bounds());
        g.update(&no_input());
        // Every agent obeys the speed clamp after its tick.
        for e in g.get_enemies() {
            let v = e.get_vel();
            assert!(v.x * v.x + v.y * v.y <= 4_501 * 4_501);
        }
    }
    assert!(g.get_player().get_health() <= 100_000);
}

#[test]
fn toggle_flips_every_agent() {
    let mut g = GameState::new();
    let toggled = InputIntent { toggle: true, ..no_input() };
    g.update(&toggled);
    for e in g.get_enemies() {
        assert!(e.is_chasing());
    }
    g.update(&toggled);
    for e in g.get_enemies() {
        assert!(!e.is_chasing());
    }
}

#[test]
fn platforms_scroll_down_each_tick() {
    let mut g = GameState::new();
    let before: Vec<i64> = g.get_platforms().iter().map(|p| p.get_pos().y).collect();
    g.update(&no_input());
    let after: Vec<i64> = g.get_platforms().iter().map(|p| p.get_pos().y).collect();
    for i in 0..before.len() {
        if before[i] + 400 < 480_000 {
            assert_eq!(after[i], before[i] + 400);
        } else {
            assert_eq!(after[i], before[i] + 400 - 517_000);
        }
    }
}
