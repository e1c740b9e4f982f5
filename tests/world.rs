use shooter_core::consts::{ENEMY_FIRE_COOLDOWN_US, FIRE_COOLDOWN_US};
use shooter_core::entities::{Bullet, Enemy, EnemyBullet, GameState, Player};
use shooter_core::motion::MotionKind;
use shooter_core::player::MoveInput;
use shooter_core::timer::Timer;
use shooter_core::world::{draw_jitters, FrameInput, World};

fn idle(dt_us: u32) -> FrameInput {
    FrameInput {
        dt_us,
        moves: MoveInput { left: false, right: false, up: false, down: false },
        fire_held: false,
        fire_pressed: false,
        restart_pressed: false,
    }
}

fn quiet_enemy(id: u64, x: i64, y: i64) -> Enemy {
    Enemy {
        id,
        x,
        y,
        kind: MotionKind::Straight,
        base_x: x,
        t: 0,
        fire: Timer::new(ENEMY_FIRE_COOLDOWN_US, true),
    }
}

fn zero_jitters() -> Vec<u64> {
    vec![0, 0, 0, 0, 0]
}

#[test]
fn new_world_is_ready() {
    let w = World::new();
    assert_eq!(w.state, GameState::Playing);
    assert_eq!(w.player, Some(Player { x: 0, y: -320_000_000 }));
    assert!(w.bullets.is_empty() && w.enemies.is_empty() && w.enemy_bullets.is_empty());
    assert_eq!(w.fire.timer.elapsed, FIRE_COOLDOWN_US);
    assert_eq!(w.spawn.timer.elapsed, 0);
}

#[test]
fn first_wave_then_enemy_leaves_at_bottom() {
    let mut w = World::new();
    w.tick(&idle(800_000), &zero_jitters());
    assert_eq!(w.enemies.len(), 5);
    assert_eq!(w.spawn.timer.elapsed, 0);
    assert_eq!(w.wave_index, 1);
    // spawned across the wave's spread; the same frame's motion step then
    // holds the outermost two inside the screen, 14 units from the edges
    let anchors: Vec<i64> = w.enemies.iter().map(|e| e.base_x).collect();
    assert_eq!(anchors, vec![-288_800_000, -144_400_000, 0, 144_400_000, 288_800_000]);
    let xs: Vec<i64> = w.enemies.iter().map(|e| e.x).collect();
    assert_eq!(xs, vec![-286_000_000, -144_400_000, 0, 144_400_000, 286_000_000]);
    for (i, e) in w.enemies.iter().enumerate() {
        assert_eq!(e.id, i as u64);
        assert_eq!(e.kind, MotionKind::Straight);
        // spawned at 420 units, then fell 180 units/s for 0.8 s
        assert_eq!(e.y, 276_000_000);
    }
    w.enemies[0].y = -420_000_001;
    w.tick(&idle(1_000), &zero_jitters());
    assert_eq!(w.enemies.len(), 4);
    let ids: Vec<u64> = w.enemies.iter().map(|e| e.id).collect();
    assert_eq!(ids, vec![1, 2, 3, 4]);
}

#[test]
fn waves_cycle_patterns() {
    let mut w = World::new();
    w.tick(&idle(800_000), &zero_jitters());
    w.tick(&idle(800_000), &zero_jitters());
    assert_eq!(w.wave_index, 2);
    let kinds: Vec<MotionKind> = w.enemies.iter().map(|e| e.kind).collect();
    assert_eq!(kinds[0], MotionKind::Straight);
    assert_eq!(kinds[5], MotionKind::Sine);
}

#[test]
fn jitter_sets_enemy_fire_timer() {
    let mut w = World::new();
    w.tick(&idle(800_000), &vec![0, 1, 2, 3, 1_199_999]);
    let el: Vec<u64> = w.enemies.iter().map(|e| e.fire.elapsed).collect();
    assert_eq!(el, vec![800_000, 800_001, 800_002, 800_003, 0]);
    // the last enemy's timer reached its cooldown in the same frame: it fired
    // and its timer restarted
    assert_eq!(w.enemy_bullets.len(), 1);
    assert_eq!(w.enemy_bullets[0].x, 286_000_000);
}

#[test]
fn bullet_over_two_enemies_kills_lowest_id() {
    let mut w = World::new();
    w.enemies = vec![quiet_enemy(10, 100_000_000, 0), quiet_enemy(11, 100_000_000, 0)];
    w.bullets = vec![Bullet { id: 12, x: 100_000_000, y: 0 }];
    w.next_id = 13;
    w.tick(&idle(0), &zero_jitters());
    assert!(w.bullets.is_empty());
    assert_eq!(w.enemies.len(), 1);
    assert_eq!(w.enemies[0].id, 11);
    assert_eq!(w.state, GameState::Playing);
}

#[test]
fn double_hit_ends_game_once() {
    let mut w = World::new();
    w.enemies = vec![quiet_enemy(0, 0, -320_000_000)];
    w.enemy_bullets = vec![EnemyBullet { id: 1, x: 0, y: -320_000_000 }];
    w.next_id = 2;
    w.tick(&idle(1_000), &zero_jitters());
    assert_eq!(w.state, GameState::GameOver);
    assert_eq!(w.player, None);
    assert!(w.enemies.is_empty());
    assert!(w.enemy_bullets.is_empty());
    // nothing moves while the game is over
    w.enemies = vec![quiet_enemy(5, 0, 0)];
    w.tick(&idle(1_000_000), &zero_jitters());
    assert_eq!(w.state, GameState::GameOver);
    assert_eq!(w.enemies[0].y, 0);
}

#[test]
fn restart_while_playing_is_ignored() {
    let mut a = World::new();
    let mut b = World::new();
    let mut press = idle(800_000);
    press.restart_pressed = true;
    a.tick(&press, &zero_jitters());
    b.tick(&idle(800_000), &zero_jitters());
    assert_eq!(a.state, GameState::Playing);
    assert_eq!(a.enemies, b.enemies);
    assert_eq!(a.spawn, b.spawn);
    assert_eq!(a.fire, b.fire);
    assert_eq!(a.enemies.len(), 5);
}

#[test]
fn restart_after_game_over() {
    let mut w = World::new();
    w.state = GameState::GameOver;
    w.player = None;
    w.enemies = vec![quiet_enemy(0, 0, 0)];
    w.bullets = vec![Bullet { id: 1, x: 0, y: 0 }];
    w.enemy_bullets = vec![EnemyBullet { id: 2, x: 5, y: 5 }];
    w.fire.timer.elapsed = 7;
    w.spawn.timer.elapsed = 500_000;
    w.next_id = 3;
    let mut press = idle(16_000);
    press.restart_pressed = true;
    w.tick(&press, &zero_jitters());
    assert_eq!(w.state, GameState::Playing);
    assert_eq!(w.player, Some(Player { x: 0, y: -320_000_000 }));
    assert!(w.bullets.is_empty() && w.enemies.is_empty() && w.enemy_bullets.is_empty());
    assert_eq!(w.fire.timer.elapsed, FIRE_COOLDOWN_US);
    assert_eq!(w.spawn.timer.elapsed, 0);
    // a held fire key fires on the very next frame
    let mut hold = idle(1_000);
    hold.fire_held = true;
    w.tick(&hold, &zero_jitters());
    assert_eq!(w.bullets.len(), 1);
    // fired 25 units above the player, then climbed 900 units/s for 1 ms
    assert_eq!(w.bullets[0].y, -320_000_000 + 25_000_000 + 900_000);
    assert_eq!(w.bullets[0].id, 3);
}

#[test]
fn held_fire_respects_cooldown() {
    let mut w = World::new();
    let mut hold = idle(10_000);
    hold.fire_held = true;
    w.tick(&hold, &zero_jitters());
    assert_eq!(w.bullets.len(), 1);
    for _ in 0..11 {
        w.tick(&hold, &zero_jitters());
    }
    assert_eq!(w.bullets.len(), 1);
    w.tick(&hold, &zero_jitters());
    assert_eq!(w.bullets.len(), 2);
    let mut press = idle(1_000);
    press.fire_pressed = true;
    w.tick(&press, &zero_jitters());
    assert_eq!(w.bullets.len(), 3);
}

#[test]
fn bullets_leave_through_the_top() {
    let mut w = World::new();
    w.bullets = vec![Bullet { id: 0, x: 0, y: 415_000_000 }, Bullet { id: 1, x: 0, y: 0 }];
    w.next_id = 2;
    w.tick(&idle(10_000), &zero_jitters());
    let ids: Vec<u64> = w.bullets.iter().map(|b| b.id).collect();
    assert_eq!(ids, vec![1]);
    assert_eq!(w.bullets[0].y, 9_000_000);
}

#[test]
fn enemy_bullets_fall_and_leave() {
    let mut w = World::new();
    w.enemy_bullets = vec![
        EnemyBullet { id: 0, x: 200_000_000, y: -413_000_000 },
        EnemyBullet { id: 1, x: 200_000_000, y: 100_000_000 },
    ];
    w.next_id = 2;
    w.tick(&idle(10_000), &zero_jitters());
    assert_eq!(w.enemy_bullets.len(), 1);
    assert_eq!(w.enemy_bullets[0], EnemyBullet { id: 1, x: 200_000_000, y: 95_800_000 });
}

#[test]
fn player_moves_during_play() {
    let mut w = World::new();
    let mut go = idle(100_000);
    go.moves.left = true;
    w.tick(&go, &zero_jitters());
    assert_eq!(w.player, Some(Player { x: -40_000_000, y: -320_000_000 }));
}

#[test]
fn drawn_jitters_fit_the_cooldown() {
    for _ in 0..50 {
        let j = draw_jitters();
        assert_eq!(j.len(), 5);
        assert!(j.iter().all(|&v| v < ENEMY_FIRE_COOLDOWN_US));
    }
}

#[test]
fn random_tick_spawns_a_wave() {
    let mut w = World::new();
    w.tick_random(&idle(800_000));
    assert_eq!(w.enemies.len(), 5);
    for e in w.enemies.iter() {
        assert!(e.fire.elapsed < ENEMY_FIRE_COOLDOWN_US);
    }
}

#[test]
fn one_wave_per_interval_of_frames() {
    let mut w = World::new();
    for _ in 0..2 {
        let before = w.enemies.len();
        for _ in 0..7 {
            w.tick(&idle(100_000), &zero_jitters());
            assert_eq!(w.enemies.len(), before);
        }
        w.tick(&idle(100_000), &zero_jitters());
        assert_eq!(w.enemies.len(), before + 5);
        assert_eq!(w.spawn.timer.elapsed, 0);
    }
    let ids: Vec<u64> = w.enemies.iter().map(|e| e.id).collect();
    assert_eq!(ids[..5].to_vec(), vec![0, 1, 2, 3, 4]);
}
