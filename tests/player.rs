use shooter_core::entities::Player;
use shooter_core::player::{move_player, MoveInput};

fn keys(left: bool, right: bool, up: bool, down: bool) -> MoveInput {
    MoveInput { left, right, up, down }
}

#[test]
fn straight_move_covers_speed_times_time() {
    let p = Player { x: 0, y: 0 };
    let r = move_player(p, keys(false, true, false, false), 100_000);
    assert_eq!(r, Player { x: 40_000_000, y: 0 });
    let r = move_player(p, keys(false, false, false, true), 100_000);
    assert_eq!(r, Player { x: 0, y: -40_000_000 });
}

#[test]
fn diagonal_move_is_normalized() {
    let p = Player { x: 0, y: -320_000_000 };
    let r = move_player(p, keys(false, true, true, false), 1_000_000);
    // 400 / sqrt(2) units per axis, in micro-units, rounded down
    assert_eq!(r, Player { x: 282_842_712, y: -320_000_000 + 282_842_712 });
    let dx = r.x as f64;
    let dy = (r.y + 320_000_000) as f64;
    assert!((dx * dx + dy * dy).sqrt() <= 400_000_000.0);
}

#[test]
fn opposite_keys_cancel() {
    let p = Player { x: 5, y: 7 };
    assert_eq!(move_player(p, keys(true, true, true, true), 1_000_000), p);
    assert_eq!(move_player(p, keys(false, false, false, false), 1_000_000), p);
}

#[test]
fn player_is_held_on_screen() {
    let p = Player { x: 280_000_000, y: 380_000_000 };
    let r = move_player(p, keys(false, true, true, false), 1_000_000);
    assert_eq!(r, Player { x: 285_000_000, y: 385_000_000 });
    let r = move_player(Player { x: 0, y: 0 }, keys(true, false, false, true), u32::MAX);
    assert_eq!(r, Player { x: -285_000_000, y: -385_000_000 });
}
