use shooter_core::collision::{first_overlap_index, resolve_hits};
use shooter_core::geometry::Aabb;

fn bx(cx: i64, cy: i64, hx: i64, hy: i64) -> Aabb {
    Aabb { cx, cy, hx, hy }
}

#[test]
fn bullet_over_two_enemies_takes_the_first() {
    let bullets = vec![bx(0, 0, 3, 8)];
    let enemies = vec![bx(0, 5, 14, 10), bx(0, -5, 14, 10)];
    let h = resolve_hits(None, &bullets, &enemies, &vec![]);
    assert_eq!(h.bullets, vec![true]);
    assert_eq!(h.enemies, vec![true, false]);
    assert!(!h.player);
}

#[test]
fn two_bullets_on_one_enemy_both_die() {
    let bullets = vec![bx(0, 0, 3, 8), bx(1, 1, 3, 8)];
    let enemies = vec![bx(0, 5, 14, 10)];
    let h = resolve_hits(None, &bullets, &enemies, &vec![]);
    assert_eq!(h.bullets, vec![true, true]);
    assert_eq!(h.enemies, vec![true]);
}

#[test]
fn player_hit_by_enemy_and_enemy_bullet_at_once() {
    let player = Some(bx(0, 0, 15, 15));
    let enemies = vec![bx(100, 0, 14, 10), bx(0, 10, 14, 10), bx(0, -10, 14, 10)];
    let enemy_bullets = vec![bx(0, 0, 3, 7), bx(5, 0, 3, 7)];
    let h = resolve_hits(player, &vec![], &enemies, &enemy_bullets);
    assert!(h.player);
    assert_eq!(h.enemies, vec![false, true, false]);
    assert_eq!(h.enemy_bullets, vec![true, false]);
}

#[test]
fn no_player_no_hit() {
    let h = resolve_hits(None, &vec![], &vec![bx(0, 0, 1, 1)], &vec![bx(0, 0, 1, 1)]);
    assert!(!h.player);
    assert_eq!(h.enemies, vec![false]);
    assert_eq!(h.enemy_bullets, vec![false]);
}

#[test]
fn first_overlap_scans_in_order() {
    let bs = vec![bx(50, 0, 1, 1), bx(2, 0, 1, 1), bx(1, 0, 1, 1)];
    assert_eq!(first_overlap_index(&bx(0, 0, 1, 1), &bs), Some(1));
    assert_eq!(first_overlap_index(&bx(-10, 0, 1, 1), &bs), None);
}
