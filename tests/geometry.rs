use shooter_core::geometry::{aabb_overlap, Aabb};

fn bx(cx: i64, cy: i64, hx: i64, hy: i64) -> Aabb {
    Aabb { cx, cy, hx, hy }
}

#[test]
fn overlap_is_symmetric() {
    let cases = [
        (bx(0, 0, 5, 5), bx(9, 0, 5, 5)),
        (bx(0, 0, 5, 5), bx(11, 0, 5, 5)),
        (bx(-3, 7, 1, 2), bx(100, -50, 10, 10)),
        (bx(i64::MIN, 0, 1, 1), bx(i64::MAX, 0, 1, 1)),
    ];
    for (a, b) in cases.iter() {
        assert_eq!(aabb_overlap(a, b), aabb_overlap(b, a));
    }
}

#[test]
fn touching_edges_overlap() {
    assert!(aabb_overlap(&bx(0, 0, 5, 5), &bx(10, 0, 5, 5)));
    assert!(aabb_overlap(&bx(0, 0, 5, 5), &bx(10, -10, 5, 5)));
    assert!(!aabb_overlap(&bx(0, 0, 5, 5), &bx(11, 0, 5, 5)));
    assert!(!aabb_overlap(&bx(0, 0, 5, 5), &bx(0, 11, 5, 5)));
}

#[test]
fn far_apart_extremes_do_not_overflow() {
    assert!(!aabb_overlap(&bx(i64::MIN, i64::MIN, 1, 1), &bx(i64::MAX, i64::MAX, 1, 1)));
}
