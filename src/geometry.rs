use vstd::prelude::*;

verus! {

pub open spec fn abs(v: int) -> int {
    if v < 0 {
        -v
    } else {
        v
    }
}

pub open spec fn clamp(v: int, lo: int, hi: int) -> int {
    if v < lo {
        lo
    } else if v > hi {
        hi
    } else {
        v
    }
}

/// An axis-aligned box given by its center and its half extents.
#[derive(Clone, Copy, Debug, PartialEq, Eq, Structural)]
pub struct Aabb {
    pub cx: i64,
    pub cy: i64,
    pub hx: i64,
    pub hy: i64,
}

/// Two boxes overlap when their centers are no farther apart on each axis
/// than the sum of their half extents; touching boxes overlap.
pub open spec fn overlaps(a: Aabb, b: Aabb) -> bool {
    abs(a.cx - b.cx) <= a.hx + b.hx && abs(a.cy - b.cy) <= a.hy + b.hy
}

pub fn aabb_overlap(a: &Aabb, b: &Aabb) -> (r: bool)
    ensures
        r == overlaps(*a, *b),
{
    let dx: i128 = a.cx as i128 - b.cx as i128;
    let dy: i128 = a.cy as i128 - b.cy as i128;
    let adx: i128 = if dx < 0 { -dx } else { dx };
    let ady: i128 = if dy < 0 { -dy } else { dy };
    adx <= a.hx as i128 + b.hx as i128 && ady <= a.hy as i128 + b.hy as i128
}

/// Overlap does not depend on the order of the two boxes.
pub proof fn lemma_overlap_symmetric(a: Aabb, b: Aabb)
    ensures
        overlaps(a, b) == overlaps(b, a),
{
}

/// Boxes whose edges just touch on one axis, and which meet on the other,
/// overlap.
pub proof fn lemma_touching_boxes_overlap(a: Aabb, b: Aabb)
    requires
        abs(a.cx - b.cx) == a.hx + b.hx,
        abs(a.cy - b.cy) <= a.hy + b.hy,
    ensures
        overlaps(a, b),
{
}

} // verus!
