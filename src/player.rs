use vstd::prelude::*;
use vstd::arithmetic::div_mod::{lemma_fundamental_div_mod, lemma_mod_pos_bound};
use crate::consts::{HALF_HEIGHT, HALF_WIDTH, PLAYER_RADIUS, PLAYER_SPEED};
use crate::entities::Player;
use crate::geometry::clamp;

verus! {

/// The integer square root: the largest `r` with `r * r <= n`.
pub open spec fn isqrt(n: nat) -> nat
    decreases n,
{
    if n == 0 {
        0
    } else {
        let r = isqrt((n - 1) as nat);
        if (r + 1) * (r + 1) <= n {
            r + 1
        } else {
            r
        }
    }
}

pub proof fn lemma_isqrt_bounds(n: nat)
    ensures
        isqrt(n) * isqrt(n) <= n < (isqrt(n) + 1) * (isqrt(n) + 1),
    decreases n,
{
    if n == 0 {
        assert(isqrt(0) == 0);
        assert((0nat + 1) * (0nat + 1) == 1) by (nonlinear_arith);
    } else {
        lemma_isqrt_bounds((n - 1) as nat);
        let r = isqrt((n - 1) as nat);
        assert(r * r <= n - 1 < (r + 1) * (r + 1));
        if (r + 1) * (r + 1) <= n {
            assert(isqrt(n) == r + 1);
            assert(n < (r + 1 + 1) * (r + 1 + 1)) by (nonlinear_arith)
                requires (r + 1) * (r + 1) <= n, n - 1 < (r + 1) * (r + 1);
        } else {
            assert(isqrt(n) == r);
        }
    }
}

proof fn lemma_isqrt_unique(n: nat, r: nat)
    requires
        r * r <= n < (r + 1) * (r + 1),
    ensures
        r == isqrt(n),
{
    lemma_isqrt_bounds(n);
    let s = isqrt(n);
    if r < s {
        assert((r + 1) * (r + 1) <= s * s) by (nonlinear_arith)
            requires r + 1 <= s;
    } else if s < r {
        assert((s + 1) * (s + 1) <= r * r) by (nonlinear_arith)
            requires s + 1 <= r;
    }
}

/// Distance covered along one axis in `dt` microseconds when moving straight.
pub open spec fn straight_step(dt: int) -> int {
    PLAYER_SPEED * dt
}

/// Distance covered along each axis in `dt` microseconds when moving
/// diagonally: the straight step divided by the square root of two, rounded down.
pub open spec fn diagonal_step(dt: int) -> int {
    isqrt(((straight_step(dt) * straight_step(dt)) / 2) as nat) as int
}

fn diagonal_step_at(dt: u32) -> (r: i64)
    ensures
        r == diagonal_step(dt as int),
{
    let s: u128 = (PLAYER_SPEED as u128) * (dt as u128);
    proof {
        assert(s == 400 * (dt as int));
        assert(s * s <= 2_951_479_051_793_528_258_560_000) by (nonlinear_arith)
            requires s == 400 * (dt as int), dt <= u32::MAX;
    }
    let n: u128 = s * s / 2;
    let mut lo: u128 = 0;
    let mut hi: u128 = s + 1;
    proof {
        assert(n < hi * hi) by (nonlinear_arith)
            requires n == s * s / 2, hi == s + 1;
    }
    while hi - lo > 1
        invariant
            lo < hi <= s + 1,
            s <= 400 * (u32::MAX as int),
            lo * lo <= n < hi * hi,
        decreases hi - lo,
    {
        let mid = lo + (hi - lo) / 2;
        proof {
            assert(mid * mid <= (s + 1) * (s + 1)) by (nonlinear_arith)
                requires mid <= s + 1;
            assert((s + 1) * (s + 1) <= (400 * (u32::MAX as int) + 1) * (400 * (u32::MAX as int) + 1))
                by (nonlinear_arith)
                requires s <= 400 * (u32::MAX as int);
        }
        if mid * mid <= n {
            lo = mid;
        } else {
            hi = mid;
        }
    }
    proof {
        assert(hi == lo + 1);
        lemma_isqrt_unique(n as nat, lo as nat);
    }
    lo as i64
}

/// Which way the movement keys point the player.
#[derive(Clone, Copy, Debug, PartialEq, Eq, Structural)]
pub struct MoveInput {
    pub left: bool,
    pub right: bool,
    pub up: bool,
    pub down: bool,
}

/// -1, 0 or 1 along an axis from the keys toward each of its ends.
pub open spec fn axis(toward_neg: bool, toward_pos: bool) -> int {
    (if toward_pos { 1int } else { 0int }) - (if toward_neg { 1int } else { 0int })
}

pub open spec fn player_x_limit() -> int {
    HALF_WIDTH - PLAYER_RADIUS
}

pub open spec fn player_y_limit() -> int {
    HALF_HEIGHT - PLAYER_RADIUS
}

/// The player after `dt` microseconds of movement: at the player's speed in
/// the keys' direction, diagonals no faster than straight lines, then held
/// inside the screen.
pub open spec fn moved_player(p: Player, m: MoveInput, dt: int) -> Player {
    let dx = axis(m.left, m.right);
    let dy = axis(m.down, m.up);
    let step = if dx != 0 && dy != 0 {
        diagonal_step(dt)
    } else {
        straight_step(dt)
    };
    Player {
        x: clamp(p.x + dx * step, -player_x_limit(), player_x_limit()) as i64,
        y: clamp(p.y + dy * step, -player_y_limit(), player_y_limit()) as i64,
    }
}

fn axis_at(toward_neg: bool, toward_pos: bool) -> (r: i128)
    ensures
        r == axis(toward_neg, toward_pos),
{
    (if toward_pos { 1 } else { 0 }) - (if toward_neg { 1 } else { 0 })
}

fn clamp_at(v: i128, lim: i64) -> (r: i64)
    requires
        lim >= 0,
    ensures
        r == clamp(v as int, -lim, lim as int),
{
    if v < -(lim as i128) {
        -lim
    } else if v > lim as i128 {
        lim
    } else {
        v as i64
    }
}

pub fn move_player(p: Player, m: MoveInput, dt: u32) -> (r: Player)
    ensures
        r == moved_player(p, m, dt as int),
{
    let dx = axis_at(m.left, m.right);
    let dy = axis_at(m.down, m.up);
    proof {
        assert((PLAYER_SPEED as i128) * (dt as i128) <= 400 * (u32::MAX as int)) by (nonlinear_arith)
            requires PLAYER_SPEED == 400, dt <= u32::MAX;
    }
    let step: i128 = if dx != 0 && dy != 0 {
        diagonal_step_at(dt) as i128
    } else {
        (PLAYER_SPEED as i128) * (dt as i128)
    };
    proof {
        if dx != 0 && dy != 0 {
            lemma_diagonal_not_faster(dt as int);
        }
        assert(straight_step(dt as int) <= 400 * (u32::MAX as int));
    }
    let mx: i128 = if dx > 0 { step } else if dx < 0 { -step } else { 0 };
    let my: i128 = if dy > 0 { step } else if dy < 0 { -step } else { 0 };
    assert(mx == dx * step && my == dy * step) by (nonlinear_arith)
        requires
            dx == 1 || dx == 0 || dx == -1,
            dy == 1 || dy == 0 || dy == -1,
            mx == (if dx > 0 { step as int } else if dx < 0 { -step } else { 0int }),
            my == (if dy > 0 { step as int } else if dy < 0 { -step } else { 0int });
    let x = clamp_at(p.x as i128 + mx, HALF_WIDTH - PLAYER_RADIUS);
    let y = clamp_at(p.y as i128 + my, HALF_HEIGHT - PLAYER_RADIUS);
    Player { x, y }
}

/// Moving diagonally covers no more ground than moving straight: two equal
/// diagonal steps make a hypotenuse no longer than one straight step, and
/// are the longest that do.
pub proof fn lemma_diagonal_not_faster(dt: int)
    requires
        dt >= 0,
    ensures
        0 <= diagonal_step(dt) <= straight_step(dt),
        2 * diagonal_step(dt) * diagonal_step(dt) <= straight_step(dt) * straight_step(dt),
        straight_step(dt) * straight_step(dt) < 2 * (diagonal_step(dt) + 1) * (diagonal_step(dt)
            + 1),
{
    let s = straight_step(dt);
    let n = s * s / 2;
    assert(s * s >= 0) by (nonlinear_arith);
    lemma_isqrt_bounds(n as nat);
    let d = diagonal_step(dt);
    lemma_fundamental_div_mod(s * s, 2);
    lemma_mod_pos_bound(s * s, 2);
    assert(2 * d * d <= s * s) by (nonlinear_arith)
        requires d * d <= n, s * s == 2 * n + (s * s) % 2, 0 <= (s * s) % 2 < 2;
    assert(s * s < 2 * (d + 1) * (d + 1)) by (nonlinear_arith)
        requires n < (d + 1) * (d + 1), s * s == 2 * n + (s * s) % 2, 0 <= (s * s) % 2 < 2;
    assert(d <= s) by (nonlinear_arith)
        requires 2 * d * d <= s * s, s >= 0, d >= 0;
}

} // verus!
