//! Presentation timestamps computed with exact integer arithmetic.

use vstd::arithmetic::div_mod::{lemma_div_is_ordered, lemma_fundamental_div_mod_converse};
use vstd::prelude::*;

verus! {

/// `n / d` rounded to the nearest integer, halves rounded away from zero.
pub open spec fn round_div(n: int, d: int) -> int
    recommends
        d > 0,
{
    if n >= 0 {
        (2 * n + d) / (2 * d)
    } else {
        -((2 * (-n) + d) / (2 * d))
    }
}

/// The timestamp of frame `frame_idx` at `fps` frames per second, in units of
/// which `ticks_per_second` make one second.
pub open spec fn pts_of(frame_idx: int, fps: int, ticks_per_second: int) -> int
    recommends
        fps > 0,
{
    round_div(frame_idx * ticks_per_second, fps)
}

/// `v` limited to the range of `i64`.
pub open spec fn clamp_i64(v: int) -> int {
    if v < i64::MIN {
        i64::MIN as int
    } else if v > i64::MAX {
        i64::MAX as int
    } else {
        v
    }
}

/// The magnitude of `x`.
pub open spec fn abs(x: int) -> int {
    if x < 0 {
        -x
    } else {
        x
    }
}

proof fn lemma_round_from_quotient(m: int, d: int)
    requires
        m >= 0,
        d > 0,
    ensures
        round_div(m, d) == m / d + (if 2 * (m % d) >= d { 1int } else { 0int }),
        round_div(-m, d) == -round_div(m, d),
{
    let q = m / d;
    let r = m % d;
    assert(m == q * d + r && 0 <= r < d) by (nonlinear_arith)
        requires
            q == m / d,
            r == m % d,
            d > 0,
    ;
    if 2 * r >= d {
        assert(2 * m + d == (q + 1) * (2 * d) + (2 * r - d)) by (nonlinear_arith)
            requires
                m == q * d + r,
        ;
        lemma_fundamental_div_mod_converse(2 * m + d, 2 * d, q + 1, 2 * r - d);
    } else {
        assert(2 * m + d == q * (2 * d) + (2 * r + d)) by (nonlinear_arith)
            requires
                m == q * d + r,
        ;
        lemma_fundamental_div_mod_converse(2 * m + d, 2 * d, q, 2 * r + d);
    }
    if m == 0 {
        assert(round_div(0, d) == 0) by {
            lemma_fundamental_div_mod_converse(d, 2 * d, 0, d);
        }
    }
}

proof fn lemma_product_magnitude(x: int, y: int)
    ensures
        abs(x * y) == abs(x) * abs(y),
        (x * y < 0) <==> ((x < 0) != (y < 0) && x != 0 && y != 0),
        abs(x) <= 0x8000_0000_0000_0000 && abs(y) <= 0x8000_0000_0000_0000 ==> abs(x) * abs(y)
            <= 0x4000_0000_0000_0000_0000_0000_0000_0000,
{
    assert(abs(x * y) == abs(x) * abs(y)) by (nonlinear_arith);
    assert((x * y < 0) <==> ((x < 0) != (y < 0) && x != 0 && y != 0)) by (nonlinear_arith);
    assert(abs(x) <= 0x8000_0000_0000_0000 && abs(y) <= 0x8000_0000_0000_0000 ==> abs(x) * abs(y)
        <= 0x4000_0000_0000_0000_0000_0000_0000_0000) by (nonlinear_arith);
}

fn magnitude(x: i64) -> (m: u128)
    ensures
        m == abs(x as int),
        m <= 0x8000_0000_0000_0000,
{
    if x < 0 {
        let wide: i128 = x as i128;
        (-wide) as u128
    } else {
        x as u128
    }
}

/// Converts a frame index to a presentation timestamp: the frame's time in
/// seconds, `frame_idx / fps`, expressed in ticks and rounded to the nearest
/// tick (halves away from zero). A timestamp outside the range of `i64` is
/// limited to the nearest bound.
pub fn frame_to_pts(frame_idx: i64, fps: i64, ticks_per_second: i64) -> (pts: i64)
    requires
        fps > 0,
    ensures
        pts == clamp_i64(pts_of(frame_idx as int, fps as int, ticks_per_second as int)),
{
    let a: u128 = magnitude(frame_idx);
    let b: u128 = magnitude(ticks_per_second);
    proof {
        lemma_product_magnitude(frame_idx as int, ticks_per_second as int);
    }
    let m: u128 = a * b;
    let d: u128 = fps as u128;
    let q: u128 = m / d;
    let r: u128 = m % d;
    proof {
        lemma_round_from_quotient(m as int, d as int);
        assert(q <= m) by (nonlinear_arith)
            requires
                q == m / d,
                d >= 1,
        ;
    }
    let rounded: u128 = if 2 * r >= d {
        q + 1
    } else {
        q
    };
    let negative = (frame_idx < 0) != (ticks_per_second < 0) && m != 0;
    if negative {
        if rounded >= 0x8000_0000_0000_0000 {
            i64::MIN
        } else {
            -(rounded as i64)
        }
    } else {
        if rounded > 0x7fff_ffff_ffff_ffff {
            i64::MAX
        } else {
            rounded as i64
        }
    }
}

/// Frame zero is stamped zero.
pub proof fn lemma_pts_origin(fps: int, ticks_per_second: int)
    requires
        fps > 0,
    ensures
        pts_of(0, fps, ticks_per_second) == 0,
{
    assert(0 * ticks_per_second == 0);
    lemma_fundamental_div_mod_converse(fps, 2 * fps, 0, fps);
}

/// Timestamps strictly increase with the frame index, provided a frame lasts
/// at least one tick (`fps <= ticks_per_second`).
pub proof fn lemma_pts_strictly_increasing(i: int, j: int, fps: int, ticks_per_second: int)
    requires
        0 <= i < j,
        0 < fps <= ticks_per_second,
    ensures
        pts_of(i, fps, ticks_per_second) < pts_of(j, fps, ticks_per_second),
{
    let t = ticks_per_second;
    let ni = i * t;
    let nj = j * t;
    assert(ni >= 0 && nj >= ni + fps) by (nonlinear_arith)
        requires
            0 <= i < j,
            0 < fps <= t,
            ni == i * t,
            nj == j * t,
    ;
    let x = 2 * ni + fps;
    // Advancing the numerator by one whole divisor advances the quotient by one.
    let q = x / (2 * fps);
    let r = x % (2 * fps);
    assert(x == q * (2 * fps) + r && 0 <= r < 2 * fps) by (nonlinear_arith)
        requires
            q == x / (2 * fps),
            r == x % (2 * fps),
            fps > 0,
    ;
    assert(x + 2 * fps == (q + 1) * (2 * fps) + r) by (nonlinear_arith)
        requires
            x == q * (2 * fps) + r,
    ;
    lemma_fundamental_div_mod_converse(x + 2 * fps, 2 * fps, q + 1, r);
    lemma_div_is_ordered(x + 2 * fps, 2 * nj + fps, 2 * fps);
}

/// The timestamp is a nearest tick: it differs from the exact time by at most
/// half a tick.
pub proof fn lemma_pts_is_nearest(frame_idx: int, fps: int, ticks_per_second: int)
    requires
        fps > 0,
    ensures
        2 * abs(pts_of(frame_idx, fps, ticks_per_second) * fps - frame_idx * ticks_per_second)
            <= fps,
{
    let n = frame_idx * ticks_per_second;
    let m = abs(n);
    lemma_round_from_quotient(m, fps);
    let q = m / fps;
    let r = m % fps;
    assert(m == q * fps + r && 0 <= r < fps) by (nonlinear_arith)
        requires
            q == m / fps,
            r == m % fps,
            fps > 0,
    ;
    let p = round_div(m, fps);
    assert(2 * abs(p * fps - m) <= fps) by (nonlinear_arith)
        requires
            m == q * fps + r,
            0 <= r < fps,
            p == q + (if 2 * r >= fps { 1int } else { 0int }),
    ;
    if n < 0 {
        assert(round_div(n, fps) == -p);
        assert((-p) * fps - n == -(p * fps - m)) by (nonlinear_arith)
            requires
                n == -m,
        ;
    }
}

} // verus!
