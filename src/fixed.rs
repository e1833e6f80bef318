//! Fixed-point numbers: a quantity `q` of the field is held as the integer
//! `q * UNIT`, and angles are held in units where a half turn is `HALF_TURN`.
use vstd::arithmetic::div_mod::{
    lemma_div_basics_5, lemma_div_by_multiple, lemma_div_by_multiple_is_strongly_ordered,
    lemma_div_is_ordered, lemma_div_pos_is_pos,
};
use vstd::prelude::*;

verus! {

/// The integer that stands for the length 1.
pub const UNIT: i64 = 1_000_000;

/// The angle of a half turn (pi radians).
pub const HALF_TURN: i64 = 16_000_000;

/// Division that rounds toward zero, as Rust's integer division does.
pub open spec fn div_toward_zero(x: int, d: int) -> int {
    if x >= 0 {
        x / d
    } else {
        -((-x) / d)
    }
}

/// The nearer of `lo` and `hi` when `x` lies outside `lo..=hi`, else `x`.
pub open spec fn clamp(x: int, lo: int, hi: int) -> int {
    if x < lo {
        lo
    } else if x > hi {
        hi
    } else {
        x
    }
}

proof fn lemma_div_toward_zero_bound(x: int, d: int)
    requires
        d > 0,
    ensures
        x >= 0 ==> 0 <= div_toward_zero(x, d) <= x,
        x <= 0 ==> x <= div_toward_zero(x, d) <= 0,
{
    if x >= 0 {
        lemma_div_basics_5(x, d);
    } else {
        lemma_div_basics_5(-x, d);
    }
}

/// `x / d` rounded toward zero.
pub fn div_i64(x: i64, d: i64) -> (r: i64)
    requires
        x > i64::MIN,
        d > 0,
    ensures
        r == div_toward_zero(x as int, d as int),
        x >= 0 ==> 0 <= r <= x,
        x <= 0 ==> x <= r <= 0,
{
    proof {
        lemma_div_toward_zero_bound(x as int, d as int);
    }
    if x >= 0 {
        x / d
    } else {
        -((-x) / d)
    }
}

/// `x` held within `lo..=hi`.
pub fn clamp_i64(x: i64, lo: i64, hi: i64) -> (r: i64)
    requires
        lo <= hi,
    ensures
        r == clamp(x as int, lo as int, hi as int),
        lo <= r <= hi,
{
    if x < lo {
        lo
    } else if x > hi {
        hi
    } else {
        x
    }
}

/// Bhaskara I's rational approximation of `UNIT * sin(t)` for `0 <= t <= HALF_TURN`:
/// `16 t (pi - t) / (5 pi^2 - 4 t (pi - t))`, rounded down. It stays within
/// about 0.0016 of the true sine.
pub open spec fn bhaskara(t: int) -> int {
    let q = t * (HALF_TURN - t);
    (16 * UNIT * q) / (5 * HALF_TURN * HALF_TURN - 4 * q)
}

/// The angle `t`, for `-3 HALF_TURN <= t <= 3 HALF_TURN`, brought into the
/// turn `-HALF_TURN..=HALF_TURN`.
pub open spec fn reduced(t: int) -> int {
    if t > HALF_TURN {
        t - 2 * HALF_TURN
    } else if t < -HALF_TURN {
        t + 2 * HALF_TURN
    } else {
        t
    }
}

/// The approximation of `UNIT * sin(t)`: Bhaskara's on the reduced angle,
/// extended as an odd function.
pub open spec fn sine(t: int) -> int {
    let u = reduced(t);
    if u >= 0 {
        bhaskara(u)
    } else {
        -bhaskara(-u)
    }
}

/// `r` is the square root of `m` rounded down.
pub open spec fn is_floor_sqrt(r: int, m: int) -> bool {
    0 <= r && r * r <= m && m < (r + 1) * (r + 1)
}

/// The square root of `m >= 0`, rounded down.
pub open spec fn floor_sqrt(m: int) -> int {
    choose|r: int| is_floor_sqrt(r, m)
}

/// The approximation of `UNIT * cos(t)`: the length that, with the sine,
/// makes at most the unit vector, rounded down, and negative on the far half
/// of the turn. So `sine(t)^2 + cosine(t)^2 <= UNIT^2`.
pub open spec fn cosine(t: int) -> int {
    let u = reduced(t);
    let r = floor_sqrt(UNIT * UNIT - sine(t) * sine(t));
    if -(HALF_TURN / 2) <= u <= HALF_TURN / 2 {
        r
    } else {
        -r
    }
}

proof fn lemma_bhaskara_bounds(t: int)
    requires
        0 <= t <= HALF_TURN,
    ensures
        0 <= bhaskara(t) <= UNIT,
        2 * t != HALF_TURN ==> bhaskara(t) < UNIT,
{
    let p = HALF_TURN as int;
    let q = t * (p - t);
    let n = 16 * UNIT * q;
    let d = 5 * p * p - 4 * q;
    assert(0 <= q && 4 * q <= p * p) by (nonlinear_arith)
        requires
            0 <= t <= p,
            q == t * (p - t),
    ;
    assert(d > 0);
    assert(n <= UNIT * d) by (nonlinear_arith)
        requires
            n == 16 * UNIT * q,
            d == 5 * p * p - 4 * q,
            4 * q <= p * p,
            UNIT > 0,
    ;
    lemma_div_pos_is_pos(n, d);
    lemma_div_is_ordered(n, UNIT * d, d);
    lemma_div_by_multiple(UNIT as int, d);
    if 2 * t != p {
        assert(4 * q < p * p) by (nonlinear_arith)
            requires
                q == t * (p - t),
                2 * t != p,
        ;
        assert(n < UNIT * d) by (nonlinear_arith)
            requires
                n == 16 * UNIT * q,
                d == 5 * p * p - 4 * q,
                4 * q < p * p,
                UNIT > 0,
        ;
        lemma_div_by_multiple_is_strongly_ordered(n, UNIT * d, UNIT as int, d);
    }
}

proof fn lemma_floor_sqrt_unique(r: int, s: int, m: int)
    requires
        is_floor_sqrt(r, m),
        is_floor_sqrt(s, m),
    ensures
        r == s,
{
    if r < s {
        assert((r + 1) * (r + 1) <= s * s) by (nonlinear_arith)
            requires
                0 <= r < s,
        ;
    } else if s < r {
        assert((s + 1) * (s + 1) <= r * r) by (nonlinear_arith)
            requires
                0 <= s < r,
        ;
    }
}

proof fn lemma_floor_sqrt_exists(m: int)
    requires
        m >= 0,
    ensures
        is_floor_sqrt(floor_sqrt(m), m),
    decreases m,
{
    if m == 0 {
        assert(is_floor_sqrt(0, 0));
    } else {
        lemma_floor_sqrt_exists(m - 1);
        let r = floor_sqrt(m - 1);
        if (r + 1) * (r + 1) <= m {
            assert(m < (r + 2) * (r + 2)) by (nonlinear_arith)
                requires
                    m - 1 < (r + 1) * (r + 1),
                    r >= 0,
            ;
            assert(is_floor_sqrt(r + 1, m));
        } else {
            assert(is_floor_sqrt(r, m));
        }
    }
}

/// The square root of `m`, rounded down, for `0 <= m <= UNIT^2`.
pub fn floor_sqrt_fixed(m: i64) -> (r: i64)
    requires
        0 <= m <= UNIT * UNIT,
    ensures
        r == floor_sqrt(m as int),
        0 <= r <= UNIT,
{
    let mut lo: i64 = 0;
    let mut hi: i64 = UNIT + 1;
    while hi - lo > 1
        invariant
            0 <= lo < hi <= UNIT + 1,
            lo * lo <= m,
            m < hi * hi,
        decreases hi - lo,
    {
        let mid = lo + (hi - lo) / 2;
        proof {
            assert(mid * mid <= 1_000_002_000_001) by (nonlinear_arith)
                requires
                    0 <= mid <= 1_000_001,
            ;
        }
        if mid * mid <= m {
            lo = mid;
        } else {
            hi = mid;
        }
    }
    proof {
        assert(is_floor_sqrt(lo as int, m as int));
        lemma_floor_sqrt_exists(m as int);
        lemma_floor_sqrt_unique(lo as int, floor_sqrt(m as int), m as int);
    }
    lo
}

proof fn lemma_sine_bounds(t: int)
    requires
        -3 * HALF_TURN <= t <= 3 * HALF_TURN,
    ensures
        -UNIT <= sine(t) <= UNIT,
        -(HALF_TURN / 2) < reduced(t) < HALF_TURN / 2 ==> -UNIT < sine(t) < UNIT,
{
    let u = reduced(t);
    if u >= 0 {
        lemma_bhaskara_bounds(u);
    } else {
        lemma_bhaskara_bounds(-u);
    }
}

/// The pair of approximations never leaves the unit circle: the vector
/// `(cosine(t), sine(t))` is at most `UNIT` long, and the cosine keeps the sign of
/// the true cosine, strictly positive within a quarter turn of zero.
pub proof fn lemma_unit_pair(t: int)
    requires
        -3 * HALF_TURN <= t <= 3 * HALF_TURN,
    ensures
        sine(t) * sine(t) + cosine(t) * cosine(t) <= UNIT * UNIT,
        -UNIT <= sine(t) <= UNIT,
        -UNIT <= cosine(t) <= UNIT,
        -(HALF_TURN / 2) < reduced(t) < HALF_TURN / 2 ==> cosine(t) >= 1,
{
    lemma_sine_bounds(t);
    let s = sine(t);
    let m = UNIT * UNIT - s * s;
    assert(0 <= m <= UNIT * UNIT) by (nonlinear_arith)
        requires
            -UNIT <= s <= UNIT,
            m == UNIT * UNIT - s * s,
    ;
    lemma_floor_sqrt_exists(m);
    let r = floor_sqrt(m);
    assert(r <= UNIT) by (nonlinear_arith)
        requires
            0 <= r,
            r * r <= m,
            m <= UNIT * UNIT,
    ;
    assert(cosine(t) * cosine(t) == r * r) by (nonlinear_arith)
        requires
            cosine(t) == r || cosine(t) == -r,
    ;
    if -(HALF_TURN / 2) < reduced(t) < HALF_TURN / 2 {
        assert(m >= 1) by (nonlinear_arith)
            requires
                -UNIT < s < UNIT,
                m == UNIT * UNIT - s * s,
        ;
        assert(r >= 1) by (nonlinear_arith)
            requires
                m >= 1,
                m < (r + 1) * (r + 1),
                r >= 0,
        ;
    }
}

fn bhaskara_exec(t: i64) -> (r: i64)
    requires
        0 <= t <= HALF_TURN,
    ensures
        r == bhaskara(t as int),
        0 <= r <= UNIT,
{
    proof {
        lemma_bhaskara_bounds(t as int);
        assert(0 <= t * (HALF_TURN - t) <= HALF_TURN * HALF_TURN) by (nonlinear_arith)
            requires
                0 <= t <= HALF_TURN,
        ;
    }
    let q: i128 = (t as i128) * ((HALF_TURN - t) as i128);
    let n: i128 = 16 * (UNIT as i128) * q;
    let d: i128 = 5 * (HALF_TURN as i128) * (HALF_TURN as i128) - 4 * q;
    (n / d) as i64
}

fn reduce_exec(t: i64) -> (u: i64)
    requires
        -3 * HALF_TURN <= t <= 3 * HALF_TURN,
    ensures
        u == reduced(t as int),
        -HALF_TURN <= u <= HALF_TURN,
{
    if t > HALF_TURN {
        t - 2 * HALF_TURN
    } else if t < -HALF_TURN {
        t + 2 * HALF_TURN
    } else {
        t
    }
}

/// The approximation of `UNIT * sin(t)`, `t` in units where a half turn is `HALF_TURN`.
pub fn sin_fixed(t: i64) -> (r: i64)
    requires
        -3 * HALF_TURN <= t <= 3 * HALF_TURN,
    ensures
        r == sine(t as int),
        -UNIT <= r <= UNIT,
{
    let u = reduce_exec(t);
    if u >= 0 {
        bhaskara_exec(u)
    } else {
        -bhaskara_exec(-u)
    }
}

/// The approximation of `UNIT * cos(t)`.
pub fn cos_fixed(t: i64) -> (r: i64)
    requires
        -3 * HALF_TURN <= t <= 3 * HALF_TURN,
    ensures
        r == cosine(t as int),
        -UNIT <= r <= UNIT,
{
    let s = sin_fixed(t);
    proof {
        assert(0 <= UNIT * UNIT - s * s <= UNIT * UNIT) by (nonlinear_arith)
            requires
                -UNIT <= s <= UNIT,
        ;
    }
    let root = floor_sqrt_fixed(UNIT * UNIT - s * s);
    let u = reduce_exec(t);
    if -(HALF_TURN / 2) <= u && u <= HALF_TURN / 2 {
        root
    } else {
        -root
    }
}

} // verus!
