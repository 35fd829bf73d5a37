//! Fixed-point arithmetic shared by all quantity types.

use vstd::prelude::*;

verus! {

/// Number of representable steps in one whole unit (one kWh, kW, hour, or 100 %).
pub const SCALE: u64 = 1_000_000_000_000;

/// Largest magnitude a quantity may have: `10^6` whole units.
pub const MAX_VALUE: i64 = 1_000_000_000_000_000_000;

/// Durations and efficiencies must lie strictly above this: `10^-10` of a unit.
pub const MIN_VALUE: i64 = 100;

/// Largest magnitude that [`scale`] accepts for its first operand and for the
/// product it forms: `2^126`.
pub const SCALE_LIMIT: i128 = 0x4000_0000_0000_0000_0000_0000_0000_0000;

/// Quotient of a non-negative `n` by a positive `d`, rounded up.
pub open spec fn spec_ceil_div(n: int, d: int) -> int {
    (n + d - 1) / d
}

/// `a * b / c`, rounded away from zero, for `b >= 0` and `c > 0`.
pub open spec fn spec_scale(a: int, b: int, c: int) -> int {
    if a >= 0 {
        spec_ceil_div(a * b, c)
    } else {
        -spec_ceil_div((-a) * b, c)
    }
}

/// The product of two fixed-point numbers, `b` non-negative.
pub open spec fn spec_times(a: int, b: int) -> int {
    spec_scale(a, b, SCALE as int)
}

/// The quotient of two fixed-point numbers, `b` positive.
pub open spec fn spec_over(a: int, b: int) -> int {
    spec_scale(a, SCALE as int, b)
}

/// The rounded-up quotient `q` of `n` by `d` is the least integer with `q * d >= n`.
pub proof fn lemma_ceil_div_bounds(n: int, d: int)
    requires
        n >= 0,
        d > 0,
    ensures
        spec_ceil_div(n, d) >= 0,
        spec_ceil_div(n, d) * d >= n,
        (spec_ceil_div(n, d) - 1) * d < n,
{
    let q = spec_ceil_div(n, d);
    let m = n + d - 1;
    assert(m == d * (m / d) + m % d && 0 <= m % d < d) by {
        vstd::arithmetic::div_mod::lemma_fundamental_div_mod(m, d);
        vstd::arithmetic::div_mod::lemma_mod_bound(m, d);
    }
    assert(q * d == d * q) by (nonlinear_arith);
    assert((q - 1) * d == q * d - d) by (nonlinear_arith);
    assert(q >= 0) by (nonlinear_arith)
        requires
            q * d >= n,
            n >= 0,
            d > 0,
            (q - 1) * d < n,
    {
        if q < 0 {
            assert(q * d <= -d);
        }
    }
}

/// Any integer `q` with `q * d >= n` is at least the rounded-up quotient.
pub proof fn lemma_ceil_div_least(n: int, d: int, q: int)
    requires
        n >= 0,
        d > 0,
        q * d >= n,
    ensures
        q >= spec_ceil_div(n, d),
{
    lemma_ceil_div_bounds(n, d);
    let c = spec_ceil_div(n, d);
    assert(q >= c) by (nonlinear_arith)
        requires
            (c - 1) * d < n,
            q * d >= n,
            d > 0,
    {
        if q < c {
            assert(q * d <= (c - 1) * d);
        }
    }
}

/// Scaling by a ratio `b / c` of at most one never grows the magnitude.
pub proof fn lemma_scale_shrinks(a: int, b: int, c: int)
    requires
        0 <= b <= c,
        c > 0,
    ensures
        a >= 0 ==> 0 <= spec_scale(a, b, c) <= a,
        a <= 0 ==> a <= spec_scale(a, b, c) <= 0,
{
    let m = if a >= 0 { a } else { -a };
    assert(m * b >= 0 && m * c >= m * b) by (nonlinear_arith)
        requires
            m >= 0,
            0 <= b <= c,
    ;
    lemma_ceil_div_bounds(m * b, c);
    lemma_ceil_div_least(m * b, c, m);
}

/// Scaling by a ratio `b / c` of at least one never shrinks the magnitude.
pub proof fn lemma_scale_grows(a: int, b: int, c: int)
    requires
        0 < c <= b,
    ensures
        a >= 0 ==> spec_scale(a, b, c) >= a,
        a <= 0 ==> spec_scale(a, b, c) <= a,
{
    let m = if a >= 0 { a } else { -a };
    let q = spec_ceil_div(m * b, c);
    assert(m * b >= 0 && m * b >= m * c) by (nonlinear_arith)
        requires
            m >= 0,
            0 < c <= b,
    ;
    lemma_ceil_div_bounds(m * b, c);
    assert(q >= m) by (nonlinear_arith)
        requires
            q * c >= m * b,
            m * b >= m * c,
            c > 0,
    {
        if q < m {
            assert(q * c <= (m - 1) * c);
            assert((m - 1) * c < m * c);
        }
    }
}

/// The sign of a scaled number is the sign of the number.
pub proof fn lemma_scale_sign(a: int, b: int, c: int)
    requires
        b >= 0,
        c > 0,
    ensures
        a >= 0 ==> spec_scale(a, b, c) >= 0,
        a <= 0 ==> spec_scale(a, b, c) <= 0,
        a > 0 && b > 0 ==> spec_scale(a, b, c) > 0,
        spec_scale(-a, b, c) == -spec_scale(a, b, c),
{
    let m = if a >= 0 { a } else { -a };
    assert(m * b >= 0) by (nonlinear_arith)
        requires
            m >= 0,
            b >= 0,
    ;
    lemma_ceil_div_bounds(m * b, c);
    if a > 0 && b > 0 {
        assert(a * b > 0) by (nonlinear_arith)
            requires
                a > 0,
                b > 0,
        ;
        let q = spec_ceil_div(a * b, c);
        assert(q > 0) by (nonlinear_arith)
            requires
                q * c >= a * b,
                a * b > 0,
                c > 0,
                q >= 0,
        ;
    }
    if a == 0 {
        assert(0 * b == 0);
        assert(spec_ceil_div(0, c) == 0) by {
            lemma_ceil_div_least(0, c, 0);
        }
    }
}

/// A scaled number is bounded by any `bound` with `|a| * b <= bound * c`.
pub proof fn lemma_scale_bound(a: int, b: int, c: int, bound: int)
    requires
        b >= 0,
        c > 0,
        a * b <= bound * c,
        -(a * b) <= bound * c,
    ensures
        -bound <= spec_scale(a, b, c) <= bound,
{
    let m = if a >= 0 { a } else { -a };
    assert(m * b >= 0 && m * b == if a >= 0 { a * b } else { -(a * b) }) by (nonlinear_arith)
        requires
            m == if a >= 0 { a } else { -a },
            b >= 0,
    ;
    lemma_ceil_div_bounds(m * b, c);
    lemma_ceil_div_least(m * b, c, bound);
}

/// A product or quotient of a non-negative number, times its divisor, is at
/// least the number times its factor: rounding never loses anything.
pub proof fn lemma_scale_covers(a: int, b: int, c: int)
    requires
        a >= 0,
        b >= 0,
        c > 0,
    ensures
        spec_scale(a, b, c) >= 0,
        spec_scale(a, b, c) * c >= a * b,
{
    assert(a * b >= 0) by (nonlinear_arith)
        requires
            a >= 0,
            b >= 0,
    ;
    lemma_ceil_div_bounds(a * b, c);
}

/// Charging for a duration at the power that fills a gap, a quotient of the
/// gap by the duration and by the efficiency, stores at least the gap.
pub proof fn lemma_fill_covers(gap: int, duration: int, efficiency: int)
    requires
        gap >= 0,
        duration > 0,
        efficiency > 0,
    ensures
        spec_times(
            spec_times(spec_over(spec_over(gap, duration), efficiency), duration),
            efficiency,
        ) >= gap,
{
    let s = SCALE as int;
    let spread = spec_over(gap, duration);
    let power = spec_over(spread, efficiency);
    let moved = spec_times(power, duration);
    let stored = spec_times(moved, efficiency);
    lemma_scale_covers(gap, s, duration);
    lemma_scale_covers(spread, s, efficiency);
    lemma_scale_covers(power, duration, s);
    lemma_scale_covers(moved, efficiency, s);
    assert(stored * s * s >= moved * efficiency * s) by (nonlinear_arith)
        requires
            stored * s >= moved * efficiency,
            s > 0,
    ;
    assert(moved * efficiency * s >= power * duration * efficiency) by (nonlinear_arith)
        requires
            moved * s >= power * duration,
            efficiency > 0,
    ;
    assert(power * duration * efficiency >= spread * s * duration) by (nonlinear_arith)
        requires
            power * efficiency >= spread * s,
            duration > 0,
    ;
    assert(spread * s * duration >= gap * s * s) by (nonlinear_arith)
        requires
            spread * duration >= gap * s,
            s > 0,
    ;
    assert(stored >= gap) by (nonlinear_arith)
        requires
            stored * s * s >= gap * s * s,
            s > 0,
    ;
}

/// Discharging for a duration at the power that empties a store, the
/// quotient of the store by the duration times the efficiency, draws at
/// least the store.
pub proof fn lemma_empty_covers(store: int, duration: int, efficiency: int)
    requires
        store >= 0,
        duration > 0,
        efficiency > 0,
    ensures
        spec_over(
            spec_times(spec_times(spec_over(store, duration), efficiency), duration),
            efficiency,
        ) >= store,
{
    let s = SCALE as int;
    let spread = spec_over(store, duration);
    let power = spec_times(spread, efficiency);
    let moved = spec_times(power, duration);
    let drawn = spec_over(moved, efficiency);
    lemma_scale_covers(store, s, duration);
    lemma_scale_covers(spread, efficiency, s);
    lemma_scale_covers(power, duration, s);
    lemma_scale_covers(moved, s, efficiency);
    assert(drawn * efficiency * s >= moved * s * s) by (nonlinear_arith)
        requires
            drawn * efficiency >= moved * s,
            s > 0,
    ;
    assert(moved * s * s >= power * duration * s) by (nonlinear_arith)
        requires
            moved * s >= power * duration,
            s > 0,
    ;
    assert(power * duration * s >= spread * efficiency * duration) by (nonlinear_arith)
        requires
            power * s >= spread * efficiency,
            duration > 0,
    ;
    assert(spread * efficiency * duration >= store * s * efficiency) by (nonlinear_arith)
        requires
            spread * duration >= store * s,
            efficiency > 0,
    ;
    assert(drawn >= store) by (nonlinear_arith)
        requires
            drawn * efficiency * s >= store * s * efficiency,
            s > 0,
            efficiency > 0,
    ;
}

/// Computes `a * b / c` rounded away from zero.
pub fn scale(a: i128, b: u64, c: u64) -> (r: i128)
    requires
        c > 0,
        -SCALE_LIMIT <= a <= SCALE_LIMIT,
        -SCALE_LIMIT <= a * b <= SCALE_LIMIT,
    ensures
        r == spec_scale(a as int, b as int, c as int),
        a >= 0 ==> 0 <= r <= a * b,
        a <= 0 ==> a * b <= r <= 0,
{
    let negative: bool = a < 0;
    let magnitude: u128 = if negative {
        (-a) as u128
    } else {
        a as u128
    };
    proof {
        assert((magnitude as int) * (b as int) == if negative { -(a * b) } else { a * b })
            by (nonlinear_arith)
            requires
                magnitude as int == if negative { -(a as int) } else { a as int },
        ;
        lemma_ceil_div_bounds(magnitude as int * b as int, c as int);
        assert(magnitude as int * b as int >= 0) by (nonlinear_arith)
            requires
                magnitude as int >= 0,
                b as int >= 0,
        ;
    }
    let product: u128 = magnitude * (b as u128);
    let rounded: u128 = (product + (c as u128 - 1)) / (c as u128);
    proof {
        let q = spec_ceil_div(product as int, c as int);
        assert(rounded as int == q);
        assert(q <= product) by (nonlinear_arith)
            requires
                (q - 1) * c < product,
                c >= 1,
                q >= 0,
                product >= 0,
        {
            if q > product {
                assert((q - 1) * c >= product);
            }
        }
    }
    if negative {
        -(rounded as i128)
    } else {
        rounded as i128
    }
}

/// Whether `r` is the square root of `n`, rounded up: the least
/// non-negative integer whose square is at least `n`.
pub open spec fn spec_is_ceil_sqrt(n: int, r: int) -> bool {
    &&& r >= 0
    &&& r * r >= n
    &&& r > 0 ==> (r - 1) * (r - 1) < n
}

/// The square root of a non-negative `n`, rounded up.
pub open spec fn spec_ceil_sqrt(n: int) -> int {
    choose|r: int| spec_is_ceil_sqrt(n, r)
}

/// Squaring is strictly monotone on the non-negative integers.
pub proof fn lemma_square_monotone(a: int, b: int)
    requires
        0 <= a < b,
    ensures
        a * a < b * b,
{
    assert(a * a < b * b) by (nonlinear_arith)
        requires
            0 <= a < b,
    ;
}

/// A number has at most one rounded-up square root.
pub proof fn lemma_ceil_sqrt_unique(n: int, r: int)
    requires
        spec_is_ceil_sqrt(n, r),
    ensures
        spec_ceil_sqrt(n) == r,
{
    let c = spec_ceil_sqrt(n);
    assert(spec_is_ceil_sqrt(n, c));
    if c < r {
        if c < r - 1 {
            lemma_square_monotone(c, r - 1);
        }
    } else if r < c {
        if r < c - 1 {
            lemma_square_monotone(r, c - 1);
        }
    }
}

/// Computes the square root of `n`, rounded up.
pub fn ceil_sqrt(n: u128) -> (r: u64)
    requires
        n <= SCALE * SCALE,
    ensures
        spec_is_ceil_sqrt(n as int, r as int),
        r == spec_ceil_sqrt(n as int),
        r <= SCALE,
{
    if n == 0 {
        proof {
            lemma_ceil_sqrt_unique(0, 0);
        }
        return 0;
    }
    let mut low: u64 = 0;
    let mut high: u64 = SCALE;
    while high - low > 1
        invariant
            low < high <= SCALE,
            low * low < n <= high * high,
        decreases high - low,
    {
        let middle: u64 = low + (high - low) / 2;
        assert(middle * middle <= SCALE * SCALE) by (nonlinear_arith)
            requires
                0 <= middle <= SCALE,
        ;
        let square: u128 = (middle as u128) * (middle as u128);
        if square >= n {
            high = middle;
        } else {
            low = middle;
        }
    }
    proof {
        lemma_ceil_sqrt_unique(n as int, high as int);
    }
    high
}

} // verus!
