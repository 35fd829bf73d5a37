//! Decimal text for fixed-point quantities.

use vstd::prelude::*;
use crate::fixed::SCALE;

verus! {

/// Number of decimal places a count of `10^-12` carries.
pub const PLACES: usize = 12;

/// Ten to the power `n`.
pub open spec fn spec_pow10(n: nat) -> nat
    decreases n,
{
    if n == 0 {
        1
    } else {
        10 * spec_pow10((n - 1) as nat)
    }
}

/// The character of a decimal digit.
pub open spec fn spec_digit(d: int) -> char {
    if d == 0 {
        '0'
    } else if d == 1 {
        '1'
    } else if d == 2 {
        '2'
    } else if d == 3 {
        '3'
    } else if d == 4 {
        '4'
    } else if d == 5 {
        '5'
    } else if d == 6 {
        '6'
    } else if d == 7 {
        '7'
    } else if d == 8 {
        '8'
    } else {
        '9'
    }
}

/// The decimal digits of a number, without leading zeros.
pub open spec fn spec_digits(n: nat) -> Seq<char>
    decreases n,
{
    if n < 10 {
        seq![spec_digit(n as int)]
    } else {
        spec_digits(n / 10).push(spec_digit((n % 10) as int))
    }
}

/// The last `width` decimal digits of a number, with leading zeros.
pub open spec fn spec_padded(n: nat, width: nat) -> Seq<char>
    decreases width,
{
    if width == 0 {
        Seq::empty()
    } else {
        spec_padded(n / 10, (width - 1) as nat).push(spec_digit((n % 10) as int))
    }
}

/// A run of zeros.
pub open spec fn spec_zeros(count: nat) -> Seq<char> {
    Seq::new(count, |i: int| '0')
}

/// A count of `10^-12` as a count of `10^-precision`, rounded to the
/// nearest, and to the even neighbour where two are equally near.
pub open spec fn spec_rounded(magnitude: nat, precision: nat) -> nat {
    if precision >= PLACES {
        magnitude * spec_pow10((precision - PLACES) as nat)
    } else {
        let divisor = spec_pow10((PLACES - precision) as nat);
        let quotient = magnitude / divisor;
        let rest = magnitude % divisor;
        if 2 * rest > divisor || (2 * rest == divisor && quotient % 2 == 1) {
            quotient + 1
        } else {
            quotient
        }
    }
}

/// The decimal text of a count of `10^-12` with `precision` decimal places:
/// a minus sign if the count is negative, the whole part, and, if there are
/// decimal places, a point and the places.
pub open spec fn spec_decimal(units: int, precision: nat) -> Seq<char> {
    let magnitude = (if units < 0 {
        -units
    } else {
        units
    }) as nat;
    let rounded = spec_rounded(magnitude, precision);
    let sign = if units < 0 {
        seq!['-']
    } else {
        Seq::<char>::empty()
    };
    let whole = spec_digits(rounded / spec_pow10(precision));
    if precision == 0 {
        sign + whole
    } else {
        sign + whole + seq!['.'] + spec_padded(rounded % spec_pow10(precision), precision)
    }
}

/// The text of a quantity: its decimal text, a space, and its unit.
pub open spec fn spec_text(units: int, precision: nat, unit: Seq<char>) -> Seq<char> {
    spec_decimal(units, precision) + seq![' '] + unit
}

/// Powers of ten multiply as their exponents add.
pub proof fn lemma_pow10_adds(a: nat, b: nat)
    ensures
        spec_pow10(a + b) == spec_pow10(a) * spec_pow10(b),
        spec_pow10(a) > 0,
    decreases a,
{
    if a == 0 {
        assert(spec_pow10(0) == 1);
        assert(spec_pow10(b) == 1 * spec_pow10(b));
    } else {
        lemma_pow10_adds((a - 1) as nat, b);
        assert(10 * (spec_pow10((a - 1) as nat) * spec_pow10(b)) == (10 * spec_pow10(
            (a - 1) as nat,
        )) * spec_pow10(b)) by (nonlinear_arith);
    }
}

/// The twelfth power of ten is the scale of the fixed-point numbers.
pub proof fn lemma_pow10_places()
    ensures
        spec_pow10(PLACES as nat) == SCALE,
{
    reveal_with_fuel(spec_pow10, 13);
}

/// Padding a multiple of a power of ten ends in as many zeros.
pub proof fn lemma_padded_shifted(n: nat, width: nat, shift: nat)
    ensures
        spec_padded(n * spec_pow10(shift), width + shift) == spec_padded(n, width) + spec_zeros(
            shift,
        ),
    decreases shift,
{
    if shift == 0 {
        assert(n * spec_pow10(0) == n) by (nonlinear_arith)
            requires
                spec_pow10(0) == 1,
        ;
        assert(spec_padded(n, width) + spec_zeros(0) =~= spec_padded(n, width));
    } else {
        let lower = spec_pow10((shift - 1) as nat);
        let m = n * spec_pow10(shift);
        assert(m == (n * lower) * 10) by (nonlinear_arith)
            requires
                m == n * (10 * lower),
        ;
        assert(m / 10 == n * lower && m % 10 == 0) by (nonlinear_arith)
            requires
                m == (n * lower) * 10,
        ;
        lemma_padded_shifted(n, width, (shift - 1) as nat);
        assert(spec_padded(n, width) + spec_zeros(shift) =~= (spec_padded(n, width) + spec_zeros(
            (shift - 1) as nat,
        )).push('0'));
    }
}

/// The character of a decimal digit.
fn digit(d: u64) -> (r: char)
    requires
        d < 10,
    ensures
        r == spec_digit(d as int),
{
    if d == 0 {
        '0'
    } else if d == 1 {
        '1'
    } else if d == 2 {
        '2'
    } else if d == 3 {
        '3'
    } else if d == 4 {
        '4'
    } else if d == 5 {
        '5'
    } else if d == 6 {
        '6'
    } else if d == 7 {
        '7'
    } else if d == 8 {
        '8'
    } else {
        '9'
    }
}

/// Appends the decimal digits of a number.
fn push_digits(out: &mut Vec<char>, n: u64)
    ensures
        final(out)@ == old(out)@ + spec_digits(n as nat),
    decreases n,
{
    if n >= 10 {
        push_digits(out, n / 10);
    }
    out.push(digit(n % 10));
    proof {
        if n < 10 {
            assert(final(out)@ =~= old(out)@ + spec_digits(n as nat));
        } else {
            assert(final(out)@ =~= old(out)@ + spec_digits(n as nat));
        }
    }
}

/// Appends the last `width` decimal digits of a number.
fn push_padded(out: &mut Vec<char>, n: u64, width: usize)
    ensures
        final(out)@ == old(out)@ + spec_padded(n as nat, width as nat),
    decreases width,
{
    if width > 0 {
        push_padded(out, n / 10, width - 1);
        out.push(digit(n % 10));
    }
    proof {
        assert(final(out)@ =~= old(out)@ + spec_padded(n as nat, width as nat));
    }
}

/// Ten to the power `n`.
fn pow10(n: usize) -> (r: u64)
    requires
        n <= PLACES,
    ensures
        r == spec_pow10(n as nat),
        1 <= r <= SCALE,
{
    let mut power: u64 = 1;
    let mut i: usize = 0;
    proof {
        lemma_pow10_places();
    }
    while i < n
        invariant
            0 <= i <= n <= PLACES,
            power == spec_pow10(i as nat),
            power * spec_pow10((PLACES - i) as nat) == SCALE,
            power >= 1,
        decreases n - i,
    {
        proof {
            lemma_pow10_adds(1, (PLACES - i - 1) as nat);
            lemma_pow10_adds((PLACES - i - 1) as nat, 0);
            reveal_with_fuel(spec_pow10, 2);
            let rest = spec_pow10((PLACES - i - 1) as nat);
            assert(power * (10 * rest) == (power * 10) * rest) by (nonlinear_arith);
            assert(power * 10 <= SCALE) by (nonlinear_arith)
                requires
                    (power * 10) * rest == SCALE,
                    rest >= 1,
                    power >= 1,
            ;
        }
        power = power * 10;
        i += 1;
    }
    proof {
        lemma_pow10_adds((PLACES - n) as nat, 0);
        let rest = spec_pow10((PLACES - n) as nat);
        assert(power <= SCALE) by (nonlinear_arith)
            requires
                power * rest == SCALE,
                rest >= 1,
                power >= 1,
        ;
    }
    power
}

/// The decimal text of a count of `10^-12` with `precision` decimal places.
pub fn decimal(units: i64, precision: usize) -> (r: Vec<char>)
    ensures
        r@ == spec_decimal(units as int, precision as nat),
{
    let mut out: Vec<char> = Vec::new();
    let magnitude: u64 = if units < 0 {
        out.push('-');
        (-(units as i128)) as u64
    } else {
        units as u64
    };
    let ghost sign = out@;
    if precision >= PLACES {
        let ghost shift = (precision - PLACES) as nat;
        let whole: u64 = magnitude / SCALE;
        let rest: u64 = magnitude % SCALE;
        push_digits(&mut out, whole);
        out.push('.');
        push_padded(&mut out, rest, PLACES);
        let mut i: usize = PLACES;
        let ghost body = out@;
        while i < precision
            invariant
                PLACES <= i <= precision,
                out@ == body + spec_zeros((i - PLACES) as nat),
            decreases precision - i,
        {
            out.push('0');
            proof {
                assert(out@ =~= body + spec_zeros((i + 1 - PLACES) as nat));
            }
            i += 1;
        }
        proof {
            lemma_pow10_places();
            lemma_pow10_adds(PLACES as nat, shift);
            lemma_pow10_adds(shift, 0);
            let k = spec_pow10(shift);
            let s = SCALE as nat;
            let m = magnitude as nat;
            assert(m == s * (m / s) + m % s) by {
                vstd::arithmetic::div_mod::lemma_fundamental_div_mod(m as int, s as int);
            }
            let q = m / s;
            let t = m % s;
            assert(m * k == (s * k) * q + t * k) by (nonlinear_arith)
                requires
                    m == s * q + t,
            ;
            assert(0 <= t * k < s * k) by (nonlinear_arith)
                requires
                    0 <= t < s,
                    k > 0,
            ;
            vstd::arithmetic::div_mod::lemma_fundamental_div_mod_converse(
                (m * k) as int,
                (s * k) as int,
                (m / s) as int,
                ((m % s) * k) as int,
            );
            lemma_padded_shifted(rest as nat, PLACES as nat, shift);
            assert(out@ =~= spec_decimal(units as int, precision as nat));
        }
    } else {
        let divisor: u64 = pow10(PLACES - precision);
        let quotient: u64 = magnitude / divisor;
        let rest: u64 = magnitude % divisor;
        let rounded: u64 = if 2 * rest > divisor || (2 * rest == divisor && quotient % 2 == 1) {
            quotient + 1
        } else {
            quotient
        };
        let unit: u64 = pow10(precision);
        push_digits(&mut out, rounded / unit);
        if precision > 0 {
            out.push('.');
            push_padded(&mut out, rounded % unit, precision);
        }
        proof {
            assert(out@ =~= spec_decimal(units as int, precision as nat));
        }
    }
    out
}

/// Collects characters into a string with `String::from_iter`; the string
/// holds the characters given, in order.
#[verifier::external_body]
fn collect(chars: Vec<char>) -> (r: String)
    ensures
        r@ == chars@,
{
    String::from_iter(chars)
}

/// The text of a quantity: its decimal text with `precision` decimal
/// places, a space, and its unit.
pub fn text(units: i64, precision: usize, unit: Vec<char>) -> (r: String)
    ensures
        r@ == spec_text(units as int, precision as nat, unit@),
{
    let mut out: Vec<char> = decimal(units, precision);
    out.push(' ');
    let mut suffix: Vec<char> = unit;
    out.append(&mut suffix);
    proof {
        assert(out@ =~= spec_text(units as int, precision as nat, unit@));
    }
    collect(out)
}

} // verus!
