//! Decimal text of fixed-point numbers.

use vstd::prelude::*;
use vstd::arithmetic::div_mod::*;
use vstd::arithmetic::mul::*;
use crate::text::push_char;

verus! {

/// Ten to the power `k`.
pub open spec fn pow10(k: nat) -> nat
    decreases k,
{
    if k == 0 {
        1
    } else {
        10 * pow10((k - 1) as nat)
    }
}

/// The character of the decimal digit `d`.
pub open spec fn digit(d: nat) -> char
    recommends
        d < 10,
{
    if d == 0 {
        '0'
    } else if d == 1 {
        '1'
    } else if d == 2 {
        '2'
    } else if d == 3 {
        '3'
    } else if d == 4 {
        '4'
    } else if d == 5 {
        '5'
    } else if d == 6 {
        '6'
    } else if d == 7 {
        '7'
    } else if d == 8 {
        '8'
    } else {
        '9'
    }
}

/// The decimal numeral of `n`, without leading zeros.
pub open spec fn decimal(n: nat) -> Seq<char>
    decreases n,
{
    if n < 10 {
        seq![digit(n)]
    } else {
        decimal(n / 10).push(digit(n % 10))
    }
}

/// The last `width` decimal digits of `n`, with leading zeros kept.
pub open spec fn padded(n: nat, width: nat) -> Seq<char>
    decreases width,
{
    if width == 0 {
        Seq::empty()
    } else {
        padded(n / 10, (width - 1) as nat).push(digit(n % 10))
    }
}

/// `count` zeros.
pub open spec fn zeros(count: nat) -> Seq<char> {
    Seq::new(count, |i: int| '0')
}

/// `n / unit`, rounded to the nearest integer; a tie goes to the even one.
pub open spec fn round_half_even(n: nat, unit: nat) -> nat
    recommends
        unit > 0,
{
    let quotient = n / unit;
    let rest = n % unit;
    if 2 * rest > unit || (2 * rest == unit && quotient % 2 == 1) {
        quotient + 1
    } else {
        quotient
    }
}

/// The number of decimal places that a count of millionths has as a
/// percentage.
pub open spec fn places() -> nat {
    4
}

/// A count of millionths as a percentage in units of `10^-precision`.
pub open spec fn scaled(millionths: nat, precision: nat) -> nat {
    if precision >= places() {
        millionths * pow10((precision - places()) as nat)
    } else {
        round_half_even(millionths, pow10((places() - precision) as nat))
    }
}

/// The text of a count of millionths as a percentage with `precision`
/// decimal places: `567_000` with one place is `56.7%`.
pub open spec fn percent_text(millionths: nat, precision: nat) -> Seq<char> {
    let value = scaled(millionths, precision);
    let whole = decimal(value / pow10(precision));
    if precision == 0 {
        whole.push('%')
    } else {
        (whole.push('.') + padded(value, precision)).push('%')
    }
}

/// The last digits of a multiple of a power of ten are zeros.
pub proof fn lemma_padded_of_multiple(n: nat, width: nat, k: nat)
    ensures
        padded(n * pow10(k), width + k) == padded(n, width) + zeros(k),
    decreases k,
{
    if k == 0 {
        assert(pow10(0) == 1);
        assert(n * pow10(0) == n) by (nonlinear_arith)
            requires
                pow10(0) == 1,
        ;
        assert(padded(n, width) + zeros(0) =~= padded(n, width));
    } else {
        let less = (k - 1) as nat;
        lemma_padded_of_multiple(n, width, less);
        let m = n * pow10(less);
        assert(n * pow10(k) == m * 10) by (nonlinear_arith)
            requires
                pow10(k) == 10 * pow10(less),
                m == n * pow10(less),
        ;
        assert((m * 10) / 10 == m && (m * 10) % 10 == 0) by (nonlinear_arith);
        assert((width + k - 1) as nat == width + less);
        assert(padded(n * pow10(k), width + k) == padded(m, width + less).push('0'));
        assert((padded(n, width) + zeros(less)).push('0') =~= padded(n, width) + zeros(k));
    }
}

/// Scaling numerator and denominator by a power of ten keeps the quotient.
pub proof fn lemma_quotient_of_multiple(n: nat, places: nat, k: nat)
    ensures
        pow10(places + k) == pow10(places) * pow10(k),
        pow10(k) > 0,
        (n * pow10(k)) / pow10(places + k) == n / pow10(places),
    decreases k,
{
    lemma_pow10_positive(k);
    lemma_pow10_positive(places);
    lemma_pow10_sum(places, k);
    lemma_div_multiples_vanish_quotient(pow10(k) as int, n as int, pow10(places) as int);
    assert(n * pow10(k) == pow10(k) * n) by (nonlinear_arith);
    assert(pow10(places) * pow10(k) == pow10(k) * pow10(places)) by (nonlinear_arith);
}

pub proof fn lemma_pow10_positive(k: nat)
    ensures
        pow10(k) > 0,
    decreases k,
{
    if k > 0 {
        lemma_pow10_positive((k - 1) as nat);
    }
}

pub proof fn lemma_pow10_sum(a: nat, b: nat)
    ensures
        pow10(a + b) == pow10(a) * pow10(b),
    decreases b,
{
    if b == 0 {
        assert(pow10(a) * pow10(0) == pow10(a)) by (nonlinear_arith)
            requires
                pow10(0) == 1,
        ;
    } else {
        lemma_pow10_sum(a, (b - 1) as nat);
        assert((a + b - 1) as nat == a + (b - 1) as nat);
        assert(10 * (pow10(a) * pow10((b - 1) as nat)) == pow10(a) * (10 * pow10((b - 1) as nat)))
            by (nonlinear_arith);
    }
}

/// The character of a decimal digit.
fn digit_char(d: u64) -> (c: char)
    requires
        d < 10,
    ensures
        c == digit(d as nat),
{
    if d == 0 {
        '0'
    } else if d == 1 {
        '1'
    } else if d == 2 {
        '2'
    } else if d == 3 {
        '3'
    } else if d == 4 {
        '4'
    } else if d == 5 {
        '5'
    } else if d == 6 {
        '6'
    } else if d == 7 {
        '7'
    } else if d == 8 {
        '8'
    } else {
        '9'
    }
}

/// Appends the decimal numeral of `n`.
fn push_decimal(out: &mut String, n: u64)
    ensures
        final(out)@ == old(out)@ + decimal(n as nat),
    decreases n,
{
    if n >= 10 {
        push_decimal(out, n / 10);
    }
    push_char(out, digit_char(n % 10));
    proof {
        if n >= 10 {
            assert(old(out)@ + decimal(n as nat) =~= (old(out)@ + decimal((n / 10) as nat)).push(
                digit((n % 10) as nat),
            ));
        } else {
            assert(old(out)@ + decimal(n as nat) =~= old(out)@.push(digit(n as nat)));
        }
    }
}

/// Appends the last `width` decimal digits of `n`.
fn push_padded(out: &mut String, n: u64, width: u8)
    ensures
        final(out)@ == old(out)@ + padded(n as nat, width as nat),
    decreases width,
{
    if width > 0 {
        push_padded(out, n / 10, width - 1);
        push_char(out, digit_char(n % 10));
        proof {
            assert(old(out)@ + padded(n as nat, width as nat) =~= (old(out)@ + padded(
                (n / 10) as nat,
                (width - 1) as nat,
            )).push(digit((n % 10) as nat)));
        }
    } else {
        proof {
            assert(old(out)@ + padded(n as nat, 0) =~= old(out)@);
        }
    }
}

/// Appends `count` zeros.
fn push_zeros(out: &mut String, count: u8)
    ensures
        final(out)@ == old(out)@ + zeros(count as nat),
{
    let mut done: u8 = 0;
    while done < count
        invariant
            done <= count,
            out@ == old(out)@ + zeros(done as nat),
        decreases count - done,
    {
        push_char(out, '0');
        done = done + 1;
        proof {
            assert((old(out)@ + zeros((done - 1) as nat)).push('0') =~= old(out)@ + zeros(
                done as nat,
            ));
        }
    }
}

/// Ten to the power `k`, for the few powers that rounding needs.
fn small_pow10(k: u8) -> (p: u64)
    requires
        k <= 4,
    ensures
        p == pow10(k as nat),
        1 <= p <= 10_000,
{
    proof {
        reveal_with_fuel(pow10, 6);
    }
    if k == 0 {
        1
    } else if k == 1 {
        10
    } else if k == 2 {
        100
    } else if k == 3 {
        1_000
    } else {
        10_000
    }
}

/// The text of a count of millionths as a percentage with `precision`
/// decimal places, rounded half to even where places are cut.
pub fn percent(millionths: u32, precision: u8) -> (text: String)
    ensures
        text@ == percent_text(millionths as nat, precision as nat),
{
    let mut text = String::new();
    if precision >= 4 {
        let extra: u8 = precision - 4;
        let unit = small_pow10(4);
        proof {
            lemma_quotient_of_multiple(millionths as nat, 4, extra as nat);
            lemma_padded_of_multiple(millionths as nat, 4, extra as nat);
            assert(scaled(millionths as nat, precision as nat) == millionths as nat * pow10(
                extra as nat,
            ));
        }
        push_decimal(&mut text, millionths as u64 / unit);
        push_char(&mut text, '.');
        push_padded(&mut text, millionths as u64, 4);
        push_zeros(&mut text, extra);
        push_char(&mut text, '%');
        proof {
            let whole = decimal((millionths as nat) / pow10(4));
            assert(text@ =~= (whole.push('.') + (padded(millionths as nat, 4) + zeros(
                extra as nat,
            ))).push('%'));
        }
    } else {
        let unit = small_pow10(4 - precision);
        let quotient = millionths as u64 / unit;
        let rest = millionths as u64 % unit;
        let value = if 2 * rest > unit || (2 * rest == unit && quotient % 2 == 1) {
            quotient + 1
        } else {
            quotient
        };
        assert(value == scaled(millionths as nat, precision as nat));
        let one = small_pow10(precision);
        push_decimal(&mut text, value / one);
        if precision > 0 {
            push_char(&mut text, '.');
            push_padded(&mut text, value, precision);
        }
        push_char(&mut text, '%');
        proof {
            let whole = decimal((value as nat) / pow10(precision as nat));
            if precision > 0 {
                assert(text@ =~= (whole.push('.') + padded(value as nat, precision as nat)).push(
                    '%',
                ));
            } else {
                assert(text@ =~= whole.push('%'));
            }
        }
    }
    text
}

} // verus!
