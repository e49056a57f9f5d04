use crate::bounded::{fraction_bytes, fraction_new, fraction_try_push, FractionText};
use vstd::prelude::*;

verus! {

/// The number of digits behind the decimal point of an amount.
pub const DECIMALS: u32 = 9;

/// The number of smallest units in one coin.
pub const UNITS_PER_COIN: u64 = 1_000_000_000;

/// Ten to the power of `n`.
pub open spec fn pow10(n: nat) -> nat
    decreases n,
{
    if n == 0 {
        1
    } else {
        10 * pow10((n - 1) as nat)
    }
}

/// The character of a decimal digit.
pub open spec fn digit_byte(d: nat) -> u8 {
    (0x30 + d) as u8
}

/// A number below ten to the power of `width`, written with `width`
/// digits and its trailing zeros removed, but for one digit that always
/// stays: what stands behind the decimal point.
pub open spec fn fraction_digits(rem: nat, width: nat) -> Seq<u8>
    decreases width,
{
    if width == 0 {
        Seq::<u8>::empty()
    } else {
        let unit = pow10((width - 1) as nat);
        if rem % unit == 0 {
            seq![digit_byte(rem / unit)]
        } else {
            seq![digit_byte(rem / unit)] + fraction_digits(rem % unit, (width - 1) as nat)
        }
    }
}

/// A number written in decimal digits, without leading zeros.
pub open spec fn decimal_digits(n: nat) -> Seq<u8>
    decreases n,
{
    if n < 10 {
        seq![digit_byte(n)]
    } else {
        decimal_digits(n / 10).push(digit_byte(n % 10))
    }
}

/// The powers of ten up to the number of decimals.
pub proof fn lemma_pow10_values()
    ensures
        pow10(0) == 1,
        pow10(1) == 10,
        pow10(2) == 100,
        pow10(3) == 1_000,
        pow10(4) == 10_000,
        pow10(5) == 100_000,
        pow10(6) == 1_000_000,
        pow10(7) == 10_000_000,
        pow10(8) == 100_000_000,
        pow10(9) == 1_000_000_000,
{
    reveal_with_fuel(pow10, 10);
}

/// Splits an amount into whole coins and the digits behind the decimal
/// point. There is always at least one digit, so that one coin reads
/// `1.0`.
pub fn get_amount_in_decimals(amount: u64) -> (r: (u64, FractionText))
    ensures
        r.0 == amount / UNITS_PER_COIN,
        fraction_bytes(r.1) == fraction_digits((amount % UNITS_PER_COIN) as nat, DECIMALS as nat),
        1 <= fraction_bytes(r.1).len() <= DECIMALS,
{
    let quotient = amount / UNITS_PER_COIN;
    let remainder = amount % UNITS_PER_COIN;
    let mut text = fraction_new();
    let mut rem: u64 = remainder;
    let mut unit: u64 = 100_000_000;
    let mut width: u32 = 9;
    proof {
        lemma_pow10_values();
    }
    loop
        invariant_except_break
            1 <= width <= 9,
            unit == pow10((width - 1) as nat),
            rem < 10 * unit,
            fraction_bytes(text).len() == 9 - width,
            fraction_digits(remainder as nat, 9) == fraction_bytes(text) + fraction_digits(
                rem as nat,
                width as nat,
            ),
        ensures
            fraction_digits(remainder as nat, 9) == fraction_bytes(text),
            1 <= fraction_bytes(text).len() <= 9,
        decreases width,
    {
        proof {
            lemma_pow10_values();
        }
        let ghost before = fraction_bytes(text);
        let digit = rem / unit;
        assert(digit <= 9 && unit > 0) by (nonlinear_arith)
            requires
                rem < 10 * unit,
                digit == rem / unit,
        ;
        let _ = fraction_try_push(&mut text, 0x30 + digit as u8);
        rem = rem % unit;
        if rem == 0 {
            assert(before + seq![digit_byte(digit as nat)] =~= before.push(digit_byte(digit as nat)));
            break;
        }
        assert(before + (seq![digit_byte(digit as nat)] + fraction_digits(
            rem as nat,
            (width - 1) as nat,
        )) =~= before.push(digit_byte(digit as nat)) + fraction_digits(
            rem as nat,
            (width - 1) as nat,
        ));
        unit = unit / 10;
        width = width - 1;
    }
    (quotient, text)
}

/// Pins the type of a two-argument callback that borrows its first argument.
pub fn mkfn<A, B, C, F: Fn(&A, &mut B) -> C>(q: F) -> (r: F)
    ensures
        r == q,
{
    q
}

/// Pins the type of a two-argument callback that takes its first argument by value.
pub fn mkmvfn<A, B, C, F: Fn(A, &mut B) -> Option<C>>(q: F) -> (r: F)
    ensures
        r == q,
{
    q
}

} // verus!
