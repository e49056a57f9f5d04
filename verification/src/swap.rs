//! The entry points that a swap partner calls: whether an address belongs
//! to a derivation path, how an amount is shown, and whether a transaction
//! is the expected one.

use crate::bounded::{
    amount_as_bytes, amount_bytes, amount_new, amount_try_push, fraction_as_bytes, AmountText,
};
use crate::ctx::{RunCtx, State};
use crate::schema::SuiAddressRaw;
use crate::swap::params::{same_address, CheckAddressParams, PrintableAmountParams, TxParams};
use crate::utils::{
    decimal_digits, digit_byte, fraction_digits, get_amount_in_decimals, DECIMALS,
    UNITS_PER_COIN,
};
use vstd::prelude::*;

pub mod params;

verus! {

/// Why a call of a swap partner failed.
#[derive(Clone, Copy, Debug, PartialEq, Eq, Structural)]
pub enum Error {
    /// The bytes of the derivation path do not come in fours, or there are
    /// too many.
    DecodeDPathError,
    /// The key could not be derived.
    CryptographyError,
    /// The buffer of the amount is too short.
    WrongAmountLength,
    /// The buffer of the fee is too short.
    WrongFeeLength,
    /// The address is not ASCII text.
    BadAddressASCII,
    /// The address is too short.
    BadAddressLength,
    /// The address is not made of hexadecimal digits.
    BadAddressHex,
}

/// The text `SUI `, which precedes an amount.
pub open spec fn ticker() -> Seq<u8> {
    seq![0x53u8, 0x55u8, 0x49u8, 0x20u8]
}

/// An amount as it is shown: the ticker, the whole coins, a point, and the
/// digits behind the point.
pub open spec fn printable(amount: u64) -> Seq<u8> {
    ticker() + decimal_digits((amount / UNITS_PER_COIN) as nat) + seq![0x2eu8] + fraction_digits(
        (amount % UNITS_PER_COIN) as nat,
        DECIMALS as nat,
    )
}

/// Whether the address that was derived from the derivation path of the
/// question is the address of the question. Without a derived address the
/// question has no answer.
pub fn check_address(
    params: &CheckAddressParams,
    derived: Option<&SuiAddressRaw>,
) -> (r: Result<bool, Error>)
    ensures
        r == match derived {
            Some(address) => Ok::<bool, Error>(params.ref_address@ == address@),
            None => Err::<bool, Error>(Error::CryptographyError),
        },
{
    match derived {
        Some(address) => Ok(same_address(&params.ref_address, address)),
        None => Err(Error::CryptographyError),
    }
}

/// A number below 2^64 has at most twenty decimal digits, each of them a
/// digit.
pub proof fn lemma_decimal_digits_len(n: nat, k: nat)
    requires
        n < crate::utils::pow10(k),
        k >= 1,
    ensures
        1 <= decimal_digits(n).len() <= k,
    decreases n,
{
    if n >= 10 {
        if k == 1 {
            assert(crate::utils::pow10(1) == 10) by {
                reveal_with_fuel(crate::utils::pow10, 2);
            }
        } else {
            lemma_decimal_digits_len(n / 10, (k - 1) as nat);
        }
    }
}

fn push_decimal(text: &mut AmountText, n: u64)
    requires
        n < 100_000_000_000,
        amount_bytes(*old(text)).len() <= 4,
    ensures
        amount_bytes(*final(text)) == amount_bytes(*old(text)) + decimal_digits(n as nat),
        decimal_digits(n as nat).len() <= 11,
{
    let mut digits: [u8; 11] = [0u8; 11];
    let mut start: usize = 11;
    let mut rest: u64 = n;
    proof {
        reveal_with_fuel(crate::utils::pow10, 12);
        lemma_decimal_digits_len(n as nat, 11);
    }
    loop
        invariant_except_break
            1 <= start <= 11,
            rest < crate::utils::pow10(start as nat),
            decimal_digits(n as nat) == decimal_digits(rest as nat) + digits@.subrange(
                start as int,
                11,
            ),
            forall|j: int| start <= j < 11 ==> 0x30 <= #[trigger] digits@[j] <= 0x39,
        ensures
            start <= 10,
            decimal_digits(n as nat) == digits@.subrange(start as int, 11),
            forall|j: int| start <= j < 11 ==> 0x30 <= #[trigger] digits@[j] <= 0x39,
        decreases start,
    {
        let ghost before = digits@;
        start = start - 1;
        digits[start] = 0x30 + (rest % 10) as u8;
        assert(digits@.subrange(start as int, 11) =~= seq![digit_byte((rest % 10) as nat)]
            + before.subrange(start + 1, 11));
        if rest < 10 {
            assert(decimal_digits(n as nat) =~= digits@.subrange(start as int, 11));
            break;
        }
        assert(decimal_digits(n as nat) =~= decimal_digits((rest / 10) as nat) + digits@.subrange(
            start as int,
            11,
        ));
        proof {
            reveal_with_fuel(crate::utils::pow10, 12);
        }
        rest = rest / 10;
    }
    let ghost initial = amount_bytes(*text);
    let mut i: usize = start;
    while i < 11
        invariant
            start <= i <= 11,
            initial.len() <= 4,
            amount_bytes(*text) == initial + digits@.subrange(start as int, i as int),
            forall|j: int| start <= j < 11 ==> 0x30 <= #[trigger] digits@[j] <= 0x39,
        decreases 11 - i,
    {
        let ghost before = amount_bytes(*text);
        let _ = amount_try_push(text, digits[i]);
        assert(before.push(digits@[i as int]) =~= initial + digits@.subrange(
            start as int,
            i + 1,
        ));
        i = i + 1;
    }
}

/// Writes an amount as it is shown: `SUI`, the whole coins, a point and
/// the digits behind the point.
pub fn get_printable_amount(params: &PrintableAmountParams) -> (r: Result<AmountText, Error>)
    ensures
        r matches Ok(text) && amount_bytes(text) == printable(params.amount),
{
    let (quotient, remainder_str) = get_amount_in_decimals(params.amount);
    let mut text = amount_new();
    let _ = amount_try_push(&mut text, 0x53);
    let _ = amount_try_push(&mut text, 0x55);
    let _ = amount_try_push(&mut text, 0x49);
    let _ = amount_try_push(&mut text, 0x20);
    assert(amount_bytes(text) =~= ticker());
    push_decimal(&mut text, quotient);
    let _ = amount_try_push(&mut text, 0x2e);
    let fraction = fraction_as_bytes(&remainder_str);
    let ghost head = amount_bytes(text);
    let mut i: usize = 0;
    while i < fraction.len()
        invariant
            i <= fraction@.len() <= 9,
            head.len() <= 16,
            amount_bytes(text) == head + fraction@.subrange(0, i as int),
            fraction@ == fraction_digits(
                (params.amount % UNITS_PER_COIN) as nat,
                DECIMALS as nat,
            ),
        decreases fraction@.len() - i,
    {
        let ghost before = amount_bytes(text);
        proof {
            crate::utils::lemma_pow10_values();
            lemma_fraction_is_digits((params.amount % UNITS_PER_COIN) as nat, 9, i as int);
        }
        let _ = amount_try_push(&mut text, fraction[i]);
        assert(before.push(fraction@[i as int]) =~= head + fraction@.subrange(0, i + 1));
        i = i + 1;
    }
    assert(fraction@.subrange(0, fraction@.len() as int) =~= fraction@);
    assert(amount_bytes(text) =~= printable(params.amount));
    Ok(text)
}

/// The bytes of an amount as it is shown.
pub fn printable_bytes(text: &AmountText) -> (bytes: &[u8])
    ensures
        bytes@ == amount_bytes(*text),
{
    amount_as_bytes(text)
}

/// Every character behind the decimal point is a digit.
pub proof fn lemma_fraction_is_digits(rem: nat, width: nat, i: int)
    requires
        rem < crate::utils::pow10(width),
        0 <= i < fraction_digits(rem, width).len(),
    ensures
        0x30 <= fraction_digits(rem, width)[i] <= 0x39,
    decreases width,
{
    if width > 0 {
        let unit = crate::utils::pow10((width - 1) as nat);
        assert(rem / unit <= 9 && rem % unit < unit) by (nonlinear_arith)
            requires
                rem < 10 * unit,
                unit > 0,
        ;
        if i > 0 {
            lemma_fraction_is_digits(rem % unit, (width - 1) as nat, i - 1);
        }
    }
}

/// Whether the transaction that was received is the one that the swap
/// partner expects: the same amount, the same fee and the same recipient.
pub fn check_tx_params(expected: &TxParams, received: &TxParams) -> (same: bool)
    ensures
        same == (expected@ == received@),
{
    expected.amount == received.amount && expected.fee == received.fee && same_address(
        &expected.destination_address,
        &received.destination_address,
    )
}

/// What a swap partner is told of a check of an address: 1 for a match, 0
/// for none and for a check that failed.
pub fn check_address_reply(result: &Result<bool, Error>) -> (reply: i32)
    ensures
        reply == if result == Ok::<bool, Error>(true) {
            1i32
        } else {
            0i32
        },
{
    match result {
        Ok(true) => 1,
        _ => 0,
    }
}

/// What a swap partner is told of a signing request: 1 where the
/// transaction was signed, 0 otherwise.
pub fn sign_reply(ctx: &RunCtx) -> (reply: u8)
    ensures
        reply == if ctx.state() == State::LibSwapSignSuccess {
            1u8
        } else {
            0u8
        },
{
    if ctx.is_swap_sign_succeeded() {
        1
    } else {
        0
    }
}

/// Takes up a signing request of a swap partner: the context of the
/// request, with the parameters that its three buffers stand for, or the
/// reason why the buffers stand for none. Nothing is run for a request
/// that is not taken up.
pub fn start_sign(amount: &[u8], fee_amount: &[u8], dest_address: &[u8]) -> (r: Result<
    RunCtx,
    Error,
>)
    ensures
        match TxParams::of_buffers(amount@, fee_amount@, dest_address@) {
            Ok(view) => r matches Ok(ctx) && ctx.state() == State::LibSwapIdle && ctx.params()
                == view,
            Err(e) => r matches Err(found) && found == e,
        },
{
    match TxParams::try_from(amount, fee_amount, dest_address) {
        Ok(params) => Ok(RunCtx::lib_swap(params)),
        Err(e) => Err(e),
    }
}

/// What a swap partner is told at the end of a signing request: 1 where
/// the request was taken up and the transaction was signed, 0 where
/// signing failed and where the request was not taken up.
pub fn sign_result(ended: &Result<RunCtx, Error>) -> (reply: u8)
    ensures
        reply == match *ended {
            Ok(ctx) => if ctx.state() == State::LibSwapSignSuccess {
                1u8
            } else {
                0u8
            },
            Err(_) => 0u8,
        },
{
    match ended {
        Ok(ctx) => sign_reply(ctx),
        Err(_) => 0,
    }
}

} // verus!
