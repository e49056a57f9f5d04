//! The transaction schema above the validator: the intent, the transaction
//! data with its kind, gas data and expiration, and the checks that a parse
//! makes against the parameters of a swap.

use crate::decode::{
    read_u32_le, read_u64_le, read_uleb128, skip_bytes, skipped, u32_le, u64_le, uleb128,
};
use crate::interface::ParseChecks;
use crate::outcome::{failure, Decoded, Outcome, Rejection};
use crate::schema::{OBJECT_REF_LENGTH, SUI_ADDRESS_LENGTH};
use crate::stream::{delivers, give_up, ByteStream};
use crate::swap::params::{same_address, CreateTxParams, TxParams, TxParamsView};
use crate::validator::{programmable, recognize_transfer, Transfer, TransferView};
use vstd::prelude::*;

verus! {

/// The schema of a programmable transaction.
pub struct ProgrammableTransaction;

/// The schema of the kind of a transaction.
pub struct TransactionKind;

/// The schema of the data of a transaction.
pub struct TransactionData;

/// The schema of the expiration of a transaction.
pub struct TransactionExpiration;

/// The schema of the gas budget.
pub struct GasBudget;

/// The intent: version, scope and application, each a varint whose value
/// is not looked at.
pub open spec fn intent(s: Seq<u8>, pos: int) -> Outcome<()> {
    match uleb128(s, pos) {
        Outcome::Done { next, .. } => match uleb128(s, next) {
            Outcome::Done { next, .. } => match uleb128(s, next) {
                Outcome::Done { next, .. } => Outcome::Done { value: (), next },
                other => failure(other),
            },
            other => failure(other),
        },
        other => failure(other),
    }
}

/// The expiration: variant 0 is none, variant 1 an epoch of 64 bits.
pub open spec fn expiration(s: Seq<u8>, pos: int) -> Outcome<()> {
    match uleb128(s, pos) {
        Outcome::Done { value: variant, next } => if variant == 0 {
            Outcome::Done { value: (), next }
        } else if variant == 1 {
            match u64_le(s, next) {
                Outcome::Done { next, .. } => Outcome::Done { value: (), next },
                other => failure(other),
            }
        } else {
            Outcome::Reject { why: Rejection::Unsupported }
        },
        other => failure(other),
    }
}

/// The payment: any number of object references behind their count.
pub open spec fn payment(s: Seq<u8>, pos: int) -> Outcome<()> {
    match uleb128(s, pos) {
        Outcome::Done { value: count, next } => skipped(s, next, OBJECT_REF_LENGTH * count),
        other => failure(other),
    }
}

/// A programmable transaction under `checks`: a swap's transaction must
/// transfer the expected amount to the expected recipient.
pub open spec fn checked_programmable(
    s: Seq<u8>,
    pos: int,
    checks: ParseChecks,
    expected: TxParamsView,
) -> Outcome<TransferView> {
    match programmable(s, pos) {
        Outcome::Done { value, next } => if checks == ParseChecks::CheckSwapTx && (expected.amount
            != value.total_amount || expected.destination_address != value.recipient) {
            Outcome::Reject { why: Rejection::ParamMismatch }
        } else {
            Outcome::Done { value, next }
        },
        other => other,
    }
}

/// The gas budget under `checks`: a swap's transaction must have the
/// expected budget.
pub open spec fn gas_budget(s: Seq<u8>, pos: int, checks: ParseChecks, expected: TxParamsView)
    -> Outcome<u64> {
    match u64_le(s, pos) {
        Outcome::Done { value, next } => if checks == ParseChecks::CheckSwapTx && expected.fee
            != value {
            Outcome::Reject { why: Rejection::ParamMismatch }
        } else {
            Outcome::Done { value, next }
        },
        other => other,
    }
}

/// The gas data: payment, owner and price are passed over, the budget is
/// the value.
pub open spec fn gas_data(s: Seq<u8>, pos: int, checks: ParseChecks, expected: TxParamsView)
    -> Outcome<u64> {
    match payment(s, pos) {
        Outcome::Done { next, .. } => match skipped(s, next, SUI_ADDRESS_LENGTH as int) {
            Outcome::Done { next, .. } => match u64_le(s, next) {
                Outcome::Done { next, .. } => gas_budget(s, next, checks, expected),
                other => failure(other),
            },
            other => failure(other),
        },
        other => failure(other),
    }
}

/// The kind of a transaction: only variant 0, a programmable transaction.
pub open spec fn transaction_kind(
    s: Seq<u8>,
    pos: int,
    checks: ParseChecks,
    expected: TxParamsView,
) -> Outcome<TransferView> {
    match uleb128(s, pos) {
        Outcome::Done { value: variant, next } => if variant == 0 {
            checked_programmable(s, next, checks, expected)
        } else {
            Outcome::Reject { why: Rejection::Unsupported }
        },
        other => failure(other),
    }
}

/// The first version of the transaction data: kind, sender, gas data and
/// expiration.
pub open spec fn transaction_data_v1(
    s: Seq<u8>,
    pos: int,
    checks: ParseChecks,
    expected: TxParamsView,
) -> Outcome<TxParamsView> {
    match transaction_kind(s, pos, checks, expected) {
        Outcome::Done { value: transfer, next } => match skipped(
            s,
            next,
            SUI_ADDRESS_LENGTH as int,
        ) {
            Outcome::Done { next, .. } => match gas_data(s, next, checks, expected) {
                Outcome::Done { value: budget, next } => match expiration(s, next) {
                    Outcome::Done { next, .. } => Outcome::Done {
                        value: TxParamsView {
                            amount: transfer.total_amount,
                            fee: budget,
                            destination_address: transfer.recipient,
                        },
                        next,
                    },
                    other => failure(other),
                },
                other => failure(other),
            },
            other => failure(other),
        },
        other => failure(other),
    }
}

/// The transaction data: only variant 0, the first version.
pub open spec fn transaction_data(
    s: Seq<u8>,
    pos: int,
    checks: ParseChecks,
    expected: TxParamsView,
) -> Outcome<TxParamsView> {
    match uleb128(s, pos) {
        Outcome::Done { value: variant, next } => if variant == 0 {
            transaction_data_v1(s, next, checks, expected)
        } else {
            Outcome::Reject { why: Rejection::Unsupported }
        },
        other => failure(other),
    }
}

/// What is signed: the intent and the transaction data.
pub open spec fn transaction(s: Seq<u8>, pos: int, checks: ParseChecks, expected: TxParamsView)
    -> Outcome<TxParamsView> {
    match intent(s, pos) {
        Outcome::Done { next, .. } => transaction_data(s, next, checks, expected),
        other => failure(other),
    }
}

/// What a signing request carries: the number of bytes to hash, in 32
/// bits with the low byte first, and the transaction. The number is not
/// looked at here.
pub open spec fn signed_payload(
    s: Seq<u8>,
    pos: int,
    checks: ParseChecks,
    expected: TxParamsView,
) -> Outcome<TxParamsView> {
    match u32_le(s, pos) {
        Outcome::Done { next, .. } => transaction(s, next, checks, expected),
        other => failure(other),
    }
}

/// Reads the intent.
pub fn intent_parser(stream: &mut ByteStream) -> (r: Decoded<()>)
    ensures
        delivers(
            intent(old(stream).bytes(), old(stream).cursor()),
            *old(stream),
            *final(stream),
            r,
        ),
{
    let start = stream.position();
    match read_uleb128(stream) {
        Decoded::Done(_) => {},
        other => {
            return give_up(stream, start, other);
        },
    }
    match read_uleb128(stream) {
        Decoded::Done(_) => {},
        other => {
            return give_up(stream, start, other);
        },
    }
    match read_uleb128(stream) {
        Decoded::Done(_) => Decoded::Done(()),
        other => give_up(stream, start, other),
    }
}

impl TransactionExpiration {
    /// Reads the expiration.
    pub fn parse(stream: &mut ByteStream) -> (r: Decoded<()>)
        ensures
            delivers(
                expiration(old(stream).bytes(), old(stream).cursor()),
                *old(stream),
                *final(stream),
                r,
            ),
    {
        let start = stream.position();
        let variant = match read_uleb128(stream) {
            Decoded::Done(variant) => variant,
            other => {
                return give_up(stream, start, other);
            },
        };
        if variant == 0 {
            Decoded::Done(())
        } else if variant == 1 {
            match read_u64_le(stream) {
                Decoded::Done(_) => Decoded::Done(()),
                other => give_up(stream, start, other),
            }
        } else {
            give_up(stream, start, Decoded::<()>::Reject(Rejection::Unsupported))
        }
    }
}

fn parse_payment(stream: &mut ByteStream) -> (r: Decoded<()>)
    ensures
        delivers(
            payment(old(stream).bytes(), old(stream).cursor()),
            *old(stream),
            *final(stream),
            r,
        ),
{
    let start = stream.position();
    let count = match read_uleb128(stream) {
        Decoded::Done(count) => count,
        other => {
            return give_up(stream, start, other);
        },
    };
    let needed: u64 = OBJECT_REF_LENGTH as u64 * count as u64;
    if needed > stream.available() as u64 {
        return give_up(stream, start, Decoded::<()>::Suspend);
    }
    match skip_bytes(stream, needed as usize) {
        Decoded::Done(_) => Decoded::Done(()),
        other => give_up(stream, start, other),
    }
}

impl GasBudget {
    /// Reads the gas budget and, for a swap, holds it against the expected
    /// fee.
    pub fn parse(
        stream: &mut ByteStream,
        checks: ParseChecks,
        expected: &TxParams,
    ) -> (r: Decoded<u64>)
        ensures
            delivers(
                gas_budget(old(stream).bytes(), old(stream).cursor(), checks, expected@),
                *old(stream),
                *final(stream),
                r,
            ),
    {
        let start = stream.position();
        let budget = match read_u64_le(stream) {
            Decoded::Done(budget) => budget,
            other => {
                return give_up(stream, start, other);
            },
        };
        match checks {
            ParseChecks::CheckSwapTx => {
                if expected.fee != budget {
                    return give_up(
                        stream,
                        start,
                        Decoded::<()>::Reject(Rejection::ParamMismatch),
                    );
                }
            },
            _ => {},
        }
        Decoded::Done(budget)
    }
}

/// Reads the gas data and yields the budget.
pub fn gas_data_parser(
    stream: &mut ByteStream,
    checks: ParseChecks,
    expected: &TxParams,
) -> (r: Decoded<u64>)
    ensures
        delivers(
            gas_data(old(stream).bytes(), old(stream).cursor(), checks, expected@),
            *old(stream),
            *final(stream),
            r,
        ),
{
    let start = stream.position();
    match parse_payment(stream) {
        Decoded::Done(_) => {},
        other => {
            return give_up(stream, start, other);
        },
    }
    match skip_bytes(stream, SUI_ADDRESS_LENGTH) {
        Decoded::Done(_) => {},
        other => {
            return give_up(stream, start, other);
        },
    }
    match read_u64_le(stream) {
        Decoded::Done(_) => {},
        other => {
            return give_up(stream, start, other);
        },
    }
    match GasBudget::parse(stream, checks, expected) {
        Decoded::Done(budget) => Decoded::Done(budget),
        other => give_up(stream, start, other),
    }
}

impl ProgrammableTransaction {
    /// Reads a programmable transaction, tells what it transfers and, for
    /// a swap, holds amount and recipient against what is expected.
    pub fn parse(
        stream: &mut ByteStream,
        checks: ParseChecks,
        expected: &TxParams,
    ) -> (r: Decoded<Transfer>)
        ensures
            delivers(
                checked_programmable(
                    old(stream).bytes(),
                    old(stream).cursor(),
                    checks,
                    expected@,
                ),
                *old(stream),
                *final(stream),
                r,
            ),
    {
        let start = stream.position();
        let transfer = match recognize_transfer(stream) {
            Decoded::Done(transfer) => transfer,
            other => {
                return give_up(stream, start, other);
            },
        };
        match checks {
            ParseChecks::CheckSwapTx => {
                if expected.amount != transfer.total_amount || !same_address(
                    &expected.destination_address,
                    &transfer.recipient,
                ) {
                    return give_up(
                        stream,
                        start,
                        Decoded::<()>::Reject(Rejection::ParamMismatch),
                    );
                }
            },
            _ => {},
        }
        Decoded::Done(transfer)
    }
}

impl TransactionKind {
    /// Reads the kind of a transaction.
    pub fn parse(
        stream: &mut ByteStream,
        checks: ParseChecks,
        expected: &TxParams,
    ) -> (r: Decoded<Transfer>)
        ensures
            delivers(
                transaction_kind(old(stream).bytes(), old(stream).cursor(), checks, expected@),
                *old(stream),
                *final(stream),
                r,
            ),
    {
        let start = stream.position();
        let variant = match read_uleb128(stream) {
            Decoded::Done(variant) => variant,
            other => {
                return give_up(stream, start, other);
            },
        };
        if variant != 0 {
            return give_up(stream, start, Decoded::<()>::Reject(Rejection::Unsupported));
        }
        match ProgrammableTransaction::parse(stream, checks, expected) {
            Decoded::Done(transfer) => Decoded::Done(transfer),
            other => give_up(stream, start, other),
        }
    }
}

/// Reads the first version of the transaction data.
pub fn transaction_data_v1_parser(
    stream: &mut ByteStream,
    checks: ParseChecks,
    expected: &TxParams,
) -> (r: Decoded<CreateTxParams>)
    ensures
        delivers(
            transaction_data_v1(old(stream).bytes(), old(stream).cursor(), checks, expected@),
            *old(stream),
            *final(stream),
            r,
        ),
{
    let start = stream.position();
    let transfer = match TransactionKind::parse(stream, checks, expected) {
        Decoded::Done(transfer) => transfer,
        other => {
            return give_up(stream, start, other);
        },
    };
    match skip_bytes(stream, SUI_ADDRESS_LENGTH) {
        Decoded::Done(_) => {},
        other => {
            return give_up(stream, start, other);
        },
    }
    let budget = match gas_data_parser(stream, checks, expected) {
        Decoded::Done(budget) => budget,
        other => {
            return give_up(stream, start, other);
        },
    };
    match TransactionExpiration::parse(stream) {
        Decoded::Done(_) => Decoded::Done(
            CreateTxParams {
                amount: transfer.total_amount,
                fee: budget,
                destination_address: transfer.recipient,
            },
        ),
        other => give_up(stream, start, other),
    }
}

impl TransactionData {
    /// Reads the transaction data.
    pub fn parse(
        stream: &mut ByteStream,
        checks: ParseChecks,
        expected: &TxParams,
    ) -> (r: Decoded<CreateTxParams>)
        ensures
            delivers(
                transaction_data(old(stream).bytes(), old(stream).cursor(), checks, expected@),
                *old(stream),
                *final(stream),
                r,
            ),
    {
        let start = stream.position();
        let variant = match read_uleb128(stream) {
            Decoded::Done(variant) => variant,
            other => {
                return give_up(stream, start, other);
            },
        };
        if variant != 0 {
            return give_up(stream, start, Decoded::<()>::Reject(Rejection::Unsupported));
        }
        match transaction_data_v1_parser(stream, checks, expected) {
            Decoded::Done(params) => Decoded::Done(params),
            other => give_up(stream, start, other),
        }
    }
}

/// Reads what is signed: the intent and the transaction data. The result
/// names the recipient, the amount and the gas budget.
pub fn tx_parser(
    stream: &mut ByteStream,
    checks: ParseChecks,
    expected: &TxParams,
) -> (r: Decoded<CreateTxParams>)
    ensures
        delivers(
            transaction(old(stream).bytes(), old(stream).cursor(), checks, expected@),
            *old(stream),
            *final(stream),
            r,
        ),
{
    let start = stream.position();
    match intent_parser(stream) {
        Decoded::Done(_) => {},
        other => {
            return give_up(stream, start, other);
        },
    }
    match TransactionData::parse(stream, checks, expected) {
        Decoded::Done(params) => Decoded::Done(params),
        other => give_up(stream, start, other),
    }
}

/// Reads what a signing request carries: the number of bytes to hash,
/// which is passed over, and the transaction.
pub fn payload_parser(
    stream: &mut ByteStream,
    checks: ParseChecks,
    expected: &TxParams,
) -> (r: Decoded<CreateTxParams>)
    ensures
        delivers(
            signed_payload(old(stream).bytes(), old(stream).cursor(), checks, expected@),
            *old(stream),
            *final(stream),
            r,
        ),
{
    let start = stream.position();
    match read_u32_le(stream) {
        Decoded::Done(_) => {},
        other => {
            return give_up(stream, start, other);
        },
    }
    match tx_parser(stream, checks, expected) {
        Decoded::Done(params) => Decoded::Done(params),
        other => give_up(stream, start, other),
    }
}

} // verus!
