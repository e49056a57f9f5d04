//! The parse of a payload as a computation that can be suspended: what has
//! been decoded is kept, and a resumed parse goes on behind it.

use crate::chunking::{
    lemma_checked_programmable_stable, lemma_integers_stable, lemma_intent_stable,
    lemma_uleb128_stable,
};
use crate::decode::{read_u32_le, read_uleb128, skip_bytes, skipped, u32_le, uleb128};
use crate::interface::ParseChecks;
use crate::outcome::{answers, failure, Decoded, Outcome, Rejection};
use crate::schema::SUI_ADDRESS_LENGTH;
use crate::stream::{delivers, give_up, ByteStream};
use crate::swap::params::{same_address, CreateTxParams, TxParams, TxParamsView};
use crate::transaction::{
    checked_programmable, expiration, gas_data, gas_data_parser, intent, intent_parser,
    signed_payload, TransactionExpiration,
};
use crate::validator::{Recognition, Transfer};
use vstd::prelude::*;

verus! {

/// What precedes the programmable transaction in a payload: the number of
/// bytes to hash, the intent, and the variants of the transaction data and
/// of its kind, which must both be 0.
pub open spec fn header(s: Seq<u8>, pos: int) -> Outcome<()> {
    match u32_le(s, pos) {
        Outcome::Done { next, .. } => match intent(s, next) {
            Outcome::Done { next, .. } => match uleb128(s, next) {
                Outcome::Done { value: version, next } => if version != 0 {
                    Outcome::Reject { why: Rejection::Unsupported }
                } else {
                    match uleb128(s, next) {
                        Outcome::Done { value: kind, next } => if kind != 0 {
                            Outcome::Reject { why: Rejection::Unsupported }
                        } else {
                            Outcome::Done { value: (), next }
                        },
                        other => failure(other),
                    }
                },
                other => failure(other),
            },
            other => failure(other),
        },
        other => failure(other),
    }
}

/// What follows the programmable transaction in a payload: the sender,
/// the gas data and the expiration. The value is the gas budget.
pub open spec fn tail(s: Seq<u8>, pos: int, checks: ParseChecks, expected: TxParamsView)
    -> Outcome<u64> {
    match skipped(s, pos, SUI_ADDRESS_LENGTH as int) {
        Outcome::Done { next, .. } => match gas_data(s, next, checks, expected) {
            Outcome::Done { value: budget, next } => match expiration(s, next) {
                Outcome::Done { next, .. } => Outcome::Done { value: budget, next },
                other => failure(other),
            },
            other => failure(other),
        },
        other => failure(other),
    }
}

/// A payload, put together from its three parts.
pub open spec fn assembled(s: Seq<u8>, checks: ParseChecks, expected: TxParamsView) -> Outcome<
    TxParamsView,
> {
    match header(s, 0) {
        Outcome::Done { next, .. } => match checked_programmable(s, next, checks, expected) {
            Outcome::Done { value: transfer, next } => match tail(s, next, checks, expected) {
                Outcome::Done { value: budget, next } => Outcome::Done {
                    value: TxParamsView {
                        amount: transfer.total_amount,
                        fee: budget,
                        destination_address: transfer.recipient,
                    },
                    next,
                },
                other => failure(other),
            },
            other => failure(other),
        },
        other => failure(other),
    }
}

/// The payload rule is the rule of the three parts in a row.
pub proof fn lemma_payload_is_assembled(s: Seq<u8>, checks: ParseChecks, expected: TxParamsView)
    ensures
        signed_payload(s, 0, checks, expected) == assembled(s, checks, expected),
{
}

fn parse_header(stream: &mut ByteStream) -> (r: Decoded<()>)
    ensures
        delivers(
            header(old(stream).bytes(), old(stream).cursor()),
            *old(stream),
            *final(stream),
            r,
        ),
{
    let start = stream.position();
    match read_u32_le(stream) {
        Decoded::Done(_) => {},
        other => {
            return give_up(stream, start, other);
        },
    }
    match intent_parser(stream) {
        Decoded::Done(_) => {},
        other => {
            return give_up(stream, start, other);
        },
    }
    match read_uleb128(stream) {
        Decoded::Done(version) => {
            if version != 0 {
                return give_up(stream, start, Decoded::<()>::Reject(Rejection::Unsupported));
            }
        },
        other => {
            return give_up(stream, start, other);
        },
    }
    match read_uleb128(stream) {
        Decoded::Done(kind) => {
            if kind != 0 {
                return give_up(stream, start, Decoded::<()>::Reject(Rejection::Unsupported));
            }
            Decoded::Done(())
        },
        other => give_up(stream, start, other),
    }
}

fn parse_tail(
    stream: &mut ByteStream,
    checks: ParseChecks,
    expected: &TxParams,
) -> (r: Decoded<u64>)
    ensures
        delivers(
            tail(old(stream).bytes(), old(stream).cursor(), checks, expected@),
            *old(stream),
            *final(stream),
            r,
        ),
{
    let start = stream.position();
    match skip_bytes(stream, SUI_ADDRESS_LENGTH) {
        Decoded::Done(_) => {},
        other => {
            return give_up(stream, start, other);
        },
    }
    let budget = match gas_data_parser(stream, checks, expected) {
        Decoded::Done(budget) => budget,
        other => {
            return give_up(stream, start, other);
        },
    };
    match TransactionExpiration::parse(stream) {
        Decoded::Done(_) => Decoded::Done(budget),
        other => give_up(stream, start, other),
    }
}

/// Which part of a payload a suspended parse waits in.
#[derive(Clone, Copy, Debug, PartialEq, Eq, Structural)]
pub enum Step {
    /// Before the programmable transaction.
    Header,
    /// In the programmable transaction.
    Transfer,
    /// Behind the programmable transaction.
    Tail,
}

/// What a suspended parse of a payload has decoded so far.
pub struct Progress {
    step: Step,
    recognition: Recognition,
    transfer: Transfer,
}

impl Progress {
    /// Which part the parse waits in.
    pub closed spec fn step(&self) -> Step {
        self.step
    }

    /// The progress is what the rules say of the bytes before `cursor`:
    /// every part that is noted as decoded is decoded there, with the
    /// values that are kept.
    pub closed spec fn fits(
        &self,
        s: Seq<u8>,
        cursor: int,
        checks: ParseChecks,
        expected: TxParamsView,
    ) -> bool {
        match self.step {
            Step::Header => cursor == 0,
            Step::Transfer => {
                &&& header(s, 0) == (Outcome::Done { value: (), next: self.recognition.start() })
                &&& self.recognition.fits(s, cursor)
            },
            Step::Tail => {
                &&& header(s, 0) == (Outcome::Done { value: (), next: self.recognition.start() })
                &&& checked_programmable(s, self.recognition.start(), checks, expected)
                    == (Outcome::Done { value: self.transfer@, next: cursor })
            },
        }
    }

    /// What has been decoded stays decoded when more bytes arrive.
    pub proof fn lemma_fits_more(
        &self,
        s: Seq<u8>,
        more: Seq<u8>,
        cursor: int,
        checks: ParseChecks,
        expected: TxParamsView,
    )
        requires
            self.fits(s, cursor, checks, expected),
        ensures
            self.fits(s + more, cursor, checks, expected),
    {
        lemma_header_stable(s, more);
        match self.step {
            Step::Header => {},
            Step::Transfer => {
                self.recognition.lemma_fits_more(s, more, cursor);
            },
            Step::Tail => {
                lemma_checked_programmable_stable(
                    s,
                    more,
                    self.recognition.start(),
                    checks,
                    expected,
                );
            },
        }
    }

    /// Nothing decoded yet.
    pub fn new() -> (progress: Self)
        ensures
            progress.step() == Step::Header,
            forall|s: Seq<u8>, checks: ParseChecks, expected: TxParamsView|
                progress.fits(s, 0, checks, expected),
    {
        Progress {
            step: Step::Header,
            recognition: Recognition::new(0),
            transfer: Transfer { recipient: [0u8; 32], total_amount: 0 },
        }
    }

    /// Goes on with the parse behind what has been decoded. The result is
    /// what the payload rule says of the bytes received; while it waits,
    /// what has been decoded is kept for the next time.
    pub fn advance(
        &mut self,
        stream: &mut ByteStream,
        checks: ParseChecks,
        expected: &TxParams,
    ) -> (r: Decoded<CreateTxParams>)
        requires
            old(self).fits(old(stream).bytes(), old(stream).cursor(), checks, expected@),
        ensures
            final(stream).bytes() == old(stream).bytes(),
            answers(signed_payload(final(stream).bytes(), 0, checks, expected@), r),
            r is Suspend ==> final(self).fits(
                final(stream).bytes(),
                final(stream).cursor(),
                checks,
                expected@,
            ),
    {
        proof {
            lemma_payload_is_assembled(stream.bytes(), checks, expected@);
        }
        if matches!(self.step, Step::Header) {
            let here = stream.position();
            match parse_header(stream) {
                Decoded::Done(_) => {},
                other => {
                    return give_up(stream, here, other);
                },
            }
            self.recognition = Recognition::new(stream.position());
            self.step = Step::Transfer;
        }
        if matches!(self.step, Step::Transfer) {
            let here = stream.position();
            let transfer = match self.recognition.advance(stream) {
                Decoded::Done(transfer) => transfer,
                other => {
                    let here = stream.position();
                    return give_up(stream, here, other);
                },
            };
            match checks {
                ParseChecks::CheckSwapTx => {
                    if expected.amount != transfer.total_amount || !same_address(
                        &expected.destination_address,
                        &transfer.recipient,
                    ) {
                        return Decoded::Reject(Rejection::ParamMismatch);
                    }
                },
                _ => {},
            }
            self.transfer = transfer;
            self.step = Step::Tail;
        }
        let here = stream.position();
        match parse_tail(stream, checks, expected) {
            Decoded::Done(budget) => Decoded::Done(
                CreateTxParams {
                    amount: self.transfer.total_amount,
                    fee: budget,
                    destination_address: self.transfer.recipient,
                },
            ),
            other => give_up(stream, here, other),
        }
    }
}

/// The header is stable under more bytes.
pub proof fn lemma_header_stable(s: Seq<u8>, more: Seq<u8>)
    ensures
        crate::chunking::stable(header(s, 0), header(s + more, 0), 0, s.len()),
{
    lemma_integers_stable(s, more, 0);
    if let Outcome::Done { next, .. } = u32_le(s, 0) {
        lemma_intent_stable(s, more, next);
        if let Outcome::Done { next, .. } = intent(s, next) {
            lemma_uleb128_stable(s, more, next);
            if let Outcome::Done { next, .. } = uleb128(s, next) {
                lemma_uleb128_stable(s, more, next);
            }
        }
    }
}

} // verus!
