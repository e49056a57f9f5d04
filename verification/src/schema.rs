//! The transaction schema below the validator: object references, call
//! arguments, command arguments and commands, composed from the primitive
//! rules.

use crate::bounded::{
    split_items, split_new, split_try_push, transfer_items, transfer_new, transfer_try_push,
    SplitAmounts, TransferObjects,
};
use crate::decode::{
    boolean, fixed_bytes, read_array, read_bool, read_u16_le, read_u64_le, read_uleb128,
    skip_bytes, skipped, u16_le, u64_le, uleb128,
};
use crate::outcome::{failure, Decoded, Outcome, Rejection};
use crate::stream::{delivers, give_up, ByteStream};
use vstd::prelude::*;

verus! {

/// The length of an address on this chain.
pub const SUI_ADDRESS_LENGTH: usize = 32;

/// The length of an object digest as it is encoded: a length byte and 32
/// bytes.
pub const OBJECT_DIGEST_LENGTH: usize = 33;

/// The length of an encoded object reference: an object id, a 64-bit
/// sequence number and a digest.
pub const OBJECT_REF_LENGTH: usize = 73;

/// The length of a shared object's id and initial version, which precede
/// its mutability flag.
pub const SHARED_OBJECT_HEAD_LENGTH: usize = 40;

/// The most object arguments that a transfer may list.
pub const TRANSFER_OBJECT_ARRAY_LENGTH: usize = 1;

/// The most amounts that a coin split may list, and the most amount inputs
/// that are kept.
pub const SPLIT_COIN_ARRAY_LENGTH: usize = 8;

/// An address as raw bytes.
pub type SuiAddressRaw = [u8; SUI_ADDRESS_LENGTH];

/// An input of a programmable transaction, classified by what it may stand
/// for.
#[derive(Debug, PartialEq, Eq)]
pub enum CallArg {
    /// Pure bytes of the length of an address.
    RecipientAddress(SuiAddressRaw),
    /// Pure bytes of the length of a 64-bit integer.
    Amount(u64),
    /// Pure bytes of any other length.
    OtherPure,
    /// An owned or shared object.
    ObjectArg,
}

/// The mathematical value of a [`CallArg`].
pub enum CallArgView {
    RecipientAddress(Seq<u8>),
    Amount(u64),
    OtherPure,
    ObjectArg,
}

impl View for CallArg {
    type V = CallArgView;

    open spec fn view(&self) -> CallArgView {
        match *self {
            CallArg::RecipientAddress(a) => CallArgView::RecipientAddress(a@),
            CallArg::Amount(v) => CallArgView::Amount(v),
            CallArg::OtherPure => CallArgView::OtherPure,
            CallArg::ObjectArg => CallArgView::ObjectArg,
        }
    }
}

/// An argument of a command.
#[derive(Clone, Copy, Debug, PartialEq, Eq, Structural)]
pub enum Argument {
    /// The coin that pays for gas.
    GasCoin,
    /// The input with this index.
    Input(u16),
    /// The result of the command with this index.
    Result(u16),
    /// One of the results of the command with the first index.
    NestedResult(u16, u16),
}

impl View for Argument {
    type V = Argument;

    open spec fn view(&self) -> Argument {
        *self
    }
}

/// A command of a programmable transaction, of the two kinds that are
/// recognised.
#[derive(Debug, PartialEq, Eq)]
pub enum Command {
    /// Objects to hand over, and the argument that names the recipient.
    TransferObject(TransferObjects, Argument),
    /// The coin to split, and the arguments that name the amounts.
    SplitCoins(Argument, SplitAmounts),
}

/// The mathematical value of a [`Command`].
pub enum CommandView {
    TransferObject(Seq<Argument>, Argument),
    SplitCoins(Argument, Seq<Argument>),
}

impl View for Command {
    type V = CommandView;

    open spec fn view(&self) -> CommandView {
        match *self {
            Command::TransferObject(objects, recipient) => CommandView::TransferObject(
                transfer_items(objects),
                recipient,
            ),
            Command::SplitCoins(coin, amounts) => CommandView::SplitCoins(
                coin,
                split_items(amounts),
            ),
        }
    }
}

/// An object reference: its 73 bytes are passed over.
pub open spec fn object_ref(s: Seq<u8>, pos: int) -> Outcome<()> {
    skipped(s, pos, OBJECT_REF_LENGTH as int)
}

/// A shared object: id and initial version are passed over, the mutability
/// flag must be a boolean.
pub open spec fn shared_object(s: Seq<u8>, pos: int) -> Outcome<()> {
    match skipped(s, pos, SHARED_OBJECT_HEAD_LENGTH as int) {
        Outcome::Done { next, .. } => match boolean(s, next) {
            Outcome::Done { next, .. } => Outcome::Done { value: (), next },
            other => failure(other),
        },
        other => failure(other),
    }
}

/// Pure bytes behind their length: eight are an amount, 32 are an address,
/// any other number is passed over.
pub open spec fn pure_arg(s: Seq<u8>, pos: int) -> Outcome<CallArgView> {
    match uleb128(s, pos) {
        Outcome::Done { value: length, next } => if length == 8 {
            match u64_le(s, next) {
                Outcome::Done { value, next } => Outcome::Done {
                    value: CallArgView::Amount(value),
                    next,
                },
                other => failure(other),
            }
        } else if length == SUI_ADDRESS_LENGTH {
            match fixed_bytes(s, next, SUI_ADDRESS_LENGTH as int) {
                Outcome::Done { value, next } => Outcome::Done {
                    value: CallArgView::RecipientAddress(value),
                    next,
                },
                other => failure(other),
            }
        } else {
            match skipped(s, next, length as int) {
                Outcome::Done { next, .. } => Outcome::Done { value: CallArgView::OtherPure, next },
                other => failure(other),
            }
        },
        other => failure(other),
    }
}

/// An object argument: variant 0 is an owned object, variant 1 a shared one.
pub open spec fn object_arg(s: Seq<u8>, pos: int) -> Outcome<CallArgView> {
    match uleb128(s, pos) {
        Outcome::Done { value: variant, next } => {
            let body = if variant == 0 {
                object_ref(s, next)
            } else if variant == 1 {
                shared_object(s, next)
            } else {
                Outcome::Reject { why: Rejection::Unsupported }
            };
            match body {
                Outcome::Done { next, .. } => Outcome::Done { value: CallArgView::ObjectArg, next },
                other => failure(other),
            }
        },
        other => failure(other),
    }
}

/// An input: variant 0 is pure bytes, variant 1 an object.
pub open spec fn call_arg(s: Seq<u8>, pos: int) -> Outcome<CallArgView> {
    match uleb128(s, pos) {
        Outcome::Done { value: variant, next } => if variant == 0 {
            pure_arg(s, next)
        } else if variant == 1 {
            object_arg(s, next)
        } else {
            Outcome::Reject { why: Rejection::Unsupported }
        },
        other => failure(other),
    }
}

/// A command argument: variants 0 to 3, the last three with 16-bit indices.
pub open spec fn argument(s: Seq<u8>, pos: int) -> Outcome<Argument> {
    match uleb128(s, pos) {
        Outcome::Done { value: variant, next } => if variant == 0 {
            Outcome::Done { value: Argument::GasCoin, next }
        } else if variant == 1 {
            match u16_le(s, next) {
                Outcome::Done { value, next } => Outcome::Done {
                    value: Argument::Input(value),
                    next,
                },
                other => failure(other),
            }
        } else if variant == 2 {
            match u16_le(s, next) {
                Outcome::Done { value, next } => Outcome::Done {
                    value: Argument::Result(value),
                    next,
                },
                other => failure(other),
            }
        } else if variant == 3 {
            match u16_le(s, next) {
                Outcome::Done { value: first, next } => match u16_le(s, next) {
                    Outcome::Done { value: second, next } => Outcome::Done {
                        value: Argument::NestedResult(first, second),
                        next,
                    },
                    other => failure(other),
                },
                other => failure(other),
            }
        } else {
            Outcome::Reject { why: Rejection::Unsupported }
        },
        other => failure(other),
    }
}

/// `count` arguments in a row.
pub open spec fn arguments(s: Seq<u8>, pos: int, count: nat) -> Outcome<Seq<Argument>>
    decreases count,
{
    if count == 0 {
        Outcome::Done { value: Seq::<Argument>::empty(), next: pos }
    } else {
        match arguments(s, pos, (count - 1) as nat) {
            Outcome::Done { value: items, next } => match argument(s, next) {
                Outcome::Done { value, next } => Outcome::Done { value: items.push(value), next },
                other => failure(other),
            },
            other => other,
        }
    }
}

/// A sequence of arguments behind its length, which may not exceed `bound`.
pub open spec fn argument_list(s: Seq<u8>, pos: int, bound: nat) -> Outcome<Seq<Argument>> {
    match uleb128(s, pos) {
        Outcome::Done { value: length, next } => if length > bound {
            Outcome::Reject { why: Rejection::Malformed }
        } else {
            arguments(s, next, length as nat)
        },
        other => failure(other),
    }
}

/// A command: variant 1 transfers objects, variant 2 splits coins.
pub open spec fn command(s: Seq<u8>, pos: int) -> Outcome<CommandView> {
    match uleb128(s, pos) {
        Outcome::Done { value: variant, next } => if variant == 1 {
            match argument_list(s, next, TRANSFER_OBJECT_ARRAY_LENGTH as nat) {
                Outcome::Done { value: objects, next } => match argument(s, next) {
                    Outcome::Done { value: recipient, next } => Outcome::Done {
                        value: CommandView::TransferObject(objects, recipient),
                        next,
                    },
                    other => failure(other),
                },
                other => failure(other),
            }
        } else if variant == 2 {
            match argument(s, next) {
                Outcome::Done { value: coin, next } => match argument_list(
                    s,
                    next,
                    SPLIT_COIN_ARRAY_LENGTH as nat,
                ) {
                    Outcome::Done { value: amounts, next } => Outcome::Done {
                        value: CommandView::SplitCoins(coin, amounts),
                        next,
                    },
                    other => failure(other),
                },
                other => failure(other),
            }
        } else {
            Outcome::Reject { why: Rejection::Unsupported }
        },
        other => failure(other),
    }
}

/// `count` inputs in a row, as they stand, without regard to what they
/// mean together.
pub open spec fn call_args(s: Seq<u8>, pos: int, count: nat) -> Outcome<Seq<CallArgView>>
    decreases count,
{
    if count == 0 {
        Outcome::Done { value: Seq::<CallArgView>::empty(), next: pos }
    } else {
        match call_args(s, pos, (count - 1) as nat) {
            Outcome::Done { value: items, next } => match call_arg(s, next) {
                Outcome::Done { value, next } => Outcome::Done { value: items.push(value), next },
                other => failure(other),
            },
            other => other,
        }
    }
}

/// `count` commands in a row, as they stand, without regard to what they
/// mean together.
pub open spec fn command_list(s: Seq<u8>, pos: int, count: nat) -> Outcome<Seq<CommandView>>
    decreases count,
{
    if count == 0 {
        Outcome::Done { value: Seq::<CommandView>::empty(), next: pos }
    } else {
        match command_list(s, pos, (count - 1) as nat) {
            Outcome::Done { value: items, next } => match command(s, next) {
                Outcome::Done { value, next } => Outcome::Done { value: items.push(value), next },
                other => failure(other),
            },
            other => other,
        }
    }
}

/// A list that failed early fails the same way however many items are
/// asked for.
pub proof fn lemma_arguments_failure_stays(s: Seq<u8>, pos: int, fewer: nat, count: nat)
    requires
        fewer <= count,
        !(arguments(s, pos, fewer) is Done),
    ensures
        arguments(s, pos, count) == arguments(s, pos, fewer),
    decreases count,
{
    if fewer < count {
        lemma_arguments_failure_stays(s, pos, fewer, (count - 1) as nat);
    }
}

/// Reads an object reference and discards it.
pub fn object_ref_parser(stream: &mut ByteStream) -> (r: Decoded<()>)
    ensures
        delivers(
            object_ref(old(stream).bytes(), old(stream).cursor()),
            *old(stream),
            *final(stream),
            r,
        ),
{
    skip_bytes(stream, OBJECT_REF_LENGTH)
}

/// Reads a shared object and discards it.
pub fn parse_shared_object(stream: &mut ByteStream) -> (r: Decoded<()>)
    ensures
        delivers(
            shared_object(old(stream).bytes(), old(stream).cursor()),
            *old(stream),
            *final(stream),
            r,
        ),
{
    let start = stream.position();
    match skip_bytes(stream, SHARED_OBJECT_HEAD_LENGTH) {
        Decoded::Done(_) => {},
        other => {
            return give_up(stream, start, other);
        },
    }
    match read_bool(stream) {
        Decoded::Done(_) => Decoded::Done(()),
        other => give_up(stream, start, other),
    }
}

fn parse_pure_arg(stream: &mut ByteStream) -> (r: Decoded<CallArg>)
    ensures
        delivers(
            pure_arg(old(stream).bytes(), old(stream).cursor()),
            *old(stream),
            *final(stream),
            r,
        ),
{
    let start = stream.position();
    let length = match read_uleb128(stream) {
        Decoded::Done(length) => length,
        other => {
            return give_up(stream, start, other);
        },
    };
    if length == 8 {
        match read_u64_le(stream) {
            Decoded::Done(value) => Decoded::Done(CallArg::Amount(value)),
            other => give_up(stream, start, other),
        }
    } else if length == 32 {
        match read_array::<SUI_ADDRESS_LENGTH>(stream) {
            Decoded::Done(value) => Decoded::Done(CallArg::RecipientAddress(value)),
            other => give_up(stream, start, other),
        }
    } else {
        match skip_bytes(stream, length as usize) {
            Decoded::Done(_) => Decoded::Done(CallArg::OtherPure),
            other => give_up(stream, start, other),
        }
    }
}

fn parse_object_arg(stream: &mut ByteStream) -> (r: Decoded<CallArg>)
    ensures
        delivers(
            object_arg(old(stream).bytes(), old(stream).cursor()),
            *old(stream),
            *final(stream),
            r,
        ),
{
    let start = stream.position();
    let variant = match read_uleb128(stream) {
        Decoded::Done(variant) => variant,
        other => {
            return give_up(stream, start, other);
        },
    };
    let body = if variant == 0 {
        object_ref_parser(stream)
    } else if variant == 1 {
        parse_shared_object(stream)
    } else {
        Decoded::Reject(Rejection::Unsupported)
    };
    match body {
        Decoded::Done(_) => Decoded::Done(CallArg::ObjectArg),
        other => give_up(stream, start, other),
    }
}

/// The schema of an input of a programmable transaction.
pub struct CallArgSchema;

/// The schema of an argument of a command.
pub struct ArgumentSchema;

/// The schema of a command.
pub struct CommandSchema;

impl CallArgSchema {
    /// Reads one input of a programmable transaction.
    pub fn parse(stream: &mut ByteStream) -> (r: Decoded<CallArg>)
        ensures
            delivers(
                call_arg(old(stream).bytes(), old(stream).cursor()),
                *old(stream),
                *final(stream),
                r,
            ),
    {
        let start = stream.position();
        let variant = match read_uleb128(stream) {
            Decoded::Done(variant) => variant,
            other => {
                return give_up(stream, start, other);
            },
        };
        let body = if variant == 0 {
            parse_pure_arg(stream)
        } else if variant == 1 {
            parse_object_arg(stream)
        } else {
            Decoded::Reject(Rejection::Unsupported)
        };
        match body {
            Decoded::Done(arg) => Decoded::Done(arg),
            other => give_up(stream, start, other),
        }
    }
}

impl ArgumentSchema {
    /// Reads one argument of a command.
    pub fn parse(stream: &mut ByteStream) -> (r: Decoded<Argument>)
        ensures
            delivers(
                argument(old(stream).bytes(), old(stream).cursor()),
                *old(stream),
                *final(stream),
                r,
            ),
    {
        let start = stream.position();
        let variant = match read_uleb128(stream) {
            Decoded::Done(variant) => variant,
            other => {
                return give_up(stream, start, other);
            },
        };
        if variant == 0 {
            Decoded::Done(Argument::GasCoin)
        } else if variant == 1 {
            match read_u16_le(stream) {
                Decoded::Done(index) => Decoded::Done(Argument::Input(index)),
                other => give_up(stream, start, other),
            }
        } else if variant == 2 {
            match read_u16_le(stream) {
                Decoded::Done(index) => Decoded::Done(Argument::Result(index)),
                other => give_up(stream, start, other),
            }
        } else if variant == 3 {
            let first = match read_u16_le(stream) {
                Decoded::Done(index) => index,
                other => {
                    return give_up(stream, start, other);
                },
            };
            match read_u16_le(stream) {
                Decoded::Done(second) => Decoded::Done(Argument::NestedResult(first, second)),
                other => give_up(stream, start, other),
            }
        } else {
            give_up(stream, start, Decoded::<()>::Reject(Rejection::Unsupported))
        }
    }

    /// Reads the objects of a transfer behind their count, and rejects more
    /// than one.
    pub fn parse_objects(stream: &mut ByteStream) -> (r: Decoded<TransferObjects>)
        ensures
            final(stream).bytes() == old(stream).bytes(),
            old(stream).cursor() <= final(stream).cursor(),
            match argument_list(old(stream).bytes(), old(stream).cursor(), TRANSFER_OBJECT_ARRAY_LENGTH as nat) {
                Outcome::Done { value, next } => {
                    &&& r matches Decoded::Done(list)
                    &&& transfer_items(list) == value
                    &&& final(stream).cursor() == next
                },
                Outcome::Suspend => r is Suspend && final(stream).cursor() == old(stream).cursor(),
                Outcome::Reject { why } => {
                    &&& r == Decoded::<TransferObjects>::Reject(why)
                    &&& final(stream).cursor() == old(stream).cursor()
                },
            },
    {
        let start = stream.position();
        let length = match read_uleb128(stream) {
            Decoded::Done(length) => length,
            other => {
                return give_up(stream, start, other);
            },
        };
        if length as u64 > TRANSFER_OBJECT_ARRAY_LENGTH as u64 {
            return give_up(stream, start, Decoded::<()>::Reject(Rejection::Malformed));
        }
        let first = stream.position();
        let mut items: TransferObjects = transfer_new();
        let mut i: u32 = 0;
        while i < length
            invariant
                i <= length <= TRANSFER_OBJECT_ARRAY_LENGTH,
                stream.bytes() == old(stream).bytes(),
                start <= first <= stream.cursor(),
                start == old(stream).cursor(),
                uleb128(stream.bytes(), start as int) == (Outcome::Done {
                    value: length,
                    next: first as int,
                }),
                transfer_items(items).len() == i,
                arguments(stream.bytes(), first as int, i as nat) == (Outcome::Done {
                    value: transfer_items(items),
                    next: stream.cursor(),
                }),
            decreases length - i,
        {
            match ArgumentSchema::parse(stream) {
                Decoded::Done(item) => {
                    let _ = transfer_try_push(&mut items, item);
                },
                other => {
                    proof {
                        lemma_arguments_failure_stays(
                            stream.bytes(),
                            first as int,
                            (i + 1) as nat,
                            length as nat,
                        );
                    }
                    return give_up(stream, start, other);
                },
            }
            i = i + 1;
        }
        Decoded::Done(items)
    }

    /// Reads the amounts of a coin split behind their count, and rejects
    /// more than eight.
    pub fn parse_amounts(stream: &mut ByteStream) -> (r: Decoded<SplitAmounts>)
        ensures
            final(stream).bytes() == old(stream).bytes(),
            old(stream).cursor() <= final(stream).cursor(),
            match argument_list(old(stream).bytes(), old(stream).cursor(), SPLIT_COIN_ARRAY_LENGTH as nat) {
                Outcome::Done { value, next } => {
                    &&& r matches Decoded::Done(list)
                    &&& split_items(list) == value
                    &&& final(stream).cursor() == next
                },
                Outcome::Suspend => r is Suspend && final(stream).cursor() == old(stream).cursor(),
                Outcome::Reject { why } => {
                    &&& r == Decoded::<SplitAmounts>::Reject(why)
                    &&& final(stream).cursor() == old(stream).cursor()
                },
            },
    {
        let start = stream.position();
        let length = match read_uleb128(stream) {
            Decoded::Done(length) => length,
            other => {
                return give_up(stream, start, other);
            },
        };
        if length as u64 > SPLIT_COIN_ARRAY_LENGTH as u64 {
            return give_up(stream, start, Decoded::<()>::Reject(Rejection::Malformed));
        }
        let first = stream.position();
        let mut items: SplitAmounts = split_new();
        let mut i: u32 = 0;
        while i < length
            invariant
                i <= length <= SPLIT_COIN_ARRAY_LENGTH,
                stream.bytes() == old(stream).bytes(),
                start <= first <= stream.cursor(),
                start == old(stream).cursor(),
                uleb128(stream.bytes(), start as int) == (Outcome::Done {
                    value: length,
                    next: first as int,
                }),
                split_items(items).len() == i,
                arguments(stream.bytes(), first as int, i as nat) == (Outcome::Done {
                    value: split_items(items),
                    next: stream.cursor(),
                }),
            decreases length - i,
        {
            match ArgumentSchema::parse(stream) {
                Decoded::Done(item) => {
                    let _ = split_try_push(&mut items, item);
                },
                other => {
                    proof {
                        lemma_arguments_failure_stays(
                            stream.bytes(),
                            first as int,
                            (i + 1) as nat,
                            length as nat,
                        );
                    }
                    return give_up(stream, start, other);
                },
            }
            i = i + 1;
        }
        Decoded::Done(items)
    }
}

impl CommandSchema {
    /// Reads one command.
    pub fn parse(stream: &mut ByteStream) -> (r: Decoded<Command>)
        ensures
            delivers(
                command(old(stream).bytes(), old(stream).cursor()),
                *old(stream),
                *final(stream),
                r,
            ),
    {
        let start = stream.position();
        let variant = match read_uleb128(stream) {
            Decoded::Done(variant) => variant,
            other => {
                return give_up(stream, start, other);
            },
        };
        if variant == 1 {
            let objects = match ArgumentSchema::parse_objects(stream) {
                Decoded::Done(objects) => objects,
                other => {
                    return give_up(stream, start, other);
                },
            };
            match ArgumentSchema::parse(stream) {
                Decoded::Done(recipient) => Decoded::Done(Command::TransferObject(objects, recipient)),
                other => give_up(stream, start, other),
            }
        } else if variant == 2 {
            let coin = match ArgumentSchema::parse(stream) {
                Decoded::Done(coin) => coin,
                other => {
                    return give_up(stream, start, other);
                },
            };
            match ArgumentSchema::parse_amounts(stream) {
                Decoded::Done(amounts) => Decoded::Done(Command::SplitCoins(coin, amounts)),
                other => give_up(stream, start, other),
            }
        } else {
            give_up(stream, start, Decoded::<()>::Reject(Rejection::Unsupported))
        }
    }
}

} // verus!
