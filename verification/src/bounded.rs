//! The fixed-capacity collections of the application, kept in `ArrayVec`s
//! (the amount inputs, the arguments of the two commands, the segments of
//! a derivation path, the response to a request, what is hashed to make an
//! address) and in `ArrayString`s (the short texts that amounts are shown
//! as).
//!
//! Each collection has a name for what it holds and one function for each
//! method that is called on it; a name cannot be general in the capacity,
//! so each capacity has its own.

use crate::schema::Argument;
use arrayvec::{ArrayString, ArrayVec};
use vstd::prelude::*;

verus! {

/// `arrayvec::ArrayVec`, made known so that it can stand in signatures.
/// Nothing is known of what a value holds but what the functions below
/// say.
#[verifier::external_type_specification]
#[verifier::external_body]
#[verifier::reject_recursive_types(T)]
pub struct ExArrayVec<T, const CAP: usize>(ArrayVec<T, CAP>);

/// An amount input: its value and the index of the input that held it.
pub type AmountEntry = (u64, u32);

/// The amount inputs of one transaction: at most eight.
pub type AmountList = ArrayVec<AmountEntry, 8>;

/// The entries that an amount list holds, in the order in which they were
/// pushed: the elements of the `ArrayVec`, first to last. It is not
/// defined here; the three functions below say all that is taken for
/// granted of it.
pub uninterp spec fn amount_items(list: AmountList) -> Seq<AmountEntry>;

/// Calls `ArrayVec::new`. Taken for granted: the new list holds nothing.
#[verifier::external_body]
pub(crate) fn amounts_new() -> (list: AmountList)
    ensures
        amount_items(list) == Seq::<AmountEntry>::empty(),
{
    ArrayVec::new()
}

/// Calls `ArrayVec::try_push` and tells whether it succeeded. Taken for
/// granted: below the capacity of eight the entry is appended and the push
/// succeeds; at capacity the list stays as it is and the push fails.
#[verifier::external_body]
pub(crate) fn amounts_try_push(list: &mut AmountList, entry: AmountEntry) -> (pushed: bool)
    ensures
        pushed == (amount_items(*old(list)).len() < 8),
        pushed ==> amount_items(*final(list)) == amount_items(*old(list)).push(entry),
        !pushed ==> amount_items(*final(list)) == amount_items(*old(list)),
{
    list.try_push(entry).is_ok()
}

/// Calls `ArrayVec::as_slice`. Taken for granted: the slice holds the
/// entries of the list, in order.
#[verifier::external_body]
pub(crate) fn amounts_as_slice(list: &AmountList) -> (entries: &[AmountEntry])
    ensures
        entries@ == amount_items(*list),
{
    list.as_slice()
}

/// The segments of a derivation path: at most ten.
pub type PathSegments = ArrayVec<u32, 10>;

/// The segments that a path holds, in the order in which they were pushed:
/// the elements of the `ArrayVec`, first to last. It is not defined here;
/// the three functions below say all that is taken for granted of it.
pub uninterp spec fn path_items(path: PathSegments) -> Seq<u32>;

/// Calls `ArrayVec::new` with a capacity of ten. Taken for granted: the
/// new path holds nothing.
#[verifier::external_body]
pub(crate) fn path_new() -> (path: PathSegments)
    ensures
        path_items(path) == Seq::<u32>::empty(),
{
    ArrayVec::new()
}

/// Calls `ArrayVec::try_push` with a capacity of ten and tells whether it
/// succeeded. Taken for granted: below the capacity the segment is
/// appended and the push succeeds; at capacity the path stays as it is and
/// the push fails.
#[verifier::external_body]
pub(crate) fn path_try_push(path: &mut PathSegments, segment: u32) -> (pushed: bool)
    ensures
        pushed == (path_items(*old(path)).len() < 10),
        pushed ==> path_items(*final(path)) == path_items(*old(path)).push(segment),
        !pushed ==> path_items(*final(path)) == path_items(*old(path)),
{
    path.try_push(segment).is_ok()
}

/// Calls `ArrayVec::as_slice` with a capacity of ten. Taken for granted:
/// the slice holds the segments of the path, in order.
#[verifier::external_body]
pub(crate) fn path_as_slice(path: &PathSegments) -> (segments: &[u32])
    ensures
        segments@ == path_items(*path),
{
    path.as_slice()
}

/// The objects that a transfer lists: at most one argument.
pub type TransferObjects = ArrayVec<Argument, 1>;

/// The arguments that a transfer lists, in the order in which they were
/// pushed: the elements of the `ArrayVec`, first to last. It is not
/// defined here; the two functions below say all that is taken for
/// granted of it.
pub uninterp spec fn transfer_items(list: TransferObjects) -> Seq<Argument>;

/// Calls `ArrayVec::new` with a capacity of one. Taken for granted: the
/// new list holds nothing.
#[verifier::external_body]
pub(crate) fn transfer_new() -> (list: TransferObjects)
    ensures
        transfer_items(list) == Seq::<Argument>::empty(),
{
    ArrayVec::new()
}

/// Calls `ArrayVec::try_push` with a capacity of one and tells whether it
/// succeeded. Taken for granted: below the capacity the argument is
/// appended and the push succeeds; at capacity the list stays as it is and
/// the push fails.
#[verifier::external_body]
pub(crate) fn transfer_try_push(list: &mut TransferObjects, argument: Argument) -> (pushed: bool)
    ensures
        pushed == (transfer_items(*old(list)).len() < 1),
        pushed ==> transfer_items(*final(list)) == transfer_items(*old(list)).push(argument),
        !pushed ==> transfer_items(*final(list)) == transfer_items(*old(list)),
{
    list.try_push(argument).is_ok()
}

/// The amounts that a coin split lists: at most eight arguments.
pub type SplitAmounts = ArrayVec<Argument, 8>;

/// The arguments that a coin split lists, in the order in which they were
/// pushed: the elements of the `ArrayVec`, first to last. It is not
/// defined here; the three functions below say all that is taken for
/// granted of it.
pub uninterp spec fn split_items(list: SplitAmounts) -> Seq<Argument>;

/// Calls `ArrayVec::new` with a capacity of eight. Taken for granted: the
/// new list holds nothing.
#[verifier::external_body]
pub(crate) fn split_new() -> (list: SplitAmounts)
    ensures
        split_items(list) == Seq::<Argument>::empty(),
{
    ArrayVec::new()
}

/// Calls `ArrayVec::try_push` with a capacity of eight and tells whether
/// it succeeded. Taken for granted: below the capacity the argument is
/// appended and the push succeeds; at capacity the list stays as it is and
/// the push fails.
#[verifier::external_body]
pub(crate) fn split_try_push(list: &mut SplitAmounts, argument: Argument) -> (pushed: bool)
    ensures
        pushed == (split_items(*old(list)).len() < 8),
        pushed ==> split_items(*final(list)) == split_items(*old(list)).push(argument),
        !pushed ==> split_items(*final(list)) == split_items(*old(list)),
{
    list.try_push(argument).is_ok()
}

/// Calls `ArrayVec::as_slice` with a capacity of eight. Taken for granted:
/// the slice holds the arguments of the list, in order.
#[verifier::external_body]
pub(crate) fn split_as_slice(list: &SplitAmounts) -> (arguments: &[Argument])
    ensures
        arguments@ == split_items(*list),
{
    list.as_slice()
}

/// The response to a request: at most 220 bytes.
pub type Response = ArrayVec<u8, 220>;

/// The bytes that a response holds, in order: the elements of the
/// `ArrayVec`, first to last. It is not defined here; the three functions
/// below say all that is taken for granted of it.
pub uninterp spec fn response_bytes(response: Response) -> Seq<u8>;

/// Calls `ArrayVec::new` with a capacity of 220. Taken for granted: the
/// new response holds nothing.
#[verifier::external_body]
pub(crate) fn response_new() -> (response: Response)
    ensures
        response_bytes(response) == Seq::<u8>::empty(),
{
    ArrayVec::new()
}

/// Calls `ArrayVec::try_push` with a capacity of 220 and tells whether it
/// succeeded. Taken for granted: below the capacity the byte is appended
/// and the push succeeds; at capacity the response stays as it is and the
/// push fails.
#[verifier::external_body]
pub(crate) fn response_try_push(response: &mut Response, byte: u8) -> (pushed: bool)
    ensures
        pushed == (response_bytes(*old(response)).len() < 220),
        pushed ==> response_bytes(*final(response)) == response_bytes(*old(response)).push(byte),
        !pushed ==> response_bytes(*final(response)) == response_bytes(*old(response)),
{
    response.try_push(byte).is_ok()
}

/// Calls `ArrayVec::try_extend_from_slice` with a capacity of 220 and
/// tells whether it succeeded. Taken for granted: where the bytes fit the
/// room that is left they are appended, all of them and in order, and the
/// call succeeds; where they do not, the response stays as it is and the
/// call fails.
#[verifier::external_body]
pub(crate) fn response_try_extend(response: &mut Response, bytes: &[u8]) -> (extended: bool)
    ensures
        extended == (response_bytes(*old(response)).len() + bytes@.len() <= 220),
        extended ==> response_bytes(*final(response)) == response_bytes(*old(response)) + bytes@,
        !extended ==> response_bytes(*final(response)) == response_bytes(*old(response)),
{
    response.try_extend_from_slice(bytes).is_ok()
}

/// What is hashed to make an address: at most 33 bytes.
pub type Preimage = ArrayVec<u8, 33>;

/// The bytes that a preimage holds, in order: the elements of the
/// `ArrayVec`, first to last. It is not defined here; the three functions
/// below say all that is taken for granted of it.
pub uninterp spec fn preimage_bytes(preimage: Preimage) -> Seq<u8>;

/// Calls `ArrayVec::new` with a capacity of 33. Taken for granted: the new
/// preimage holds nothing.
#[verifier::external_body]
pub(crate) fn preimage_new() -> (preimage: Preimage)
    ensures
        preimage_bytes(preimage) == Seq::<u8>::empty(),
{
    ArrayVec::new()
}

/// Calls `ArrayVec::try_push` with a capacity of 33 and tells whether it
/// succeeded. Taken for granted: below the capacity the byte is appended
/// and the push succeeds; at capacity the preimage stays as it is and the
/// push fails.
#[verifier::external_body]
pub(crate) fn preimage_try_push(preimage: &mut Preimage, byte: u8) -> (pushed: bool)
    ensures
        pushed == (preimage_bytes(*old(preimage)).len() < 33),
        pushed ==> preimage_bytes(*final(preimage)) == preimage_bytes(*old(preimage)).push(byte),
        !pushed ==> preimage_bytes(*final(preimage)) == preimage_bytes(*old(preimage)),
{
    preimage.try_push(byte).is_ok()
}

/// Calls `ArrayVec::try_extend_from_slice` with a capacity of 33 and tells
/// whether it succeeded. Taken for granted: where the bytes fit the room
/// that is left they are appended, all of them and in order, and the call
/// succeeds; where they do not, the preimage stays as it is and the call
/// fails.
#[verifier::external_body]
pub(crate) fn preimage_try_extend(preimage: &mut Preimage, bytes: &[u8]) -> (extended: bool)
    ensures
        extended == (preimage_bytes(*old(preimage)).len() + bytes@.len() <= 33),
        extended ==> preimage_bytes(*final(preimage)) == preimage_bytes(*old(preimage)) + bytes@,
        !extended ==> preimage_bytes(*final(preimage)) == preimage_bytes(*old(preimage)),
{
    preimage.try_extend_from_slice(bytes).is_ok()
}

/// `arrayvec::ArrayString`, made known so that it can stand in
/// signatures. Nothing is known of what a value holds but what the
/// functions below say.
#[verifier::external_type_specification]
#[verifier::external_body]
pub struct ExArrayString<const CAP: usize>(ArrayString<CAP>);

/// The digits behind the decimal point of an amount: at most twelve bytes.
pub type FractionText = ArrayString<12>;

/// An amount as it is shown: at most 28 bytes.
pub type AmountText = ArrayString<28>;

/// The bytes that a fraction text holds: the UTF-8 bytes of the
/// `ArrayString`. It is not defined here; the functions below say all that
/// is taken for granted of it.
pub uninterp spec fn fraction_bytes(text: FractionText) -> Seq<u8>;

/// The bytes that an amount text holds: the UTF-8 bytes of the
/// `ArrayString`. It is not defined here; the functions below say all that
/// is taken for granted of it.
pub uninterp spec fn amount_bytes(text: AmountText) -> Seq<u8>;

/// Calls `ArrayString::new` with a capacity of twelve. Taken for granted:
/// the new text is empty.
#[verifier::external_body]
pub(crate) fn fraction_new() -> (text: FractionText)
    ensures
        fraction_bytes(text) == Seq::<u8>::empty(),
{
    ArrayString::new()
}

/// Calls `ArrayString::try_push` with a capacity of twelve, for a
/// character of one byte, and tells whether it succeeded. Taken for
/// granted: below the capacity the byte is appended and the push succeeds;
/// at capacity the text stays as it is and the push fails.
#[verifier::external_body]
pub(crate) fn fraction_try_push(text: &mut FractionText, c: u8) -> (pushed: bool)
    requires
        c < 128,
    ensures
        pushed == (fraction_bytes(*old(text)).len() < 12),
        pushed ==> fraction_bytes(*final(text)) == fraction_bytes(*old(text)).push(c),
        !pushed ==> fraction_bytes(*final(text)) == fraction_bytes(*old(text)),
{
    text.try_push(c as char).is_ok()
}

/// Calls `ArrayString::as_str` with a capacity of twelve, and hands out
/// the bytes of the string. Taken for granted: they are the bytes of the
/// text.
#[verifier::external_body]
pub(crate) fn fraction_as_bytes(text: &FractionText) -> (bytes: &[u8])
    ensures
        bytes@ == fraction_bytes(*text),
{
    text.as_str().as_bytes()
}

/// Calls `ArrayString::new` with a capacity of 28. Taken for granted: the
/// new text is empty.
#[verifier::external_body]
pub(crate) fn amount_new() -> (text: AmountText)
    ensures
        amount_bytes(text) == Seq::<u8>::empty(),
{
    ArrayString::new()
}

/// Calls `ArrayString::try_push` with a capacity of 28, for a character
/// of one byte, and tells whether it succeeded. Taken for granted: below
/// the capacity the byte is appended and the push succeeds; at capacity
/// the text stays as it is and the push fails.
#[verifier::external_body]
pub(crate) fn amount_try_push(text: &mut AmountText, c: u8) -> (pushed: bool)
    requires
        c < 128,
    ensures
        pushed == (amount_bytes(*old(text)).len() < 28),
        pushed ==> amount_bytes(*final(text)) == amount_bytes(*old(text)).push(c),
        !pushed ==> amount_bytes(*final(text)) == amount_bytes(*old(text)),
{
    text.try_push(c as char).is_ok()
}

/// Calls `ArrayString::as_str` with a capacity of 28, and hands out the
/// bytes of the string. Taken for granted: they are the bytes of the text.
#[verifier::external_body]
pub(crate) fn amount_as_bytes(text: &AmountText) -> (bytes: &[u8])
    ensures
        bytes@ == amount_bytes(*text),
{
    text.as_str().as_bytes()
}

} // verus!
