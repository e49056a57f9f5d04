//! Addresses: what is hashed to make one, how one is written, and the
//! response that reports a key with its address.

use crate::bounded::{
    preimage_bytes, preimage_new, preimage_try_extend, preimage_try_push, response_bytes,
    response_new, response_try_extend, response_try_push, Preimage, Response,
};
use crate::schema::{SuiAddressRaw, SUI_ADDRESS_LENGTH};
use crate::swap::params::{all_hex, hex_bytes, hex_value};
use vstd::prelude::*;

verus! {

/// The flag that marks the signature scheme of a key.
pub const ED25519_FLAG: u8 = 0;

/// The length of a public key.
pub const PUBLIC_KEY_LENGTH: usize = 32;

/// The most bytes that a response may hold.
pub const RESPONSE_CAPACITY: usize = 220;

/// A public key with its address.
#[derive(Debug, PartialEq, Eq)]
pub struct SuiPubKeyAddress {
    key: Vec<u8>,
    address: SuiAddressRaw,
}

/// The hexadecimal digit of a number below sixteen, in lower case.
pub open spec fn hex_digit(v: int) -> u8 {
    if v < 10 {
        (0x30 + v) as u8
    } else {
        (0x61 + v - 10) as u8
    }
}

/// Bytes as hexadecimal digits, two to a byte, the high one first.
pub open spec fn hex_digits(bytes: Seq<u8>) -> Seq<u8> {
    Seq::new(
        2 * bytes.len(),
        |i: int|
            if i % 2 == 0 {
                hex_digit((bytes[i / 2] / 16) as int)
            } else {
                hex_digit((bytes[i / 2] % 16) as int)
            },
    )
}

/// Bytes as they are shown: `0x` and their hexadecimal digits.
pub open spec fn hex_text(bytes: Seq<u8>) -> Seq<u8> {
    seq![0x30u8, 0x78u8] + hex_digits(bytes)
}

/// What is hashed to make the address of a key: the flag of the signature
/// scheme and the key. A key of more than 32 bytes is left out.
pub open spec fn preimage(key: Seq<u8>) -> Seq<u8> {
    if key.len() <= PUBLIC_KEY_LENGTH {
        seq![ED25519_FLAG] + key
    } else {
        seq![ED25519_FLAG]
    }
}

/// The response that reports a key with its address: each behind its
/// length in one byte.
pub open spec fn response(key: Seq<u8>, address: Seq<u8>) -> Option<Seq<u8>> {
    if key.len() > u8::MAX || address.len() > u8::MAX || 2 + key.len() + address.len()
        > RESPONSE_CAPACITY {
        None
    } else {
        Some(seq![key.len() as u8] + key + seq![address.len() as u8] + address)
    }
}

/// The digits of bytes are hexadecimal digits, and stand for the bytes.
pub proof fn lemma_hex_round_trip(bytes: Seq<u8>)
    ensures
        hex_digits(bytes).len() == 2 * bytes.len(),
        all_hex(hex_digits(bytes)),
        hex_bytes(hex_digits(bytes)) == bytes,
{
    let digits = hex_digits(bytes);
    assert forall|i: int| 0 <= i < digits.len() implies (#[trigger] hex_value(digits[i]))
        is Some by {
        let b = bytes[i / 2];
        assert(0 <= b / 16 < 16 && 0 <= b % 16 < 16);
    }
    assert forall|i: int| 0 <= i < bytes.len() implies hex_bytes(digits)[i] == bytes[i] by {
        let b = bytes[i];
        assert((2 * i) / 2 == i && (2 * i) % 2 == 0);
        assert((2 * i + 1) / 2 == i && (2 * i + 1) % 2 == 1);
        assert(digits[2 * i] == hex_digit((b / 16) as int));
        assert(digits[2 * i + 1] == hex_digit((b % 16) as int));
        assert(0 <= b / 16 < 16 && 0 <= b % 16 < 16);
        assert(16 * (b / 16) + b % 16 == b);
    }
    assert(hex_bytes(digits) =~= bytes);
}

/// What is hashed to make the address of a key.
pub fn address_preimage(key_bytes: &[u8]) -> (out: Preimage)
    ensures
        preimage_bytes(out) == preimage(key_bytes@),
{
    let mut out = preimage_new();
    let _ = preimage_try_push(&mut out, ED25519_FLAG);
    let _ = preimage_try_extend(&mut out, key_bytes);
    assert(preimage_bytes(out) =~= preimage(key_bytes@));
    out
}

fn hex_digit_of(v: u8) -> (c: u8)
    requires
        v < 16,
    ensures
        c == hex_digit(v as int),
{
    if v < 10 {
        0x30 + v
    } else {
        0x61 + (v - 10)
    }
}

/// Writes bytes as they are shown: `0x` and their hexadecimal digits in
/// lower case.
pub fn to_hex_text(bytes: &[u8]) -> (text: Vec<u8>)
    ensures
        text@ == hex_text(bytes@),
{
    let mut text: Vec<u8> = Vec::new();
    text.push(0x30);
    text.push(0x78);
    let mut i: usize = 0;
    while i < bytes.len()
        invariant
            i <= bytes@.len(),
            text@.len() == 2 + 2 * i,
            forall|j: int| 0 <= j < 2 * i ==> text@[2 + j] == hex_digits(bytes@)[j],
            text@[0] == 0x30u8,
            text@[1] == 0x78u8,
        decreases bytes@.len() - i,
    {
        let b = bytes[i];
        text.push(hex_digit_of(b / 16));
        text.push(hex_digit_of(b % 16));
        assert forall|j: int| 0 <= j < 2 * (i + 1) implies text@[2 + j] == hex_digits(bytes@)[j] by {
            if j == 2 * i {
                assert(j / 2 == i && j % 2 == 0);
            } else if j == 2 * i + 1 {
                assert(j / 2 == i && j % 2 == 1);
            }
        }
        i = i + 1;
    }
    assert(text@ =~= hex_text(bytes@));
    text
}

/// The response that reports a key with its address, if both fit.
pub fn address_response(key: &[u8], address: &[u8]) -> (out: Option<Response>)
    ensures
        match response(key@, address@) {
            Some(bytes) => out matches Some(found) && response_bytes(found) == bytes,
            None => out is None,
        },
{
    if key.len() > 255 || address.len() > 255 {
        return None;
    }
    let mut out = response_new();
    if !response_try_push(&mut out, key.len() as u8) {
        return None;
    }
    if !response_try_extend(&mut out, key) {
        return None;
    }
    if !response_try_push(&mut out, address.len() as u8) {
        return None;
    }
    if !response_try_extend(&mut out, address) {
        return None;
    }
    assert(response_bytes(out) =~= seq![key@.len() as u8] + key@ + seq![address@.len() as u8]
        + address@);
    Some(out)
}

impl SuiPubKeyAddress {
    /// The key.
    pub closed spec fn key(&self) -> Seq<u8> {
        self.key@
    }

    /// The address.
    pub closed spec fn address(&self) -> Seq<u8> {
        self.address@
    }

    /// A key with the address that the hash of its preimage gave.
    pub fn get_address(key_bytes: &[u8], hash: SuiAddressRaw) -> (r: Self)
        ensures
            r.key() == key_bytes@,
            r.address() == hash@,
    {
        let mut key: Vec<u8> = Vec::new();
        key.extend_from_slice(key_bytes);
        assert(key@ =~= key_bytes@);
        SuiPubKeyAddress { key, address: hash }
    }

    /// The address as bytes.
    pub fn get_binary_address(&self) -> (address: &[u8])
        ensures
            address@ == self.address(),
            address@.len() == SUI_ADDRESS_LENGTH,
    {
        vstd::array::array_as_slice(&self.address)
    }

    /// The key as bytes.
    pub fn key_bytes(&self) -> (key: &[u8])
        ensures
            key@ == self.key(),
    {
        self.key.as_slice()
    }

    /// The address as it is shown.
    pub fn to_text(&self) -> (text: Vec<u8>)
        ensures
            text@ == hex_text(self.address()),
    {
        to_hex_text(vstd::array::array_as_slice(&self.address))
    }
}

} // verus!
