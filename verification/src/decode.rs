//! The primitive decoding rules: unsigned LEB128 varints, little-endian
//! integers, byte arrays of a fixed length, and booleans.
//!
//! Each rule is a function of the received bytes and a position. It finishes
//! with a value, suspends when the bytes end too early, or rejects.

use crate::outcome::{Decoded, Outcome, Rejection};
use crate::stream::{delivers, ByteStream};
use vstd::prelude::*;

verus! {

/// A base-128 number, least significant digit first, of at most `budget`
/// digits. Every byte but the last has its high bit set. The last digit of a
/// number with several digits is not zero, so each number has one encoding.
pub open spec fn varint(s: Seq<u8>, pos: int, budget: nat) -> Outcome<nat>
    decreases budget,
{
    if budget == 0 {
        Outcome::Reject { why: Rejection::Malformed }
    } else if pos < 0 || pos >= s.len() {
        Outcome::Suspend
    } else if s[pos] < 128 {
        Outcome::Done { value: s[pos] as nat, next: pos + 1 }
    } else {
        match varint(s, pos + 1, (budget - 1) as nat) {
            Outcome::Done { value, next } => if value == 0 {
                Outcome::Reject { why: Rejection::Malformed }
            } else {
                Outcome::Done { value: ((s[pos] - 128) + 128 * value) as nat, next }
            },
            Outcome::Suspend => Outcome::Suspend,
            Outcome::Reject { why } => Outcome::Reject { why },
        }
    }
}

/// An unsigned LEB128 varint that fits 32 bits.
pub open spec fn uleb128(s: Seq<u8>, pos: int) -> Outcome<u32> {
    match varint(s, pos, 5) {
        Outcome::Done { value, next } => if value <= u32::MAX {
            Outcome::Done { value: value as u32, next }
        } else {
            Outcome::Reject { why: Rejection::Malformed }
        },
        Outcome::Suspend => Outcome::Suspend,
        Outcome::Reject { why } => Outcome::Reject { why },
    }
}

/// The canonical LEB128 bytes of a number.
pub open spec fn uleb128_bytes(v: nat) -> Seq<u8>
    decreases v,
{
    if v < 128 {
        seq![v as u8]
    } else {
        seq![(v % 128 + 128) as u8] + uleb128_bytes(v / 128)
    }
}

/// `n` bytes are there to be read at `pos`.
pub open spec fn has_bytes(s: Seq<u8>, pos: int, n: int) -> bool {
    0 <= pos && 0 <= n && pos + n <= s.len()
}

/// 256 to the power of `n`.
pub open spec fn radix_pow(n: nat) -> nat
    decreases n,
{
    if n == 0 {
        1
    } else {
        256 * radix_pow((n - 1) as nat)
    }
}

/// The number that `n` bytes stand for, low byte first.
pub open spec fn le_value(s: Seq<u8>, pos: int, n: nat) -> nat
    decreases n,
{
    if n == 0 {
        0
    } else {
        s[pos] as nat + 256 * le_value(s, pos + 1, (n - 1) as nat)
    }
}

/// The `n` low bytes of a number, low byte first.
pub open spec fn le_bytes(v: nat, n: nat) -> Seq<u8>
    decreases n,
{
    if n == 0 {
        Seq::<u8>::empty()
    } else {
        seq![(v % 256) as u8] + le_bytes(v / 256, (n - 1) as nat)
    }
}

/// A 16-bit integer, low byte first.
pub open spec fn u16_le(s: Seq<u8>, pos: int) -> Outcome<u16> {
    if has_bytes(s, pos, 2) {
        Outcome::Done { value: le_value(s, pos, 2) as u16, next: pos + 2 }
    } else {
        Outcome::Suspend
    }
}

/// A 32-bit integer, low byte first.
pub open spec fn u32_le(s: Seq<u8>, pos: int) -> Outcome<u32> {
    if has_bytes(s, pos, 4) {
        Outcome::Done { value: le_value(s, pos, 4) as u32, next: pos + 4 }
    } else {
        Outcome::Suspend
    }
}

/// A 64-bit integer, low byte first.
pub open spec fn u64_le(s: Seq<u8>, pos: int) -> Outcome<u64> {
    if has_bytes(s, pos, 8) {
        Outcome::Done { value: le_value(s, pos, 8) as u64, next: pos + 8 }
    } else {
        Outcome::Suspend
    }
}

/// The powers of 256 that the integer widths in use need.
pub proof fn lemma_radix_pow_values()
    ensures
        radix_pow(0) == 1,
        radix_pow(1) == 0x100,
        radix_pow(2) == 0x1_0000,
        radix_pow(3) == 0x100_0000,
        radix_pow(4) == 0x1_0000_0000,
        radix_pow(5) == 0x100_0000_0000,
        radix_pow(6) == 0x1_0000_0000_0000,
        radix_pow(7) == 0x100_0000_0000_0000,
        radix_pow(8) == 0x1_0000_0000_0000_0000,
{
    reveal_with_fuel(radix_pow, 9);
}

/// `n` bytes stand for a number below 256 to the power of `n`.
pub proof fn lemma_le_value_bound(s: Seq<u8>, pos: int, n: nat)
    ensures
        le_value(s, pos, n) < radix_pow(n),
    decreases n,
{
    if n > 0 {
        lemma_le_value_bound(s, pos + 1, (n - 1) as nat);
    }
}

/// `n` bytes, taken as they are.
pub open spec fn fixed_bytes(s: Seq<u8>, pos: int, n: int) -> Outcome<Seq<u8>> {
    if has_bytes(s, pos, n) {
        Outcome::Done { value: s.subrange(pos, pos + n), next: pos + n }
    } else {
        Outcome::Suspend
    }
}

/// `n` bytes, passed over.
pub open spec fn skipped(s: Seq<u8>, pos: int, n: int) -> Outcome<()> {
    if has_bytes(s, pos, n) {
        Outcome::Done { value: (), next: pos + n }
    } else {
        Outcome::Suspend
    }
}

/// One byte that is 0 or 1.
pub open spec fn boolean(s: Seq<u8>, pos: int) -> Outcome<bool> {
    if !has_bytes(s, pos, 1) {
        Outcome::Suspend
    } else if s[pos] == 0 {
        Outcome::Done { value: false, next: pos + 1 }
    } else if s[pos] == 1 {
        Outcome::Done { value: true, next: pos + 1 }
    } else {
        Outcome::Reject { why: Rejection::Malformed }
    }
}

/// A finished varint of at most `budget` digits read between one and
/// `budget` bytes and lies below 128 to the power of `budget`; the power is
/// written out for the budgets in use.
pub proof fn lemma_varint_bounds(s: Seq<u8>, pos: int, budget: nat)
    requires
        budget <= 5,
    ensures
        varint(s, pos, budget) matches Outcome::Done { value, next } ==> {
            &&& 0 <= pos < next <= s.len()
            &&& next <= pos + budget
            &&& budget == 1 ==> value < 0x80
            &&& budget == 2 ==> value < 0x4000
            &&& budget == 3 ==> value < 0x20_0000
            &&& budget == 4 ==> value < 0x1000_0000
            &&& budget == 5 ==> value < 0x8_0000_0000
        },
    decreases budget,
{
    if budget > 0 && 0 <= pos < s.len() && s[pos] >= 128 {
        lemma_varint_bounds(s, pos + 1, (budget - 1) as nat);
    }
}

/// How the digits of a varint are gathered. `Located` is the executable
/// mirror of an [`Outcome`] for rules that only look ahead.
enum Located {
    Done { value: u64, next: usize },
    Suspend,
    Reject,
}

fn varint_at(stream: &ByteStream, at: usize, budget: u8) -> (r: Located)
    requires
        budget <= 5,
    ensures
        match varint(stream.bytes(), at as int, budget as nat) {
            Outcome::Done { value, next } => r == (Located::Done {
                value: value as u64,
                next: next as usize,
            }) && value <= u64::MAX && next <= usize::MAX,
            Outcome::Suspend => r is Suspend,
            Outcome::Reject { why } => r is Reject && why == Rejection::Malformed,
        },
    decreases budget,
{
    proof {
        lemma_varint_bounds(stream.bytes(), at as int, budget as nat);
    }
    if budget == 0 {
        return Located::Reject;
    }
    if at >= stream.len() {
        return Located::Suspend;
    }
    let b = stream.byte_at(at);
    if b < 128 {
        return Located::Done { value: b as u64, next: at + 1 };
    }
    proof {
        lemma_varint_bounds(stream.bytes(), at + 1, (budget - 1) as nat);
    }
    match varint_at(stream, at + 1, budget - 1) {
        Located::Done { value, next } => {
            if value == 0 {
                Located::Reject
            } else {
                Located::Done { value: (b - 128) as u64 + 128 * value, next }
            }
        },
        Located::Suspend => Located::Suspend,
        Located::Reject => Located::Reject,
    }
}

/// Reads an unsigned LEB128 varint of at most 32 bits.
pub fn read_uleb128(stream: &mut ByteStream) -> (r: Decoded<u32>)
    ensures
        delivers(
            uleb128(old(stream).bytes(), old(stream).cursor()),
            *old(stream),
            *final(stream),
            r,
        ),
{
    let at = stream.position();
    proof {
        lemma_varint_bounds(stream.bytes(), at as int, 5);
    }
    match varint_at(stream, at, 5) {
        Located::Done { value, next } => {
            if value <= 0xffff_ffff {
                stream.advance_to(next);
                Decoded::Done(value as u32)
            } else {
                Decoded::Reject(Rejection::Malformed)
            }
        },
        Located::Suspend => Decoded::Suspend,
        Located::Reject => Decoded::Reject(Rejection::Malformed),
    }
}

fn le_at(stream: &ByteStream, at: usize, n: usize) -> (value: u64)
    requires
        n <= 8,
        at + n <= stream.bytes().len() <= usize::MAX,
    ensures
        value == le_value(stream.bytes(), at as int, n as nat),
{
    let mut value: u64 = 0;
    let mut i: usize = n;
    proof {
        lemma_radix_pow_values();
    }
    while i > 0
        invariant
            i <= n <= 8,
            at + n <= stream.bytes().len() <= usize::MAX,
            value == le_value(stream.bytes(), at + i, (n - i) as nat),
        decreases i,
    {
        proof {
            lemma_le_value_bound(stream.bytes(), at + i, (n - i) as nat);
            lemma_radix_pow_values();
        }
        i = i - 1;
        value = value * 256 + stream.byte_at(at + i) as u64;
    }
    value
}

/// The 32-bit integer that stands at `at` in `bytes`, low byte first.
pub fn le_u32_at(bytes: &[u8], at: usize) -> (value: u32)
    requires
        at + 4 <= bytes@.len(),
    ensures
        value == le_value(bytes@, at as int, 4),
{
    proof {
        lemma_le_value_bound(bytes@, at as int, 4);
        lemma_radix_pow_values();
        reveal_with_fuel(le_value, 5);
    }
    bytes[at] as u32 + 0x100 * bytes[at + 1] as u32 + 0x1_0000 * bytes[at + 2] as u32
        + 0x100_0000 * bytes[at + 3] as u32
}

/// Reads a 16-bit integer, low byte first.
pub fn read_u16_le(stream: &mut ByteStream) -> (r: Decoded<u16>)
    ensures
        delivers(
            u16_le(old(stream).bytes(), old(stream).cursor()),
            *old(stream),
            *final(stream),
            r,
        ),
{
    let at = stream.position();
    if stream.available() < 2 {
        return Decoded::Suspend;
    }
    let value = le_at(stream, at, 2);
    proof {
        lemma_le_value_bound(stream.bytes(), at as int, 2);
        lemma_radix_pow_values();
    }
    stream.advance_to(at + 2);
    Decoded::Done(value as u16)
}

/// Reads a 32-bit integer, low byte first.
pub fn read_u32_le(stream: &mut ByteStream) -> (r: Decoded<u32>)
    ensures
        delivers(
            u32_le(old(stream).bytes(), old(stream).cursor()),
            *old(stream),
            *final(stream),
            r,
        ),
{
    let at = stream.position();
    if stream.available() < 4 {
        return Decoded::Suspend;
    }
    let value = le_at(stream, at, 4);
    proof {
        lemma_le_value_bound(stream.bytes(), at as int, 4);
        lemma_radix_pow_values();
    }
    stream.advance_to(at + 4);
    Decoded::Done(value as u32)
}

/// Reads a 64-bit integer, low byte first.
pub fn read_u64_le(stream: &mut ByteStream) -> (r: Decoded<u64>)
    ensures
        delivers(
            u64_le(old(stream).bytes(), old(stream).cursor()),
            *old(stream),
            *final(stream),
            r,
        ),
{
    let at = stream.position();
    if stream.available() < 8 {
        return Decoded::Suspend;
    }
    let value = le_at(stream, at, 8);
    stream.advance_to(at + 8);
    Decoded::Done(value)
}

/// Reads `N` bytes as they are.
pub fn read_array<const N: usize>(stream: &mut ByteStream) -> (r: Decoded<[u8; N]>)
    ensures
        delivers(
            fixed_bytes(old(stream).bytes(), old(stream).cursor(), N as int),
            *old(stream),
            *final(stream),
            r,
        ),
{
    let at = stream.position();
    if stream.available() < N {
        return Decoded::Suspend;
    }
    let mut out = [0u8; N];
    let mut i: usize = 0;
    while i < N
        invariant
            i <= N,
            at + N <= stream.bytes().len() <= usize::MAX,
            at == stream.cursor(),
            forall|j: int| 0 <= j < i ==> out@[j] == stream.bytes()[at + j],
        decreases N - i,
    {
        out[i] = stream.byte_at(at + i);
        i = i + 1;
    }
    assert(out@ =~= stream.bytes().subrange(at as int, at + N));
    stream.advance_to(at + N);
    Decoded::Done(out)
}

/// Passes over `n` bytes.
pub fn skip_bytes(stream: &mut ByteStream, n: usize) -> (r: Decoded<()>)
    ensures
        delivers(
            skipped(old(stream).bytes(), old(stream).cursor(), n as int),
            *old(stream),
            *final(stream),
            r,
        ),
{
    let at = stream.position();
    if stream.available() < n {
        return Decoded::Suspend;
    }
    stream.advance_to(at + n);
    Decoded::Done(())
}

/// Reads one byte that is 0 or 1.
pub fn read_bool(stream: &mut ByteStream) -> (r: Decoded<bool>)
    ensures
        delivers(
            boolean(old(stream).bytes(), old(stream).cursor()),
            *old(stream),
            *final(stream),
            r,
        ),
{
    let at = stream.position();
    if stream.available() < 1 {
        return Decoded::Suspend;
    }
    let b = stream.byte_at(at);
    if b == 0 {
        stream.advance_to(at + 1);
        Decoded::Done(false)
    } else if b == 1 {
        stream.advance_to(at + 1);
        Decoded::Done(true)
    } else {
        Decoded::Reject(Rejection::Malformed)
    }
}

} // verus!
