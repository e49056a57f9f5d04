//! The encoders that mirror the primitive decoding rules, and the proofs
//! that encoding and decoding undo each other.

use crate::decode::{
    fixed_bytes, has_bytes, le_bytes, le_value, lemma_le_value_bound, lemma_radix_pow_values,
    radix_pow, u16_le, u64_le, uleb128, uleb128_bytes, varint,
};
use crate::outcome::Outcome;
use vstd::prelude::*;

verus! {

/// `enc` is what `s` holds from `pos` on.
pub open spec fn holds_at(s: Seq<u8>, pos: int, enc: Seq<u8>) -> bool {
    has_bytes(s, pos, enc.len() as int) && s.subrange(pos, pos + enc.len()) == enc
}

/// The canonical bytes of a number are between one and five long below
/// 2^35, and longer only for larger numbers.
pub proof fn lemma_uleb128_bytes_len(v: nat)
    ensures
        uleb128_bytes(v).len() >= 1,
        v < 0x80 ==> uleb128_bytes(v).len() == 1,
        0x80 <= v < 0x4000 ==> uleb128_bytes(v).len() == 2,
        0x4000 <= v < 0x20_0000 ==> uleb128_bytes(v).len() == 3,
        0x20_0000 <= v < 0x1000_0000 ==> uleb128_bytes(v).len() == 4,
        0x1000_0000 <= v < 0x8_0000_0000 ==> uleb128_bytes(v).len() == 5,
    decreases v,
{
    if v >= 128 {
        lemma_uleb128_bytes_len(v / 128);
    }
}

proof fn lemma_varint_reads_bytes(s: Seq<u8>, pos: int, v: nat, budget: nat)
    requires
        holds_at(s, pos, uleb128_bytes(v)),
        uleb128_bytes(v).len() <= budget,
    ensures
        varint(s, pos, budget) == (Outcome::Done {
            value: v,
            next: pos + uleb128_bytes(v).len(),
        }),
    decreases v,
{
    let enc = uleb128_bytes(v);
    lemma_uleb128_bytes_len(v);
    assert(s[pos] == s.subrange(pos, pos + enc.len())[0]);
    if v >= 128 {
        let rest = uleb128_bytes(v / 128);
        lemma_uleb128_bytes_len(v / 128);
        assert(enc.len() == 1 + rest.len());
        assert(s.subrange(pos + 1, pos + 1 + rest.len()) =~= rest) by {
            assert forall|i: int| 0 <= i < rest.len() implies s.subrange(
                pos + 1,
                pos + 1 + rest.len(),
            )[i] == rest[i] by {
                assert(s.subrange(pos, pos + enc.len())[i + 1] == enc[i + 1]);
            }
        }
        lemma_varint_reads_bytes(s, pos + 1, v / 128, (budget - 1) as nat);
    }
}

/// Decoding undoes encoding: wherever the canonical bytes of a 32-bit number
/// stand, the varint rule reads that number and stops behind them.
pub proof fn lemma_uleb128_reads_its_bytes(s: Seq<u8>, pos: int, v: u32)
    requires
        holds_at(s, pos, uleb128_bytes(v as nat)),
    ensures
        uleb128(s, pos) == (Outcome::Done {
            value: v,
            next: pos + uleb128_bytes(v as nat).len(),
        }),
{
    lemma_uleb128_bytes_len(v as nat);
    lemma_varint_reads_bytes(s, pos, v as nat, 5);
}

proof fn lemma_varint_bytes_are_canonical(s: Seq<u8>, pos: int, budget: nat)
    ensures
        varint(s, pos, budget) matches Outcome::Done { value, next } ==> 0 <= pos < next
            <= s.len() && s.subrange(pos, next) == uleb128_bytes(value),
    decreases budget,
{
    if let Outcome::Done { value, next } = varint(s, pos, budget) {
        if s[pos] < 128 {
            assert(s.subrange(pos, next) =~= uleb128_bytes(value));
        } else {
            lemma_varint_bytes_are_canonical(s, pos + 1, (budget - 1) as nat);
            let inner = varint(s, pos + 1, (budget - 1) as nat);
            let rest = inner->value;
            assert(value == (s[pos] - 128) + 128 * rest);
            assert(value / 128 == rest && value % 128 == s[pos] - 128);
            assert(s.subrange(pos, next) =~= seq![s[pos]] + s.subrange(pos + 1, next));
        }
    }
}

/// Encoding undoes decoding: the bytes that the varint rule read are the
/// canonical bytes of the number it produced.
pub proof fn lemma_uleb128_read_canonical_bytes(s: Seq<u8>, pos: int)
    ensures
        uleb128(s, pos) matches Outcome::Done { value, next } ==> holds_at(
            s,
            pos,
            uleb128_bytes(value as nat),
        ) && next == pos + uleb128_bytes(value as nat).len(),
{
    lemma_varint_bytes_are_canonical(s, pos, 5);
}

/// Decoding undoes encoding for little-endian integers of any width:
/// wherever the `n` low bytes of a number below 256 to the power of `n`
/// stand, they stand for that number.
pub proof fn lemma_le_reads_its_bytes(s: Seq<u8>, pos: int, v: nat, n: nat)
    requires
        holds_at(s, pos, le_bytes(v, n)),
        v < radix_pow(n),
    ensures
        le_bytes(v, n).len() == n,
        le_value(s, pos, n) == v,
    decreases n,
{
    lemma_le_bytes_len(v, n);
    if n > 0 {
        let enc = le_bytes(v, n);
        let rest = le_bytes(v / 256, (n - 1) as nat);
        lemma_le_bytes_len(v / 256, (n - 1) as nat);
        assert(s[pos] == s.subrange(pos, pos + enc.len())[0]);
        assert(s.subrange(pos + 1, pos + 1 + rest.len()) =~= rest) by {
            assert forall|i: int| 0 <= i < rest.len() implies s.subrange(
                pos + 1,
                pos + 1 + rest.len(),
            )[i] == rest[i] by {
                assert(s.subrange(pos, pos + enc.len())[i + 1] == enc[i + 1]);
            }
        }
        lemma_le_reads_its_bytes(s, pos + 1, v / 256, (n - 1) as nat);
    }
}

/// A number has as many low bytes as are asked for.
pub proof fn lemma_le_bytes_len(v: nat, n: nat)
    ensures
        le_bytes(v, n).len() == n,
    decreases n,
{
    if n > 0 {
        lemma_le_bytes_len(v / 256, (n - 1) as nat);
    }
}

/// Encoding undoes decoding for little-endian integers of any width: `n`
/// bytes are the `n` low bytes of the number they stand for.
pub proof fn lemma_le_read_its_bytes(s: Seq<u8>, pos: int, n: nat)
    requires
        has_bytes(s, pos, n as int),
    ensures
        s.subrange(pos, pos + n) == le_bytes(le_value(s, pos, n), n),
    decreases n,
{
    if n > 0 {
        let v = le_value(s, pos, n);
        let rest = le_value(s, pos + 1, (n - 1) as nat);
        lemma_le_read_its_bytes(s, pos + 1, (n - 1) as nat);
        assert(v == s[pos] + 256 * rest);
        assert(v / 256 == rest && v % 256 == s[pos]);
        assert(s.subrange(pos, pos + n) =~= seq![s[pos]] + s.subrange(pos + 1, pos + n));
    } else {
        assert(s.subrange(pos, pos + n) =~= Seq::<u8>::empty());
    }
}

/// Decoding undoes encoding for 16-bit integers.
pub proof fn lemma_u16_le_reads_its_bytes(s: Seq<u8>, pos: int, v: u16)
    requires
        holds_at(s, pos, le_bytes(v as nat, 2)),
    ensures
        u16_le(s, pos) == (Outcome::Done { value: v, next: pos + 2 }),
{
    lemma_radix_pow_values();
    lemma_le_reads_its_bytes(s, pos, v as nat, 2);
}

/// Encoding undoes decoding for 16-bit integers.
pub proof fn lemma_u16_le_read_its_bytes(s: Seq<u8>, pos: int)
    ensures
        u16_le(s, pos) matches Outcome::Done { value, next } ==> next == pos + 2 && holds_at(
            s,
            pos,
            le_bytes(value as nat, 2),
        ),
{
    if has_bytes(s, pos, 2) {
        lemma_radix_pow_values();
        lemma_le_value_bound(s, pos, 2);
        lemma_le_read_its_bytes(s, pos, 2);
        lemma_le_bytes_len(le_value(s, pos, 2), 2);
    }
}

/// Decoding undoes encoding for 64-bit integers.
pub proof fn lemma_u64_le_reads_its_bytes(s: Seq<u8>, pos: int, v: u64)
    requires
        holds_at(s, pos, le_bytes(v as nat, 8)),
    ensures
        u64_le(s, pos) == (Outcome::Done { value: v, next: pos + 8 }),
{
    lemma_radix_pow_values();
    lemma_le_reads_its_bytes(s, pos, v as nat, 8);
}

/// Encoding undoes decoding for 64-bit integers.
pub proof fn lemma_u64_le_read_its_bytes(s: Seq<u8>, pos: int)
    ensures
        u64_le(s, pos) matches Outcome::Done { value, next } ==> next == pos + 8 && holds_at(
            s,
            pos,
            le_bytes(value as nat, 8),
        ),
{
    if has_bytes(s, pos, 8) {
        lemma_radix_pow_values();
        lemma_le_value_bound(s, pos, 8);
        lemma_le_read_its_bytes(s, pos, 8);
        lemma_le_bytes_len(le_value(s, pos, 8), 8);
    }
}

/// A byte array is its own encoding: the rule for `n` bytes reads back what
/// stands there, and what it read is what stands there.
pub proof fn lemma_fixed_bytes_round_trip(s: Seq<u8>, pos: int, enc: Seq<u8>)
    ensures
        holds_at(s, pos, enc) ==> fixed_bytes(s, pos, enc.len() as int) == (Outcome::Done {
            value: enc,
            next: pos + enc.len(),
        }),
        fixed_bytes(s, pos, enc.len() as int) == (Outcome::Done {
            value: enc,
            next: pos + enc.len(),
        }) ==> holds_at(s, pos, enc),
{
}

/// Writes a 32-bit number as its canonical LEB128 bytes.
pub fn encode_uleb128(v: u32) -> (out: Vec<u8>)
    ensures
        out@ == uleb128_bytes(v as nat),
{
    let mut out: Vec<u8> = Vec::new();
    let mut rest: u32 = v;
    while rest >= 128
        invariant
            uleb128_bytes(v as nat) == out@ + uleb128_bytes(rest as nat),
        decreases rest,
    {
        out.push((rest % 128 + 128) as u8);
        assert(out@ + uleb128_bytes((rest / 128) as nat) =~= out@.drop_last() + (seq![
            (rest % 128 + 128) as u8,
        ] + uleb128_bytes((rest / 128) as nat)));
        rest = rest / 128;
    }
    out.push(rest as u8);
    assert(out@ =~= out@.drop_last() + uleb128_bytes(rest as nat));
    out
}

/// Writes the `N` low bytes of a number, low byte first.
fn le_array<const N: usize>(v: u64) -> (out: [u8; N])
    ensures
        out@ == le_bytes(v as nat, N as nat),
{
    let mut out = [0u8; N];
    let mut rest: u64 = v;
    let mut i: usize = 0;
    while i < N
        invariant
            i <= N,
            le_bytes(v as nat, N as nat) == out@.take(i as int) + le_bytes(
                rest as nat,
                (N - i) as nat,
            ),
        decreases N - i,
    {
        let ghost before = out@;
        out[i] = (rest % 256) as u8;
        assert(out@.take(i + 1) + le_bytes((rest / 256) as nat, (N - i - 1) as nat)
            =~= before.take(i as int) + (seq![(rest % 256) as u8] + le_bytes(
            (rest / 256) as nat,
            (N - i - 1) as nat,
        )));
        rest = rest / 256;
        i = i + 1;
    }
    assert(out@ =~= out@.take(N as int) + le_bytes(rest as nat, 0));
    out
}

/// Writes a 16-bit integer, low byte first.
pub fn encode_u16_le(v: u16) -> (out: [u8; 2])
    ensures
        out@ == le_bytes(v as nat, 2),
{
    le_array::<2>(v as u64)
}

/// Writes a 64-bit integer, low byte first.
pub fn encode_u64_le(v: u64) -> (out: [u8; 8])
    ensures
        out@ == le_bytes(v as nat, 8),
{
    le_array::<8>(v)
}

} // verus!
