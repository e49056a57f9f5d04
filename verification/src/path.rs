//! Derivation paths: the rule that reads one, and the prefix that every
//! path of this application must have.

use crate::bounded::{path_as_slice, path_items, path_new, path_try_push, PathSegments};
use crate::decode::{has_bytes, read_u32_le, u32_le};
use crate::outcome::{failure, Decoded, Outcome, Rejection};
use crate::stream::{delivers, give_up, ByteStream};
use vstd::prelude::*;

verus! {

/// The most segments that a derivation path may have.
pub const MAX_BIP32_PATH_SEGMENTS: usize = 10;

/// The path `m/44'/784'/123'/0'/0'`, whose first two segments every path
/// of this application must share.
pub const BIP32_PREFIX: [u32; 5] = [0x8000002C, 0x80000310, 0x8000007B, 0x80000000, 0x80000000];

/// A derivation path: at most ten segments.
#[derive(Debug, PartialEq, Eq)]
pub struct Bip32Path {
    segments: PathSegments,
}

impl View for Bip32Path {
    type V = Seq<u32>;

    closed spec fn view(&self) -> Seq<u32> {
        path_items(self.segments)
    }
}

impl Bip32Path {
    /// The path of these segments, if they are at most ten.
    pub fn from_segments(segments: &[u32]) -> (r: Option<Self>)
        ensures
            match r {
                Some(path) => path@ == segments@,
                None => segments@.len() > MAX_BIP32_PATH_SEGMENTS,
            },
    {
        if segments.len() > MAX_BIP32_PATH_SEGMENTS {
            return None;
        }
        let mut path: PathSegments = path_new();
        let mut i: usize = 0;
        while i < segments.len()
            invariant
                i <= segments@.len() <= MAX_BIP32_PATH_SEGMENTS,
                path_items(path) == segments@.take(i as int),
            decreases segments@.len() - i,
        {
            let _ = path_try_push(&mut path, segments[i]);
            assert(segments@.take(i as int).push(segments@[i as int]) =~= segments@.take(i + 1));
            i = i + 1;
        }
        assert(segments@.take(segments@.len() as int) =~= segments@);
        Some(Bip32Path { segments: path })
    }

    /// The segments of the path.
    pub fn as_slice(&self) -> (segments: &[u32])
        ensures
            segments@ == self@,
    {
        path_as_slice(&self.segments)
    }

    /// The segments of the path, in the collection that holds them.
    pub fn segments(&self) -> (segments: &PathSegments)
        ensures
            path_items(*segments) == self@,
    {
        &self.segments
    }
}

/// `count` path segments in a row, each 32 bits with the low byte first.
pub open spec fn segments(s: Seq<u8>, pos: int, count: nat) -> Outcome<Seq<u32>>
    decreases count,
{
    if count == 0 {
        Outcome::Done { value: Seq::<u32>::empty(), next: pos }
    } else {
        match segments(s, pos, (count - 1) as nat) {
            Outcome::Done { value: items, next } => match u32_le(s, next) {
                Outcome::Done { value, next } => Outcome::Done { value: items.push(value), next },
                other => failure(other),
            },
            other => other,
        }
    }
}

/// A derivation path: one byte that counts the segments, at most ten, and
/// the segments.
pub open spec fn bip32_path(s: Seq<u8>, pos: int) -> Outcome<Seq<u32>> {
    if !has_bytes(s, pos, 1) {
        Outcome::Suspend
    } else if s[pos] > MAX_BIP32_PATH_SEGMENTS {
        Outcome::Reject { why: Rejection::Malformed }
    } else {
        segments(s, pos + 1, s[pos] as nat)
    }
}

/// The path begins with the purpose and the coin type of this application.
pub open spec fn has_prefix(path: Seq<u32>) -> bool {
    path.len() >= 2 && path[0] == BIP32_PREFIX[0] && path[1] == BIP32_PREFIX[1]
}

/// Segments that failed early fail the same way however many are asked
/// for.
pub proof fn lemma_segments_failure_stays(s: Seq<u8>, pos: int, fewer: nat, count: nat)
    requires
        fewer <= count,
        !(segments(s, pos, fewer) is Done),
    ensures
        segments(s, pos, count) == segments(s, pos, fewer),
    decreases count,
{
    if fewer < count {
        lemma_segments_failure_stays(s, pos, fewer, (count - 1) as nat);
    }
}

/// A path that was read has as many segments as its first byte says, and
/// no more than ten.
pub proof fn lemma_segments_len(s: Seq<u8>, pos: int, count: nat)
    ensures
        segments(s, pos, count) matches Outcome::Done { value, .. } ==> value.len() == count,
    decreases count,
{
    if count > 0 {
        lemma_segments_len(s, pos, (count - 1) as nat);
    }
}

/// Reads a derivation path.
pub fn parse_bip32_path(stream: &mut ByteStream) -> (r: Decoded<Bip32Path>)
    ensures
        delivers(
            bip32_path(old(stream).bytes(), old(stream).cursor()),
            *old(stream),
            *final(stream),
            r,
        ),
        r matches Decoded::Done(path) ==> path@.len() <= MAX_BIP32_PATH_SEGMENTS,
{
    let start = stream.position();
    if stream.available() < 1 {
        return Decoded::Suspend;
    }
    let count = stream.byte_at(start);
    if count as usize > MAX_BIP32_PATH_SEGMENTS {
        return Decoded::Reject(Rejection::Malformed);
    }
    stream.advance_to(start + 1);
    let mut path: PathSegments = path_new();
    let mut i: u8 = 0;
    while i < count
        invariant
            i <= count <= MAX_BIP32_PATH_SEGMENTS,
            stream.bytes() == old(stream).bytes(),
            start == old(stream).cursor(),
            start + 1 <= stream.cursor(),
            has_bytes(stream.bytes(), start as int, 1),
            stream.bytes()[start as int] == count,
            path_items(path).len() == i,
            segments(stream.bytes(), start + 1, i as nat) == (Outcome::Done {
                value: path_items(path),
                next: stream.cursor(),
            }),
        decreases count - i,
    {
        match read_u32_le(stream) {
            Decoded::Done(segment) => {
                let _ = path_try_push(&mut path, segment);
            },
            other => {
                proof {
                    lemma_segments_failure_stays(
                        stream.bytes(),
                        start + 1,
                        (i + 1) as nat,
                        count as nat,
                    );
                }
                return give_up(stream, start, other);
            },
        }
        i = i + 1;
    }
    Decoded::Done(Bip32Path { segments: path })
}

/// The number of bytes that follow the count of a derivation path: four
/// for each segment, and none that could be told for a count that the rule
/// rejects.
pub open spec fn bytes_behind_count(count: u8) -> Option<usize> {
    if count <= MAX_BIP32_PATH_SEGMENTS {
        Some((4 * count) as usize)
    } else {
        None
    }
}

/// The number of bytes to read behind the count of a derivation path, so
/// that the path is whole; nothing for a count of more than ten, which
/// the rule rejects on the count alone.
pub fn path_bytes_behind(count: u8) -> (n: Option<usize>)
    ensures
        n == bytes_behind_count(count),
        n is None ==> forall|tail: Seq<u8>|
            bip32_path(#[trigger] (seq![count] + tail), 0) == (Outcome::<Seq<u32>>::Reject {
                why: Rejection::Malformed,
            }),
{
    if count as usize <= MAX_BIP32_PATH_SEGMENTS {
        Some(4 * (count as usize))
    } else {
        None
    }
}

/// Whether the path begins with the purpose and the coin type of this
/// application.
pub fn path_has_prefix(path: &[u32]) -> (ok: bool)
    ensures
        ok == has_prefix(path@),
{
    path.len() >= 2 && path[0] == BIP32_PREFIX[0] && path[1] == BIP32_PREFIX[1]
}

} // verus!
