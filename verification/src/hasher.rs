//! How the bytes of a transaction are streamed into the hash: in chunks of
//! a fixed size, then the rest byte by byte.

use vstd::prelude::*;

verus! {

/// The size of a full chunk.
pub const CHUNK_SIZE: usize = 128;

/// The number of full chunks and of single bytes that `length` bytes are
/// streamed in.
pub fn hash_plan(length: usize) -> (plan: (usize, usize))
    ensures
        plan.0 == length / CHUNK_SIZE,
        plan.1 == length % CHUNK_SIZE,
        plan.0 * CHUNK_SIZE + plan.1 == length,
{
    (length / CHUNK_SIZE, length % CHUNK_SIZE)
}

/// The number of pieces that `length` bytes are streamed in.
pub open spec fn piece_count(length: nat) -> nat {
    length / (CHUNK_SIZE as nat) + length % (CHUNK_SIZE as nat)
}

/// Where the piece with this index begins.
pub open spec fn piece_start(length: nat, index: nat) -> nat {
    let full = length / (CHUNK_SIZE as nat);
    if index <= full {
        index * CHUNK_SIZE as nat
    } else {
        (full * CHUNK_SIZE + (index - full)) as nat
    }
}

/// The pieces lie end to end and cover the bytes exactly: the first begins
/// at the first byte, each begins where the one before it ends, the last
/// ends at the last byte, and none is empty or longer than a full chunk.
pub proof fn lemma_pieces_tile(length: nat, index: nat)
    requires
        index < piece_count(length),
    ensures
        piece_start(length, 0) == 0,
        piece_start(length, piece_count(length)) == length,
        piece_start(length, index) < piece_start(length, index + 1) <= length,
        piece_start(length, index + 1) - piece_start(length, index) <= CHUNK_SIZE,
{
    let full = length / (CHUNK_SIZE as nat);
    assert(full * 128 + length % 128 == length);
    if index < full {
        assert(index * 128 + 128 == (index + 1) * 128) by (nonlinear_arith);
        assert((index + 1) * 128 <= full * 128) by (nonlinear_arith)
            requires
                index + 1 <= full,
        ;
    }
}

/// The bounds of the piece with this index: where it begins and where it
/// ends.
pub fn piece_bounds(length: usize, index: usize) -> (bounds: (usize, usize))
    requires
        index < piece_count(length as nat),
    ensures
        bounds.0 == piece_start(length as nat, index as nat),
        bounds.1 == piece_start(length as nat, (index + 1) as nat),
        bounds.0 < bounds.1 <= length,
{
    proof {
        lemma_pieces_tile(length as nat, index as nat);
    }
    let full = length / CHUNK_SIZE;
    if index < full {
        assert(index * 128 + 128 == (index + 1) * 128) by (nonlinear_arith);
        (index * CHUNK_SIZE, index * CHUNK_SIZE + CHUNK_SIZE)
    } else {
        let start = full * CHUNK_SIZE + (index - full);
        (start, start + 1)
    }
}

} // verus!
