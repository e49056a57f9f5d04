//! What a decoding rule can yield.

use vstd::prelude::*;

verus! {

/// Why a rule refused its input.
#[derive(Clone, Copy, Debug, PartialEq, Eq, Structural)]
pub enum Rejection {
    /// The bytes break the schema's encoding: a varint that is too wide or
    /// not minimal, a sequence longer than its bound, a byte that is no
    /// boolean.
    Malformed,
    /// The bytes are well-formed but lie outside the one transaction shape
    /// that is recognised.
    Unsupported,
    /// The amounts add up to more than 64 bits hold.
    AmountOverflow,
    /// The transaction disagrees with the parameters that the caller expects.
    ParamMismatch,
}

/// The result of a rule on a byte sequence, read from a position: the
/// mathematical side of every decoder in this crate.
pub enum Outcome<T> {
    /// The rule produced `value`; the next unread byte is at `next`.
    Done { value: T, next: int },
    /// The bytes end before the rule is decided.
    Suspend,
    /// The rule refuses the bytes.
    Reject { why: Rejection },
}

/// The result of a rule on a stream.
#[derive(Debug, PartialEq, Eq)]
pub enum Decoded<T> {
    /// The rule produced a value and the cursor moved past what it read.
    Done(T),
    /// More bytes are needed; the cursor did not move.
    Suspend,
    /// The rule refuses the bytes; the cursor did not move.
    Reject(Rejection),
}

impl<T> Outcome<T> {
    /// The outcome is final: more bytes cannot change it.
    pub open spec fn settled(self) -> bool {
        !(self is Suspend)
    }

    /// A finished rule read forward from `pos` and stayed inside `len` bytes.
    pub open spec fn within(self, pos: int, len: int) -> bool {
        self matches Outcome::Done { next, .. } ==> pos <= next <= len
    }
}

/// `later` is what `earlier` may become once more bytes have arrived: the
/// same outcome, unless `earlier` was still waiting.
pub open spec fn extends<T>(earlier: Outcome<T>, later: Outcome<T>) -> bool {
    earlier.settled() ==> later == earlier
}

/// `got` is the result that stands for `outcome`: the same verdict, and the
/// value whose mathematical value the outcome names.
pub open spec fn answers<T: View>(outcome: Outcome<T::V>, got: Decoded<T>) -> bool {
    match outcome {
        Outcome::Done { value, .. } => got matches Decoded::Done(v) && v@ == value,
        Outcome::Suspend => got is Suspend,
        Outcome::Reject { why } => got == Decoded::<T>::Reject(why),
    }
}

/// Carries a failure over to another value type.
pub open spec fn failure<T, U>(o: Outcome<T>) -> Outcome<U>
    recommends
        !(o is Done),
{
    match o {
        Outcome::Reject { why } => Outcome::Reject { why },
        _ => Outcome::Suspend,
    }
}

} // verus!
