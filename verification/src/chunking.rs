//! How the rules behave when the bytes arrive in chunks: an outcome that is
//! no longer waiting is final, whatever arrives later, and a rule that
//! finishes would have waited on every shorter input.

use crate::bounded::AmountEntry;
use crate::decode::{
    boolean, fixed_bytes, has_bytes, le_value, lemma_varint_bounds, skipped, u16_le, u32_le,
    u64_le, uleb128, varint,
};
use crate::interface::ParseChecks;
use crate::outcome::{extends, Outcome};
use crate::schema::{
    argument, argument_list, arguments, call_arg, command, object_arg, object_ref, pure_arg,
    shared_object,
};
use crate::swap::params::TxParamsView;
use crate::transaction::{
    checked_programmable, expiration, gas_budget, gas_data, intent, payment, signed_payload,
    transaction, transaction_data, transaction_data_v1, transaction_kind,
};
use crate::validator::{command_section, commands, input_section, inputs, programmable};
use vstd::prelude::*;

verus! {

/// `before` is the outcome of a rule at `pos` on `len` bytes, `after` its
/// outcome once more bytes have arrived: a finished rule stayed inside the
/// bytes it had, and a settled outcome did not change.
pub open spec fn stable<T>(before: Outcome<T>, after: Outcome<T>, pos: int, len: nat) -> bool {
    extends(before, after) && before.within(pos, len as int)
}

/// A rule that finishes on the whole input was still waiting on every input
/// that ends before the rule does.
pub proof fn lemma_short_input_suspends<T>(short: Outcome<T>, full: Outcome<T>, pos: int, len: nat)
    requires
        stable(short, full, pos, len),
        full matches Outcome::Done { next, .. } && len < next,
    ensures
        short is Suspend,
{
}

proof fn lemma_le_value_stable(s: Seq<u8>, t: Seq<u8>, pos: int, n: nat)
    requires
        has_bytes(s, pos, n as int),
    ensures
        le_value(s + t, pos, n) == le_value(s, pos, n),
    decreases n,
{
    if n > 0 {
        lemma_le_value_stable(s, t, pos + 1, (n - 1) as nat);
    }
}

proof fn lemma_varint_stable(s: Seq<u8>, t: Seq<u8>, pos: int, budget: nat)
    requires
        budget <= 5,
    ensures
        stable(varint(s, pos, budget), varint(s + t, pos, budget), pos, s.len()),
    decreases budget,
{
    lemma_varint_bounds(s, pos, budget);
    if budget > 0 && 0 <= pos < s.len() && s[pos] >= 128 {
        lemma_varint_stable(s, t, pos + 1, (budget - 1) as nat);
    }
}

/// The varint rule is stable under more bytes.
pub proof fn lemma_uleb128_stable(s: Seq<u8>, t: Seq<u8>, pos: int)
    ensures
        stable(uleb128(s, pos), uleb128(s + t, pos), pos, s.len()),
{
    lemma_varint_stable(s, t, pos, 5);
}

/// The rules for little-endian integers are stable under more bytes.
pub proof fn lemma_integers_stable(s: Seq<u8>, t: Seq<u8>, pos: int)
    ensures
        stable(u16_le(s, pos), u16_le(s + t, pos), pos, s.len()),
        stable(u32_le(s, pos), u32_le(s + t, pos), pos, s.len()),
        stable(u64_le(s, pos), u64_le(s + t, pos), pos, s.len()),
{
    if has_bytes(s, pos, 2) {
        lemma_le_value_stable(s, t, pos, 2);
    }
    if has_bytes(s, pos, 4) {
        lemma_le_value_stable(s, t, pos, 4);
    }
    if has_bytes(s, pos, 8) {
        lemma_le_value_stable(s, t, pos, 8);
    }
}

/// The rules for byte arrays, passed-over bytes and booleans are stable
/// under more bytes.
pub proof fn lemma_bytes_stable(s: Seq<u8>, t: Seq<u8>, pos: int, n: int)
    ensures
        stable(fixed_bytes(s, pos, n), fixed_bytes(s + t, pos, n), pos, s.len()),
        stable(skipped(s, pos, n), skipped(s + t, pos, n), pos, s.len()),
        stable(boolean(s, pos), boolean(s + t, pos), pos, s.len()),
{
    if has_bytes(s, pos, n) {
        assert((s + t).subrange(pos, pos + n) =~= s.subrange(pos, pos + n));
    }
}

/// The rules for objects are stable under more bytes.
pub proof fn lemma_objects_stable(s: Seq<u8>, t: Seq<u8>, pos: int)
    ensures
        stable(object_ref(s, pos), object_ref(s + t, pos), pos, s.len()),
        stable(shared_object(s, pos), shared_object(s + t, pos), pos, s.len()),
{
    lemma_bytes_stable(s, t, pos, 73);
    lemma_bytes_stable(s, t, pos, 40);
    lemma_bytes_stable(s, t, pos + 40, 1);
}

proof fn lemma_pure_arg_stable(s: Seq<u8>, t: Seq<u8>, pos: int)
    ensures
        stable(pure_arg(s, pos), pure_arg(s + t, pos), pos, s.len()),
{
    lemma_uleb128_stable(s, t, pos);
    if let Outcome::Done { value: length, next } = uleb128(s, pos) {
        lemma_integers_stable(s, t, next);
        lemma_bytes_stable(s, t, next, 32);
        lemma_bytes_stable(s, t, next, length as int);
    }
}

proof fn lemma_object_arg_stable(s: Seq<u8>, t: Seq<u8>, pos: int)
    ensures
        stable(object_arg(s, pos), object_arg(s + t, pos), pos, s.len()),
{
    lemma_uleb128_stable(s, t, pos);
    if let Outcome::Done { next, .. } = uleb128(s, pos) {
        lemma_objects_stable(s, t, next);
    }
}

/// The rule for an input is stable under more bytes.
pub proof fn lemma_call_arg_stable(s: Seq<u8>, t: Seq<u8>, pos: int)
    ensures
        stable(call_arg(s, pos), call_arg(s + t, pos), pos, s.len()),
{
    lemma_uleb128_stable(s, t, pos);
    if let Outcome::Done { next, .. } = uleb128(s, pos) {
        lemma_pure_arg_stable(s, t, next);
        lemma_object_arg_stable(s, t, next);
    }
}

/// The rule for a command argument is stable under more bytes.
pub proof fn lemma_argument_stable(s: Seq<u8>, t: Seq<u8>, pos: int)
    ensures
        stable(argument(s, pos), argument(s + t, pos), pos, s.len()),
{
    lemma_uleb128_stable(s, t, pos);
    if let Outcome::Done { next, .. } = uleb128(s, pos) {
        lemma_integers_stable(s, t, next);
        if let Outcome::Done { next, .. } = u16_le(s, next) {
            lemma_integers_stable(s, t, next);
        }
    }
}

proof fn lemma_arguments_stable(s: Seq<u8>, t: Seq<u8>, pos: int, count: nat)
    requires
        0 <= pos <= s.len(),
    ensures
        stable(arguments(s, pos, count), arguments(s + t, pos, count), pos, s.len()),
    decreases count,
{
    if count > 0 {
        lemma_arguments_stable(s, t, pos, (count - 1) as nat);
        if let Outcome::Done { next, .. } = arguments(s, pos, (count - 1) as nat) {
            lemma_argument_stable(s, t, next);
        }
    }
}

proof fn lemma_argument_list_stable(s: Seq<u8>, t: Seq<u8>, pos: int, bound: nat)
    ensures
        stable(argument_list(s, pos, bound), argument_list(s + t, pos, bound), pos, s.len()),
{
    lemma_uleb128_stable(s, t, pos);
    if let Outcome::Done { value: length, next } = uleb128(s, pos) {
        lemma_arguments_stable(s, t, next, length as nat);
    }
}

/// The rule for a command is stable under more bytes.
pub proof fn lemma_command_stable(s: Seq<u8>, t: Seq<u8>, pos: int)
    ensures
        stable(command(s, pos), command(s + t, pos), pos, s.len()),
{
    lemma_uleb128_stable(s, t, pos);
    if let Outcome::Done { next, .. } = uleb128(s, pos) {
        lemma_argument_list_stable(s, t, next, 1);
        if let Outcome::Done { next, .. } = argument_list(s, next, 1) {
            lemma_argument_stable(s, t, next);
        }
        lemma_argument_stable(s, t, next);
        if let Outcome::Done { next, .. } = argument(s, next) {
            lemma_argument_list_stable(s, t, next, 8);
        }
    }
}

/// The inputs gathered so far are stable under more bytes.
pub proof fn lemma_inputs_stable(s: Seq<u8>, t: Seq<u8>, pos: int, count: nat)
    requires
        0 <= pos <= s.len(),
    ensures
        stable(inputs(s, pos, count), inputs(s + t, pos, count), pos, s.len()),
    decreases count,
{
    if count > 0 {
        lemma_inputs_stable(s, t, pos, (count - 1) as nat);
        if let Outcome::Done { next, .. } = inputs(s, pos, (count - 1) as nat) {
            lemma_call_arg_stable(s, t, next);
        }
    }
}

/// The commands applied so far are stable under more bytes.
pub proof fn lemma_commands_stable(
    s: Seq<u8>,
    t: Seq<u8>,
    pos: int,
    count: nat,
    recipient_index: u32,
    amounts: Seq<AmountEntry>,
)
    requires
        0 <= pos <= s.len(),
    ensures
        stable(
            commands(s, pos, count, recipient_index, amounts),
            commands(s + t, pos, count, recipient_index, amounts),
            pos,
            s.len(),
        ),
    decreases count,
{
    if count > 0 {
        lemma_commands_stable(s, t, pos, (count - 1) as nat, recipient_index, amounts);
        if let Outcome::Done { next, .. } = commands(
            s,
            pos,
            (count - 1) as nat,
            recipient_index,
            amounts,
        ) {
            lemma_command_stable(s, t, next);
        }
    }
}

/// The rule for the inputs behind their count is stable under more bytes.
pub proof fn lemma_input_section_stable(s: Seq<u8>, t: Seq<u8>, pos: int)
    ensures
        stable(input_section(s, pos), input_section(s + t, pos), pos, s.len()),
{
    lemma_uleb128_stable(s, t, pos);
    if let Outcome::Done { value: count, next } = uleb128(s, pos) {
        lemma_inputs_stable(s, t, next, count as nat);
    }
}

/// The validator under checks is stable under more bytes.
pub proof fn lemma_checked_programmable_stable(
    s: Seq<u8>,
    t: Seq<u8>,
    pos: int,
    checks: ParseChecks,
    expected: TxParamsView,
)
    ensures
        stable(
            checked_programmable(s, pos, checks, expected),
            checked_programmable(s + t, pos, checks, expected),
            pos,
            s.len(),
        ),
{
    lemma_programmable_stable(s, t, pos);
}

/// The validator is stable under more bytes.
pub proof fn lemma_programmable_stable(s: Seq<u8>, t: Seq<u8>, pos: int)
    ensures
        stable(programmable(s, pos), programmable(s + t, pos), pos, s.len()),
{
    lemma_input_section_stable(s, t, pos);
    if let Outcome::Done { value: g, next } = input_section(s, pos) {
        let index = g.recipient.unwrap().1;
        lemma_uleb128_stable(s, t, next);
        if let Outcome::Done { value: count, next } = uleb128(s, next) {
            lemma_commands_stable(s, t, next, count as nat, index, g.amounts);
        }
        assert(stable(
            command_section(s, next, index, g.amounts),
            command_section(s + t, next, index, g.amounts),
            next,
            s.len(),
        ));
    }
}

/// The rule for the gas data is stable under more bytes.
pub proof fn lemma_gas_data_stable(
    s: Seq<u8>,
    t: Seq<u8>,
    pos: int,
    checks: ParseChecks,
    expected: TxParamsView,
)
    ensures
        stable(
            gas_data(s, pos, checks, expected),
            gas_data(s + t, pos, checks, expected),
            pos,
            s.len(),
        ),
{
    lemma_uleb128_stable(s, t, pos);
    if let Outcome::Done { value: count, next } = uleb128(s, pos) {
        lemma_bytes_stable(s, t, next, 73 * count);
    }
    assert(stable(payment(s, pos), payment(s + t, pos), pos, s.len()));
    if let Outcome::Done { next, .. } = payment(s, pos) {
        lemma_bytes_stable(s, t, next, 32);
        lemma_integers_stable(s, t, next + 32);
        lemma_integers_stable(s, t, next + 40);
        assert(stable(
            gas_budget(s, next + 40, checks, expected),
            gas_budget(s + t, next + 40, checks, expected),
            next + 40,
            s.len(),
        ));
    }
}

/// The rule for the expiration is stable under more bytes.
pub proof fn lemma_expiration_stable(s: Seq<u8>, t: Seq<u8>, pos: int)
    ensures
        stable(expiration(s, pos), expiration(s + t, pos), pos, s.len()),
{
    lemma_uleb128_stable(s, t, pos);
    if let Outcome::Done { next, .. } = uleb128(s, pos) {
        lemma_integers_stable(s, t, next);
    }
}

/// The rule for the intent is stable under more bytes.
pub proof fn lemma_intent_stable(s: Seq<u8>, t: Seq<u8>, pos: int)
    ensures
        stable(intent(s, pos), intent(s + t, pos), pos, s.len()),
{
    lemma_uleb128_stable(s, t, pos);
    if let Outcome::Done { next, .. } = uleb128(s, pos) {
        lemma_uleb128_stable(s, t, next);
        if let Outcome::Done { next, .. } = uleb128(s, next) {
            lemma_uleb128_stable(s, t, next);
        }
    }
}

proof fn lemma_transaction_data_stable(
    s: Seq<u8>,
    t: Seq<u8>,
    pos: int,
    checks: ParseChecks,
    expected: TxParamsView,
)
    ensures
        stable(
            transaction_data(s, pos, checks, expected),
            transaction_data(s + t, pos, checks, expected),
            pos,
            s.len(),
        ),
{
    lemma_uleb128_stable(s, t, pos);
    if let Outcome::Done { next: at_kind, .. } = uleb128(s, pos) {
        lemma_uleb128_stable(s, t, at_kind);
        if let Outcome::Done { next: at_transfer, .. } = uleb128(s, at_kind) {
            lemma_programmable_stable(s, t, at_transfer);
            assert(stable(
                checked_programmable(s, at_transfer, checks, expected),
                checked_programmable(s + t, at_transfer, checks, expected),
                at_transfer,
                s.len(),
            ));
        }
        assert(stable(
            transaction_kind(s, at_kind, checks, expected),
            transaction_kind(s + t, at_kind, checks, expected),
            at_kind,
            s.len(),
        ));
        if let Outcome::Done { next: at_sender, .. } = transaction_kind(
            s,
            at_kind,
            checks,
            expected,
        ) {
            lemma_bytes_stable(s, t, at_sender, 32);
            lemma_gas_data_stable(s, t, at_sender + 32, checks, expected);
            if let Outcome::Done { next: at_expiration, .. } = gas_data(
                s,
                at_sender + 32,
                checks,
                expected,
            ) {
                lemma_expiration_stable(s, t, at_expiration);
            }
        }
        assert(stable(
            transaction_data_v1(s, at_kind, checks, expected),
            transaction_data_v1(s + t, at_kind, checks, expected),
            at_kind,
            s.len(),
        ));
    }
}

/// The outcome of a transaction does not depend on where the bytes were
/// cut into chunks. Once the rule has finished or rejected on the bytes
/// received so far, it yields the same on every longer input; and when it
/// finishes, it has read no further than the bytes it had.
pub proof fn lemma_transaction_stable(
    s: Seq<u8>,
    t: Seq<u8>,
    pos: int,
    checks: ParseChecks,
    expected: TxParamsView,
)
    ensures
        stable(
            transaction(s, pos, checks, expected),
            transaction(s + t, pos, checks, expected),
            pos,
            s.len(),
        ),
{
    lemma_intent_stable(s, t, pos);
    if let Outcome::Done { next, .. } = intent(s, pos) {
        lemma_transaction_data_stable(s, t, next, checks, expected);
    }
}

/// The outcome of a signing request's payload does not depend on where
/// its bytes were cut into chunks.
pub proof fn lemma_signed_payload_stable(
    s: Seq<u8>,
    t: Seq<u8>,
    pos: int,
    checks: ParseChecks,
    expected: TxParamsView,
)
    ensures
        stable(
            signed_payload(s, pos, checks, expected),
            signed_payload(s + t, pos, checks, expected),
            pos,
            s.len(),
        ),
{
    lemma_integers_stable(s, t, pos);
    if let Outcome::Done { next, .. } = u32_le(s, pos) {
        lemma_transaction_stable(s, t, next, checks, expected);
    }
}

/// A transaction that finishes on the whole input suspends on every prefix
/// that ends before the transaction does: a short input is never rejected
/// for being short.
pub proof fn lemma_transaction_suspends_on_prefix(
    s: Seq<u8>,
    k: int,
    pos: int,
    checks: ParseChecks,
    expected: TxParamsView,
)
    requires
        0 <= k <= s.len(),
        transaction(s, pos, checks, expected) matches Outcome::Done { next, .. } && k < next,
    ensures
        transaction(s.take(k), pos, checks, expected) is Suspend,
{
    assert(s.take(k) + s.skip(k) =~= s);
    lemma_transaction_stable(s.take(k), s.skip(k), pos, checks, expected);
}

/// A varint that finishes on the whole input suspends on every prefix that
/// ends before the varint does.
pub proof fn lemma_uleb128_suspends_on_prefix(s: Seq<u8>, k: int, pos: int)
    requires
        0 <= k <= s.len(),
        uleb128(s, pos) matches Outcome::Done { next, .. } && k < next,
    ensures
        uleb128(s.take(k), pos) is Suspend,
{
    assert(s.take(k) + s.skip(k) =~= s);
    lemma_uleb128_stable(s.take(k), s.skip(k), pos);
}

} // verus!
