//! What the validator recognises, stated over the inputs and commands of a
//! transaction rather than over its bytes.

use crate::bounded::AmountEntry;
use crate::decode::uleb128;
use crate::interface::ParseChecks;
use crate::outcome::{Outcome, Rejection};
use crate::schema::{call_args, command_list, Argument, CallArgView, CommandView};
use crate::swap::params::TxParamsView;
use crate::transaction::transaction;
use crate::resumable::{header, lemma_payload_is_assembled};
use crate::transaction::signed_payload;
use crate::validator::{
    add_upto, apply, apply_upto, commands, gather, gather_upto, inputs, programmable,
    split_upto, validate, Gathered, Tally, TransferView,
};
use vstd::prelude::*;

verus! {

/// A verdict on decoded values, placed at the position where their bytes
/// end.
pub open spec fn placed<T>(verdict: Result<T, Rejection>, next: int) -> Outcome<T> {
    match verdict {
        Ok(value) => Outcome::Done { value, next },
        Err(why) => Outcome::Reject { why },
    }
}

proof fn lemma_gather_reads_prefix(args: Seq<CallArgView>, more: Seq<CallArgView>, n: nat)
    requires
        n <= args.len(),
    ensures
        gather_upto(args + more, n) == gather_upto(args, n),
    decreases n,
{
    if n > 0 {
        lemma_gather_reads_prefix(args, more, (n - 1) as nat);
    }
}

proof fn lemma_apply_reads_prefix(
    recipient_index: u32,
    amounts: Seq<AmountEntry>,
    cmds: Seq<CommandView>,
    more: Seq<CommandView>,
    n: nat,
)
    requires
        n <= cmds.len(),
    ensures
        apply_upto(recipient_index, amounts, cmds + more, n) == apply_upto(
            recipient_index,
            amounts,
            cmds,
            n,
        ),
    decreases n,
{
    if n > 0 {
        lemma_apply_reads_prefix(recipient_index, amounts, cmds, more, (n - 1) as nat);
    }
}

proof fn lemma_inputs_gather(s: Seq<u8>, pos: int, count: nat)
    requires
        call_args(s, pos, count) is Done,
    ensures
        call_args(s, pos, count)->value.len() == count,
        inputs(s, pos, count) == placed(
            gather_upto(call_args(s, pos, count)->value, count),
            call_args(s, pos, count)->next,
        ),
    decreases count,
{
    if count > 0 {
        let shorter = call_args(s, pos, (count - 1) as nat);
        lemma_inputs_gather(s, pos, (count - 1) as nat);
        let args = call_args(s, pos, count)->value;
        assert(args == shorter->value + seq![args[count - 1]]) by {
            assert(args =~= shorter->value + seq![args[count - 1]]);
        }
        lemma_gather_reads_prefix(shorter->value, seq![args[count - 1]], (count - 1) as nat);
    }
}

proof fn lemma_commands_apply(
    s: Seq<u8>,
    pos: int,
    count: nat,
    recipient_index: u32,
    amounts: Seq<AmountEntry>,
)
    requires
        command_list(s, pos, count) is Done,
    ensures
        command_list(s, pos, count)->value.len() == count,
        commands(s, pos, count, recipient_index, amounts) == placed(
            apply_upto(recipient_index, amounts, command_list(s, pos, count)->value, count),
            command_list(s, pos, count)->next,
        ),
    decreases count,
{
    if count > 0 {
        let shorter = command_list(s, pos, (count - 1) as nat);
        lemma_commands_apply(s, pos, (count - 1) as nat, recipient_index, amounts);
        let cmds = command_list(s, pos, count)->value;
        assert(cmds == shorter->value + seq![cmds[count - 1]]) by {
            assert(cmds =~= shorter->value + seq![cmds[count - 1]]);
        }
        lemma_apply_reads_prefix(
            recipient_index,
            amounts,
            shorter->value,
            seq![cmds[count - 1]],
            (count - 1) as nat,
        );
    }
}

/// The inputs and the commands that the bytes of a programmable
/// transaction decode to, and where the commands end; meaningful where
/// all of them decode.
pub open spec fn decoded_lists(s: Seq<u8>, pos: int) -> (Seq<CallArgView>, Seq<CommandView>, int) {
    let inputs_end = call_args(s, uleb128(s, pos)->next, uleb128(s, pos)->value as nat);
    let count = uleb128(s, inputs_end->next);
    let commands_end = command_list(s, count->next, count->value as nat);
    (inputs_end->value, commands_end->value, commands_end->next)
}

/// All inputs and all commands of a programmable transaction decode.
pub open spec fn lists_decode(s: Seq<u8>, pos: int) -> bool {
    let inputs_end = call_args(s, uleb128(s, pos)->next, uleb128(s, pos)->value as nat);
    let count = uleb128(s, inputs_end->next);
    &&& uleb128(s, pos) is Done
    &&& inputs_end is Done
    &&& count is Done
    &&& command_list(s, count->next, count->value as nat) is Done
}

/// Where the bytes of a programmable transaction decode to a list of
/// inputs and a list of commands, the validator's outcome on the bytes is
/// its verdict on the two lists.
pub proof fn lemma_programmable_validates(s: Seq<u8>, pos: int)
    requires
        lists_decode(s, pos),
    ensures
        programmable(s, pos) == placed(
            validate(decoded_lists(s, pos).0, decoded_lists(s, pos).1),
            decoded_lists(s, pos).2,
        ),
{
    let input_count = uleb128(s, pos);
    let inputs_end = call_args(s, input_count->next, input_count->value as nat);
    lemma_inputs_gather(s, input_count->next, input_count->value as nat);
    let count = uleb128(s, inputs_end->next);
    if let Ok(g) = gather_upto(inputs_end->value, inputs_end->value.len()) {
        if g.recipient is Some {
            lemma_commands_apply(
                s,
                count->next,
                count->value as nat,
                g.recipient.unwrap().1,
                g.amounts,
            );
        }
    }
}

/// The amounts among the first `n` inputs, each with the index of its
/// input, in order.
pub open spec fn amount_entries(args: Seq<CallArgView>, n: nat) -> Seq<AmountEntry>
    decreases n,
{
    if n == 0 {
        Seq::<AmountEntry>::empty()
    } else {
        match args[n - 1] {
            CallArgView::Amount(value) => amount_entries(args, (n - 1) as nat).push(
                (value, (n - 1) as u32),
            ),
            _ => amount_entries(args, (n - 1) as nat),
        }
    }
}

/// The number of inputs among the first `n` that may be the recipient.
pub open spec fn recipient_count(args: Seq<CallArgView>, n: nat) -> nat
    decreases n,
{
    if n == 0 {
        0
    } else {
        recipient_count(args, (n - 1) as nat) + if args[n - 1] is RecipientAddress {
            1nat
        } else {
            0nat
        }
    }
}

/// What gathering comes to: inputs are gathered exactly when at most one
/// of them may be the recipient and at most eight are amounts. Then the
/// amounts are kept in order, each with the index of its input, and the
/// recipient, if there is one, with the index of its.
pub proof fn lemma_gather_is_characterized(args: Seq<CallArgView>, n: nat)
    requires
        n <= args.len() <= u32::MAX,
    ensures
        gather_upto(args, n) is Ok <==> recipient_count(args, n) <= 1 && amount_entries(
            args,
            n,
        ).len() <= 8,
        gather_upto(args, n) matches Ok(g) ==> {
            &&& g.amounts == amount_entries(args, n)
            &&& g.recipient is Some <==> recipient_count(args, n) == 1
            &&& g.recipient matches Some((address, index)) ==> index < n && args[index as int]
                == CallArgView::RecipientAddress(address)
        },
    decreases n,
{
    if n > 0 {
        lemma_gather_is_characterized(args, (n - 1) as nat);
        lemma_counts_grow(args, (n - 1) as nat);
    }
}

proof fn lemma_counts_grow(args: Seq<CallArgView>, n: nat)
    ensures
        amount_entries(args, n).len() <= amount_entries(args, n + 1).len(),
        recipient_count(args, n) <= recipient_count(args, n + 1),
{
}

proof fn lemma_gathered_recipient(args: Seq<CallArgView>, n: nat, i: nat)
    requires
        i < n <= args.len(),
        args[i as int] is RecipientAddress,
    ensures
        gather_upto(args, n) matches Ok(g) ==> g.recipient is Some,
    decreases n,
{
    if i < n - 1 {
        lemma_gathered_recipient(args, (n - 1) as nat, i);
    }
}

proof fn lemma_gather_failure_stays(args: Seq<CallArgView>, fewer: nat, n: nat)
    requires
        fewer <= n,
        gather_upto(args, fewer) is Err,
    ensures
        gather_upto(args, n) == gather_upto(args, fewer),
    decreases n,
{
    if fewer < n {
        lemma_gather_failure_stays(args, fewer, (n - 1) as nat);
    }
}

/// A transaction with two inputs that may each be the recipient is
/// refused, whatever its commands are.
pub proof fn lemma_two_recipients_rejected(
    args: Seq<CallArgView>,
    cmds: Seq<CommandView>,
    i: int,
    j: int,
)
    requires
        0 <= i < j < args.len(),
        args[i] is RecipientAddress,
        args[j] is RecipientAddress,
    ensures
        validate(args, cmds) is Err,
{
    lemma_gathered_recipient(args, j as nat, i as nat);
    assert(gather_upto(args, (j + 1) as nat) is Err);
    lemma_gather_failure_stays(args, (j + 1) as nat, args.len());
}

/// Bytes whose inputs decode to a list with two that may each be the
/// recipient are refused by the validator, whatever follows the inputs:
/// commands that are well-formed, garbage, or nothing yet.
pub proof fn lemma_two_recipients_rejected_in_bytes(s: Seq<u8>, pos: int, i: int, j: int)
    requires
        uleb128(s, pos) is Done,
        call_args(s, uleb128(s, pos)->next, uleb128(s, pos)->value as nat) is Done,
        ({
            let args = call_args(s, uleb128(s, pos)->next, uleb128(s, pos)->value as nat)->value;
            0 <= i < j < args.len() && args[i] is RecipientAddress && args[j] is RecipientAddress
        }),
    ensures
        programmable(s, pos) is Reject,
{
    let count = uleb128(s, pos)->value as nat;
    let first = uleb128(s, pos)->next;
    let args = call_args(s, first, count)->value;
    lemma_inputs_gather(s, first, count);
    lemma_gathered_recipient(args, j as nat, i as nat);
    assert(gather_upto(args, (j + 1) as nat) is Err);
    lemma_gather_failure_stays(args, (j + 1) as nat, count);
}

/// A payload is rejected whenever the validator rejects the programmable
/// transaction in it, under every mode of checking.
pub proof fn lemma_rejected_transfer_rejects_payload(
    s: Seq<u8>,
    checks: ParseChecks,
    expected: TxParamsView,
)
    requires
        header(s, 0) is Done,
        programmable(s, header(s, 0)->next) is Reject,
    ensures
        signed_payload(s, 0, checks, expected) is Reject,
{
    lemma_payload_is_assembled(s, checks, expected);
}

/// The amounts whose input has this index, among the first `n`, added up
/// as numbers without bound.
pub open spec fn matched_sum(amounts: Seq<AmountEntry>, index: u32, n: nat) -> nat
    decreases n,
{
    if n == 0 {
        0
    } else {
        matched_sum(amounts, index, (n - 1) as nat) + if amounts[n - 1].1 == index {
            amounts[n - 1].0 as nat
        } else {
            0
        }
    }
}

/// What the first `n` arguments of a coin split name, added up as numbers
/// without bound. An argument that is no input counts nothing.
pub open spec fn split_sum(amounts: Seq<AmountEntry>, args: Seq<Argument>, n: nat) -> nat
    decreases n,
{
    if n == 0 {
        0
    } else {
        split_sum(amounts, args, (n - 1) as nat) + match args[n - 1] {
            Argument::Input(index) => matched_sum(amounts, index as u32, amounts.len()),
            _ => 0,
        }
    }
}

/// Adding amounts never wraps: the sum is the true sum exactly when that
/// fits 64 bits, and is refused as an overflow exactly when it does not.
pub proof fn lemma_add_is_exact(amounts: Seq<AmountEntry>, total: u64, index: u32, n: nat)
    ensures
        match add_upto(amounts, total, index, n) {
            Ok(sum) => sum == total + matched_sum(amounts, index, n),
            Err(why) => why == Rejection::AmountOverflow && total + matched_sum(amounts, index, n)
                > u64::MAX,
        },
    decreases n,
{
    if n > 0 {
        lemma_add_is_exact(amounts, total, index, (n - 1) as nat);
    }
}

/// The arguments before the `n`th are all inputs.
pub open spec fn all_inputs(args: Seq<Argument>, n: nat) -> bool {
    forall|i: int| 0 <= i < n ==> args[i] is Input
}

/// A coin split never wraps: where all its arguments are inputs, its sum
/// is the true sum exactly when that fits 64 bits, and is refused as an
/// overflow exactly when it does not. An argument that is no input is
/// refused, unless an overflow came first.
pub proof fn lemma_split_is_exact(
    amounts: Seq<AmountEntry>,
    total: u64,
    args: Seq<Argument>,
    n: nat,
)
    ensures
        match split_upto(amounts, total, args, n) {
            Ok(sum) => sum == total + split_sum(amounts, args, n) && all_inputs(args, n),
            Err(Rejection::AmountOverflow) => total + split_sum(amounts, args, n) > u64::MAX,
            Err(why) => why == Rejection::Unsupported && !all_inputs(args, n),
        },
    decreases n,
{
    if n > 0 {
        lemma_split_is_exact(amounts, total, args, (n - 1) as nat);
        if let Ok(sum) = split_upto(amounts, total, args, (n - 1) as nat) {
            if let Argument::Input(index) = args[n - 1] {
                lemma_add_is_exact(amounts, sum, index as u32, amounts.len());
            }
        }
    }
}

/// What the first `n` commands split off, added up as numbers without
/// bound. A command that is no coin split counts nothing.
pub open spec fn total_sum(amounts: Seq<AmountEntry>, cmds: Seq<CommandView>, n: nat) -> nat
    decreases n,
{
    if n == 0 {
        0
    } else {
        total_sum(amounts, cmds, (n - 1) as nat) + match cmds[n - 1] {
            CommandView::SplitCoins(_, args) => split_sum(amounts, args, args.len()),
            _ => 0,
        }
    }
}

/// The total of a transaction never wraps: where the commands apply, the
/// total is the true sum of what they split off, and that sum fits 64
/// bits.
pub proof fn lemma_total_is_exact(
    recipient_index: u32,
    amounts: Seq<AmountEntry>,
    cmds: Seq<CommandView>,
    n: nat,
)
    ensures
        apply_upto(recipient_index, amounts, cmds, n) matches Ok(tally) ==> tally.total
            == total_sum(amounts, cmds, n),
    decreases n,
{
    if n > 0 {
        lemma_total_is_exact(recipient_index, amounts, cmds, (n - 1) as nat);
        if let Ok(tally) = apply_upto(recipient_index, amounts, cmds, (n - 1) as nat) {
            if let CommandView::SplitCoins(_, args) = cmds[n - 1] {
                lemma_split_is_exact(amounts, tally.total, args, args.len());
            }
        }
    }
}

/// A coin split whose true sum leaves 64 bits is refused, and with it the
/// transaction: the commands before it applied, it splits the gas coin,
/// and all its arguments are inputs.
pub proof fn lemma_overflow_is_rejected(
    recipient_index: u32,
    amounts: Seq<AmountEntry>,
    cmds: Seq<CommandView>,
    n: nat,
)
    requires
        0 < n <= cmds.len(),
        apply_upto(recipient_index, amounts, cmds, (n - 1) as nat) is Ok,
        cmds[n - 1] matches CommandView::SplitCoins(coin, args) && coin == Argument::GasCoin
            && all_inputs(args, args.len()),
        total_sum(amounts, cmds, n) > u64::MAX,
    ensures
        apply_upto(recipient_index, amounts, cmds, n) == Err::<Tally, Rejection>(
            Rejection::AmountOverflow,
        ),
        apply_upto(recipient_index, amounts, cmds, cmds.len()) == Err::<Tally, Rejection>(
            Rejection::AmountOverflow,
        ),
{
    lemma_total_is_exact(recipient_index, amounts, cmds, (n - 1) as nat);
    let before = apply_upto(recipient_index, amounts, cmds, (n - 1) as nat)->Ok_0;
    if let CommandView::SplitCoins(_, args) = cmds[n - 1] {
        lemma_split_is_exact(amounts, before.total, args, args.len());
    }
    lemma_apply_failure_stays(recipient_index, amounts, cmds, n, cmds.len());
}

proof fn lemma_apply_failure_stays(
    recipient_index: u32,
    amounts: Seq<AmountEntry>,
    cmds: Seq<CommandView>,
    fewer: nat,
    n: nat,
)
    requires
        fewer <= n,
        apply_upto(recipient_index, amounts, cmds, fewer) is Err,
    ensures
        apply_upto(recipient_index, amounts, cmds, n) == apply_upto(
            recipient_index,
            amounts,
            cmds,
            fewer,
        ),
    decreases n,
{
    if fewer < n {
        lemma_apply_failure_stays(recipient_index, amounts, cmds, fewer, (n - 1) as nat);
    }
}

/// A transaction with one address, one amount `v`, a coin split that splits
/// the amount off the gas coin and a transfer to the address is recognised,
/// in either order of the two commands, and its total is `v`. Inputs of
/// other kinds may stand among the two.
pub proof fn lemma_simple_transfer_accepted(
    args: Seq<CallArgView>,
    cmds: Seq<CommandView>,
    at_recipient: u16,
    at_amount: u16,
    recipient: Seq<u8>,
    v: u64,
    objects: Seq<Argument>,
)
    requires
        args.len() <= u32::MAX,
        at_recipient < args.len(),
        at_amount < args.len(),
        args[at_recipient as int] == CallArgView::RecipientAddress(recipient),
        args[at_amount as int] == CallArgView::Amount(v),
        forall|i: int|
            0 <= i < args.len() && i != at_recipient ==> !(#[trigger] args[i] is RecipientAddress),
        forall|i: int| 0 <= i < args.len() && i != at_amount ==> !(#[trigger] args[i] is Amount),
        ({
            let split = CommandView::SplitCoins(
                Argument::GasCoin,
                seq![Argument::Input(at_amount)],
            );
            let transfer = CommandView::TransferObject(objects, Argument::Input(at_recipient));
            cmds == seq![split, transfer] || cmds == seq![transfer, split]
        }),
    ensures
        validate(args, cmds) == Ok::<TransferView, Rejection>(
            TransferView { recipient, total_amount: v },
        ),
{
    lemma_simple_inputs(args, args.len(), at_recipient, at_amount, recipient, v);
    let amounts = seq![(v, at_amount as u32)];
    let index = at_recipient as u32;
    reveal_with_fuel(apply_upto, 3);
    reveal_with_fuel(split_upto, 2);
    reveal_with_fuel(add_upto, 2);
    let split = CommandView::SplitCoins(Argument::GasCoin, seq![Argument::Input(at_amount)]);
    let start = Tally { transferred: false, total: 0 };
    let moved = Tally { transferred: true, total: 0 };
    assert(apply(index, amounts, start, split) == Ok::<Tally, Rejection>(
        Tally { transferred: false, total: v },
    ));
    assert(apply(index, amounts, moved, split) == Ok::<Tally, Rejection>(
        Tally { transferred: true, total: v },
    ));
}

/// Bytes that decode to one address, one amount `v`, a coin split that
/// splits the amount off the gas coin and a transfer to the address are
/// recognised by the validator, with the total `v`.
pub proof fn lemma_simple_transfer_in_bytes(
    s: Seq<u8>,
    pos: int,
    at_recipient: u16,
    at_amount: u16,
    recipient: Seq<u8>,
    v: u64,
    objects: Seq<Argument>,
)
    requires
        lists_decode(s, pos),
        ({
            let (args, cmds, end) = decoded_lists(s, pos);
            let split = CommandView::SplitCoins(
                Argument::GasCoin,
                seq![Argument::Input(at_amount)],
            );
            let transfer = CommandView::TransferObject(objects, Argument::Input(at_recipient));
            &&& at_recipient < args.len()
            &&& at_amount < args.len()
            &&& args[at_recipient as int] == CallArgView::RecipientAddress(recipient)
            &&& args[at_amount as int] == CallArgView::Amount(v)
            &&& forall|i: int|
                0 <= i < args.len() && i != at_recipient ==> !(#[trigger] args[i]
                    is RecipientAddress)
            &&& forall|i: int|
                0 <= i < args.len() && i != at_amount ==> !(#[trigger] args[i] is Amount)
            &&& cmds == seq![split, transfer] || cmds == seq![transfer, split]
        }),
    ensures
        programmable(s, pos) == (Outcome::Done {
            value: TransferView { recipient, total_amount: v },
            next: decoded_lists(s, pos).2,
        }),
{
    let (args, cmds, end) = decoded_lists(s, pos);
    lemma_programmable_validates(s, pos);
    lemma_inputs_gather(s, uleb128(s, pos)->next, uleb128(s, pos)->value as nat);
    lemma_simple_transfer_accepted(args, cmds, at_recipient, at_amount, recipient, v, objects);
}

proof fn lemma_simple_inputs(
    args: Seq<CallArgView>,
    n: nat,
    at_recipient: u16,
    at_amount: u16,
    recipient: Seq<u8>,
    v: u64,
)
    requires
        n <= args.len() <= u32::MAX,
        at_recipient < args.len(),
        at_amount < args.len(),
        args[at_recipient as int] == CallArgView::RecipientAddress(recipient),
        args[at_amount as int] == CallArgView::Amount(v),
        forall|i: int|
            0 <= i < args.len() && i != at_recipient ==> !(#[trigger] args[i] is RecipientAddress),
        forall|i: int| 0 <= i < args.len() && i != at_amount ==> !(#[trigger] args[i] is Amount),
    ensures
        gather_upto(args, n) == Ok::<Gathered, Rejection>(
            Gathered {
                recipient: if at_recipient < n {
                    Some((recipient, at_recipient as u32))
                } else {
                    None
                },
                amounts: if at_amount < n {
                    seq![(v, at_amount as u32)]
                } else {
                    Seq::<AmountEntry>::empty()
                },
            },
        ),
    decreases n,
{
    if n > 0 {
        lemma_simple_inputs(args, (n - 1) as nat, at_recipient, at_amount, recipient, v);
        let before = gather_upto(args, (n - 1) as nat)->Ok_0;
        let after = gather(before, args[n - 1], (n - 1) as u32);
        if n - 1 == at_amount {
            assert(after->Ok_0.amounts =~= seq![(v, at_amount as u32)]);
        }
    }
}

/// A swap's parse agrees with a plain parse on every transaction that the
/// plain parse finishes: it yields the same fields where amount, fee and
/// recipient are all as expected, and the dedicated mismatch rejection
/// where any of the three differs. A parse for the user's approval checks
/// nothing against the expected parameters.
pub proof fn lemma_cross_check(s: Seq<u8>, pos: int, expected: TxParamsView, other: TxParamsView)
    ensures
        transaction(s, pos, ParseChecks::NoChecks, expected) == transaction(
            s,
            pos,
            ParseChecks::NoChecks,
            other,
        ),
        transaction(s, pos, ParseChecks::PromptUser, expected) == transaction(
            s,
            pos,
            ParseChecks::NoChecks,
            expected,
        ),
        transaction(s, pos, ParseChecks::NoChecks, expected) matches Outcome::Done { value, next }
            ==> transaction(s, pos, ParseChecks::CheckSwapTx, expected) == if value.amount
            == expected.amount && value.fee == expected.fee && value.destination_address
            == expected.destination_address {
            Outcome::Done { value, next }
        } else {
            Outcome::Reject { why: Rejection::ParamMismatch }
        },
{
}

} // verus!
