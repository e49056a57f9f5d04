//! The validator: a programmable transaction is recognised when it sends
//! one recipient an amount that is split off the gas coin.
//!
//! Inputs are gathered and commands are applied while they are decoded, in
//! one forward pass; the first violation ends the pass. The pass can be
//! suspended between two items and goes on behind what it has decoded.

use crate::bounded::{
    amount_items, amounts_as_slice, amounts_new, amounts_try_push, split_as_slice, AmountEntry,
    AmountList,
};
use crate::chunking::{
    lemma_commands_stable, lemma_input_section_stable, lemma_inputs_stable, lemma_uleb128_stable,
};
use crate::decode::{read_uleb128, uleb128};
use crate::outcome::{answers, failure, Decoded, Outcome, Rejection};
use crate::schema::{
    call_arg, command, Argument, CallArg, CallArgSchema, CallArgView, Command, CommandSchema,
    CommandView, SuiAddressRaw, SPLIT_COIN_ARRAY_LENGTH,
};
use crate::stream::{delivers, give_up, ByteStream};
use vstd::prelude::*;

verus! {

/// What the inputs of a transaction yielded so far: the one address with
/// the index of its input, and the amounts with theirs.
pub struct Gathered {
    pub recipient: Option<(Seq<u8>, u32)>,
    pub amounts: Seq<AmountEntry>,
}

/// What the commands of a transaction yielded so far.
#[derive(Clone, Copy, Debug, PartialEq, Eq, Structural)]
pub struct Tally {
    /// A transfer to the recipient has been seen.
    pub transferred: bool,
    /// The sum of the amounts split off so far.
    pub total: u64,
}

/// What a recognised programmable transaction does.
#[derive(Clone, Copy, Debug, PartialEq, Eq)]
pub struct Transfer {
    /// Who receives.
    pub recipient: SuiAddressRaw,
    /// How much, in the smallest unit.
    pub total_amount: u64,
}

/// The mathematical value of a [`Transfer`].
pub struct TransferView {
    pub recipient: Seq<u8>,
    pub total_amount: u64,
}

impl View for Transfer {
    type V = TransferView;

    open spec fn view(&self) -> TransferView {
        TransferView { recipient: self.recipient@, total_amount: self.total_amount }
    }
}

/// Nothing gathered yet.
pub open spec fn nothing_gathered() -> Gathered {
    Gathered { recipient: None, amounts: Seq::<AmountEntry>::empty() }
}

/// Takes one more input into account. A second address is refused, and so
/// is a ninth amount; inputs of other kinds change nothing.
pub open spec fn gather(g: Gathered, arg: CallArgView, index: u32) -> Result<Gathered, Rejection> {
    match arg {
        CallArgView::RecipientAddress(address) => if g.recipient is Some {
            Err(Rejection::Unsupported)
        } else {
            Ok(Gathered { recipient: Some((address, index)), amounts: g.amounts })
        },
        CallArgView::Amount(value) => if g.amounts.len() >= SPLIT_COIN_ARRAY_LENGTH {
            Err(Rejection::Unsupported)
        } else {
            Ok(Gathered { recipient: g.recipient, amounts: g.amounts.push((value, index)) })
        },
        _ => Ok(g),
    }
}

/// The first `count` inputs, gathered in order.
pub open spec fn inputs(s: Seq<u8>, pos: int, count: nat) -> Outcome<Gathered>
    decreases count,
{
    if count == 0 {
        Outcome::Done { value: nothing_gathered(), next: pos }
    } else {
        match inputs(s, pos, (count - 1) as nat) {
            Outcome::Done { value: g, next } => match call_arg(s, next) {
                Outcome::Done { value: arg, next } => match gather(g, arg, (count - 1) as u32) {
                    Ok(g) => Outcome::Done { value: g, next },
                    Err(why) => Outcome::Reject { why },
                },
                other => failure(other),
            },
            other => other,
        }
    }
}

/// The inputs behind their count. A transaction without an address or
/// without an amount is refused.
pub open spec fn input_section(s: Seq<u8>, pos: int) -> Outcome<Gathered> {
    match uleb128(s, pos) {
        Outcome::Done { value: count, next } => match inputs(s, next, count as nat) {
            Outcome::Done { value: g, next } => if g.recipient is None || g.amounts.len() == 0 {
                Outcome::Reject { why: Rejection::Unsupported }
            } else {
                Outcome::Done { value: g, next }
            },
            other => other,
        },
        other => failure(other),
    }
}

/// Adds to `total` each of the first `n` amounts whose input has this
/// index. A sum beyond 64 bits is refused.
pub open spec fn add_upto(amounts: Seq<AmountEntry>, total: u64, index: u32, n: nat) -> Result<
    u64,
    Rejection,
>
    decreases n,
{
    if n == 0 {
        Ok(total)
    } else {
        match add_upto(amounts, total, index, (n - 1) as nat) {
            Ok(sum) => if amounts[n - 1].1 != index {
                Ok(sum)
            } else if sum + amounts[n - 1].0 > u64::MAX {
                Err(Rejection::AmountOverflow)
            } else {
                Ok((sum + amounts[n - 1].0) as u64)
            },
            Err(why) => Err(why),
        }
    }
}

/// Adds to `total` what the first `n` arguments of a coin split name. Each
/// must be an input; the amounts held for it are added.
pub open spec fn split_upto(
    amounts: Seq<AmountEntry>,
    total: u64,
    args: Seq<Argument>,
    n: nat,
) -> Result<u64, Rejection>
    decreases n,
{
    if n == 0 {
        Ok(total)
    } else {
        match split_upto(amounts, total, args, (n - 1) as nat) {
            Ok(sum) => match args[n - 1] {
                Argument::Input(index) => add_upto(amounts, sum, index as u32, amounts.len()),
                _ => Err(Rejection::Unsupported),
            },
            Err(why) => Err(why),
        }
    }
}

/// Takes one more command into account. A transfer must be the first one
/// and name the input that held the address; a coin split must split the
/// gas coin.
pub open spec fn apply(
    recipient_index: u32,
    amounts: Seq<AmountEntry>,
    tally: Tally,
    c: CommandView,
) -> Result<Tally, Rejection> {
    match c {
        CommandView::TransferObject(_, recipient) => if tally.transferred {
            Err(Rejection::Unsupported)
        } else {
            match recipient {
                Argument::Input(index) => if index as u32 == recipient_index {
                    Ok(Tally { transferred: true, total: tally.total })
                } else {
                    Err(Rejection::Unsupported)
                },
                _ => Err(Rejection::Unsupported),
            }
        },
        CommandView::SplitCoins(coin, args) => if coin != Argument::GasCoin {
            Err(Rejection::Unsupported)
        } else {
            match split_upto(amounts, tally.total, args, args.len()) {
                Ok(total) => Ok(Tally { transferred: tally.transferred, total }),
                Err(why) => Err(why),
            }
        },
    }
}

/// The first `count` commands, applied in order.
pub open spec fn commands(
    s: Seq<u8>,
    pos: int,
    count: nat,
    recipient_index: u32,
    amounts: Seq<AmountEntry>,
) -> Outcome<Tally>
    decreases count,
{
    if count == 0 {
        Outcome::Done { value: Tally { transferred: false, total: 0 }, next: pos }
    } else {
        match commands(s, pos, (count - 1) as nat, recipient_index, amounts) {
            Outcome::Done { value: tally, next } => match command(s, next) {
                Outcome::Done { value: c, next } => match apply(
                    recipient_index,
                    amounts,
                    tally,
                    c,
                ) {
                    Ok(tally) => Outcome::Done { value: tally, next },
                    Err(why) => Outcome::Reject { why },
                },
                other => failure(other),
            },
            other => other,
        }
    }
}

/// The commands behind their count. A transaction without a transfer is
/// refused.
pub open spec fn command_section(
    s: Seq<u8>,
    pos: int,
    recipient_index: u32,
    amounts: Seq<AmountEntry>,
) -> Outcome<Tally> {
    match uleb128(s, pos) {
        Outcome::Done { value: count, next } => match commands(
            s,
            next,
            count as nat,
            recipient_index,
            amounts,
        ) {
            Outcome::Done { value: tally, next } => if !tally.transferred {
                Outcome::Reject { why: Rejection::Unsupported }
            } else {
                Outcome::Done { value: tally, next }
            },
            other => other,
        },
        other => failure(other),
    }
}

/// A programmable transaction: its inputs, then its commands.
pub open spec fn programmable(s: Seq<u8>, pos: int) -> Outcome<TransferView> {
    match input_section(s, pos) {
        Outcome::Done { value: g, next } => match command_section(
            s,
            next,
            g.recipient.unwrap().1,
            g.amounts,
        ) {
            Outcome::Done { value: tally, next } => Outcome::Done {
                value: TransferView {
                    recipient: g.recipient.unwrap().0,
                    total_amount: tally.total,
                },
                next,
            },
            other => failure(other),
        },
        other => failure(other),
    }
}

/// The first `n` of a list of inputs, gathered in order.
pub open spec fn gather_upto(args: Seq<CallArgView>, n: nat) -> Result<Gathered, Rejection>
    decreases n,
{
    if n == 0 {
        Ok(nothing_gathered())
    } else {
        match gather_upto(args, (n - 1) as nat) {
            Ok(g) => gather(g, args[n - 1], (n - 1) as u32),
            Err(why) => Err(why),
        }
    }
}

/// The first `n` of a list of commands, applied in order.
pub open spec fn apply_upto(
    recipient_index: u32,
    amounts: Seq<AmountEntry>,
    cmds: Seq<CommandView>,
    n: nat,
) -> Result<Tally, Rejection>
    decreases n,
{
    if n == 0 {
        Ok(Tally { transferred: false, total: 0 })
    } else {
        match apply_upto(recipient_index, amounts, cmds, (n - 1) as nat) {
            Ok(tally) => apply(recipient_index, amounts, tally, cmds[n - 1]),
            Err(why) => Err(why),
        }
    }
}

/// What a programmable transaction with these inputs and these commands
/// transfers, or why it is not recognised: it needs one address, at least
/// one amount, and commands that all apply and hold one transfer.
pub open spec fn validate(args: Seq<CallArgView>, cmds: Seq<CommandView>) -> Result<
    TransferView,
    Rejection,
> {
    match gather_upto(args, args.len()) {
        Ok(g) => if g.recipient is None || g.amounts.len() == 0 {
            Err(Rejection::Unsupported)
        } else {
            match apply_upto(g.recipient.unwrap().1, g.amounts, cmds, cmds.len()) {
                Ok(tally) => if !tally.transferred {
                    Err(Rejection::Unsupported)
                } else {
                    Ok(
                        TransferView {
                            recipient: g.recipient.unwrap().0,
                            total_amount: tally.total,
                        },
                    )
                },
                Err(why) => Err(why),
            }
        },
        Err(why) => Err(why),
    }
}

/// Inputs that failed early fail the same way however many are asked for.
pub proof fn lemma_inputs_failure_stays(s: Seq<u8>, pos: int, fewer: nat, count: nat)
    requires
        fewer <= count,
        !(inputs(s, pos, fewer) is Done),
    ensures
        inputs(s, pos, count) == inputs(s, pos, fewer),
    decreases count,
{
    if fewer < count {
        lemma_inputs_failure_stays(s, pos, fewer, (count - 1) as nat);
    }
}

/// Commands that failed early fail the same way however many are asked for.
pub proof fn lemma_commands_failure_stays(
    s: Seq<u8>,
    pos: int,
    fewer: nat,
    count: nat,
    recipient_index: u32,
    amounts: Seq<AmountEntry>,
)
    requires
        fewer <= count,
        !(commands(s, pos, fewer, recipient_index, amounts) is Done),
    ensures
        commands(s, pos, count, recipient_index, amounts) == commands(
            s,
            pos,
            fewer,
            recipient_index,
            amounts,
        ),
    decreases count,
{
    if fewer < count {
        lemma_commands_failure_stays(
            s,
            pos,
            fewer,
            (count - 1) as nat,
            recipient_index,
            amounts,
        );
    }
}

/// A sum that failed early fails the same way however many amounts are
/// looked at.
pub proof fn lemma_add_failure_stays(
    amounts: Seq<AmountEntry>,
    total: u64,
    index: u32,
    fewer: nat,
    n: nat,
)
    requires
        fewer <= n,
        add_upto(amounts, total, index, fewer) is Err,
    ensures
        add_upto(amounts, total, index, n) == add_upto(amounts, total, index, fewer),
    decreases n,
{
    if fewer < n {
        lemma_add_failure_stays(amounts, total, index, fewer, (n - 1) as nat);
    }
}

/// A split that failed early fails the same way however many arguments are
/// looked at.
pub proof fn lemma_split_failure_stays(
    amounts: Seq<AmountEntry>,
    total: u64,
    args: Seq<Argument>,
    fewer: nat,
    n: nat,
)
    requires
        fewer <= n,
        split_upto(amounts, total, args, fewer) is Err,
    ensures
        split_upto(amounts, total, args, n) == split_upto(amounts, total, args, fewer),
    decreases n,
{
    if fewer < n {
        lemma_split_failure_stays(amounts, total, args, fewer, (n - 1) as nat);
    }
}

/// Adds to `total` every amount whose input has this index.
pub fn add_matching(amounts: &[AmountEntry], total: u64, index: u32) -> (r: Result<u64, Rejection>)
    ensures
        r == add_upto(amounts@, total, index, amounts@.len()),
{
    let mut sum: u64 = total;
    let mut i: usize = 0;
    while i < amounts.len()
        invariant
            i <= amounts@.len(),
            add_upto(amounts@, total, index, i as nat) == Ok::<u64, Rejection>(sum),
        decreases amounts@.len() - i,
    {
        let (amount, at) = amounts[i];
        if at == index {
            match sum.checked_add(amount) {
                Some(more) => {
                    sum = more;
                },
                None => {
                    proof {
                        lemma_add_failure_stays(
                            amounts@,
                            total,
                            index,
                            (i + 1) as nat,
                            amounts@.len(),
                        );
                    }
                    return Err(Rejection::AmountOverflow);
                },
            }
        }
        i = i + 1;
    }
    Ok(sum)
}

/// Adds to `total` what the arguments of a coin split name.
pub fn split_total(
    amounts: &[AmountEntry],
    total: u64,
    args: &[Argument],
) -> (r: Result<u64, Rejection>)
    ensures
        r == split_upto(amounts@, total, args@, args@.len()),
{
    let mut sum: u64 = total;
    let mut i: usize = 0;
    while i < args.len()
        invariant
            i <= args@.len(),
            split_upto(amounts@, total, args@, i as nat) == Ok::<u64, Rejection>(sum),
        decreases args@.len() - i,
    {
        let step = match args[i] {
            Argument::Input(index) => add_matching(amounts, sum, index as u32),
            _ => Err(Rejection::Unsupported),
        };
        match step {
            Ok(more) => {
                sum = more;
            },
            Err(why) => {
                proof {
                    lemma_split_failure_stays(
                        amounts@,
                        total,
                        args@,
                        (i + 1) as nat,
                        args@.len(),
                    );
                }
                return Err(why);
            },
        }
        i = i + 1;
    }
    Ok(sum)
}

/// Takes one more command into account.
pub fn apply_command(
    recipient_index: u32,
    amounts: &[AmountEntry],
    tally: Tally,
    c: &Command,
) -> (r: Result<Tally, Rejection>)
    ensures
        r == apply(recipient_index, amounts@, tally, c@),
{
    match c {
        Command::TransferObject(_, recipient) => {
            if tally.transferred {
                return Err(Rejection::Unsupported);
            }
            match recipient {
                Argument::Input(index) => {
                    if *index as u32 == recipient_index {
                        Ok(Tally { transferred: true, total: tally.total })
                    } else {
                        Err(Rejection::Unsupported)
                    }
                },
                _ => Err(Rejection::Unsupported),
            }
        },
        Command::SplitCoins(coin, args) => {
            match coin {
                Argument::GasCoin => {},
                _ => {
                    return Err(Rejection::Unsupported);
                },
            }
            match split_total(amounts, tally.total, split_as_slice(args)) {
                Ok(total) => Ok(Tally { transferred: tally.transferred, total }),
                Err(why) => Err(why),
            }
        },
    }
}

/// The address and index that the executable pass holds, as the
/// specification sees them.
pub open spec fn recipient_view(recipient: Option<(SuiAddressRaw, u32)>) -> Option<
    (Seq<u8>, u32),
> {
    match recipient {
        Some((address, index)) => Some((address@, index)),
        None => None,
    }
}

/// Which part of a programmable transaction a recognition waits in.
#[derive(Clone, Copy, Debug, PartialEq, Eq, Structural)]
pub enum Part {
    /// Before the count of the inputs.
    Start,
    /// Among the inputs, or before the count of the commands.
    Inputs,
    /// Among the commands.
    Commands,
}

/// The recognition of one programmable transaction, which can be
/// suspended: what has been decoded of the transaction is kept, and the
/// recognition goes on behind it.
pub struct Recognition {
    part: Part,
    start: usize,
    input_count: u32,
    inputs_done: u32,
    first_input: usize,
    recipient: Option<(SuiAddressRaw, u32)>,
    amounts: AmountList,
    commands_at: usize,
    command_count: u32,
    commands_done: u32,
    first_command: usize,
    tally: Tally,
}

impl Recognition {
    /// Where the transaction begins.
    pub closed spec fn start(&self) -> int {
        self.start as int
    }

    /// Which part the recognition waits in.
    pub closed spec fn part(&self) -> Part {
        self.part
    }

    /// The inputs gathered so far.
    pub closed spec fn gathered(&self) -> Gathered {
        Gathered { recipient: recipient_view(self.recipient), amounts: amount_items(self.amounts) }
    }

    /// What is kept is what the rules say of the bytes before `cursor`:
    /// the inputs that are noted as gathered are gathered there, and the
    /// commands that are noted as applied are applied there.
    pub closed spec fn fits(&self, s: Seq<u8>, cursor: int) -> bool {
        match self.part {
            Part::Start => cursor == self.start,
            Part::Inputs => {
                &&& uleb128(s, self.start as int) == (Outcome::Done {
                    value: self.input_count,
                    next: self.first_input as int,
                })
                &&& self.inputs_done <= self.input_count
                &&& self.start <= self.first_input <= cursor
                &&& inputs(s, self.first_input as int, self.inputs_done as nat) == (Outcome::Done {
                    value: self.gathered(),
                    next: cursor,
                })
            },
            Part::Commands => {
                &&& self.recipient is Some
                &&& input_section(s, self.start as int) == (Outcome::Done {
                    value: self.gathered(),
                    next: self.commands_at as int,
                })
                &&& uleb128(s, self.commands_at as int) == (Outcome::Done {
                    value: self.command_count,
                    next: self.first_command as int,
                })
                &&& self.commands_done <= self.command_count
                &&& self.start <= self.commands_at <= self.first_command <= cursor
                &&& commands(
                    s,
                    self.first_command as int,
                    self.commands_done as nat,
                    self.recipient.unwrap().1,
                    amount_items(self.amounts),
                ) == (Outcome::Done { value: self.tally, next: cursor })
            },
        }
    }

    /// What has been decoded stays decoded when more bytes arrive.
    pub proof fn lemma_fits_more(&self, s: Seq<u8>, more: Seq<u8>, cursor: int)
        requires
            self.fits(s, cursor),
        ensures
            self.fits(s + more, cursor),
    {
        lemma_uleb128_stable(s, more, self.start as int);
        match self.part {
            Part::Start => {},
            Part::Inputs => {
                lemma_inputs_stable(s, more, self.first_input as int, self.inputs_done as nat);
            },
            Part::Commands => {
                lemma_input_section_stable(s, more, self.start as int);
                lemma_uleb128_stable(s, more, self.commands_at as int);
                lemma_commands_stable(
                    s,
                    more,
                    self.first_command as int,
                    self.commands_done as nat,
                    self.recipient.unwrap().1,
                    amount_items(self.amounts),
                );
            },
        }
    }

    /// The recognition of a transaction that begins at `start`, with
    /// nothing decoded yet.
    pub fn new(start: usize) -> (recognition: Self)
        ensures
            recognition.start() == start,
            recognition.part() == Part::Start,
            forall|s: Seq<u8>| recognition.fits(s, start as int),
    {
        Recognition {
            part: Part::Start,
            start,
            input_count: 0,
            inputs_done: 0,
            first_input: 0,
            recipient: None,
            amounts: amounts_new(),
            commands_at: 0,
            command_count: 0,
            commands_done: 0,
            first_command: 0,
            tally: Tally { transferred: false, total: 0 },
        }
    }

    /// The end of a part: the result of the recognition, or nothing, when
    /// the next part is to follow.
    pub open spec fn part_result(
        r: Option<Decoded<Transfer>>,
        after: Recognition,
        next: Part,
        s: Seq<u8>,
        cursor: int,
    ) -> bool {
        match r {
            None => after.part() == next && after.fits(s, cursor),
            Some(end) => {
                &&& !(end is Done)
                &&& answers(programmable(s, after.start()), end)
                &&& end is Suspend ==> after.fits(s, cursor)
            },
        }
    }

    fn begin_inputs(&mut self, stream: &mut ByteStream) -> (r: Option<Decoded<Transfer>>)
        requires
            old(self).part() == Part::Start,
            old(self).fits(old(stream).bytes(), old(stream).cursor()),
        ensures
            final(stream).bytes() == old(stream).bytes(),
            old(stream).cursor() <= final(stream).cursor(),
            final(self).start() == old(self).start(),
            Recognition::part_result(
                r,
                *final(self),
                Part::Inputs,
                final(stream).bytes(),
                final(stream).cursor(),
            ),
    {
        let here = stream.position();
        let input_count = match read_uleb128(stream) {
            Decoded::Done(count) => count,
            other => {
                return Some(give_up(stream, here, other));
            },
        };
        self.input_count = input_count;
        self.first_input = stream.position();
        self.inputs_done = 0;
        self.recipient = None;
        self.amounts = amounts_new();
        self.part = Part::Inputs;
        None
    }

    fn gather_inputs(&mut self, stream: &mut ByteStream) -> (r: Option<Decoded<Transfer>>)
        requires
            old(self).part() == Part::Inputs,
            old(self).fits(old(stream).bytes(), old(stream).cursor()),
        ensures
            final(stream).bytes() == old(stream).bytes(),
            old(stream).cursor() <= final(stream).cursor(),
            final(self).start() == old(self).start(),
            Recognition::part_result(
                r,
                *final(self),
                Part::Commands,
                final(stream).bytes(),
                final(stream).cursor(),
            ),
    {
        while self.inputs_done < self.input_count
            invariant
                stream.bytes() == old(stream).bytes(),
                old(stream).cursor() <= stream.cursor(),
                self.start == old(self).start,
                self.part == Part::Inputs,
                self.fits(stream.bytes(), stream.cursor()),
            decreases self.input_count - self.inputs_done,
        {
            let here = stream.position();
            let ghost before = self.gathered();
            let arg = match CallArgSchema::parse(stream) {
                Decoded::Done(arg) => arg,
                other => {
                    proof {
                        lemma_inputs_failure_stays(
                            stream.bytes(),
                            self.first_input as int,
                            (self.inputs_done + 1) as nat,
                            self.input_count as nat,
                        );
                    }
                    return Some(give_up(stream, here, other));
                },
            };
            let index = self.inputs_done;
            let accepted = match arg {
                CallArg::RecipientAddress(address) => {
                    if self.recipient.is_none() {
                        self.recipient = Some((address, index));
                        true
                    } else {
                        false
                    }
                },
                CallArg::Amount(value) => amounts_try_push(&mut self.amounts, (value, index)),
                _ => true,
            };
            if !accepted {
                proof {
                    assert(gather(before, arg@, index) is Err);
                    lemma_inputs_failure_stays(
                        stream.bytes(),
                        self.first_input as int,
                        (self.inputs_done + 1) as nat,
                        self.input_count as nat,
                    );
                }
                return Some(Decoded::Reject(Rejection::Unsupported));
            }
            proof {
                assert(gather(before, arg@, index) == Ok::<Gathered, Rejection>(self.gathered()));
            }
            self.inputs_done = self.inputs_done + 1;
        }
        if self.recipient.is_none() || amounts_as_slice(&self.amounts).len() == 0 {
            return Some(Decoded::Reject(Rejection::Unsupported));
        }
        let commands_at = stream.position();
        let command_count = match read_uleb128(stream) {
            Decoded::Done(count) => count,
            other => {
                return Some(give_up(stream, commands_at, other));
            },
        };
        self.commands_at = commands_at;
        self.command_count = command_count;
        self.first_command = stream.position();
        self.commands_done = 0;
        self.tally = Tally { transferred: false, total: 0 };
        self.part = Part::Commands;
        None
    }

    fn apply_commands(&mut self, stream: &mut ByteStream) -> (r: Decoded<Transfer>)
        requires
            old(self).part() == Part::Commands,
            old(self).fits(old(stream).bytes(), old(stream).cursor()),
        ensures
            final(stream).bytes() == old(stream).bytes(),
            old(stream).cursor() <= final(stream).cursor(),
            final(self).start() == old(self).start(),
            answers(programmable(final(stream).bytes(), final(self).start()), r),
            r is Done ==> programmable(final(stream).bytes(), final(self).start())->next
                == final(stream).cursor(),
            r is Suspend ==> final(self).fits(final(stream).bytes(), final(stream).cursor()),
    {
        let (address, recipient_index) = match self.recipient {
            Some(found) => found,
            None => {
                return Decoded::Reject(Rejection::Unsupported);
            },
        };
        while self.commands_done < self.command_count
            invariant
                stream.bytes() == old(stream).bytes(),
                old(stream).cursor() <= stream.cursor(),
                self.start == old(self).start,
                self.part == Part::Commands,
                self.recipient == Some((address, recipient_index)),
                self.fits(stream.bytes(), stream.cursor()),
            decreases self.command_count - self.commands_done,
        {
            let here = stream.position();
            let c = match CommandSchema::parse(stream) {
                Decoded::Done(c) => c,
                other => {
                    proof {
                        lemma_commands_failure_stays(
                            stream.bytes(),
                            self.first_command as int,
                            (self.commands_done + 1) as nat,
                            self.command_count as nat,
                            recipient_index,
                            amount_items(self.amounts),
                        );
                    }
                    return give_up(stream, here, other);
                },
            };
            match apply_command(recipient_index, amounts_as_slice(&self.amounts), self.tally, &c) {
                Ok(tally) => {
                    self.tally = tally;
                },
                Err(why) => {
                    proof {
                        lemma_commands_failure_stays(
                            stream.bytes(),
                            self.first_command as int,
                            (self.commands_done + 1) as nat,
                            self.command_count as nat,
                            recipient_index,
                            amount_items(self.amounts),
                        );
                    }
                    return Decoded::Reject(why);
                },
            }
            self.commands_done = self.commands_done + 1;
        }
        if !self.tally.transferred {
            return Decoded::Reject(Rejection::Unsupported);
        }
        Decoded::Done(Transfer { recipient: address, total_amount: self.tally.total })
    }

    /// Goes on with the recognition behind what has been decoded. The
    /// result is what the validator says of the bytes received. When it
    /// finishes, the cursor stands behind the transaction; while it waits,
    /// the cursor stands before the one item that was cut short, and what
    /// has been decoded is kept for the next time.
    pub fn advance(&mut self, stream: &mut ByteStream) -> (r: Decoded<Transfer>)
        requires
            old(self).fits(old(stream).bytes(), old(stream).cursor()),
        ensures
            final(stream).bytes() == old(stream).bytes(),
            old(stream).cursor() <= final(stream).cursor(),
            final(self).start() == old(self).start(),
            answers(programmable(final(stream).bytes(), final(self).start()), r),
            r is Done ==> programmable(final(stream).bytes(), final(self).start())->next
                == final(stream).cursor(),
            r is Suspend ==> final(self).fits(final(stream).bytes(), final(stream).cursor()),
    {
        if matches!(self.part, Part::Start) {
            match self.begin_inputs(stream) {
                Some(end) => {
                    return end;
                },
                None => {},
            }
        }
        if matches!(self.part, Part::Inputs) {
            match self.gather_inputs(stream) {
                Some(end) => {
                    return end;
                },
                None => {},
            }
        }
        self.apply_commands(stream)
    }
}

/// Reads a programmable transaction and tells what it transfers.
pub fn recognize_transfer(stream: &mut ByteStream) -> (r: Decoded<Transfer>)
    ensures
        delivers(
            programmable(old(stream).bytes(), old(stream).cursor()),
            *old(stream),
            *final(stream),
            r,
        ),
{
    let start = stream.position();
    let mut recognition = Recognition::new(start);
    match recognition.advance(stream) {
        Decoded::Done(transfer) => Decoded::Done(transfer),
        other => give_up(stream, start, other),
    }
}

} // verus!
