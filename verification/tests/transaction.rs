use arrayvec::ArrayVec;
use sui::interface::ParseChecks;
use sui::outcome::{Decoded, Rejection};
use sui::schema::{Argument, ArgumentSchema, CallArg, CallArgSchema, Command, CommandSchema};
use sui::session::{ParserState, Phase};
use sui::stream::ByteStream;
use sui::swap::params::CreateTxParams;
use sui::transaction::{
    gas_data_parser, intent_parser, payload_parser, tx_parser, GasBudget, ProgrammableTransaction,
    TransactionData, TransactionExpiration, TransactionKind,
};
use sui::validator::{
    add_matching, apply_command, recognize_transfer, split_total, Recognition, Tally, Transfer,
};

const RECIPIENT: [u8; 32] = [0xab; 32];
const OTHER: [u8; 32] = [0xcd; 32];

fn pure(bytes: &[u8]) -> Vec<u8> {
    let mut v = vec![0u8, bytes.len() as u8];
    v.extend_from_slice(bytes);
    v
}

fn owned_object() -> Vec<u8> {
    let mut v = vec![1u8, 0];
    v.extend_from_slice(&[7u8; 73]);
    v
}

fn shared_object(flag: u8) -> Vec<u8> {
    let mut v = vec![1u8, 1];
    v.extend_from_slice(&[7u8; 40]);
    v.push(flag);
    v
}

fn input(ix: u16) -> Vec<u8> {
    let mut v = vec![1u8];
    v.extend_from_slice(&ix.to_le_bytes());
    v
}

fn split_coins(coin: &[u8], amounts: &[Vec<u8>]) -> Vec<u8> {
    let mut v = vec![2u8];
    v.extend_from_slice(coin);
    v.push(amounts.len() as u8);
    for a in amounts {
        v.extend_from_slice(a);
    }
    v
}

fn transfer_object(objects: &[Vec<u8>], recipient: &[u8]) -> Vec<u8> {
    let mut v = vec![1u8, objects.len() as u8];
    for o in objects {
        v.extend_from_slice(o);
    }
    v.extend_from_slice(recipient);
    v
}

fn programmable(inputs: &[Vec<u8>], commands: &[Vec<u8>]) -> Vec<u8> {
    let mut v = vec![inputs.len() as u8];
    for i in inputs {
        v.extend_from_slice(i);
    }
    v.push(commands.len() as u8);
    for c in commands {
        v.extend_from_slice(c);
    }
    v
}

fn gas_data(payments: usize, budget: u64) -> Vec<u8> {
    let mut v = vec![payments as u8];
    for _ in 0..payments {
        v.extend_from_slice(&[9u8; 73]);
    }
    v.extend_from_slice(&[3u8; 32]);
    v.extend_from_slice(&1000u64.to_le_bytes());
    v.extend_from_slice(&budget.to_le_bytes());
    v
}

fn transaction(pt: &[u8], budget: u64) -> Vec<u8> {
    let mut v = vec![0u8, 0, 0, 0, 0];
    v.extend_from_slice(pt);
    v.extend_from_slice(&[5u8; 32]);
    v.extend_from_slice(&gas_data(1, budget));
    v.push(0);
    v
}

fn payload(tx: &[u8]) -> Vec<u8> {
    let mut v = (tx.len() as u32).to_le_bytes().to_vec();
    v.extend_from_slice(tx);
    v
}

fn simple_pt(amount: u64) -> Vec<u8> {
    programmable(
        &[pure(&RECIPIENT), pure(&amount.to_le_bytes())],
        &[split_coins(&[0], &[input(1)]), transfer_object(&[], &input(0))],
    )
}

fn expected(amount: u64, fee: u64, to: [u8; 32]) -> CreateTxParams {
    CreateTxParams { amount, fee, destination_address: to }
}

fn parse(bytes: &[u8], checks: ParseChecks, exp: &CreateTxParams) -> Decoded<CreateTxParams> {
    let mut s = ByteStream::from_bytes(bytes);
    tx_parser(&mut s, checks, exp)
}

fn recognize(pt: &[u8]) -> Decoded<Transfer> {
    let mut s = ByteStream::from_bytes(pt);
    recognize_transfer(&mut s)
}

#[test]
fn call_arg_classifies_pure_bytes_by_length() {
    let mut s = ByteStream::from_bytes(&pure(&RECIPIENT));
    assert_eq!(CallArgSchema::parse(&mut s), Decoded::Done(CallArg::RecipientAddress(RECIPIENT)));
    let mut s = ByteStream::from_bytes(&pure(&77u64.to_le_bytes()));
    assert_eq!(CallArgSchema::parse(&mut s), Decoded::Done(CallArg::Amount(77)));
    let mut s = ByteStream::from_bytes(&pure(&[1, 2, 3]));
    assert_eq!(CallArgSchema::parse(&mut s), Decoded::Done(CallArg::OtherPure));
    assert_eq!(s.position(), 5);
    let mut s = ByteStream::from_bytes(&pure(&[]));
    assert_eq!(CallArgSchema::parse(&mut s), Decoded::Done(CallArg::OtherPure));
}

#[test]
fn call_arg_reads_objects() {
    let mut s = ByteStream::from_bytes(&owned_object());
    assert_eq!(CallArgSchema::parse(&mut s), Decoded::Done(CallArg::ObjectArg));
    assert_eq!(s.position(), 75);
    let mut s = ByteStream::from_bytes(&shared_object(1));
    assert_eq!(CallArgSchema::parse(&mut s), Decoded::Done(CallArg::ObjectArg));
    assert_eq!(s.position(), 43);
    let mut s = ByteStream::from_bytes(&shared_object(2));
    assert_eq!(CallArgSchema::parse(&mut s), Decoded::Reject(Rejection::Malformed));
    assert_eq!(s.position(), 0);
}

#[test]
fn call_arg_rejects_unknown_variants() {
    let mut s = ByteStream::from_bytes(&[2, 0, 0]);
    assert_eq!(CallArgSchema::parse(&mut s), Decoded::Reject(Rejection::Unsupported));
    let mut s = ByteStream::from_bytes(&[1, 2, 0]);
    assert_eq!(CallArgSchema::parse(&mut s), Decoded::Reject(Rejection::Unsupported));
}

#[test]
fn call_arg_suspends_and_keeps_the_cursor() {
    let full = pure(&RECIPIENT);
    for k in 0..full.len() {
        let mut s = ByteStream::from_bytes(&full[..k]);
        assert_eq!(CallArgSchema::parse(&mut s), Decoded::Suspend);
        assert_eq!(s.position(), 0);
    }
}

#[test]
fn argument_variants() {
    let mut s = ByteStream::from_bytes(&[0]);
    assert_eq!(ArgumentSchema::parse(&mut s), Decoded::Done(Argument::GasCoin));
    let mut s = ByteStream::from_bytes(&[1, 0x34, 0x12]);
    assert_eq!(ArgumentSchema::parse(&mut s), Decoded::Done(Argument::Input(0x1234)));
    let mut s = ByteStream::from_bytes(&[2, 5, 0]);
    assert_eq!(ArgumentSchema::parse(&mut s), Decoded::Done(Argument::Result(5)));
    let mut s = ByteStream::from_bytes(&[3, 5, 0, 6, 0]);
    assert_eq!(ArgumentSchema::parse(&mut s), Decoded::Done(Argument::NestedResult(5, 6)));
    let mut s = ByteStream::from_bytes(&[4]);
    assert_eq!(ArgumentSchema::parse(&mut s), Decoded::Reject(Rejection::Unsupported));
    let mut s = ByteStream::from_bytes(&[3, 5, 0, 6]);
    assert_eq!(ArgumentSchema::parse(&mut s), Decoded::Suspend);
    assert_eq!(s.position(), 0);
}

fn args<const N: usize>(items: &[Argument]) -> ArrayVec<Argument, N> {
    items.iter().copied().collect()
}

#[test]
fn argument_list_is_bounded() {
    let mut bytes = vec![2u8];
    bytes.extend_from_slice(&input(1));
    bytes.extend_from_slice(&[0]);
    let mut s = ByteStream::from_bytes(&bytes);
    assert_eq!(
        ArgumentSchema::parse_amounts(&mut s),
        Decoded::Done(args::<8>(&[Argument::Input(1), Argument::GasCoin]))
    );
    assert_eq!(s.position(), bytes.len());
    let mut s = ByteStream::from_bytes(&bytes);
    assert_eq!(ArgumentSchema::parse_objects(&mut s), Decoded::Reject(Rejection::Malformed));
    assert_eq!(s.position(), 0);
    let mut s = ByteStream::from_bytes(&[0]);
    assert_eq!(ArgumentSchema::parse_objects(&mut s), Decoded::Done(args::<1>(&[])));
    let mut s = ByteStream::from_bytes(&[1, 2, 7, 0]);
    assert_eq!(
        ArgumentSchema::parse_objects(&mut s),
        Decoded::Done(args::<1>(&[Argument::Result(7)]))
    );
    let mut s = ByteStream::from_bytes(&[1, 2, 7]);
    assert_eq!(ArgumentSchema::parse_objects(&mut s), Decoded::Suspend);
    assert_eq!(s.position(), 0);
    let mut s = ByteStream::from_bytes(&[9]);
    assert_eq!(ArgumentSchema::parse_amounts(&mut s), Decoded::Reject(Rejection::Malformed));
}

#[test]
fn command_variants() {
    let mut s = ByteStream::from_bytes(&split_coins(&[0], &[input(1), input(2)]));
    assert_eq!(
        CommandSchema::parse(&mut s),
        Decoded::Done(Command::SplitCoins(
            Argument::GasCoin,
            args(&[Argument::Input(1), Argument::Input(2)])
        ))
    );
    let mut s = ByteStream::from_bytes(&transfer_object(&[vec![2, 0, 0]], &input(0)));
    assert_eq!(
        CommandSchema::parse(&mut s),
        Decoded::Done(Command::TransferObject(args(&[Argument::Result(0)]), Argument::Input(0)))
    );
    let mut s = ByteStream::from_bytes(&[0, 0]);
    assert_eq!(CommandSchema::parse(&mut s), Decoded::Reject(Rejection::Unsupported));
    let mut s = ByteStream::from_bytes(&[3, 0]);
    assert_eq!(CommandSchema::parse(&mut s), Decoded::Reject(Rejection::Unsupported));
}

#[test]
fn command_rejects_lists_beyond_their_bound() {
    let two = transfer_object(&[vec![0], vec![0]], &input(0));
    let mut s = ByteStream::from_bytes(&two);
    assert_eq!(CommandSchema::parse(&mut s), Decoded::Reject(Rejection::Malformed));
    let nine: Vec<Vec<u8>> = (0..9).map(|i| input(i)).collect();
    let mut s = ByteStream::from_bytes(&split_coins(&[0], &nine));
    assert_eq!(CommandSchema::parse(&mut s), Decoded::Reject(Rejection::Malformed));
    let eight: Vec<Vec<u8>> = (0..8).map(|i| input(i)).collect();
    let mut s = ByteStream::from_bytes(&split_coins(&[0], &eight));
    assert!(matches!(CommandSchema::parse(&mut s), Decoded::Done(_)));
}

#[test]
fn simple_transfer_is_recognized_with_its_total() {
    for v in [0u64, 1, 1_000_000_000, u64::MAX] {
        assert_eq!(
            recognize(&simple_pt(v)),
            Decoded::Done(Transfer { recipient: RECIPIENT, total_amount: v })
        );
    }
}

#[test]
fn simple_transfer_in_the_other_order() {
    let pt = programmable(
        &[pure(&5u64.to_le_bytes()), owned_object(), pure(&RECIPIENT), pure(&[1])],
        &[transfer_object(&[vec![2, 0, 0]], &input(2)), split_coins(&[0], &[input(0)])],
    );
    assert_eq!(
        recognize(&pt),
        Decoded::Done(Transfer { recipient: RECIPIENT, total_amount: 5 })
    );
}

#[test]
fn two_recipient_candidates_are_rejected() {
    let pt = programmable(
        &[pure(&RECIPIENT), pure(&5u64.to_le_bytes()), pure(&OTHER)],
        &[split_coins(&[0], &[input(1)]), transfer_object(&[], &input(0))],
    );
    assert_eq!(recognize(&pt), Decoded::Reject(Rejection::Unsupported));
}

#[test]
fn two_recipient_candidates_are_rejected_before_the_commands_arrive() {
    let mut bytes = vec![2u8];
    bytes.extend_from_slice(&pure(&RECIPIENT));
    bytes.extend_from_slice(&pure(&RECIPIENT));
    assert_eq!(recognize(&bytes), Decoded::Reject(Rejection::Unsupported));
    bytes.extend_from_slice(&[0xff, 0xff, 0xff]);
    assert_eq!(recognize(&bytes), Decoded::Reject(Rejection::Unsupported));
}

#[test]
fn missing_recipient_or_amount_is_rejected() {
    let no_recipient = programmable(
        &[pure(&5u64.to_le_bytes())],
        &[split_coins(&[0], &[input(0)])],
    );
    assert_eq!(recognize(&no_recipient), Decoded::Reject(Rejection::Unsupported));
    let no_amount = programmable(&[pure(&RECIPIENT)], &[transfer_object(&[], &input(0))]);
    assert_eq!(recognize(&no_amount), Decoded::Reject(Rejection::Unsupported));
    assert_eq!(recognize(&programmable(&[], &[])), Decoded::Reject(Rejection::Unsupported));
}

#[test]
fn ninth_amount_is_rejected() {
    let mut inputs = vec![pure(&RECIPIENT)];
    for i in 0..8u64 {
        inputs.push(pure(&i.to_le_bytes()));
    }
    let commands = [split_coins(&[0], &[input(1)]), transfer_object(&[], &input(0))];
    assert_eq!(
        recognize(&programmable(&inputs, &commands)),
        Decoded::Done(Transfer { recipient: RECIPIENT, total_amount: 0 })
    );
    inputs.push(pure(&9u64.to_le_bytes()));
    assert_eq!(
        recognize(&programmable(&inputs, &commands)),
        Decoded::Reject(Rejection::Unsupported)
    );
}

#[test]
fn amounts_are_summed_over_all_splits() {
    let pt = programmable(
        &[pure(&RECIPIENT), pure(&5u64.to_le_bytes()), pure(&7u64.to_le_bytes()), pure(&11u64.to_le_bytes())],
        &[
            split_coins(&[0], &[input(1), input(3)]),
            transfer_object(&[], &input(0)),
            split_coins(&[0], &[input(1), input(0)]),
        ],
    );
    assert_eq!(
        recognize(&pt),
        Decoded::Done(Transfer { recipient: RECIPIENT, total_amount: 21 })
    );
}

#[test]
fn overflowing_total_is_rejected() {
    let pt = programmable(
        &[pure(&RECIPIENT), pure(&u64::MAX.to_le_bytes()), pure(&1u64.to_le_bytes())],
        &[split_coins(&[0], &[input(1), input(2)]), transfer_object(&[], &input(0))],
    );
    assert_eq!(recognize(&pt), Decoded::Reject(Rejection::AmountOverflow));
    let twice = programmable(
        &[pure(&RECIPIENT), pure(&(1u64 << 63).to_le_bytes())],
        &[
            split_coins(&[0], &[input(1)]),
            split_coins(&[0], &[input(1)]),
            transfer_object(&[], &input(0)),
        ],
    );
    assert_eq!(recognize(&twice), Decoded::Reject(Rejection::AmountOverflow));
}

#[test]
fn total_at_the_limit_is_accepted() {
    let pt = programmable(
        &[pure(&RECIPIENT), pure(&(u64::MAX - 1).to_le_bytes()), pure(&1u64.to_le_bytes())],
        &[split_coins(&[0], &[input(1), input(2)]), transfer_object(&[], &input(0))],
    );
    assert_eq!(
        recognize(&pt),
        Decoded::Done(Transfer { recipient: RECIPIENT, total_amount: u64::MAX })
    );
}

#[test]
fn split_from_another_coin_is_rejected() {
    let pt = programmable(
        &[pure(&RECIPIENT), pure(&5u64.to_le_bytes())],
        &[split_coins(&input(1), &[input(1)]), transfer_object(&[], &input(0))],
    );
    assert_eq!(recognize(&pt), Decoded::Reject(Rejection::Unsupported));
}

#[test]
fn split_of_something_that_is_no_input_is_rejected() {
    let pt = programmable(
        &[pure(&RECIPIENT), pure(&5u64.to_le_bytes())],
        &[split_coins(&[0], &[vec![0]]), transfer_object(&[], &input(0))],
    );
    assert_eq!(recognize(&pt), Decoded::Reject(Rejection::Unsupported));
}

#[test]
fn transfer_must_name_the_recipient_input() {
    let wrong_index = programmable(
        &[pure(&RECIPIENT), pure(&5u64.to_le_bytes())],
        &[split_coins(&[0], &[input(1)]), transfer_object(&[], &input(1))],
    );
    assert_eq!(recognize(&wrong_index), Decoded::Reject(Rejection::Unsupported));
    let no_input = programmable(
        &[pure(&RECIPIENT), pure(&5u64.to_le_bytes())],
        &[split_coins(&[0], &[input(1)]), transfer_object(&[], &[0])],
    );
    assert_eq!(recognize(&no_input), Decoded::Reject(Rejection::Unsupported));
}

#[test]
fn exactly_one_transfer_is_needed() {
    let none = programmable(
        &[pure(&RECIPIENT), pure(&5u64.to_le_bytes())],
        &[split_coins(&[0], &[input(1)])],
    );
    assert_eq!(recognize(&none), Decoded::Reject(Rejection::Unsupported));
    let two = programmable(
        &[pure(&RECIPIENT), pure(&5u64.to_le_bytes())],
        &[transfer_object(&[], &input(0)), transfer_object(&[], &input(0))],
    );
    assert_eq!(recognize(&two), Decoded::Reject(Rejection::Unsupported));
}

#[test]
fn add_matching_adds_amounts_of_one_input() {
    let amounts = [(5u64, 1u32), (7, 2), (9, 1)];
    assert_eq!(add_matching(&amounts, 100, 1), Ok(114));
    assert_eq!(add_matching(&amounts, 100, 2), Ok(107));
    assert_eq!(add_matching(&amounts, 100, 3), Ok(100));
    assert_eq!(add_matching(&amounts, u64::MAX - 13, 1), Err(Rejection::AmountOverflow));
    assert_eq!(add_matching(&amounts, u64::MAX - 14, 1), Ok(u64::MAX));
}

#[test]
fn split_total_follows_the_arguments_in_order() {
    let amounts = [(5u64, 1u32), (7, 2)];
    assert_eq!(split_total(&amounts, 0, &[Argument::Input(1), Argument::Input(2)]), Ok(12));
    assert_eq!(split_total(&amounts, 3, &[]), Ok(3));
    assert_eq!(
        split_total(&amounts, u64::MAX, &[Argument::Input(1), Argument::GasCoin]),
        Err(Rejection::AmountOverflow)
    );
    assert_eq!(
        split_total(&amounts, u64::MAX, &[Argument::GasCoin, Argument::Input(1)]),
        Err(Rejection::Unsupported)
    );
}

#[test]
fn apply_command_keeps_the_tally() {
    let amounts = [(5u64, 1u32)];
    let start = Tally { transferred: false, total: 0 };
    let split = Command::SplitCoins(Argument::GasCoin, args(&[Argument::Input(1)]));
    let transfer = Command::TransferObject(args(&[]), Argument::Input(0));
    assert_eq!(
        apply_command(0, &amounts, start, &split),
        Ok(Tally { transferred: false, total: 5 })
    );
    assert_eq!(
        apply_command(0, &amounts, start, &transfer),
        Ok(Tally { transferred: true, total: 0 })
    );
    assert_eq!(
        apply_command(0, &amounts, Tally { transferred: true, total: 0 }, &transfer),
        Err(Rejection::Unsupported)
    );
    assert_eq!(apply_command(1, &amounts, start, &transfer), Err(Rejection::Unsupported));
}

#[test]
fn whole_transaction_reports_recipient_amount_and_budget() {
    let tx = transaction(&simple_pt(1_000_000_000), 2_000_000);
    let mut s = ByteStream::from_bytes(&tx);
    assert_eq!(
        tx_parser(&mut s, ParseChecks::NoChecks, &CreateTxParams::default()),
        Decoded::Done(expected(1_000_000_000, 2_000_000, RECIPIENT))
    );
    assert_eq!(s.position(), tx.len());
}

#[test]
fn whole_transaction_with_an_epoch() {
    let mut tx = transaction(&simple_pt(4), 6);
    tx.pop();
    tx.push(1);
    tx.extend_from_slice(&99u64.to_le_bytes());
    assert_eq!(
        parse(&tx, ParseChecks::PromptUser, &CreateTxParams::default()),
        Decoded::Done(expected(4, 6, RECIPIENT))
    );
    let n = tx.len();
    tx[n - 9] = 2;
    assert_eq!(
        parse(&tx, ParseChecks::PromptUser, &CreateTxParams::default()),
        Decoded::Reject(Rejection::Unsupported)
    );
}

#[test]
fn unsupported_versions_and_kinds_are_rejected() {
    let mut tx = transaction(&simple_pt(4), 6);
    tx[3] = 1;
    assert_eq!(
        parse(&tx, ParseChecks::NoChecks, &CreateTxParams::default()),
        Decoded::Reject(Rejection::Unsupported)
    );
    tx[3] = 0;
    tx[4] = 1;
    assert_eq!(
        parse(&tx, ParseChecks::NoChecks, &CreateTxParams::default()),
        Decoded::Reject(Rejection::Unsupported)
    );
}

#[test]
fn transaction_suspends_on_every_proper_prefix() {
    let tx = transaction(&simple_pt(1_000_000_000), 2_000_000);
    for k in 0..tx.len() {
        let mut s = ByteStream::from_bytes(&tx[..k]);
        assert_eq!(
            tx_parser(&mut s, ParseChecks::NoChecks, &CreateTxParams::default()),
            Decoded::Suspend
        );
        assert_eq!(s.position(), 0);
    }
}

#[test]
fn transaction_result_is_the_same_for_every_cut() {
    let tx = transaction(&simple_pt(123), 456);
    for cut in 0..=tx.len() {
        let mut s = ByteStream::new();
        s.feed(&tx[..cut]);
        let first = tx_parser(&mut s, ParseChecks::NoChecks, &CreateTxParams::default());
        if cut < tx.len() {
            assert_eq!(first, Decoded::Suspend);
            s.feed(&tx[cut..]);
            assert_eq!(
                tx_parser(&mut s, ParseChecks::NoChecks, &CreateTxParams::default()),
                Decoded::Done(expected(123, 456, RECIPIENT))
            );
        } else {
            assert_eq!(first, Decoded::Done(expected(123, 456, RECIPIENT)));
        }
    }
}

#[test]
fn rejection_is_the_same_for_every_cut() {
    let pt = programmable(
        &[pure(&RECIPIENT), pure(&5u64.to_le_bytes())],
        &[split_coins(&input(1), &[input(1)]), transfer_object(&[], &input(0))],
    );
    let tx = transaction(&pt, 456);
    let whole = parse(&tx, ParseChecks::NoChecks, &CreateTxParams::default());
    assert_eq!(whole, Decoded::Reject(Rejection::Unsupported));
    let mut settled = false;
    for cut in 0..=tx.len() {
        let r = parse(&tx[..cut], ParseChecks::NoChecks, &CreateTxParams::default());
        if settled {
            assert_eq!(r, Decoded::Reject(Rejection::Unsupported));
        } else if r != Decoded::Suspend {
            assert_eq!(r, Decoded::Reject(Rejection::Unsupported));
            settled = true;
        }
    }
    assert!(settled);
}

#[test]
fn cross_check_accepts_matching_parameters() {
    let tx = transaction(&simple_pt(1_000), 20);
    assert_eq!(
        parse(&tx, ParseChecks::CheckSwapTx, &expected(1_000, 20, RECIPIENT)),
        Decoded::Done(expected(1_000, 20, RECIPIENT))
    );
}

#[test]
fn cross_check_rejects_each_mismatch() {
    let tx = transaction(&simple_pt(1_000), 20);
    for exp in [
        expected(1_001, 20, RECIPIENT),
        expected(1_000, 21, RECIPIENT),
        expected(1_000, 20, OTHER),
        expected(0, 0, [0; 32]),
    ] {
        assert_eq!(
            parse(&tx, ParseChecks::CheckSwapTx, &exp),
            Decoded::Reject(Rejection::ParamMismatch)
        );
        assert_eq!(
            parse(&tx, ParseChecks::PromptUser, &exp),
            Decoded::Done(expected(1_000, 20, RECIPIENT))
        );
        assert_eq!(
            parse(&tx, ParseChecks::NoChecks, &exp),
            Decoded::Done(expected(1_000, 20, RECIPIENT))
        );
    }
}

#[test]
fn schema_parts_parse_on_their_own() {
    let mut s = ByteStream::from_bytes(&[0, 3, 0x80, 0x01, 9]);
    assert_eq!(intent_parser(&mut s), Decoded::Done(()));
    assert_eq!(s.position(), 4);
    let mut s = ByteStream::from_bytes(&[0, 9]);
    assert_eq!(TransactionExpiration::parse(&mut s), Decoded::Done(()));
    assert_eq!(s.position(), 1);
    let gd = gas_data(2, 77);
    let mut s = ByteStream::from_bytes(&gd);
    assert_eq!(
        gas_data_parser(&mut s, ParseChecks::NoChecks, &CreateTxParams::default()),
        Decoded::Done(77)
    );
    assert_eq!(s.position(), gd.len());
    let mut s = ByteStream::from_bytes(&gd[..gd.len() - 1]);
    assert_eq!(
        gas_data_parser(&mut s, ParseChecks::NoChecks, &CreateTxParams::default()),
        Decoded::Suspend
    );
    let mut s = ByteStream::from_bytes(&77u64.to_le_bytes());
    assert_eq!(
        GasBudget::parse(&mut s, ParseChecks::CheckSwapTx, &expected(0, 78, RECIPIENT)),
        Decoded::Reject(Rejection::ParamMismatch)
    );
    let mut s = ByteStream::from_bytes(&77u64.to_le_bytes());
    assert_eq!(
        GasBudget::parse(&mut s, ParseChecks::CheckSwapTx, &expected(0, 77, RECIPIENT)),
        Decoded::Done(77)
    );
}

#[test]
fn kind_and_data_parse_on_their_own() {
    let pt = simple_pt(9);
    let mut kind = vec![0u8];
    kind.extend_from_slice(&pt);
    let mut s = ByteStream::from_bytes(&kind);
    assert_eq!(
        TransactionKind::parse(&mut s, ParseChecks::NoChecks, &CreateTxParams::default()),
        Decoded::Done(Transfer { recipient: RECIPIENT, total_amount: 9 })
    );
    let mut s = ByteStream::from_bytes(&pt);
    assert_eq!(
        ProgrammableTransaction::parse(&mut s, ParseChecks::CheckSwapTx, &expected(8, 0, RECIPIENT)),
        Decoded::Reject(Rejection::ParamMismatch)
    );
    let tx = transaction(&pt, 3);
    let mut s = ByteStream::from_bytes(&tx[3..]);
    assert_eq!(
        TransactionData::parse(&mut s, ParseChecks::NoChecks, &CreateTxParams::default()),
        Decoded::Done(expected(9, 3, RECIPIENT))
    );
}

#[test]
fn session_goes_from_idle_to_parsing_to_completed() {
    let tx = payload(&transaction(&simple_pt(42), 7));
    let mut state = ParserState::new();
    assert_eq!(state.current_phase(), Phase::Idle);
    assert!(!state.begin(ParseChecks::NoChecks, CreateTxParams::default()));
    assert_eq!(state.current_phase(), Phase::Parsing);
    for chunk in tx[..tx.len() - 1].chunks(7) {
        assert_eq!(state.resume(chunk), Decoded::Suspend);
        assert_eq!(state.current_phase(), Phase::Parsing);
    }
    assert_eq!(state.resume(&tx[tx.len() - 1..]), Decoded::Done(expected(42, 7, RECIPIENT)));
    assert_eq!(state.current_phase(), Phase::Completed);
    state.reset();
    assert_eq!(state.current_phase(), Phase::Idle);
}

#[test]
fn session_result_does_not_depend_on_the_chunk_size() {
    let tx = payload(&transaction(&simple_pt(42), 7));
    for size in 1..=tx.len() {
        let mut state = ParserState::new();
        state.begin(ParseChecks::CheckSwapTx, expected(42, 7, RECIPIENT));
        let mut last = Decoded::Suspend;
        for chunk in tx.chunks(size) {
            assert_eq!(last, Decoded::Suspend);
            last = state.resume(chunk);
        }
        assert_eq!(last, Decoded::Done(expected(42, 7, RECIPIENT)));
    }
}

#[test]
fn session_discards_a_suspended_parse_on_a_new_one() {
    let tx = payload(&transaction(&simple_pt(42), 7));
    let mut state = ParserState::new();
    state.begin(ParseChecks::NoChecks, CreateTxParams::default());
    assert_eq!(state.resume(&tx[..10]), Decoded::Suspend);
    assert!(state.begin(ParseChecks::NoChecks, CreateTxParams::default()));
    assert_eq!(state.resume(&tx), Decoded::Done(expected(42, 7, RECIPIENT)));
}

#[test]
fn session_keeps_its_result_and_takes_further_chunks_in() {
    let tx = payload(&transaction(&simple_pt(42), 7));
    let mut state = ParserState::new();
    assert_eq!(state.resume(&tx), Decoded::Reject(Rejection::Malformed));
    assert_eq!(state.current_phase(), Phase::Idle);
    assert_eq!(state.received_bytes(), &[][..]);
    state.begin(ParseChecks::NoChecks, CreateTxParams::default());
    assert_eq!(state.resume(&tx), Decoded::Done(expected(42, 7, RECIPIENT)));
    assert_eq!(state.resume(&[1, 2, 3]), Decoded::Done(expected(42, 7, RECIPIENT)));
    assert_eq!(state.current_phase(), Phase::Completed);
    assert_eq!(state.received_bytes().len(), tx.len() + 3);
    state.begin(ParseChecks::NoChecks, CreateTxParams::default());
    assert_eq!(state.resume(&[0, 0, 0, 0, 0, 0, 0, 1]), Decoded::Reject(Rejection::Unsupported));
    assert_eq!(state.resume(&[0]), Decoded::Reject(Rejection::Unsupported));
}

#[test]
fn payload_parser_passes_over_the_length() {
    let tx = transaction(&simple_pt(42), 7);
    let p = payload(&tx);
    let mut s = ByteStream::from_bytes(&p);
    assert_eq!(
        payload_parser(&mut s, ParseChecks::NoChecks, &CreateTxParams::default()),
        Decoded::Done(expected(42, 7, RECIPIENT))
    );
    assert_eq!(s.position(), p.len());
    let mut s = ByteStream::from_bytes(&p[..3]);
    assert_eq!(
        payload_parser(&mut s, ParseChecks::NoChecks, &CreateTxParams::default()),
        Decoded::Suspend
    );
    let mut s = ByteStream::from_bytes(&p[..p.len() - 1]);
    assert_eq!(
        payload_parser(&mut s, ParseChecks::NoChecks, &CreateTxParams::default()),
        Decoded::Suspend
    );
    assert_eq!(s.position(), 0);
}

fn one_shot(p: &[u8], checks: ParseChecks, exp: &CreateTxParams) -> Decoded<CreateTxParams> {
    let mut s = ByteStream::from_bytes(p);
    payload_parser(&mut s, checks, exp)
}

fn sample_payloads() -> Vec<Vec<u8>> {
    let good = simple_pt(42);
    let many = programmable(
        &[
            owned_object(),
            pure(&5u64.to_le_bytes()),
            shared_object(0),
            pure(&RECIPIENT),
            pure(&[1, 2, 3]),
            pure(&7u64.to_le_bytes()),
        ],
        &[
            split_coins(&[0], &[input(1), input(5)]),
            split_coins(&[0], &[]),
            transfer_object(&[vec![3, 0, 0, 1, 0]], &input(3)),
            split_coins(&[0], &[input(5)]),
        ],
    );
    let two_recipients = programmable(
        &[pure(&RECIPIENT), pure(&OTHER), pure(&5u64.to_le_bytes())],
        &[split_coins(&[0], &[input(2)]), transfer_object(&[], &input(0))],
    );
    let other_coin = programmable(
        &[pure(&RECIPIENT), pure(&5u64.to_le_bytes())],
        &[split_coins(&input(1), &[input(1)]), transfer_object(&[], &input(0))],
    );
    let overflow = programmable(
        &[pure(&RECIPIENT), pure(&u64::MAX.to_le_bytes())],
        &[split_coins(&[0], &[input(1), input(1)]), transfer_object(&[], &input(0))],
    );
    let no_transfer = programmable(
        &[pure(&RECIPIENT), pure(&5u64.to_le_bytes())],
        &[split_coins(&[0], &[input(1)])],
    );
    let mut bad_expiration = transaction(&good, 7);
    let n = bad_expiration.len();
    bad_expiration[n - 1] = 9;
    let mut bad_version = transaction(&good, 7);
    bad_version[3] = 1;
    let mut bad_intent = transaction(&good, 7);
    bad_intent[0] = 0x80;
    bad_intent[1] = 0x00;
    vec![
        payload(&transaction(&good, 7)),
        payload(&transaction(&many, 1_000)),
        payload(&transaction(&two_recipients, 7)),
        payload(&transaction(&other_coin, 7)),
        payload(&transaction(&overflow, 7)),
        payload(&transaction(&no_transfer, 7)),
        payload(&bad_expiration),
        payload(&bad_version),
        payload(&bad_intent),
    ]
}

#[test]
fn resumed_parse_agrees_with_a_parse_in_one_go_after_every_byte() {
    for p in sample_payloads() {
        for (checks, exp) in [
            (ParseChecks::NoChecks, CreateTxParams::default()),
            (ParseChecks::CheckSwapTx, expected(42, 7, RECIPIENT)),
            (ParseChecks::CheckSwapTx, expected(43, 7, RECIPIENT)),
            (ParseChecks::CheckSwapTx, expected(42, 8, RECIPIENT)),
            (ParseChecks::CheckSwapTx, expected(12, 1_000, RECIPIENT)),
        ] {
            let mut state = ParserState::new();
            state.begin(checks, exp);
            for k in 0..p.len() {
                let r = state.resume(&p[k..k + 1]);
                assert_eq!(r, one_shot(&p[..k + 1], checks, &exp));
                assert_eq!(
                    state.current_phase(),
                    if r == Decoded::Suspend { Phase::Parsing } else { Phase::Completed }
                );
            }
        }
    }
}

#[test]
fn resumed_parse_agrees_with_a_parse_in_one_go_for_every_chunk_size() {
    for p in sample_payloads() {
        let whole = one_shot(&p, ParseChecks::NoChecks, &CreateTxParams::default());
        for size in 1..=p.len() {
            let mut state = ParserState::new();
            state.begin(ParseChecks::NoChecks, CreateTxParams::default());
            let mut last = Decoded::Suspend;
            for chunk in p.chunks(size) {
                last = state.resume(chunk);
            }
            assert_eq!(last, whole);
        }
    }
}

#[test]
fn sample_payloads_cover_acceptance_and_each_rejection() {
    let results: Vec<_> = sample_payloads()
        .iter()
        .map(|p| one_shot(p, ParseChecks::NoChecks, &CreateTxParams::default()))
        .collect();
    assert_eq!(
        results,
        vec![
            Decoded::Done(expected(42, 7, RECIPIENT)),
            Decoded::Done(expected(19, 1_000, RECIPIENT)),
            Decoded::Reject(Rejection::Unsupported),
            Decoded::Reject(Rejection::Unsupported),
            Decoded::Reject(Rejection::AmountOverflow),
            Decoded::Reject(Rejection::Unsupported),
            Decoded::Reject(Rejection::Unsupported),
            Decoded::Reject(Rejection::Unsupported),
            Decoded::Reject(Rejection::Malformed),
        ]
    );
}

#[test]
fn recognition_goes_on_behind_what_it_has_decoded() {
    let pt = simple_pt(42);
    let mut s = ByteStream::new();
    let mut recognition = Recognition::new(0);
    assert_eq!(recognition.advance(&mut s), Decoded::Suspend);
    assert_eq!(s.position(), 0);
    s.feed(&pt[..40]);
    assert_eq!(recognition.advance(&mut s), Decoded::Suspend);
    assert_eq!(s.position(), 35);
    s.feed(&pt[40..pt.len() - 1]);
    assert_eq!(recognition.advance(&mut s), Decoded::Suspend);
    assert!(s.position() > 45);
    s.feed(&pt[pt.len() - 1..]);
    assert_eq!(
        recognition.advance(&mut s),
        Decoded::Done(Transfer { recipient: RECIPIENT, total_amount: 42 })
    );
    assert_eq!(s.position(), pt.len());
}
