use sui::address::{address_preimage, address_response, to_hex_text, SuiPubKeyAddress};
use sui::hasher::{hash_plan, piece_bounds};
use sui::interface::{ParseChecks, Status};
use sui::path::{parse_bip32_path, path_bytes_behind, path_has_prefix, BIP32_PREFIX};
use sui::outcome::{Decoded, Rejection};
use sui::pubkey::{AddressAction, AddressEvent, AddressFlow, AddressPrompt};
use sui::signing::{accepts_path, declared_bytes, Action, Event, Prompt, SignFlow};
use sui::stream::ByteStream;
use sui::swap::params::CreateTxParams;

const R: [u8; 32] = [0x11; 32];
const SENDER: [u8; 32] = [0x22; 32];
const DIGEST: [u8; 32] = [0x33; 32];

fn input_arg(ix: u16) -> Vec<u8> {
    let mut v = vec![1u8];
    v.extend_from_slice(&ix.to_le_bytes());
    v
}

fn scenario_tx(coin: &[u8]) -> Vec<u8> {
    let mut v = vec![0u8, 0, 0];
    v.push(0);
    v.push(0);
    v.push(2);
    v.extend_from_slice(&[0, 32]);
    v.extend_from_slice(&R);
    v.extend_from_slice(&[0, 8]);
    v.extend_from_slice(&1_000_000_000u64.to_le_bytes());
    v.push(2);
    v.push(2);
    v.extend_from_slice(coin);
    v.push(1);
    v.extend_from_slice(&input_arg(1));
    v.push(1);
    v.push(0);
    v.extend_from_slice(&input_arg(0));
    v.extend_from_slice(&[5u8; 32]);
    v.push(1);
    v.extend_from_slice(&[9u8; 73]);
    v.extend_from_slice(&[3u8; 32]);
    v.extend_from_slice(&1000u64.to_le_bytes());
    v.extend_from_slice(&2_000_000u64.to_le_bytes());
    v.push(0);
    v
}

fn payload(tx: &[u8]) -> Vec<u8> {
    let mut v = (tx.len() as u32).to_le_bytes().to_vec();
    v.extend_from_slice(tx);
    v
}

fn payload_with_length(tx: &[u8], length: u32) -> Vec<u8> {
    let mut v = length.to_le_bytes().to_vec();
    v.extend_from_slice(tx);
    v
}

fn path_bytes(segments: &[u32]) -> Vec<u8> {
    let mut v = vec![segments.len() as u8];
    for s in segments {
        v.extend_from_slice(&s.to_le_bytes());
    }
    v
}

fn good_path() -> Vec<u8> {
    path_bytes(&BIP32_PREFIX)
}

fn bad_path() -> Vec<u8> {
    path_bytes(&[0x8000002c, 0x80000000, 0x8000007b])
}

fn known() -> Vec<u8> {
    payload(&scenario_tx(&[0]))
}

fn unknown() -> Vec<u8> {
    payload(&scenario_tx(&input_arg(1)))
}

fn start(
    checks: ParseChecks,
    blind: bool,
    exp: &CreateTxParams,
    payload: &[u8],
    path: &[u8],
) -> (SignFlow, Action) {
    let (mut flow, first) = SignFlow::begin(checks, blind, *exp, path);
    if first != Action::NeedData {
        return (flow, first);
    }
    let action = flow.receive(payload);
    (flow, action)
}

fn expected() -> CreateTxParams {
    CreateTxParams { amount: 1_000_000_000, fee: 2_000_000, destination_address: R }
}

fn read_path(bytes: &[u8]) -> (Decoded<Vec<u32>>, usize) {
    let mut s = ByteStream::from_bytes(bytes);
    let r = match parse_bip32_path(&mut s) {
        Decoded::Done(path) => {
            assert_eq!(path.as_slice(), path.segments().as_slice());
            Decoded::Done(path.as_slice().to_vec())
        }
        Decoded::Suspend => Decoded::Suspend,
        Decoded::Reject(why) => Decoded::Reject(why),
    };
    (r, s.position())
}

#[test]
fn bip32_path_is_read_with_its_count() {
    assert_eq!(read_path(&good_path()), (Decoded::Done(BIP32_PREFIX.to_vec()), 21));
    assert_eq!(read_path(&[0]), (Decoded::Done(vec![]), 1));
    assert_eq!(read_path(&[]), (Decoded::Suspend, 0));
    assert_eq!(read_path(&good_path()[..20]), (Decoded::Suspend, 0));
    assert_eq!(
        read_path(&[2, 1, 0, 0, 0, 0xff, 0xff, 0xff, 0xff, 9]),
        (Decoded::Done(vec![1, u32::MAX]), 9)
    );
}

#[test]
fn bip32_path_of_more_than_ten_segments_is_rejected() {
    assert_eq!(read_path(&path_bytes(&[1; 11])), (Decoded::Reject(Rejection::Malformed), 0));
    assert_eq!(read_path(&path_bytes(&[1; 10])), (Decoded::Done(vec![1; 10]), 41));
}

#[test]
fn path_prefix_is_purpose_and_coin_type() {
    assert_eq!(BIP32_PREFIX, [0x8000002c, 0x80000310, 0x8000007b, 0x80000000, 0x80000000]);
    assert!(path_has_prefix(&BIP32_PREFIX));
    assert!(path_has_prefix(&[0x8000002c, 0x80000310]));
    assert!(path_has_prefix(&[0x8000002c, 0x80000310, 7, 8, 9, 10]));
    assert!(!path_has_prefix(&[0x8000002c]));
    assert!(!path_has_prefix(&[]));
    assert!(!path_has_prefix(&[0x8000002c, 0x80000311, 0x8000007b]));
    assert!(!path_has_prefix(&[0x8000002d, 0x80000310, 0x8000007b]));
    assert!(!path_has_prefix(&[0x2c, 0x310]));
}

#[test]
fn path_bytes_are_accepted_only_whole_and_with_the_prefix() {
    assert!(accepts_path(&good_path()));
    assert!(!accepts_path(&bad_path()));
    assert!(!accepts_path(&good_path()[..20]));
    assert!(!accepts_path(&[]));
    assert!(!accepts_path(&path_bytes(&[0x8000002c; 11])));
}

#[test]
fn declared_bytes_follow_the_length() {
    assert_eq!(declared_bytes(&[2, 0, 0, 0, 7, 8, 9]), Some(&[7u8, 8][..]));
    assert_eq!(declared_bytes(&[0, 0, 0, 0]), Some(&[][..]));
    assert_eq!(declared_bytes(&[3, 0, 0, 0, 7, 8]), None);
    assert_eq!(declared_bytes(&[0, 0, 0]), None);
    assert_eq!(declared_bytes(&[0xff, 0xff, 0xff, 0xff, 1]), None);
}

#[test]
fn interactive_flow_of_the_example_transaction() {
    let (mut flow, first) = start(ParseChecks::PromptUser,
        false,
        &CreateTxParams::default(),
        &known(),
        &good_path(),
    );
    assert_eq!(first, Action::Show(Prompt::Transfer));
    assert_eq!(flow.advance(Event::Accepted), Action::DeriveAddress);
    assert_eq!(flow.advance(Event::Address(SENDER)), Action::Show(Prompt::From(SENDER)));
    assert_eq!(flow.advance(Event::Accepted), Action::Show(Prompt::To(R)));
    assert_eq!(flow.advance(Event::Accepted), Action::Show(Prompt::Amount(1_000_000_000)));
    assert_eq!(flow.advance(Event::Accepted), Action::Show(Prompt::MaxGas(2_000_000)));
    assert_eq!(flow.advance(Event::Accepted), Action::Show(Prompt::SignTransaction));
    assert_eq!(flow.advance(Event::Accepted), Action::HashTransaction);
    assert_eq!(flow.advance(Event::Digest(DIGEST)), Action::Sign(DIGEST));
    assert!(!flow.is_finished());
    assert_eq!(flow.advance(Event::Signed), Action::Reply);
    assert!(flow.is_finished());
    assert_eq!(flow.advance(Event::Accepted), Action::Reject(Status::Unspecified));
}

#[test]
fn refusal_at_any_prompt_cancels() {
    for accepted in 0..6 {
        let (mut flow, _) = start(ParseChecks::PromptUser,
            true,
            &CreateTxParams::default(),
            &known(),
            &good_path(),
        );
        let mut answered = 0;
        let mut stage = 0;
        loop {
            if stage == 1 {
                flow.advance(Event::Address(SENDER));
                stage += 1;
                continue;
            }
            if answered == accepted {
                assert_eq!(flow.advance(Event::Declined), Action::Reject(Status::UserCancelled));
                assert!(flow.is_finished());
                break;
            }
            flow.advance(Event::Accepted);
            answered += 1;
            stage += 1;
        }
    }
}

#[test]
fn failed_signature_is_unspecified() {
    let (mut flow, _) = start(ParseChecks::CheckSwapTx,
        false,
        &expected(),
        &known(),
        &good_path(),
    );
    flow.advance(Event::Address(SENDER));
    assert_eq!(flow.advance(Event::Digest(DIGEST)), Action::Sign(DIGEST));
    assert_eq!(flow.advance(Event::SignFailed), Action::Reject(Status::Unspecified));
    assert!(flow.is_finished());
}

#[test]
fn failed_key_derivation_cancels() {
    let (mut flow, first) = start(ParseChecks::CheckSwapTx,
        false,
        &expected(),
        &known(),
        &good_path(),
    );
    assert_eq!(first, Action::DeriveAddress);
    assert_eq!(flow.advance(Event::KeyFailed), Action::Reject(Status::UserCancelled));
}

#[test]
fn swap_flow_with_matching_parameters_never_prompts() {
    let (mut flow, first) = start(ParseChecks::CheckSwapTx,
        false,
        &expected(),
        &known(),
        &good_path(),
    );
    assert_eq!(first, Action::DeriveAddress);
    assert_eq!(flow.advance(Event::Address(SENDER)), Action::HashTransaction);
    assert_eq!(flow.advance(Event::Digest(DIGEST)), Action::Sign(DIGEST));
    assert_eq!(flow.advance(Event::Signed), Action::Reply);
}

#[test]
fn swap_flow_rejects_each_mismatch() {
    for exp in [
        CreateTxParams { amount: 999_999_999, ..expected() },
        CreateTxParams { fee: 2_000_001, ..expected() },
        CreateTxParams { destination_address: [0x12; 32], ..expected() },
    ] {
        let (mut flow, first) =
            start(ParseChecks::CheckSwapTx, true, &exp, &known(), &good_path());
        assert_eq!(first, Action::DeriveAddress);
        assert_eq!(
            flow.advance(Event::Address(SENDER)),
            Action::Reject(Status::SwapTxParamMismatch)
        );
        assert!(flow.is_finished());
    }
}

#[test]
fn swap_flow_never_signs_what_is_not_recognized() {
    for blind in [false, true] {
        let (flow, first) =
            start(ParseChecks::CheckSwapTx, blind, &expected(), &unknown(), &good_path());
        assert_eq!(first, Action::Reject(Status::NotSupported));
        assert!(flow.is_finished());
    }
}

#[test]
fn unrecognized_transaction_without_blind_signing_is_not_supported() {
    for answer in [Event::Accepted, Event::Declined] {
        let (mut flow, first) = start(ParseChecks::PromptUser,
            false,
            &CreateTxParams::default(),
            &unknown(),
            &good_path(),
        );
        assert_eq!(first, Action::Show(Prompt::NotRecognizedBlocked));
        assert_eq!(flow.advance(answer), Action::Reject(Status::NotSupported));
        assert!(flow.is_finished());
    }
}

#[test]
fn unrecognized_transaction_with_blind_signing_shows_its_hash() {
    let (mut flow, first) = start(ParseChecks::PromptUser,
        true,
        &CreateTxParams::default(),
        &unknown(),
        &good_path(),
    );
    assert_eq!(first, Action::Show(Prompt::NotRecognized));
    assert_eq!(flow.advance(Event::Accepted), Action::HashTransaction);
    assert_eq!(
        flow.advance(Event::Digest(DIGEST)),
        Action::Show(Prompt::TransactionHash(DIGEST))
    );
    assert_eq!(flow.advance(Event::Accepted), Action::Show(Prompt::BlindSignTransaction));
    assert_eq!(flow.advance(Event::Accepted), Action::Sign(DIGEST));
    assert_eq!(flow.advance(Event::Signed), Action::Reply);
}

#[test]
fn blind_signing_can_be_declined_at_each_prompt() {
    for accepted in 0..3 {
        let (mut flow, _) = start(ParseChecks::PromptUser,
            true,
            &CreateTxParams::default(),
            &unknown(),
            &good_path(),
        );
        let mut n = 0;
        if n < accepted {
            flow.advance(Event::Accepted);
            flow.advance(Event::Digest(DIGEST));
            n += 1;
        }
        while n < accepted {
            flow.advance(Event::Accepted);
            n += 1;
        }
        assert_eq!(flow.advance(Event::Declined), Action::Reject(Status::UserCancelled));
    }
}

#[test]
fn wrong_prefix_is_rejected_for_a_recognized_transaction() {
    let (mut flow, first) = start(ParseChecks::PromptUser,
        true,
        &CreateTxParams::default(),
        &known(),
        &bad_path(),
    );
    assert_eq!(first, Action::Show(Prompt::Transfer));
    assert_eq!(flow.advance(Event::Accepted), Action::Reject(Status::InvalidParameter));
    assert!(flow.is_finished());
}

#[test]
fn wrong_prefix_is_rejected_for_a_swap() {
    let (flow, first) =
        start(ParseChecks::CheckSwapTx, true, &expected(), &known(), &bad_path());
    assert_eq!(first, Action::Reject(Status::InvalidParameter));
    assert!(flow.is_finished());
}

#[test]
fn wrong_prefix_is_rejected_for_a_blind_signature() {
    let (mut flow, _) = start(ParseChecks::PromptUser,
        true,
        &CreateTxParams::default(),
        &unknown(),
        &bad_path(),
    );
    flow.advance(Event::Accepted);
    flow.advance(Event::Digest(DIGEST));
    flow.advance(Event::Accepted);
    assert_eq!(flow.advance(Event::Accepted), Action::Reject(Status::InvalidParameter));
}

#[test]
fn payload_that_is_cut_short_is_invalid() {
    let mut p = known();
    p.pop();
    let (mut flow, first) =
        start(ParseChecks::PromptUser, true, &CreateTxParams::default(), &p, &good_path());
    assert_eq!(first, Action::NeedData);
    assert_eq!(flow.signed_bytes(), None);
    assert_eq!(flow.end_of_input(), Action::Reject(Status::InvalidParameter));
    assert!(flow.is_finished());
}

#[test]
fn end_of_input_at_another_time_fails_the_request() {
    let (mut flow, first) =
        start(ParseChecks::PromptUser, true, &CreateTxParams::default(), &known(), &good_path());
    assert_eq!(first, Action::Show(Prompt::Transfer));
    assert_eq!(flow.end_of_input(), Action::Reject(Status::Unspecified));
    assert!(flow.is_finished());
}

#[test]
fn chunk_at_another_time_fails_the_request() {
    let (mut flow, first) =
        start(ParseChecks::PromptUser, true, &CreateTxParams::default(), &known(), &good_path());
    assert_eq!(first, Action::Show(Prompt::Transfer));
    assert_eq!(flow.receive(&[1, 2, 3]), Action::Reject(Status::Unspecified));
    assert!(flow.is_finished());
}

#[test]
fn first_step_is_the_same_for_every_chunk_size() {
    for (payload, want) in [
        (known(), Action::Show(Prompt::Transfer)),
        (unknown(), Action::Show(Prompt::NotRecognized)),
    ] {
        for size in 1..=payload.len() {
            let (mut flow, first) = SignFlow::begin(
                ParseChecks::PromptUser,
                true,
                CreateTxParams::default(),
                &good_path(),
            );
            assert_eq!(first, Action::NeedData);
            let mut last = Action::NeedData;
            for chunk in payload.chunks(size) {
                assert_eq!(last, Action::NeedData);
                last = flow.receive(chunk);
            }
            assert_eq!(last, want);
            assert_eq!(flow.signed_bytes(), Some(&payload[4..]));
        }
    }
}

#[test]
fn swap_rejects_as_soon_as_the_payload_is_rejected() {
    let payload = unknown();
    let (mut flow, _) =
        SignFlow::begin(ParseChecks::CheckSwapTx, false, expected(), &good_path());
    let mut rejected_at = None;
    for (i, b) in payload.iter().enumerate() {
        match flow.receive(&[*b]) {
            Action::NeedData => {}
            Action::Reject(Status::NotSupported) => {
                rejected_at = Some(i);
                break;
            }
            other => panic!("{:?}", other),
        }
    }
    assert!(rejected_at.unwrap() < payload.len() - 1);
    assert!(flow.is_finished());
}

#[test]
fn blind_signing_waits_for_the_whole_payload() {
    let payload = unknown();
    let (mut flow, _) = SignFlow::begin(
        ParseChecks::PromptUser,
        true,
        CreateTxParams::default(),
        &good_path(),
    );
    for b in &payload[..payload.len() - 1] {
        assert_eq!(flow.receive(&[*b]), Action::NeedData);
    }
    assert_eq!(
        flow.receive(&payload[payload.len() - 1..]),
        Action::Show(Prompt::NotRecognized)
    );
    assert_eq!(flow.signed_bytes(), Some(&payload[4..]));
}

#[test]
fn bytes_behind_the_end_of_the_payload_are_dropped() {
    let mut payload = known();
    let n = payload.len();
    payload.extend_from_slice(&[0xee; 9]);
    let (flow, first) =
        start(ParseChecks::PromptUser, true, &CreateTxParams::default(), &payload, &good_path());
    assert_eq!(first, Action::Show(Prompt::Transfer));
    assert_eq!(flow.signed_bytes(), Some(&payload[4..n]));
    let tx = scenario_tx(&[0]);
    let mut cut = payload_with_length(&tx, tx.len() as u32 - 1);
    cut.extend_from_slice(&[0xee; 9]);
    let (_, first) =
        start(ParseChecks::PromptUser, true, &CreateTxParams::default(), &cut, &good_path());
    assert_eq!(first, Action::Show(Prompt::NotRecognized));
}

#[test]
fn transaction_that_its_declared_bytes_cut_short_is_not_recognized() {
    let tx = scenario_tx(&[0]);
    let p = payload(&tx[..tx.len() - 1]);
    let (_, first) =
        start(ParseChecks::PromptUser, true, &CreateTxParams::default(), &p, &good_path());
    assert_eq!(first, Action::Show(Prompt::NotRecognized));
}

#[test]
fn flow_without_checks_is_refused() {
    let (flow, first) = start(ParseChecks::NoChecks,
        true,
        &CreateTxParams::default(),
        &known(),
        &good_path(),
    );
    assert_eq!(first, Action::Reject(Status::Unspecified));
    assert!(flow.is_finished());
}

#[test]
fn unexpected_event_ends_the_request() {
    let (mut flow, _) = start(ParseChecks::PromptUser,
        true,
        &CreateTxParams::default(),
        &known(),
        &good_path(),
    );
    assert_eq!(flow.advance(Event::Signed), Action::Reject(Status::Unspecified));
    assert!(flow.is_finished());
}

#[test]
fn hash_plan_splits_into_chunks_and_single_bytes() {
    assert_eq!(hash_plan(0), (0, 0));
    assert_eq!(hash_plan(127), (0, 127));
    assert_eq!(hash_plan(128), (1, 0));
    assert_eq!(hash_plan(300), (2, 44));
}

#[test]
fn hash_pieces_cover_the_bytes_in_order() {
    for length in [1usize, 5, 127, 128, 129, 256, 300] {
        let (chunks, rest) = hash_plan(length);
        let mut at = 0;
        for index in 0..chunks + rest {
            let (start, end) = piece_bounds(length, index);
            assert_eq!(start, at);
            assert_eq!(end - start, if index < chunks { 128 } else { 1 });
            at = end;
        }
        assert_eq!(at, length);
    }
}

#[test]
fn address_preimage_is_flag_and_key() {
    let key = [7u8; 32];
    let mut want = vec![0u8];
    want.extend_from_slice(&key);
    assert_eq!(address_preimage(&key).as_slice(), &want[..]);
    assert_eq!(address_preimage(&[7u8; 33]).as_slice(), &[0u8][..]);
    assert_eq!(address_preimage(&[]).as_slice(), &[0u8][..]);
    assert_eq!(address_preimage(&[5u8; 3]).as_slice(), &[0u8, 5, 5, 5][..]);
}

#[test]
fn hex_text_is_lower_case_with_prefix() {
    assert_eq!(to_hex_text(&[0x00, 0x9a, 0xff, 0x1b]), b"0x009aff1b".to_vec());
    assert_eq!(to_hex_text(&[]), b"0x".to_vec());
}

#[test]
fn pub_key_address_keeps_key_and_address() {
    let a = SuiPubKeyAddress::get_address(&[1, 2, 3], [0xab; 32]);
    assert_eq!(a.get_binary_address(), &[0xab; 32][..]);
    assert_eq!(a.key_bytes(), &[1, 2, 3][..]);
    let mut want = b"0x".to_vec();
    for _ in 0..32 {
        want.extend_from_slice(b"ab");
    }
    assert_eq!(a.to_text(), want);
}

#[test]
fn address_response_has_both_lengths() {
    let key = [7u8; 32];
    let address = [9u8; 32];
    let r = address_response(&key, &address).unwrap();
    assert_eq!(r.len(), 66);
    assert_eq!(r[0], 32);
    assert_eq!(&r[1..33], &key[..]);
    assert_eq!(r[33], 32);
    assert_eq!(&r[34..], &address[..]);
    assert_eq!(address_response(&[], &[]).unwrap().as_slice(), &[0u8, 0][..]);
    assert_eq!(address_response(&[1u8; 200], &[2u8; 19]), None);
    assert_eq!(address_response(&[1u8; 200], &[2u8; 18]).unwrap().len(), 220);
    assert_eq!(address_response(&[1u8; 219], &[]), None);
    assert_eq!(address_response(&[1u8; 218], &[]).unwrap().len(), 220);
    assert_eq!(address_response(&[1u8; 220], &[]), None);
    assert_eq!(address_response(&[1u8; 256], &[]), None);
}

#[test]
fn address_flow_without_prompt_answers_at_once() {
    let (mut flow, first) = AddressFlow::begin(&good_path(), false);
    assert_eq!(first, AddressAction::DeriveKey);
    let action = flow.advance(AddressEvent::Key { key: vec![7; 32], address: [9; 32] });
    assert_eq!(action, AddressAction::Reply(address_response(&[7; 32], &[9; 32]).unwrap()));
}

#[test]
fn address_flow_with_prompt_asks_three_times() {
    let (mut flow, first) = AddressFlow::begin(&good_path(), true);
    assert_eq!(first, AddressAction::DeriveKey);
    assert_eq!(
        flow.advance(AddressEvent::Key { key: vec![7; 32], address: [9; 32] }),
        AddressAction::Show(AddressPrompt::ProvidePublicKey)
    );
    assert_eq!(
        flow.advance(AddressEvent::Accepted),
        AddressAction::Show(AddressPrompt::Address([9; 32]))
    );
    assert_eq!(flow.advance(AddressEvent::Accepted), AddressAction::Show(AddressPrompt::Confirm));
    assert_eq!(
        flow.advance(AddressEvent::Accepted),
        AddressAction::Reply(address_response(&[7; 32], &[9; 32]).unwrap())
    );
    assert_eq!(flow.advance(AddressEvent::Accepted), AddressAction::Reject(Status::Unspecified));
}

#[test]
fn address_flow_refusal_and_failure_cancel() {
    let (mut flow, _) = AddressFlow::begin(&good_path(), true);
    assert_eq!(flow.advance(AddressEvent::KeyFailed), AddressAction::Reject(Status::UserCancelled));
    let (mut flow, _) = AddressFlow::begin(&good_path(), true);
    flow.advance(AddressEvent::Key { key: vec![7; 32], address: [9; 32] });
    flow.advance(AddressEvent::Accepted);
    assert_eq!(flow.advance(AddressEvent::Declined), AddressAction::Reject(Status::UserCancelled));
    let (mut flow, _) = AddressFlow::begin(&good_path(), false);
    assert_eq!(
        flow.advance(AddressEvent::Key { key: vec![7; 200], address: [9; 32] }),
        AddressAction::Reject(Status::UserCancelled)
    );
}

#[test]
fn address_flow_needs_the_prefix() {
    let (_, first) = AddressFlow::begin(&bad_path(), false);
    assert_eq!(first, AddressAction::Reject(Status::InvalidParameter));
    let (_, first) = AddressFlow::begin(&[], true);
    assert_eq!(first, AddressAction::Reject(Status::InvalidParameter));
}

#[test]
fn example_transfer_is_recognized_and_shown() {
    let (mut flow, first) = start(
        ParseChecks::PromptUser,
        false,
        &CreateTxParams::default(),
        &known(),
        &good_path(),
    );
    assert_eq!(first, Action::Show(Prompt::Transfer));
    flow.advance(Event::Accepted);
    flow.advance(Event::Address(SENDER));
    assert_eq!(flow.advance(Event::Accepted), Action::Show(Prompt::To(R)));
    let amount = match flow.advance(Event::Accepted) {
        Action::Show(Prompt::Amount(amount)) => amount,
        other => panic!("{:?}", other),
    };
    let gas = match flow.advance(Event::Accepted) {
        Action::Show(Prompt::MaxGas(gas)) => gas,
        other => panic!("{:?}", other),
    };
    let shown = |v| {
        let (whole, fraction) = sui::utils::get_amount_in_decimals(v);
        format!("{}.{}", whole, fraction.as_str())
    };
    assert_eq!(shown(amount), "1.0");
    assert_eq!(shown(gas), "0.002");
}

#[test]
fn example_with_another_coin_source_falls_back_to_blind_signing() {
    let (_, first) = start(
        ParseChecks::PromptUser,
        true,
        &CreateTxParams::default(),
        &unknown(),
        &good_path(),
    );
    assert_eq!(first, Action::Show(Prompt::NotRecognized));
    let (_, first) = start(
        ParseChecks::PromptUser,
        false,
        &CreateTxParams::default(),
        &unknown(),
        &good_path(),
    );
    assert_eq!(first, Action::Show(Prompt::NotRecognizedBlocked));
}

#[test]
fn cancelled_request_does_nothing_more() {
    let (mut flow, first) = start(
        ParseChecks::PromptUser,
        true,
        &CreateTxParams::default(),
        &known(),
        &good_path(),
    );
    assert_eq!(first, Action::Show(Prompt::Transfer));
    flow.cancel();
    assert!(flow.is_finished());
    assert_eq!(flow.advance(Event::Accepted), Action::Reject(Status::Unspecified));
    let (mut waiting, _) =
        SignFlow::begin(ParseChecks::PromptUser, true, CreateTxParams::default(), &good_path());
    waiting.cancel();
    assert_eq!(waiting.receive(&known()), Action::Reject(Status::Unspecified));
}

#[test]
fn bytes_behind_the_count_of_a_path() {
    assert_eq!(path_bytes_behind(0), Some(0));
    assert_eq!(path_bytes_behind(5), Some(20));
    assert_eq!(path_bytes_behind(10), Some(40));
    assert_eq!(path_bytes_behind(11), None);
    assert_eq!(path_bytes_behind(255), None);
    assert_eq!(read_path(&[11]), (Decoded::Reject(Rejection::Malformed), 0));
}
