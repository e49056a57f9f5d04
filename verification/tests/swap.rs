use sui::ctx::RunCtx;
use sui::path::Bip32Path;
use sui::swap::params::{
    address_from_hex_cstr, amount_from_be_bytes, c_str_text, is_ascii_text, same_address,
    unpack_path,
    CheckAddressParams, CreateTxParams, PrintableAmountParams, TxParamsAccessor,
};
use sui::swap::{
    check_address, check_address_reply, check_tx_params, get_printable_amount, printable_bytes,
    sign_reply, sign_result, start_sign, Error,
};
use sui::utils::{get_amount_in_decimals, mkfn, mkmvfn};

fn hex_of(bytes: &[u8]) -> Vec<u8> {
    let digits = b"0123456789abcdef";
    let mut v = Vec::new();
    for b in bytes {
        v.push(digits[(b >> 4) as usize]);
        v.push(digits[(b & 15) as usize]);
    }
    v
}

fn shown(amount: u64) -> String {
    get_printable_amount(&PrintableAmountParams { amount }).unwrap().as_str().to_string()
}

fn decimals(amount: u64) -> (u64, String) {
    let (q, r) = get_amount_in_decimals(amount);
    (q, r.as_str().to_string())
}

#[test]
fn one_coin_reads_one_point_zero() {
    assert_eq!(decimals(1_000_000_000), (1, "0".to_string()));
    assert_eq!(shown(1_000_000_000), "SUI 1.0");
}

#[test]
fn example_gas_budget_reads_two_thousandths() {
    assert_eq!(decimals(2_000_000), (0, "002".to_string()));
    assert_eq!(shown(2_000_000), "SUI 0.002");
}

#[test]
fn decimals_drop_trailing_zeros_only() {
    assert_eq!(decimals(0), (0, "0".to_string()));
    assert_eq!(decimals(1), (0, "000000001".to_string()));
    assert_eq!(decimals(10), (0, "00000001".to_string()));
    assert_eq!(decimals(100_000_000), (0, "1".to_string()));
    assert_eq!(decimals(999_999_999), (0, "999999999".to_string()));
    assert_eq!(decimals(1_234_567_890), (1, "23456789".to_string()));
    assert_eq!(decimals(12_000_500_000), (12, "0005".to_string()));
    assert_eq!(decimals(u64::MAX), (18_446_744_073, "709551615".to_string()));
}

#[test]
fn printable_amounts() {
    assert_eq!(shown(0), "SUI 0.0");
    assert_eq!(shown(1), "SUI 0.000000001");
    assert_eq!(shown(10_000_000_000), "SUI 10.0");
    assert_eq!(shown(123_456_789_012), "SUI 123.456789012");
    assert_eq!(shown(u64::MAX), "SUI 18446744073.709551615");
    assert_eq!(shown(10_000_000_000_000_000_000), "SUI 10000000000.0");
}

#[test]
fn amount_is_the_last_eight_bytes_high_byte_first() {
    assert_eq!(amount_from_be_bytes(&[0, 0, 0, 0, 0, 0, 1, 2]), Some(258));
    assert_eq!(amount_from_be_bytes(&[9, 9, 0, 0, 0, 0, 0, 0, 1, 2]), Some(258));
    assert_eq!(amount_from_be_bytes(&[0xff; 16]), Some(u64::MAX));
    assert_eq!(amount_from_be_bytes(&[1, 2, 3, 4, 5, 6, 7]), None);
    assert_eq!(amount_from_be_bytes(&[]), None);
    let mut buf = [0u8; 16];
    buf[8..].copy_from_slice(&1_000_000_000u64.to_be_bytes());
    assert_eq!(
        PrintableAmountParams::try_from(&buf),
        Ok(PrintableAmountParams { amount: 1_000_000_000 })
    );
    assert_eq!(PrintableAmountParams::try_from(&[1, 2, 3]), Err(Error::WrongAmountLength));
}

#[test]
fn address_from_hex_text() {
    let address: Vec<u8> = (0u8..32).map(|i| i.wrapping_mul(37)).collect();
    let text = hex_of(&address);
    assert_eq!(address_from_hex_cstr(&text).unwrap().to_vec(), address);
    let upper: Vec<u8> = text.iter().map(|c| c.to_ascii_uppercase()).collect();
    assert_eq!(address_from_hex_cstr(&upper).unwrap().to_vec(), address);
    let mut longer = text.clone();
    longer.extend_from_slice(b"zz");
    assert_eq!(address_from_hex_cstr(&longer).unwrap().to_vec(), address);
}

#[test]
fn address_from_hex_text_exact_value() {
    let mut text = b"00ff10Ab".to_vec();
    text.extend_from_slice(&[b'0'; 56]);
    let mut want = [0u8; 32];
    want[1] = 0xff;
    want[2] = 0x10;
    want[3] = 0xab;
    assert_eq!(address_from_hex_cstr(&text), Ok(want));
}

#[test]
fn address_errors() {
    assert_eq!(address_from_hex_cstr(&[b'a'; 63]), Err(Error::BadAddressLength));
    assert_eq!(address_from_hex_cstr(&[]), Err(Error::BadAddressLength));
    let mut bad = [b'a'; 64];
    bad[10] = b'g';
    assert_eq!(address_from_hex_cstr(&bad), Err(Error::BadAddressHex));
    bad[10] = 0x80;
    assert_eq!(address_from_hex_cstr(&bad), Err(Error::BadAddressASCII));
    let mut tail = [b'a'; 66];
    tail[65] = 0xc3;
    assert_eq!(address_from_hex_cstr(&tail), Err(Error::BadAddressASCII));
    assert!(is_ascii_text(b"abc"));
    assert!(!is_ascii_text(&[0x7f, 0x80]));
}

#[test]
fn unpack_path_reads_segments_low_byte_first() {
    let mut out = [7u32; 5];
    let buf = [0x2c, 0, 0, 0x80, 0x10, 0x03, 0, 0x80];
    assert_eq!(unpack_path(&buf, &mut out), Ok(2));
    assert_eq!(out, [0x8000002c, 0x80000310, 7, 7, 7]);
    let mut out = [7u32; 5];
    assert_eq!(unpack_path(&[], &mut out), Ok(0));
    assert_eq!(out, [7; 5]);
}

#[test]
fn unpack_path_needs_whole_segments() {
    let mut out = [7u32; 5];
    assert_eq!(unpack_path(&[1, 2, 3, 4, 5], &mut out), Err(Error::DecodeDPathError));
    assert_eq!(out, [7; 5]);
    for n in [1usize, 2, 3, 5, 9] {
        let mut none: [u32; 0] = [];
        assert_eq!(unpack_path(&vec![1u8; n], &mut none), Err(Error::DecodeDPathError));
        let mut one = [7u32; 1];
        assert_eq!(unpack_path(&vec![1u8; n], &mut one), Err(Error::DecodeDPathError));
        assert_eq!(one, [7]);
    }
}

#[test]
fn check_address_params_from_buffers() {
    let address = [0x5au8; 32];
    let dpath = [0x2c, 0, 0, 0x80, 0x10, 0x03, 0, 0x80, 0, 0, 0, 0x80];
    let params = CheckAddressParams::try_from(&dpath, &hex_of(&address)).unwrap();
    assert_eq!(params.dpath.as_slice(), &[0x8000002c, 0x80000310, 0x80000000][..]);
    assert_eq!(params.ref_address, address);
    assert_eq!(
        CheckAddressParams::try_from(&dpath[..11], &hex_of(&address)),
        Err(Error::DecodeDPathError)
    );
    assert_eq!(
        CheckAddressParams::try_from(&[0u8; 24], &hex_of(&address)),
        Err(Error::DecodeDPathError)
    );
    assert_eq!(CheckAddressParams::try_from(&dpath, b"12"), Err(Error::BadAddressLength));
    assert!(CheckAddressParams::try_from(&[0u8; 20], &hex_of(&address)).is_ok());
}

#[test]
fn create_tx_params_from_buffers() {
    let address = [0x5au8; 32];
    let mut amount = [0u8; 16];
    amount[8..].copy_from_slice(&5u64.to_be_bytes());
    let mut fee = [0u8; 16];
    fee[8..].copy_from_slice(&7u64.to_be_bytes());
    assert_eq!(
        CreateTxParams::try_from(&amount, &fee, &hex_of(&address)),
        Ok(CreateTxParams { amount: 5, fee: 7, destination_address: address })
    );
    assert_eq!(
        CreateTxParams::try_from(&amount[..7], &fee, &hex_of(&address)),
        Err(Error::WrongAmountLength)
    );
    assert_eq!(
        CreateTxParams::try_from(&amount, &fee[..7], &hex_of(&address)),
        Err(Error::WrongFeeLength)
    );
    assert_eq!(
        CreateTxParams::try_from(&amount, &fee, &[b'x'; 64]),
        Err(Error::BadAddressHex)
    );
}

#[test]
fn default_params_are_zero() {
    assert_eq!(
        CreateTxParams::default(),
        CreateTxParams { amount: 0, fee: 0, destination_address: [0; 32] }
    );
}

#[test]
fn check_address_compares_with_the_derived_address() {
    let params =
        CheckAddressParams { dpath: Bip32Path::from_segments(&[1, 2]).unwrap(), ref_address: [3; 32] };
    assert_eq!(check_address(&params, Some(&[3; 32])), Ok(true));
    assert_eq!(check_address(&params, Some(&[4; 32])), Ok(false));
    assert_eq!(check_address(&params, None), Err(Error::CryptographyError));
    assert_eq!(check_address_reply(&Ok(true)), 1);
    assert_eq!(check_address_reply(&Ok(false)), 0);
    assert_eq!(check_address_reply(&Err(Error::CryptographyError)), 0);
}

#[test]
fn check_tx_params_compares_all_three_fields() {
    let a = CreateTxParams { amount: 5, fee: 7, destination_address: [3; 32] };
    assert!(check_tx_params(&a, &CreateTxParams { amount: 5, fee: 7, destination_address: [3; 32] }));
    assert!(!check_tx_params(&a, &CreateTxParams { amount: 6, fee: 7, destination_address: [3; 32] }));
    assert!(!check_tx_params(&a, &CreateTxParams { amount: 5, fee: 8, destination_address: [3; 32] }));
    let mut other = [3u8; 32];
    other[31] = 4;
    assert!(!check_tx_params(&a, &CreateTxParams { amount: 5, fee: 7, destination_address: other }));
    assert!(same_address(&[1; 32], &[1; 32]));
    assert!(!same_address(&[1; 32], &other));
}

#[test]
fn sign_reply_tells_success_only() {
    let mut ctx = RunCtx::lib_swap(CreateTxParams::default());
    assert_eq!(sign_reply(&ctx), 0);
    ctx.set_swap_sign_failure();
    assert_eq!(sign_reply(&ctx), 0);
    ctx.set_swap_sign_success();
    assert_eq!(sign_reply(&ctx), 0);
    let mut signed = RunCtx::lib_swap(CreateTxParams::default());
    signed.set_swap_sign_success();
    assert_eq!(sign_reply(&signed), 1);
    signed.set_swap_sign_failure();
    assert_eq!(sign_reply(&signed), 1);
    assert_eq!(sign_reply(&RunCtx::app()), 0);
}

#[test]
fn params_accessor_hands_out_what_was_set() {
    let mut accessor = TxParamsAccessor::new();
    accessor.set(CreateTxParams { amount: 5, fee: 7, destination_address: [3; 32] });
    assert_eq!(accessor.access(|p| p.amount + p.fee), 12);
    accessor.set(CreateTxParams { amount: 1, fee: 1, destination_address: [3; 32] });
    assert_eq!(accessor.access(|p| p.amount + p.fee), 2);
}

#[test]
fn type_helpers_hand_back_their_argument() {
    let f = mkfn(|a: &u8, b: &mut u8| {
        *b += *a;
        *b
    });
    let mut x = 1u8;
    assert_eq!(f(&2, &mut x), 3);
    let g = mkmvfn(|a: u8, b: &mut u8| {
        *b += a;
        Some(*b)
    });
    assert_eq!(g(4, &mut x), Some(7));
}

#[test]
fn path_from_segments_holds_at_most_ten() {
    assert_eq!(Bip32Path::from_segments(&[]).unwrap().as_slice(), &[][..] as &[u32]);
    assert_eq!(Bip32Path::from_segments(&[7; 10]).unwrap().as_slice(), &[7; 10][..]);
    assert_eq!(Bip32Path::from_segments(&[7; 11]), None);
    assert_eq!(Bip32Path::from_segments(&[1, 2, 3]).unwrap().segments().len(), 3);
}

#[test]
fn text_ends_at_the_first_zero_or_at_its_length() {
    assert_eq!(c_str_text(b"abc\0def", 8), b"abc");
    assert_eq!(c_str_text(b"abc\0def", 2), b"ab");
    assert_eq!(c_str_text(b"abc\0def", 3), b"abc");
    assert_eq!(c_str_text(b"abcdef", 6), b"abcdef");
    assert_eq!(c_str_text(b"abcdef", 60), b"abcdef");
    assert_eq!(c_str_text(b"\0abc", 4), b"");
    assert_eq!(c_str_text(b"abc", 0), b"");
    assert_eq!(c_str_text(b"", 5), b"");
    assert_eq!(c_str_text(b"a\0b\0", 4), b"a");
}

#[test]
fn printable_bytes_are_the_text() {
    let text = get_printable_amount(&PrintableAmountParams { amount: 1_500_000_000 }).unwrap();
    assert_eq!(printable_bytes(&text), b"SUI 1.5");
    assert_eq!(printable_bytes(&text), text.as_str().as_bytes());
}

#[test]
fn signing_request_is_taken_up_only_with_good_parameters() {
    let address = [0x5au8; 32];
    let mut amount = [0u8; 16];
    amount[8..].copy_from_slice(&5u64.to_be_bytes());
    let mut fee = [0u8; 16];
    fee[8..].copy_from_slice(&7u64.to_be_bytes());
    let mut started = start_sign(&amount, &fee, &hex_of(&address));
    assert_eq!(sign_result(&started), 0);
    match &mut started {
        Ok(ctx) => {
            assert!(ctx.is_swap());
            assert!(!ctx.is_swap_finished());
            assert_eq!(
                ctx.get_swap_tx_params(),
                &CreateTxParams { amount: 5, fee: 7, destination_address: address }
            );
            ctx.set_swap_sign_success();
        }
        Err(e) => panic!("{:?}", e),
    }
    assert_eq!(sign_result(&started), 1);
    let refused = start_sign(&amount[..3], &fee, &hex_of(&address));
    assert!(matches!(refused, Err(Error::WrongAmountLength)));
    assert_eq!(sign_result(&refused), 0);
    assert!(matches!(start_sign(&amount, &fee[..3], &hex_of(&address)), Err(Error::WrongFeeLength)));
    assert!(matches!(start_sign(&amount, &fee, b"xyz"), Err(Error::BadAddressLength)));
    let mut failed = start_sign(&amount, &fee, &hex_of(&address));
    if let Ok(ctx) = &mut failed {
        ctx.set_swap_sign_failure();
    }
    assert_eq!(sign_result(&failed), 0);
}
