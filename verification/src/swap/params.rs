//! The parameters of the calls that a swap partner makes, and how they are
//! read from the bytes that the partner hands over.

use crate::decode::{le_u32_at, le_value, lemma_radix_pow_values};
use crate::path::Bip32Path;
use crate::schema::SuiAddressRaw;
use crate::swap::Error;
use vstd::prelude::*;

verus! {

/// `hex::FromHexError`, made known so that it can stand in a signature.
/// Nothing is known of what a value holds.
#[verifier::external_type_specification]
#[verifier::external_body]
pub struct ExFromHexError(hex::FromHexError);

/// The number of hexadecimal digits of an address.
pub const SUI_ADDRESS_STR_LENGTH: usize = 64;

/// The most segments of a derivation path that a swap partner may name.
pub const MAX_BIP32_PATH_LENGTH: usize = 5;

/// The number of bytes of one segment of a derivation path.
pub const BIP32_PATH_SEGMENT_LEN: usize = 4;

/// The number of bytes of an amount.
pub const AMOUNT_LEN: usize = 8;

/// The question whether an address belongs to a derivation path.
#[derive(Debug, PartialEq, Eq)]
pub struct CheckAddressParams {
    /// The derivation path: at most five segments.
    pub dpath: Bip32Path,
    /// The address to check.
    pub ref_address: SuiAddressRaw,
}

/// The amount to show.
#[derive(Debug, PartialEq, Eq)]
pub struct PrintableAmountParams {
    pub amount: u64,
}

/// What a swap partner expects of the transaction to sign; also what a
/// parse reports of a recognised transaction.
#[derive(Clone, Copy, Debug, PartialEq, Eq)]
pub struct CreateTxParams {
    /// The amount that the recipient receives.
    pub amount: u64,
    /// The gas budget.
    pub fee: u64,
    /// The recipient.
    pub destination_address: SuiAddressRaw,
}

/// The parameters of a transaction, under their shorter name.
pub type TxParams = CreateTxParams;

/// The mathematical value of [`CreateTxParams`].
pub struct TxParamsView {
    pub amount: u64,
    pub fee: u64,
    pub destination_address: Seq<u8>,
}

impl View for CreateTxParams {
    type V = TxParamsView;

    open spec fn view(&self) -> TxParamsView {
        TxParamsView {
            amount: self.amount,
            fee: self.fee,
            destination_address: self.destination_address@,
        }
    }
}

/// The holder of the parameters that a swap's parse is checked against.
pub struct TxParamsAccessor {
    params: Option<CreateTxParams>,
}

impl TxParamsAccessor {
    /// The parameters that are held, if any.
    pub closed spec fn held(&self) -> Option<CreateTxParams> {
        self.params
    }

    /// A holder of nothing.
    pub fn new() -> (accessor: Self)
        ensures
            accessor.held() is None,
    {
        TxParamsAccessor { params: None }
    }

    /// Holds these parameters from now on.
    pub fn set(&mut self, params: CreateTxParams)
        ensures
            final(self).held() == Some(params),
    {
        self.params = Some(params);
    }

    /// Hands the parameters that are held to `f`, and hands back what `f`
    /// makes of them.
    pub fn access<R, F: FnOnce(&CreateTxParams) -> R>(&self, f: F) -> (r: R)
        requires
            self.held() is Some,
            f.requires((&self.held().unwrap(),)),
        ensures
            f.ensures((&self.held().unwrap(),), r),
    {
        match &self.params {
            Some(params) => f(params),
            None => vstd::pervasive::unreached(),
        }
    }
}

/// The number that `n` bytes stand for, high byte first.
pub open spec fn be_value(s: Seq<u8>, pos: int, n: nat) -> nat
    decreases n,
{
    if n == 0 {
        0
    } else {
        256 * be_value(s, pos, (n - 1) as nat) + s[pos + n - 1] as nat
    }
}

/// The amount in a buffer: its last eight bytes, high byte first.
pub open spec fn amount_of(buf: Seq<u8>) -> Option<u64> {
    if buf.len() < AMOUNT_LEN {
        None
    } else {
        Some(be_value(buf, buf.len() - AMOUNT_LEN, AMOUNT_LEN as nat) as u64)
    }
}

/// The value of a hexadecimal digit, in either case.
pub open spec fn hex_value(c: u8) -> Option<u8> {
    if 0x30 <= c <= 0x39 {
        Some((c - 0x30) as u8)
    } else if 0x41 <= c <= 0x46 {
        Some((c - 0x41 + 10) as u8)
    } else if 0x61 <= c <= 0x66 {
        Some((c - 0x61 + 10) as u8)
    } else {
        None
    }
}

/// Every byte is a hexadecimal digit.
pub open spec fn all_hex(text: Seq<u8>) -> bool {
    forall|i: int| 0 <= i < text.len() ==> (#[trigger] hex_value(text[i])) is Some
}

/// The bytes that an even number of hexadecimal digits stand for, two
/// digits to a byte, the high one first.
pub open spec fn hex_bytes(text: Seq<u8>) -> Seq<u8> {
    Seq::new(
        text.len() / 2,
        |i: int| (16 * hex_value(text[2 * i]).unwrap() + hex_value(text[2 * i + 1]).unwrap()) as u8,
    )
}

/// Every byte is below 128.
pub open spec fn all_ascii(text: Seq<u8>) -> bool {
    forall|i: int| 0 <= i < text.len() ==> #[trigger] text[i] < 128
}

/// The address that a text stands for: the text must be ASCII, at least
/// 64 bytes long, and begin with 64 hexadecimal digits.
pub open spec fn address_of(text: Seq<u8>) -> Result<Seq<u8>, Error> {
    if !all_ascii(text) {
        Err(Error::BadAddressASCII)
    } else if text.len() < SUI_ADDRESS_STR_LENGTH {
        Err(Error::BadAddressLength)
    } else if !all_hex(text.take(SUI_ADDRESS_STR_LENGTH as int)) {
        Err(Error::BadAddressHex)
    } else {
        Ok(hex_bytes(text.take(SUI_ADDRESS_STR_LENGTH as int)))
    }
}

/// The segments that the bytes of a derivation path stand for: each four
/// bytes, low byte first.
pub open spec fn path_of(buf: Seq<u8>) -> Seq<u32> {
    Seq::new(
        buf.len() / BIP32_PATH_SEGMENT_LEN as nat,
        |i: int| le_value(buf, BIP32_PATH_SEGMENT_LEN * i, BIP32_PATH_SEGMENT_LEN as nat) as u32,
    )
}

impl CreateTxParams {
    /// The parameters of no transaction: no amount, no fee, and the address
    /// of 32 zero bytes.
    pub open spec fn default_view() -> TxParamsView {
        TxParamsView { amount: 0, fee: 0, destination_address: Seq::new(32, |i: int| 0u8) }
    }

    /// What the three buffers of a swap partner stand for.
    pub open spec fn of_buffers(amount: Seq<u8>, fee: Seq<u8>, address: Seq<u8>) -> Result<
        TxParamsView,
        Error,
    > {
        if amount_of(amount) is None {
            Err(Error::WrongAmountLength)
        } else if amount_of(fee) is None {
            Err(Error::WrongFeeLength)
        } else {
            match address_of(address) {
                Ok(destination_address) => Ok(
                    TxParamsView {
                        amount: amount_of(amount).unwrap(),
                        fee: amount_of(fee).unwrap(),
                        destination_address,
                    },
                ),
                Err(e) => Err(e),
            }
        }
    }

    /// Reads the expected transaction from the buffers of a swap partner:
    /// the amount and the fee, each in the last eight bytes of its buffer,
    /// and the recipient as hexadecimal text.
    pub fn try_from(
        amount: &[u8],
        fee_amount: &[u8],
        dest_address: &[u8],
    ) -> (r: Result<Self, Error>)
        ensures
            match CreateTxParams::of_buffers(amount@, fee_amount@, dest_address@) {
                Ok(view) => r matches Ok(params) && params@ == view,
                Err(e) => r == Err::<Self, Error>(e),
            },
    {
        let amount = match amount_from_be_bytes(amount) {
            Some(amount) => amount,
            None => {
                return Err(Error::WrongAmountLength);
            },
        };
        let fee = match amount_from_be_bytes(fee_amount) {
            Some(fee) => fee,
            None => {
                return Err(Error::WrongFeeLength);
            },
        };
        match address_from_hex_cstr(dest_address) {
            Ok(destination_address) => Ok(CreateTxParams { amount, fee, destination_address }),
            Err(e) => Err(e),
        }
    }
}

impl Default for CreateTxParams {
    fn default() -> (params: Self)
        ensures
            params@ == CreateTxParams::default_view(),
    {
        let params = CreateTxParams { amount: 0, fee: 0, destination_address: [0u8; 32] };
        assert(params.destination_address@ =~= Seq::new(32, |i: int| 0u8));
        params
    }
}

impl PrintableAmountParams {
    /// Reads the amount to show from the buffer of a swap partner: its
    /// last eight bytes, high byte first.
    pub fn try_from(amount: &[u8]) -> (r: Result<Self, Error>)
        ensures
            match amount_of(amount@) {
                Some(value) => r matches Ok(params) && params.amount == value,
                None => r == Err::<Self, Error>(Error::WrongAmountLength),
            },
    {
        match amount_from_be_bytes(amount) {
            Some(amount) => Ok(PrintableAmountParams { amount }),
            None => Err(Error::WrongAmountLength),
        }
    }
}

impl CheckAddressParams {
    /// What the two buffers of a swap partner stand for.
    pub open spec fn of_buffers(dpath: Seq<u8>, ref_address: Seq<u8>) -> Result<
        (Seq<u32>, Seq<u8>),
        Error,
    > {
        if dpath.len() % BIP32_PATH_SEGMENT_LEN as nat != 0 || dpath.len()
            > MAX_BIP32_PATH_LENGTH * BIP32_PATH_SEGMENT_LEN {
            Err(Error::DecodeDPathError)
        } else {
            match address_of(ref_address) {
                Ok(address) => Ok((path_of(dpath), address)),
                Err(e) => Err(e),
            }
        }
    }

    /// Reads the question from the buffers of a swap partner: the bytes of
    /// a derivation path of at most five segments, and the address as
    /// hexadecimal text.
    pub fn try_from(dpath: &[u8], ref_address: &[u8]) -> (r: Result<Self, Error>)
        ensures
            match CheckAddressParams::of_buffers(dpath@, ref_address@) {
                Ok(view) => r matches Ok(params) && params.dpath@ == view.0
                    && params.ref_address@ == view.1,
                Err(e) => r == Err::<Self, Error>(e),
            },
    {
        if dpath.len() > MAX_BIP32_PATH_LENGTH * BIP32_PATH_SEGMENT_LEN {
            return Err(Error::DecodeDPathError);
        }
        let mut segments: [u32; 5] = [0u32; 5];
        let count = match unpack_path(dpath, &mut segments) {
            Ok(count) => count,
            Err(e) => {
                return Err(e);
            },
        };
        let unpacked = vstd::slice::slice_subrange(
            vstd::array::array_as_slice(&segments),
            0,
            count,
        );
        assert(unpacked@ =~= path_of(dpath@));
        let path = match Bip32Path::from_segments(unpacked) {
            Some(path) => path,
            None => {
                return Err(Error::DecodeDPathError);
            },
        };
        match address_from_hex_cstr(ref_address) {
            Ok(ref_address) => Ok(CheckAddressParams { dpath: path, ref_address }),
            Err(e) => Err(e),
        }
    }
}

/// Reads the segments of a derivation path from its bytes into `out_path`
/// and tells how many there are. The bytes must come in fours.
pub fn unpack_path(buf: &[u8], out_path: &mut [u32]) -> (r: Result<usize, Error>)
    requires
        buf@.len() % 4 == 0 ==> buf@.len() / 4 <= old(out_path)@.len(),
    ensures
        final(out_path)@.len() == old(out_path)@.len(),
        buf@.len() % 4 != 0 ==> r == Err::<usize, Error>(Error::DecodeDPathError),
        buf@.len() % 4 != 0 ==> final(out_path)@ == old(out_path)@,
        buf@.len() % 4 == 0 ==> r == Ok::<usize, Error>((buf@.len() / 4) as usize),
        buf@.len() % 4 == 0 ==> forall|i: int|
            0 <= i < final(out_path)@.len() ==> final(out_path)@[i] == if i < buf@.len() / 4 {
                path_of(buf@)[i]
            } else {
                old(out_path)@[i]
            },
{
    if buf.len() % BIP32_PATH_SEGMENT_LEN != 0 {
        return Err(Error::DecodeDPathError);
    }
    let count = buf.len() / BIP32_PATH_SEGMENT_LEN;
    let mut k: usize = 0;
    while k < count
        invariant
            k <= count,
            count == buf@.len() / 4,
            buf@.len() % 4 == 0,
            buf@.len() <= usize::MAX,
            count <= out_path@.len(),
            out_path@.len() == old(out_path)@.len(),
            forall|i: int|
                0 <= i < out_path@.len() ==> out_path@[i] == if i < k {
                    path_of(buf@)[i]
                } else {
                    old(out_path)@[i]
                },
        decreases count - k,
    {
        out_path[k] = le_u32_at(buf, k * BIP32_PATH_SEGMENT_LEN);
        k = k + 1;
    }
    Ok(count)
}

/// The amount in a buffer: its last eight bytes, high byte first.
pub fn amount_from_be_bytes(buf: &[u8]) -> (r: Option<u64>)
    ensures
        r == amount_of(buf@),
{
    if buf.len() < AMOUNT_LEN {
        return None;
    }
    let start = buf.len() - AMOUNT_LEN;
    let mut value: u64 = 0;
    let mut i: usize = 0;
    while i < AMOUNT_LEN
        invariant
            i <= AMOUNT_LEN,
            start + AMOUNT_LEN == buf@.len() <= usize::MAX,
            value == be_value(buf@, start as int, i as nat),
        decreases AMOUNT_LEN - i,
    {
        proof {
            lemma_be_value_bound(buf@, start as int, i as nat);
            lemma_radix_pow_values();
        }
        value = value * 256 + buf[start + i] as u64;
        i = i + 1;
    }
    proof {
        lemma_be_value_bound(buf@, start as int, 8);
        lemma_radix_pow_values();
    }
    Some(value)
}

/// `n` bytes stand for a number below 256 to the power of `n`.
pub proof fn lemma_be_value_bound(s: Seq<u8>, pos: int, n: nat)
    ensures
        be_value(s, pos, n) < crate::decode::radix_pow(n),
    decreases n,
{
    if n > 0 {
        lemma_be_value_bound(s, pos, (n - 1) as nat);
    }
}

/// Calls `hex::decode_to_slice` with room for 32 bytes. Taken for
/// granted: it succeeds exactly on 64 hexadecimal digits of either case,
/// and then each byte is what its two digits stand for, the high one
/// first.
#[verifier::external_body]
fn hex_decode_address(text: &[u8]) -> (r: Result<SuiAddressRaw, hex::FromHexError>)
    ensures
        r is Ok == (text@.len() == SUI_ADDRESS_STR_LENGTH && all_hex(text@)),
        r matches Ok(address) ==> address@ == hex_bytes(text@),
{
    let mut address = [0u8; 32];
    match hex::decode_to_slice(text, &mut address) {
        Ok(()) => Ok(address),
        Err(e) => Err(e),
    }
}

/// Where the text in a buffer ends: at its first zero byte, or at
/// `limit` where there is none before.
pub open spec fn text_end(buf: Seq<u8>, limit: int) -> int
    decreases limit,
{
    if limit <= 0 {
        0
    } else {
        let before = text_end(buf, limit - 1);
        if before < limit - 1 || buf[limit - 1] == 0 {
            before
        } else {
            limit
        }
    }
}

/// The text that a buffer of a swap partner holds: the bytes before the
/// first zero byte among the first `len`, or the first `len` bytes where
/// none of them is zero; `len` counts no further than the buffer goes.
pub open spec fn c_text(buf: Seq<u8>, len: nat) -> Seq<u8> {
    let limit = if len <= buf.len() {
        len as int
    } else {
        buf.len() as int
    };
    buf.take(text_end(buf, limit))
}

/// The text ends inside its limit, no byte before its end is zero, and a
/// text that ends before the limit ends at a zero byte.
pub proof fn lemma_text_end(buf: Seq<u8>, limit: int)
    requires
        0 <= limit <= buf.len(),
    ensures
        0 <= text_end(buf, limit) <= limit,
        forall|i: int| 0 <= i < text_end(buf, limit) ==> buf[i] != 0,
        text_end(buf, limit) < limit ==> buf[text_end(buf, limit)] == 0,
    decreases limit,
{
    if limit > 0 {
        lemma_text_end(buf, limit - 1);
    }
}

/// The text that a buffer of a swap partner holds, without the zero byte
/// that ends it.
pub fn c_str_text(buf: &[u8], len: usize) -> (text: &[u8])
    ensures
        text@ == c_text(buf@, len as nat),
        forall|i: int| 0 <= i < text@.len() ==> text@[i] != 0,
{
    let limit = if len <= buf.len() {
        len
    } else {
        buf.len()
    };
    let mut end: usize = 0;
    while end < limit && buf[end] != 0
        invariant
            end <= limit <= buf@.len(),
            text_end(buf@, end as int) == end,
        decreases limit - end,
    {
        end = end + 1;
    }
    proof {
        lemma_text_end_stops(buf@, end as int, limit as int);
        lemma_text_end(buf@, limit as int);
    }
    vstd::slice::slice_subrange(buf, 0, end)
}

proof fn lemma_text_end_stops(buf: Seq<u8>, end: int, limit: int)
    requires
        0 <= end <= limit <= buf.len(),
        text_end(buf, end) == end,
        end < limit ==> buf[end] == 0,
    ensures
        text_end(buf, limit) == end,
    decreases limit - end,
{
    if end < limit {
        lemma_text_end_stops(buf, end, limit - 1);
    }
}

/// Whether every byte is below 128.
pub fn is_ascii_text(text: &[u8]) -> (ascii: bool)
    ensures
        ascii == all_ascii(text@),
{
    let mut i: usize = 0;
    while i < text.len()
        invariant
            i <= text@.len(),
            forall|j: int| 0 <= j < i ==> #[trigger] text@[j] < 128,
        decreases text@.len() - i,
    {
        if text[i] >= 128 {
            return false;
        }
        i = i + 1;
    }
    true
}

/// Reads an address from the hexadecimal text that a swap partner hands
/// over. Only the first 64 bytes of the text are looked at as digits.
pub fn address_from_hex_cstr(text: &[u8]) -> (r: Result<SuiAddressRaw, Error>)
    ensures
        match address_of(text@) {
            Ok(address) => r matches Ok(found) && found@ == address,
            Err(e) => r == Err::<SuiAddressRaw, Error>(e),
        },
{
    if !is_ascii_text(text) {
        return Err(Error::BadAddressASCII);
    }
    if text.len() < SUI_ADDRESS_STR_LENGTH {
        return Err(Error::BadAddressLength);
    }
    let digits = vstd::slice::slice_subrange(text, 0, SUI_ADDRESS_STR_LENGTH);
    match hex_decode_address(digits) {
        Ok(address) => Ok(address),
        Err(_) => Err(Error::BadAddressHex),
    }
}

/// Whether two addresses hold the same bytes.
pub fn same_address(a: &SuiAddressRaw, b: &SuiAddressRaw) -> (same: bool)
    ensures
        same == (a@ == b@),
{
    let mut i: usize = 0;
    while i < 32
        invariant
            i <= 32,
            forall|j: int| 0 <= j < i ==> a@[j] == b@[j],
        decreases 32 - i,
    {
        if a[i] != b[i] {
            return false;
        }
        i = i + 1;
    }
    assert(a@ =~= b@);
    true
}

} // verus!
