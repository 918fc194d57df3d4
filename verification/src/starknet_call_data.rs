//! The call-data decoder: from the flat arguments of one invoke call to the
//! target contract, the packed transaction payload and the signature.

use crate::eth_types::{Signature, U256};
use crate::felt::{be_value, lemma_be_value_concat, pow256, FieldElement};
use crate::starknet_types::InvokeTransaction;
use vstd::prelude::*;
use vstd::slice::{slice_subrange, slice_to_vec};

verus! {

/// A sequence of this many elements or fewer is no call to convert.
pub const MAX_IGNORED_LEN: usize = 17;

/// Where the number of packed calls stands.
pub const CALL_ARRAY_LEN_INDEX: usize = 8;

/// Where the called contract stands.
pub const TO_INDEX: usize = 9;

/// Where the declared length of the payload stands.
pub const DATA_LEN_INDEX: usize = 12;

/// The length of the signature stands at this index plus the declared
/// length of the payload.
pub const SIGNATURE_BASE: usize = 14;

/// Where the packed payload starts.
pub const PAYLOAD_START: usize = 15;

/// The elements at the end that the payload never reaches into.
pub const TRAILER_LEN: usize = 6;

/// The number of elements of a signature.
pub const SIGNATURE_LEN: usize = 5;

/// A limb of a 256-bit integer that does not fit in 128 bits.
#[derive(Clone, Copy, Debug, PartialEq, Eq)]
pub enum U128FeltError {
    /// The low limb is too large; carries the low limb.
    LowOverflow(FieldElement),
    /// The high limb is too large; carries the low limb of the pair.
    HighOverflow(FieldElement),
}

/// Why the elements of a signature give no signature.
#[derive(Clone, Copy, Debug, PartialEq, Eq)]
pub enum SignatureError {
    /// The sequence ends before the signature does.
    IncompleteSignatureData,
    /// The signature has another number of elements than five.
    UnsupportedLen(usize),
    /// A limb of `r` is too large.
    BadR(U128FeltError),
    /// A limb of `s` is too large.
    BadV(U128FeltError),
}

/// Why the arguments of an invoke call do not decode.
#[derive(Clone, Copy, Debug, PartialEq, Eq)]
pub enum Error {
    /// The sequence is too short to be a call to convert.
    CallDataTooSmall,
    /// The declared payload length does not fit a machine integer.
    DataLenOverflow(FieldElement),
    /// The payload region holds fewer elements than the declared length asks for.
    DataLenBiggerThanCallData,
    /// The declared signature length does not fit a machine integer.
    SignatureLenOverflow(FieldElement),
    /// The signature region gives no signature.
    BadSignature(SignatureError),
}

/// The decoded arguments of one invoke call.
#[derive(Clone, Debug, PartialEq, Eq)]
pub struct CallData {
    /// How many calls the invoke packs.
    pub call_array_len: FieldElement,
    /// The contract that is called.
    pub to: FieldElement,
    /// The packed transaction payload.
    pub data: Vec<u8>,
    /// The signature of the packed transaction.
    pub signature: Signature,
}

/// A `CallData` with its payload as a sequence.
pub ghost struct CallDataView {
    pub call_array_len: FieldElement,
    pub to: FieldElement,
    pub data: Seq<u8>,
    pub signature: Signature,
}

impl View for CallData {
    type V = CallDataView;

    open spec fn view(&self) -> CallDataView {
        CallDataView {
            call_array_len: self.call_array_len,
            to: self.to,
            data: self.data@,
            signature: self.signature,
        }
    }
}

// ---------------------------------------------------------------------------
// Signature
// ---------------------------------------------------------------------------

/// The 256-bit integer with the given limbs, where each fits in 128 bits.
pub open spec fn spec_concat_u128_felt_into_uint256(
    low: FieldElement,
    high: FieldElement,
) -> Result<U256, U128FeltError> {
    if low.value() > u128::MAX {
        Err(U128FeltError::LowOverflow(low))
    } else if high.value() > u128::MAX {
        Err(U128FeltError::HighOverflow(low))
    } else {
        Ok(U256 { high: high.value() as u128, low: low.value() as u128 })
    }
}

/// Joins two 128-bit limbs into a 256-bit integer.
pub fn concat_u128_felt_into_uint256(low: FieldElement, high: FieldElement) -> (r: Result<
    U256,
    U128FeltError,
>)
    ensures
        r == spec_concat_u128_felt_into_uint256(low, high),
{
    let low_limb = match low.to_u128() {
        Ok(limb) => limb,
        Err(_) => {
            return Err(U128FeltError::LowOverflow(low));
        },
    };
    let high_limb = match high.to_u128() {
        Ok(limb) => limb,
        Err(_) => {
            return Err(U128FeltError::HighOverflow(low));
        },
    };
    Ok(U256 { high: high_limb, low: low_limb })
}

/// Whether one of the upper 16 bytes of the element's encoding is not zero.
pub open spec fn upper_half_nonzero(felt: FieldElement) -> bool {
    exists|i: int| 0 <= i < 16 && felt.bytes()[i] != 0
}

/// A limb with a byte set in its upper half is rejected, the low limb
/// first, and says which limb it was. Limbs that fit give the integer whose
/// big-endian bytes are the lower half of `high` followed by that of `low`.
pub proof fn lemma_limb_overflow(low: FieldElement, high: FieldElement)
    ensures
        upper_half_nonzero(low) ==> spec_concat_u128_felt_into_uint256(low, high) == Err::<
            U256,
            U128FeltError,
        >(U128FeltError::LowOverflow(low)),
        !upper_half_nonzero(low) && upper_half_nonzero(high)
            ==> spec_concat_u128_felt_into_uint256(low, high) == Err::<U256, U128FeltError>(
            U128FeltError::HighOverflow(low),
        ),
        !upper_half_nonzero(low) && !upper_half_nonzero(high) ==> {
            &&& spec_concat_u128_felt_into_uint256(low, high) matches Ok(joined)
            &&& joined.value() == be_value(
                high.bytes().subrange(16, 32) + low.bytes().subrange(16, 32),
            )
        },
{
    reveal_with_fuel(pow256, 17);
    low.lemma_leading_zero(16);
    high.lemma_leading_zero(16);
    low.lemma_bytes_len();
    high.lemma_bytes_len();
    lemma_be_value_concat(high.bytes().subrange(16, 32), low.bytes().subrange(16, 32));
}

/// A signature with a byte set in the upper half of a limb is rejected:
/// as a bad `r` where the limb is one of the first two elements, else as a
/// bad `s`.
pub proof fn lemma_signature_overflow(raw: Seq<FieldElement>)
    requires
        raw.len() == SIGNATURE_LEN,
    ensures
        upper_half_nonzero(raw[0]) || upper_half_nonzero(raw[1]) ==> spec_parse_signature(raw)
            matches Err(SignatureError::BadR(_)),
        !upper_half_nonzero(raw[0]) && !upper_half_nonzero(raw[1]) && (upper_half_nonzero(raw[2])
            || upper_half_nonzero(raw[3])) ==> spec_parse_signature(raw) matches Err(
            SignatureError::BadV(_),
        ),
        !upper_half_nonzero(raw[0]) && !upper_half_nonzero(raw[1]) && !upper_half_nonzero(raw[2])
            && !upper_half_nonzero(raw[3]) ==> spec_parse_signature(raw) is Ok,
{
    lemma_limb_overflow(raw[0], raw[1]);
    lemma_limb_overflow(raw[2], raw[3]);
}

/// The signature that the elements `r_low, r_high, s_low, s_high, v` give.
pub open spec fn spec_parse_signature(raw: Seq<FieldElement>) -> Result<Signature, SignatureError> {
    if raw.len() != SIGNATURE_LEN {
        Err(SignatureError::UnsupportedLen(raw.len() as usize))
    } else {
        match spec_concat_u128_felt_into_uint256(raw[0], raw[1]) {
            Err(e) => Err(SignatureError::BadR(e)),
            Ok(r) => match spec_concat_u128_felt_into_uint256(raw[2], raw[3]) {
                Err(e) => Err(SignatureError::BadV(e)),
                Ok(s) => Ok(Signature { r, s, odd_y_parity: raw[4].value() != 0 }),
            },
        }
    }
}

/// Rebuilds a signature from its five elements.
pub fn parse_signature(raw: &[FieldElement]) -> (r: Result<Signature, SignatureError>)
    ensures
        r == spec_parse_signature(raw@),
{
    if raw.len() != SIGNATURE_LEN {
        return Err(SignatureError::UnsupportedLen(raw.len()));
    }
    let r_low = raw[0];
    let r_high = raw[1];
    let s_low = raw[2];
    let s_high = raw[3];
    let v = raw[4];

    let r = match concat_u128_felt_into_uint256(r_low, r_high) {
        Ok(r) => r,
        Err(e) => {
            return Err(SignatureError::BadR(e));
        },
    };
    let s = match concat_u128_felt_into_uint256(s_low, s_high) {
        Ok(s) => s,
        Err(e) => {
            return Err(SignatureError::BadV(e));
        },
    };
    let odd_y_parity = !v.is_zero();
    Ok(Signature::new(r, s, odd_y_parity))
}

// ---------------------------------------------------------------------------
// Payload
// ---------------------------------------------------------------------------

/// How many elements of the payload region are taken whole. A declared
/// length that is a multiple of 32 takes one more than its bytes fill.
pub open spec fn full_felts(len: nat) -> nat {
    if len % 32 == 0 {
        len / 32 + 1
    } else {
        len / 32
    }
}

/// How many bytes are taken from the end of the element after the whole ones.
pub open spec fn tail_bytes(len: nat) -> nat {
    if len % 32 == 0 {
        32
    } else {
        len % 32
    }
}

/// The encodings of the first `full` elements, followed by the last `tail`
/// bytes of the next one.
pub open spec fn unpacked(raw: Seq<FieldElement>, full: nat, tail: nat) -> Seq<u8> {
    Seq::new(
        32 * full + tail,
        |i: int|
            if i < 32 * full {
                raw[i / 32].bytes()[i % 32]
            } else {
                raw[full as int].bytes()[32 - tail + (i - 32 * full)]
            },
    )
}

/// The payload of declared length `len` that the region `raw` packs.
pub open spec fn spec_parse_data(raw: Seq<FieldElement>, len: nat) -> Result<Seq<u8>, Error> {
    if raw.len() < full_felts(len) + 1 {
        Err(Error::DataLenBiggerThanCallData)
    } else {
        Ok(unpacked(raw, full_felts(len), tail_bytes(len)))
    }
}

/// A result with the payload as a sequence.
pub open spec fn data_view(r: Result<Vec<u8>, Error>) -> Result<Seq<u8>, Error> {
    match r {
        Ok(data) => Ok(data@),
        Err(e) => Err(e),
    }
}

/// Unpacks a payload of declared length `len` from the region `raw`.
pub fn parse_data(raw: &[FieldElement], len: usize) -> (r: Result<Vec<u8>, Error>)
    ensures
        data_view(r) == spec_parse_data(raw@, len as nat),
{
    let mut nb_felts = len / 32;
    let mut remaining_bytes = len % 32;
    if remaining_bytes == 0 {
        remaining_bytes = 32;
        nb_felts += 1;
    }
    if raw.len() <= nb_felts {
        return Err(Error::DataLenBiggerThanCallData);
    }
    let mut ret: Vec<u8> = Vec::new();
    let mut k: usize = 0;
    while k < nb_felts
        invariant
            k <= nb_felts < raw.len(),
            ret@ == unpacked(raw@, k as nat, 0),
        decreases nb_felts - k,
    {
        let bytes = raw[k].to_bytes_be();
        ret.extend_from_slice(bytes.as_slice());
        assert(ret@ =~= unpacked(raw@, (k + 1) as nat, 0));
        k += 1;
    }
    let last = raw[nb_felts].to_bytes_be();
    let offset = 32 - remaining_bytes;
    ret.extend_from_slice(slice_subrange(last.as_slice(), offset, 32));
    assert(ret@ =~= unpacked(raw@, nb_felts as nat, remaining_bytes as nat));
    Ok(ret)
}

/// Whether `felts` pack the buffer `buf`: each whole chunk of 32 bytes in
/// an element of its own, in order, and a last partial chunk right-aligned
/// in the element after them.
pub open spec fn is_packing(felts: Seq<FieldElement>, buf: Seq<u8>) -> bool {
    &&& felts.len() > buf.len() / 32
    &&& forall|k: int|
        0 <= k < buf.len() / 32 ==> (#[trigger] felts[k]).bytes() == buf.subrange(
            32 * k,
            32 * k + 32,
        )
    &&& buf.len() % 32 != 0 ==> felts[(buf.len() / 32) as int].bytes().subrange(
        32 - buf.len() % 32,
        32,
    ) == buf.subrange(32 * (buf.len() / 32) as int, buf.len() as int)
}

/// Unpacking what packs a buffer gives the buffer back, where its length is
/// no multiple of 32.
pub proof fn lemma_unpack_packed(felts: Seq<FieldElement>, buf: Seq<u8>)
    requires
        is_packing(felts, buf),
        buf.len() % 32 != 0,
    ensures
        spec_parse_data(felts, buf.len()) == Ok::<Seq<u8>, Error>(buf),
{
    let len = buf.len();
    let full = len / 32;
    let tail = len % 32;
    let out = unpacked(felts, full, tail);
    assert(out.len() == buf.len());
    assert forall|i: int| 0 <= i < out.len() implies out[i] == buf[i] by {
        if i < 32 * full {
            let k = i / 32;
            assert(felts[k].bytes() == buf.subrange(32 * k, 32 * k + 32));
            assert(buf.subrange(32 * k, 32 * k + 32)[i % 32] == buf[i]);
        } else {
            let last = felts[full as int].bytes().subrange(32 - tail, 32);
            assert(last[i - 32 * full] == felts[full as int].bytes()[32 - tail + (i - 32 * full)])
                by {
                felts[full as int].lemma_bytes_len();
            }
            assert(buf.subrange(32 * full as int, len as int)[i - 32 * full] == buf[i]);
        }
    }
    assert(out =~= buf);
}

/// Where the length of a packed buffer is a multiple of 32, unpacking reads
/// two elements past its chunks: it gives the buffer followed by the whole
/// of the first and of the second element after them.
pub proof fn lemma_unpack_packed_exact(felts: Seq<FieldElement>, buf: Seq<u8>)
    requires
        is_packing(felts, buf),
        buf.len() % 32 == 0,
    ensures
        felts.len() < buf.len() / 32 + 2 ==> spec_parse_data(felts, buf.len()) == Err::<
            Seq<u8>,
            Error,
        >(Error::DataLenBiggerThanCallData),
        felts.len() >= buf.len() / 32 + 2 ==> spec_parse_data(felts, buf.len()) == Ok::<
            Seq<u8>,
            Error,
        >(
            buf + felts[(buf.len() / 32) as int].bytes() + felts[(buf.len() / 32 + 1) as int].bytes(),
        ),
{
    let len = buf.len();
    let chunks = len / 32;
    if felts.len() >= chunks + 2 {
        let out = unpacked(felts, chunks + 1, 32);
        let next = felts[chunks as int];
        let after = felts[chunks as int + 1];
        next.lemma_bytes_len();
        after.lemma_bytes_len();
        let expected = buf + next.bytes() + after.bytes();
        assert(out.len() == expected.len());
        assert forall|i: int| 0 <= i < out.len() implies out[i] == expected[i] by {
            if i < 32 * chunks {
                let k = i / 32;
                assert(felts[k].bytes() == buf.subrange(32 * k, 32 * k + 32));
                assert(buf.subrange(32 * k, 32 * k + 32)[i % 32] == buf[i]);
            } else if i < 32 * chunks + 32 {
                assert(i / 32 == chunks);
            } else {
            }
        }
        assert(out =~= expected);
    }
}

/// The payload has the declared length, but for a declared length that is a
/// multiple of 32: then it has 64 bytes more.
pub proof fn lemma_payload_len(raw: Seq<FieldElement>, len: nat)
    ensures
        spec_parse_data(raw, len) matches Ok(data) ==> data.len() == (if len % 32 == 0 {
            len + 64
        } else {
            len
        }),
{
}

// ---------------------------------------------------------------------------
// Call data
// ---------------------------------------------------------------------------

/// The payload of a call of declared length `len`.
pub open spec fn spec_payload(raw: Seq<FieldElement>, len: nat) -> Result<Seq<u8>, Error> {
    if raw.len() < PAYLOAD_START + TRAILER_LEN {
        Err(Error::DataLenBiggerThanCallData)
    } else {
        spec_parse_data(raw.subrange(PAYLOAD_START as int, raw.len() - TRAILER_LEN), len)
    }
}

/// The elements of the signature of a call whose declared length is `len`.
pub open spec fn spec_signature_region(raw: Seq<FieldElement>, len: nat) -> Result<
    Seq<FieldElement>,
    Error,
> {
    let offset = SIGNATURE_BASE + len;
    if offset >= raw.len() {
        Err(Error::BadSignature(SignatureError::IncompleteSignatureData))
    } else if raw[offset].value() > usize::MAX {
        Err(Error::SignatureLenOverflow(raw[offset]))
    } else if offset + 1 + raw[offset].value() > raw.len() {
        Err(Error::BadSignature(SignatureError::IncompleteSignatureData))
    } else {
        Ok(raw.subrange(offset + 1, offset + 1 + raw[offset].value()))
    }
}

/// What the arguments `raw` of an invoke call decode to.
pub open spec fn spec_parse(raw: Seq<FieldElement>) -> Result<CallDataView, Error> {
    if raw.len() <= MAX_IGNORED_LEN {
        Err(Error::CallDataTooSmall)
    } else if raw[DATA_LEN_INDEX as int].value() > usize::MAX {
        Err(Error::DataLenOverflow(raw[DATA_LEN_INDEX as int]))
    } else {
        let len = raw[DATA_LEN_INDEX as int].value();
        match spec_payload(raw, len) {
            Err(e) => Err(e),
            Ok(data) => match spec_signature_region(raw, len) {
                Err(e) => Err(e),
                Ok(region) => match spec_parse_signature(region) {
                    Err(e) => Err(Error::BadSignature(e)),
                    Ok(signature) => Ok(
                        CallDataView {
                            call_array_len: raw[CALL_ARRAY_LEN_INDEX as int],
                            to: raw[TO_INDEX as int],
                            data,
                            signature,
                        },
                    ),
                },
            },
        }
    }
}

/// The payload of decoded call data has the length that the arguments
/// declare, but for a declared length that is a multiple of 32: then it has
/// 64 bytes more.
pub proof fn lemma_call_data_payload_len(raw: Seq<FieldElement>)
    ensures
        spec_parse(raw) matches Ok(call_data) ==> {
            let len = raw[DATA_LEN_INDEX as int].value();
            call_data.data.len() == (if len % 32 == 0 {
                len + 64
            } else {
                len
            })
        },
{
}

/// A result with the call data by its view.
pub open spec fn call_data_view(r: Result<CallData, Error>) -> Result<CallDataView, Error> {
    match r {
        Ok(call_data) => Ok(call_data@),
        Err(e) => Err(e),
    }
}

impl CallData {
    /// Decodes the arguments of an invoke transaction. An error comes with a
    /// copy of the arguments.
    pub fn parse_from_transaction(transaction: &InvokeTransaction) -> (r: Result<
        CallData,
        (Error, Vec<FieldElement>),
    >)
        ensures
            match spec_parse(transaction.calldata()) {
                Ok(view) => r matches Ok(call_data) && call_data@ == view,
                Err(e) => r matches Err(failure) && failure.0 == e && failure.1@
                    == transaction.calldata(),
            },
    {
        let raw_call_data = match transaction {
            InvokeTransaction::V0 { calldata } => calldata,
            InvokeTransaction::V1 { calldata } => calldata,
            InvokeTransaction::V3 { calldata } => calldata,
        };
        match Self::parse(raw_call_data.as_slice()) {
            Ok(call_data) => Ok(call_data),
            Err(e) => Err((e, slice_to_vec(raw_call_data.as_slice()))),
        }
    }

    /// Decodes the arguments of an invoke call.
    pub fn parse(raw: &[FieldElement]) -> (r: Result<CallData, Error>)
        ensures
            call_data_view(r) == spec_parse(raw@),
    {
        if raw.len() <= MAX_IGNORED_LEN {
            return Err(Error::CallDataTooSmall);
        }
        let data_len = match raw[DATA_LEN_INDEX].to_usize() {
            Ok(len) => len,
            Err(felt) => {
                return Err(Error::DataLenOverflow(felt));
            },
        };

        if raw.len() < PAYLOAD_START + TRAILER_LEN {
            return Err(Error::DataLenBiggerThanCallData);
        }
        let relevant_data = slice_subrange(raw, PAYLOAD_START, raw.len() - TRAILER_LEN);
        let data = match parse_data(relevant_data, data_len) {
            Ok(data) => data,
            Err(e) => {
                return Err(e);
            },
        };

        if data_len >= raw.len() - SIGNATURE_BASE {
            return Err(Error::BadSignature(SignatureError::IncompleteSignatureData));
        }
        let sig_offset = SIGNATURE_BASE + data_len;
        let signature_len = match raw[sig_offset].to_usize() {
            Ok(len) => len,
            Err(felt) => {
                return Err(Error::SignatureLenOverflow(felt));
            },
        };
        if signature_len > raw.len() - sig_offset - 1 {
            return Err(Error::BadSignature(SignatureError::IncompleteSignatureData));
        }
        let relevant_data = slice_subrange(raw, sig_offset + 1, sig_offset + 1 + signature_len);
        let signature = match parse_signature(relevant_data) {
            Ok(signature) => signature,
            Err(e) => {
                return Err(Error::BadSignature(e));
            },
        };

        Ok(
            CallData {
                call_array_len: raw[CALL_ARRAY_LEN_INDEX],
                to: raw[TO_INDEX],
                data,
                signature,
            },
        )
    }
}

} // verus!
