use starknet_eth_bridge::eth_types::{Signature, U256};
use starknet_eth_bridge::felt::FieldElement;
use starknet_eth_bridge::starknet_call_data::{
    concat_u128_felt_into_uint256, parse_data, parse_signature, CallData, Error, SignatureError,
    U128FeltError,
};
use starknet_eth_bridge::starknet_types::InvokeTransaction;

fn felt(n: u64) -> FieldElement {
    FieldElement::from_u64(n)
}

fn felt_of(hex_digits: &str) -> FieldElement {
    let raw = hex::decode(hex_digits).unwrap();
    let mut bytes = [0u8; 32];
    bytes[32 - raw.len()..].copy_from_slice(&raw);
    let felt = FieldElement::from_bytes_be(&bytes);
    assert_eq!(felt.to_bytes_be(), bytes, "the fixture is no canonical element");
    felt
}

/// Packs a buffer as the decoder expects it: whole chunks of 32 bytes, then
/// the rest right-aligned in one more element.
fn pack(buf: &[u8]) -> Vec<FieldElement> {
    let mut felts = vec![];
    for chunk in buf.chunks(32) {
        let mut bytes = [0u8; 32];
        bytes[32 - chunk.len()..].copy_from_slice(chunk);
        let felt = FieldElement::from_bytes_be(&bytes);
        assert_eq!(felt.to_bytes_be(), bytes, "the chunk is no canonical element");
        felts.push(felt);
    }
    felts
}

/// A buffer whose chunks of 32 bytes all are canonical elements.
fn buffer(len: usize) -> Vec<u8> {
    (0..len).map(|i| if i % 32 == 0 { (i / 32 % 8) as u8 } else { (i * 7 + 3) as u8 }).collect()
}

/// The arguments of a call with the given payload and signature elements.
fn call(call_array_len: u64, to: u64, payload: &[u8], signature: &[FieldElement]) -> Vec<FieldElement> {
    let len = payload.len();
    assert!(len % 32 != 0 && len >= 3);
    let mut raw: Vec<FieldElement> = (0..15).map(|i| felt(1000 + i)).collect();
    raw[8] = felt(call_array_len);
    raw[9] = felt(to);
    raw[12] = felt(len as u64);
    raw.extend(pack(payload));
    raw.resize(14 + len, felt(0));
    raw.push(felt(signature.len() as u64));
    raw.extend_from_slice(signature);
    raw
}

fn signature_felts() -> Vec<FieldElement> {
    vec![felt(7), felt(9), felt(11), felt(13), felt(1)]
}

// ---------------------------------------------------------------------------
// Payload
// ---------------------------------------------------------------------------

#[test]
fn payload_round_trip_for_partial_last_chunk() {
    for len in [1usize, 5, 31, 33, 34, 63, 65, 100, 255] {
        let buf = buffer(len);
        let felts = pack(&buf);
        assert_eq!(felts.len(), len / 32 + 1);
        assert_eq!(parse_data(&felts, len), Ok(buf));
    }
}

#[test]
fn payload_ignores_elements_behind_the_last_chunk() {
    let buf = buffer(40);
    let mut felts = pack(&buf);
    felts.push(felt(99));
    felts.push(felt(98));
    assert_eq!(parse_data(&felts, 40), Ok(buf));
}

#[test]
fn payload_of_exact_multiple_reads_two_more_elements() {
    // A declared length of 32 takes two whole elements and then all 32 bytes
    // of a third: 96 bytes for 32 declared.
    let buf = buffer(32);
    let mut felts = pack(&buf);
    assert_eq!(felts.len(), 1);
    assert_eq!(parse_data(&felts, 32), Err(Error::DataLenBiggerThanCallData));
    felts.push(felt(0x0a));
    assert_eq!(parse_data(&felts, 32), Err(Error::DataLenBiggerThanCallData));
    felts.push(felt(0x0b));
    let mut expected = buf.clone();
    expected.extend_from_slice(&felt(0x0a).to_bytes_be());
    expected.extend_from_slice(&felt(0x0b).to_bytes_be());
    assert_eq!(expected.len(), 96);
    assert_eq!(parse_data(&felts, 32), Ok(expected));
}

#[test]
fn payload_of_length_zero_reads_two_elements() {
    let felts = vec![felt(1), felt(2)];
    let mut expected = felt(1).to_bytes_be().to_vec();
    expected.extend_from_slice(&felt(2).to_bytes_be());
    assert_eq!(parse_data(&felts, 0), Ok(expected));
    assert_eq!(parse_data(&felts[..1], 0), Err(Error::DataLenBiggerThanCallData));
}

#[test]
fn payload_of_sixty_four_reads_four_elements() {
    let buf = buffer(64);
    let mut felts = pack(&buf);
    felts.push(felt(5));
    assert_eq!(parse_data(&felts, 64), Err(Error::DataLenBiggerThanCallData));
    felts.push(felt(6));
    let data = parse_data(&felts, 64).unwrap();
    assert_eq!(data.len(), 128);
    assert_eq!(&data[..64], &buf[..]);
}

#[test]
fn payload_takes_the_last_bytes_of_the_partial_element() {
    let last = felt_of("0102030405060708090a0b0c0d0e0f101112131415161718191a1b1c1d1e1f20");
    assert_eq!(parse_data(&[last], 3), Ok(vec![0x1e, 0x1f, 0x20]));
    assert_eq!(parse_data(&[last], 31), Ok(last.to_bytes_be()[1..].to_vec()));
}

#[test]
fn payload_longer_than_the_region() {
    let felts = pack(&buffer(40));
    assert_eq!(parse_data(&felts, 64 + 1), Err(Error::DataLenBiggerThanCallData));
    assert_eq!(parse_data(&[], 1), Err(Error::DataLenBiggerThanCallData));
    assert_eq!(parse_data(&felts, usize::MAX), Err(Error::DataLenBiggerThanCallData));
}

// ---------------------------------------------------------------------------
// Signature
// ---------------------------------------------------------------------------

#[test]
fn limbs_are_joined_high_first() {
    let low = felt_of("0102030405060708090a0b0c0d0e0f10");
    let high = felt_of("a1a2a3a4a5a6a7a8a9aaabacadaeafb0");
    assert_eq!(
        concat_u128_felt_into_uint256(low, high),
        Ok(U256 {
            high: 0xa1a2a3a4a5a6a7a8a9aaabacadaeafb0,
            low: 0x0102030405060708090a0b0c0d0e0f10
        })
    );
}

#[test]
fn limb_overflow_names_the_limb() {
    let fits = felt_of("ffffffffffffffffffffffffffffffff");
    let over = felt_of("0100000000000000000000000000000000");
    let top = felt_of("0700000000000000000000000000000000000000000000000000000000000000");
    assert_eq!(concat_u128_felt_into_uint256(over, fits), Err(U128FeltError::LowOverflow(over)));
    assert_eq!(concat_u128_felt_into_uint256(top, fits), Err(U128FeltError::LowOverflow(top)));
    assert_eq!(concat_u128_felt_into_uint256(fits, over), Err(U128FeltError::HighOverflow(fits)));
    assert_eq!(concat_u128_felt_into_uint256(over, top), Err(U128FeltError::LowOverflow(over)));
    assert_eq!(
        concat_u128_felt_into_uint256(fits, fits),
        Ok(U256 { high: u128::MAX, low: u128::MAX })
    );
}

#[test]
fn signature_of_five_elements() {
    assert_eq!(
        parse_signature(&signature_felts()),
        Ok(Signature {
            r: U256 { high: 9, low: 7 },
            s: U256 { high: 13, low: 11 },
            odd_y_parity: true
        })
    );
}

#[test]
fn signature_parity_is_whether_v_is_not_zero() {
    let mut raw = signature_felts();
    raw[4] = felt(0);
    assert!(!parse_signature(&raw).unwrap().odd_y_parity);
    raw[4] = felt(27);
    assert!(parse_signature(&raw).unwrap().odd_y_parity);
    raw[4] = felt_of("0100000000000000000000000000000000");
    assert!(parse_signature(&raw).unwrap().odd_y_parity);
}

#[test]
fn signature_of_another_length() {
    let raw = signature_felts();
    assert_eq!(parse_signature(&raw[..4]), Err(SignatureError::UnsupportedLen(4)));
    assert_eq!(parse_signature(&[]), Err(SignatureError::UnsupportedLen(0)));
    let mut six = raw.clone();
    six.push(felt(0));
    assert_eq!(parse_signature(&six), Err(SignatureError::UnsupportedLen(6)));
}

#[test]
fn signature_with_a_limb_that_overflows() {
    let over = felt_of("0100000000000000000000000000000000");
    for (at, expected) in [
        (0, SignatureError::BadR(U128FeltError::LowOverflow(over))),
        (1, SignatureError::BadR(U128FeltError::HighOverflow(felt(7)))),
        (2, SignatureError::BadV(U128FeltError::LowOverflow(over))),
        (3, SignatureError::BadV(U128FeltError::HighOverflow(felt(11)))),
    ] {
        let mut raw = signature_felts();
        raw[at] = over;
        assert_eq!(parse_signature(&raw), Err(expected));
    }
}

// ---------------------------------------------------------------------------
// Call data
// ---------------------------------------------------------------------------

#[test]
fn call_data_of_ten_elements_is_too_small() {
    let raw: Vec<FieldElement> = (0..10).map(felt).collect();
    assert_eq!(CallData::parse(&raw), Err(Error::CallDataTooSmall));
}

#[test]
fn call_data_of_seventeen_elements_is_too_small() {
    let raw: Vec<FieldElement> = (0..17).map(felt).collect();
    assert_eq!(CallData::parse(&raw), Err(Error::CallDataTooSmall));
    assert_eq!(CallData::parse(&[]), Err(Error::CallDataTooSmall));
    let raw: Vec<FieldElement> = (0..18).map(felt).collect();
    assert_ne!(CallData::parse(&raw), Err(Error::CallDataTooSmall));
}

#[test]
fn call_data_decodes() {
    let payload = buffer(34);
    let raw = call(1, 0xabc, &payload, &signature_felts());
    assert_eq!(raw.len(), 14 + 34 + 1 + 5);
    assert_eq!(
        CallData::parse(&raw),
        Ok(CallData {
            call_array_len: felt(1),
            to: felt(0xabc),
            data: payload,
            signature: Signature {
                r: U256 { high: 9, low: 7 },
                s: U256 { high: 13, low: 11 },
                odd_y_parity: true
            },
        })
    );
}

#[test]
fn call_data_reads_what_stands_behind_the_signature_as_well() {
    let payload = buffer(7);
    let mut raw = call(3, 5, &payload, &signature_felts());
    raw.push(felt(1));
    raw.push(felt(2));
    let call_data = CallData::parse(&raw).unwrap();
    assert_eq!(call_data.call_array_len, felt(3));
    assert_eq!(call_data.data, payload);
}

#[test]
fn call_data_with_a_length_that_overflows() {
    let mut raw = call(1, 5, &buffer(34), &signature_felts());
    let huge = felt_of("010000000000000000");
    raw[12] = huge;
    assert_eq!(CallData::parse(&raw), Err(Error::DataLenOverflow(huge)));
}

#[test]
fn call_data_shorter_than_its_payload() {
    // 18 to 20 elements leave no payload region at all.
    for len in 18..=21 {
        let mut raw: Vec<FieldElement> = (0..len).map(|_| felt(0)).collect();
        raw[12] = felt(1);
        assert_eq!(CallData::parse(&raw), Err(Error::DataLenBiggerThanCallData));
    }
    // The last six elements are no part of the region.
    let mut raw: Vec<FieldElement> = (0..24).map(|_| felt(0)).collect();
    raw[12] = felt(33 + 32 + 32);
    assert_eq!(CallData::parse(&raw), Err(Error::DataLenBiggerThanCallData));
}

#[test]
fn call_data_that_ends_before_its_signature() {
    let full = call(1, 5, &buffer(34), &signature_felts());
    // The signature's length stands at 14 + 34.
    assert_eq!(
        CallData::parse(&full[..48]),
        Err(Error::BadSignature(SignatureError::IncompleteSignatureData))
    );
    for len in 49..full.len() {
        assert_eq!(
            CallData::parse(&full[..len]),
            Err(Error::BadSignature(SignatureError::IncompleteSignatureData))
        );
    }
    assert!(CallData::parse(&full).is_ok());
}

#[test]
fn call_data_with_a_signature_length_that_overflows() {
    let mut raw = call(1, 5, &buffer(34), &signature_felts());
    let huge = felt_of("0800000000000011000000000000000000000000000000000000000000000000");
    raw[48] = huge;
    assert_eq!(CallData::parse(&raw), Err(Error::SignatureLenOverflow(huge)));
    raw[48] = felt(u64::MAX);
    assert_eq!(
        CallData::parse(&raw),
        Err(Error::BadSignature(SignatureError::IncompleteSignatureData))
    );
}

#[test]
fn call_data_with_a_bad_signature() {
    let raw = call(1, 5, &buffer(34), &signature_felts()[..4]);
    assert_eq!(
        CallData::parse(&raw),
        Err(Error::BadSignature(SignatureError::UnsupportedLen(4)))
    );
    let over = felt_of("0100000000000000000000000000000000");
    let mut signature = signature_felts();
    signature[3] = over;
    let raw = call(1, 5, &buffer(34), &signature);
    assert_eq!(
        CallData::parse(&raw),
        Err(Error::BadSignature(SignatureError::BadV(U128FeltError::HighOverflow(felt(11)))))
    );
}

#[test]
fn call_data_of_each_invoke_version() {
    let payload = buffer(34);
    let raw = call(1, 0xabc, &payload, &signature_felts());
    let expected = CallData::parse(&raw).unwrap();
    for transaction in [
        InvokeTransaction::V0 { calldata: raw.clone() },
        InvokeTransaction::V1 { calldata: raw.clone() },
        InvokeTransaction::V3 { calldata: raw.clone() },
    ] {
        assert_eq!(CallData::parse_from_transaction(&transaction), Ok(expected.clone()));
    }
}

#[test]
fn call_data_error_comes_with_the_arguments() {
    let raw: Vec<FieldElement> = (0..10).map(felt).collect();
    let transaction = InvokeTransaction::V1 { calldata: raw.clone() };
    assert_eq!(
        CallData::parse_from_transaction(&transaction),
        Err((Error::CallDataTooSmall, raw))
    );
}
