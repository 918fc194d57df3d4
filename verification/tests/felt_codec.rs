use starknet_core::types::Felt;
use starknet_eth_bridge::felt::FieldElement;

fn bytes_of(hex_digits: &str) -> [u8; 32] {
    let raw = hex::decode(hex_digits).unwrap();
    let mut bytes = [0u8; 32];
    bytes[32 - raw.len()..].copy_from_slice(&raw);
    bytes
}

const PRIME: &str = "0800000000000011000000000000000000000000000000000000000000000001";
const PRIME_MINUS_ONE: &str = "0800000000000011000000000000000000000000000000000000000000000000";

#[test]
fn canonical_bytes_survive_a_round_trip() {
    let bytes = bytes_of("01d2e513630d8120666fc6e7d52ad0c01479fd99c183baac79fff9135f46e359");
    assert_eq!(FieldElement::from_bytes_be(&bytes).to_bytes_be(), bytes);
    let max = bytes_of(PRIME_MINUS_ONE);
    assert_eq!(FieldElement::from_bytes_be(&max).to_bytes_be(), max);
}

#[test]
fn from_bytes_be_reduces_modulo_the_prime() {
    assert_eq!(FieldElement::from_bytes_be(&bytes_of(PRIME)), FieldElement::zero());
    let all_ones = [0xffu8; 32];
    let reduced = bytes_of("07fffffffffffdf0ffffffffffffffffffffffffffffffffffffffffffffffe0");
    assert_eq!(FieldElement::from_bytes_be(&all_ones).to_bytes_be(), reduced);
}

#[test]
fn encoding_agrees_with_the_source_chain_library() {
    for n in [0u64, 1, 255, 256, 260017, u64::MAX] {
        assert_eq!(FieldElement::from_u64(n).to_bytes_be(), Felt::from(n).to_bytes_be());
    }
}

#[test]
fn from_u64_writes_the_low_eight_bytes() {
    let mut expected = [0u8; 32];
    expected[24..].copy_from_slice(&[0x01, 0x02, 0x03, 0x04, 0x05, 0x06, 0x07, 0x08]);
    assert_eq!(FieldElement::from_u64(0x0102030405060708).to_bytes_be(), expected);
}

#[test]
fn zero_and_one() {
    assert_eq!(FieldElement::zero().to_bytes_be(), [0u8; 32]);
    assert_eq!(FieldElement::one(), FieldElement::from_u64(1));
    assert!(FieldElement::zero().is_zero());
    assert!(!FieldElement::one().is_zero());
    assert_ne!(FieldElement::zero(), FieldElement::one());
}

#[test]
fn addition_is_modular() {
    let one = FieldElement::one();
    assert_eq!(one.add(&one), FieldElement::from_u64(2));
    assert_eq!(
        FieldElement::from_u64(u64::MAX).add(&one).to_bytes_be(),
        bytes_of("010000000000000000")
    );
    let max = FieldElement::from_bytes_be(&bytes_of(PRIME_MINUS_ONE));
    assert_eq!(max.add(&FieldElement::from_u64(2)), one);
    assert_eq!(max.add(&FieldElement::zero()), max);
}

#[test]
fn to_u64_at_its_boundary() {
    assert_eq!(FieldElement::zero().to_u64(), Ok(0));
    assert_eq!(FieldElement::from_u64(260017).to_u64(), Ok(260017));
    assert_eq!(FieldElement::from_u64(u64::MAX).to_u64(), Ok(u64::MAX));
    let too_big = FieldElement::from_bytes_be(&bytes_of("010000000000000000"));
    assert_eq!(too_big.to_u64(), Err(too_big));
    let high_byte = FieldElement::from_bytes_be(&bytes_of(PRIME_MINUS_ONE));
    assert_eq!(high_byte.to_u64(), Err(high_byte));
}

#[test]
fn to_u128_at_its_boundary() {
    let max = FieldElement::from_bytes_be(&bytes_of("ffffffffffffffffffffffffffffffff"));
    assert_eq!(max.to_u128(), Ok(u128::MAX));
    let too_big = FieldElement::from_bytes_be(&bytes_of("0100000000000000000000000000000000"));
    assert_eq!(too_big.to_u128(), Err(too_big));
    assert_eq!(
        FieldElement::from_bytes_be(&bytes_of("0102030405060708090a0b0c0d0e0f10")).to_u128(),
        Ok(0x0102030405060708090a0b0c0d0e0f10)
    );
}

#[test]
fn to_usize_at_its_boundary() {
    assert_eq!(FieldElement::from_u64(34).to_usize(), Ok(34));
    assert_eq!(FieldElement::from_u64(usize::MAX as u64).to_usize(), Ok(usize::MAX));
    let too_big = FieldElement::from_bytes_be(&bytes_of("010000000000000000"));
    assert_eq!(too_big.to_usize(), Err(too_big));
}
