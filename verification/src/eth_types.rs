//! The plain values of the target chain that the conversion produces.

use alloy_primitives::Address;
use vstd::prelude::*;

verus! {

/// `2^128`, the weight of the high limb of a 256-bit integer.
pub open spec fn limb_base() -> nat {
    0x1_0000_0000_0000_0000_0000_0000_0000_0000nat
}

/// A 256-bit unsigned integer, held as two 128-bit limbs.
#[derive(Clone, Copy, Debug, PartialEq, Eq, Structural)]
pub struct U256 {
    pub high: u128,
    pub low: u128,
}

impl U256 {
    /// The integer that the two limbs stand for.
    pub open spec fn value(self) -> nat {
        self.high as nat * limb_base() + self.low as nat
    }
}

/// An ECDSA signature with the simplified boolean recovery id.
#[derive(Clone, Copy, Debug, PartialEq, Eq, Structural)]
pub struct Signature {
    pub r: U256,
    pub s: U256,
    pub odd_y_parity: bool,
}

impl Signature {
    /// The signature with the given parts.
    pub fn new(r: U256, s: U256, odd_y_parity: bool) -> (sig: Signature)
        ensures
            sig == (Signature { r, s, odd_y_parity }),
    {
        Signature { r, s, odd_y_parity }
    }
}

/// An account address of the target chain, as alloy-primitives holds it.
#[verifier::external_type_specification]
#[verifier::external_body]
pub struct ExAddress(alloy_primitives::Address);

/// `n` zero bytes.
pub open spec fn zeros(n: nat) -> Seq<u8> {
    Seq::new(n, |i: int| 0u8)
}

/// The header of a block of the target chain.
#[derive(Debug, PartialEq, Eq)]
pub struct Header {
    pub parent_hash: [u8; 32],
    pub ommers_hash: [u8; 32],
    pub beneficiary: Address,
    pub state_root: [u8; 32],
    pub transactions_root: [u8; 32],
    pub receipts_root: [u8; 32],
    pub withdrawals_root: Option<[u8; 32]>,
    pub logs_bloom: [u8; 256],
    pub difficulty: U256,
    pub number: u64,
    pub gas_limit: u64,
    pub gas_used: u64,
    pub timestamp: u64,
    pub mix_hash: [u8; 32],
    pub nonce: [u8; 8],
    pub base_fee_per_gas: Option<u64>,
    pub blob_gas_used: Option<u64>,
    pub excess_blob_gas: Option<u64>,
    pub parent_beacon_block_root: Option<[u8; 32]>,
    pub requests_root: Option<[u8; 32]>,
    pub extra_data: Vec<u8>,
}

impl Header {
    /// Whether every field but the beneficiary, the gas used and the
    /// timestamp holds its placeholder: zero, none or empty.
    pub open spec fn is_placeholder(self) -> bool {
        &&& self.parent_hash@ == zeros(32)
        &&& self.ommers_hash@ == zeros(32)
        &&& self.state_root@ == zeros(32)
        &&& self.transactions_root@ == zeros(32)
        &&& self.receipts_root@ == zeros(32)
        &&& self.withdrawals_root is None
        &&& self.logs_bloom@ == zeros(256)
        &&& self.difficulty == (U256 { high: 0, low: 0 })
        &&& self.number == 0
        &&& self.gas_limit == 0
        &&& self.mix_hash@ == zeros(32)
        &&& self.nonce@ == zeros(8)
        &&& self.base_fee_per_gas is None
        &&& self.blob_gas_used is None
        &&& self.excess_blob_gas is None
        &&& self.parent_beacon_block_root is None
        &&& self.requests_root is None
        &&& self.extra_data@ == Seq::<u8>::empty()
    }

    /// A header of placeholders around the three given values.
    pub fn placeholder(beneficiary: Address, gas_used: u64, timestamp: u64) -> (header: Header)
        ensures
            header.is_placeholder(),
            header.beneficiary == beneficiary,
            header.gas_used == gas_used,
            header.timestamp == timestamp,
    {
        let header = Header {
            parent_hash: [0u8;32],
            ommers_hash: [0u8;32],
            beneficiary,
            state_root: [0u8;32],
            transactions_root: [0u8;32],
            receipts_root: [0u8;32],
            withdrawals_root: None,
            logs_bloom: [0u8;256],
            difficulty: U256 { high: 0, low: 0 },
            number: 0,
            gas_limit: 0,
            gas_used,
            timestamp,
            mix_hash: [0u8;32],
            nonce: [0u8;8],
            base_fee_per_gas: None,
            blob_gas_used: None,
            excess_blob_gas: None,
            parent_beacon_block_root: None,
            requests_root: None,
            extra_data: Vec::new(),
        };
        assert(header.parent_hash@ =~= zeros(32));
        assert(header.ommers_hash@ =~= zeros(32));
        assert(header.state_root@ =~= zeros(32));
        assert(header.transactions_root@ =~= zeros(32));
        assert(header.receipts_root@ =~= zeros(32));
        assert(header.logs_bloom@ =~= zeros(256));
        assert(header.mix_hash@ =~= zeros(32));
        assert(header.nonce@ =~= zeros(8));
        header
    }
}

/// A withdrawal from the consensus layer.
#[derive(Debug, PartialEq, Eq)]
pub struct Withdrawal {
    pub index: u64,
    pub validator_index: u64,
    pub address: Address,
    pub amount: u64,
}

/// What a block holds besides its header.
#[derive(Debug, PartialEq, Eq)]
pub struct BlockBody<T> {
    pub transactions: Vec<T>,
    pub ommers: Vec<Header>,
    pub withdrawals: Option<Vec<Withdrawal>>,
    pub requests: Option<Vec<Vec<u8>>>,
}

/// A block of the target chain.
#[derive(Debug, PartialEq, Eq)]
pub struct Block<T> {
    pub header: Header,
    pub body: BlockBody<T>,
}

impl<T> Block<T> {
    /// Whether the block holds exactly the given transactions, in their
    /// order, under a header of placeholders around the three given values,
    /// and neither ommers, withdrawals nor requests.
    pub open spec fn is_assembled_from(
        self,
        beneficiary: Address,
        gas_used: u64,
        timestamp: u64,
        transactions: Seq<T>,
    ) -> bool {
        &&& self.header.is_placeholder()
        &&& self.header.beneficiary == beneficiary
        &&& self.header.gas_used == gas_used
        &&& self.header.timestamp == timestamp
        &&& self.body.transactions@ == transactions
        &&& self.body.ommers@ == Seq::<Header>::empty()
        &&& self.body.withdrawals is None
        &&& self.body.requests is None
    }
}

} // verus!
