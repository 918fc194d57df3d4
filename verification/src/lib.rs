//! Reconstruction of Ethereum-style signed transactions and blocks from the
//! invoke calls of a Starknet-style block.

pub mod eth_types;
pub mod felt;
pub mod rlp;
pub mod starknet_block_converter;
pub mod starknet_call_data;
pub mod starknet_transaction_converter;
pub mod starknet_types;
