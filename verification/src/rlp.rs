//! The transaction bodies of the target chain and their RLP decoders, which
//! alloy provides.

use alloy_consensus::{TxEip1559, TxEip2930, TxLegacy};
use alloy_rlp::{Decodable, Error as RlpError};
use vstd::prelude::*;

verus! {

/// The body of an access-list transaction, as alloy-consensus holds it.
#[verifier::external_type_specification]
#[verifier::external_body]
pub struct ExTxEip2930(alloy_consensus::TxEip2930);

/// The body of a fee-market transaction, as alloy-consensus holds it.
#[verifier::external_type_specification]
#[verifier::external_body]
pub struct ExTxEip1559(alloy_consensus::TxEip1559);

/// The body of a legacy transaction, as alloy-consensus holds it.
#[verifier::external_type_specification]
#[verifier::external_body]
pub struct ExTxLegacy(alloy_consensus::TxLegacy);

/// The reason why alloy-rlp rejected an input.
#[verifier::external_type_specification]
#[verifier::external_body]
pub struct ExRlpError(RlpError);

/// What `TxEip2930::decode` returns on a buffer that starts with `data`.
pub uninterp spec fn rlp_eip2930(data: Seq<u8>) -> Result<TxEip2930, RlpError>;

/// What `TxEip1559::decode` returns on a buffer that starts with `data`.
pub uninterp spec fn rlp_eip1559(data: Seq<u8>) -> Result<TxEip1559, RlpError>;

/// What `TxLegacy::decode` returns on a buffer that starts with `data`.
pub uninterp spec fn rlp_legacy(data: Seq<u8>) -> Result<TxLegacy, RlpError>;

/// Decodes the RLP list at the start of `data` as the body of an access-list
/// transaction.
///
/// Calls the `decode` that alloy-consensus implements for `TxEip2930`. Its
/// result depends on the bytes alone, for a given width of `usize`; what
/// follows the list is left unread.
#[verifier::external_body]
pub(crate) fn decode_eip2930(data: &[u8]) -> (r: Result<TxEip2930, RlpError>)
    ensures
        r == rlp_eip2930(data@),
{
    let mut buf = data;
    TxEip2930::decode(&mut buf)
}

/// Decodes the RLP list at the start of `data` as the body of a fee-market
/// transaction.
///
/// Calls the `decode` that alloy-consensus implements for `TxEip1559`. Its
/// result depends on the bytes alone, for a given width of `usize`; what
/// follows the list is left unread.
#[verifier::external_body]
pub(crate) fn decode_eip1559(data: &[u8]) -> (r: Result<TxEip1559, RlpError>)
    ensures
        r == rlp_eip1559(data@),
{
    let mut buf = data;
    TxEip1559::decode(&mut buf)
}

/// Decodes `data` as a legacy transaction.
///
/// Calls the `decode` that alloy-consensus implements for `TxLegacy`, which
/// reads six fields, or nine where bytes are left behind the sixth, and
/// compares what it read with the length that the RLP header declares. Its
/// result depends on the bytes alone, for a given width of `usize`.
#[verifier::external_body]
pub(crate) fn decode_legacy(data: &[u8]) -> (r: Result<TxLegacy, RlpError>)
    ensures
        r == rlp_legacy(data@),
{
    let mut buf = data;
    TxLegacy::decode(&mut buf)
}

} // verus!
