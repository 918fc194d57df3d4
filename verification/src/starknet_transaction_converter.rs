//! The transaction-payload decoder: from the unpacked payload of a call to a
//! signed transaction of the target chain.

use crate::eth_types::Signature;
use crate::felt::FieldElement;
use crate::rlp::{decode_eip1559, decode_eip2930, decode_legacy, rlp_eip1559, rlp_eip2930, rlp_legacy};
use crate::starknet_call_data::{CallData, CallDataView};
use alloy_consensus::{TxEip1559, TxEip2930, TxLegacy};
use alloy_rlp::Error as RlpError;
use vstd::prelude::*;
use vstd::slice::slice_subrange;

verus! {

/// The type byte of an access-list transaction.
pub const TX_TYPE_EIP2930: u8 = 1;

/// The type byte of a fee-market transaction.
pub const TX_TYPE_EIP1559: u8 = 2;

/// From this byte on, the payload holds a legacy transaction.
pub const LEGACY_THRESHOLD: u8 = 0x7f;

/// Where the type byte stands in the payload.
pub const TX_TYPE_INDEX: usize = 1;

/// Where the body of a typed transaction starts in the payload.
pub const TYPED_BODY_START: usize = 2;

/// Why a payload gives no transaction.
#[derive(Clone, Copy, Debug, PartialEq, Eq)]
pub enum Error {
    /// The body is no access-list transaction.
    Eip2930(RlpError),
    /// The body is no fee-market transaction.
    Eip1559(RlpError),
    /// The body is no legacy transaction.
    Legacy(RlpError),
    /// The type byte is below `0x7f` and names no supported type.
    UnsupportedTransactionType { tx_type: u8 },
    /// The invoke packs another number of calls than one.
    UnsupportedMultipleTransaction,
    /// The payload ends before its type byte.
    MissingTransactionType,
}

/// A transaction of the target chain, unsigned.
#[derive(Debug, PartialEq, Eq)]
pub enum Transaction {
    Legacy(TxLegacy),
    Eip2930(TxEip2930),
    Eip1559(TxEip1559),
}

/// A transaction of the target chain with its signature.
#[derive(Debug, PartialEq, Eq)]
pub struct TransactionSigned {
    pub signature: Signature,
    pub transaction: Transaction,
}

impl TransactionSigned {
    /// Pairs a transaction with its signature.
    pub fn from_transaction_and_signature(transaction: Transaction, signature: Signature) -> (r:
        TransactionSigned)
        ensures
            r == (TransactionSigned { signature, transaction }),
    {
        TransactionSigned { signature, transaction }
    }
}

/// The decoder that a type byte selects.
#[derive(Clone, Copy, Debug, PartialEq, Eq, Structural)]
pub enum TxDecoder {
    Eip2930,
    Eip1559,
    Legacy,
}

impl TxDecoder {
    /// The decoder for a type byte: a typed one below `0x7f`, where the byte
    /// names a supported type, the legacy one from `0x7f` on.
    pub open spec fn spec_select(tx_type: u8) -> Result<TxDecoder, Error> {
        if tx_type >= LEGACY_THRESHOLD {
            Ok(TxDecoder::Legacy)
        } else if tx_type == TX_TYPE_EIP2930 {
            Ok(TxDecoder::Eip2930)
        } else if tx_type == TX_TYPE_EIP1559 {
            Ok(TxDecoder::Eip1559)
        } else {
            Err(Error::UnsupportedTransactionType { tx_type })
        }
    }

    /// Selects the decoder for a type byte.
    pub fn select(tx_type: u8) -> (r: Result<TxDecoder, Error>)
        ensures
            r == Self::spec_select(tx_type),
    {
        if tx_type < LEGACY_THRESHOLD {
            if tx_type == TX_TYPE_EIP2930 {
                Ok(TxDecoder::Eip2930)
            } else if tx_type == TX_TYPE_EIP1559 {
                Ok(TxDecoder::Eip1559)
            } else {
                Err(Error::UnsupportedTransactionType { tx_type })
            }
        } else {
            Ok(TxDecoder::Legacy)
        }
    }

    /// Where in a payload the bytes start that this decoder reads. A typed
    /// body follows the type byte; a legacy transaction starts with the byte
    /// that was read in its place.
    pub open spec fn spec_body_start(self) -> usize {
        match self {
            TxDecoder::Legacy => TX_TYPE_INDEX,
            _ => TYPED_BODY_START,
        }
    }

    /// Where in a payload the bytes start that this decoder reads.
    pub fn body_start(self) -> (r: usize)
        ensures
            r == self.spec_body_start(),
    {
        match self {
            TxDecoder::Legacy => TX_TYPE_INDEX,
            _ => TYPED_BODY_START,
        }
    }
}

/// A payload goes to the legacy decoder exactly when its type byte is
/// `0x7f` or above, and then the decoder reads from that byte on. Below, it
/// goes to a typed decoder, which reads what follows the byte, or is refused
/// for its type.
pub proof fn lemma_dispatch_boundary(tx_type: u8)
    ensures
        tx_type >= 0x7f <==> TxDecoder::spec_select(tx_type) == Ok::<TxDecoder, Error>(
            TxDecoder::Legacy,
        ),
        tx_type < 0x7f ==> match TxDecoder::spec_select(tx_type) {
            Ok(decoder) => decoder != TxDecoder::Legacy && decoder.spec_body_start() == 2,
            Err(e) => e == (Error::UnsupportedTransactionType { tx_type }),
        },
        TxDecoder::Legacy.spec_body_start() == 1,
{
}

/// The transaction that a decoded access-list body gives.
pub open spec fn spec_eip2930_outcome(decoded: Result<TxEip2930, RlpError>) -> Result<
    Transaction,
    Error,
> {
    match decoded {
        Ok(tx) => Ok(Transaction::Eip2930(tx)),
        Err(e) => Err(Error::Eip2930(e)),
    }
}

/// The transaction that a decoded fee-market body gives.
pub open spec fn spec_eip1559_outcome(decoded: Result<TxEip1559, RlpError>) -> Result<
    Transaction,
    Error,
> {
    match decoded {
        Ok(tx) => Ok(Transaction::Eip1559(tx)),
        Err(e) => Err(Error::Eip1559(e)),
    }
}

/// The transaction that a decoded legacy body gives.
pub open spec fn spec_legacy_outcome(decoded: Result<TxLegacy, RlpError>) -> Result<
    Transaction,
    Error,
> {
    match decoded {
        Ok(tx) => Ok(Transaction::Legacy(tx)),
        Err(e) => Err(Error::Legacy(e)),
    }
}

/// Wraps what the access-list decoder returned.
pub fn eip2930_outcome(decoded: Result<TxEip2930, RlpError>) -> (r: Result<Transaction, Error>)
    ensures
        r == spec_eip2930_outcome(decoded),
{
    match decoded {
        Ok(tx) => Ok(Transaction::Eip2930(tx)),
        Err(e) => Err(Error::Eip2930(e)),
    }
}

/// Wraps what the fee-market decoder returned.
pub fn eip1559_outcome(decoded: Result<TxEip1559, RlpError>) -> (r: Result<Transaction, Error>)
    ensures
        r == spec_eip1559_outcome(decoded),
{
    match decoded {
        Ok(tx) => Ok(Transaction::Eip1559(tx)),
        Err(e) => Err(Error::Eip1559(e)),
    }
}

/// Wraps what the legacy decoder returned.
pub fn legacy_outcome(decoded: Result<TxLegacy, RlpError>) -> (r: Result<Transaction, Error>)
    ensures
        r == spec_legacy_outcome(decoded),
{
    match decoded {
        Ok(tx) => Ok(Transaction::Legacy(tx)),
        Err(e) => Err(Error::Legacy(e)),
    }
}

/// The transaction that a payload holds.
pub open spec fn spec_parse_transaction(data: Seq<u8>) -> Result<Transaction, Error> {
    if data.len() <= TX_TYPE_INDEX {
        Err(Error::MissingTransactionType)
    } else {
        match TxDecoder::spec_select(data[TX_TYPE_INDEX as int]) {
            Err(e) => Err(e),
            Ok(decoder) => {
                let body = data.subrange(decoder.spec_body_start() as int, data.len() as int);
                match decoder {
                    TxDecoder::Eip2930 => spec_eip2930_outcome(rlp_eip2930(body)),
                    TxDecoder::Eip1559 => spec_eip1559_outcome(rlp_eip1559(body)),
                    TxDecoder::Legacy => spec_legacy_outcome(rlp_legacy(body)),
                }
            },
        }
    }
}

/// Decodes the transaction that a payload holds.
pub fn parse_transaction(data: &[u8]) -> (r: Result<Transaction, Error>)
    ensures
        r == spec_parse_transaction(data@),
{
    if data.len() <= TX_TYPE_INDEX {
        return Err(Error::MissingTransactionType);
    }
    let tx_type = data[TX_TYPE_INDEX];
    let decoder = match TxDecoder::select(tx_type) {
        Ok(decoder) => decoder,
        Err(e) => {
            return Err(e);
        },
    };
    let body = slice_subrange(data, decoder.body_start(), data.len());
    match decoder {
        TxDecoder::Eip2930 => eip2930_outcome(decode_eip2930(body)),
        TxDecoder::Eip1559 => eip1559_outcome(decode_eip1559(body)),
        TxDecoder::Legacy => legacy_outcome(decode_legacy(body)),
    }
}

/// The signed transaction that decoded call data gives.
pub open spec fn spec_convert_transaction(call_data: CallDataView) -> Result<
    TransactionSigned,
    Error,
> {
    if call_data.call_array_len.value() != 1 {
        Err(Error::UnsupportedMultipleTransaction)
    } else {
        match spec_parse_transaction(call_data.data) {
            Err(e) => Err(e),
            Ok(transaction) => Ok(
                TransactionSigned { signature: call_data.signature, transaction },
            ),
        }
    }
}

/// Rebuilds the signed transaction of the single call that `call_data` holds.
pub fn convert_transaction(call_data: CallData) -> (r: Result<TransactionSigned, Error>)
    ensures
        r == spec_convert_transaction(call_data@),
{
    let one = FieldElement::one();
    if call_data.call_array_len != one {
        proof {
            if call_data.call_array_len.value() == 1 {
                FieldElement::lemma_value_injective(call_data.call_array_len, one);
            }
        }
        return Err(Error::UnsupportedMultipleTransaction);
    }
    let transaction = match parse_transaction(call_data.data.as_slice()) {
        Ok(transaction) => transaction,
        Err(e) => {
            return Err(e);
        },
    };
    Ok(TransactionSigned::from_transaction_and_signature(transaction, call_data.signature))
}

} // verus!
