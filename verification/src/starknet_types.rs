//! The source block as the conversion reads it: transactions paired with
//! their receipts, and the block's timestamp.

use crate::felt::FieldElement;
use vstd::prelude::*;

verus! {

/// An invoke transaction, in one of the three versions of the source chain.
#[derive(Clone, Debug, PartialEq, Eq)]
pub enum InvokeTransaction {
    V0 { calldata: Vec<FieldElement> },
    V1 { calldata: Vec<FieldElement> },
    V3 { calldata: Vec<FieldElement> },
}

impl InvokeTransaction {
    /// The arguments of the call, whatever the version.
    pub open spec fn calldata(self) -> Seq<FieldElement> {
        match self {
            InvokeTransaction::V0 { calldata } => calldata@,
            InvokeTransaction::V1 { calldata } => calldata@,
            InvokeTransaction::V3 { calldata } => calldata@,
        }
    }
}

/// A transaction of the source chain. Only an invoke carries what the
/// conversion reads.
#[derive(Clone, Debug, PartialEq, Eq)]
pub enum StarknetTransaction {
    Invoke(InvokeTransaction),
    L1Handler,
    Declare,
    Deploy,
    DeployAccount,
}

/// An event that a transaction emitted.
#[derive(Clone, Debug, PartialEq, Eq)]
pub struct Event {
    pub data: Vec<FieldElement>,
}

/// The receipt of an invoke transaction.
#[derive(Clone, Debug, PartialEq, Eq)]
pub struct InvokeTransactionReceipt {
    pub events: Vec<Event>,
}

/// The receipt of a transaction of the source chain.
#[derive(Clone, Debug, PartialEq, Eq)]
pub enum StarknetTransactionReceipt {
    Invoke(InvokeTransactionReceipt),
    L1Handler,
    Declare,
    Deploy,
    DeployAccount,
}

/// A transaction with its receipt.
#[derive(Clone, Debug, PartialEq, Eq)]
pub struct StarknetTransactionWithReceipt {
    pub transaction: StarknetTransaction,
    pub receipt: StarknetTransactionReceipt,
}

/// A block of the source chain.
#[derive(Clone, Debug, PartialEq, Eq)]
pub struct BlockWithReceipts {
    pub timestamp: u64,
    pub transactions: Vec<StarknetTransactionWithReceipt>,
}

} // verus!
