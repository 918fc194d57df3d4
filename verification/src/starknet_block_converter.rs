//! The block assembler: from a source block to the target block that holds
//! the transactions of its calls to one account.

use crate::eth_types::{Block, BlockBody, Header};
use crate::felt::{field_modulus, FieldElement};
use crate::starknet_call_data::{spec_parse, CallData, Error as CallDataError};
use crate::starknet_transaction_converter::{
    convert_transaction, spec_convert_transaction, Error as TransactionError, TransactionSigned,
};
use crate::starknet_types::{
    BlockWithReceipts, Event, StarknetTransaction, StarknetTransactionReceipt,
    StarknetTransactionWithReceipt,
};
use alloy_primitives::Address;
use vstd::prelude::*;

verus! {

/// Why a block does not convert.
#[derive(Clone, Copy, Debug, PartialEq, Eq)]
pub enum Error {
    /// The gas that the block used does not fit in 64 bits; carries the sum.
    GasUsedOverflow(FieldElement),
}

/// Converts the blocks of the source chain for one source account and one
/// beneficiary.
pub struct StarknetBlockConverter {
    source_account_address: FieldElement,
    target_account_address: Address,
}

/// The gas that an event reports: its last data element, zero where it has none.
pub open spec fn event_gas(event: Event) -> nat {
    if event.data@.len() == 0 {
        0
    } else {
        event.data@.last().value()
    }
}

/// The counter `acc` after the gas of `events` was added to it in the field.
pub open spec fn events_gas(acc: nat, events: Seq<Event>) -> nat
    decreases events.len(),
{
    if events.len() == 0 {
        acc
    } else {
        (events_gas(acc, events.drop_last()) + event_gas(events.last())) % field_modulus()
    }
}

/// What the conversion makes of one entry of a block.
#[derive(Debug, PartialEq, Eq)]
pub enum EntryOutcome {
    /// No invoke transaction with an invoke receipt: left out.
    NotInvoke,
    /// An invoke whose arguments are too short to be a call to convert:
    /// left out, as most invokes are.
    Irrelevant,
    /// An invoke whose arguments do not decode: left out, and worth a report.
    Unparseable(CallDataError),
    /// A call to another account than the source account: left out.
    OtherAccount,
    /// A call to the source account whose transaction does not convert: its
    /// gas counts, and it is worth a report.
    Failed(TransactionError),
    /// A call to the source account with its transaction: its gas counts.
    Converted(TransactionSigned),
}

impl EntryOutcome {
    /// Whether the gas of the entry's events is added to the block's.
    pub open spec fn counts(self) -> bool {
        self is Failed || self is Converted
    }
}

/// What the conversion for the account `source` makes of `entry`.
pub open spec fn spec_classify(
    source: FieldElement,
    entry: StarknetTransactionWithReceipt,
) -> EntryOutcome {
    match entry.transaction {
        StarknetTransaction::Invoke(transaction) => match entry.receipt {
            StarknetTransactionReceipt::Invoke(_) => match spec_parse(transaction.calldata()) {
                Err(CallDataError::CallDataTooSmall) => EntryOutcome::Irrelevant,
                Err(e) => EntryOutcome::Unparseable(e),
                Ok(call_data) => if call_data.to != source {
                    EntryOutcome::OtherAccount
                } else {
                    match spec_convert_transaction(call_data) {
                        Ok(transaction) => EntryOutcome::Converted(transaction),
                        Err(e) => EntryOutcome::Failed(e),
                    }
                },
            },
            _ => EntryOutcome::NotInvoke,
        },
        _ => EntryOutcome::NotInvoke,
    }
}

/// The gas counter `acc` after an entry: the gas of its events is added
/// where the entry counts.
pub open spec fn entry_gas(
    source: FieldElement,
    acc: nat,
    entry: StarknetTransactionWithReceipt,
) -> nat {
    if spec_classify(source, entry).counts() {
        events_gas(acc, entry.receipt->Invoke_0.events@)
    } else {
        acc
    }
}

/// The transaction that an entry adds to the block, if any.
pub open spec fn entry_transaction(
    source: FieldElement,
    entry: StarknetTransactionWithReceipt,
) -> Option<TransactionSigned> {
    match spec_classify(source, entry) {
        EntryOutcome::Converted(transaction) => Some(transaction),
        _ => None,
    }
}

/// The gas counter after all of `entries`, starting from zero.
pub open spec fn block_gas(
    source: FieldElement,
    entries: Seq<StarknetTransactionWithReceipt>,
) -> nat
    decreases entries.len(),
{
    if entries.len() == 0 {
        0
    } else {
        entry_gas(source, block_gas(source, entries.drop_last()), entries.last())
    }
}

/// The transactions that `entries` add to the block, in the order of the
/// entries.
pub open spec fn block_transactions(
    source: FieldElement,
    entries: Seq<StarknetTransactionWithReceipt>,
) -> Seq<TransactionSigned>
    decreases entries.len(),
{
    if entries.len() == 0 {
        Seq::empty()
    } else {
        let before = block_transactions(source, entries.drop_last());
        match entry_transaction(source, entries.last()) {
            Some(transaction) => before.push(transaction),
            None => before,
        }
    }
}

/// The gas that `events` report together, as an integer.
pub open spec fn events_total(events: Seq<Event>) -> nat
    decreases events.len(),
{
    if events.len() == 0 {
        0
    } else {
        events_total(events.drop_last()) + event_gas(events.last())
    }
}

/// The gas that the events of the entries that count report together, as an
/// integer.
pub open spec fn block_total(
    source: FieldElement,
    entries: Seq<StarknetTransactionWithReceipt>,
) -> nat
    decreases entries.len(),
{
    if entries.len() == 0 {
        0
    } else {
        let before = block_total(source, entries.drop_last());
        if spec_classify(source, entries.last()).counts() {
            before + events_total(entries.last().receipt->Invoke_0.events@)
        } else {
            before
        }
    }
}

/// A counter below the field prime stays below it.
pub proof fn lemma_events_gas_reduced(acc: nat, events: Seq<Event>)
    requires
        acc < field_modulus(),
    ensures
        events_gas(acc, events) < field_modulus(),
    decreases events.len(),
{
}

/// Adding the gas of events to a counter in the field adds their total
/// modulo the field prime.
pub proof fn lemma_events_gas_is_sum(acc: nat, events: Seq<Event>)
    ensures
        events_gas(acc, events) % field_modulus() == (acc + events_total(events))
            % field_modulus(),
    decreases events.len(),
{
    if events.len() > 0 {
        lemma_events_gas_is_sum(acc, events.drop_last());
    }
}

/// The gas counter of a block is the total that the events of its entries
/// that count report, modulo the field prime.
pub proof fn lemma_block_gas_is_sum(
    source: FieldElement,
    entries: Seq<StarknetTransactionWithReceipt>,
)
    ensures
        block_gas(source, entries) == block_total(source, entries) % field_modulus(),
    decreases entries.len(),
{
    if entries.len() > 0 {
        let front = entries.drop_last();
        lemma_block_gas_is_sum(source, front);
        if spec_classify(source, entries.last()).counts() {
            let events = entries.last().receipt->Invoke_0.events@;
            lemma_events_gas_is_sum(block_gas(source, front), events);
            lemma_events_gas_reduced(block_gas(source, front), events);
        }
    }
}

/// The positions of the entries that add a transaction to the block, in
/// ascending order.
pub open spec fn converted_positions(
    source: FieldElement,
    entries: Seq<StarknetTransactionWithReceipt>,
) -> Seq<int>
    decreases entries.len(),
{
    if entries.len() == 0 {
        Seq::empty()
    } else {
        let before = converted_positions(source, entries.drop_last());
        if entry_transaction(source, entries.last()) is Some {
            before.push(entries.len() - 1)
        } else {
            before
        }
    }
}

/// The transactions of the block are those of the entries that count and
/// convert, each once and in the order of the entries: the `k`-th
/// transaction is that of the `k`-th such entry.
pub proof fn lemma_order_preserved(
    source: FieldElement,
    entries: Seq<StarknetTransactionWithReceipt>,
)
    ensures
        ({
            let positions = converted_positions(source, entries);
            let transactions = block_transactions(source, entries);
            &&& positions.len() == transactions.len()
            &&& forall|k: int|
                0 <= k < positions.len() ==> {
                    &&& 0 <= #[trigger] positions[k] < entries.len()
                    &&& entry_transaction(source, entries[positions[k]]) == Some(transactions[k])
                }
            &&& forall|j: int, k: int|
                0 <= j < k < positions.len() ==> #[trigger] positions[j] < #[trigger] positions[k]
            &&& forall|i: int|
                0 <= i < entries.len() && entry_transaction(source, #[trigger] entries[i]) is Some
                    ==> positions.contains(i)
        }),
    decreases entries.len(),
{
    if entries.len() > 0 {
        let front = entries.drop_last();
        lemma_order_preserved(source, front);
        let positions = converted_positions(source, entries);
        let before = converted_positions(source, front);
        assert forall|i: int|
            0 <= i < entries.len() && entry_transaction(
                source,
                #[trigger] entries[i],
            ) is Some implies positions.contains(i) by {
            if i < front.len() {
                assert(front[i] == entries[i]);
                let k = choose|k: int| 0 <= k < before.len() && before[k] == i;
                assert(positions[k] == i);
            } else {
                assert(positions[positions.len() - 1] == i);
            }
        }
        assert forall|k: int| 0 <= k < positions.len() implies {
            &&& 0 <= #[trigger] positions[k] < entries.len()
            &&& entry_transaction(source, entries[positions[k]]) == Some(
                block_transactions(source, entries)[k],
            )
        } by {
            if k < before.len() {
                assert(front[before[k]] == entries[before[k]]);
            }
        }
    }
}

/// A call to another account than `source` adds no transaction to the
/// block and no gas to the counter, wherever it stands in the block.
pub proof fn lemma_other_account_filtered(
    source: FieldElement,
    entries: Seq<StarknetTransactionWithReceipt>,
    i: int,
)
    requires
        0 <= i < entries.len(),
        entries[i].transaction matches StarknetTransaction::Invoke(transaction) && spec_parse(
            transaction.calldata(),
        ) matches Ok(call_data) && call_data.to != source,
    ensures
        entry_transaction(source, entries[i]) is None,
        forall|acc: nat| entry_gas(source, acc, entries[i]) == acc,
        !converted_positions(source, entries).contains(i),
        forall|k: int|
            0 <= k < block_transactions(source, entries).len() ==> #[trigger] converted_positions(
                source,
                entries,
            )[k] != i,
{
    lemma_order_preserved(source, entries);
}

impl StarknetBlockConverter {
    /// The account whose calls are converted.
    pub closed spec fn source(self) -> FieldElement {
        self.source_account_address
    }

    /// The account that the headers name as beneficiary.
    pub closed spec fn beneficiary(self) -> Address {
        self.target_account_address
    }

    /// A converter of the calls to `source_account_address`, whose blocks
    /// name `target_account_address` as beneficiary.
    pub fn new(source_account_address: FieldElement, target_account_address: Address) -> (r: Self)
        ensures
            r.source() == source_account_address,
            r.beneficiary() == target_account_address,
    {
        Self { source_account_address, target_account_address }
    }

    /// Adds the gas of the events of a receipt to the counter.
    fn accumulate_gas(cumulative: FieldElement, events: &Vec<Event>) -> (r: FieldElement)
        ensures
            r.value() == events_gas(cumulative.value(), events@),
    {
        let mut gas = cumulative;
        let mut i: usize = 0;
        while i < events.len()
            invariant
                i <= events.len(),
                gas.value() == events_gas(cumulative.value(), events@.subrange(0, i as int)),
            decreases events.len() - i,
        {
            let data = &events[i].data;
            let gas_used = if data.len() == 0 {
                FieldElement::zero()
            } else {
                data[data.len() - 1]
            };
            proof {
                assert(events@.subrange(0, i + 1).drop_last() =~= events@.subrange(0, i as int));
            }
            gas = gas.add(&gas_used);
            i += 1;
        }
        proof {
            assert(events@.subrange(0, events.len() as int) =~= events@);
        }
        gas
    }

    /// Says what the conversion makes of one entry of a block.
    pub fn classify(&self, entry: &StarknetTransactionWithReceipt) -> (r: EntryOutcome)
        ensures
            r == spec_classify(self.source(), *entry),
    {
        // Only invoke transactions with an invoke receipt are read.
        let transaction = match &entry.transaction {
            StarknetTransaction::Invoke(transaction) => transaction,
            _ => {
                return EntryOutcome::NotInvoke;
            },
        };
        match &entry.receipt {
            StarknetTransactionReceipt::Invoke(_) => {},
            _ => {
                return EntryOutcome::NotInvoke;
            },
        }
        let call_data = match CallData::parse_from_transaction(transaction) {
            Ok(call_data) => call_data,
            Err((CallDataError::CallDataTooSmall, _)) => {
                return EntryOutcome::Irrelevant;
            },
            Err((e, _)) => {
                return EntryOutcome::Unparseable(e);
            },
        };
        // Only calls to the source account are converted.
        if call_data.to != self.source_account_address {
            return EntryOutcome::OtherAccount;
        }
        match convert_transaction(call_data) {
            Ok(transaction) => EntryOutcome::Converted(transaction),
            Err(e) => EntryOutcome::Failed(e),
        }
    }

    /// Handles one entry of a block: the gas counter after it, and the
    /// transaction that it adds.
    fn convert_entry(
        &self,
        cumulative: FieldElement,
        entry: &StarknetTransactionWithReceipt,
    ) -> (r: (FieldElement, Option<TransactionSigned>))
        ensures
            r.0.value() == entry_gas(self.source(), cumulative.value(), *entry),
            r.1 == entry_transaction(self.source(), *entry),
    {
        let outcome = self.classify(entry);
        let transaction = match outcome {
            EntryOutcome::Converted(transaction) => Some(transaction),
            EntryOutcome::Failed(_) => None,
            _ => {
                return (cumulative, None);
            },
        };
        let gas = match &entry.receipt {
            StarknetTransactionReceipt::Invoke(receipt) => Self::accumulate_gas(
                cumulative,
                &receipt.events,
            ),
            _ => cumulative,
        };
        (gas, transaction)
    }

    /// Converts a block of the source chain: the transactions of its calls to
    /// the source account, in their order, under a header that holds the
    /// gas of their events and the block's timestamp. Fails where that gas
    /// does not fit in 64 bits.
    pub fn convert(&mut self, block: BlockWithReceipts) -> (r: Result<
        Block<TransactionSigned>,
        Error,
    >)
        ensures
            *final(self) == *old(self),
            match r {
                Ok(target) => {
                    let gas = block_gas(old(self).source(), block.transactions@);
                    &&& gas <= u64::MAX
                    &&& target.is_assembled_from(
                        old(self).beneficiary(),
                        gas as u64,
                        block.timestamp,
                        block_transactions(old(self).source(), block.transactions@),
                    )
                },
                Err(Error::GasUsedOverflow(total)) => {
                    &&& total.value() == block_gas(old(self).source(), block.transactions@)
                    &&& total.value() > u64::MAX
                },
            },
    {
        let mut transactions: Vec<TransactionSigned> = Vec::new();
        let mut cumulative_gas_used = FieldElement::zero();
        let mut i: usize = 0;
        while i < block.transactions.len()
            invariant
                i <= block.transactions.len(),
                *self == *old(self),
                cumulative_gas_used.value() == block_gas(
                    self.source(),
                    block.transactions@.subrange(0, i as int),
                ),
                transactions@ == block_transactions(
                    self.source(),
                    block.transactions@.subrange(0, i as int),
                ),
            decreases block.transactions.len() - i,
        {
            proof {
                assert(block.transactions@.subrange(0, i + 1).drop_last()
                    =~= block.transactions@.subrange(0, i as int));
            }
            let (gas, transaction) = self.convert_entry(cumulative_gas_used, &block.transactions[i]);
            cumulative_gas_used = gas;
            match transaction {
                Some(transaction) => {
                    transactions.push(transaction);
                },
                None => {},
            }
            i += 1;
        }
        proof {
            assert(block.transactions@.subrange(0, block.transactions.len() as int)
                =~= block.transactions@);
        }

        let gas_used = match cumulative_gas_used.to_u64() {
            Ok(gas_used) => gas_used,
            Err(total) => {
                return Err(Error::GasUsedOverflow(total));
            },
        };

        let header = Header::placeholder(self.target_account_address, gas_used, block.timestamp);
        let body = BlockBody { transactions, ommers: Vec::new(), withdrawals: None, requests: None };
        Ok(Block { header, body })
    }
}

} // verus!
