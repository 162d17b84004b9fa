//! Events that the executor emits.

use vstd::prelude::*;
use crate::primitives::{AccountId, CodeHash};

verus! {

/// Something that happened and that the outside world may want to know.
#[derive(Clone, Debug, PartialEq, Eq)]
pub enum Event {
    /// Contract deployed by `deployer` at the address `contract`.
    Instantiated { deployer: AccountId, contract: AccountId },
    /// Contract has terminated itself and sent its balance to `beneficiary`.
    Terminated { contract: AccountId, beneficiary: AccountId },
    /// Code with the specified hash has been stored.
    CodeStored { code_hash: CodeHash },
    /// A custom event emitted by the contract.
    ContractEmitted { contract: AccountId, data: Vec<u8> },
    /// A code with the specified hash was removed.
    CodeRemoved { code_hash: CodeHash },
    /// A contract's code was updated.
    ContractCodeUpdated { contract: AccountId, new_code_hash: CodeHash, old_code_hash: CodeHash },
    /// A contract was called either by a plain account or another contract.
    Called { caller: AccountId, contract: AccountId },
    /// A contract delegate called a code hash.
    DelegateCalled { contract: AccountId, code_hash: CodeHash },
}

/// Model of an event: the same, with the data as a sequence.
pub enum EventView {
    Instantiated { deployer: AccountId, contract: AccountId },
    Terminated { contract: AccountId, beneficiary: AccountId },
    CodeStored { code_hash: CodeHash },
    ContractEmitted { contract: AccountId, data: Seq<u8> },
    CodeRemoved { code_hash: CodeHash },
    ContractCodeUpdated { contract: AccountId, new_code_hash: CodeHash, old_code_hash: CodeHash },
    Called { caller: AccountId, contract: AccountId },
    DelegateCalled { contract: AccountId, code_hash: CodeHash },
}

impl View for Event {
    type V = EventView;

    open spec fn view(&self) -> EventView {
        match *self {
            Event::Instantiated { deployer, contract } => EventView::Instantiated {
                deployer,
                contract,
            },
            Event::Terminated { contract, beneficiary } => EventView::Terminated {
                contract,
                beneficiary,
            },
            Event::CodeStored { code_hash } => EventView::CodeStored { code_hash },
            Event::ContractEmitted { contract, data } => EventView::ContractEmitted {
                contract,
                data: data@,
            },
            Event::CodeRemoved { code_hash } => EventView::CodeRemoved { code_hash },
            Event::ContractCodeUpdated {
                contract,
                new_code_hash,
                old_code_hash,
            } => EventView::ContractCodeUpdated { contract, new_code_hash, old_code_hash },
            Event::Called { caller, contract } => EventView::Called { caller, contract },
            Event::DelegateCalled { contract, code_hash } => EventView::DelegateCalled {
                contract,
                code_hash,
            },
        }
    }
}

/// An event together with the topics under which it is indexed.
#[derive(Clone, Debug, PartialEq, Eq)]
pub struct EventRecord {
    pub topics: Vec<CodeHash>,
    pub event: Event,
}

/// Model of an event record.
pub struct EventRecordView {
    pub topics: Seq<Seq<u8>>,
    pub event: EventView,
}

impl View for EventRecord {
    type V = EventRecordView;

    open spec fn view(&self) -> EventRecordView {
        EventRecordView {
            topics: Seq::new(self.topics@.len(), |i: int| self.topics@[i]@),
            event: self.event@,
        }
    }
}

/// The record of an event that is indexed by one hash.
pub open spec fn indexed(event: EventView, topic: CodeHash) -> EventRecordView {
    EventRecordView { topics: seq![topic@], event }
}

/// Builds the record of an event with one topic.
pub fn record_with_topic(event: Event, topic: CodeHash) -> (r: EventRecord)
    ensures
        r@ == indexed(event@, topic),
{
    let mut topics: Vec<CodeHash> = Vec::new();
    topics.push(topic);
    let r = EventRecord { topics, event };
    assert(r@.topics =~= seq![topic@]);
    r
}

/// Builds the record of an event with two topics.
pub fn record_with_topics(event: Event, first: CodeHash, second: CodeHash) -> (r: EventRecord)
    ensures
        r@ == (EventRecordView { topics: seq![first@, second@], event: event@ }),
{
    let mut topics: Vec<CodeHash> = Vec::new();
    topics.push(first);
    topics.push(second);
    let r = EventRecord { topics, event };
    assert(r@.topics =~= seq![first@, second@]);
    r
}

} // verus!
