//! Host functions that read the frame and the chain, move balance, or emit something.
//!
//! Every function first charges its fee to the running frame. Where the frame cannot pay,
//! the function fails with `OutOfGas` and nothing has changed.

use vstd::prelude::*;
use crate::error::Error;
use crate::event::{Event, EventRecord, EventRecordView, EventView};
use crate::exec::Stack;
use crate::ledger::{can_transfer, transfer, transferred};
use crate::primitives::{to_vec, AccountId, Balance, CodeHash};
use crate::state::StateView;
use crate::table::bytes_eq;
use crate::weight::Weight;

verus! {

/// Calls `core::str::from_utf8` and tells whether it accepted the bytes, that is, whether
/// they are valid UTF-8.
#[verifier::external_body]
fn is_utf8(bytes: &[u8]) -> (r: bool)
    ensures
        r == vstd::utf8::valid_utf8(bytes@),
{
    core::str::from_utf8(bytes).is_ok()
}

/// The buffer after `message` was appended, if it still fits a buffer of `max_len` bytes.
pub open spec fn appended(buffer: Seq<u8>, message: Seq<u8>, max_len: u32) -> Seq<u8> {
    if buffer.len() + message.len() <= max_len {
        buffer + message
    } else {
        buffer
    }
}

impl Stack {
    /// The fee of a host function that only reads.
    pub open spec fn query_fee(self) -> Weight {
        self.config().schedule.host_fn_weights.query
    }

    /// The account that called the running contract.
    pub fn caller(&mut self) -> (r: Result<AccountId, Error>)
        requires
            old(self).wf(),
            old(self).depth() > 0,
        ensures
            final(self).wf(),
            final(self).state() == old(self).state(),
            r.is_ok() <==> old(self).query_fee().all_lte(old(self).top().nested_gas.left()),
            r matches Ok(a) ==> a == old(self).top().caller && final(self).charged(
                *old(self),
                old(self).query_fee(),
            ),
            r matches Err(e) ==> e == Error::OutOfGas && final(self).same(*old(self)),
    {
        let fee = self.config.schedule.host_fn_weights.query;
        match self.charge(fee) {
            Ok(()) => Ok(self.frames[self.frames.len() - 1].caller),
            Err(e) => Err(e),
        }
    }

    /// The account of the running contract.
    pub fn address(&mut self) -> (r: Result<AccountId, Error>)
        requires
            old(self).wf(),
            old(self).depth() > 0,
        ensures
            final(self).wf(),
            final(self).state() == old(self).state(),
            r.is_ok() <==> old(self).query_fee().all_lte(old(self).top().nested_gas.left()),
            r matches Ok(a) ==> a == old(self).top().account_id && final(self).charged(
                *old(self),
                old(self).query_fee(),
            ),
            r matches Err(e) ==> e == Error::OutOfGas && final(self).same(*old(self)),
    {
        let fee = self.config.schedule.host_fn_weights.query;
        match self.charge(fee) {
            Ok(()) => Ok(self.frames[self.frames.len() - 1].account_id),
            Err(e) => Err(e),
        }
    }

    /// Whether `who` is a contract.
    pub fn is_contract(&mut self, who: &AccountId) -> (r: Result<bool, Error>)
        requires
            old(self).wf(),
            old(self).depth() > 0,
        ensures
            final(self).wf(),
            final(self).state() == old(self).state(),
            r.is_ok() <==> old(self).query_fee().all_lte(old(self).top().nested_gas.left()),
            r matches Ok(b) ==> b == old(self).ledger().contracts.contains_key(who@)
                && final(self).charged(*old(self), old(self).query_fee()),
            r matches Err(e) ==> e == Error::OutOfGas && final(self).same(*old(self)),
    {
        let fee = self.config.schedule.host_fn_weights.query;
        match self.charge(fee) {
            Ok(()) => Ok(self.state.contract_info(who).is_some()),
            Err(e) => Err(e),
        }
    }

    /// The hash of the code of the contract at `who`, if `who` is a contract.
    pub fn code_hash(&mut self, who: &AccountId) -> (r: Result<Option<CodeHash>, Error>)
        requires
            old(self).wf(),
            old(self).depth() > 0,
        ensures
            final(self).wf(),
            final(self).state() == old(self).state(),
            r.is_ok() <==> old(self).query_fee().all_lte(old(self).top().nested_gas.left()),
            r matches Ok(h) ==> {
                &&& h.is_some() == old(self).ledger().contracts.contains_key(who@)
                &&& h matches Some(hash) ==> hash
                    == old(self).ledger().contracts[who@].info.code_hash
                &&& final(self).charged(*old(self), old(self).query_fee())
            },
            r matches Err(e) ==> e == Error::OutOfGas && final(self).same(*old(self)),
    {
        let fee = self.config.schedule.host_fn_weights.query;
        match self.charge(fee) {
            Ok(()) => Ok(
                match self.state.contract_info(who) {
                    Some(info) => Some(info.code_hash),
                    None => None,
                },
            ),
            Err(e) => Err(e),
        }
    }

    /// The hash of the code that is running.
    pub fn own_code_hash(&mut self) -> (r: Result<CodeHash, Error>)
        requires
            old(self).wf(),
            old(self).depth() > 0,
        ensures
            final(self).wf(),
            final(self).state() == old(self).state(),
            r.is_ok() <==> old(self).query_fee().all_lte(old(self).top().nested_gas.left()),
            r matches Ok(h) ==> h == old(self).top().code_hash && final(self).charged(
                *old(self),
                old(self).query_fee(),
            ),
            r matches Err(e) ==> e == Error::OutOfGas && final(self).same(*old(self)),
    {
        let fee = self.config.schedule.host_fn_weights.query;
        match self.charge(fee) {
            Ok(()) => Ok(self.frames[self.frames.len() - 1].code_hash),
            Err(e) => Err(e),
        }
    }

    /// Whether the running contract was called by the origin itself.
    pub fn caller_is_origin(&mut self) -> (r: Result<bool, Error>)
        requires
            old(self).wf(),
            old(self).depth() > 0,
        ensures
            final(self).wf(),
            final(self).state() == old(self).state(),
            r.is_ok() <==> old(self).query_fee().all_lte(old(self).top().nested_gas.left()),
            r matches Ok(b) ==> b == (old(self).top().caller@ == old(self).origin()@)
                && final(self).charged(*old(self), old(self).query_fee()),
            r matches Err(e) ==> e == Error::OutOfGas && final(self).same(*old(self)),
    {
        let fee = self.config.schedule.host_fn_weights.query;
        match self.charge(fee) {
            Ok(()) => Ok(
                bytes_eq(
                    self.frames[self.frames.len() - 1].caller.as_slice(),
                    self.origin.as_slice(),
                ),
            ),
            Err(e) => Err(e),
        }
    }

    /// The free balance of the running contract.
    pub fn balance(&mut self) -> (r: Result<Balance, Error>)
        requires
            old(self).wf(),
            old(self).depth() > 0,
        ensures
            final(self).wf(),
            final(self).state() == old(self).state(),
            r.is_ok() <==> old(self).query_fee().all_lte(old(self).top().nested_gas.left()),
            r matches Ok(b) ==> b == old(self).ledger().balance(old(self).top().account_id@).free
                && final(self).charged(*old(self), old(self).query_fee()),
            r matches Err(e) ==> e == Error::OutOfGas && final(self).same(*old(self)),
    {
        let fee = self.config.schedule.host_fn_weights.query;
        match self.charge(fee) {
            Ok(()) => {
                let who = self.frames[self.frames.len() - 1].account_id;
                Ok(self.state.balance(&who).free)
            },
            Err(e) => Err(e),
        }
    }

    /// The balance that came with the call.
    pub fn value_transferred(&mut self) -> (r: Result<Balance, Error>)
        requires
            old(self).wf(),
            old(self).depth() > 0,
        ensures
            final(self).wf(),
            final(self).state() == old(self).state(),
            r.is_ok() <==> old(self).query_fee().all_lte(old(self).top().nested_gas.left()),
            r matches Ok(b) ==> b == old(self).top().value_transferred && final(self).charged(
                *old(self),
                old(self).query_fee(),
            ),
            r matches Err(e) ==> e == Error::OutOfGas && final(self).same(*old(self)),
    {
        let fee = self.config.schedule.host_fn_weights.query;
        match self.charge(fee) {
            Ok(()) => Ok(self.frames[self.frames.len() - 1].value_transferred),
            Err(e) => Err(e),
        }
    }

    /// The least balance that an account must have to exist.
    pub fn minimum_balance(&mut self) -> (r: Result<Balance, Error>)
        requires
            old(self).wf(),
            old(self).depth() > 0,
        ensures
            final(self).wf(),
            final(self).state() == old(self).state(),
            r.is_ok() <==> old(self).query_fee().all_lte(old(self).top().nested_gas.left()),
            r matches Ok(b) ==> b == old(self).config().existential_deposit && final(self).charged(
                *old(self),
                old(self).query_fee(),
            ),
            r matches Err(e) ==> e == Error::OutOfGas && final(self).same(*old(self)),
    {
        let fee = self.config.schedule.host_fn_weights.query;
        match self.charge(fee) {
            Ok(()) => Ok(self.config.existential_deposit),
            Err(e) => Err(e),
        }
    }

    /// The number of the block in which the execution runs.
    pub fn current_block_number(&mut self) -> (r: Result<u64, Error>)
        requires
            old(self).wf(),
            old(self).depth() > 0,
        ensures
            final(self).wf(),
            final(self).state() == old(self).state(),
            r.is_ok() <==> old(self).query_fee().all_lte(old(self).top().nested_gas.left()),
            r matches Ok(b) ==> b == old(self).block_number() && final(self).charged(
                *old(self),
                old(self).query_fee(),
            ),
            r matches Err(e) ==> e == Error::OutOfGas && final(self).same(*old(self)),
    {
        let fee = self.config.schedule.host_fn_weights.query;
        match self.charge(fee) {
            Ok(()) => Ok(self.block_number),
            Err(e) => Err(e),
        }
    }

    /// The time of the block in which the execution runs.
    pub fn now(&mut self) -> (r: Result<u64, Error>)
        requires
            old(self).wf(),
            old(self).depth() > 0,
        ensures
            final(self).wf(),
            final(self).state() == old(self).state(),
            r.is_ok() <==> old(self).query_fee().all_lte(old(self).top().nested_gas.left()),
            r matches Ok(b) ==> b == old(self).timestamp() && final(self).charged(
                *old(self),
                old(self).query_fee(),
            ),
            r matches Err(e) ==> e == Error::OutOfGas && final(self).same(*old(self)),
    {
        let fee = self.config.schedule.host_fn_weights.query;
        match self.charge(fee) {
            Ok(()) => Ok(self.timestamp),
            Err(e) => Err(e),
        }
    }

    /// Hands out the price of an amount of gas. The chain sets the price, so it comes in as
    /// `price`: what the chain asks for the amount that the contract named. Fails with
    /// `OutOfGas`, and changes nothing, where the frame cannot pay the fee.
    pub fn weight_to_fee(&mut self, price: Balance) -> (r: Result<Balance, Error>)
        requires
            old(self).wf(),
            old(self).depth() > 0,
        ensures
            final(self).wf(),
            final(self).state() == old(self).state(),
            r.is_ok() <==> old(self).query_fee().all_lte(old(self).top().nested_gas.left()),
            r matches Ok(b) ==> b == price && final(self).charged(
                *old(self),
                old(self).query_fee(),
            ),
            r matches Err(e) ==> e == Error::OutOfGas && final(self).same(*old(self)),
    {
        let fee = self.config.schedule.host_fn_weights.query;
        match self.charge(fee) {
            Ok(()) => Ok(price),
            Err(e) => Err(e),
        }
    }

    /// The input of the running contract. Fails with `InputForwarded` where the contract
    /// has handed its input on to a callee.
    pub fn input(&mut self) -> (r: Result<Vec<u8>, Error>)
        requires
            old(self).wf(),
            old(self).depth() > 0,
        ensures
            final(self).wf(),
            final(self).state() == old(self).state(),
            match r {
                Ok(i) => {
                    &&& old(self).config().schedule.host_fn_weights.input.all_lte(
                        old(self).top().nested_gas.left(),
                    )
                    &&& old(self).top().input matches Some(own) && own@ == i@
                    &&& final(self).charged(
                        *old(self),
                        old(self).config().schedule.host_fn_weights.input,
                    )
                },
                Err(e) => if !old(self).config().schedule.host_fn_weights.input.all_lte(
                    old(self).top().nested_gas.left(),
                ) {
                    e == Error::OutOfGas && final(self).same(*old(self))
                } else {
                    &&& e == Error::InputForwarded
                    &&& old(self).top().input is None
                    &&& final(self).charged(
                        *old(self),
                        old(self).config().schedule.host_fn_weights.input,
                    )
                },
            },
    {
        let fee = self.config.schedule.host_fn_weights.input;
        match self.charge(fee) {
            Ok(()) => {},
            Err(e) => {
                return Err(e);
            },
        }
        match &self.frames[self.frames.len() - 1].input {
            Some(i) => Ok(to_vec(i.as_slice())),
            None => Err(Error::InputForwarded),
        }
    }

    /// Moves `value` from the running contract to `to`. The contract must stay above the
    /// existential deposit. Fails with `TransferFailed`, the fee charged and the ledger
    /// unchanged, where the value cannot move.
    pub fn transfer(&mut self, to: &AccountId, value: Balance) -> (r: Result<(), Error>)
        requires
            old(self).wf(),
            old(self).depth() > 0,
        ensures
            final(self).wf(),
            match r {
                Ok(()) => {
                    &&& old(self).config().schedule.host_fn_weights.transfer.all_lte(
                        old(self).top().nested_gas.left(),
                    )
                    &&& value == 0 || can_transfer(
                        old(self).ledger(),
                        old(self).top().account_id@,
                        to@,
                        value,
                        old(self).config().existential_deposit,
                        true,
                    )
                    &&& final(self).ledger() == transferred(
                        old(self).ledger(),
                        old(self).top().account_id@,
                        to@,
                        value,
                    )
                    &&& final(self).charged(
                        *old(self),
                        old(self).config().schedule.host_fn_weights.transfer,
                    )
                },
                Err(e) => if !old(self).config().schedule.host_fn_weights.transfer.all_lte(
                    old(self).top().nested_gas.left(),
                ) {
                    e == Error::OutOfGas && final(self).same(*old(self))
                } else {
                    &&& e == Error::TransferFailed
                    &&& !(value == 0 || can_transfer(
                        old(self).ledger(),
                        old(self).top().account_id@,
                        to@,
                        value,
                        old(self).config().existential_deposit,
                        true,
                    ))
                    &&& final(self).ledger() == old(self).ledger()
                    &&& final(self).charged(
                        *old(self),
                        old(self).config().schedule.host_fn_weights.transfer,
                    )
                },
            },
    {
        let fee = self.config.schedule.host_fn_weights.transfer;
        match self.charge(fee) {
            Ok(()) => {},
            Err(e) => {
                return Err(e);
            },
        }
        let from = self.frames[self.frames.len() - 1].account_id;
        transfer(&mut self.state, &from, to, value, self.config.existential_deposit, true)
    }

    /// The fee of depositing an event with `topics` topics and `len` bytes of data.
    pub open spec fn event_fee(self, topics: nat, len: nat) -> Weight {
        let w = self.config().schedule.host_fn_weights;
        w.deposit_event.spec_saturating_add(
            w.deposit_event_per_topic.spec_saturating_mul(topics as u64),
        ).spec_saturating_add(w.per_byte.spec_saturating_mul(len as u64))
    }

    /// Deposits an event of the running contract under the given topics.
    ///
    /// Fails, the ledger unchanged: with `OutOfGas`, nothing charged, where the frame cannot
    /// pay the fee; else, the fee charged, with `TooManyTopics` where there are more topics
    /// than the limit, and with `ValueTooLarge` where the data is longer than a payload may be.
    pub fn deposit_event(&mut self, topics: Vec<CodeHash>, data: Vec<u8>) -> (r: Result<
        (),
        Error,
    >)
        requires
            old(self).wf(),
            old(self).depth() > 0,
        ensures
            final(self).wf(),
            r.is_err() ==> final(self).ledger() == old(self).ledger(),
            match r {
                Ok(()) => {
                    &&& old(self).event_fee(topics@.len(), data@.len()).all_lte(
                        old(self).top().nested_gas.left(),
                    )
                    &&& topics@.len() <= old(self).config().schedule.limits.event_topics
                    &&& data@.len() <= old(self).config().schedule.limits.payload_len
                    &&& final(self).charged(
                        *old(self),
                        old(self).event_fee(topics@.len(), data@.len()),
                    )
                    &&& final(self).ledger() == (StateView {
                        events: old(self).ledger().events.push(
                            EventRecordView {
                                topics: Seq::new(topics@.len(), |i: int| topics@[i]@),
                                event: EventView::ContractEmitted {
                                    contract: old(self).top().account_id,
                                    data: data@,
                                },
                            },
                        ),
                        ..old(self).ledger()
                    })
                },
                Err(e) => if !old(self).event_fee(topics@.len(), data@.len()).all_lte(
                    old(self).top().nested_gas.left(),
                ) {
                    e == Error::OutOfGas && final(self).same(*old(self))
                } else {
                    &&& final(self).charged(
                        *old(self),
                        old(self).event_fee(topics@.len(), data@.len()),
                    )
                    &&& if topics@.len() > old(self).config().schedule.limits.event_topics {
                        e == Error::TooManyTopics
                    } else {
                        e == Error::ValueTooLarge
                            && data@.len() > old(self).config().schedule.limits.payload_len
                    }
                },
            },
    {
        let w = self.config.schedule.host_fn_weights;
        let fee = w.deposit_event.saturating_add(
            &w.deposit_event_per_topic.saturating_mul(topics.len() as u64),
        ).saturating_add(&w.per_byte.saturating_mul(data.len() as u64));
        match self.charge(fee) {
            Ok(()) => {},
            Err(e) => {
                return Err(e);
            },
        }
        if topics.len() > self.config.schedule.limits.event_topics as usize {
            return Err(Error::TooManyTopics);
        }
        if data.len() > self.config.schedule.limits.payload_len as usize {
            return Err(Error::ValueTooLarge);
        }
        let contract = self.frames[self.frames.len() - 1].account_id;
        self.state.deposit_event(
            EventRecord { topics, event: Event::ContractEmitted { contract, data } },
        );
        Ok(())
    }

    /// Hands out the random value that the chain drew for `subject`, with the number of the
    /// current block. Fails with `RandomSubjectTooLong`, the fee charged, where the subject
    /// is longer than the limit.
    pub fn random(&mut self, subject: &[u8], drawn: [u8; 32]) -> (r: Result<([u8; 32], u64), Error>)
        requires
            old(self).wf(),
            old(self).depth() > 0,
        ensures
            final(self).wf(),
            final(self).state() == old(self).state(),
            match r {
                Ok(v) => {
                    &&& old(self).config().schedule.host_fn_weights.random.all_lte(
                        old(self).top().nested_gas.left(),
                    )
                    &&& subject@.len() <= old(self).config().schedule.limits.subject_len
                    &&& v == (drawn, old(self).block_number())
                    &&& final(self).charged(
                        *old(self),
                        old(self).config().schedule.host_fn_weights.random,
                    )
                },
                Err(e) => if !old(self).config().schedule.host_fn_weights.random.all_lte(
                    old(self).top().nested_gas.left(),
                ) {
                    e == Error::OutOfGas && final(self).same(*old(self))
                } else {
                    &&& e == Error::RandomSubjectTooLong
                    &&& subject@.len() > old(self).config().schedule.limits.subject_len
                    &&& final(self).charged(
                        *old(self),
                        old(self).config().schedule.host_fn_weights.random,
                    )
                },
            },
    {
        let fee = self.config.schedule.host_fn_weights.random;
        match self.charge(fee) {
            Ok(()) => {},
            Err(e) => {
                return Err(e);
            },
        }
        if subject.len() > self.config.schedule.limits.subject_len as usize {
            return Err(Error::RandomSubjectTooLong);
        }
        Ok((drawn, self.block_number))
    }

    /// Appends a message to the debug buffer, where debugging is on and the buffer has room
    /// for it, and tells whether debugging is on. Fails with `DebugMessageInvalidUTF8`, the
    /// fee charged, where debugging is on and the message is not valid UTF-8.
    pub fn debug_message(&mut self, message: &[u8]) -> (r: Result<bool, Error>)
        requires
            old(self).wf(),
            old(self).depth() > 0,
        ensures
            final(self).wf(),
            final(self).state() == old(self).state(),
            final(self).same_below(*old(self)),
            match r {
                Ok(on) => {
                    &&& old(self).config().schedule.host_fn_weights.debug_message.all_lte(
                        old(self).top().nested_gas.left(),
                    )
                    &&& on == old(self).debug_buffer().is_some()
                    &&& on ==> vstd::utf8::valid_utf8(message@)
                    &&& final(self).debug_buffer() == match old(self).debug_buffer() {
                        Some(b) => Some(
                            appended(b, message@, old(self).config().max_debug_buffer_len),
                        ),
                        None => None,
                    }
                    &&& final(self).top().same_identity(old(self).top())
                    &&& final(self).top().input == old(self).top().input
                    &&& final(self).top().allows_reentry == old(self).top().allows_reentry
                    &&& final(self).top().nested_storage == old(self).top().nested_storage
                    &&& final(self).top().nested_gas.left()
                        == old(self).top().nested_gas.left().spec_saturating_sub(
                        old(self).config().schedule.host_fn_weights.debug_message,
                    )
                },
                Err(e) => if !old(self).config().schedule.host_fn_weights.debug_message.all_lte(
                    old(self).top().nested_gas.left(),
                ) {
                    e == Error::OutOfGas && final(self).same(*old(self))
                } else {
                    &&& e == Error::DebugMessageInvalidUTF8
                    &&& old(self).debug_buffer().is_some()
                    &&& !vstd::utf8::valid_utf8(message@)
                    &&& final(self).charged(
                        *old(self),
                        old(self).config().schedule.host_fn_weights.debug_message,
                    )
                },
            },
    {
        let fee = self.config.schedule.host_fn_weights.debug_message;
        match self.charge(fee) {
            Ok(()) => {},
            Err(e) => {
                return Err(e);
            },
        }
        let max_len = self.config.max_debug_buffer_len as usize;
        match self.debug_message.take() {
            None => Ok(false),
            Some(mut buffer) => {
                if !is_utf8(message) {
                    self.debug_message = Some(buffer);
                    return Err(Error::DebugMessageInvalidUTF8);
                }
                if buffer.len() <= max_len && message.len() <= max_len - buffer.len() {
                    crate::address::extend(&mut buffer, message);
                }
                self.debug_message = Some(buffer);
                Ok(true)
            },
        }
    }

    /// Tells a contract that asks for the chain extension whether there is one: fails with
    /// `NoChainExtension` where the chain offers none.
    pub fn call_chain_extension(&self) -> (r: Result<(), Error>)
        ensures
            r.is_ok() <==> self.config().chain_extension,
            r.is_err() ==> r == Err::<(), Error>(Error::NoChainExtension),
    {
        if self.config.chain_extension {
            Ok(())
        } else {
            Err(Error::NoChainExtension)
        }
    }
}

} // verus!
