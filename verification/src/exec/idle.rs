//! What happens to the ledger between executions, and at the end of one.

use vstd::prelude::*;
use crate::code_cache::{can_store, remove_result, removed, stored, remove_code, PrefabWasmModule};
use crate::contract::{code_updated, set_code_refusal, set_contract_code};
use crate::deletion::{batch_weight, key_budget, process_deletion_queue_batch};
use crate::deposit::StorageDeposit;
use crate::error::{DispatchError, Error};
use crate::exec::Stack;
use crate::ledger::{reserve, reserved, unreserve, unreserved};
use crate::primitives::{AccountId, Balance, CodeHash};
use crate::state::{is_drained, AccountData, StateView};
use crate::weight::Weight;

verus! {

/// The ledger after the storage deposit `total` was settled with `origin`: a charge is set
/// aside from the free balance of the origin, a refund is released from what the origin has
/// set aside, as far as that goes.
pub open spec fn settled_with(ledger: StateView, origin: Seq<u8>,
    total: StorageDeposit) -> StateView {
    match total {
        StorageDeposit::Charge(a) => reserved(ledger, origin, a),
        StorageDeposit::Refund(a) => unreserved(ledger, origin, a),
    }
}

/// Whether `origin` can pay the storage deposit `total`: it has a charge in its free
/// balance, and its reserved balance can take it. A refund can always be paid.
pub open spec fn can_settle_with(ledger: StateView, origin: Seq<u8>,
    total: StorageDeposit) -> bool {
    match total {
        StorageDeposit::Charge(a) => ledger.balance(origin).free >= a && ledger.balance(
            origin,
        ).reserved + a <= u128::MAX,
        StorageDeposit::Refund(_) => true,
    }
}

impl Stack {
    /// `self` is `before` but for the ledger.
    pub open spec fn same_but_ledger(self, before: Stack) -> bool {
        &&& self.config() == before.config()
        &&& self.origin() == before.origin()
        &&& self.gas() == before.gas()
        &&& self.deposit() == before.deposit()
        &&& self.frames() == before.frames()
        &&& self.debug_buffer() == before.debug_buffer()
        &&& self.determinism() == before.determinism()
        &&& self.block_number() == before.block_number()
        &&& self.timestamp() == before.timestamp()
    }

    /// `self` is `before` but for the number and the time of the block.
    pub open spec fn same_but_block(self, before: Stack) -> bool {
        &&& self.config() == before.config()
        &&& self.state() == before.state()
        &&& self.origin() == before.origin()
        &&& self.gas() == before.gas()
        &&& self.deposit() == before.deposit()
        &&& self.frames() == before.frames()
        &&& self.debug_buffer() == before.debug_buffer()
        &&& self.determinism() == before.determinism()
    }

    /// The ledger after the storage deposit of the execution was settled with the origin.
    pub open spec fn settled(self) -> StateView {
        settled_with(self.ledger(), self.origin()@, self.deposit().total())
    }

    /// Whether the origin can pay the storage deposit of the execution.
    pub open spec fn can_settle(self) -> bool {
        can_settle_with(self.ledger(), self.origin()@, self.deposit().total())
    }

    /// Settles the storage deposit of the execution with the origin and returns it. Fails
    /// with `StorageDepositNotEnoughFunds`, the ledger unchanged, where the origin cannot pay.
    pub fn settle(&mut self) -> (r: Result<StorageDeposit, Error>)
        requires
            old(self).wf(),
            old(self).depth() == 0,
        ensures
            final(self).wf(),
            final(self).same_but_ledger(*old(self)),
            final(self).state().extends(old(self).state()),
            r.is_ok() <==> old(self).can_settle(),
            r matches Ok(d) ==> d == old(self).deposit().total() && final(self).ledger()
                == old(self).settled(),
            r matches Err(e) ==> e == Error::StorageDepositNotEnoughFunds && final(self).ledger()
                == old(self).ledger(),
    {
        let total = self.storage_meter.total_deposit();
        let origin = self.origin;
        match total {
            StorageDeposit::Charge(a) => match reserve(&mut self.state, &origin, a) {
                Ok(()) => Ok(total),
                Err(e) => Err(e),
            },
            StorageDeposit::Refund(a) => {
                unreserve(&mut self.state, &origin, a);
                Ok(total)
            },
        }
    }

    /// Makes all changes final: nothing can be rolled back any more.
    pub fn commit(&mut self)
        requires
            old(self).wf(),
            old(self).depth() == 0,
        ensures
            final(self).wf(),
            final(self).same_but_ledger(*old(self)),
            final(self).ledger() == old(self).ledger(),
            final(self).state().journal_len() == 0,
    {
        self.state.commit();
        proof {
            self.state.lemma_reverts_to_now();
        }
    }

    /// Takes back every change since the last commit.
    pub fn rollback(&mut self)
        requires
            old(self).wf(),
            old(self).depth() == 0,
        ensures
            final(self).wf(),
            final(self).same_but_ledger(*old(self)),
            final(self).ledger() == old(self).state().reverts_to(0),
            final(self).state().journal_len() == 0,
    {
        self.state.revert_to(0);
    }

    /// Stores a code module. See `PrefabWasmModule::store`.
    pub fn store_code(&mut self, module: PrefabWasmModule) -> (r: Result<(), Error>)
        requires
            old(self).wf(),
            old(self).depth() == 0,
        ensures
            final(self).wf(),
            final(self).same_but_ledger(*old(self)),
            final(self).state().extends(old(self).state()),
            final(self).ledger() == stored(old(self).ledger(), module, old(self).config()),
            r.is_ok() <==> can_store(old(self).ledger(), module),
            r.is_err() ==> r == Err::<(), Error>(Error::StorageDepositNotEnoughFunds),
    {
        module.store(&mut self.state, &self.config)
    }

    /// Removes stored code on behalf of `origin`. See `remove_code`.
    pub fn remove_code(&mut self, origin: &AccountId, hash: &CodeHash) -> (r: Result<
        (),
        DispatchError,
    >)
        requires
            old(self).wf(),
            old(self).depth() == 0,
        ensures
            final(self).wf(),
            final(self).same_but_ledger(*old(self)),
            final(self).state().extends(old(self).state()),
            r == remove_result(old(self).ledger(), origin@, hash@),
            r.is_ok() ==> final(self).ledger() == removed(old(self).ledger(), *hash),
            r.is_err() ==> final(self).ledger() == old(self).ledger(),
    {
        remove_code(&mut self.state, origin, hash)
    }

    /// Gives the contract at `who` other code. See `set_contract_code`.
    pub fn set_code(&mut self, who: &AccountId, hash: &CodeHash) -> (r: Result<(), Error>)
        requires
            old(self).wf(),
            old(self).depth() == 0,
        ensures
            final(self).wf(),
            final(self).same_but_ledger(*old(self)),
            final(self).state().extends(old(self).state()),
            match set_code_refusal(old(self).ledger(), who@, hash@) {
                Some(e) => r == Err::<(), Error>(e) && final(self).ledger() == old(self).ledger(),
                None => r.is_ok() && final(self).ledger() == code_updated(
                    old(self).ledger(),
                    *who,
                    *hash,
                ),
            },
    {
        set_contract_code(&mut self.state, who, hash)
    }

    /// Deletes queued storage within `weight_limit`. See `process_deletion_queue_batch`.
    pub fn delete_batch(&mut self, weight_limit: Weight) -> (used: Weight)
        requires
            old(self).wf(),
            old(self).depth() == 0,
            old(self).state().journal_len() == 0,
        ensures
            final(self).wf(),
            final(self).same_but_ledger(*old(self)),
            final(self).state().journal_len() == 0,
            used == batch_weight(old(self).ledger(), old(self).config(), weight_limit),
            is_drained(
                old(self).ledger().queue,
                final(self).ledger().queue,
                key_budget(old(self).config(), old(self).ledger().queue.len(), weight_limit) as nat,
            ),
            final(self).ledger() == (StateView {
                queue: final(self).ledger().queue,
                ..old(self).ledger()
            }),
    {
        let used = process_deletion_queue_batch(&mut self.state, &self.config, weight_limit);
        proof {
            self.state.lemma_reverts_to_now();
        }
        used
    }

    /// Gives `who` a free balance of `free`, out of nothing, and makes that final. This is
    /// the one operation that creates or destroys balance; it is for the chain, between
    /// executions, when nothing is left to roll back.
    pub fn endow(&mut self, who: &AccountId, free: Balance)
        requires
            old(self).wf(),
            old(self).depth() == 0,
            old(self).state().journal_len() == 0,
        ensures
            final(self).wf(),
            final(self).same_but_ledger(*old(self)),
            final(self).state().journal_len() == 0,
            final(self).ledger() == old(self).ledger().set_balance(
                who@,
                AccountData { free, reserved: old(self).ledger().balance(who@).reserved },
            ),
    {
        let d = self.state.balance(who);
        self.state.set_balance(who, AccountData { free, reserved: d.reserved });
        self.state.commit();
        proof {
            self.state.lemma_reverts_to_now();
        }
    }
}

} // verus!
