//! The operations that the chain dispatches, the dry runs, and the hooks of a block.

use vstd::prelude::*;
use crate::address::{blake2_256_digest, AddressGenerator};
use crate::code_cache::{remove_result, removed, stored, PrefabWasmModule};
use crate::config::Config;
use crate::contract::{code_updated, set_code_refusal};
use crate::deletion::{batch_weight, key_budget};
use crate::error::{DispatchError, Error};
use crate::exec::Stack;
use crate::gas::{DispatchResultWithPostInfo, PostDispatchInfo};
use crate::invariants::{conserves, refcounts_exact, storage_accounted};
use crate::recount::is_exact;
use crate::primitives::{
    AccountId, Balance, CodeHash, CodeUploadReturnValue, ContractAccessError, Determinism, Origin,
};
use crate::state::{is_drained, opt_view, State, StateView};
use crate::storage::{read, StorageKey};
use crate::weight::Weight;

verus! {

/// The account that signed, or `BadOrigin`.
pub fn ensure_signed(origin: Origin) -> (r: Result<AccountId, DispatchError>)
    ensures
        r == match origin {
            Origin::Signed(who) => Ok::<AccountId, DispatchError>(who),
            _ => Err::<AccountId, DispatchError>(DispatchError::BadOrigin),
        },
{
    match origin {
        Origin::Signed(who) => Ok(who),
        _ => Err(DispatchError::BadOrigin),
    }
}

/// Nothing for the chain itself, `BadOrigin` for anybody else.
pub fn ensure_root(origin: Origin) -> (r: Result<(), DispatchError>)
    ensures
        r == match origin {
            Origin::Root => Ok::<(), DispatchError>(()),
            _ => Err::<(), DispatchError>(DispatchError::BadOrigin),
        },
{
    match origin {
        Origin::Root => Ok(()),
        _ => Err(DispatchError::BadOrigin),
    }
}

/// What is known of an execution that has begun and is not yet concluded.
#[derive(Clone, Copy, Debug)]
pub struct Pending {
    /// Whether the execution is a dry run, whose changes are all taken back at its end.
    pub dry_run: bool,
    /// The address of the contract that is being instantiated, if one is.
    pub address: Option<AccountId>,
    /// The fixed weight of the operation.
    pub base_weight: Weight,
    /// The deposit that was reserved for code uploaded with the instantiation.
    pub extra_deposit: Balance,
}

/// The executor as the chain sees it: the stack with its ledger, and what the chain tells
/// it about the current block.
pub struct Pallet {
    /// The stack. While an execution is under way, the running contract acts through it.
    pub stack: Stack,
    /// The weight that the current block has used so far.
    pub block_weight: Weight,
    /// The execution under way, if there is one.
    pub pending: Option<Pending>,
}

impl Pallet {
    /// Invariant: the stack is well formed, and frames are open only while an execution is
    /// pending. Between executions nothing is left to roll back.
    pub open spec fn wf(self) -> bool {
        &&& self.stack.wf()
        &&& self.pending is None ==> self.stack.depth() == 0 && self.stack.state().journal_len()
            == 0
    }

    /// Whether no execution is under way.
    pub open spec fn idle(self) -> bool {
        self.pending is None
    }

    /// The ledger.
    pub open spec fn ledger(self) -> StateView {
        self.stack.ledger()
    }

    pub open spec fn config(self) -> Config {
        self.stack.config()
    }

    /// An executor over an empty ledger.
    pub fn new(config: Config) -> (p: Pallet)
        ensures
            p.wf(),
            p.idle(),
            p.config() == config,
            p.ledger().balances == Map::<Seq<u8>, crate::state::AccountData>::empty(),
            p.ledger().contracts == Map::<Seq<u8>, crate::state::ContractView>::empty(),
            p.ledger().codes == Map::<Seq<u8>, crate::state::CodeEntryView>::empty(),
            p.ledger().nonce == 0,
            p.ledger().queue.len() == 0,
            p.ledger().events.len() == 0,
    {
        Pallet { stack: Stack::new(config, State::new()), block_weight: Weight::zero(),
            pending: None }
    }

    /// An executor over a ledger that exists already, in which every stored code counts
    /// exactly the contracts that run it and every contract counts exactly its storage.
    /// Whether a ledger is such, `is_exact` tells; `try_with_ledger` asks it first.
    pub fn with_ledger(config: Config, ledger: State) -> (p: Pallet)
        requires
            ledger.wf(),
            refcounts_exact(ledger@),
            storage_accounted(ledger@, config),
        ensures
            p.wf(),
            p.idle(),
            p.config() == config,
            p.ledger() == ledger@,
    {
        let mut ledger = ledger;
        ledger.commit();
        Pallet { stack: Stack::new(config, ledger), block_weight: Weight::zero(), pending: None }
    }

    /// An executor over a ledger that exists already, where the counters of the ledger are
    /// exact; none where they are not.
    pub fn try_with_ledger(config: Config, ledger: State) -> (r: Option<Pallet>)
        requires
            ledger.wf(),
        ensures
            r is Some <==> refcounts_exact(ledger@) && storage_accounted(ledger@, config),
            r matches Some(p) ==> p.wf() && p.idle() && p.config() == config && p.ledger()
                == ledger@,
    {
        if is_exact(&ledger, &config) {
            Some(Self::with_ledger(config, ledger))
        } else {
            None
        }
    }

    /// Tells the executor about the current block: its number, its time and the weight that
    /// it has used so far.
    pub fn set_block(&mut self, block_number: u64, timestamp: u64, block_weight: Weight)
        requires
            old(self).wf(),
        ensures
            final(self).wf(),
            final(self).pending == old(self).pending,
            final(self).block_weight == block_weight,
            final(self).stack.block_number() == block_number,
            final(self).stack.timestamp() == timestamp,
            final(self).stack.same_but_block(old(self).stack),
    {
        self.stack.set_block(block_number, timestamp);
        self.block_weight = block_weight;
    }

    /// Gives `who` a free balance of `free`, out of nothing. This is how the chain funds
    /// accounts; the executor itself never creates balance.
    pub fn endow(&mut self, who: &AccountId, free: Balance)
        requires
            old(self).wf(),
            old(self).idle(),
        ensures
            final(self).wf(),
            final(self).idle(),
            final(self).block_weight == old(self).block_weight,
            final(self).stack.same_but_ledger(old(self).stack),
            final(self).ledger() == old(self).ledger().set_balance(
                who@,
                crate::state::AccountData {
                    free,
                    reserved: old(self).ledger().balance(who@).reserved,
                },
            ),
    {
        self.stack.endow(who, free);
        self.stack.commit();
    }

    /// What an upload by `origin` returns, and whether it stores anything.
    pub open spec fn upload_result(
        self,
        origin: AccountId,
        code: Seq<u8>,
        instrumented: Option<Seq<u8>>,
        storage_deposit_limit: Option<Balance>,
    ) -> Result<(Seq<u8>, Balance), DispatchError> {
        let hash = blake2_256_digest(code);
        match instrumented {
            None => Err(DispatchError::Contract(Error::CodeRejected)),
            Some(i) => {
                let deposit = if self.ledger().codes.contains_key(hash) {
                    0
                } else {
                    self.config().spec_code_deposit(i.len())
                };
                if code.len() > self.config().max_code_len || i.len() > self.config().max_code_len {
                    Err(DispatchError::Contract(Error::CodeTooLarge))
                } else if storage_deposit_limit matches Some(l) && l < deposit {
                    Err(DispatchError::Contract(Error::StorageDepositLimitExhausted))
                } else if !self.ledger().codes.contains_key(hash) && !(self.ledger().balance(
                    origin@,
                ).free >= deposit && self.ledger().balance(origin@).reserved + deposit
                    <= u128::MAX) {
                    Err(DispatchError::Contract(Error::StorageDepositNotEnoughFunds))
                } else {
                    Ok((hash, deposit))
                }
            },
        }
    }

    pub(crate) fn do_upload(
        &mut self,
        origin: AccountId,
        code: Vec<u8>,
        instrumented: Option<Vec<u8>>,
        storage_deposit_limit: Option<Balance>,
        determinism: Determinism,
    ) -> (r: Result<(CodeUploadReturnValue, Ghost<PrefabWasmModule>), DispatchError>)
        requires
            old(self).wf(),
            old(self).idle(),
        ensures
            final(self).stack.wf(),
            final(self).stack.depth() == 0,
            final(self).pending is None,
            final(self).block_weight == old(self).block_weight,
            final(self).stack.same_but_ledger(old(self).stack),
            final(self).stack.state().reverts_to(0) == old(self).ledger(),
            match old(self).upload_result(
                origin,
                code@,
                opt_view(instrumented),
                storage_deposit_limit,
            ) {
                Err(e) => r is Err && r->Err_0 == e && final(self).ledger() == old(self).ledger(),
                Ok((hash, deposit)) => {
                    &&& r matches Ok((v, m))
                    &&& v.code_hash@ == hash
                    &&& v.deposit == deposit
                    &&& m@.code_hash == v.code_hash
                    &&& m@.pristine@ == code@
                    &&& instrumented matches Some(i) && m@.instrumented@ == i@
                    &&& m@.owner == origin
                    &&& m@.determinism == determinism
                    &&& m@.deposit == deposit
                    &&& final(self).ledger() == stored(old(self).ledger(), m@, old(self).config())
                },
            },
    {
        proof {
            self.stack.state().lemma_reverts_to_now();
        }
        let module = match PrefabWasmModule::from_code(
            self.stack.ledger_ref(),
            self.stack.config_ref(),
            code,
            instrumented,
            origin,
            determinism,
        ) {
            Ok(m) => m,
            Err(e) => {
                return Err(DispatchError::Contract(e));
            },
        };
        let deposit = module.deposit;
        match storage_deposit_limit {
            Some(l) => {
                if l < deposit {
                    return Err(DispatchError::Contract(Error::StorageDepositLimitExhausted));
                }
            },
            None => {},
        }
        let result = CodeUploadReturnValue { code_hash: module.code_hash, deposit };
        let ghost m = module;
        match self.stack.store_code(module) {
            Ok(()) => Ok((result, Ghost(m))),
            Err(e) => Err(DispatchError::Contract(e)),
        }
    }

    /// Stores `code`, whose validated and instrumented form is `instrumented` (`None` where
    /// validation rejected it), on behalf of a signed origin, and reserves the deposit for it
    /// unless the code is stored already.
    ///
    /// Fails, and changes nothing: with `BadOrigin` for an origin that did not sign; else as
    /// `upload_result` says.
    pub fn upload_code(
        &mut self,
        origin: Origin,
        code: Vec<u8>,
        instrumented: Option<Vec<u8>>,
        storage_deposit_limit: Option<Balance>,
        determinism: Determinism,
    ) -> (r: Result<(), DispatchError>)
        requires
            old(self).wf(),
            old(self).idle(),
        ensures
            final(self).wf(),
            final(self).idle(),
            final(self).block_weight == old(self).block_weight,
            final(self).stack.same_but_ledger(old(self).stack),
            conserves(old(self).ledger(), final(self).ledger()),
            match origin {
                Origin::Signed(who) => match old(self).upload_result(
                    who,
                    code@,
                    opt_view(instrumented),
                    storage_deposit_limit,
                ) {
                    Err(e) => r == Err::<(), DispatchError>(e) && final(self).ledger()
                        == old(self).ledger(),
                    Ok((hash, deposit)) => r.is_ok() && exists|m: PrefabWasmModule|
                        {
                            &&& m.code_hash@ == hash
                            &&& m.pristine@ == code@
                            &&& instrumented matches Some(i) && m.instrumented@ == i@
                            &&& m.owner == who
                            &&& m.determinism == determinism
                            &&& m.deposit == deposit
                            &&& #[trigger] stored(old(self).ledger(), m, old(self).config())
                                == final(self).ledger()
                        },
                },
                _ => r == Err::<(), DispatchError>(DispatchError::BadOrigin) && final(self).ledger()
                    == old(self).ledger(),
            },
    {
        let who = match ensure_signed(origin) {
            Ok(who) => who,
            Err(e) => {
                return Err(e);
            },
        };
        let r = self.do_upload(who, code, instrumented, storage_deposit_limit, determinism);
        self.stack.commit();
        match r {
            Ok(_) => Ok(()),
            Err(e) => Err(e),
        }
    }

    /// Tells what an upload of `code` by `origin` would return, without storing anything.
    pub fn bare_upload_code(
        &mut self,
        origin: AccountId,
        code: Vec<u8>,
        instrumented: Option<Vec<u8>>,
        storage_deposit_limit: Option<Balance>,
        determinism: Determinism,
    ) -> (r: Result<CodeUploadReturnValue, DispatchError>)
        requires
            old(self).wf(),
            old(self).idle(),
        ensures
            final(self).wf(),
            final(self).idle(),
            final(self).block_weight == old(self).block_weight,
            final(self).stack.same_but_ledger(old(self).stack),
            final(self).ledger() == old(self).ledger(),
            match old(self).upload_result(
                origin,
                code@,
                opt_view(instrumented),
                storage_deposit_limit,
            ) {
                Err(e) => r is Err && r->Err_0 == e,
                Ok((hash, deposit)) => r matches Ok(v) && v.code_hash@ == hash && v.deposit
                    == deposit,
            },
    {
        let r = self.do_upload(origin, code, instrumented, storage_deposit_limit, determinism);
        self.stack.rollback();
        match r {
            Ok((v, _)) => Ok(v),
            Err(e) => Err(e),
        }
    }

    /// Removes the code under `code_hash` on behalf of its owner and releases the deposit.
    /// The operation is free of charge when it succeeds.
    ///
    /// Fails, and changes nothing: with `BadOrigin` for an origin that did not sign or does
    /// not own the code; with `CodeNotFound` where no code is stored under the hash; with
    /// `CodeInUse` where a contract uses the code.
    pub fn remove_code(&mut self, origin: Origin, code_hash: CodeHash) -> (r:
        DispatchResultWithPostInfo)
        requires
            old(self).wf(),
            old(self).idle(),
        ensures
            final(self).wf(),
            final(self).idle(),
            final(self).block_weight == old(self).block_weight,
            final(self).stack.same_but_ledger(old(self).stack),
            conserves(old(self).ledger(), final(self).ledger()),
            r == Self::remove_code_result(old(self).ledger(), origin, code_hash),
            r.is_ok() ==> final(self).ledger() == removed(old(self).ledger(), code_hash),
            r.is_err() ==> final(self).ledger() == old(self).ledger(),
    {
        let who = match ensure_signed(origin) {
            Ok(who) => who,
            Err(e) => {
                return Err((PostDispatchInfo { actual_weight: None, pays_fee: true }, e));
            },
        };
        let r = self.stack.remove_code(&who, &code_hash);
        self.stack.commit();
        match r {
            Ok(()) => Ok(PostDispatchInfo { actual_weight: None, pays_fee: false }),
            Err(e) => Err((PostDispatchInfo { actual_weight: None, pays_fee: true }, e)),
        }
    }

    /// What `remove_code` returns.
    pub open spec fn remove_code_result(
        s: StateView,
        origin: Origin,
        code_hash: CodeHash,
    ) -> DispatchResultWithPostInfo {
        match origin {
            Origin::Signed(who) => match remove_result(s, who@, code_hash@) {
                Ok(()) => Ok(PostDispatchInfo { actual_weight: None, pays_fee: false }),
                Err(e) => Err((PostDispatchInfo { actual_weight: None, pays_fee: true }, e)),
            },
            _ => Err(
                (PostDispatchInfo { actual_weight: None, pays_fee: true },
                    DispatchError::BadOrigin),
            ),
        }
    }

    /// Gives the contract at `dest` the code under `code_hash`. Only the chain itself may do
    /// so. The address of the contract stays what it is.
    ///
    /// Fails, and changes nothing: with `BadOrigin` for any origin but the root; with
    /// `ContractNotFound` where `dest` is no contract; with `CodeNotFound` where no code is
    /// stored under the hash.
    pub fn set_code(&mut self, origin: Origin, dest: AccountId, code_hash: CodeHash) -> (r: Result<
        (),
        DispatchError,
    >)
        requires
            old(self).wf(),
            old(self).idle(),
        ensures
            final(self).wf(),
            final(self).idle(),
            final(self).block_weight == old(self).block_weight,
            final(self).stack.same_but_ledger(old(self).stack),
            conserves(old(self).ledger(), final(self).ledger()),
            match origin {
                Origin::Root => match set_code_refusal(old(self).ledger(), dest@, code_hash@) {
                    Some(e) => r == Err::<(), DispatchError>(DispatchError::Contract(e))
                        && final(self).ledger() == old(self).ledger(),
                    None => r.is_ok() && final(self).ledger() == code_updated(
                        old(self).ledger(),
                        dest,
                        code_hash,
                    ),
                },
                _ => r == Err::<(), DispatchError>(DispatchError::BadOrigin) && final(self).ledger()
                    == old(self).ledger(),
            },
    {
        match ensure_root(origin) {
            Ok(()) => {},
            Err(e) => {
                return Err(e);
            },
        }
        let r = self.stack.set_code(&dest, &code_hash);
        self.stack.commit();
        match r {
            Ok(()) => Ok(()),
            Err(e) => Err(DispatchError::Contract(e)),
        }
    }

    /// The value that the contract at `address` keeps under the variable key `key`.
    ///
    /// Fails with `DoesntExist` where `address` is no contract, and with `KeyDecodingFailed`
    /// where the key is longer than a storage key may be.
    pub fn get_storage(&self, address: AccountId, key: Vec<u8>) -> (r: Result<
        Option<Vec<u8>>,
        ContractAccessError,
    >)
        requires
            self.wf(),
        ensures
            match r {
                Ok(v) => {
                    &&& self.ledger().contracts.contains_key(address@)
                    &&& key@.len() <= self.config().max_storage_key_len
                    &&& opt_view(v) == self.ledger().storage_value(address@, seq![1u8] + key@)
                },
                Err(e) => if !self.ledger().contracts.contains_key(address@) {
                    e == ContractAccessError::DoesntExist
                } else {
                    e == ContractAccessError::KeyDecodingFailed && key@.len()
                        > self.config().max_storage_key_len
                },
            },
    {
        if self.stack.ledger_ref().contract_info(&address).is_none() {
            return Err(ContractAccessError::DoesntExist);
        }
        let key = match StorageKey::try_from_var(key, self.stack.config_ref().max_storage_key_len) {
            Some(k) => k,
            None => {
                return Err(ContractAccessError::KeyDecodingFailed);
            },
        };
        Ok(read(self.stack.ledger_ref(), &address, &key))
    }

    /// The address at which `G` puts a contract that `deploying_address` instantiates from
    /// the code under `code_hash` with the given input and salt.
    pub fn contract_address<G: AddressGenerator>(
        deploying_address: &AccountId,
        code_hash: &CodeHash,
        input_data: &[u8],
        salt: &[u8],
    ) -> (address: AccountId)
        ensures
            address@ == G::address(deploying_address@, code_hash@, input_data@, salt@),
    {
        G::generate_address(deploying_address, code_hash, input_data, salt)
    }

    /// The hash of the code of the contract at `account`, if `account` is a contract.
    pub fn code_hash(&self, account: &AccountId) -> (r: Option<CodeHash>)
        requires
            self.wf(),
        ensures
            r.is_some() == self.ledger().contracts.contains_key(account@),
            r matches Some(h) ==> h == self.ledger().contracts[account@].info.code_hash,
    {
        match self.stack.ledger_ref().contract_info(account) {
            Some(info) => Some(info.code_hash),
            None => None,
        }
    }

    /// Runs the test of the configuration on an executor whose configuration is known to
    /// keep contracts from exhausting the memory of the runtime. Nothing may run on any
    /// other: a configuration of which this is not known is tested with
    /// `Config::integrity_test` before an executor is made with it.
    pub fn integrity_test(&self)
        requires
            self.config().integrity(),
    {
        let ok = self.stack.config_ref().integrity_test();
        assert(ok);
    }

    /// The least balance that an account must have to exist.
    pub fn min_balance(&self) -> (r: Balance)
        ensures
            r == self.config().existential_deposit,
    {
        self.stack.config_ref().existential_deposit
    }

    /// The limit of two dimensions that stands for a gas limit of one.
    pub open spec fn compat_limit(self, gas_limit: u64) -> Weight {
        Weight { ref_time: gas_limit, proof_size: (self.config().max_code_len * 2) as u64 }
    }

    /// A gas limit of one dimension as a limit of two: the proof size that goes with it is
    /// twice the greatest length of a code blob, so that old calls do not run out of it.
    pub fn compat_weight_limit(&self, gas_limit: u64) -> (w: Weight)
        ensures
            w == self.compat_limit(gas_limit),
    {
        Weight::from_parts(gas_limit, self.stack.config_ref().max_code_len as u64 * 2)
    }

    /// The weight limit of a forced batch of deletions: what the block has left, and no more
    /// than the configured limit.
    pub open spec fn forced_limit(self) -> Weight {
        self.config().max_block_weight.spec_saturating_sub(self.block_weight).spec_min(
            self.config().deletion_weight_limit,
        )
    }

    /// Deletes queued storage in the idle time of a block, within `remaining_weight`, and
    /// returns the weight used: that of the batch and that of looking at the queue.
    pub fn on_idle(&mut self, remaining_weight: Weight) -> (used: Weight)
        requires
            old(self).wf(),
            old(self).idle(),
        ensures
            final(self).wf(),
            final(self).idle(),
            final(self).block_weight == old(self).block_weight,
            final(self).stack.same_but_ledger(old(self).stack),
            conserves(old(self).ledger(), final(self).ledger()),
            used == batch_weight(
                old(self).ledger(),
                old(self).config(),
                remaining_weight,
            ).spec_saturating_add(old(self).config().weights.on_process_deletion_queue_batch),
            is_drained(
                old(self).ledger().queue,
                final(self).ledger().queue,
                key_budget(old(self).config(), old(self).ledger().queue.len(),
                    remaining_weight) as nat,
            ),
            final(self).ledger() == (StateView {
                queue: final(self).ledger().queue,
                ..old(self).ledger()
            }),
    {
        let base = self.stack.config_ref().weights.on_process_deletion_queue_batch;
        self.stack.delete_batch(remaining_weight).saturating_add(&base)
    }

    /// At the start of a block: where the deletion queue is full, deletes a batch at once,
    /// within what the block has left and within the configured limit; else leaves the queue
    /// to the idle time. Returns the weight used.
    pub fn on_initialize(&mut self) -> (used: Weight)
        requires
            old(self).wf(),
            old(self).idle(),
        ensures
            final(self).wf(),
            final(self).idle(),
            final(self).block_weight == old(self).block_weight,
            final(self).stack.same_but_ledger(old(self).stack),
            conserves(old(self).ledger(), final(self).ledger()),
            final(self).ledger() == (StateView {
                queue: final(self).ledger().queue,
                ..old(self).ledger()
            }),
            if old(self).ledger().queue.len() >= old(self).config().deletion_queue_depth {
                &&& used == batch_weight(
                    old(self).ledger(),
                    old(self).config(),
                    old(self).forced_limit(),
                ).spec_saturating_add(old(self).config().weights.on_process_deletion_queue_batch)
                &&& is_drained(
                    old(self).ledger().queue,
                    final(self).ledger().queue,
                    key_budget(
                        old(self).config(),
                        old(self).ledger().queue.len(),
                        old(self).forced_limit(),
                    ) as nat,
                )
            } else {
                &&& used == old(self).config().weights.on_process_deletion_queue_batch
                &&& final(self).ledger() == old(self).ledger()
            },
    {
        let base = self.stack.config_ref().weights.on_process_deletion_queue_batch;
        let max_len = self.stack.config_ref().deletion_queue_depth as usize;
        let queue_len = self.stack.ledger_ref().queue_len();
        if queue_len >= max_len {
            let weight_limit = self.stack.config_ref().max_block_weight.saturating_sub(
                &self.block_weight,
            ).min(&self.stack.config_ref().deletion_weight_limit);
            self.stack.delete_batch(weight_limit).saturating_add(&base)
        } else {
            base
        }
    }
}

} // verus!
