//! Executions from their start by the chain to their conclusion.
//!
//! A dispatched call or instantiation, or a dry run of one, opens the root frame and hands
//! control to whoever runs the code. When the code of the root frame has ended, the
//! execution is concluded: the root frame is closed, the storage deposit is settled with the
//! origin, and the changes are made final, or all taken back after a failure and after
//! every dry run.

use vstd::prelude::*;
use crate::deposit::{Meter, StorageDeposit};
use crate::error::{DispatchError, Error, ErrorOrigin, ExecError};
use crate::exec::call::{call_refusal, gas_after_load};
use crate::exec::finish::{closed_ledger, commits, failure, gas_back};
use crate::exec::idle::{can_settle_with, settled_with};
use crate::exec::{Outcome, Stack, Started};
use crate::gas::GasMeter;
use crate::invariants::conserves;
use crate::ledger::transferred;
use crate::pallet::{Pallet, Pending};
use crate::address::AddressGenerator;
use crate::code_cache::{is_stale, load, load_weight, stored, PrefabWasmModule};
use crate::exec::instantiate::{
    gas_after_code_load, instantiate_refusal, instantiated, is_fresh, next_nonce,
};
use crate::primitives::{
    AccountId, Balance, Code, CodeHash, CodeView, Determinism, ExecReturnValue, ExportedFunction,
    InstantiateReturnValue,
};
use crate::state::{opt_view, StateView};
use crate::weight::Weight;

verus! {

/// Where an execution stands after its start.
pub enum Progress<T> {
    /// The root frame is open. Its code has to run; then the execution is concluded.
    Run {
        account_id: AccountId,
        code_hash: CodeHash,
        entry_point: ExportedFunction,
        /// The stored code has to be instrumented again before it runs.
        stale: bool,
    },
    /// The execution is over.
    Done(T),
}

/// What an execution leaves behind.
pub struct InternalOutput {
    /// The gas meter of the execution.
    pub gas_meter: GasMeter,
    /// The storage deposit that the execution charged to the origin, or refunded.
    pub storage_deposit: StorageDeposit,
    /// What the root contract returned, or why the execution failed.
    pub result: Result<ExecReturnValue, ExecError>,
}

/// The result of a dry run of a call.
pub struct ContractExecResult {
    /// The weight that the execution used.
    pub gas_consumed: Weight,
    /// The limit that would have been enough for the execution.
    pub gas_required: Weight,
    /// The storage deposit that the execution would charge or refund.
    pub storage_deposit: StorageDeposit,
    /// What the contracts wrote to the debug buffer; empty where debugging was off.
    pub debug_message: Vec<u8>,
    /// What the contract returned, or why the execution failed.
    pub result: Result<ExecReturnValue, DispatchError>,
}

/// The result of a dry run of an instantiation.
pub struct ContractInstantiateResult {
    pub gas_consumed: Weight,
    pub gas_required: Weight,
    pub storage_deposit: StorageDeposit,
    pub debug_message: Vec<u8>,
    /// What the constructor returned and where the contract is, or why the execution failed.
    pub result: Result<InstantiateReturnValue, DispatchError>,
}

/// Whether an execution with this result keeps its changes: it is no dry run, and the root
/// contract returned without the revert flag.
pub open spec fn keeps_changes(dry_run: bool, result: Result<ExecReturnValue, ExecError>) -> bool {
    !dry_run && (result matches Ok(v) && !v.spec_did_revert())
}

impl Pallet {
    /// Concludes an execution whose root frame is closed: settles the storage deposit with
    /// the origin, then makes the changes final or takes them all back.
    ///
    /// Where the origin cannot pay the deposit, the execution fails with
    /// `StorageDepositNotEnoughFunds`.
    fn conclude(
        &mut self,
        result: Result<ExecReturnValue, ExecError>,
        dry_run: bool,
        extra_deposit: Balance,
    ) -> (out: InternalOutput)
        requires
            old(self).stack.wf(),
            old(self).stack.depth() == 0,
        ensures
            final(self).wf(),
            final(self).idle(),
            final(self).block_weight == old(self).block_weight,
            final(self).stack.same_but_ledger(old(self).stack),
            out.gas_meter == old(self).stack.gas(),
            conserves(old(self).stack.state().reverts_to(0), final(self).ledger()),
            out.result == Self::concluded_result(old(self).stack, result),
            out.storage_deposit == Self::concluded_deposit(old(self).stack, extra_deposit),
            final(self).ledger() == if keeps_changes(
                dry_run,
                Self::concluded_result(old(self).stack, result),
            ) {
                old(self).stack.settled()
            } else {
                old(self).stack.state().reverts_to(0)
            },
    {
        let settled = self.stack.settle();
        let (result, deposit) = match settled {
            Ok(d) => (result, d),
            Err(e) => (
                Err(ExecError { error: e, origin: ErrorOrigin::Caller }),
                StorageDeposit::zero(),
            ),
        };
        let keep = !dry_run && match &result {
            Ok(v) => !v.did_revert(),
            Err(_) => false,
        };
        if keep {
            self.stack.commit();
        } else {
            self.stack.rollback();
        }
        self.pending = None;
        InternalOutput {
            gas_meter: self.stack.gas_meter(),
            storage_deposit: deposit.saturating_add(&StorageDeposit::Charge(extra_deposit)),
            result,
        }
    }

    /// The result of an execution after the storage deposit was settled.
    pub open spec fn concluded_result(
        stack: Stack,
        result: Result<ExecReturnValue, ExecError>,
    ) -> Result<ExecReturnValue, ExecError> {
        if stack.can_settle() {
            result
        } else {
            Err(ExecError { error: Error::StorageDepositNotEnoughFunds,
                origin: ErrorOrigin::Caller })
        }
    }

    /// The storage deposit that a concluded execution reports: what was settled with the
    /// origin, and the deposit for code that was uploaded along.
    pub open spec fn concluded_deposit(stack: Stack, extra_deposit: Balance) -> StorageDeposit {
        (if stack.can_settle() {
            stack.deposit().total()
        } else {
            StorageDeposit::Charge(0)
        }).spec_saturating_add(StorageDeposit::Charge(extra_deposit))
    }

    /// Why a call by `origin` cannot even open its root frame, if it cannot: the origin
    /// cannot spare the storage deposit limit beside the value and its own existence; or one
    /// of the reasons of `call_refusal`.
    pub open spec fn root_call_refusal(
        self,
        origin: AccountId,
        dest: AccountId,
        value: Balance,
        gas_limit: Weight,
        storage_deposit_limit: Option<Balance>,
    ) -> Option<Error> {
        if storage_deposit_limit matches Some(l) && l > Meter::max_limit(
            self.ledger().balance(origin@).free,
            value,
            self.config().existential_deposit,
        ) {
            Some(Error::StorageDepositNotEnoughFunds)
        } else {
            call_refusal(self.ledger(), self.config(), 0, gas_limit, origin@, dest@, value)
        }
    }

    /// The storage deposit limit of an execution: the limit that the origin gave, or all that
    /// the origin can spare beside the value and its own existence.
    pub open spec fn root_limit(
        s: StateView,
        config: crate::config::Config,
        origin: AccountId,
        value: Balance,
        storage_deposit_limit: Option<Balance>,
    ) -> Balance {
        match storage_deposit_limit {
            Some(l) => l,
            None => Meter::max_limit(s.balance(origin@).free, value, config.existential_deposit),
        }
    }

    /// Whether `module` is what an upload of `code` by `origin` stores.
    pub open spec fn uploads(
        self,
        module: PrefabWasmModule,
        origin: AccountId,
        code: Seq<u8>,
        instrumented: Option<Seq<u8>>,
    ) -> bool {
        &&& module.code_hash@ == crate::address::blake2_256_digest(code)
        &&& module.pristine@ == code
        &&& instrumented matches Some(i) && module.instrumented@ == i
        &&& module.owner == origin
        &&& module.determinism == Determinism::Deterministic
        &&& self.upload_result(origin, code, instrumented, None) matches Ok((hash, deposit))
            && module.deposit == deposit
    }

    /// Whether `after` is `before` once a call by `origin` to `dest` has opened its root
    /// frame: the execution is pending, the value has moved, and the frame of `dest` is on
    /// the stack with the input `data`. All of it can still be taken back.
    pub open spec fn call_running(
        before: Pallet,
        after: Pallet,
        origin: AccountId,
        dest: AccountId,
        value: Balance,
        gas_limit: Weight,
        storage_deposit_limit: Option<Balance>,
        data: Seq<u8>,
        determinism: Determinism,
        dry_run: bool,
        base_weight: Weight,
        code_hash: CodeHash,
    ) -> bool {
        let callee = after.stack.top();
        &&& before.root_call_refusal(origin, dest, value, gas_limit, storage_deposit_limit) is None
        &&& before.ledger().contracts.contains_key(dest@)
        &&& after.pending == Some(Pending { dry_run, address: None, base_weight, extra_deposit: 0 })
        &&& after.stack.depth() == 1
        &&& after.stack.origin() == origin
        &&& after.stack.determinism() == determinism
        &&& after.stack.gas().limit() == gas_limit
        &&& after.ledger() == transferred(before.ledger(), origin@, dest@, value)
        &&& after.stack.state().reverts_to(0) == before.ledger()
        &&& code_hash == before.ledger().contracts[dest@].info.code_hash
        &&& callee.account_id == dest
        &&& callee.caller == origin
        &&& callee.entry_point == ExportedFunction::Call
        &&& callee.code_hash == code_hash
        &&& callee.value_transferred == value
        &&& callee.input matches Some(i) && i@ == data
        &&& callee.checkpoint == 0
        &&& callee.nested_gas.limit() == gas_after_load(
            before.ledger(),
            before.config(),
            0,
            gas_limit,
            dest@,
        )
        &&& callee.nested_gas.left() == callee.nested_gas.limit()
        &&& callee.nested_gas.lowest() == callee.nested_gas.limit()
        &&& after.stack.gas().left() == (Weight { ref_time: 0, proof_size: 0 })
        &&& after.stack.deposit().total() == StorageDeposit::Charge(0)
        &&& after.stack.deposit().limit() == Self::root_limit(
            before.ledger(),
            before.config(),
            origin,
            value,
            storage_deposit_limit,
        )
        &&& callee.nested_storage.total() == StorageDeposit::Charge(0)
        &&& callee.nested_storage.limit() == after.stack.deposit().limit()
    }

    /// Whether `after` and `out` are what a call by `origin` to `dest` leaves that ended
    /// without running code: it was refused, and the ledger is as before; or `dest` has no
    /// code, and the value has moved, unless the call was a dry run.
    pub open spec fn call_over(
        before: Pallet,
        after: Pallet,
        origin: AccountId,
        dest: AccountId,
        value: Balance,
        gas_limit: Weight,
        storage_deposit_limit: Option<Balance>,
        dry_run: bool,
        out: InternalOutput,
    ) -> bool {
        &&& after.idle()
        &&& conserves(before.ledger(), after.ledger())
        &&& out.gas_meter.limit() == gas_limit
        &&& out.gas_meter.lowest() == out.gas_meter.left()
        &&& out.storage_deposit == StorageDeposit::Charge(0)
        &&& match before.root_call_refusal(origin, dest, value, gas_limit, storage_deposit_limit) {
            Some(e) => {
                &&& out.result == Err::<ExecReturnValue, ExecError>(
                    ExecError { error: e, origin: ErrorOrigin::Caller },
                )
                &&& after.ledger() == before.ledger()
                &&& out.gas_meter.left() == if e == Error::StorageDepositNotEnoughFunds {
                    gas_limit
                } else {
                    gas_after_load(before.ledger(), before.config(), 0, gas_limit, dest@)
                }
            },
            None => {
                &&& !before.ledger().contracts.contains_key(dest@)
                &&& out.result matches Ok(v) && v.flags == 0 && v.data@.len() == 0
                &&& out.gas_meter.left() == gas_limit
                &&& after.ledger() == if dry_run {
                    before.ledger()
                } else {
                    transferred(before.ledger(), origin@, dest@, value)
                }
            },
        }
    }

    /// Starts a call by `origin` to `dest`.
    ///
    /// Where the root frame opens, the execution is pending and the code of `dest` has to
    /// run. Where `dest` has no code and `value` is not zero, the value moves and the
    /// execution is over. Where the call is refused, the execution is over with the reason,
    /// and the ledger is as before.
    pub fn internal_call(
        &mut self,
        origin: AccountId,
        dest: AccountId,
        value: Balance,
        gas_limit: Weight,
        storage_deposit_limit: Option<Balance>,
        data: Vec<u8>,
        debug: bool,
        determinism: Determinism,
        dry_run: bool,
        base_weight: Weight,
    ) -> (r: Progress<InternalOutput>)
        requires
            old(self).wf(),
            old(self).idle(),
        ensures
            final(self).wf(),
            final(self).block_weight == old(self).block_weight,
            final(self).config() == old(self).config(),
            match r {
                Progress::Run { account_id, code_hash, entry_point, stale } => {
                    &&& account_id == dest
                    &&& entry_point == ExportedFunction::Call
                    &&& stale == is_stale(final(self).ledger(), final(self).config(), code_hash@)
                    &&& final(self).stack.debug_buffer() == if debug {
                        Some(Seq::<u8>::empty())
                    } else {
                        None
                    }
                    &&& Self::call_running(
                        *old(self),
                        *final(self),
                        origin,
                        dest,
                        value,
                        gas_limit,
                        storage_deposit_limit,
                        data@,
                        determinism,
                        dry_run,
                        base_weight,
                        code_hash,
                    )
                },
                Progress::Done(out) => Self::call_over(
                    *old(self),
                    *final(self),
                    origin,
                    dest,
                    value,
                    gas_limit,
                    storage_deposit_limit,
                    dry_run,
                    out,
                ),
            },
    {
        let gas_meter = GasMeter::new(gas_limit);
        let free = self.stack.ledger_ref().balance(&origin).free;
        let existential_deposit = self.stack.config_ref().existential_deposit;
        let storage_meter = match Meter::new(
            free,
            storage_deposit_limit,
            value,
            existential_deposit,
        ) {
            Ok(m) => m,
            Err(e) => {
                return Progress::Done(
                    InternalOutput {
                        gas_meter,
                        storage_deposit: StorageDeposit::zero(),
                        result: Err(ExecError { error: e, origin: ErrorOrigin::Caller }),
                    },
                );
            },
        };
        proof {
            self.stack.state().lemma_reverts_to_now();
        }
        self.stack.begin(origin, gas_meter, storage_meter, debug, determinism);
        match self.stack.start_call(dest, value, data) {
            Ok(Started::Run { account_id, code_hash, entry_point, stale }) => {
                self.pending = Some(
                    Pending { dry_run, address: None, base_weight, extra_deposit: 0 },
                );
                Progress::Run { account_id, code_hash, entry_point, stale }
            },
            Ok(Started::Transferred) => {
                let value = ExecReturnValue { flags: 0, data: Vec::new() };
                Progress::Done(self.conclude(Ok(value), dry_run, 0))
            },
            Err(e) => Progress::Done(self.conclude(Err(e), dry_run, 0)),
        }
    }

    /// The storage deposit of an execution once its root frame is closed with `outcome`: what
    /// the root frame accrued, if it commits.
    pub open spec fn root_deposit(self, outcome: Outcome) -> StorageDeposit {
        let top = self.stack.top();
        if commits(top, outcome) {
            self.stack.deposit().total().spec_saturating_add(top.nested_storage.total())
        } else {
            self.stack.deposit().total()
        }
    }

    /// Whether the origin can pay the storage deposit of an execution once its root frame is
    /// closed with `outcome`.
    pub open spec fn can_pay(self, outcome: Outcome) -> bool {
        can_settle_with(
            closed_ledger(self.stack.top(), outcome, self.stack),
            self.stack.origin()@,
            self.root_deposit(outcome),
        )
    }

    /// Whether `after` and `out` are what `before` leaves once its root frame was closed
    /// with `outcome` and the execution concluded.
    ///
    /// The result is that of the root frame, or `StorageDepositNotEnoughFunds` where the
    /// origin cannot pay the storage deposit. An execution that keeps its changes leaves the
    /// ledger of the closed root frame with the deposit settled; any other leaves the ledger
    /// as it was before the execution began. Whatever the outcome, the ledger holds the
    /// balance that it held when the execution began, and its nonce has not fallen; after
    /// an instantiation that keeps its changes the nonce has risen.
    pub open spec fn completed(
        before: Pallet,
        after: Pallet,
        outcome: Outcome,
        out: InternalOutput,
    ) -> bool {
        let top = before.stack.top();
        let pending = before.pending->0;
        &&& after.idle()
        &&& out.gas_meter.limit() == before.stack.gas().limit()
        &&& out.gas_meter.left() == before.stack.gas().left().spec_saturating_add(
            gas_back(top, outcome),
        ).spec_min(before.stack.gas().limit())
        &&& out.gas_meter.lowest() == before.stack.gas().lowest_after(
            top.nested_gas,
            outcome is Trapped,
        )
        &&& out.storage_deposit == (if before.can_pay(outcome) {
            before.root_deposit(outcome)
        } else {
            StorageDeposit::Charge(0)
        }).spec_saturating_add(StorageDeposit::Charge(pending.extra_deposit))
        &&& if !before.can_pay(outcome) {
            out.result == Err::<ExecReturnValue, ExecError>(
                ExecError {
                    error: Error::StorageDepositNotEnoughFunds,
                    origin: ErrorOrigin::Caller,
                },
            )
        } else {
            match failure(top, outcome) {
                Some(e) => out.result == Err::<ExecReturnValue, ExecError>(
                    ExecError { error: e, origin: ErrorOrigin::Callee },
                ),
                None => out.result matches Ok(v)
                    && outcome matches Outcome::Returned { flags, data }
                    && v.flags == flags && v.data == data,
            }
        }
        &&& after.ledger() == if keeps_changes(pending.dry_run, out.result) {
            settled_with(
                closed_ledger(top, outcome, before.stack),
                before.stack.origin()@,
                before.root_deposit(outcome),
            )
        } else {
            before.stack.state().reverts_to(0)
        }
        &&& conserves(before.stack.state().reverts_to(0), after.ledger())
        &&& keeps_changes(pending.dry_run, out.result) && top.entry_point
            == ExportedFunction::Constructor ==> after.ledger().nonce
            > before.stack.state().reverts_to(0).nonce
    }

    /// Closes the root frame with `outcome` and concludes the execution.
    ///
    /// The execution keeps its changes where it is no dry run, the root frame committed and
    /// the origin can pay the storage deposit. Else the ledger is again what it was before
    /// the execution began.
    pub fn complete(&mut self, outcome: Outcome) -> (out: InternalOutput)
        requires
            old(self).wf(),
            old(self).pending is Some,
            old(self).stack.depth() == 1,
        ensures
            final(self).wf(),
            final(self).block_weight == old(self).block_weight,
            final(self).config() == old(self).config(),
            final(self).stack.debug_buffer() == old(self).stack.debug_buffer(),
            Self::completed(*old(self), *final(self), outcome, out),
    {
        let pending = self.pending.unwrap();
        let result = self.stack.finish(outcome);
        self.conclude(result, pending.dry_run, pending.extra_deposit)
    }

    /// Why an instantiation by `origin` at `address` cannot even open its root frame, if it
    /// cannot, once the code is in the ledger `s`. The checks, in their order: the code is
    /// looked up, `CodeNotFound`; its load is paid out of the gas limit, `OutOfGas`; the
    /// origin must be able to spare the storage deposit limit beside the value and its own
    /// existence, `StorageDepositNotEnoughFunds`; then the reasons of `instantiate_refusal`.
    pub open spec fn root_instantiate_refusal(
        s: StateView,
        config: crate::config::Config,
        origin: AccountId,
        code_hash: Seq<u8>,
        address: Seq<u8>,
        value: Balance,
        gas_limit: Weight,
        storage_deposit_limit: Option<Balance>,
    ) -> Option<Error> {
        if !s.codes.contains_key(code_hash) {
            Some(Error::CodeNotFound)
        } else if !load_weight(config, s.codes[code_hash].instrumented.len()).all_lte(gas_limit) {
            Some(Error::OutOfGas)
        } else if storage_deposit_limit matches Some(l) && l > Meter::max_limit(
            s.balance(origin@).free,
            value,
            config.existential_deposit,
        ) {
            Some(Error::StorageDepositNotEnoughFunds)
        } else {
            instantiate_refusal(s, config, 0, gas_limit, origin@, code_hash, address, value)
        }
    }

    /// The storage deposit that a refused instantiation reports. An instantiation that is
    /// refused before its meters exist, for want of the code, of gas for its load or of
    /// funds for the deposit limit, reports none; any other reports the deposit for code
    /// that was stored along.
    pub open spec fn refused_deposit(error: Error, extra_deposit: Balance) -> StorageDeposit {
        if error == Error::CodeNotFound || error == Error::OutOfGas || error
            == Error::StorageDepositNotEnoughFunds {
            StorageDeposit::Charge(0)
        } else {
            StorageDeposit::Charge(extra_deposit)
        }
    }

    /// Whether `after` holds the root frame of an instantiation by `origin` that was opened
    /// over the ledger `s`, in which the code is: nothing refuses the instantiation, the
    /// ledger is `s` with the contract created and the value moved, the constructor has the
    /// gas limit less the load of the code, and the execution has the storage deposit limit
    /// that the origin gave or can spare.
    pub open spec fn opened_over(
        s: StateView,
        after: Pallet,
        origin: AccountId,
        value: Balance,
        gas_limit: Weight,
        storage_deposit_limit: Option<Balance>,
        code_hash: Seq<u8>,
        address: Seq<u8>,
    ) -> bool {
        &&& Self::root_instantiate_refusal(
            s,
            after.config(),
            origin,
            code_hash,
            address,
            value,
            gas_limit,
            storage_deposit_limit,
        ) is None
        &&& after.ledger() == transferred(
            instantiated(s, address, after.ledger().contracts[address].info),
            origin@,
            address,
            value,
        )
        &&& after.stack.top().nested_gas.limit() == gas_after_code_load(
            s,
            after.config(),
            0,
            gas_limit,
            code_hash,
        )
        &&& after.stack.deposit().limit() == Self::root_limit(
            s,
            after.config(),
            origin,
            value,
            storage_deposit_limit,
        )
    }

    /// Whether `out` is what an instantiation by `origin` leaves that was refused over the
    /// ledger `s`, in which the code would have to be: the reason is the first check that
    /// fails, the gas meter has paid for the load of the code if it got that far, and the
    /// deposit is as `refused_deposit` says.
    pub open spec fn refused_over(
        s: StateView,
        config: crate::config::Config,
        origin: AccountId,
        value: Balance,
        gas_limit: Weight,
        storage_deposit_limit: Option<Balance>,
        code_hash: Seq<u8>,
        address: Seq<u8>,
        extra_deposit: Balance,
        out: InternalOutput,
    ) -> bool {
        &&& out.result matches Err(e)
        &&& e.origin == ErrorOrigin::Caller
        &&& Self::root_instantiate_refusal(
            s,
            config,
            origin,
            code_hash,
            address,
            value,
            gas_limit,
            storage_deposit_limit,
        ) == Some(e.error)
        &&& out.gas_meter.limit() == gas_limit
        &&& out.gas_meter.left() == gas_after_code_load(s, config, 0, gas_limit, code_hash)
        &&& out.gas_meter.lowest() == out.gas_meter.left()
        &&& out.storage_deposit == Self::refused_deposit(e.error, extra_deposit)
    }

    /// Starts an instantiation by `origin` from the code under `code_hash`, which is in the
    /// ledger already.
    ///
    /// Where the root frame opens, the contract exists at the address that `G` derives, the
    /// execution is pending and the constructor has to run. Where the instantiation is
    /// refused, the execution is over with the reason, and the ledger is again what it was
    /// at the last commit.
    fn begin_instantiate<G: AddressGenerator>(
        &mut self,
        origin: AccountId,
        value: Balance,
        gas_limit: Weight,
        storage_deposit_limit: Option<Balance>,
        code_hash: CodeHash,
        extra_deposit: Balance,
        data: Vec<u8>,
        salt: &[u8],
        debug: bool,
        dry_run: bool,
        base_weight: Weight,
    ) -> (r: Progress<InternalOutput>)
        requires
            old(self).stack.wf(),
            old(self).stack.depth() == 0,
            old(self).pending is None,
        ensures
            final(self).wf(),
            final(self).block_weight == old(self).block_weight,
            final(self).config() == old(self).config(),
            match r {
                Progress::Run { account_id, code_hash: hash, entry_point, stale } => {
                    let address = G::address(origin@, code_hash@, data@, salt@);
                    let info = final(self).ledger().contracts[address].info;
                    let callee = final(self).stack.top();
                    &&& stale == is_stale(final(self).ledger(), final(self).config(), hash@)
                    &&& Self::opened_over(
                        old(self).ledger(),
                        *final(self),
                        origin,
                        value,
                        gas_limit,
                        storage_deposit_limit,
                        code_hash@,
                        address,
                    )
                    &&& final(self).pending == Some(
                        Pending { dry_run, address: Some(account_id), base_weight, extra_deposit },
                    )
                    &&& final(self).stack.depth() == 1
                    &&& final(self).stack.origin() == origin
                    &&& final(self).stack.gas().limit() == gas_limit
                    &&& final(self).ledger().contracts.contains_key(address)
                    &&& is_fresh(info, address, code_hash, next_nonce(old(self).ledger().nonce))
                    &&& final(self).stack.state().reverts_to(0) == old(
                        self,
                    ).stack.state().reverts_to(0)
                    &&& account_id@ == address
                    &&& hash == code_hash
                    &&& entry_point == ExportedFunction::Constructor
                    &&& callee.account_id == account_id
                    &&& callee.caller == origin
                    &&& callee.entry_point == ExportedFunction::Constructor
                    &&& callee.code_hash == code_hash
                    &&& callee.value_transferred == value
                    &&& callee.input matches Some(i) && i@ == data@
                    &&& final(self).stack.debug_buffer() == if debug {
                        Some(Seq::<u8>::empty())
                    } else {
                        None
                    }
                    &&& callee.nested_gas.left() == callee.nested_gas.limit()
                    &&& callee.nested_gas.lowest() == callee.nested_gas.limit()
                    &&& final(self).stack.gas().left() == (Weight { ref_time: 0, proof_size: 0 })
                    &&& final(self).stack.deposit().total() == StorageDeposit::Charge(0)
                    &&& callee.nested_storage.total() == StorageDeposit::Charge(0)
                    &&& callee.nested_storage.limit() == final(self).stack.deposit().limit()
                },
                Progress::Done(out) => {
                    &&& final(self).idle()
                    &&& Self::refused_over(
                        old(self).ledger(),
                        old(self).config(),
                        origin,
                        value,
                        gas_limit,
                        storage_deposit_limit,
                        code_hash@,
                        G::address(origin@, code_hash@, data@, salt@),
                        extra_deposit,
                        out,
                    )
                    &&& final(self).ledger() == old(self).stack.state().reverts_to(0)
                },
            },
    {
        let mut gas_meter = GasMeter::new(gas_limit);
        match load(self.stack.ledger_ref(), self.stack.config_ref(), &code_hash, &mut gas_meter) {
            Ok(_) => {},
            Err(e) => {
                self.stack.rollback();
                return Progress::Done(
                    InternalOutput {
                        gas_meter,
                        storage_deposit: StorageDeposit::zero(),
                        result: Err(ExecError { error: e, origin: ErrorOrigin::Caller }),
                    },
                );
            },
        }
        let free = self.stack.ledger_ref().balance(&origin).free;
        let existential_deposit = self.stack.config_ref().existential_deposit;
        let storage_meter = match Meter::new(
            free,
            storage_deposit_limit,
            value,
            existential_deposit,
        ) {
            Ok(m) => m,
            Err(e) => {
                self.stack.rollback();
                return Progress::Done(
                    InternalOutput {
                        gas_meter,
                        storage_deposit: StorageDeposit::zero(),
                        result: Err(ExecError { error: e, origin: ErrorOrigin::Caller }),
                    },
                );
            },
        };
        self.stack.begin(
            origin,
            GasMeter::new(gas_limit),
            storage_meter,
            debug,
            Determinism::Deterministic,
        );
        match self.stack.start_instantiate::<G>(code_hash, value, data, salt) {
            Ok(Started::Run { account_id, code_hash, entry_point, stale }) => {
                self.pending = Some(
                    Pending { dry_run, address: Some(account_id), base_weight, extra_deposit },
                );
                Progress::Run { account_id, code_hash, entry_point, stale }
            },
            Ok(Started::Transferred) => {
                let value = ExecReturnValue { flags: 0, data: Vec::new() };
                Progress::Done(self.conclude(Ok(value), dry_run, extra_deposit))
            },
            Err(e) => Progress::Done(self.conclude(Err(e), dry_run, extra_deposit)),
        }
    }

    /// Whether `after` is `before` once an instantiation by `origin` has opened its root
    /// frame: the code is stored, the contract exists at `account_id`, which is `address`,
    /// the execution is pending, and the frame of the constructor is on the stack. All of it
    /// can still be taken back.
    ///
    /// For code that is stored already the frame is opened over the ledger of `before`. For
    /// code that comes along it is opened over that ledger with the code stored and its
    /// deposit reserved, so an origin that cannot spare the value beside the code deposit is
    /// refused.
    pub open spec fn instantiate_running(
        before: Pallet,
        after: Pallet,
        origin: AccountId,
        value: Balance,
        gas_limit: Weight,
        storage_deposit_limit: Option<Balance>,
        code: CodeView,
        instrumented: Option<Seq<u8>>,
        data: Seq<u8>,
        dry_run: bool,
        base_weight: Weight,
        account_id: AccountId,
        code_hash: CodeHash,
        address: Seq<u8>,
    ) -> bool {
        let callee = after.stack.top();
        &&& after.config() == before.config()
        &&& after.pending matches Some(p)
        &&& p.dry_run == dry_run
        &&& p.address == Some(account_id)
        &&& p.base_weight == base_weight
        &&& after.stack.depth() == 1
        &&& after.stack.origin() == origin
        &&& after.stack.gas().limit() == gas_limit
        &&& after.stack.state().reverts_to(0) == before.ledger()
        &&& code_hash@ == Self::hash_of(code)
        &&& account_id@ == address
        &&& after.ledger().contracts.contains_key(address)
        &&& is_fresh(
            after.ledger().contracts[address].info,
            address,
            code_hash,
            next_nonce(before.ledger().nonce),
        )
        &&& callee.account_id == account_id
        &&& callee.caller == origin
        &&& callee.entry_point == ExportedFunction::Constructor
        &&& callee.code_hash == code_hash
        &&& callee.value_transferred == value
        &&& callee.input matches Some(i) && i@ == data
        &&& callee.nested_gas.left() == callee.nested_gas.limit()
        &&& callee.nested_gas.lowest() == callee.nested_gas.limit()
        &&& after.stack.gas().left() == (Weight { ref_time: 0, proof_size: 0 })
        &&& after.stack.deposit().total() == StorageDeposit::Charge(0)
        &&& callee.nested_storage.total() == StorageDeposit::Charge(0)
        &&& callee.nested_storage.limit() == after.stack.deposit().limit()
        &&& match code {
            CodeView::Existing(h) => {
                &&& p.extra_deposit == 0
                &&& Self::opened_over(
                    before.ledger(),
                    after,
                    origin,
                    value,
                    gas_limit,
                    storage_deposit_limit,
                    h@,
                    address,
                )
            },
            CodeView::Upload(binary) => exists|module: PrefabWasmModule|
                {
                    &&& #[trigger] before.uploads(module, origin, binary, instrumented)
                    &&& p.extra_deposit == module.deposit
                    &&& Self::opened_over(
                        stored(before.ledger(), module, before.config()),
                        after,
                        origin,
                        value,
                        gas_limit,
                        storage_deposit_limit,
                        module.code_hash@,
                        address,
                    )
                },
        }
    }

    /// Whether `after` and `out` are what an instantiation by `origin` leaves that was
    /// refused: the ledger is as before, and the reason comes with the origin `Caller`.
    ///
    /// Code that comes along is refused for the reasons of an upload, with nothing charged.
    /// Where the upload is accepted, and for code that is stored already, the reason is the
    /// first check of `root_instantiate_refusal` that fails: over the ledger of `before`
    /// for stored code, over that ledger with the code stored and its deposit reserved for
    /// code that comes along.
    pub open spec fn instantiate_over(
        before: Pallet,
        after: Pallet,
        origin: AccountId,
        value: Balance,
        gas_limit: Weight,
        storage_deposit_limit: Option<Balance>,
        code: CodeView,
        instrumented: Option<Seq<u8>>,
        address: Seq<u8>,
        out: InternalOutput,
    ) -> bool {
        &&& after.idle()
        &&& after.ledger() == before.ledger()
        &&& out.gas_meter.limit() == gas_limit
        &&& out.result matches Err(e)
        &&& e.origin == ErrorOrigin::Caller
        &&& match code {
            CodeView::Existing(h) => Self::refused_over(
                before.ledger(),
                before.config(),
                origin,
                value,
                gas_limit,
                storage_deposit_limit,
                h@,
                address,
                0,
                out,
            ),
            CodeView::Upload(binary) => match before.upload_result(origin, binary, instrumented,
                None) {
                Err(why) => {
                    &&& why == DispatchError::Contract(e.error)
                    &&& out.storage_deposit == StorageDeposit::Charge(0)
                    &&& out.gas_meter.left() == gas_limit
                    &&& out.gas_meter.lowest() == gas_limit
                },
                Ok((hash, deposit)) => exists|module: PrefabWasmModule|
                    {
                        &&& #[trigger] before.uploads(module, origin, binary, instrumented)
                        &&& Self::refused_over(
                            stored(before.ledger(), module, before.config()),
                            before.config(),
                            origin,
                            value,
                            gas_limit,
                            storage_deposit_limit,
                            hash,
                            address,
                            deposit,
                            out,
                        )
                    },
            },
        }
    }

    /// Starts an instantiation by `origin`, from code that is stored already or from code
    /// that comes along and is stored first. For code that comes along, `instrumented` is
    /// its validated and instrumented form, `None` where validation rejected it.
    ///
    /// Where the root frame opens, the execution is pending and the constructor has to run.
    /// Else the execution is over with the reason, the origin `Caller`, and the ledger is
    /// as before: code that was stored along is gone again.
    pub fn internal_instantiate<G: AddressGenerator>(
        &mut self,
        origin: AccountId,
        value: Balance,
        gas_limit: Weight,
        storage_deposit_limit: Option<Balance>,
        code: Code,
        instrumented: Option<Vec<u8>>,
        data: Vec<u8>,
        salt: &[u8],
        debug: bool,
        dry_run: bool,
        base_weight: Weight,
    ) -> (r: Progress<InternalOutput>)
        requires
            old(self).wf(),
            old(self).idle(),
        ensures
            final(self).wf(),
            final(self).block_weight == old(self).block_weight,
            final(self).config() == old(self).config(),
            match r {
                Progress::Run { account_id, code_hash, entry_point, stale } => {
                    &&& stale == is_stale(final(self).ledger(), final(self).config(), code_hash@)
                    &&& entry_point == ExportedFunction::Constructor
                    &&& final(self).stack.debug_buffer() == if debug {
                        Some(Seq::<u8>::empty())
                    } else {
                        None
                    }
                    &&& Self::instantiate_running(
                        *old(self),
                        *final(self),
                        origin,
                        value,
                        gas_limit,
                        storage_deposit_limit,
                        code@,
                        opt_view(instrumented),
                        data@,
                        dry_run,
                        base_weight,
                        account_id,
                        code_hash,
                        G::address(origin@, code_hash@, data@, salt@),
                    )
                },
                Progress::Done(out) => Self::instantiate_over(
                    *old(self),
                    *final(self),
                    origin,
                    value,
                    gas_limit,
                    storage_deposit_limit,
                    code@,
                    opt_view(instrumented),
                    G::address(origin@, Self::hash_of(code@), data@, salt@),
                    out,
                ),
            },
    {
        proof {
            self.stack.state().lemma_reverts_to_now();
        }
        let ghost before = *self;
        let ghost code_view = code@;
        let ghost instrumented_view = opt_view(instrumented);
        let ghost input = data@;
        let ghost salt_view = salt@;
        let (code_hash, extra_deposit, stored_module) = match code {
            Code::Existing(hash) => (hash, 0, Ghost(None::<PrefabWasmModule>)),
            Code::Upload(binary) => {
                match self.do_upload(origin, binary, instrumented, None,
                    Determinism::Deterministic) {
                    Ok((v, m)) => (v.code_hash, v.deposit, Ghost(Some(m@))),
                    Err(e) => {
                        let error = match e {
                            DispatchError::Contract(error) => error,
                            DispatchError::BadOrigin => Error::CodeRejected,
                        };
                        self.stack.rollback();
                        return Progress::Done(
                            InternalOutput {
                                gas_meter: GasMeter::new(gas_limit),
                                storage_deposit: StorageDeposit::zero(),
                                result: Err(ExecError { error, origin: ErrorOrigin::Caller }),
                            },
                        );
                    },
                }
            },
        };
        let progress = self.begin_instantiate::<G>(
            origin,
            value,
            gas_limit,
            storage_deposit_limit,
            code_hash,
            extra_deposit,
            data,
            salt,
            debug,
            dry_run,
            base_weight,
        );
        proof {
            if let CodeView::Upload(binary) = code_view {
                let module = stored_module@->0;
                assert(before.uploads(module, origin, binary, instrumented_view));
                if progress is Run {
                    let code_hash = progress->code_hash;
                    {
                        let address = G::address(origin@, code_hash@, input, salt_view);
                        assert(Self::opened_over(
                            stored(before.ledger(), module, before.config()),
                            *self,
                            origin,
                            value,
                            gas_limit,
                            storage_deposit_limit,
                            module.code_hash@,
                            address,
                        ));
                    }
                } else {
                    let out = progress->Done_0;
                    {
                        let hash = crate::address::blake2_256_digest(binary);
                        assert(Self::refused_over(
                            stored(before.ledger(), module, before.config()),
                            before.config(),
                            origin,
                            value,
                            gas_limit,
                            storage_deposit_limit,
                            hash,
                            G::address(origin@, hash, input, salt_view),
                            module.deposit,
                            out,
                        ));
                    }
                }
            }
        }
        progress
    }

    /// The hash of the code that an instantiation runs: the given hash, or the digest of the
    /// bytes that come along.
    pub open spec fn hash_of(code: CodeView) -> Seq<u8> {
        match code {
            CodeView::Existing(h) => h@,
            CodeView::Upload(binary) => crate::address::blake2_256_digest(binary),
        }
    }
}

} // verus!
