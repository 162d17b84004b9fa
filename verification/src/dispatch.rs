//! The dispatchable calls and instantiations, and their dry runs.
//!
//! Each of them starts an execution. Where code has to run, the execution stays pending
//! until one of the `finish` operations closes the root frame and reports the result in the
//! form that the kind of execution asks for.

use vstd::prelude::*;
use crate::address::AddressGenerator;
use crate::code_cache::is_stale;
use crate::error::{DispatchError, Error, ExecError};
use crate::exec::Outcome;
use crate::gas::{DispatchResultWithPostInfo, GasMeter, PostDispatchInfo};
use crate::pallet::{ensure_signed, Pallet};
use crate::primitives::{
    AccountId, Balance, Code, CodeHash, CodeView, Determinism, ExecReturnValue, ExportedFunction,
    InstantiateReturnValue, Origin,
};
use crate::run::{ContractExecResult, ContractInstantiateResult, InternalOutput, Progress};
use crate::state::opt_view;
use crate::weight::Weight;

verus! {

/// The result of a dispatchable as the chain sees it: a root contract that returned with the
/// revert flag counts as failed with `ContractReverted`.
pub open spec fn promoted(result: Result<ExecReturnValue, ExecError>) -> Result<(), DispatchError> {
    match result {
        Ok(v) => if v.spec_did_revert() {
            Err(DispatchError::Contract(Error::ContractReverted))
        } else {
            Ok(())
        },
        Err(e) => Err(DispatchError::Contract(e.error)),
    }
}

/// What a dispatchable returns for an execution that left `out`: the promoted result, with
/// the gas consumed and the fixed weight of the dispatchable as the actual weight.
pub open spec fn dispatched(out: InternalOutput,
    base_weight: Weight) -> DispatchResultWithPostInfo {
    GasMeter::dispatch_result(out.gas_meter.consumed(), promoted(out.result), base_weight)
}

/// What a dispatchable returns to an origin that did not sign.
pub open spec fn bad_origin() -> DispatchResultWithPostInfo {
    Err((PostDispatchInfo { actual_weight: None, pays_fee: true }, DispatchError::BadOrigin))
}

/// Whether `d` reports the dry run of a call that left `out` and the debug buffer `debug`.
pub open spec fn reports_call(d: ContractExecResult, out: InternalOutput, debug: Seq<u8>) -> bool {
    &&& d.gas_consumed == out.gas_meter.consumed()
    &&& d.gas_required == out.gas_meter.required()
    &&& d.storage_deposit == out.storage_deposit
    &&& d.debug_message@ == debug
    &&& d.result == match out.result {
        Ok(v) => Ok::<ExecReturnValue, DispatchError>(v),
        Err(e) => Err::<ExecReturnValue, DispatchError>(DispatchError::Contract(e.error)),
    }
}

/// Whether `d` reports the dry run of an instantiation at `address` that left `out` and the
/// debug buffer `debug`.
pub open spec fn reports_instantiate(
    d: ContractInstantiateResult,
    out: InternalOutput,
    address: AccountId,
    debug: Seq<u8>,
) -> bool {
    &&& d.gas_consumed == out.gas_meter.consumed()
    &&& d.gas_required == out.gas_meter.required()
    &&& d.storage_deposit == out.storage_deposit
    &&& d.debug_message@ == debug
    &&& match out.result {
        Ok(v) => d.result matches Ok(i) && i.result == v && i.account_id == address,
        Err(e) => d.result matches Err(why) && why == DispatchError::Contract(e.error),
    }
}

/// The debug buffer as it is reported: empty where debugging is off.
pub open spec fn reported_debug(buffer: Option<Seq<u8>>) -> Seq<u8> {
    match buffer {
        Some(b) => b,
        None => Seq::<u8>::empty(),
    }
}

fn into_dispatch(out: InternalOutput, base_weight: Weight) -> (r: DispatchResultWithPostInfo)
    ensures
        r == dispatched(out, base_weight),
{
    let result = match out.result {
        Ok(v) => if v.did_revert() {
            Err(DispatchError::Contract(Error::ContractReverted))
        } else {
            Ok(())
        },
        Err(e) => Err(DispatchError::Contract(e.error)),
    };
    out.gas_meter.into_dispatch_result(result, base_weight)
}

fn into_call_report(out: InternalOutput, debug_message: Vec<u8>) -> (d: ContractExecResult)
    ensures
        reports_call(d, out, debug_message@),
{
    ContractExecResult {
        gas_consumed: out.gas_meter.gas_consumed(),
        gas_required: out.gas_meter.gas_required(),
        storage_deposit: out.storage_deposit,
        debug_message,
        result: match out.result {
            Ok(v) => Ok(v),
            Err(e) => Err(DispatchError::Contract(e.error)),
        },
    }
}

fn into_instantiate_report(out: InternalOutput, address: AccountId, debug_message: Vec<u8>) -> (d:
    ContractInstantiateResult)
    ensures
        reports_instantiate(d, out, address, debug_message@),
{
    ContractInstantiateResult {
        gas_consumed: out.gas_meter.gas_consumed(),
        gas_required: out.gas_meter.gas_required(),
        storage_deposit: out.storage_deposit,
        debug_message,
        result: match out.result {
            Ok(v) => Ok(InstantiateReturnValue { result: v, account_id: address }),
            Err(e) => Err(DispatchError::Contract(e.error)),
        },
    }
}

impl Pallet {
    /// The fixed weight of an instantiation with `data_len` bytes of input and `salt_len`
    /// bytes of salt.
    pub open spec fn instantiate_weight(self, data_len: nat, salt_len: nat) -> Weight {
        let w = self.config().weights;
        w.instantiate.spec_saturating_add(
            w.instantiate_per_input_byte.spec_saturating_mul(data_len as u64),
        ).spec_saturating_add(w.instantiate_per_salt_byte.spec_saturating_mul(salt_len as u64))
    }

    /// The fixed weight of an instantiation that brings `code_len` bytes of code along.
    pub open spec fn instantiate_with_code_weight(
        self,
        code_len: nat,
        data_len: nat,
        salt_len: nat,
    ) -> Weight {
        let w = self.config().weights;
        w.instantiate_with_code.spec_saturating_add(
            w.instantiate_with_code_per_code_byte.spec_saturating_mul(code_len as u64),
        ).spec_saturating_add(
            w.instantiate_per_input_byte.spec_saturating_mul(data_len as u64),
        ).spec_saturating_add(w.instantiate_per_salt_byte.spec_saturating_mul(salt_len as u64))
    }

    fn instantiate_weight_exec(&self, data_len: usize, salt_len: usize) -> (w: Weight)
        ensures
            w == self.instantiate_weight(data_len as nat, salt_len as nat),
    {
        let w = self.stack.config_ref().weights;
        w.instantiate.saturating_add(
            &w.instantiate_per_input_byte.saturating_mul(data_len as u64),
        ).saturating_add(&w.instantiate_per_salt_byte.saturating_mul(salt_len as u64))
    }

    fn instantiate_with_code_weight_exec(
        &self,
        code_len: usize,
        data_len: usize,
        salt_len: usize,
    ) -> (w: Weight)
        ensures
            w == self.instantiate_with_code_weight(
                code_len as nat,
                data_len as nat,
                salt_len as nat,
            ),
    {
        let w = self.stack.config_ref().weights;
        w.instantiate_with_code.saturating_add(
            &w.instantiate_with_code_per_code_byte.saturating_mul(code_len as u64),
        ).saturating_add(
            &w.instantiate_per_input_byte.saturating_mul(data_len as u64),
        ).saturating_add(&w.instantiate_per_salt_byte.saturating_mul(salt_len as u64))
    }

    /// Makes a call to `dest` on behalf of a signed origin, with `value` of its balance.
    ///
    /// Where code has to run, the execution is pending; `finish_dispatch` reports its
    /// result. Else the result is there at once: `BadOrigin` for an origin that did not
    /// sign; the refusal of the call; or success, where `dest` has no code and the value
    /// moved.
    pub fn call(
        &mut self,
        origin: Origin,
        dest: AccountId,
        value: Balance,
        gas_limit: Weight,
        storage_deposit_limit: Option<Balance>,
        data: Vec<u8>,
    ) -> (r: Progress<DispatchResultWithPostInfo>)
        requires
            old(self).wf(),
            old(self).idle(),
        ensures
            final(self).wf(),
            final(self).block_weight == old(self).block_weight,
            final(self).config() == old(self).config(),
            match origin {
                Origin::Signed(who) => match r {
                    Progress::Run { account_id, code_hash, entry_point, stale } => {
                        &&& stale == is_stale(final(self).ledger(), final(self).config(),
                            code_hash@)
                        &&& final(self).stack.debug_buffer() is None
                        &&& account_id == dest
                        &&& entry_point == ExportedFunction::Call
                        &&& Self::call_running(
                            *old(self),
                            *final(self),
                            who,
                            dest,
                            value,
                            gas_limit,
                            storage_deposit_limit,
                            data@,
                            Determinism::Deterministic,
                            false,
                            old(self).config().weights.call,
                            code_hash,
                        )
                    },
                    Progress::Done(d) => exists|out: InternalOutput|
                        {
                            &&& #[trigger] Self::call_over(
                                *old(self),
                                *final(self),
                                who,
                                dest,
                                value,
                                gas_limit,
                                storage_deposit_limit,
                                false,
                                out,
                            )
                            &&& d == dispatched(out, old(self).config().weights.call)
                        },
                },
                _ => {
                    &&& r matches Progress::Done(d)
                    &&& d == bad_origin()
                    &&& final(self).idle()
                    &&& final(self).ledger() == old(self).ledger()
                },
            },
    {
        let who = match ensure_signed(origin) {
            Ok(who) => who,
            Err(e) => {
                return Progress::Done(
                    Err((PostDispatchInfo { actual_weight: None, pays_fee: true }, e)),
                );
            },
        };
        let base_weight = self.stack.config_ref().weights.call;
        match self.internal_call(
            who,
            dest,
            value,
            gas_limit,
            storage_deposit_limit,
            data,
            false,
            Determinism::Deterministic,
            false,
            base_weight,
        ) {
            Progress::Run { account_id, code_hash, entry_point, stale } => Progress::Run {
                account_id,
                code_hash,
                entry_point,
                stale,
            },
            Progress::Done(out) => Progress::Done(into_dispatch(out, base_weight)),
        }
    }

    /// As `call`, with a gas limit of one dimension.
    pub fn call_old_weight(
        &mut self,
        origin: Origin,
        dest: AccountId,
        value: Balance,
        gas_limit: u64,
        storage_deposit_limit: Option<Balance>,
        data: Vec<u8>,
    ) -> (r: Progress<DispatchResultWithPostInfo>)
        requires
            old(self).wf(),
            old(self).idle(),
        ensures
            final(self).wf(),
            final(self).block_weight == old(self).block_weight,
            final(self).config() == old(self).config(),
            match origin {
                Origin::Signed(who) => match r {
                    Progress::Run { account_id, code_hash, entry_point, stale } => {
                        &&& stale == is_stale(final(self).ledger(), final(self).config(),
                            code_hash@)
                        &&& final(self).stack.debug_buffer() is None
                        &&& account_id == dest
                        &&& entry_point == ExportedFunction::Call
                        &&& Self::call_running(
                            *old(self),
                            *final(self),
                            who,
                            dest,
                            value,
                            old(self).compat_limit(gas_limit),
                            storage_deposit_limit,
                            data@,
                            Determinism::Deterministic,
                            false,
                            old(self).config().weights.call,
                            code_hash,
                        )
                    },
                    Progress::Done(d) => exists|out: InternalOutput|
                        {
                            &&& #[trigger] Self::call_over(
                                *old(self),
                                *final(self),
                                who,
                                dest,
                                value,
                                old(self).compat_limit(gas_limit),
                                storage_deposit_limit,
                                false,
                                out,
                            )
                            &&& d == dispatched(out, old(self).config().weights.call)
                        },
                },
                _ => {
                    &&& r matches Progress::Done(d)
                    &&& d == bad_origin()
                    &&& final(self).idle()
                    &&& final(self).ledger() == old(self).ledger()
                },
            },
    {
        let limit = self.compat_weight_limit(gas_limit);
        self.call(origin, dest, value, limit, storage_deposit_limit, data)
    }

    /// Runs a call by `origin` to `dest` without keeping any of its changes.
    ///
    /// Where code has to run, the execution is pending; `finish_bare_call` reports its
    /// result. Else the result is there at once.
    pub fn bare_call(
        &mut self,
        origin: AccountId,
        dest: AccountId,
        value: Balance,
        gas_limit: Weight,
        storage_deposit_limit: Option<Balance>,
        data: Vec<u8>,
        debug: bool,
        determinism: Determinism,
    ) -> (r: Progress<ContractExecResult>)
        requires
            old(self).wf(),
            old(self).idle(),
        ensures
            final(self).wf(),
            final(self).block_weight == old(self).block_weight,
            final(self).config() == old(self).config(),
            match r {
                Progress::Run { account_id, code_hash, entry_point, stale } => {
                    &&& stale == is_stale(final(self).ledger(), final(self).config(), code_hash@)
                    &&& account_id == dest
                    &&& entry_point == ExportedFunction::Call
                    &&& final(self).stack.debug_buffer() == if debug {
                        Some(Seq::<u8>::empty())
                    } else {
                        None
                    }
                    &&& Self::call_running(
                        *old(self),
                        *final(self),
                        origin,
                        dest,
                        value,
                        gas_limit,
                        storage_deposit_limit,
                        data@,
                        determinism,
                        true,
                        old(self).config().weights.call,
                        code_hash,
                    )
                },
                Progress::Done(d) => final(self).ledger() == old(self).ledger() && exists|
                    out: InternalOutput,
                |
                    {
                        &&& #[trigger] Self::call_over(
                            *old(self),
                            *final(self),
                            origin,
                            dest,
                            value,
                            gas_limit,
                            storage_deposit_limit,
                            true,
                            out,
                        )
                        &&& reports_call(d, out, Seq::<u8>::empty())
                    },
            },
    {
        let base_weight = self.stack.config_ref().weights.call;
        match self.internal_call(
            origin,
            dest,
            value,
            gas_limit,
            storage_deposit_limit,
            data,
            debug,
            determinism,
            true,
            base_weight,
        ) {
            Progress::Run { account_id, code_hash, entry_point, stale } => Progress::Run {
                account_id,
                code_hash,
                entry_point,
                stale,
            },
            Progress::Done(out) => Progress::Done(into_call_report(out, Vec::new())),
        }
    }

    /// Instantiates a contract from the code under `code_hash` on behalf of a signed
    /// origin, with `value` of its balance.
    ///
    /// Where the constructor has to run, the execution is pending; `finish_dispatch` reports
    /// its result. Else the result is there at once: `BadOrigin` for an origin that did not
    /// sign, or the refusal of the instantiation.
    pub fn instantiate<G: AddressGenerator>(
        &mut self,
        origin: Origin,
        value: Balance,
        gas_limit: Weight,
        storage_deposit_limit: Option<Balance>,
        code_hash: CodeHash,
        data: Vec<u8>,
        salt: Vec<u8>,
    ) -> (r: Progress<DispatchResultWithPostInfo>)
        requires
            old(self).wf(),
            old(self).idle(),
        ensures
            final(self).wf(),
            final(self).block_weight == old(self).block_weight,
            final(self).config() == old(self).config(),
            match origin {
                Origin::Signed(who) => match r {
                    Progress::Run { account_id, code_hash: hash, entry_point, stale } => {
                        &&& stale == is_stale(final(self).ledger(), final(self).config(), hash@)
                        &&& final(self).stack.debug_buffer() is None
                        &&& entry_point == ExportedFunction::Constructor
                        &&& hash == code_hash
                        &&& Self::instantiate_running(
                            *old(self),
                            *final(self),
                            who,
                            value,
                            gas_limit,
                            storage_deposit_limit,
                            CodeView::Existing(code_hash),
                            None,
                            data@,
                            false,
                            old(self).instantiate_weight(data@.len(), salt@.len()),
                            account_id,
                            hash,
                            G::address(who@, code_hash@, data@, salt@),
                        )
                    },
                    Progress::Done(d) => exists|out: InternalOutput|
                        {
                            &&& #[trigger] Self::instantiate_over(
                                *old(self),
                                *final(self),
                                who,
                                value,
                                gas_limit,
                                storage_deposit_limit,
                                CodeView::Existing(code_hash),
                                None,
                                G::address(who@, code_hash@, data@, salt@),
                                out,
                            )
                            &&& d == dispatched(
                                out,
                                old(self).instantiate_weight(data@.len(), salt@.len()),
                            )
                        },
                },
                _ => {
                    &&& r matches Progress::Done(d)
                    &&& d == bad_origin()
                    &&& final(self).idle()
                    &&& final(self).ledger() == old(self).ledger()
                },
            },
    {
        let who = match ensure_signed(origin) {
            Ok(who) => who,
            Err(e) => {
                return Progress::Done(
                    Err((PostDispatchInfo { actual_weight: None, pays_fee: true }, e)),
                );
            },
        };
        let base_weight = self.instantiate_weight_exec(data.len(), salt.len());
        match self.internal_instantiate::<G>(
            who,
            value,
            gas_limit,
            storage_deposit_limit,
            Code::Existing(code_hash),
            None,
            data,
            salt.as_slice(),
            false,
            false,
            base_weight,
        ) {
            Progress::Run { account_id, code_hash, entry_point, stale } => Progress::Run {
                account_id,
                code_hash,
                entry_point,
                stale,
            },
            Progress::Done(out) => Progress::Done(into_dispatch(out, base_weight)),
        }
    }

    /// Stores `code`, whose validated and instrumented form is `instrumented`, and
    /// instantiates a contract from it, on behalf of a signed origin.
    ///
    /// As `instantiate`. Where the instantiation does not succeed, the code is not stored.
    pub fn instantiate_with_code<G: AddressGenerator>(
        &mut self,
        origin: Origin,
        value: Balance,
        gas_limit: Weight,
        storage_deposit_limit: Option<Balance>,
        code: Vec<u8>,
        instrumented: Option<Vec<u8>>,
        data: Vec<u8>,
        salt: Vec<u8>,
    ) -> (r: Progress<DispatchResultWithPostInfo>)
        requires
            old(self).wf(),
            old(self).idle(),
        ensures
            final(self).wf(),
            final(self).block_weight == old(self).block_weight,
            final(self).config() == old(self).config(),
            match origin {
                Origin::Signed(who) => match r {
                    Progress::Run { account_id, code_hash, entry_point, stale } => {
                        &&& stale == is_stale(final(self).ledger(), final(self).config(),
                            code_hash@)
                        &&& final(self).stack.debug_buffer() is None
                        &&& entry_point == ExportedFunction::Constructor
                        &&& Self::instantiate_running(
                            *old(self),
                            *final(self),
                            who,
                            value,
                            gas_limit,
                            storage_deposit_limit,
                            CodeView::Upload(code@),
                            opt_view(instrumented),
                            data@,
                            false,
                            old(self).instantiate_with_code_weight(
                                code@.len(),
                                data@.len(),
                                salt@.len(),
                            ),
                            account_id,
                            code_hash,
                            G::address(who@, code_hash@, data@, salt@),
                        )
                    },
                    Progress::Done(d) => exists|out: InternalOutput|
                        {
                            &&& #[trigger] Self::instantiate_over(
                                *old(self),
                                *final(self),
                                who,
                                value,
                                gas_limit,
                                storage_deposit_limit,
                                CodeView::Upload(code@),
                                opt_view(instrumented),
                                G::address(
                                    who@,
                                    crate::address::blake2_256_digest(code@),
                                    data@,
                                    salt@,
                                ),
                                out,
                            )
                            &&& d == dispatched(
                                out,
                                old(self).instantiate_with_code_weight(
                                    code@.len(),
                                    data@.len(),
                                    salt@.len(),
                                ),
                            )
                        },
                },
                _ => {
                    &&& r matches Progress::Done(d)
                    &&& d == bad_origin()
                    &&& final(self).idle()
                    &&& final(self).ledger() == old(self).ledger()
                },
            },
    {
        let who = match ensure_signed(origin) {
            Ok(who) => who,
            Err(e) => {
                return Progress::Done(
                    Err((PostDispatchInfo { actual_weight: None, pays_fee: true }, e)),
                );
            },
        };
        let base_weight = self.instantiate_with_code_weight_exec(code.len(), data.len(), salt.len(
            ));
        match self.internal_instantiate::<G>(
            who,
            value,
            gas_limit,
            storage_deposit_limit,
            Code::Upload(code),
            instrumented,
            data,
            salt.as_slice(),
            false,
            false,
            base_weight,
        ) {
            Progress::Run { account_id, code_hash, entry_point, stale } => Progress::Run {
                account_id,
                code_hash,
                entry_point,
                stale,
            },
            Progress::Done(out) => Progress::Done(into_dispatch(out, base_weight)),
        }
    }

    /// As `instantiate`, with a gas limit of one dimension.
    pub fn instantiate_old_weight<G: AddressGenerator>(
        &mut self,
        origin: Origin,
        value: Balance,
        gas_limit: u64,
        storage_deposit_limit: Option<Balance>,
        code_hash: CodeHash,
        data: Vec<u8>,
        salt: Vec<u8>,
    ) -> (r: Progress<DispatchResultWithPostInfo>)
        requires
            old(self).wf(),
            old(self).idle(),
        ensures
            final(self).wf(),
            final(self).block_weight == old(self).block_weight,
            final(self).config() == old(self).config(),
            match origin {
                Origin::Signed(who) => match r {
                    Progress::Run { account_id, code_hash: hash, entry_point, stale } => {
                        &&& stale == is_stale(final(self).ledger(), final(self).config(), hash@)
                        &&& final(self).stack.debug_buffer() is None
                        &&& entry_point == ExportedFunction::Constructor
                        &&& hash == code_hash
                        &&& Self::instantiate_running(
                            *old(self),
                            *final(self),
                            who,
                            value,
                            old(self).compat_limit(gas_limit),
                            storage_deposit_limit,
                            CodeView::Existing(code_hash),
                            None,
                            data@,
                            false,
                            old(self).instantiate_weight(data@.len(), salt@.len()),
                            account_id,
                            hash,
                            G::address(who@, code_hash@, data@, salt@),
                        )
                    },
                    Progress::Done(d) => exists|out: InternalOutput|
                        {
                            &&& #[trigger] Self::instantiate_over(
                                *old(self),
                                *final(self),
                                who,
                                value,
                                old(self).compat_limit(gas_limit),
                                storage_deposit_limit,
                                CodeView::Existing(code_hash),
                                None,
                                G::address(who@, code_hash@, data@, salt@),
                                out,
                            )
                            &&& d == dispatched(
                                out,
                                old(self).instantiate_weight(data@.len(), salt@.len()),
                            )
                        },
                },
                _ => {
                    &&& r matches Progress::Done(d)
                    &&& d == bad_origin()
                    &&& final(self).idle()
                    &&& final(self).ledger() == old(self).ledger()
                },
            },
    {
        let limit = self.compat_weight_limit(gas_limit);
        self.instantiate::<G>(origin, value, limit, storage_deposit_limit, code_hash, data, salt)
    }

    /// As `instantiate_with_code`, with a gas limit of one dimension.
    pub fn instantiate_with_code_old_weight<G: AddressGenerator>(
        &mut self,
        origin: Origin,
        value: Balance,
        gas_limit: u64,
        storage_deposit_limit: Option<Balance>,
        code: Vec<u8>,
        instrumented: Option<Vec<u8>>,
        data: Vec<u8>,
        salt: Vec<u8>,
    ) -> (r: Progress<DispatchResultWithPostInfo>)
        requires
            old(self).wf(),
            old(self).idle(),
        ensures
            final(self).wf(),
            final(self).block_weight == old(self).block_weight,
            final(self).config() == old(self).config(),
            match origin {
                Origin::Signed(who) => match r {
                    Progress::Run { account_id, code_hash, entry_point, stale } => {
                        &&& stale == is_stale(final(self).ledger(), final(self).config(),
                            code_hash@)
                        &&& final(self).stack.debug_buffer() is None
                        &&& entry_point == ExportedFunction::Constructor
                        &&& Self::instantiate_running(
                            *old(self),
                            *final(self),
                            who,
                            value,
                            old(self).compat_limit(gas_limit),
                            storage_deposit_limit,
                            CodeView::Upload(code@),
                            opt_view(instrumented),
                            data@,
                            false,
                            old(self).instantiate_with_code_weight(
                                code@.len(),
                                data@.len(),
                                salt@.len(),
                            ),
                            account_id,
                            code_hash,
                            G::address(who@, code_hash@, data@, salt@),
                        )
                    },
                    Progress::Done(d) => exists|out: InternalOutput|
                        {
                            &&& #[trigger] Self::instantiate_over(
                                *old(self),
                                *final(self),
                                who,
                                value,
                                old(self).compat_limit(gas_limit),
                                storage_deposit_limit,
                                CodeView::Upload(code@),
                                opt_view(instrumented),
                                G::address(
                                    who@,
                                    crate::address::blake2_256_digest(code@),
                                    data@,
                                    salt@,
                                ),
                                out,
                            )
                            &&& d == dispatched(
                                out,
                                old(self).instantiate_with_code_weight(
                                    code@.len(),
                                    data@.len(),
                                    salt@.len(),
                                ),
                            )
                        },
                },
                _ => {
                    &&& r matches Progress::Done(d)
                    &&& d == bad_origin()
                    &&& final(self).idle()
                    &&& final(self).ledger() == old(self).ledger()
                },
            },
    {
        let limit = self.compat_weight_limit(gas_limit);
        self.instantiate_with_code::<G>(
            origin,
            value,
            limit,
            storage_deposit_limit,
            code,
            instrumented,
            data,
            salt,
        )
    }

    /// Runs an instantiation by `origin` without keeping any of its changes.
    ///
    /// Where the constructor has to run, the execution is pending; `finish_bare_instantiate`
    /// reports its result. Else the result is there at once.
    pub fn bare_instantiate<G: AddressGenerator>(
        &mut self,
        origin: AccountId,
        value: Balance,
        gas_limit: Weight,
        storage_deposit_limit: Option<Balance>,
        code: Code,
        instrumented: Option<Vec<u8>>,
        data: Vec<u8>,
        salt: Vec<u8>,
        debug: bool,
    ) -> (r: Progress<ContractInstantiateResult>)
        requires
            old(self).wf(),
            old(self).idle(),
        ensures
            final(self).wf(),
            final(self).block_weight == old(self).block_weight,
            final(self).config() == old(self).config(),
            match r {
                Progress::Run { account_id, code_hash, entry_point, stale } => {
                    &&& stale == is_stale(final(self).ledger(), final(self).config(), code_hash@)
                    &&& entry_point == ExportedFunction::Constructor
                    &&& final(self).stack.debug_buffer() == if debug {
                        Some(Seq::<u8>::empty())
                    } else {
                        None
                    }
                    &&& Self::instantiate_running(
                        *old(self),
                        *final(self),
                        origin,
                        value,
                        gas_limit,
                        storage_deposit_limit,
                        code@,
                        opt_view(instrumented),
                        data@,
                        true,
                        old(self).instantiate_weight(data@.len(), salt@.len()),
                        account_id,
                        code_hash,
                        G::address(origin@, code_hash@, data@, salt@),
                    )
                },
                Progress::Done(d) => exists|out: InternalOutput|
                    {
                        &&& #[trigger] Self::instantiate_over(
                            *old(self),
                            *final(self),
                            origin,
                            value,
                            gas_limit,
                            storage_deposit_limit,
                            code@,
                            opt_view(instrumented),
                            G::address(origin@, Self::hash_of(code@), data@, salt@),
                            out,
                        )
                        &&& d.gas_consumed == out.gas_meter.consumed()
                        &&& d.gas_required == out.gas_meter.required()
                        &&& d.storage_deposit == out.storage_deposit
                        &&& d.debug_message@.len() == 0
                        &&& out.result matches Err(e) && d.result matches Err(why) && why
                            == DispatchError::Contract(e.error)
                    },
            },
    {
        let base_weight = self.instantiate_weight_exec(data.len(), salt.len());
        match self.internal_instantiate::<G>(
            origin,
            value,
            gas_limit,
            storage_deposit_limit,
            code,
            instrumented,
            data,
            salt.as_slice(),
            debug,
            true,
            base_weight,
        ) {
            Progress::Run { account_id, code_hash, entry_point, stale } => Progress::Run {
                account_id,
                code_hash,
                entry_point,
                stale,
            },
            Progress::Done(out) => Progress::Done(
                into_instantiate_report(out, [0u8; 32], Vec::new()),
            ),
        }
    }

    /// Closes the root frame of a dispatched call or instantiation with `outcome`, concludes
    /// the execution and reports its result.
    pub fn finish_dispatch(&mut self, outcome: Outcome) -> (r: DispatchResultWithPostInfo)
        requires
            old(self).wf(),
            old(self).pending is Some,
            old(self).stack.depth() == 1,
        ensures
            final(self).wf(),
            final(self).block_weight == old(self).block_weight,
            final(self).config() == old(self).config(),
            exists|out: InternalOutput|
                {
                    &&& #[trigger] Self::completed(*old(self), *final(self), outcome, out)
                    &&& r == dispatched(out, old(self).pending->0.base_weight)
                },
    {
        let base_weight = self.pending.unwrap().base_weight;
        let out = self.complete(outcome);
        into_dispatch(out, base_weight)
    }

    /// Closes the root frame of the dry run of a call with `outcome`, concludes the
    /// execution and reports its result.
    pub fn finish_bare_call(&mut self, outcome: Outcome) -> (r: ContractExecResult)
        requires
            old(self).wf(),
            old(self).pending is Some,
            old(self).stack.depth() == 1,
        ensures
            final(self).wf(),
            final(self).block_weight == old(self).block_weight,
            final(self).config() == old(self).config(),
            exists|out: InternalOutput|
                {
                    &&& #[trigger] Self::completed(*old(self), *final(self), outcome, out)
                    &&& reports_call(r, out, reported_debug(old(self).stack.debug_buffer()))
                },
    {
        let out = self.complete(outcome);
        into_call_report(out, self.stack.debug_message_bytes())
    }

    /// Closes the root frame of the dry run of an instantiation with `outcome`, concludes
    /// the execution and reports its result.
    pub fn finish_bare_instantiate(&mut self, outcome: Outcome) -> (r: ContractInstantiateResult)
        requires
            old(self).wf(),
            old(self).pending matches Some(p) && p.address is Some,
            old(self).stack.depth() == 1,
        ensures
            final(self).wf(),
            final(self).block_weight == old(self).block_weight,
            final(self).config() == old(self).config(),
            exists|out: InternalOutput|
                {
                    &&& #[trigger] Self::completed(*old(self), *final(self), outcome, out)
                    &&& reports_instantiate(
                        r,
                        out,
                        old(self).pending->0.address->0,
                        reported_debug(old(self).stack.debug_buffer()),
                    )
                },
    {
        let address = self.pending.unwrap().address.unwrap();
        let out = self.complete(outcome);
        into_instantiate_report(out, address, self.stack.debug_message_bytes())
    }
}

} // verus!
