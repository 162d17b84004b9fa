//! Calls: from the origin into a contract, and from a running contract into another.

use vstd::prelude::*;
use crate::code_cache::{is_stale, load, load_weight};
use crate::config::Config;
use crate::deposit::{Meter, StorageDeposit};
use crate::error::{Error, ErrorOrigin, ExecError};
use crate::exec::finish::{frame_event, frame_record};
use crate::exec::{reentry_allowed, CallFlags, Frame, Stack, Started};
use crate::gas::GasMeter;
use crate::invariants::{conserves, keeps_accounts, keeps_counts};
use crate::ledger::{can_transfer, transfer, transferred};
use crate::primitives::{to_vec, AccountId, Balance, CodeHash, Determinism, ExportedFunction};
use crate::state::{State, StateView};
use crate::table::bytes_eq;
use crate::weight::{capped, Weight};

verus! {

/// Why a call from `caller` to `to` cannot open a frame or move the value, if it cannot: the
/// first of the checks that fails, in their order.
pub open spec fn call_refusal(
    s: StateView,
    config: Config,
    depth: nat,
    gas_left: Weight,
    caller: Seq<u8>,
    to: Seq<u8>,
    value: Balance,
) -> Option<Error> {
    if depth >= config.max_call_depth() {
        Some(Error::MaxCallDepthReached)
    } else if !s.contracts.contains_key(to) {
        if value == 0 {
            Some(Error::ContractNotFound)
        } else if !can_transfer(s, caller, to, value, config.existential_deposit, true) {
            Some(Error::TransferFailed)
        } else {
            None
        }
    } else {
        let hash = s.contracts[to].info.code_hash@;
        if !s.codes.contains_key(hash) {
            Some(Error::CodeNotFound)
        } else if !load_weight(config, s.codes[hash].instrumented.len()).all_lte(gas_left) {
            Some(Error::OutOfGas)
        } else if s.codes[hash].determinism != Determinism::Deterministic {
            Some(Error::Indeterministic)
        } else if !(value == 0 || can_transfer(
            s,
            caller,
            to,
            value,
            config.existential_deposit,
            true,
        )) {
            Some(Error::TransferFailed)
        } else {
            None
        }
    }
}

/// What is left of the gas of the caller once a call to `to` was tried: the load of the code
/// is paid for wherever the code was found and could be paid for.
pub open spec fn gas_after_load(
    s: StateView,
    config: Config,
    depth: nat,
    gas_left: Weight,
    to: Seq<u8>,
) -> Weight {
    if depth < config.max_call_depth() && s.contracts.contains_key(to) && s.codes.contains_key(
        s.contracts[to].info.code_hash@,
    ) && load_weight(
        config,
        s.codes[s.contracts[to].info.code_hash@].instrumented.len(),
    ).all_lte(gas_left) {
        gas_left.spec_saturating_sub(
            load_weight(config, s.codes[s.contracts[to].info.code_hash@].instrumented.len()),
        )
    } else {
        gas_left
    }
}

/// Opens a call from `caller` to `to`: checks the depth, finds the contract and its code,
/// charges the caller for loading the code, sets the meters of the callee aside and moves the
/// value. Hands back the frame to push; or nothing, where `to` has no code and the call was
/// a plain transfer.
fn open_call(
    state: &mut State,
    config: &Config,
    depth: usize,
    parent_gas: &mut GasMeter,
    parent_storage: &Meter,
    caller: AccountId,
    to: AccountId,
    value: Balance,
    gas_limit: Weight,
    deposit_limit: Option<Balance>,
    input: Vec<u8>,
    read_only: bool,
) -> (r: Result<Option<(Frame, bool)>, Error>)
    requires
        old(state).wf(),
        old(parent_gas).wf(),
    ensures
        final(state).wf(),
        final(state).extends(*old(state)),
        conserves(old(state)@, final(state)@),
        keeps_counts(old(state)@, final(state)@),
        keeps_accounts(old(state)@, final(state)@, *config),
        final(parent_gas).wf(),
        final(parent_gas).limit() == old(parent_gas).limit(),
        final(parent_gas).left().all_lte(old(parent_gas).left()),
        final(parent_gas).lowest() == old(parent_gas).lowest().spec_min(final(parent_gas).left()),
        match r {
            Err(e) => {
                &&& call_refusal(
                    old(state)@,
                    *config,
                    depth as nat,
                    old(parent_gas).left(),
                    caller@,
                    to@,
                    value,
                ) == Some(e)
                &&& final(state)@ == old(state)@
                &&& final(parent_gas).left() == gas_after_load(
                    old(state)@,
                    *config,
                    depth as nat,
                    old(parent_gas).left(),
                    to@,
                )
            },
            Ok(opened) => {
                &&& call_refusal(
                    old(state)@,
                    *config,
                    depth as nat,
                    old(parent_gas).left(),
                    caller@,
                    to@,
                    value,
                ) is None
                &&& final(state)@ == transferred(old(state)@, caller@, to@, value)
                &&& match opened {
                    None => {
                        &&& !old(state)@.contracts.contains_key(to@)
                        &&& *final(parent_gas) == *old(parent_gas)
                    },
                    Some((frame, stale)) => {
                        let entry = old(state)@.codes[old(state)@.contracts[to@].info.code_hash@];
                        &&& old(state)@.contracts.contains_key(to@)
                        &&& frame.account_id == to
                        &&& frame.caller == caller
                        &&& frame.entry_point == ExportedFunction::Call
                        &&& frame.code_hash == old(state)@.contracts[to@].info.code_hash
                        &&& !frame.delegated
                        &&& frame.value_transferred == value
                        &&& frame.input matches Some(i) && i@ == input@
                        &&& frame.allows_reentry
                        &&& frame.read_only == read_only
                        &&& frame.checkpoint == old(state).journal_len()
                        &&& frame.nested_gas.wf()
                        &&& frame.nested_gas.limit() == gas_limit.spec_min(
                            gas_after_load(
                                old(state)@,
                                *config,
                                depth as nat,
                                old(parent_gas).left(),
                                to@,
                            ),
                        )
                        &&& frame.nested_gas.left() == frame.nested_gas.limit()
                        &&& frame.nested_gas.lowest() == frame.nested_gas.limit()
                        &&& final(parent_gas).left() == gas_after_load(
                            old(state)@,
                            *config,
                            depth as nat,
                            old(parent_gas).left(),
                            to@,
                        ).spec_saturating_sub(frame.nested_gas.limit())
                        &&& frame.nested_storage.total() == StorageDeposit::Charge(0)
                        &&& frame.nested_storage.limit() == nested_limit(
                            *parent_storage,
                            deposit_limit,
                        )
                        &&& stale == (entry.instruction_weights_version
                            < config.schedule.instruction_weights_version)
                    },
                }
            },
        },
{
    if depth > config.call_stack_size as usize {
        return Err(Error::MaxCallDepthReached);
    }
    let info = match state.contract_info(&to) {
        Some(info) => info,
        None => {
            if value == 0 {
                return Err(Error::ContractNotFound);
            }
            return match transfer(state, &caller, &to, value, config.existential_deposit, true) {
                Ok(()) => Ok(None),
                Err(e) => Err(e),
            };
        },
    };
    let code = match load(state, config, &info.code_hash, parent_gas) {
        Ok(code) => code,
        Err(e) => {
            return Err(e);
        },
    };
    match code.determinism {
        Determinism::Deterministic => {},
        Determinism::AllowIndeterminism => {
            return Err(Error::Indeterministic);
        },
    }
    let checkpoint = state.checkpoint();
    match transfer(state, &caller, &to, value, config.existential_deposit, true) {
        Ok(()) => {},
        Err(e) => {
            return Err(e);
        },
    }
    let nested_gas = parent_gas.nested(gas_limit);
    let nested_storage = parent_storage.nested(deposit_limit);
    Ok(
        Some(
            (
                Frame {
                    account_id: to,
                    caller,
                    entry_point: ExportedFunction::Call,
                    code_hash: info.code_hash,
                    delegated: false,
                    value_transferred: value,
                    input: Some(input),
                    nested_gas,
                    nested_storage,
                    allows_reentry: true,
                    read_only,
                    checkpoint,
                },
                code.stale,
            ),
        ),
    )
}

/// The limit of the deposit meter of a sub-call.
pub open spec fn nested_limit(parent: Meter, limit: Option<Balance>) -> Balance {
    match limit {
        Some(l) => capped(l as int, parent.total().spec_available(parent.limit()) as int) as u128,
        None => parent.total().spec_available(parent.limit()),
    }
}

/// Whether the top frame of `frames` may call the account `to`: no frame below forbids it,
/// and where the caller calls itself, the call allows re-entry.
pub open spec fn reentry_ok(frames: Seq<Frame>, allow_reentry: bool, to: Seq<u8>) -> bool {
    reentry_allowed(frames.drop_last(), to) && (frames.last().account_id@ == to ==> allow_reentry)
}

impl Stack {
    fn allows_reentry(&self, to: &AccountId) -> (r: bool)
        ensures
            r == reentry_allowed(self.frames(), to@),
    {
        let mut i: usize = 0;
        while i < self.frames.len()
            invariant
                i <= self.frames.len(),
                forall|j: int|
                    0 <= j < i && (#[trigger] self.frames@[j]).account_id@ == to@
                        ==> self.frames@[j].allows_reentry,
            decreases self.frames.len() - i,
        {
            if bytes_eq(self.frames[i].account_id.as_slice(), to.as_slice())
                && !self.frames[i].allows_reentry {
                return false;
            }
            i += 1;
        }
        true
    }

    /// Why a call of the running contract to `to` is refused, if it is: the first of the
    /// checks that fails, in their order.
    pub open spec fn sub_call_refusal(
        self,
        flags: CallFlags,
        to: Seq<u8>,
        value: Balance,
    ) -> Option<Error> {
        let top = self.top();
        let fee = self.config().schedule.host_fn_weights.call;
        if !fee.all_lte(top.nested_gas.left()) {
            Some(Error::OutOfGas)
        } else if (flags.forward_input || flags.clone_input) && top.input is None {
            Some(Error::InputForwarded)
        } else if self.depth() >= self.config().max_call_depth() {
            Some(Error::MaxCallDepthReached)
        } else if !reentry_ok(self.frames(), flags.allow_reentry, to) {
            Some(Error::ReentranceDenied)
        } else {
            call_refusal(
                self.ledger(),
                self.config(),
                self.depth(),
                top.nested_gas.left().spec_saturating_sub(fee),
                top.account_id@,
                to,
                value,
            )
        }
    }

    /// What the caller has left of its gas once a call to `to` was tried, before a budget is
    /// set aside for the callee: nothing is taken where the fee cannot be paid; the fee is
    /// taken in any other case; and the load of the code of the callee is taken where the
    /// call got as far as loading it and the caller could pay for it. With `replace` the
    /// depth of the stack is no obstacle on the way to the load.
    pub open spec fn gas_after_call(self, flags: CallFlags, to: Seq<u8>, replace: bool) -> Weight {
        let top = self.top();
        let fee = self.config().schedule.host_fn_weights.call;
        let paid = top.nested_gas.left().spec_saturating_sub(fee);
        if !fee.all_lte(top.nested_gas.left()) {
            top.nested_gas.left()
        } else if (flags.forward_input || flags.clone_input) && top.input is None {
            paid
        } else if replace {
            if reentry_allowed(self.frames().drop_last(), to) {
                gas_after_load(self.ledger(), self.config(), 0, paid, to)
            } else {
                paid
            }
        } else if reentry_ok(self.frames(), flags.allow_reentry, to) {
            gas_after_load(self.ledger(), self.config(), self.depth(), paid, to)
        } else {
            paid
        }
    }

    /// The input that a call hands to the callee: that of the caller where a flag says so,
    /// else the bytes given.
    pub open spec fn callee_input(self, flags: CallFlags, input_data: Seq<u8>) -> Seq<u8> {
        if flags.forward_input || flags.clone_input {
            self.top().input->0@
        } else {
            input_data
        }
    }

    /// Whether `after` and `r` are what a call of the running contract of `before` to `to`
    /// leaves that opens a frame above the caller.
    ///
    /// On success either a frame for the callee is on top, opened read only if the flags or
    /// the caller say so, and the ledger at its checkpoint is the ledger before the call; or,
    /// where `to` has no code and `value` is not zero, the value has moved and the call is
    /// complete. On failure the ledger is as before, and the caller gets the reason with the
    /// origin `Caller`. Gas that was charged for the call and for loading the code stays
    /// charged.
    pub open spec fn call_pushed(
        before: Stack,
        after: Stack,
        flags: CallFlags,
        to: AccountId,
        gas_limit: Weight,
        deposit_limit: Option<Balance>,
        value: Balance,
        input_data: Seq<u8>,
        r: Result<Started, ExecError>,
    ) -> bool {
        &&& after.config() == before.config()
        &&& after.origin() == before.origin()
        &&& after.gas() == before.gas()
        &&& after.deposit() == before.deposit()
        &&& after.determinism() == before.determinism()
        &&& after.debug_buffer() == before.debug_buffer()
        &&& after.state().extends(before.state())
        &&& after.frames().subrange(0, before.depth() - 1) == before.frames().drop_last()
        &&& after.frames()[before.depth() - 1].same_identity(before.top())
        &&& after.frames()[before.depth() - 1].nested_storage == before.top().nested_storage
        &&& after.frames()[before.depth() - 1].paid_since(before.top())
        &&& match r {
            Err(e) => {
                &&& e.origin == ErrorOrigin::Caller
                &&& before.sub_call_refusal(flags, to@, value) == Some(e.error)
                &&& after.ledger() == before.ledger()
                &&& after.depth() == before.depth()
                &&& after.top().allows_reentry
                &&& after.top().nested_gas.left() == before.gas_after_call(flags, to@, false)
                &&& e.error == Error::OutOfGas
                    && !before.config().schedule.host_fn_weights.call.all_lte(
                    before.top().nested_gas.left(),
                ) ==> after.same(before)
            },
            Ok(started) => {
                &&& before.sub_call_refusal(flags, to@, value) is None
                &&& after.ledger() == transferred(
                    before.ledger(),
                    before.top().account_id@,
                    to@,
                    value,
                )
                &&& match started {
                    Started::Transferred => {
                        &&& !before.ledger().contracts.contains_key(to@)
                        &&& after.depth() == before.depth()
                        &&& after.top().allows_reentry
                        &&& after.top().nested_gas.left()
                            == before.top().nested_gas.left().spec_saturating_sub(
                            before.config().schedule.host_fn_weights.call,
                        )
                    },
                    Started::Run { account_id, code_hash, entry_point, stale } => {
                        let callee = after.top();
                        let info = before.ledger().contracts[to@].info;
                        &&& before.ledger().contracts.contains_key(to@)
                        &&& after.depth() == before.depth() + 1
                        &&& after.frames()[before.depth() - 1].allows_reentry
                            == flags.allow_reentry
                        &&& account_id == to
                        &&& code_hash == info.code_hash
                        &&& entry_point == ExportedFunction::Call
                        &&& stale == is_stale(before.ledger(), before.config(), info.code_hash@)
                        &&& callee.account_id == to
                        &&& callee.caller == before.top().account_id
                        &&& callee.entry_point == ExportedFunction::Call
                        &&& callee.code_hash == info.code_hash
                        &&& !callee.delegated
                        &&& callee.value_transferred == value
                        &&& callee.input matches Some(i) && i@ == before.callee_input(
                            flags,
                            input_data,
                        )
                        &&& callee.allows_reentry
                        &&& callee.read_only == (flags.read_only || before.top().read_only)
                        &&& callee.checkpoint == before.state().journal_len()
                        &&& after.state().reverts_to(callee.checkpoint as int) == before.ledger()
                        &&& callee.nested_gas.left() == callee.nested_gas.limit()
                        &&& callee.nested_gas.lowest() == callee.nested_gas.limit()
                        &&& callee.nested_gas.limit() == gas_limit.spec_min(
                            before.gas_after_call(flags, to@, false),
                        )
                        &&& after.frames()[before.depth() - 1].nested_gas.left()
                            == before.gas_after_call(flags, to@, false).spec_saturating_sub(
                            callee.nested_gas.limit(),
                        )
                        &&& callee.nested_storage.total() == StorageDeposit::Charge(0)
                        &&& callee.nested_storage.limit() == nested_limit(
                            before.top().nested_storage,
                            deposit_limit,
                        )
                    },
                }
            },
        }
    }

    #[verifier::rlimit(60)]
    fn push_call(
        &mut self,
        flags: CallFlags,
        to: AccountId,
        gas_limit: Weight,
        deposit_limit: Option<Balance>,
        value: Balance,
        input_data: Vec<u8>,
    ) -> (r: Result<Started, ExecError>)
        requires
            old(self).wf(),
            old(self).depth() > 0,
        ensures
            final(self).wf(),
            Self::call_pushed(
                *old(self),
                *final(self),
                flags,
                to,
                gas_limit,
                deposit_limit,
                value,
                input_data@,
                r,
            ),
    {
        let ghost before = *self;
        let fee = self.config.schedule.host_fn_weights.call;
        let depth = self.frames.len();
        let mut top = self.frames.pop().unwrap();
        let ghost below = self.frames@;
        assert(below =~= before.frames().drop_last());
        match top.nested_gas.charge(fee) {
            Ok(()) => {},
            Err(e) => {
                self.frames.push(top);
                assert(self.frames@ =~= before.frames@);
                return Err(ExecError { error: e, origin: ErrorOrigin::Caller });
            },
        }
        let input = if flags.forward_input {
            match top.input.take() {
                Some(i) => i,
                None => {
                    top.allows_reentry = true;
                    self.frames.push(top);
                    assert(self.frames@.subrange(0, before.depth() - 1) =~= below);
                    return Err(
                        ExecError { error: Error::InputForwarded, origin: ErrorOrigin::Caller },
                    );
                },
            }
        } else if flags.clone_input {
            match &top.input {
                Some(i) => to_vec(i.as_slice()),
                None => {
                    top.allows_reentry = true;
                    self.frames.push(top);
                    assert(self.frames@.subrange(0, before.depth() - 1) =~= below);
                    return Err(
                        ExecError { error: Error::InputForwarded, origin: ErrorOrigin::Caller },
                    );
                },
            }
        } else {
            input_data
        };
        if depth > self.config.call_stack_size as usize {
            top.allows_reentry = true;
            self.frames.push(top);
            assert(self.frames@.subrange(0, before.depth() - 1) =~= below);
            return Err(
                ExecError { error: Error::MaxCallDepthReached, origin: ErrorOrigin::Caller },
            );
        }
        let below_allows = self.allows_reentry(&to);
        if !below_allows || (bytes_eq(top.account_id.as_slice(), to.as_slice())
            && !flags.allow_reentry) {
            top.allows_reentry = true;
            self.frames.push(top);
            assert(self.frames@.subrange(0, before.depth() - 1) =~= below);
            return Err(ExecError { error: Error::ReentranceDenied, origin: ErrorOrigin::Caller });
        }
        let read_only = flags.read_only || top.read_only;
        let caller = top.account_id;
        let opened = open_call(
            &mut self.state,
            &self.config,
            depth,
            &mut top.nested_gas,
            &top.nested_storage,
            caller,
            to,
            value,
            gas_limit,
            deposit_limit,
            input,
            read_only,
        );
        proof {
            before.state.lemma_reverts_to_now();
        }
        match opened {
            Err(e) => {
                top.allows_reentry = true;
                self.frames.push(top);
                assert(self.frames@.subrange(0, before.depth() - 1) =~= below);
                Err(ExecError { error: e, origin: ErrorOrigin::Caller })
            },
            Ok(None) => {
                top.allows_reentry = true;
                self.frames.push(top);
                assert(self.frames@.subrange(0, before.depth() - 1) =~= below);
                Ok(Started::Transferred)
            },
            Ok(Some((frame, stale))) => {
                top.allows_reentry = flags.allow_reentry;
                let started = Started::Run {
                    account_id: frame.account_id,
                    code_hash: frame.code_hash,
                    entry_point: ExportedFunction::Call,
                    stale,
                };
                self.frames.push(top);
                self.frames.push(frame);
                assert(self.frames@.subrange(0, before.depth() - 1) =~= below);
                Ok(started)
            },
        }
    }

    /// Why a tail call of the running contract to `to` is refused, if it is: the first of
    /// the checks that fails, in their order. The depth of the stack is no reason: the frame
    /// of the callee takes the place of the frame of the caller.
    pub open spec fn tail_call_refusal(
        self,
        flags: CallFlags,
        to: Seq<u8>,
        value: Balance,
    ) -> Option<Error> {
        let top = self.top();
        let fee = self.config().schedule.host_fn_weights.call;
        if !fee.all_lte(top.nested_gas.left()) {
            Some(Error::OutOfGas)
        } else if (flags.forward_input || flags.clone_input) && top.input is None {
            Some(Error::InputForwarded)
        } else if !reentry_allowed(self.frames().drop_last(), to) {
            Some(Error::ReentranceDenied)
        } else {
            call_refusal(
                self.ledger(),
                self.config(),
                0,
                top.nested_gas.left().spec_saturating_sub(fee),
                top.account_id@,
                to,
                value,
            )
        }
    }

    /// Whether `after` and `r` are what a tail call of the running contract of `before` to
    /// `to` leaves.
    ///
    /// On success the frame of the callee is on top in place of the frame of the caller, at
    /// the same depth and with the checkpoint, the gas and the storage deposit of the caller;
    /// the caller has deposited its event, and what the callee returns is what the caller
    /// returns. Where `to` has no code and `value` is not zero, the value has moved and the
    /// caller is still on top: it has to end, with empty output. On failure the ledger is as
    /// before, and the caller gets the reason with the origin `Caller` and goes on.
    pub open spec fn call_replaced(
        before: Stack,
        after: Stack,
        flags: CallFlags,
        to: AccountId,
        value: Balance,
        input_data: Seq<u8>,
        r: Result<Started, ExecError>,
    ) -> bool {
        let caller = before.top();
        let moved = transferred(before.ledger(), caller.account_id@, to@, value);
        &&& after.config() == before.config()
        &&& after.origin() == before.origin()
        &&& after.gas() == before.gas()
        &&& after.deposit() == before.deposit()
        &&& after.determinism() == before.determinism()
        &&& after.debug_buffer() == before.debug_buffer()
        &&& after.state().extends(before.state())
        &&& after.depth() == before.depth()
        &&& after.frames().drop_last() == before.frames().drop_last()
        &&& after.top().checkpoint == caller.checkpoint
        &&& after.top().allows_reentry
        &&& match r {
            Err(e) => {
                &&& e.origin == ErrorOrigin::Caller
                &&& before.tail_call_refusal(flags, to@, value) == Some(e.error)
                &&& after.ledger() == before.ledger()
                &&& after.top().same_identity(caller)
                &&& after.top().nested_storage == caller.nested_storage
                &&& after.top().paid_since(caller)
                &&& after.top().nested_gas.left() == before.gas_after_call(flags, to@, true)
            },
            Ok(Started::Transferred) => {
                &&& before.tail_call_refusal(flags, to@, value) is None
                &&& !before.ledger().contracts.contains_key(to@)
                &&& after.ledger() == moved
                &&& after.top().same_identity(caller)
                &&& after.top().nested_storage == caller.nested_storage
                &&& after.top().paid_since(caller)
                &&& after.top().nested_gas.left() == caller.nested_gas.left().spec_saturating_sub(
                    before.config().schedule.host_fn_weights.call,
                )
            },
            Ok(Started::Run { account_id, code_hash, entry_point, stale }) => {
                let callee = after.top();
                let info = before.ledger().contracts[to@].info;
                &&& before.tail_call_refusal(flags, to@, value) is None
                &&& before.ledger().contracts.contains_key(to@)
                &&& after.ledger() == (StateView {
                    events: moved.events.push(frame_event(caller)),
                    ..moved
                })
                &&& after.state().reverts_to(callee.checkpoint as int) == before.state().reverts_to(
                    caller.checkpoint as int,
                )
                &&& account_id == to
                &&& code_hash == info.code_hash
                &&& entry_point == ExportedFunction::Call
                &&& stale == is_stale(before.ledger(), before.config(), info.code_hash@)
                &&& callee.account_id == to
                &&& callee.caller == caller.account_id
                &&& callee.entry_point == ExportedFunction::Call
                &&& callee.code_hash == info.code_hash
                &&& !callee.delegated
                &&& callee.value_transferred == value
                &&& callee.input matches Some(i) && i@ == before.callee_input(flags, input_data)
                &&& callee.read_only == (flags.read_only || caller.read_only)
                &&& callee.nested_gas.wf()
                &&& callee.nested_gas.left() == callee.nested_gas.limit()
                &&& callee.nested_gas.lowest() == callee.nested_gas.limit()
                &&& callee.nested_gas.limit() == gas_after_load(
                    before.ledger(),
                    before.config(),
                    0,
                    caller.nested_gas.left().spec_saturating_sub(
                        before.config().schedule.host_fn_weights.call,
                    ),
                    to@,
                )
                &&& callee.nested_storage == caller.nested_storage
            },
        }
    }

    #[verifier::rlimit(60)]
    fn tail_call(&mut self, flags: CallFlags, to: AccountId, value: Balance,
        input_data: Vec<u8>) -> (r:
        Result<Started, ExecError>)
        requires
            old(self).wf(),
            old(self).depth() > 0,
        ensures
            final(self).wf(),
            Self::call_replaced(*old(self), *final(self), flags, to, value, input_data@, r),
    {
        let ghost before = *self;
        let fee = self.config.schedule.host_fn_weights.call;
        let mut top = self.frames.pop().unwrap();
        let ghost below = self.frames@;
        assert(below =~= before.frames().drop_last());
        match top.nested_gas.charge(fee) {
            Ok(()) => {},
            Err(e) => {
                self.frames.push(top);
                assert(self.frames@ =~= before.frames@);
                return Err(ExecError { error: e, origin: ErrorOrigin::Caller });
            },
        }
        let input = if flags.forward_input {
            match top.input.take() {
                Some(i) => i,
                None => {
                    self.frames.push(top);
                    assert(self.frames@.drop_last() =~= below);
                    return Err(
                        ExecError { error: Error::InputForwarded, origin: ErrorOrigin::Caller },
                    );
                },
            }
        } else if flags.clone_input {
            match &top.input {
                Some(i) => to_vec(i.as_slice()),
                None => {
                    self.frames.push(top);
                    assert(self.frames@.drop_last() =~= below);
                    return Err(
                        ExecError { error: Error::InputForwarded, origin: ErrorOrigin::Caller },
                    );
                },
            }
        } else {
            input_data
        };
        if !self.allows_reentry(&to) {
            self.frames.push(top);
            assert(self.frames@.drop_last() =~= below);
            return Err(ExecError { error: Error::ReentranceDenied, origin: ErrorOrigin::Caller });
        }
        let read_only = flags.read_only || top.read_only;
        let caller = top.account_id;
        let all_gas = top.nested_gas.gas_left();
        let opened = open_call(
            &mut self.state,
            &self.config,
            0,
            &mut top.nested_gas,
            &top.nested_storage,
            caller,
            to,
            value,
            all_gas,
            None,
            input,
            read_only,
        );
        match opened {
            Err(e) => {
                self.frames.push(top);
                assert(self.frames@.drop_last() =~= below);
                Err(ExecError { error: e, origin: ErrorOrigin::Caller })
            },
            Ok(None) => {
                self.frames.push(top);
                assert(self.frames@.drop_last() =~= below);
                Ok(Started::Transferred)
            },
            Ok(Some((frame, stale))) => {
                let mut frame = frame;
                frame.checkpoint = top.checkpoint;
                frame.nested_storage = top.nested_storage;
                let started = Started::Run {
                    account_id: frame.account_id,
                    code_hash: frame.code_hash,
                    entry_point: ExportedFunction::Call,
                    stale,
                };
                self.state.deposit_event(frame_record(&top));
                self.frames.push(frame);
                assert(self.frames@.drop_last() =~= below);
                Ok(started)
            },
        }
    }

    /// Lets the running contract call the account `to`.
    ///
    /// Without the flag `tail_call` the frame of the callee is opened above the caller, as
    /// `call_pushed` says. With it the frame of the callee takes the place of the frame of
    /// the caller, as `call_replaced` says; `gas_limit` and `deposit_limit` then have no
    /// meaning, because the callee takes over all that the caller has.
    pub fn call(
        &mut self,
        flags: CallFlags,
        to: AccountId,
        gas_limit: Weight,
        deposit_limit: Option<Balance>,
        value: Balance,
        input_data: Vec<u8>,
    ) -> (r: Result<Started, ExecError>)
        requires
            old(self).wf(),
            old(self).depth() > 0,
        ensures
            final(self).wf(),
            if flags.tail_call {
                Self::call_replaced(*old(self), *final(self), flags, to, value, input_data@, r)
            } else {
                Self::call_pushed(
                    *old(self),
                    *final(self),
                    flags,
                    to,
                    gas_limit,
                    deposit_limit,
                    value,
                    input_data@,
                    r,
                )
            },
    {
        if flags.tail_call {
            self.tail_call(flags, to, value, input_data)
        } else {
            self.push_call(flags, to, gas_limit, deposit_limit, value, input_data)
        }
    }

    /// Opens the root frame of a call by the origin to `dest`.
    ///
    /// As `call`, with the origin as the caller and all the gas and all the storage deposit
    /// of the execution for the callee.
    pub fn start_call(&mut self, dest: AccountId, value: Balance, input_data: Vec<u8>) -> (r:
        Result<Started, ExecError>)
        requires
            old(self).wf(),
            old(self).depth() == 0,
        ensures
            final(self).wf(),
            final(self).config() == old(self).config(),
            final(self).origin() == old(self).origin(),
            final(self).deposit() == old(self).deposit(),
            final(self).gas().lowest()
                == old(self).gas().lowest().spec_min(final(self).gas().left()),
            final(self).determinism() == old(self).determinism(),
            final(self).debug_buffer() == old(self).debug_buffer(),
            final(self).state().extends(old(self).state()),
            final(self).gas().limit() == old(self).gas().limit(),
            final(self).gas().left().all_lte(old(self).gas().left()),
            match r {
                Err(e) => {
                    &&& e.origin == ErrorOrigin::Caller
                    &&& call_refusal(
                        old(self).ledger(),
                        old(self).config(),
                        0,
                        old(self).gas().left(),
                        old(self).origin()@,
                        dest@,
                        value,
                    ) == Some(e.error)
                    &&& final(self).ledger() == old(self).ledger()
                    &&& final(self).depth() == 0
                    &&& final(self).gas().left() == gas_after_load(
                        old(self).ledger(),
                        old(self).config(),
                        0,
                        old(self).gas().left(),
                        dest@,
                    )
                },
                Ok(started) => {
                    &&& call_refusal(
                        old(self).ledger(),
                        old(self).config(),
                        0,
                        old(self).gas().left(),
                        old(self).origin()@,
                        dest@,
                        value,
                    ) is None
                    &&& final(self).ledger() == transferred(
                        old(self).ledger(),
                        old(self).origin()@,
                        dest@,
                        value,
                    )
                    &&& match started {
                        Started::Transferred => {
                            &&& !old(self).ledger().contracts.contains_key(dest@)
                            &&& final(self).depth() == 0
                            &&& final(self).gas() == old(self).gas()
                        },
                        Started::Run { account_id, code_hash, entry_point, stale } => {
                            let callee = final(self).top();
                            let info = old(self).ledger().contracts[dest@].info;
                            &&& old(self).ledger().contracts.contains_key(dest@)
                            &&& final(self).depth() == 1
                            &&& account_id == dest
                            &&& code_hash == info.code_hash
                            &&& entry_point == ExportedFunction::Call
                            &&& stale == is_stale(old(self).ledger(), old(self).config(),
                                info.code_hash@)
                            &&& callee.account_id == dest
                            &&& callee.caller == old(self).origin()
                            &&& callee.entry_point == ExportedFunction::Call
                            &&& callee.code_hash == info.code_hash
                            &&& !callee.delegated
                            &&& callee.value_transferred == value
                            &&& callee.input matches Some(i) && i@ == input_data@
                            &&& !callee.read_only
                            &&& callee.checkpoint == old(self).state().journal_len()
                            &&& final(self).state().reverts_to(callee.checkpoint as int)
                                == old(self).ledger()
                            &&& callee.nested_gas.left() == callee.nested_gas.limit()
                            &&& callee.nested_gas.lowest() == callee.nested_gas.limit()
                            &&& callee.nested_gas.limit() == gas_after_load(
                                old(self).ledger(),
                                old(self).config(),
                                0,
                                old(self).gas().left(),
                                dest@,
                            )
                            &&& final(self).gas().left() == (Weight { ref_time: 0, proof_size: 0 })
                            &&& callee.nested_storage.total() == StorageDeposit::Charge(0)
                            &&& callee.nested_storage.limit() == nested_limit(
                                old(self).deposit(),
                                None,
                            )
                        },
                    }
                },
            },
    {
        let ghost before = *self;
        let origin = self.origin;
        let gas_limit = self.gas_meter.gas_left();
        let opened = open_call(
            &mut self.state,
            &self.config,
            0,
            &mut self.gas_meter,
            &self.storage_meter,
            origin,
            dest,
            value,
            gas_limit,
            None,
            input_data,
            false,
        );
        proof {
            before.state.lemma_reverts_to_now();
        }
        match opened {
            Err(e) => Err(ExecError { error: e, origin: ErrorOrigin::Caller }),
            Ok(None) => Ok(Started::Transferred),
            Ok(Some((frame, stale))) => {
                let started = Started::Run {
                    account_id: frame.account_id,
                    code_hash: frame.code_hash,
                    entry_point: ExportedFunction::Call,
                    stale,
                };
                self.frames.push(frame);
                Ok(started)
            },
        }
    }

    /// Why a delegate call of the running contract into the code under `code_hash` is
    /// refused, if it is: the first of the checks that fails, in their order. Code that may
    /// be indeterministic is refused unless the execution as a whole allows it.
    pub open spec fn delegate_refusal(self, code_hash: Seq<u8>) -> Option<Error> {
        let top = self.top();
        let s = self.ledger();
        let fee = self.config().schedule.host_fn_weights.delegate_call;
        if !fee.all_lte(top.nested_gas.left()) {
            Some(Error::OutOfGas)
        } else if self.depth() >= self.config().max_call_depth() {
            Some(Error::MaxCallDepthReached)
        } else if !s.codes.contains_key(code_hash) {
            Some(Error::CodeNotFound)
        } else if !load_weight(self.config(), s.codes[code_hash].instrumented.len()).all_lte(
            top.nested_gas.left().spec_saturating_sub(fee),
        ) {
            Some(Error::OutOfGas)
        } else if s.codes[code_hash].determinism != Determinism::Deterministic
            && self.determinism() == Determinism::Deterministic {
            Some(Error::Indeterministic)
        } else {
            None
        }
    }

    /// What the running contract has left of its gas once a delegate call was tried, before
    /// the rest is handed to the callee: nothing is taken where the fee cannot be paid; else
    /// the fee is taken, and the load of the code where the code was found and could be paid
    /// for.
    pub open spec fn gas_after_delegate(self, code_hash: Seq<u8>) -> Weight {
        let top = self.top();
        let s = self.ledger();
        let fee = self.config().schedule.host_fn_weights.delegate_call;
        let paid = top.nested_gas.left().spec_saturating_sub(fee);
        if !fee.all_lte(top.nested_gas.left()) {
            top.nested_gas.left()
        } else if self.depth() < self.config().max_call_depth() && s.codes.contains_key(code_hash)
            && load_weight(self.config(), s.codes[code_hash].instrumented.len()).all_lte(paid) {
            paid.spec_saturating_sub(
                load_weight(self.config(), s.codes[code_hash].instrumented.len()),
            )
        } else {
            paid
        }
    }

    /// Lets the running contract run the code under `code_hash` as its own: the new frame
    /// acts on the account of the caller, for the caller of the caller, with the value that
    /// came with the caller, and gets all the gas and storage deposit that the caller has
    /// left. The ledger does not change.
    ///
    /// On failure the caller gets the reason with the origin `Caller`. Gas that was charged
    /// stays charged.
    pub fn delegate_call(&mut self, code_hash: CodeHash, input_data: Vec<u8>) -> (r: Result<
        Started,
        ExecError,
    >)
        requires
            old(self).wf(),
            old(self).depth() > 0,
        ensures
            final(self).wf(),
            final(self).caller_kept(*old(self)),
            final(self).ledger() == old(self).ledger(),
            final(self).frames()[old(self).depth() - 1].allows_reentry,
            final(self).frames()[old(self).depth() - 1].input == old(self).top().input,
            match r {
                Err(e) => {
                    &&& e.origin == ErrorOrigin::Caller
                    &&& old(self).delegate_refusal(code_hash@) == Some(e.error)
                    &&& final(self).depth() == old(self).depth()
                    &&& final(self).top().nested_gas.left() == old(self).gas_after_delegate(
                        code_hash@,
                    )
                },
                Ok(started) => {
                    let callee = final(self).top();
                    let caller = old(self).top();
                    &&& old(self).delegate_refusal(code_hash@) is None
                    &&& final(self).depth() == old(self).depth() + 1
                    &&& final(self).frames()[old(self).depth() - 1].nested_gas.left() == (Weight {
                        ref_time: 0,
                        proof_size: 0,
                    })
                    &&& started matches Started::Run { account_id, code_hash: hash, entry_point,
                        stale }
                    &&& account_id == caller.account_id
                    &&& hash == code_hash
                    &&& entry_point == ExportedFunction::Call
                    &&& stale == is_stale(old(self).ledger(), old(self).config(), code_hash@)
                    &&& callee.account_id == caller.account_id
                    &&& callee.caller == caller.caller
                    &&& callee.entry_point == ExportedFunction::Call
                    &&& callee.code_hash == code_hash
                    &&& callee.delegated
                    &&& callee.value_transferred == caller.value_transferred
                    &&& callee.input matches Some(i) && i@ == input_data@
                    &&& callee.allows_reentry
                    &&& callee.read_only == caller.read_only
                    &&& callee.checkpoint == old(self).state().journal_len()
                    &&& final(self).state().reverts_to(callee.checkpoint as int)
                        == old(self).ledger()
                    &&& callee.nested_gas.left() == callee.nested_gas.limit()
                    &&& callee.nested_gas.lowest() == callee.nested_gas.limit()
                    &&& callee.nested_gas.limit() == caller.nested_gas.left().spec_saturating_sub(
                        old(self).config().schedule.host_fn_weights.delegate_call,
                    ).spec_saturating_sub(
                        load_weight(
                            old(self).config(),
                            old(self).ledger().codes[code_hash@].instrumented.len(),
                        ),
                    )
                    &&& callee.nested_storage.total() == StorageDeposit::Charge(0)
                    &&& callee.nested_storage.limit() == nested_limit(caller.nested_storage, None)
                },
            },
    {
        let ghost before = *self;
        let fee = self.config.schedule.host_fn_weights.delegate_call;
        let depth = self.frames.len();
        let mut top = self.frames.pop().unwrap();
        let ghost below = self.frames@;
        assert(below =~= before.frames().drop_last());
        match top.nested_gas.charge(fee) {
            Ok(()) => {},
            Err(e) => {
                self.frames.push(top);
                assert(self.frames@ =~= before.frames@);
                return Err(ExecError { error: e, origin: ErrorOrigin::Caller });
            },
        }
        if depth > self.config.call_stack_size as usize {
            self.frames.push(top);
            assert(self.frames@.subrange(0, before.depth() - 1) =~= below);
            return Err(
                ExecError { error: Error::MaxCallDepthReached, origin: ErrorOrigin::Caller },
            );
        }
        let code = match load(&self.state, &self.config, &code_hash, &mut top.nested_gas) {
            Ok(code) => code,
            Err(e) => {
                self.frames.push(top);
                assert(self.frames@.subrange(0, before.depth() - 1) =~= below);
                return Err(ExecError { error: e, origin: ErrorOrigin::Caller });
            },
        };
        let allowed = match (code.determinism, self.determinism) {
            (Determinism::AllowIndeterminism, Determinism::Deterministic) => false,
            _ => true,
        };
        if !allowed {
            self.frames.push(top);
            assert(self.frames@.subrange(0, before.depth() - 1) =~= below);
            return Err(ExecError { error: Error::Indeterministic, origin: ErrorOrigin::Caller });
        }
        let checkpoint = self.state.checkpoint();
        let all_gas = top.nested_gas.gas_left();
        let frame = Frame {
            account_id: top.account_id,
            caller: top.caller,
            entry_point: ExportedFunction::Call,
            code_hash,
            delegated: true,
            value_transferred: top.value_transferred,
            input: Some(input_data),
            nested_gas: top.nested_gas.nested(all_gas),
            nested_storage: top.nested_storage.nested(None),
            allows_reentry: true,
            read_only: top.read_only,
            checkpoint,
        };
        let started = Started::Run {
            account_id: frame.account_id,
            code_hash,
            entry_point: ExportedFunction::Call,
            stale: code.stale,
        };
        self.frames.push(top);
        self.frames.push(frame);
        assert(self.frames@.subrange(0, before.depth() - 1) =~= below);
        Ok(started)
    }
}

} // verus!
