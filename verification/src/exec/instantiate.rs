//! Instantiation: a new contract at a derived address, and the frame of its constructor.

use vstd::prelude::*;
use crate::address::{generate_trie_id, trie_id_of, AddressGenerator};
use crate::code_cache::{add_user, is_stale, load, load_weight, one_more};
use crate::config::Config;
use crate::deposit::{Meter, StorageDeposit};
use crate::error::{Error, ErrorOrigin, ExecError};
use crate::exec::call::nested_limit;
use crate::exec::{Frame, Stack, Started};
use crate::gas::GasMeter;
use crate::invariants::{
    conserves, keeps_accounts, keeps_counts, lemma_instantiated_keeps_refcounts,
    lemma_instantiated_keeps_storage_accounted, storage_accounted,
    lemma_same_contracts_and_codes_keep_refcounts, lemma_users_at_most_contracts,
    refcounts_exact,
};
use crate::ledger::{can_transfer, transfer, transferred};
use crate::primitives::{AccountId, Balance, CodeHash, Determinism, ExportedFunction};
use crate::state::{ContractInfo, ContractView, State, StateView};
use crate::weight::Weight;

verus! {

/// The nonce after one more instantiation: one more, and never less. At the greatest number
/// the nonce stays; no contract is instantiated there.
pub open spec fn next_nonce(nonce: u64) -> u64 {
    if nonce == u64::MAX {
        nonce
    } else {
        (nonce + 1) as u64
    }
}

/// Whether `info` is the record of a contract just created at `address` from `code_hash`
/// under `nonce`: its trie id is derived from address and nonce, and its storage is empty.
pub open spec fn is_fresh(info: ContractInfo, address: Seq<u8>, code_hash: CodeHash,
    nonce: u64) -> bool {
    &&& info.trie_id@ == trie_id_of(address, nonce)
    &&& info.code_hash == code_hash
    &&& info.storage_bytes == 0
    &&& info.storage_items == 0
    &&& info.storage_byte_deposit == 0
    &&& info.storage_item_deposit == 0
}

/// The ledger after a contract with the record `info` was created at `address`: the nonce
/// has moved on, the contract is there with empty storage, and its code has one more user.
pub open spec fn instantiated(s: StateView, address: Seq<u8>, info: ContractInfo) -> StateView {
    let counted = StateView { nonce: next_nonce(s.nonce), ..s };
    let created = counted.set_contract(address, ContractView { info, storage: Map::empty() });
    created.set_refcount(info.code_hash@, one_more(s.codes[info.code_hash@].refcount))
}

/// Why an instantiation by `deployer` from `code_hash` at `address` is refused, if it is:
/// the first of the checks that fails, in their order. An instantiation is refused with
/// `DuplicateContract` where the address is taken, and also where the nonce has reached its
/// greatest number, so that no trie could be named that was not named before.
pub open spec fn instantiate_refusal(
    s: StateView,
    config: Config,
    depth: nat,
    gas_left: Weight,
    deployer: Seq<u8>,
    code_hash: Seq<u8>,
    address: Seq<u8>,
    value: Balance,
) -> Option<Error> {
    if depth >= config.max_call_depth() {
        Some(Error::MaxCallDepthReached)
    } else if !s.codes.contains_key(code_hash) {
        Some(Error::CodeNotFound)
    } else if !load_weight(config, s.codes[code_hash].instrumented.len()).all_lte(gas_left) {
        Some(Error::OutOfGas)
    } else if s.codes[code_hash].determinism != Determinism::Deterministic {
        Some(Error::Indeterministic)
    } else if s.contracts.contains_key(address) || s.nonce == u64::MAX {
        Some(Error::DuplicateContract)
    } else if !(value == 0 || can_transfer(
        s,
        deployer,
        address,
        value,
        config.existential_deposit,
        true,
    )) {
        Some(Error::TransferFailed)
    } else {
        None
    }
}

/// What is left of the gas of the deployer once an instantiation was tried: the load of the
/// code is paid for wherever the code was found and could be paid for.
pub open spec fn gas_after_code_load(
    s: StateView,
    config: Config,
    depth: nat,
    gas_left: Weight,
    code_hash: Seq<u8>,
) -> Weight {
    if depth < config.max_call_depth() && s.codes.contains_key(code_hash) && load_weight(
        config,
        s.codes[code_hash].instrumented.len(),
    ).all_lte(gas_left) {
        gas_left.spec_saturating_sub(load_weight(config, s.codes[code_hash].instrumented.len()))
    } else {
        gas_left
    }
}

/// Opens an instantiation: checks the depth, loads the code at the cost of the deployer,
/// derives the address, creates the contract under a new nonce, counts it as a user of its
/// code and moves the value. Hands back the frame of the constructor.
fn open_instantiate<G: AddressGenerator>(
    state: &mut State,
    config: &Config,
    depth: usize,
    parent_gas: &mut GasMeter,
    parent_storage: &Meter,
    deployer: AccountId,
    code_hash: CodeHash,
    value: Balance,
    gas_limit: Weight,
    deposit_limit: Option<Balance>,
    input: Vec<u8>,
    salt: &[u8],
    read_only: bool,
) -> (r: Result<(Frame, bool), Error>)
    requires
        old(state).wf(),
        old(parent_gas).wf(),
    ensures
        final(state).wf(),
        final(state).extends(*old(state)),
        conserves(old(state)@, final(state)@),
        keeps_counts(old(state)@, final(state)@),
        keeps_accounts(old(state)@, final(state)@, *config),
        final(parent_gas).wf(),
        final(parent_gas).limit() == old(parent_gas).limit(),
        final(parent_gas).left().all_lte(old(parent_gas).left()),
        final(parent_gas).lowest() == old(parent_gas).lowest().spec_min(final(parent_gas).left()),
        r.is_err() ==> final(parent_gas).left() == gas_after_code_load(
            old(state)@,
            *config,
            depth as nat,
            old(parent_gas).left(),
            code_hash@,
        ),
        match r {
            Err(e) => {
                &&& instantiate_refusal(
                    old(state)@,
                    *config,
                    depth as nat,
                    old(parent_gas).left(),
                    deployer@,
                    code_hash@,
                    G::address(deployer@, code_hash@, input@, salt@),
                    value,
                ) == Some(e)
                &&& final(state)@ == old(state)@
            },
            Ok((frame, stale)) => {
                let address = G::address(deployer@, code_hash@, input@, salt@);
                let info = final(state)@.contracts[address].info;
                &&& instantiate_refusal(
                    old(state)@,
                    *config,
                    depth as nat,
                    old(parent_gas).left(),
                    deployer@,
                    code_hash@,
                    address,
                    value,
                ) is None
                &&& is_fresh(info, address, code_hash, next_nonce(old(state)@.nonce))
                &&& final(state)@ == transferred(
                    instantiated(old(state)@, address, info),
                    deployer@,
                    address,
                    value,
                )
                &&& frame.account_id@ == address
                &&& frame.caller == deployer
                &&& frame.entry_point == ExportedFunction::Constructor
                &&& frame.code_hash == code_hash
                &&& !frame.delegated
                &&& frame.value_transferred == value
                &&& frame.input matches Some(i) && i@ == input@
                &&& frame.allows_reentry
                &&& frame.read_only == read_only
                &&& frame.checkpoint == old(state).journal_len()
                &&& frame.nested_gas.wf()
                &&& frame.nested_gas.limit() == gas_limit.spec_min(
                    gas_after_code_load(
                        old(state)@,
                        *config,
                        depth as nat,
                        old(parent_gas).left(),
                        code_hash@,
                    ),
                )
                &&& frame.nested_gas.left() == frame.nested_gas.limit()
                &&& frame.nested_gas.lowest() == frame.nested_gas.limit()
                &&& final(parent_gas).left() == gas_after_code_load(
                    old(state)@,
                    *config,
                    depth as nat,
                    old(parent_gas).left(),
                    code_hash@,
                ).spec_saturating_sub(frame.nested_gas.limit())
                &&& frame.nested_storage.total() == StorageDeposit::Charge(0)
                &&& frame.nested_storage.limit() == nested_limit(*parent_storage, deposit_limit)
                &&& stale == is_stale(old(state)@, *config, code_hash@)
            },
        },
{
    if depth > config.call_stack_size as usize {
        return Err(Error::MaxCallDepthReached);
    }
    let code = match load(state, config, &code_hash, parent_gas) {
        Ok(code) => code,
        Err(e) => {
            return Err(e);
        },
    };
    match code.determinism {
        Determinism::Deterministic => {},
        Determinism::AllowIndeterminism => {
            return Err(Error::Indeterministic);
        },
    }
    let address = G::generate_address(&deployer, &code_hash, input.as_slice(), salt);
    if state.contract_info(&address).is_some() || state.nonce() == u64::MAX {
        return Err(Error::DuplicateContract);
    }
    let ghost before = *state;
    let checkpoint = state.checkpoint();
    if !(value == 0 || can_transfer_exec(state, &deployer, &address, value, config)) {
        return Err(Error::TransferFailed);
    }
    let nonce = state.bump_nonce();
    let info = ContractInfo {
        trie_id: generate_trie_id(&address, nonce),
        code_hash,
        storage_bytes: 0,
        storage_items: 0,
        storage_byte_deposit: 0,
        storage_item_deposit: 0,
    };
    state.create_contract(&address, info);
    let counted = add_user(state, &code_hash);
    assert(counted.is_ok());
    let moved = transfer(state, &deployer, &address, value, config.existential_deposit, true);
    assert(moved.is_ok());
    proof {
        if storage_accounted(before@, *config) {
            lemma_instantiated_keeps_storage_accounted(
                before@,
                *config,
                address@,
                info,
                code_hash,
                nonce,
            );
        }
        if refcounts_exact(before@) {
            state.lemma_contracts_fit();
            lemma_users_at_most_contracts(before@, code_hash@);
            assert(instantiated(before@, address@, info).contracts.dom(
                ) =~= before@.contracts.dom().insert(
                address@,
            ));
            lemma_instantiated_keeps_refcounts(before@, address@, info);
            lemma_same_contracts_and_codes_keep_refcounts(
                instantiated(before@, address@, info),
                transferred(instantiated(before@, address@, info), deployer@, address@, value),
            );
        }
        assert(state@.contracts[address@].info == info);
        assert(state@ =~= transferred(
            instantiated(before@, address@, info),
            deployer@,
            address@,
            value,
        ));
    }
    let nested_gas = parent_gas.nested(gas_limit);
    let nested_storage = parent_storage.nested(deposit_limit);
    Ok(
        (
            Frame {
                account_id: address,
                caller: deployer,
                entry_point: ExportedFunction::Constructor,
                code_hash,
                delegated: false,
                value_transferred: value,
                input: Some(input),
                nested_gas,
                nested_storage,
                allows_reentry: true,
                read_only,
                checkpoint,
            },
            code.stale,
        ),
    )
}

impl Stack {
    /// Why an instantiation by the running contract is refused, if it is.
    pub open spec fn sub_instantiate_refusal(
        self,
        code_hash: Seq<u8>,
        address: Seq<u8>,
        value: Balance,
    ) -> Option<Error> {
        let top = self.top();
        let fee = self.config().schedule.host_fn_weights.instantiate;
        if !fee.all_lte(top.nested_gas.left()) {
            Some(Error::OutOfGas)
        } else {
            instantiate_refusal(
                self.ledger(),
                self.config(),
                self.depth(),
                top.nested_gas.left().spec_saturating_sub(fee),
                top.account_id@,
                code_hash,
                address,
                value,
            )
        }
    }

    /// What the running contract has left of its gas once an instantiation was tried, before
    /// a budget is set aside for the constructor: nothing is taken where the fee cannot be
    /// paid; else the fee is taken, and the load of the code where the code was found and
    /// could be paid for.
    pub open spec fn gas_after_instantiate(self, code_hash: Seq<u8>) -> Weight {
        let top = self.top();
        let fee = self.config().schedule.host_fn_weights.instantiate;
        if !fee.all_lte(top.nested_gas.left()) {
            top.nested_gas.left()
        } else {
            gas_after_code_load(
                self.ledger(),
                self.config(),
                self.depth(),
                top.nested_gas.left().spec_saturating_sub(fee),
                code_hash,
            )
        }
    }

    /// Lets the running contract instantiate a contract from the code under `code_hash`.
    ///
    /// On success the new contract exists at the address that `G` derives from the running
    /// contract, the code hash, the input and the salt; the frame of its constructor is on
    /// top, and the ledger at its checkpoint is the ledger before the instantiation. On
    /// failure the ledger is as before, and the caller gets the reason with the origin
    /// `Caller`. Gas that was charged stays charged.
    pub fn instantiate<G: AddressGenerator>(
        &mut self,
        code_hash: CodeHash,
        gas_limit: Weight,
        deposit_limit: Option<Balance>,
        value: Balance,
        input_data: Vec<u8>,
        salt: &[u8],
    ) -> (r: Result<Started, ExecError>)
        requires
            old(self).wf(),
            old(self).depth() > 0,
        ensures
            final(self).wf(),
            final(self).caller_kept(*old(self)),
            final(self).frames()[old(self).depth() - 1].allows_reentry,
            final(self).frames()[old(self).depth() - 1].input == old(self).top().input,
            match r {
                Err(e) => {
                    &&& e.origin == ErrorOrigin::Caller
                    &&& old(self).sub_instantiate_refusal(
                        code_hash@,
                        G::address(old(self).top().account_id@, code_hash@, input_data@, salt@),
                        value,
                    ) == Some(e.error)
                    &&& final(self).ledger() == old(self).ledger()
                    &&& final(self).depth() == old(self).depth()
                    &&& final(self).top().nested_gas.left() == old(self).gas_after_instantiate(
                        code_hash@,
                    )
                },
                Ok(started) => {
                    let address = G::address(
                        old(self).top().account_id@,
                        code_hash@,
                        input_data@,
                        salt@,
                    );
                    let info = final(self).ledger().contracts[address].info;
                    let callee = final(self).top();
                    &&& old(self).sub_instantiate_refusal(code_hash@, address, value) is None
                    &&& final(self).depth() == old(self).depth() + 1
                    &&& is_fresh(info, address, code_hash, next_nonce(old(self).ledger().nonce))
                    &&& final(self).ledger() == transferred(
                        instantiated(old(self).ledger(), address, info),
                        old(self).top().account_id@,
                        address,
                        value,
                    )
                    &&& final(self).state().reverts_to(callee.checkpoint as int)
                        == old(self).ledger()
                    &&& started matches Started::Run { account_id, code_hash: hash, entry_point,
                        stale }
                    &&& account_id@ == address
                    &&& hash == code_hash
                    &&& entry_point == ExportedFunction::Constructor
                    &&& stale == is_stale(old(self).ledger(), old(self).config(), code_hash@)
                    &&& callee.account_id == account_id
                    &&& callee.caller == old(self).top().account_id
                    &&& callee.entry_point == ExportedFunction::Constructor
                    &&& callee.code_hash == code_hash
                    &&& !callee.delegated
                    &&& callee.value_transferred == value
                    &&& callee.input matches Some(i) && i@ == input_data@
                    &&& callee.read_only == old(self).top().read_only
                    &&& callee.checkpoint == old(self).state().journal_len()
                    &&& callee.nested_gas.left() == callee.nested_gas.limit()
                    &&& callee.nested_gas.lowest() == callee.nested_gas.limit()
                    &&& callee.nested_gas.limit() == gas_limit.spec_min(
                        old(self).gas_after_instantiate(code_hash@),
                    )
                    &&& final(self).frames()[old(self).depth() - 1].nested_gas.left() == old(
                        self,
                    ).gas_after_instantiate(code_hash@).spec_saturating_sub(
                        callee.nested_gas.limit(),
                    )
                    &&& callee.nested_storage.total() == StorageDeposit::Charge(0)
                    &&& callee.nested_storage.limit() == nested_limit(
                        old(self).top().nested_storage,
                        deposit_limit,
                    )
                },
            },
    {
        let ghost before = *self;
        let fee = self.config.schedule.host_fn_weights.instantiate;
        let depth = self.frames.len();
        let mut top = self.frames.pop().unwrap();
        let ghost below = self.frames@;
        assert(below =~= before.frames().drop_last());
        match top.nested_gas.charge(fee) {
            Ok(()) => {},
            Err(e) => {
                self.frames.push(top);
                assert(self.frames@ =~= before.frames@);
                return Err(ExecError { error: e, origin: ErrorOrigin::Caller });
            },
        }
        let deployer = top.account_id;
        let read_only = top.read_only;
        let opened = open_instantiate::<G>(
            &mut self.state,
            &self.config,
            depth,
            &mut top.nested_gas,
            &top.nested_storage,
            deployer,
            code_hash,
            value,
            gas_limit,
            deposit_limit,
            input_data,
            salt,
            read_only,
        );
        proof {
            before.state.lemma_reverts_to_now();
        }
        self.frames.push(top);
        assert(self.frames@.subrange(0, before.depth() - 1) =~= below);
        match opened {
            Err(e) => Err(ExecError { error: e, origin: ErrorOrigin::Caller }),
            Ok((frame, stale)) => {
                let started = Started::Run {
                    account_id: frame.account_id,
                    code_hash: frame.code_hash,
                    entry_point: ExportedFunction::Constructor,
                    stale,
                };
                self.frames.push(frame);
                assert(self.frames@.subrange(0, before.depth() - 1) =~= below);
                Ok(started)
            },
        }
    }

    /// Opens the root frame of an instantiation by the origin.
    ///
    /// As `instantiate`, with the origin as the deployer and all the gas and all the storage
    /// deposit of the execution for the constructor.
    pub fn start_instantiate<G: AddressGenerator>(
        &mut self,
        code_hash: CodeHash,
        value: Balance,
        input_data: Vec<u8>,
        salt: &[u8],
    ) -> (r: Result<Started, ExecError>)
        requires
            old(self).wf(),
            old(self).depth() == 0,
        ensures
            final(self).wf(),
            final(self).config() == old(self).config(),
            final(self).origin() == old(self).origin(),
            final(self).deposit() == old(self).deposit(),
            final(self).gas().lowest()
                == old(self).gas().lowest().spec_min(final(self).gas().left()),
            final(self).determinism() == old(self).determinism(),
            final(self).debug_buffer() == old(self).debug_buffer(),
            final(self).state().extends(old(self).state()),
            final(self).gas().limit() == old(self).gas().limit(),
            final(self).gas().left().all_lte(old(self).gas().left()),
            match r {
                Err(e) => {
                    &&& e.origin == ErrorOrigin::Caller
                    &&& instantiate_refusal(
                        old(self).ledger(),
                        old(self).config(),
                        0,
                        old(self).gas().left(),
                        old(self).origin()@,
                        code_hash@,
                        G::address(old(self).origin()@, code_hash@, input_data@, salt@),
                        value,
                    ) == Some(e.error)
                    &&& final(self).ledger() == old(self).ledger()
                    &&& final(self).depth() == 0
                    &&& final(self).gas().left() == gas_after_code_load(
                        old(self).ledger(),
                        old(self).config(),
                        0,
                        old(self).gas().left(),
                        code_hash@,
                    )
                },
                Ok(started) => {
                    let address = G::address(old(self).origin()@, code_hash@, input_data@, salt@);
                    let info = final(self).ledger().contracts[address].info;
                    let callee = final(self).top();
                    &&& instantiate_refusal(
                        old(self).ledger(),
                        old(self).config(),
                        0,
                        old(self).gas().left(),
                        old(self).origin()@,
                        code_hash@,
                        address,
                        value,
                    ) is None
                    &&& final(self).depth() == 1
                    &&& is_fresh(info, address, code_hash, next_nonce(old(self).ledger().nonce))
                    &&& final(self).ledger() == transferred(
                        instantiated(old(self).ledger(), address, info),
                        old(self).origin()@,
                        address,
                        value,
                    )
                    &&& final(self).state().reverts_to(callee.checkpoint as int)
                        == old(self).ledger()
                    &&& started matches Started::Run { account_id, code_hash: hash, entry_point,
                        stale }
                    &&& account_id@ == address
                    &&& hash == code_hash
                    &&& entry_point == ExportedFunction::Constructor
                    &&& stale == is_stale(old(self).ledger(), old(self).config(), code_hash@)
                    &&& callee.account_id == account_id
                    &&& callee.caller == old(self).origin()
                    &&& callee.entry_point == ExportedFunction::Constructor
                    &&& callee.code_hash == code_hash
                    &&& !callee.delegated
                    &&& callee.value_transferred == value
                    &&& callee.input matches Some(i) && i@ == input_data@
                    &&& !callee.read_only
                    &&& callee.checkpoint == old(self).state().journal_len()
                    &&& callee.nested_gas.left() == callee.nested_gas.limit()
                    &&& callee.nested_gas.lowest() == callee.nested_gas.limit()
                    &&& callee.nested_gas.limit() == gas_after_code_load(
                        old(self).ledger(),
                        old(self).config(),
                        0,
                        old(self).gas().left(),
                        code_hash@,
                    )
                    &&& final(self).gas().left() == (Weight { ref_time: 0, proof_size: 0 })
                    &&& callee.nested_storage.total() == StorageDeposit::Charge(0)
                    &&& callee.nested_storage.limit() == nested_limit(old(self).deposit(), None)
                },
            },
    {
        let ghost before = *self;
        let origin = self.origin;
        let gas_limit = self.gas_meter.gas_left();
        let opened = open_instantiate::<G>(
            &mut self.state,
            &self.config,
            0,
            &mut self.gas_meter,
            &self.storage_meter,
            origin,
            code_hash,
            value,
            gas_limit,
            None,
            input_data,
            salt,
            false,
        );
        proof {
            before.state.lemma_reverts_to_now();
        }
        match opened {
            Err(e) => Err(ExecError { error: e, origin: ErrorOrigin::Caller }),
            Ok((frame, stale)) => {
                let started = Started::Run {
                    account_id: frame.account_id,
                    code_hash: frame.code_hash,
                    entry_point: ExportedFunction::Constructor,
                    stale,
                };
                self.frames.push(frame);
                Ok(started)
            },
        }
    }
}

/// Whether `value` can move from `from` to `to`, keeping the sender alive.
fn can_transfer_exec(
    state: &State,
    from: &AccountId,
    to: &AccountId,
    value: Balance,
    config: &Config,
) -> (r: bool)
    requires
        state.wf(),
    ensures
        r == can_transfer(state@, from@, to@, value, config.existential_deposit, true),
{
    let sender = state.balance(from);
    if sender.free < value {
        return false;
    }
    if crate::table::bytes_eq(from.as_slice(), to.as_slice()) {
        return true;
    }
    let receiver = state.balance(to);
    sender.free - value >= config.existential_deposit && receiver.free <= u128::MAX - value
        && receiver.free + value >= config.existential_deposit
}

} // verus!
