use pallet_contracts::address::{hash_code, DefaultAddressGenerator};
use pallet_contracts::config::{Config, DispatchWeights, HostFnWeights, Limits, Schedule};
use pallet_contracts::deposit::StorageDeposit;
use pallet_contracts::error::{DispatchError, Error, ErrorOrigin, ExecError};
use pallet_contracts::event::Event;
use pallet_contracts::exec::{CallFlags, Outcome, Started};
use pallet_contracts::pallet::Pallet;
use pallet_contracts::primitives::{Code, ContractAccessError, Determinism, Origin};
use pallet_contracts::recount::is_exact;
use pallet_contracts::run::Progress;
use pallet_contracts::state::{AccountData, CodeEntry, ContractInfo, State};
use pallet_contracts::storage::{StorageKey, WriteOutcome};
use pallet_contracts::weight::Weight;

const ALICE: [u8; 32] = [1u8; 32];
const BOB: [u8; 32] = [2u8; 32];
const CHARLIE: [u8; 32] = [3u8; 32];

fn w(ref_time: u64, proof_size: u64) -> Weight {
    Weight::from_parts(ref_time, proof_size)
}

fn gas() -> Weight {
    w(1_000_000, 1_000_000)
}

fn config() -> Config {
    let one = w(1, 0);
    let none = w(0, 0);
    Config {
        schedule: Schedule {
            limits: Limits { event_topics: 2, memory_pages: 16, subject_len: 4, payload_len: 512 },
            instruction_weights_version: 1,
            host_fn_weights: HostFnWeights {
                query: one,
                input: one,
                per_byte: none,
                transfer: one,
                call: one,
                delegate_call: one,
                instantiate: one,
                terminate: one,
                set_storage: one,
                set_storage_per_byte: none,
                clear_storage: one,
                get_storage: one,
                contains_storage: one,
                take_storage: one,
                deposit_event: one,
                deposit_event_per_topic: none,
                random: one,
                debug_message: one,
                set_code_hash: one,
            },
            code_load_per_byte: one,
            reinstrument_per_byte: one,
        },
        weights: DispatchWeights {
            call: w(10, 0),
            instantiate: w(20, 0),
            instantiate_per_input_byte: w(1, 0),
            instantiate_per_salt_byte: w(1, 0),
            instantiate_with_code: w(30, 0),
            instantiate_with_code_per_code_byte: w(1, 0),
            upload_code: w(5, 0),
            upload_code_per_byte: w(1, 0),
            remove_code: w(5, 0),
            set_code: w(5, 0),
            on_process_deletion_queue_batch: none,
            on_initialize_per_queue_item: none,
            on_initialize_per_trie_key: one,
        },
        call_stack_size: 2,
        deletion_queue_depth: 3,
        deletion_weight_limit: w(15, 0),
        deposit_per_byte: 1,
        deposit_per_item: 2,
        max_code_len: 64,
        max_storage_key_len: 8,
        max_debug_buffer_len: 300,
        unsafe_unstable_interface: false,
        existential_deposit: 10,
        max_block_weight: w(1_000, 1_000),
        chain_extension: false,
    }
}

fn code() -> Vec<u8> {
    vec![0u8, 1, 2]
}

fn other_code() -> Vec<u8> {
    vec![9u8, 9, 9, 9]
}

fn funded() -> Pallet {
    let mut p = Pallet::new(config());
    p.endow(&ALICE, 1_000_000);
    p.endow(&BOB, 1_000_000);
    p
}

fn with_code() -> Pallet {
    let mut p = funded();
    let uploaded = p.upload_code(
        Origin::Signed(ALICE),
        code(),
        Some(code()),
        None,
        Determinism::Deterministic,
    );
    assert_eq!(uploaded, Ok(()));
    p
}

fn returned() -> Outcome {
    Outcome::Returned { flags: 0, data: vec![] }
}

fn reverted() -> Outcome {
    Outcome::Returned { flags: 1, data: vec![7] }
}

fn deploy(p: &mut Pallet, salt: u8, value: u128) -> [u8; 32] {
    let started = p.instantiate::<DefaultAddressGenerator>(
        Origin::Signed(ALICE),
        value,
        gas(),
        None,
        hash_code(&code()),
        vec![],
        vec![salt],
    );
    match started {
        Progress::Run { account_id, .. } => {
            let result = p.finish_dispatch(returned());
            assert!(result.is_ok(), "constructor failed: {:?}", result);
            account_id
        },
        Progress::Done(result) => panic!("instantiation refused: {:?}", result),
    }
}

fn start_call(p: &mut Pallet, dest: [u8; 32]) {
    match p.call(Origin::Signed(ALICE), dest, 0, gas(), None, vec![]) {
        Progress::Run { account_id, .. } => assert_eq!(account_id, dest),
        Progress::Done(result) => panic!("call refused: {:?}", result),
    }
}

fn sub_call(p: &mut Pallet, flags: CallFlags, to: [u8; 32]) -> Result<Started, ExecError> {
    p.stack.call(flags, to, w(10_000, 10_000), None, 0, vec![])
}

fn refusal(error: Error) -> ExecError {
    ExecError { error, origin: ErrorOrigin::Caller }
}

fn var(key: &[u8]) -> StorageKey {
    StorageKey::Var(key.to_vec())
}

fn dispatch_error(progress: Progress<pallet_contracts::gas::DispatchResultWithPostInfo>) -> DispatchError {
    match progress {
        Progress::Done(Err((_, e))) => e,
        Progress::Done(Ok(_)) => panic!("succeeded"),
        Progress::Run { .. } => panic!("started"),
    }
}

// Uploading code.

#[test]
fn upload_reserves_the_code_deposit_once() {
    let mut p = with_code();
    let hash = hash_code(&code());
    let deposit = 1 * 3 + 2 * 3;
    assert_eq!(p.stack.ledger_ref().balance(&ALICE).reserved, deposit);
    assert_eq!(p.stack.ledger_ref().balance(&ALICE).free, 1_000_000 - deposit);
    let entry = p.stack.ledger_ref().code(&hash).unwrap();
    assert_eq!(entry.refcount, 0);
    assert_eq!(entry.owner, ALICE);
    assert_eq!(entry.deposit, deposit);
    assert_eq!(entry.pristine, code());
    assert_eq!(p.stack.ledger_ref().events().len(), 1);
    assert_eq!(p.stack.ledger_ref().events()[0].event, Event::CodeStored { code_hash: hash });

    let again = p.upload_code(
        Origin::Signed(BOB),
        code(),
        Some(code()),
        None,
        Determinism::Deterministic,
    );
    assert_eq!(again, Ok(()));
    assert_eq!(p.stack.ledger_ref().balance(&ALICE).reserved, deposit);
    assert_eq!(p.stack.ledger_ref().balance(&BOB).reserved, 0);
    assert_eq!(p.stack.ledger_ref().code(&hash).unwrap().owner, ALICE);
    assert_eq!(p.stack.ledger_ref().events().len(), 1);
}

#[test]
fn second_upload_renews_a_stale_instrumentation() {
    let hash = hash_code(&code());
    let mut ledger = State::new();
    ledger.set_balance(&ALICE, AccountData { free: 1_000, reserved: 9 });
    ledger.set_code(
        &hash,
        Some(CodeEntry {
            pristine: code(),
            instrumented: code(),
            instruction_weights_version: 0,
            owner: ALICE,
            deposit: 9,
            refcount: 0,
            determinism: Determinism::Deterministic,
        }),
    );
    assert!(is_exact(&ledger, &config()));
    let mut p = Pallet::with_ledger(config(), ledger);
    p.endow(&BOB, 1_000);
    assert_eq!(
        p.upload_code(Origin::Signed(BOB), code(), Some(vec![5, 5]), None, Determinism::Deterministic),
        Ok(())
    );
    let entry = p.stack.ledger_ref().code(&hash).unwrap();
    assert_eq!(entry.instruction_weights_version, 1);
    assert_eq!(entry.instrumented, vec![5, 5]);
    assert_eq!(entry.owner, ALICE);
    assert_eq!(entry.refcount, 0);
    assert_eq!(p.stack.ledger_ref().balance(&BOB).reserved, 0);
    assert_eq!(p.stack.ledger_ref().balance(&ALICE).reserved, 9);
}

#[test]
fn upload_errors() {
    let mut p = funded();
    let det = Determinism::Deterministic;
    assert_eq!(
        p.upload_code(Origin::Root, code(), Some(code()), None, det),
        Err(DispatchError::BadOrigin)
    );
    assert_eq!(
        p.upload_code(Origin::Unsigned, code(), Some(code()), None, det),
        Err(DispatchError::BadOrigin)
    );
    assert_eq!(
        p.upload_code(Origin::Signed(ALICE), code(), None, None, det),
        Err(DispatchError::Contract(Error::CodeRejected))
    );
    assert_eq!(
        p.upload_code(Origin::Signed(ALICE), vec![0; 65], Some(code()), None, det),
        Err(DispatchError::Contract(Error::CodeTooLarge))
    );
    assert_eq!(
        p.upload_code(Origin::Signed(ALICE), code(), Some(vec![0; 65]), None, det),
        Err(DispatchError::Contract(Error::CodeTooLarge))
    );
    assert_eq!(
        p.upload_code(Origin::Signed(ALICE), code(), Some(code()), Some(8), det),
        Err(DispatchError::Contract(Error::StorageDepositLimitExhausted))
    );
    assert_eq!(
        p.upload_code(Origin::Signed(CHARLIE), code(), Some(code()), None, det),
        Err(DispatchError::Contract(Error::StorageDepositNotEnoughFunds))
    );
    assert!(p.stack.ledger_ref().code(&hash_code(&code())).is_none());
    assert_eq!(p.upload_code(Origin::Signed(ALICE), code(), Some(code()), Some(9), det), Ok(()));
}

#[test]
fn bare_upload_reports_without_storing() {
    let mut p = funded();
    let report = p
        .bare_upload_code(ALICE, code(), Some(code()), None, Determinism::Deterministic)
        .unwrap();
    assert_eq!(report.code_hash, hash_code(&code()));
    assert_eq!(report.deposit, 9);
    assert!(p.stack.ledger_ref().code(&hash_code(&code())).is_none());
    assert_eq!(p.stack.ledger_ref().balance(&ALICE).reserved, 0);
    assert_eq!(p.stack.ledger_ref().events().len(), 0);
}

#[test]
fn remove_code_refunds_the_owner() {
    let mut p = with_code();
    let hash = hash_code(&code());
    let refused = p.remove_code(Origin::Signed(BOB), hash).unwrap_err();
    assert_eq!(refused.1, DispatchError::BadOrigin);
    assert_eq!(p.remove_code(Origin::Root, hash).unwrap_err().1, DispatchError::BadOrigin);
    assert_eq!(
        p.remove_code(Origin::Signed(ALICE), hash_code(&other_code())).unwrap_err().1,
        DispatchError::Contract(Error::CodeNotFound)
    );
    let removed = p.remove_code(Origin::Signed(ALICE), hash).unwrap();
    assert!(!removed.pays_fee);
    assert!(p.stack.ledger_ref().code(&hash).is_none());
    assert_eq!(p.stack.ledger_ref().balance(&ALICE).reserved, 0);
    assert_eq!(p.stack.ledger_ref().balance(&ALICE).free, 1_000_000);
    assert_eq!(
        p.stack.ledger_ref().events().last().unwrap().event,
        Event::CodeRemoved { code_hash: hash }
    );
}

#[test]
fn code_in_use_cannot_be_removed() {
    let mut p = with_code();
    let hash = hash_code(&code());
    deploy(&mut p, 0, 0);
    assert_eq!(p.stack.ledger_ref().code(&hash).unwrap().refcount, 1);
    assert_eq!(
        p.remove_code(Origin::Signed(ALICE), hash).unwrap_err().1,
        DispatchError::Contract(Error::CodeInUse)
    );
}

// Instantiation.

#[test]
fn upload_instantiate_and_call() {
    let mut p = with_code();
    let hash = hash_code(&code());
    let reserved_before_upload = 0;
    let address = deploy(&mut p, 0, 100);

    let mut preimage: Vec<u8> = b"contract_addr_v1".to_vec();
    preimage.extend_from_slice(&ALICE);
    preimage.extend_from_slice(&hash);
    preimage.extend_from_slice(&[0u8]);
    assert_eq!(address, sp_crypto_hashing::blake2_256(&preimage));

    assert_eq!(p.stack.ledger_ref().balance(&ALICE).reserved, reserved_before_upload + 9);
    assert_eq!(p.stack.ledger_ref().balance(&address).free, 100);
    assert_eq!(p.stack.ledger_ref().balance(&ALICE).free, 1_000_000 - 9 - 100);
    let info = p.stack.ledger_ref().contract_info(&address).unwrap();
    assert_eq!(info.code_hash, hash);
    assert_eq!(info.storage_bytes, 0);
    assert_eq!(info.storage_items, 0);
    assert_eq!(p.code_hash(&address), Some(hash));
    assert_eq!(p.stack.ledger_ref().nonce(), 1);
    assert_eq!(
        p.stack.ledger_ref().events().last().unwrap().event,
        Event::Instantiated { deployer: ALICE, contract: address }
    );

    start_call(&mut p, address);
    assert_eq!(p.stack.caller(), Ok(ALICE));
    assert_eq!(p.stack.address(), Ok(address));
    assert_eq!(p.stack.caller_is_origin(), Ok(true));
    let result = p.finish_dispatch(Outcome::Returned { flags: 0, data: vec![4, 2] });
    assert!(result.is_ok());
    assert_eq!(
        p.stack.ledger_ref().events().last().unwrap().event,
        Event::Called { caller: ALICE, contract: address }
    );
}

#[test]
fn instantiate_with_code_stores_and_deploys() {
    let mut p = funded();
    let started = p.instantiate_with_code::<DefaultAddressGenerator>(
        Origin::Signed(ALICE),
        50,
        gas(),
        None,
        code(),
        Some(code()),
        vec![1],
        vec![2],
    );
    let address = match started {
        Progress::Run { account_id, code_hash, .. } => {
            assert_eq!(code_hash, hash_code(&code()));
            account_id
        },
        Progress::Done(r) => panic!("refused {:?}", r),
    };
    let result = p.finish_dispatch(returned()).unwrap();
    // code load 3, plus the fixed weight 30 + 3 code bytes + 1 input byte + 1 salt byte
    assert_eq!(result.actual_weight, Some(w(3 + 35, 0)));
    assert_eq!(p.stack.ledger_ref().balance(&address).free, 50);
    assert_eq!(p.stack.ledger_ref().code(&hash_code(&code())).unwrap().refcount, 1);
    assert_eq!(p.stack.ledger_ref().balance(&ALICE).reserved, 9);
}

#[test]
fn failed_constructor_leaves_nothing_behind() {
    let mut p = funded();
    let started = p.instantiate_with_code::<DefaultAddressGenerator>(
        Origin::Signed(ALICE),
        50,
        gas(),
        None,
        code(),
        Some(code()),
        vec![],
        vec![],
    );
    let address = match started {
        Progress::Run { account_id, .. } => account_id,
        Progress::Done(r) => panic!("refused {:?}", r),
    };
    assert!(p.stack.ledger_ref().contract_info(&address).is_some());
    let result = p.finish_dispatch(Outcome::Trapped(Error::ContractTrapped));
    assert_eq!(result.unwrap_err().1, DispatchError::Contract(Error::ContractTrapped));
    assert!(p.stack.ledger_ref().contract_info(&address).is_none());
    assert!(p.stack.ledger_ref().code(&hash_code(&code())).is_none());
    assert_eq!(p.stack.ledger_ref().balance(&ALICE).free, 1_000_000);
    assert_eq!(p.stack.ledger_ref().balance(&ALICE).reserved, 0);
    assert_eq!(p.stack.ledger_ref().balance(&address).free, 0);
    assert_eq!(p.stack.ledger_ref().nonce(), 0);
    assert_eq!(p.stack.ledger_ref().events().len(), 0);
}

#[test]
fn reverting_constructor_is_reported_as_contract_reverted() {
    let mut p = with_code();
    let started = p.instantiate::<DefaultAddressGenerator>(
        Origin::Signed(ALICE),
        0,
        gas(),
        None,
        hash_code(&code()),
        vec![],
        vec![],
    );
    let address = match started {
        Progress::Run { account_id, .. } => account_id,
        Progress::Done(r) => panic!("refused {:?}", r),
    };
    let result = p.finish_dispatch(reverted());
    assert_eq!(result.unwrap_err().1, DispatchError::Contract(Error::ContractReverted));
    assert!(p.stack.ledger_ref().contract_info(&address).is_none());
    assert_eq!(p.stack.ledger_ref().code(&hash_code(&code())).unwrap().refcount, 0);
}

#[test]
fn instantiate_refusals() {
    let mut p = with_code();
    let hash = hash_code(&code());
    let missing = p.instantiate::<DefaultAddressGenerator>(
        Origin::Signed(ALICE),
        0,
        gas(),
        None,
        hash_code(&other_code()),
        vec![],
        vec![],
    );
    assert_eq!(dispatch_error(missing), DispatchError::Contract(Error::CodeNotFound));

    let unsigned = p.instantiate::<DefaultAddressGenerator>(
        Origin::Unsigned,
        0,
        gas(),
        None,
        hash,
        vec![],
        vec![],
    );
    assert_eq!(dispatch_error(unsigned), DispatchError::BadOrigin);

    deploy(&mut p, 0, 0);
    let duplicate = p.instantiate::<DefaultAddressGenerator>(
        Origin::Signed(ALICE),
        0,
        gas(),
        None,
        hash,
        vec![],
        vec![0],
    );
    assert_eq!(dispatch_error(duplicate), DispatchError::Contract(Error::DuplicateContract));

    let poor = p.instantiate::<DefaultAddressGenerator>(
        Origin::Signed(CHARLIE),
        5,
        gas(),
        None,
        hash,
        vec![],
        vec![1],
    );
    assert_eq!(dispatch_error(poor), DispatchError::Contract(Error::TransferFailed));

    let below_existence = p.instantiate::<DefaultAddressGenerator>(
        Origin::Signed(ALICE),
        5,
        gas(),
        None,
        hash,
        vec![],
        vec![1],
    );
    assert_eq!(dispatch_error(below_existence), DispatchError::Contract(Error::TransferFailed));

    let no_gas = p.instantiate::<DefaultAddressGenerator>(
        Origin::Signed(ALICE),
        0,
        w(2, 0),
        None,
        hash,
        vec![],
        vec![1],
    );
    assert_eq!(dispatch_error(no_gas), DispatchError::Contract(Error::OutOfGas));

    let limit = p.instantiate::<DefaultAddressGenerator>(
        Origin::Signed(ALICE),
        0,
        gas(),
        Some(u128::MAX),
        hash,
        vec![],
        vec![1],
    );
    assert_eq!(
        dispatch_error(limit),
        DispatchError::Contract(Error::StorageDepositNotEnoughFunds)
    );
    assert_eq!(p.stack.ledger_ref().nonce(), 1);
}

#[test]
fn indeterministic_code_cannot_be_instantiated_or_called() {
    let mut p = funded();
    assert_eq!(
        p.upload_code(
            Origin::Signed(ALICE),
            other_code(),
            Some(other_code()),
            None,
            Determinism::AllowIndeterminism
        ),
        Ok(())
    );
    let refused = p.instantiate::<DefaultAddressGenerator>(
        Origin::Signed(ALICE),
        0,
        gas(),
        None,
        hash_code(&other_code()),
        vec![],
        vec![],
    );
    assert_eq!(dispatch_error(refused), DispatchError::Contract(Error::Indeterministic));
}

// Calls.

#[test]
fn call_refusals() {
    let mut p = with_code();
    let a = deploy(&mut p, 0, 0);
    let unsigned = p.call(Origin::Root, a, 0, gas(), None, vec![]);
    assert_eq!(dispatch_error(unsigned), DispatchError::BadOrigin);
    let nobody = p.call(Origin::Signed(ALICE), CHARLIE, 0, gas(), None, vec![]);
    assert_eq!(dispatch_error(nobody), DispatchError::Contract(Error::ContractNotFound));
    let too_much = p.call(Origin::Signed(ALICE), a, 2_000_000, gas(), None, vec![]);
    assert_eq!(dispatch_error(too_much), DispatchError::Contract(Error::TransferFailed));
    let no_gas = p.call(Origin::Signed(ALICE), a, 0, w(2, 0), None, vec![]);
    assert_eq!(dispatch_error(no_gas), DispatchError::Contract(Error::OutOfGas));
    let limit = p.call(Origin::Signed(ALICE), a, 0, gas(), Some(u128::MAX), vec![]);
    assert_eq!(
        dispatch_error(limit),
        DispatchError::Contract(Error::StorageDepositNotEnoughFunds)
    );
}

#[test]
fn call_to_plain_account_with_value_is_a_transfer() {
    let mut p = funded();
    let done = p.call(Origin::Signed(ALICE), CHARLIE, 500, gas(), None, vec![]);
    match done {
        Progress::Done(Ok(info)) => assert_eq!(info.actual_weight, Some(w(10, 0))),
        other => panic!("unexpected {:?}", matches!(other, Progress::Run { .. })),
    }
    assert_eq!(p.stack.ledger_ref().balance(&CHARLIE).free, 500);
    assert_eq!(p.stack.ledger_ref().balance(&ALICE).free, 1_000_000 - 500);
}

#[test]
fn call_old_weight_adds_the_proof_size_for_old_calls() {
    let mut p = with_code();
    let a = deploy(&mut p, 0, 0);
    assert_eq!(p.compat_weight_limit(77), w(77, 128));
    match p.call_old_weight(Origin::Signed(ALICE), a, 0, 1000, None, vec![]) {
        Progress::Run { .. } => {},
        Progress::Done(r) => panic!("refused {:?}", r),
    }
    assert_eq!(p.stack.gas_left(), w(1000 - 3, 128));
    let result = p.finish_dispatch(returned()).unwrap();
    assert_eq!(result.actual_weight, Some(w(3 + 10, 0)));
}

#[test]
fn gas_of_the_callee_is_charged_to_the_caller_even_after_revert() {
    let mut p = with_code();
    let a = deploy(&mut p, 0, 0);
    let b = deploy(&mut p, 1, 0);
    start_call(&mut p, a);
    let a_gas_before = p.stack.gas_left();
    assert!(matches!(sub_call(&mut p, CallFlags::empty(), b), Ok(Started::Run { .. })));
    // A paid the fee of the call (1) and for loading the code of B (3).
    assert_eq!(p.stack.gas_left(), w(10_000, 10_000));
    assert_eq!(
        p.stack.set_storage(&var(&[1]), vec![9]).map(|o| matches!(o, WriteOutcome::New)),
        Ok(true)
    );
    assert_eq!(p.stack.ledger_ref().storage_get(&b, &[1u8, 1]), Some(vec![9]));
    p.stack.charge(w(100, 0)).unwrap();
    let result = p.stack.finish(reverted()).unwrap();
    assert!(result.did_revert());
    assert_eq!(result.data, vec![7]);

    assert_eq!(p.stack.frame_count(), 1);
    assert_eq!(p.stack.address(), Ok(a));
    assert_eq!(p.stack.ledger_ref().storage_get(&b, &[1u8, 1]), None);
    assert_eq!(p.stack.ledger_ref().contract_info(&b).unwrap().storage_bytes, 0);
    assert_eq!(p.stack.ledger_ref().contract_info(&a).unwrap().storage_items, 0);
    // fee of the call 1, load 3, write 1, charge 100, and the query just above 1
    assert_eq!(
        p.stack.gas_left(),
        a_gas_before.saturating_sub(&w(1 + 3 + 1 + 100 + 1, 0))
    );
    assert!(p.finish_dispatch(returned()).is_ok());
    assert_eq!(p.get_storage(b, vec![1]), Ok(None));
}

#[test]
fn trapped_callee_is_rolled_back_and_costs_its_budget() {
    let mut p = with_code();
    let a = deploy(&mut p, 0, 0);
    let b = deploy(&mut p, 1, 0);
    start_call(&mut p, a);
    let before = p.stack.gas_left();
    assert!(matches!(sub_call(&mut p, CallFlags::empty(), b), Ok(Started::Run { .. })));
    p.stack.set_storage(&var(&[1]), vec![9]).unwrap();
    p.stack.transfer(&CHARLIE, 0).unwrap();
    let failed = p.stack.finish(Outcome::Trapped(Error::ContractTrapped));
    assert_eq!(
        failed.unwrap_err(),
        ExecError { error: Error::ContractTrapped, origin: ErrorOrigin::Callee }
    );
    assert_eq!(p.stack.ledger_ref().storage_get(&b, &[1u8, 1]), None);
    assert_eq!(p.stack.gas_left(), before.saturating_sub(&w(1 + 3 + 10_000, 10_000)));
    assert!(p.finish_dispatch(returned()).is_ok());
}

#[test]
fn committed_callee_keeps_its_changes() {
    let mut p = with_code();
    let a = deploy(&mut p, 0, 100);
    let b = deploy(&mut p, 1, 0);
    start_call(&mut p, a);
    let started = p.stack.call(CallFlags::empty(), b, w(500, 500), None, 40, vec![1, 2, 3]);
    assert!(matches!(started, Ok(Started::Run { .. })));
    assert_eq!(p.stack.input(), Ok(vec![1, 2, 3]));
    assert_eq!(p.stack.value_transferred(), Ok(40));
    assert_eq!(p.stack.caller(), Ok(a));
    assert_eq!(p.stack.caller_is_origin(), Ok(false));
    assert_eq!(p.stack.balance(), Ok(40));
    p.stack.set_storage(&var(&[1]), vec![9, 9]).unwrap();
    let result = p.stack.finish(Outcome::Returned { flags: 0, data: vec![5] }).unwrap();
    assert_eq!(result.data, vec![5]);
    // one byte of key and two of value at 1 each, one item at 2
    assert_eq!(p.stack.storage_deposit(), StorageDeposit::Charge(3 * 1 + 2));
    assert!(p.finish_dispatch(returned()).is_ok());
    assert_eq!(p.get_storage(b, vec![1]), Ok(Some(vec![9, 9])));
    assert_eq!(p.stack.ledger_ref().balance(&a).free, 60);
    assert_eq!(p.stack.ledger_ref().balance(&b).free, 40);
    assert_eq!(p.stack.ledger_ref().balance(&ALICE).reserved, 9 + 5);
    let info = p.stack.ledger_ref().contract_info(&b).unwrap();
    assert_eq!((info.storage_bytes, info.storage_items), (3, 1));
    assert_eq!((info.storage_byte_deposit, info.storage_item_deposit), (3, 2));
}

#[test]
fn reentrancy_is_denied_unless_allowed() {
    let mut p = with_code();
    let a = deploy(&mut p, 0, 0);
    let b = deploy(&mut p, 1, 0);
    start_call(&mut p, a);
    assert!(matches!(sub_call(&mut p, CallFlags::empty(), b), Ok(Started::Run { .. })));
    assert_eq!(
        sub_call(&mut p, CallFlags::empty(), a).unwrap_err(),
        refusal(Error::ReentranceDenied)
    );
    // B may proceed.
    assert!(p.stack.set_storage(&var(&[1]), vec![1]).is_ok());
    assert!(p.stack.finish(returned()).is_ok());
    // A calling itself is re-entry as well.
    assert_eq!(
        sub_call(&mut p, CallFlags::empty(), a).unwrap_err(),
        refusal(Error::ReentranceDenied)
    );
    // With the flag, B may call back into A.
    let allow = CallFlags::from_bits(8).unwrap();
    assert!(allow.allow_reentry);
    assert!(matches!(sub_call(&mut p, allow, b), Ok(Started::Run { .. })));
    assert!(matches!(sub_call(&mut p, CallFlags::empty(), a), Ok(Started::Run { .. })));
    assert_eq!(p.stack.frame_count(), 3);
    assert!(p.stack.finish(returned()).is_ok());
    assert!(p.stack.finish(returned()).is_ok());
    assert!(p.finish_dispatch(returned()).is_ok());
}

#[test]
fn call_beyond_the_greatest_depth_is_refused() {
    let mut p = with_code();
    let a = deploy(&mut p, 0, 0);
    let b = deploy(&mut p, 1, 0);
    let c = deploy(&mut p, 2, 0);
    let d = deploy(&mut p, 3, 0);
    start_call(&mut p, a);
    assert!(matches!(sub_call(&mut p, CallFlags::empty(), b), Ok(Started::Run { .. })));
    assert!(matches!(sub_call(&mut p, CallFlags::empty(), c), Ok(Started::Run { .. })));
    assert_eq!(p.stack.frame_count(), 3);
    assert_eq!(
        sub_call(&mut p, CallFlags::empty(), d).unwrap_err(),
        refusal(Error::MaxCallDepthReached)
    );
    assert_eq!(
        p.stack.delegate_call(hash_code(&code()), vec![]).unwrap_err(),
        refusal(Error::MaxCallDepthReached)
    );
    let nested = p.stack.instantiate::<DefaultAddressGenerator>(
        hash_code(&code()),
        w(10, 10),
        None,
        0,
        vec![],
        &[9],
    );
    assert_eq!(nested.unwrap_err(), refusal(Error::MaxCallDepthReached));
    // The caller is not trapped: it goes on.
    assert_eq!(p.stack.address(), Ok(c));
    assert!(p.stack.finish(returned()).is_ok());
    assert!(p.stack.finish(returned()).is_ok());
    assert!(p.finish_dispatch(returned()).is_ok());
}

#[test]
fn sub_call_refusals() {
    let mut p = with_code();
    let a = deploy(&mut p, 0, 100);
    start_call(&mut p, a);
    assert_eq!(
        sub_call(&mut p, CallFlags::empty(), CHARLIE).unwrap_err(),
        refusal(Error::ContractNotFound)
    );
    let poor = p.stack.call(CallFlags::empty(), CHARLIE, gas(), None, 95, vec![]);
    assert_eq!(poor.unwrap_err(), refusal(Error::TransferFailed));
    let small = p.stack.call(CallFlags::empty(), CHARLIE, gas(), None, 5, vec![]);
    assert_eq!(small.unwrap_err(), refusal(Error::TransferFailed));
    let plain = p.stack.call(CallFlags::empty(), CHARLIE, gas(), None, 50, vec![]);
    assert!(matches!(plain, Ok(Started::Transferred)));
    assert_eq!(p.stack.ledger_ref().balance(&CHARLIE).free, 50);
    assert_eq!(CallFlags::try_from_bits(32), Err(Error::InvalidCallFlags));
    assert_eq!(CallFlags::from_bits(64), None);
    assert!(p.finish_dispatch(returned()).is_ok());
}

#[test]
fn forwarded_input_is_gone_and_cloned_input_stays() {
    let mut p = with_code();
    let a = deploy(&mut p, 0, 0);
    let b = deploy(&mut p, 1, 0);
    match p.call(Origin::Signed(ALICE), a, 0, gas(), None, vec![4, 5]) {
        Progress::Run { .. } => {},
        Progress::Done(r) => panic!("refused {:?}", r),
    }
    let clone = CallFlags::from_bits(2).unwrap();
    assert!(matches!(p.stack.call(clone, b, gas(), None, 0, vec![0]), Ok(Started::Run { .. })));
    assert_eq!(p.stack.input(), Ok(vec![4, 5]));
    assert!(p.stack.finish(returned()).is_ok());
    assert_eq!(p.stack.input(), Ok(vec![4, 5]));

    let forward = CallFlags::from_bits(1).unwrap();
    assert!(matches!(p.stack.call(forward, b, gas(), None, 0, vec![0]), Ok(Started::Run { .. })));
    assert_eq!(p.stack.input(), Ok(vec![4, 5]));
    assert!(p.stack.finish(returned()).is_ok());
    assert_eq!(p.stack.input(), Err(Error::InputForwarded));
    assert_eq!(
        p.stack.call(forward, b, gas(), None, 0, vec![0]).unwrap_err(),
        refusal(Error::InputForwarded)
    );
    assert!(p.finish_dispatch(returned()).is_ok());
}

#[test]
fn delegate_call_runs_foreign_code_as_the_caller() {
    let mut p = with_code();
    assert_eq!(
        p.upload_code(
            Origin::Signed(BOB),
            other_code(),
            Some(other_code()),
            None,
            Determinism::Deterministic
        ),
        Ok(())
    );
    let a = deploy(&mut p, 0, 0);
    start_call(&mut p, a);
    let started = p.stack.delegate_call(hash_code(&other_code()), vec![8]);
    match started {
        Ok(Started::Run { account_id, code_hash, .. }) => {
            assert_eq!(account_id, a);
            assert_eq!(code_hash, hash_code(&other_code()));
        },
        other => panic!("unexpected {:?}", other),
    }
    assert_eq!(p.stack.address(), Ok(a));
    assert_eq!(p.stack.caller(), Ok(ALICE));
    assert_eq!(p.stack.own_code_hash(), Ok(hash_code(&other_code())));
    assert_eq!(p.stack.input(), Ok(vec![8]));
    p.stack.set_storage(&var(&[1]), vec![3]).unwrap();
    assert!(p.stack.finish(returned()).is_ok());
    assert_eq!(p.stack.ledger_ref().storage_get(&a, &[1u8, 1]), Some(vec![3]));
    assert_eq!(
        p.stack.ledger_ref().events().last().unwrap().event,
        Event::DelegateCalled { contract: a, code_hash: hash_code(&other_code()) }
    );
    assert_eq!(
        p.stack.delegate_call(hash_code(&[1, 1]), vec![]).unwrap_err(),
        refusal(Error::CodeNotFound)
    );
    assert!(p.finish_dispatch(returned()).is_ok());
}

#[test]
fn indeterministic_code_is_reachable_by_delegate_call_from_a_dry_run_only() {
    let mut p = with_code();
    p.upload_code(
        Origin::Signed(BOB),
        other_code(),
        Some(other_code()),
        None,
        Determinism::AllowIndeterminism,
    )
    .unwrap();
    let a = deploy(&mut p, 0, 0);
    start_call(&mut p, a);
    assert_eq!(
        p.stack.delegate_call(hash_code(&other_code()), vec![]).unwrap_err(),
        refusal(Error::Indeterministic)
    );
    assert!(p.finish_dispatch(returned()).is_ok());

    let dry = p.bare_call(ALICE, a, 0, gas(), None, vec![], false, Determinism::AllowIndeterminism);
    assert!(matches!(dry, Progress::Run { .. }));
    assert!(matches!(
        p.stack.delegate_call(hash_code(&other_code()), vec![]),
        Ok(Started::Run { .. })
    ));
    assert!(p.stack.finish(returned()).is_ok());
    assert!(p.finish_bare_call(returned()).result.is_ok());
}

#[test]
fn nested_instantiate_creates_a_contract_of_the_running_contract() {
    let mut p = with_code();
    let a = deploy(&mut p, 0, 100);
    start_call(&mut p, a);
    let started = p.stack.instantiate::<DefaultAddressGenerator>(
        hash_code(&code()),
        w(1000, 1000),
        None,
        20,
        vec![1],
        &[2],
    );
    let child = match started {
        Ok(Started::Run { account_id, .. }) => account_id,
        other => panic!("unexpected {:?}", other),
    };
    let mut preimage: Vec<u8> = b"contract_addr_v1".to_vec();
    preimage.extend_from_slice(&a);
    preimage.extend_from_slice(&hash_code(&code()));
    preimage.extend_from_slice(&[1u8, 2]);
    assert_eq!(child, sp_crypto_hashing::blake2_256(&preimage));
    assert_eq!(p.stack.caller(), Ok(a));
    assert_eq!(p.stack.terminate(&BOB), Err(Error::TerminatedInConstructor));
    assert!(p.stack.finish(returned()).is_ok());
    assert_eq!(p.stack.is_contract(&child), Ok(true));
    assert_eq!(p.stack.code_hash(&child), Ok(Some(hash_code(&code()))));
    assert_eq!(p.stack.code_hash(&CHARLIE), Ok(None));
    assert!(p.finish_dispatch(returned()).is_ok());
    assert_eq!(p.stack.ledger_ref().balance(&child).free, 20);
    assert_eq!(p.stack.ledger_ref().code(&hash_code(&code())).unwrap().refcount, 2);
    assert_eq!(p.stack.ledger_ref().nonce(), 2);
}

// Storage and its deposit.

#[test]
fn storage_host_functions() {
    let mut p = with_code();
    let a = deploy(&mut p, 0, 0);
    start_call(&mut p, a);
    let key = var(&[1, 2]);
    assert_eq!(p.stack.get_storage(&key), Ok(None));
    assert_eq!(p.stack.contains_storage(&key), Ok(None));
    assert!(matches!(p.stack.set_storage(&key, vec![1, 2, 3]), Ok(WriteOutcome::New)));
    assert!(matches!(p.stack.set_storage(&key, vec![4]), Ok(WriteOutcome::Overwritten(3))));
    assert_eq!(p.stack.get_storage(&key), Ok(Some(vec![4])));
    assert_eq!(p.stack.contains_storage(&key), Ok(Some(1)));
    // A fixed key with the same bytes is another key.
    let mut fixed = [0u8; 32];
    fixed[0] = 1;
    fixed[1] = 2;
    assert_eq!(p.stack.get_storage(&StorageKey::Fix(fixed)), Ok(None));
    assert!(matches!(p.stack.set_storage(&StorageKey::Fix(fixed), vec![6]), Ok(WriteOutcome::New)));
    assert_eq!(p.stack.take_storage(&key), Ok(Some(vec![4])));
    assert_eq!(p.stack.take_storage(&key), Ok(None));
    assert!(matches!(p.stack.clear_storage(&StorageKey::Fix(fixed)), Ok(WriteOutcome::Overwritten(1))));
    assert!(matches!(p.stack.clear_storage(&StorageKey::Fix(fixed)), Ok(WriteOutcome::New)));
    assert_eq!(p.stack.storage_deposit(), StorageDeposit::Charge(0));

    assert_eq!(
        p.stack.set_storage(&var(&[0; 9]), vec![1]).unwrap_err(),
        Error::DecodingFailed
    );
    assert_eq!(p.stack.get_storage(&var(&[0; 9])), Err(Error::DecodingFailed));
    assert_eq!(p.stack.set_storage(&key, vec![0; 513]).unwrap_err(), Error::ValueTooLarge);
    assert!(p.finish_dispatch(returned()).is_ok());
}

#[test]
fn clearing_a_value_refunds_its_deposit_at_the_end() {
    let mut p = with_code();
    let a = deploy(&mut p, 0, 0);
    let reserved = p.stack.ledger_ref().balance(&ALICE).reserved;
    start_call(&mut p, a);
    p.stack.set_storage(&var(&[]), vec![0; 100]).unwrap();
    assert!(p.finish_dispatch(returned()).is_ok());
    assert_eq!(p.stack.ledger_ref().contract_info(&a).unwrap().storage_bytes, 100);
    assert_eq!(p.stack.ledger_ref().contract_info(&a).unwrap().storage_items, 1);
    assert_eq!(p.stack.ledger_ref().balance(&ALICE).reserved, reserved + 100 * 1 + 1 * 2);

    start_call(&mut p, a);
    assert!(matches!(p.stack.clear_storage(&var(&[])), Ok(WriteOutcome::Overwritten(100))));
    assert_eq!(p.stack.storage_deposit(), StorageDeposit::Refund(102));
    assert_eq!(p.stack.ledger_ref().balance(&ALICE).reserved, reserved + 102);
    assert!(p.finish_dispatch(returned()).is_ok());
    assert_eq!(p.stack.ledger_ref().contract_info(&a).unwrap().storage_bytes, 0);
    assert_eq!(p.stack.ledger_ref().contract_info(&a).unwrap().storage_items, 0);
    assert_eq!(p.stack.ledger_ref().balance(&ALICE).reserved, reserved);
}

#[test]
fn storage_deposit_limit_is_enforced_when_the_frame_ends() {
    let mut p = with_code();
    let a = deploy(&mut p, 0, 0);
    match p.call(Origin::Signed(ALICE), a, 0, gas(), Some(50), vec![]) {
        Progress::Run { .. } => {},
        Progress::Done(r) => panic!("refused {:?}", r),
    }
    p.stack.set_storage(&var(&[1]), vec![0; 100]).unwrap();
    let result = p.finish_dispatch(returned());
    assert_eq!(
        result.unwrap_err().1,
        DispatchError::Contract(Error::StorageDepositLimitExhausted)
    );
    assert_eq!(p.get_storage(a, vec![1]), Ok(None));
}

#[test]
fn get_storage_of_the_pallet() {
    let mut p = with_code();
    let a = deploy(&mut p, 0, 0);
    assert_eq!(p.get_storage(CHARLIE, vec![1]), Err(ContractAccessError::DoesntExist));
    assert_eq!(p.get_storage(a, vec![0; 9]), Err(ContractAccessError::KeyDecodingFailed));
    assert_eq!(p.get_storage(a, vec![1]), Ok(None));
}

// Other host functions.

#[test]
fn transfer_respects_the_existential_deposit() {
    let mut p = with_code();
    let a = deploy(&mut p, 0, 100);
    start_call(&mut p, a);
    assert_eq!(p.stack.minimum_balance(), Ok(10));
    assert_eq!(p.stack.transfer(&CHARLIE, 9), Err(Error::TransferFailed));
    assert_eq!(p.stack.transfer(&CHARLIE, 91), Err(Error::TransferFailed));
    assert_eq!(p.stack.transfer(&CHARLIE, 101), Err(Error::TransferFailed));
    assert_eq!(p.stack.transfer(&CHARLIE, 0), Ok(()));
    assert_eq!(p.stack.transfer(&CHARLIE, 90), Ok(()));
    assert_eq!(p.stack.balance(), Ok(10));
    assert_eq!(p.stack.ledger_ref().balance(&CHARLIE).free, 90);
    assert!(p.finish_dispatch(returned()).is_ok());
}

#[test]
fn events_are_bounded_and_rolled_back_with_their_frame() {
    let mut p = with_code();
    let a = deploy(&mut p, 0, 0);
    let events = p.stack.ledger_ref().events().len();
    start_call(&mut p, a);
    assert_eq!(p.stack.deposit_event(vec![[0; 32]; 3], vec![]), Err(Error::TooManyTopics));
    assert_eq!(p.stack.deposit_event(vec![], vec![0; 513]), Err(Error::ValueTooLarge));
    assert_eq!(p.stack.deposit_event(vec![[7; 32]], vec![1, 2]), Ok(()));
    assert_eq!(
        p.stack.ledger_ref().events().last().unwrap().event,
        Event::ContractEmitted { contract: a, data: vec![1, 2] }
    );
    assert_eq!(p.stack.ledger_ref().events().last().unwrap().topics, vec![[7u8; 32]]);
    let result = p.finish_dispatch(Outcome::Trapped(Error::ContractTrapped));
    assert!(result.is_err());
    assert_eq!(p.stack.ledger_ref().events().len(), events);
}

#[test]
fn random_debug_and_chain_extension() {
    let mut p = with_code();
    p.set_block(7, 1234, w(0, 0));
    let a = deploy(&mut p, 0, 0);
    let dry = p.bare_call(ALICE, a, 0, gas(), None, vec![], true, Determinism::Deterministic);
    assert!(matches!(dry, Progress::Run { .. }));
    assert_eq!(p.stack.current_block_number(), Ok(7));
    assert_eq!(p.stack.now(), Ok(1234));
    let left = p.stack.gas_left();
    assert_eq!(p.stack.weight_to_fee(77), Ok(77));
    assert_eq!(p.stack.gas_left(), left.saturating_sub(&config().schedule.host_fn_weights.query));
    assert_eq!(p.stack.random(&[1, 2, 3, 4], [5; 32]), Ok(([5; 32], 7)));
    assert_eq!(p.stack.random(&[1, 2, 3, 4, 5], [5; 32]), Err(Error::RandomSubjectTooLong));
    assert_eq!(p.stack.debug_message(b"hello "), Ok(true));
    assert_eq!(p.stack.debug_message(&[0xff, 0xfe]), Err(Error::DebugMessageInvalidUTF8));
    assert_eq!(p.stack.debug_message("wörld".as_bytes()), Ok(true));
    assert_eq!(p.stack.debug_message(&[b'x'; 300]), Ok(true));
    assert_eq!(p.stack.call_chain_extension(), Err(Error::NoChainExtension));
    let report = p.finish_bare_call(returned());
    assert_eq!(report.debug_message, "hello wörld".as_bytes().to_vec());
    assert!(report.result.is_ok());

    start_call(&mut p, a);
    assert_eq!(p.stack.debug_message(&[0xff]), Ok(false));
    assert!(p.finish_dispatch(returned()).is_ok());
}

#[test]
fn host_functions_fail_without_gas_and_change_nothing() {
    let mut p = with_code();
    let a = deploy(&mut p, 0, 0);
    match p.call(Origin::Signed(ALICE), a, 0, w(3, 0), None, vec![]) {
        Progress::Run { .. } => {},
        Progress::Done(r) => panic!("refused {:?}", r),
    }
    assert_eq!(p.stack.gas_left(), w(0, 0));
    assert_eq!(p.stack.caller(), Err(Error::OutOfGas));
    assert_eq!(p.stack.weight_to_fee(77), Err(Error::OutOfGas));
    assert_eq!(p.stack.set_storage(&var(&[1]), vec![1]).unwrap_err(), Error::OutOfGas);
    assert_eq!(p.stack.transfer(&BOB, 0), Err(Error::OutOfGas));
    assert_eq!(p.stack.terminate(&BOB), Err(Error::OutOfGas));
    assert_eq!(p.stack.charge(w(1, 0)), Err(Error::OutOfGas));
    assert_eq!(
        p.stack.call(CallFlags::empty(), a, gas(), None, 0, vec![]).unwrap_err(),
        refusal(Error::OutOfGas)
    );
    let result = p.finish_dispatch(Outcome::Trapped(Error::OutOfGas));
    let (info, error) = result.unwrap_err();
    assert_eq!(error, DispatchError::Contract(Error::OutOfGas));
    assert_eq!(info.actual_weight, Some(w(3 + 10, 0)));
}

// Set code.

#[test]
fn set_code_moves_the_user_from_old_code_to_new() {
    let mut p = with_code();
    p.upload_code(
        Origin::Signed(BOB),
        other_code(),
        Some(other_code()),
        None,
        Determinism::Deterministic,
    )
    .unwrap();
    let k1 = hash_code(&code());
    let k2 = hash_code(&other_code());
    let c = deploy(&mut p, 0, 0);
    assert_eq!(p.stack.ledger_ref().code(&k1).unwrap().refcount, 1);
    assert_eq!(p.stack.ledger_ref().code(&k2).unwrap().refcount, 0);

    assert_eq!(p.set_code(Origin::Signed(ALICE), c, k2), Err(DispatchError::BadOrigin));
    assert_eq!(
        p.set_code(Origin::Root, CHARLIE, k2),
        Err(DispatchError::Contract(Error::ContractNotFound))
    );
    assert_eq!(
        p.set_code(Origin::Root, c, hash_code(&[1])),
        Err(DispatchError::Contract(Error::CodeNotFound))
    );
    assert_eq!(p.set_code(Origin::Root, c, k2), Ok(()));
    assert_eq!(p.stack.ledger_ref().code(&k1).unwrap().refcount, 0);
    assert_eq!(p.stack.ledger_ref().code(&k2).unwrap().refcount, 1);
    assert_eq!(p.code_hash(&c), Some(k2));
    assert_eq!(
        p.stack.ledger_ref().events().last().unwrap().event,
        Event::ContractCodeUpdated { contract: c, new_code_hash: k2, old_code_hash: k1 }
    );
    assert_eq!(
        p.stack.ledger_ref().events().last().unwrap().topics,
        vec![hash_code(&c), k2, k1]
    );
    // Setting the code that the contract runs already leaves its count as it is.
    assert_eq!(p.set_code(Origin::Root, c, k2), Ok(()));
    assert_eq!(p.stack.ledger_ref().code(&k2).unwrap().refcount, 1);
    assert_eq!(
        p.stack.ledger_ref().events().last().unwrap().event,
        Event::ContractCodeUpdated { contract: c, new_code_hash: k2, old_code_hash: k2 }
    );
}

#[test]
fn set_code_hash_from_within_the_contract() {
    let mut p = with_code();
    p.upload_code(
        Origin::Signed(BOB),
        other_code(),
        Some(other_code()),
        None,
        Determinism::Deterministic,
    )
    .unwrap();
    let c = deploy(&mut p, 0, 0);
    start_call(&mut p, c);
    assert_eq!(p.stack.set_code_hash(&hash_code(&[1])), Err(Error::CodeNotFound));
    assert_eq!(p.stack.set_code_hash(&hash_code(&other_code())), Ok(()));
    assert_eq!(p.stack.own_code_hash(), Ok(hash_code(&code())));
    assert!(p.finish_dispatch(returned()).is_ok());
    assert_eq!(p.code_hash(&c), Some(hash_code(&other_code())));
}

// Termination and lazy deletion.

fn fill(p: &mut Pallet, contract: [u8; 32], items: u8) {
    start_call(p, contract);
    for i in 0..items {
        p.stack.set_storage(&var(&[i]), vec![i]).unwrap();
    }
    assert!(p.finish_dispatch(returned()).is_ok());
}

fn end(p: &mut Pallet, contract: [u8; 32]) {
    start_call(p, contract);
    assert_eq!(p.stack.terminate(&BOB), Ok(()));
    assert!(p.finish_dispatch(returned()).is_ok());
}

#[test]
fn terminate_sweeps_the_balance_and_queues_the_storage() {
    let mut p = with_code();
    let a = deploy(&mut p, 0, 100);
    fill(&mut p, a, 3);
    let reserved = p.stack.ledger_ref().balance(&ALICE).reserved;
    let trie_id = p.stack.ledger_ref().contract_info(&a).unwrap().trie_id;
    end(&mut p, a);
    assert!(p.stack.ledger_ref().contract_info(&a).is_none());
    assert_eq!(p.stack.ledger_ref().balance(&a).free, 0);
    assert_eq!(p.stack.ledger_ref().balance(&BOB).free, 1_000_000 + 100);
    assert_eq!(p.stack.ledger_ref().code(&hash_code(&code())).unwrap().refcount, 0);
    assert_eq!(p.stack.ledger_ref().queue_len(), 1);
    assert_eq!(p.stack.ledger_ref().queued(0), Some((trie_id, 3)));
    assert_eq!(p.stack.ledger_ref().queued(1), None);
    // three items, each a key of one byte and a value of one byte: 6 * 1 + 3 * 2
    assert_eq!(p.stack.ledger_ref().balance(&ALICE).reserved, reserved - 12);
    assert_eq!(
        p.stack.ledger_ref().events()[p.stack.ledger_ref().events().len() - 2].event,
        Event::Terminated { contract: a, beneficiary: BOB }
    );
    let gone = p.call(Origin::Signed(ALICE), a, 0, gas(), None, vec![]);
    assert_eq!(dispatch_error(gone), DispatchError::Contract(Error::ContractNotFound));
}

#[test]
fn terminate_while_reentrant_is_refused() {
    let mut p = with_code();
    let a = deploy(&mut p, 0, 0);
    let b = deploy(&mut p, 1, 0);
    start_call(&mut p, a);
    let allow = CallFlags::from_bits(8).unwrap();
    assert!(matches!(sub_call(&mut p, allow, b), Ok(Started::Run { .. })));
    assert!(matches!(sub_call(&mut p, CallFlags::empty(), a), Ok(Started::Run { .. })));
    assert_eq!(p.stack.terminate(&BOB), Err(Error::TerminatedWhileReentrant));
    assert!(p.stack.finish(returned()).is_ok());
    // B is on the stack once and may end.
    assert_eq!(p.stack.terminate(&BOB), Ok(()));
    assert!(p.stack.finish(returned()).is_ok());
    assert!(p.finish_dispatch(returned()).is_ok());
    assert!(p.stack.ledger_ref().contract_info(&b).is_none());
    assert!(p.stack.ledger_ref().contract_info(&a).is_some());
}

#[test]
fn terminate_in_a_delegate_call_is_refused() {
    let mut p = with_code();
    let a = deploy(&mut p, 0, 0);
    start_call(&mut p, a);
    assert!(matches!(
        p.stack.delegate_call(hash_code(&code()), vec![]),
        Ok(Started::Run { .. })
    ));
    assert_eq!(p.stack.terminate(&BOB), Err(Error::TerminatedWhileReentrant));
    assert!(p.stack.finish(returned()).is_ok());
    assert!(p.finish_dispatch(returned()).is_ok());
}

#[test]
fn full_deletion_queue_refuses_termination() {
    let mut p = with_code();
    let contracts: Vec<[u8; 32]> = (0..4u8).map(|i| deploy(&mut p, i, 0)).collect();
    for c in &contracts[..3] {
        fill(&mut p, *c, 1);
        end(&mut p, *c);
    }
    assert_eq!(p.stack.ledger_ref().queue_len(), 3);
    start_call(&mut p, contracts[3]);
    assert_eq!(p.stack.terminate(&BOB), Err(Error::DeletionQueueFull));
    assert!(p.finish_dispatch(returned()).is_ok());
    assert!(p.stack.ledger_ref().contract_info(&contracts[3]).is_some());
    // With any idle weight for a deletion the next block takes an entry off the queue.
    p.on_idle(w(1, 0));
    assert_eq!(p.stack.ledger_ref().queue_len(), 2);
    start_call(&mut p, contracts[3]);
    assert_eq!(p.stack.terminate(&BOB), Ok(()));
    assert!(p.finish_dispatch(returned()).is_ok());
}

#[test]
fn lazy_deletion_drains_the_queue_first_in_first_out() {
    let mut p = with_code();
    let contracts: Vec<[u8; 32]> = (0..3u8).map(|i| deploy(&mut p, i, 0)).collect();
    let mut tries = vec![];
    for c in &contracts {
        fill(&mut p, *c, 10);
        tries.push(p.stack.ledger_ref().contract_info(c).unwrap().trie_id);
    }
    for c in &contracts {
        end(&mut p, *c);
    }
    // Block N.
    assert_eq!(p.stack.ledger_ref().queue_len(), 3);
    assert_eq!(p.stack.ledger_ref().queued(0), Some((tries[0], 10)));
    // Block N + 1: fifteen deletions.
    assert_eq!(p.on_idle(w(15, 0)), w(15, 0));
    assert_eq!(p.stack.ledger_ref().queue_len(), 2);
    assert_eq!(p.stack.ledger_ref().queued(0), Some((tries[1], 5)));
    assert_eq!(p.stack.ledger_ref().queued(1), Some((tries[2], 10)));
    // Block N + 2: the rest of the second trie, and with the ten deletions that are left
    // all of the third.
    assert_eq!(p.on_idle(w(15, 0)), w(15, 0));
    assert_eq!(p.stack.ledger_ref().queue_len(), 0);
    // Block N + 3.
    assert_eq!(p.on_idle(w(15, 0)), w(0, 0));
    assert_eq!(p.stack.ledger_ref().queue_len(), 0);
}

#[test]
fn partly_drained_entry_stays_at_the_head() {
    let mut p = with_code();
    let a = deploy(&mut p, 0, 0);
    let b = deploy(&mut p, 1, 0);
    fill(&mut p, a, 10);
    fill(&mut p, b, 10);
    let trie_a = p.stack.ledger_ref().contract_info(&a).unwrap().trie_id;
    end(&mut p, a);
    end(&mut p, b);
    assert_eq!(p.on_idle(w(4, 0)), w(4, 0));
    assert_eq!(p.stack.ledger_ref().queued(0), Some((trie_a, 6)));
    assert_eq!(p.stack.ledger_ref().queue_len(), 2);
    // Less weight is used when the queue runs empty before the budget does.
    assert_eq!(p.on_idle(w(100, 0)), w(16, 0));
    assert_eq!(p.stack.ledger_ref().queue_len(), 0);
}

#[test]
fn on_initialize_drains_only_a_full_queue() {
    let mut p = with_code();
    let contracts: Vec<[u8; 32]> = (0..3u8).map(|i| deploy(&mut p, i, 0)).collect();
    for c in &contracts {
        fill(&mut p, *c, 10);
    }
    end(&mut p, contracts[0]);
    end(&mut p, contracts[1]);
    assert_eq!(p.on_initialize(), w(0, 0));
    assert_eq!(p.stack.ledger_ref().queue_len(), 2);
    end(&mut p, contracts[2]);
    // The block has used all but 12 of its weight; the configured limit is 15.
    p.set_block(1, 0, w(988, 0));
    assert_eq!(p.on_initialize(), w(12, 0));
    assert_eq!(p.stack.ledger_ref().queue_len(), 2);
    assert_eq!(p.stack.ledger_ref().queued(0).unwrap().1, 8);
    p.set_block(2, 0, w(0, 0));
    assert_eq!(p.on_idle(w(1000, 0)), w(18, 0));
}

// Dry runs.

#[test]
fn a_dry_run_needs_what_it_set_aside_for_a_sub_call() {
    let mut p = with_code();
    let a = deploy(&mut p, 0, 0);
    let b = deploy(&mut p, 1, 0);
    let dry = p.bare_call(ALICE, a, 0, gas(), None, vec![], false, Determinism::Deterministic);
    assert!(matches!(dry, Progress::Run { .. }));
    // The load of the code of the root frame takes 3, the fee of the call 1, the load of the
    // code of the callee 3; then 10_000 are set aside for the callee, which uses 1 of them.
    assert!(matches!(sub_call(&mut p, CallFlags::empty(), b), Ok(Started::Run { .. })));
    p.stack.charge(w(1, 0)).unwrap();
    assert!(p.stack.finish(returned()).is_ok());
    let report = p.finish_bare_call(returned());
    assert_eq!(report.gas_consumed, w(3 + 1 + 3 + 1, 0));
    assert_eq!(report.gas_required, w(3 + 1 + 3 + 10_000, 10_000));

    // A callee that gets all that is left sets nothing aside.
    let dry = p.bare_call(ALICE, a, 0, gas(), None, vec![], false, Determinism::Deterministic);
    assert!(matches!(dry, Progress::Run { .. }));
    let all = p.stack.call(CallFlags::empty(), b, gas(), None, 0, vec![]);
    assert!(matches!(all, Ok(Started::Run { .. })));
    p.stack.charge(w(1, 0)).unwrap();
    assert!(p.stack.finish(returned()).is_ok());
    let report = p.finish_bare_call(returned());
    assert_eq!(report.gas_consumed, w(3 + 1 + 3 + 1, 0));
    assert_eq!(report.gas_required, w(3 + 1 + 3 + 1, 0));

    // After a trap the whole budget of the frame was needed.
    let dry = p.bare_call(ALICE, a, 0, gas(), None, vec![], false, Determinism::Deterministic);
    assert!(matches!(dry, Progress::Run { .. }));
    let report = p.finish_bare_call(Outcome::Trapped(Error::ContractTrapped));
    assert_eq!(report.gas_consumed, gas());
    assert_eq!(report.gas_required, gas());
}

#[test]
fn dry_run_of_a_call_changes_nothing() {
    let mut p = with_code();
    let a = deploy(&mut p, 0, 100);
    let events = p.stack.ledger_ref().events().len();
    let alice = p.stack.ledger_ref().balance(&ALICE);
    let dry = p.bare_call(ALICE, a, 50, gas(), None, vec![], false, Determinism::Deterministic);
    assert!(matches!(dry, Progress::Run { .. }));
    p.stack.set_storage(&var(&[1]), vec![0; 10]).unwrap();
    p.stack.transfer(&CHARLIE, 60).unwrap();
    let report = p.finish_bare_call(Outcome::Returned { flags: 0, data: vec![1] });
    assert_eq!(report.result.unwrap().data, vec![1]);
    assert_eq!(report.gas_consumed, w(3 + 1 + 1, 0));
    // Nothing was set aside for a sub-call, so no more was needed than was used.
    assert_eq!(report.gas_required, w(3 + 1 + 1, 0));
    assert_eq!(report.storage_deposit, StorageDeposit::Charge(11 + 2));
    assert_eq!(report.debug_message, Vec::<u8>::new());
    assert_eq!(p.get_storage(a, vec![1]), Ok(None));
    assert_eq!(p.stack.ledger_ref().balance(&a).free, 100);
    assert_eq!(p.stack.ledger_ref().balance(&CHARLIE).free, 0);
    assert_eq!(p.stack.ledger_ref().balance(&ALICE), alice);
    assert_eq!(p.stack.ledger_ref().events().len(), events);

    let refused = p.bare_call(ALICE, CHARLIE, 0, gas(), None, vec![], true, Determinism::Deterministic);
    match refused {
        Progress::Done(report) => {
            assert_eq!(report.result.unwrap_err(), DispatchError::Contract(Error::ContractNotFound));
            assert_eq!(report.gas_consumed, w(0, 0));
        },
        Progress::Run { .. } => panic!("started"),
    }
}

#[test]
fn dry_run_of_an_instantiation_changes_nothing() {
    let mut p = funded();
    let dry = p.bare_instantiate::<DefaultAddressGenerator>(
        ALICE,
        20,
        gas(),
        None,
        Code::Upload(code()),
        Some(code()),
        vec![],
        vec![1],
        false,
    );
    let address = match dry {
        Progress::Run { account_id, .. } => account_id,
        Progress::Done(_) => panic!("refused"),
    };
    let report = p.finish_bare_instantiate(returned());
    let value = report.result.unwrap();
    assert_eq!(value.account_id, address);
    assert_eq!(report.storage_deposit, StorageDeposit::Charge(9));
    assert!(p.stack.ledger_ref().contract_info(&address).is_none());
    assert!(p.stack.ledger_ref().code(&hash_code(&code())).is_none());
    assert_eq!(p.stack.ledger_ref().balance(&ALICE).free, 1_000_000);
    assert_eq!(p.stack.ledger_ref().nonce(), 0);

    let refused = p.bare_instantiate::<DefaultAddressGenerator>(
        ALICE,
        0,
        gas(),
        None,
        Code::Existing(hash_code(&code())),
        None,
        vec![],
        vec![1],
        false,
    );
    match refused {
        Progress::Done(report) => {
            assert_eq!(report.result.unwrap_err(), DispatchError::Contract(Error::CodeNotFound))
        },
        Progress::Run { .. } => panic!("started"),
    }
}

// The configuration.

#[test]
fn integrity_of_the_configuration() {
    let mut c = config();
    // (64 * 72 + 1 MiB + 1 MiB) * 3 is far below 64 MiB.
    assert!(c.integrity_test());
    c.max_debug_buffer_len = 256;
    assert!(!c.integrity_test());
    c.max_debug_buffer_len = 257;
    assert!(c.integrity_test());
    // (max_code_len * 72 + 2 MiB) * 3 < 64 MiB  <=>  max_code_len <= 281_562
    c.max_code_len = 281_562;
    assert!(c.integrity_test());
    c.max_code_len = 281_563;
    assert!(!c.integrity_test());
    c.max_code_len = 64;
    c.call_stack_size = 30;
    assert!(c.integrity_test());
    c.call_stack_size = 31;
    assert!(!c.integrity_test());
    assert_eq!(c.schedule.limits.max_memory_size(), 16 * 64 * 1024);
    assert_eq!(c.code_deposit(3), 9);
    assert_eq!(Pallet::new(config()).min_balance(), 10);
    assert!(config().integrity_test());
    Pallet::new(config()).integrity_test();
}

#[test]
fn integrity_counts_the_root_frame_and_wants_more_than_the_least_debug_buffer() {
    let mut c = config();
    c.call_stack_size = 5;
    c.max_code_len = 130_000;
    c.max_debug_buffer_len = 2 * 1024 * 1024;
    assert_eq!(c.schedule.limits.max_memory_size(), 1_048_576);
    // (130_000 * 72 + 1 MiB + 1 MiB) * 6 is 68_742_912, which is not below 64 MiB.
    assert!(!c.integrity_test());
    // One frame less would pass: the root frame counts.
    c.call_stack_size = 4;
    assert!(c.integrity_test());
    c.call_stack_size = 5;
    c.max_code_len = 125_952;
    assert!(c.integrity_test());
    c.max_debug_buffer_len = 256;
    assert!(!c.integrity_test());
    c.max_debug_buffer_len = 257;
    assert!(c.integrity_test());
    Pallet::new(c).integrity_test();
}

#[test]
fn every_error_has_a_code_of_its_own() {
    let errors = [
        Error::InvalidScheduleVersion,
        Error::InvalidCallFlags,
        Error::OutOfGas,
        Error::OutputBufferTooSmall,
        Error::TransferFailed,
        Error::MaxCallDepthReached,
        Error::ContractNotFound,
        Error::CodeTooLarge,
        Error::CodeNotFound,
        Error::OutOfBounds,
        Error::DecodingFailed,
        Error::ContractTrapped,
        Error::ValueTooLarge,
        Error::TerminatedWhileReentrant,
        Error::InputForwarded,
        Error::RandomSubjectTooLong,
        Error::TooManyTopics,
        Error::NoChainExtension,
        Error::DeletionQueueFull,
        Error::DuplicateContract,
        Error::TerminatedInConstructor,
        Error::DebugMessageInvalidUTF8,
        Error::ReentranceDenied,
        Error::StorageDepositNotEnoughFunds,
        Error::StorageDepositLimitExhausted,
        Error::CodeInUse,
        Error::ContractReverted,
        Error::CodeRejected,
        Error::Indeterministic,
    ];
    for (i, a) in errors.iter().enumerate() {
        for (j, b) in errors.iter().enumerate() {
            assert_eq!(a.code() == b.code(), i == j);
        }
    }
}

// Tail calls, stale code and read only frames.

#[test]
fn tail_call_replaces_the_frame_of_the_caller() {
    let mut p = with_code();
    let a = deploy(&mut p, 0, 100);
    let b = deploy(&mut p, 1, 0);
    let c = deploy(&mut p, 2, 0);
    let d = deploy(&mut p, 3, 0);
    start_call(&mut p, a);
    assert!(matches!(sub_call(&mut p, CallFlags::empty(), b), Ok(Started::Run { .. })));
    assert!(matches!(sub_call(&mut p, CallFlags::empty(), c), Ok(Started::Run { .. })));
    assert_eq!(p.stack.frame_count(), 3);
    p.stack.set_storage(&var(&[1]), vec![1]).unwrap();
    let gas_before = p.stack.gas_left();
    // The stack is as deep as it may get, and still C can hand over to D.
    let tail = CallFlags::from_bits(4).unwrap();
    assert!(tail.tail_call);
    let started = p.stack.call(tail, d, w(1, 1), None, 0, vec![6]);
    assert!(matches!(started, Ok(Started::Run { .. })));
    assert_eq!(p.stack.frame_count(), 3);
    assert_eq!(p.stack.address(), Ok(d));
    assert_eq!(p.stack.caller(), Ok(c));
    assert_eq!(p.stack.input(), Ok(vec![6]));
    // D has all the gas that C had, less the fee of the call, the load of the code and the
    // three queries just above.
    assert_eq!(p.stack.gas_left(), gas_before.saturating_sub(&w(1 + 3 + 3, 0)));
    // D runs over the storage deposit that C accrued.
    assert_eq!(p.stack.storage_deposit(), StorageDeposit::Charge(4));
    assert_eq!(
        p.stack.ledger_ref().events().last().unwrap().event,
        Event::Called { caller: b, contract: c }
    );
    // D reverts: what C wrote is gone with it, and B sees the call to C as reverted.
    let result = p.stack.finish(reverted()).unwrap();
    assert!(result.did_revert());
    assert_eq!(p.stack.address(), Ok(b));
    assert_eq!(p.stack.ledger_ref().storage_get(&c, &[1u8, 1]), None);
    assert!(p.stack.finish(returned()).is_ok());
    assert!(p.finish_dispatch(returned()).is_ok());
}

#[test]
fn tail_call_that_commits_keeps_the_changes_of_both() {
    let mut p = with_code();
    let a = deploy(&mut p, 0, 0);
    let b = deploy(&mut p, 1, 0);
    start_call(&mut p, a);
    p.stack.set_storage(&var(&[1]), vec![1]).unwrap();
    let tail = CallFlags::from_bits(4).unwrap();
    assert_eq!(
        p.stack.call(tail, CHARLIE, gas(), None, 0, vec![]).unwrap_err(),
        refusal(Error::ContractNotFound)
    );
    assert_eq!(p.stack.address(), Ok(a));
    assert!(matches!(p.stack.call(tail, b, gas(), None, 0, vec![]), Ok(Started::Run { .. })));
    assert_eq!(p.stack.frame_count(), 1);
    p.stack.set_storage(&var(&[2]), vec![2, 2]).unwrap();
    assert!(p.finish_dispatch(Outcome::Returned { flags: 0, data: vec![1] }).is_ok());
    assert_eq!(p.get_storage(a, vec![1]), Ok(Some(vec![1])));
    assert_eq!(p.get_storage(b, vec![2]), Ok(Some(vec![2, 2])));
    // A keeps two bytes and one item, B three bytes and one item
    assert_eq!(p.stack.ledger_ref().balance(&ALICE).reserved, 9 + 4 + 5);
}

#[test]
fn read_only_is_handed_down() {
    let mut p = with_code();
    let a = deploy(&mut p, 0, 0);
    let b = deploy(&mut p, 1, 0);
    let c = deploy(&mut p, 2, 0);
    start_call(&mut p, a);
    assert!(!p.stack.is_read_only());
    let read_only = CallFlags::from_bits(16).unwrap();
    assert!(matches!(sub_call(&mut p, read_only, b), Ok(Started::Run { .. })));
    assert!(p.stack.is_read_only());
    assert!(matches!(sub_call(&mut p, CallFlags::empty(), c), Ok(Started::Run { .. })));
    assert!(p.stack.is_read_only());
    assert!(p.stack.finish(returned()).is_ok());
    assert!(p.stack.finish(returned()).is_ok());
    assert!(!p.stack.is_read_only());
    assert!(p.finish_dispatch(returned()).is_ok());
}

#[test]
fn stale_code_is_instrumented_again_at_the_cost_of_the_frame() {
    let hash = hash_code(&code());
    let a = [7u8; 32];
    let mut ledger = State::new();
    ledger.set_balance(&ALICE, AccountData { free: 1_000_000, reserved: 9 });
    ledger.set_code(
        &hash,
        Some(CodeEntry {
            pristine: code(),
            instrumented: code(),
            instruction_weights_version: 0,
            owner: ALICE,
            deposit: 9,
            refcount: 1,
            determinism: Determinism::Deterministic,
        }),
    );
    ledger.create_contract(
        &a,
        ContractInfo {
            trie_id: [8; 32],
            code_hash: hash,
            storage_bytes: 0,
            storage_items: 0,
            storage_byte_deposit: 0,
            storage_item_deposit: 0,
        },
    );
    assert!(is_exact(&ledger, &config()));
    let mut p = Pallet::with_ledger(config(), ledger);
    match p.call(Origin::Signed(ALICE), a, 0, gas(), None, vec![]) {
        Progress::Run { stale, .. } => assert!(stale),
        Progress::Done(r) => panic!("refused {:?}", r),
    }
    let left = p.stack.gas_left();
    assert_eq!(p.stack.reinstrument(vec![0; 65]), Err(Error::CodeTooLarge));
    assert_eq!(p.stack.gas_left(), left);
    assert_eq!(p.stack.reinstrument(vec![7, 7]), Ok(()));
    // three bytes of pristine code are instrumented
    assert_eq!(p.stack.gas_left(), left.saturating_sub(&w(3, 0)));
    assert!(p.finish_dispatch(returned()).is_ok());
    let entry = p.stack.ledger_ref().code(&hash).unwrap();
    assert_eq!(entry.instrumented, vec![7, 7]);
    assert_eq!(entry.instruction_weights_version, 1);
    assert_eq!(entry.pristine, code());
    match p.call(Origin::Signed(ALICE), a, 0, gas(), None, vec![]) {
        Progress::Run { stale, .. } => assert!(!stale),
        Progress::Done(r) => panic!("refused {:?}", r),
    }
    assert!(p.finish_dispatch(returned()).is_ok());
}

#[test]
fn a_frame_that_cannot_pay_for_the_instrumentation_keeps_its_stale_code() {
    let hash = hash_code(&code());
    let a = [7u8; 32];
    let mut ledger = State::new();
    ledger.set_balance(&ALICE, AccountData { free: 1_000_000, reserved: 9 });
    ledger.set_code(
        &hash,
        Some(CodeEntry {
            pristine: code(),
            instrumented: code(),
            instruction_weights_version: 0,
            owner: ALICE,
            deposit: 9,
            refcount: 1,
            determinism: Determinism::Deterministic,
        }),
    );
    ledger.create_contract(
        &a,
        ContractInfo {
            trie_id: [8; 32],
            code_hash: hash,
            storage_bytes: 0,
            storage_items: 0,
            storage_byte_deposit: 0,
            storage_item_deposit: 0,
        },
    );
    let mut p = Pallet::try_with_ledger(config(), ledger).unwrap();
    // The load of three bytes leaves two of five, and three bytes are to be instrumented.
    match p.call(Origin::Signed(ALICE), a, 0, w(5, 0), None, vec![]) {
        Progress::Run { stale, .. } => assert!(stale),
        Progress::Done(r) => panic!("refused {:?}", r),
    }
    assert_eq!(p.stack.gas_left(), w(2, 0));
    assert_eq!(p.stack.reinstrument(vec![7, 7]), Err(Error::OutOfGas));
    assert_eq!(p.stack.gas_left(), w(2, 0));
    assert!(p.finish_dispatch(returned()).is_ok());
    let entry = p.stack.ledger_ref().code(&hash).unwrap();
    assert_eq!(entry.instrumented, code());
    assert_eq!(entry.instruction_weights_version, 0);
    // One more, and the frame can pay.
    match p.call(Origin::Signed(ALICE), a, 0, w(6, 0), None, vec![]) {
        Progress::Run { stale, .. } => assert!(stale),
        Progress::Done(r) => panic!("refused {:?}", r),
    }
    assert_eq!(p.stack.reinstrument(vec![7, 7]), Ok(()));
    assert_eq!(p.stack.gas_left(), w(0, 0));
    assert!(p.finish_dispatch(returned()).is_ok());
    assert_eq!(p.stack.ledger_ref().code(&hash).unwrap().instrumented, vec![7, 7]);
}

// The invariants of the ledger, on one run.

#[test]
fn storage_counters_equal_the_storage() {
    let mut p = with_code();
    let a = deploy(&mut p, 0, 0);
    start_call(&mut p, a);
    p.stack.set_storage(&var(&[1]), vec![0; 10]).unwrap();
    p.stack.set_storage(&var(&[2]), vec![0; 20]).unwrap();
    p.stack.set_storage(&var(&[1]), vec![0; 4]).unwrap();
    p.stack.set_storage(&StorageKey::Fix([3; 32]), vec![0; 7]).unwrap();
    p.stack.clear_storage(&var(&[2])).unwrap();
    p.stack.clear_storage(&var(&[9])).unwrap();
    assert!(p.finish_dispatch(returned()).is_ok());
    let info = p.stack.ledger_ref().contract_info(&a).unwrap();
    // a key of one byte with four bytes, a key of 32 bytes with seven
    assert_eq!(info.storage_bytes, (1 + 4) + (32 + 7));
    assert_eq!(info.storage_items, 2);
    assert_eq!(info.storage_byte_deposit, 44);
    assert_eq!(info.storage_item_deposit, 4);
    assert_eq!(p.stack.ledger_ref().storage_len(&a, &[1u8, 1]), Some(4));
    let mut fixed = vec![0u8];
    fixed.extend_from_slice(&[3; 32]);
    assert_eq!(p.stack.ledger_ref().storage_len(&a, &fixed), Some(7));
    assert_eq!(p.stack.ledger_ref().storage_len(&a, &[1u8, 2]), None);
}

#[test]
fn refcount_equals_the_number_of_contracts() {
    let mut p = with_code();
    p.upload_code(
        Origin::Signed(BOB),
        other_code(),
        Some(other_code()),
        None,
        Determinism::Deterministic,
    )
    .unwrap();
    let k1 = hash_code(&code());
    let k2 = hash_code(&other_code());
    let a = deploy(&mut p, 0, 0);
    let b = deploy(&mut p, 1, 0);
    let _c = deploy(&mut p, 2, 0);
    assert_eq!(p.stack.ledger_ref().code(&k1).unwrap().refcount, 3);
    assert_eq!(p.stack.ledger_ref().code(&k2).unwrap().refcount, 0);
    end(&mut p, a);
    assert_eq!(p.stack.ledger_ref().code(&k1).unwrap().refcount, 2);
    assert_eq!(p.set_code(Origin::Root, b, k2), Ok(()));
    assert_eq!(p.stack.ledger_ref().code(&k1).unwrap().refcount, 1);
    assert_eq!(p.stack.ledger_ref().code(&k2).unwrap().refcount, 1);
    // A constructor that fails takes its count back.
    let started = p.instantiate::<DefaultAddressGenerator>(
        Origin::Signed(ALICE),
        0,
        gas(),
        None,
        k2,
        vec![],
        vec![7],
    );
    assert!(matches!(started, Progress::Run { .. }));
    assert_eq!(p.stack.ledger_ref().code(&k2).unwrap().refcount, 2);
    assert!(p.finish_dispatch(Outcome::Trapped(Error::ContractTrapped)).is_err());
    assert_eq!(p.stack.ledger_ref().code(&k2).unwrap().refcount, 1);
}

#[test]
fn nonce_moves_on_and_trie_ids_differ() {
    let mut p = with_code();
    let a = deploy(&mut p, 0, 0);
    assert_eq!(p.stack.ledger_ref().nonce(), 1);
    let first = p.stack.ledger_ref().contract_info(&a).unwrap().trie_id;
    end(&mut p, a);
    // The same account is created again, in the same block: its trie is another.
    let again = deploy(&mut p, 0, 0);
    assert_eq!(again, a);
    assert_eq!(p.stack.ledger_ref().nonce(), 2);
    let second = p.stack.ledger_ref().contract_info(&a).unwrap().trie_id;
    assert_ne!(first, second);
    assert_eq!(first, pallet_contracts::address::generate_trie_id(&a, 1));
    assert_eq!(second, pallet_contracts::address::generate_trie_id(&a, 2));
}

#[test]
fn balance_is_neither_created_nor_destroyed() {
    let mut p = with_code();
    let a = deploy(&mut p, 0, 500);
    let b = deploy(&mut p, 1, 0);
    let total = |p: &Pallet| -> u128 {
        [ALICE, BOB, CHARLIE, a, b]
            .iter()
            .map(|who| {
                let d = p.stack.ledger_ref().balance(who);
                d.free + d.reserved
            })
            .sum()
    };
    assert_eq!(total(&p), 2_000_000);
    start_call(&mut p, a);
    p.stack.transfer(&CHARLIE, 100).unwrap();
    p.stack.set_storage(&var(&[1]), vec![0; 50]).unwrap();
    assert!(matches!(
        p.stack.call(CallFlags::empty(), b, gas(), None, 200, vec![]),
        Ok(Started::Run { .. })
    ));
    p.stack.transfer(&BOB, 150).unwrap();
    assert_eq!(total(&p), 2_000_000);
    assert!(p.stack.finish(returned()).is_ok());
    assert_eq!(p.stack.terminate(&CHARLIE), Ok(()));
    assert!(p.finish_dispatch(returned()).is_ok());
    assert_eq!(total(&p), 2_000_000);
    assert_eq!(p.stack.ledger_ref().balance(&a).free, 0);
    assert_eq!(p.stack.ledger_ref().balance(&b).free, 50);
    assert_eq!(p.stack.ledger_ref().balance(&CHARLIE).free, 100 + 200);
    assert_eq!(p.stack.ledger_ref().balance(&BOB).free, 1_000_000 + 150);
}

#[test]
fn root_deposit_is_what_is_reserved_from_the_origin() {
    let mut p = with_code();
    let a = deploy(&mut p, 0, 0);
    let before = p.stack.ledger_ref().balance(&ALICE);
    let dry = p.bare_call(ALICE, a, 0, gas(), None, vec![], false, Determinism::Deterministic);
    assert!(matches!(dry, Progress::Run { .. }));
    p.stack.set_storage(&var(&[1]), vec![0; 30]).unwrap();
    let expected = p.finish_bare_call(returned()).storage_deposit;
    assert_eq!(expected, StorageDeposit::Charge(33));

    start_call(&mut p, a);
    p.stack.set_storage(&var(&[1]), vec![0; 30]).unwrap();
    assert!(p.finish_dispatch(returned()).is_ok());
    let after = p.stack.ledger_ref().balance(&ALICE);
    assert_eq!(after.reserved - before.reserved, 33);
    assert_eq!(before.free - after.free, 33);
}

#[test]
fn old_weight_instantiations_use_the_compatible_limit() {
    let mut p = with_code();
    let started = p.instantiate_old_weight::<DefaultAddressGenerator>(
        Origin::Signed(ALICE),
        0,
        1000,
        None,
        hash_code(&code()),
        vec![],
        vec![3],
    );
    assert!(matches!(started, Progress::Run { .. }));
    assert_eq!(p.stack.gas_left(), w(1000 - 3, 128));
    assert!(p.finish_dispatch(returned()).is_ok());

    let started = p.instantiate_with_code_old_weight::<DefaultAddressGenerator>(
        Origin::Signed(BOB),
        0,
        500,
        None,
        other_code(),
        Some(other_code()),
        vec![],
        vec![],
    );
    assert!(matches!(started, Progress::Run { .. }));
    assert_eq!(p.stack.gas_left(), w(500 - 4, 128));
    let result = p.finish_dispatch(returned()).unwrap();
    assert_eq!(result.actual_weight, Some(w(4 + 30 + 4, 0)));
    assert_eq!(p.stack.ledger_ref().balance(&BOB).reserved, 4 + 6);
}

// The order of refusals of an instantiation, and what a refused instantiation leaves.

#[test]
fn instantiation_looks_for_the_code_before_the_means_of_the_origin() {
    let mut p = Pallet::new(config());
    let refused = p.instantiate::<DefaultAddressGenerator>(
        Origin::Signed(CHARLIE),
        0,
        w(u64::MAX, u64::MAX),
        Some(1),
        [0u8; 32],
        vec![],
        vec![],
    );
    assert_eq!(dispatch_error(refused), DispatchError::Contract(Error::CodeNotFound));
    assert_eq!(p.stack.ledger_ref().nonce(), 0);
    assert_eq!(p.stack.ledger_ref().balance(&CHARLIE).free, 0);
    assert!(p.stack.ledger_ref().code(&[0u8; 32]).is_none());

    let report = p.bare_instantiate::<DefaultAddressGenerator>(
        CHARLIE,
        0,
        w(u64::MAX, u64::MAX),
        Some(1),
        Code::Existing([0u8; 32]),
        None,
        vec![],
        vec![],
        false,
    );
    match report {
        Progress::Done(report) => {
            assert_eq!(report.result.unwrap_err(), DispatchError::Contract(Error::CodeNotFound));
            assert_eq!(report.storage_deposit, StorageDeposit::Charge(0));
            assert_eq!(report.gas_consumed, w(0, 0));
        },
        Progress::Run { .. } => panic!("started"),
    }
}

#[test]
fn instantiation_pays_for_the_load_before_it_asks_for_the_deposit_limit() {
    let mut p = with_code();
    let hash = hash_code(&code());
    // Neither the gas for the load nor the deposit limit is there: the gas is asked first.
    let no_gas = p.instantiate::<DefaultAddressGenerator>(
        Origin::Signed(ALICE),
        0,
        w(2, 0),
        Some(u128::MAX),
        hash,
        vec![],
        vec![],
    );
    assert_eq!(dispatch_error(no_gas), DispatchError::Contract(Error::OutOfGas));
    // The deposit limit is asked before the address, the value and the rest.
    deploy(&mut p, 0, 0);
    let report = p.bare_instantiate::<DefaultAddressGenerator>(
        ALICE,
        2_000_000,
        gas(),
        Some(u128::MAX),
        Code::Existing(hash),
        None,
        vec![],
        vec![0],
        false,
    );
    match report {
        Progress::Done(report) => {
            assert_eq!(
                report.result.unwrap_err(),
                DispatchError::Contract(Error::StorageDepositNotEnoughFunds)
            );
            // the load of three bytes of code was paid for
            assert_eq!(report.gas_consumed, w(3, 0));
            assert_eq!(report.storage_deposit, StorageDeposit::Charge(0));
        },
        Progress::Run { .. } => panic!("started"),
    }
    let taken = p.bare_instantiate::<DefaultAddressGenerator>(
        ALICE,
        0,
        gas(),
        None,
        Code::Existing(hash),
        None,
        vec![],
        vec![0],
        false,
    );
    match taken {
        Progress::Done(report) => {
            assert_eq!(
                report.result.unwrap_err(),
                DispatchError::Contract(Error::DuplicateContract)
            );
            assert_eq!(report.gas_consumed, w(3, 0));
        },
        Progress::Run { .. } => panic!("started"),
    }
}

#[test]
fn origin_must_spare_the_value_beside_the_code_deposit() {
    let mut p = Pallet::new(config());
    // code deposit 9, value 50, existential deposit 10: one short
    p.endow(&CHARLIE, 9 + 50 + 10 - 1);
    let refused = p.instantiate_with_code::<DefaultAddressGenerator>(
        Origin::Signed(CHARLIE),
        50,
        gas(),
        None,
        code(),
        Some(code()),
        vec![],
        vec![],
    );
    assert_eq!(dispatch_error(refused), DispatchError::Contract(Error::TransferFailed));
    assert!(p.stack.ledger_ref().code(&hash_code(&code())).is_none());
    assert_eq!(p.stack.ledger_ref().balance(&CHARLIE), AccountData { free: 68, reserved: 0 });
    assert_eq!(p.stack.ledger_ref().nonce(), 0);

    let report = p.bare_instantiate::<DefaultAddressGenerator>(
        CHARLIE,
        50,
        gas(),
        None,
        Code::Upload(code()),
        Some(code()),
        vec![],
        vec![],
        false,
    );
    match report {
        Progress::Done(report) => {
            assert_eq!(report.result.unwrap_err(), DispatchError::Contract(Error::TransferFailed));
            assert_eq!(report.storage_deposit, StorageDeposit::Charge(9));
            assert_eq!(report.gas_consumed, w(3, 0));
        },
        Progress::Run { .. } => panic!("started"),
    }
    // A limit that the origin cannot spare beside the code deposit is refused as well.
    let limit = p.instantiate_with_code::<DefaultAddressGenerator>(
        Origin::Signed(CHARLIE),
        0,
        gas(),
        Some(50),
        code(),
        Some(code()),
        vec![],
        vec![],
    );
    assert_eq!(
        dispatch_error(limit),
        DispatchError::Contract(Error::StorageDepositNotEnoughFunds)
    );
    p.endow(&CHARLIE, 9 + 50 + 10);
    let started = p.instantiate_with_code::<DefaultAddressGenerator>(
        Origin::Signed(CHARLIE),
        50,
        gas(),
        None,
        code(),
        Some(code()),
        vec![],
        vec![],
    );
    assert!(matches!(started, Progress::Run { .. }));
    assert!(p.finish_dispatch(returned()).is_ok());
    assert_eq!(p.stack.ledger_ref().balance(&CHARLIE), AccountData { free: 10, reserved: 9 });
}

#[test]
fn no_contract_is_instantiated_once_the_nonce_cannot_rise() {
    let mut p = Pallet::try_with_ledger(config(), State::with_nonce(u64::MAX - 1)).unwrap();
    p.endow(&ALICE, 1_000_000);
    p.upload_code(Origin::Signed(ALICE), code(), Some(code()), None, Determinism::Deterministic)
        .unwrap();
    deploy(&mut p, 0, 0);
    assert_eq!(p.stack.ledger_ref().nonce(), u64::MAX);
    let refused = p.instantiate::<DefaultAddressGenerator>(
        Origin::Signed(ALICE),
        0,
        gas(),
        None,
        hash_code(&code()),
        vec![],
        vec![1],
    );
    assert_eq!(dispatch_error(refused), DispatchError::Contract(Error::DuplicateContract));
    assert_eq!(p.stack.ledger_ref().nonce(), u64::MAX);
    assert_eq!(p.stack.ledger_ref().code(&hash_code(&code())).unwrap().refcount, 1);
}
