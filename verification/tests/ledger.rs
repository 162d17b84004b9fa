use pallet_contracts::code_cache::{add_user, load, remove_user};
use pallet_contracts::config::{Config, DispatchWeights, HostFnWeights, Limits, Schedule};
use pallet_contracts::deletion::{deletion_budget, process_deletion_queue_batch};
use pallet_contracts::deposit::{Meter, StorageDeposit};
use pallet_contracts::error::Error;
use pallet_contracts::gas::GasMeter;
use pallet_contracts::ledger::{reserve, transfer, unreserve};
use pallet_contracts::pallet::Pallet;
use pallet_contracts::primitives::Determinism;
use pallet_contracts::recount::is_exact;
use pallet_contracts::state::{AccountData, CodeEntry, ContractInfo, State};
use pallet_contracts::storage::{contains, read, size, take, StorageKey, WriteOutcome};
use pallet_contracts::table::{bytes_eq, Table};
use pallet_contracts::weight::Weight;

const ALICE: [u8; 32] = [1u8; 32];
const BOB: [u8; 32] = [2u8; 32];
const HASH: [u8; 32] = [9u8; 32];

fn w(ref_time: u64, proof_size: u64) -> Weight {
    Weight::from_parts(ref_time, proof_size)
}

fn config() -> Config {
    let one = w(1, 0);
    Config {
        schedule: Schedule {
            limits: Limits { event_topics: 2, memory_pages: 16, subject_len: 4, payload_len: 512 },
            instruction_weights_version: 1,
            host_fn_weights: HostFnWeights {
                query: one,
                input: one,
                per_byte: one,
                transfer: one,
                call: one,
                delegate_call: one,
                instantiate: one,
                terminate: one,
                set_storage: one,
                set_storage_per_byte: one,
                clear_storage: one,
                get_storage: one,
                contains_storage: one,
                take_storage: one,
                deposit_event: one,
                deposit_event_per_topic: one,
                random: one,
                debug_message: one,
                set_code_hash: one,
            },
            code_load_per_byte: w(2, 1),
            reinstrument_per_byte: one,
        },
        weights: DispatchWeights {
            call: one,
            instantiate: one,
            instantiate_per_input_byte: one,
            instantiate_per_salt_byte: one,
            instantiate_with_code: one,
            instantiate_with_code_per_code_byte: one,
            upload_code: one,
            upload_code_per_byte: one,
            remove_code: one,
            set_code: one,
            on_process_deletion_queue_batch: w(10, 0),
            on_initialize_per_queue_item: w(2, 0),
            on_initialize_per_trie_key: w(3, 0),
        },
        call_stack_size: 2,
        deletion_queue_depth: 3,
        deletion_weight_limit: w(15, 0),
        deposit_per_byte: 3,
        deposit_per_item: 5,
        max_code_len: 64,
        max_storage_key_len: 8,
        max_debug_buffer_len: 300,
        unsafe_unstable_interface: false,
        existential_deposit: 10,
        max_block_weight: w(1_000, 1_000),
        chain_extension: true,
    }
}

fn info() -> ContractInfo {
    ContractInfo {
        trie_id: [8; 32],
        code_hash: HASH,
        storage_bytes: 0,
        storage_items: 0,
        storage_byte_deposit: 0,
        storage_item_deposit: 0,
    }
}

fn entry(refcount: u64) -> CodeEntry {
    CodeEntry {
        pristine: vec![1, 2, 3],
        instrumented: vec![1, 2, 3, 4],
        instruction_weights_version: 1,
        owner: ALICE,
        deposit: 7,
        refcount,
        determinism: Determinism::Deterministic,
    }
}

#[test]
fn table_holds_one_value_per_key() {
    let mut t: Table<Vec<u8>> = Table::new();
    assert_eq!(t.len(), 0);
    assert_eq!(t.insert(&[1], vec![10]), None);
    assert_eq!(t.insert(&[2], vec![20]), None);
    assert_eq!(t.insert(&[1], vec![11]), Some(vec![10]));
    assert_eq!(t.len(), 2);
    assert_eq!(t.get(&[1]), Some(&vec![11]));
    assert_eq!(t.get(&[3]), None);
    assert!(t.contains_key(&[2]));
    assert_eq!(t.remove(&[1]), Some(vec![11]));
    assert_eq!(t.remove(&[1]), None);
    assert_eq!(t.pop(), Some((vec![2], vec![20])));
    assert_eq!(t.pop(), None);
    assert!(bytes_eq(&[1, 2], &[1, 2]));
    assert!(!bytes_eq(&[1, 2], &[1, 3]));
    assert!(!bytes_eq(&[1, 2], &[1, 2, 3]));
}

#[test]
fn journal_takes_changes_back_to_a_checkpoint() {
    let mut s = State::new();
    s.set_balance(&ALICE, AccountData { free: 100, reserved: 0 });
    s.set_code(&HASH, Some(entry(0)));
    let mark = s.checkpoint();
    s.set_balance(&ALICE, AccountData { free: 40, reserved: 60 });
    s.set_balance(&BOB, AccountData { free: 1, reserved: 0 });
    s.create_contract(&BOB, info());
    s.set_storage(&BOB, &[1], Some(vec![5, 5]));
    s.set_storage(&BOB, &[1], None);
    s.set_storage(&BOB, &[2], Some(vec![6]));
    s.set_refcount(&HASH, 3);
    assert_eq!(s.bump_nonce(), 1);
    let inner = s.checkpoint();
    s.terminate(&BOB);
    s.set_code(&HASH, None);
    assert_eq!(s.queue_len(), 1);
    assert_eq!(s.queued(0), Some(([8; 32], 1)));
    s.revert_to(inner);
    assert_eq!(s.queue_len(), 0);
    assert_eq!(s.storage_get(&BOB, &[2]), Some(vec![6]));
    assert_eq!(s.code(&HASH).unwrap().refcount, 3);
    s.revert_to(mark);
    assert_eq!(s.balance(&ALICE), AccountData { free: 100, reserved: 0 });
    assert_eq!(s.balance(&BOB), AccountData { free: 0, reserved: 0 });
    assert!(s.contract_info(&BOB).is_none());
    assert_eq!(s.code(&HASH).unwrap().refcount, 0);
    assert_eq!(s.nonce(), 0);
    assert_eq!(s.checkpoint(), mark);
    s.commit();
    assert_eq!(s.checkpoint(), 0);
    assert_eq!(s.balance(&ALICE).free, 100);
}

#[test]
fn ledger_transfers_and_reserves() {
    let mut s = State::new();
    s.set_balance(&ALICE, AccountData { free: 100, reserved: 0 });
    assert_eq!(transfer(&mut s, &ALICE, &BOB, 101, 10, false), Err(Error::TransferFailed));
    assert_eq!(transfer(&mut s, &ALICE, &BOB, 95, 10, false), Err(Error::TransferFailed));
    assert_eq!(transfer(&mut s, &ALICE, &BOB, 9, 10, false), Err(Error::TransferFailed));
    assert_eq!(transfer(&mut s, &ALICE, &BOB, 100, 10, true), Err(Error::TransferFailed));
    assert_eq!(transfer(&mut s, &ALICE, &ALICE, 100, 10, true), Ok(()));
    assert_eq!(transfer(&mut s, &ALICE, &BOB, 0, 10, true), Ok(()));
    assert_eq!(s.balance(&ALICE).free, 100);
    assert_eq!(transfer(&mut s, &ALICE, &BOB, 100, 10, false), Ok(()));
    assert_eq!(s.balance(&ALICE).free, 0);
    assert_eq!(s.balance(&BOB).free, 100);
    assert_eq!(reserve(&mut s, &BOB, 101), Err(Error::StorageDepositNotEnoughFunds));
    assert_eq!(reserve(&mut s, &BOB, 30), Ok(()));
    assert_eq!(s.balance(&BOB), AccountData { free: 70, reserved: 30 });
    assert_eq!(unreserve(&mut s, &BOB, 50), 30);
    assert_eq!(s.balance(&BOB), AccountData { free: 100, reserved: 0 });
    assert_eq!(unreserve(&mut s, &BOB, 50), 0);
}

#[test]
fn storage_writes_account_for_keys_and_values() {
    let c = config();
    let mut s = State::new();
    s.create_contract(&ALICE, info());
    let mut meter = Meter::new(1_000_000, None, 0, 0).unwrap();
    let key = StorageKey::Var(vec![1, 2, 3]);
    let missing = pallet_contracts::storage::write(&mut s, &c, &BOB, &key, Some(vec![1]), &mut meter, false);
    assert_eq!(missing.unwrap_err(), Error::ContractNotFound);
    let fresh = pallet_contracts::storage::write(&mut s, &c, &ALICE, &key, Some(vec![0; 10]), &mut meter, false);
    assert!(matches!(fresh, Ok(WriteOutcome::New)));
    // three bytes of key and ten of value at 3 each, one item at 5
    assert_eq!(meter.total_deposit(), StorageDeposit::Charge(13 * 3 + 5));
    let info = s.contract_info(&ALICE).unwrap();
    assert_eq!((info.storage_bytes, info.storage_items), (13, 1));
    assert_eq!((info.storage_byte_deposit, info.storage_item_deposit), (39, 5));
    let over = pallet_contracts::storage::write(&mut s, &c, &ALICE, &key, Some(vec![0; 4]), &mut meter, false);
    assert!(matches!(over, Ok(WriteOutcome::Overwritten(10))));
    assert_eq!(meter.total_deposit(), StorageDeposit::Charge(7 * 3 + 5));
    assert_eq!(read(&s, &ALICE, &key), Some(vec![0; 4]));
    assert_eq!(size(&s, &ALICE, &key), Some(4));
    assert!(contains(&s, &ALICE, &key));
    assert!(!contains(&s, &ALICE, &StorageKey::Var(vec![1])));
    assert_eq!(take(&mut s, &c, &ALICE, &key, &mut meter), Ok(Some(vec![0; 4])));
    assert_eq!(take(&mut s, &c, &ALICE, &key, &mut meter), Ok(None));
    assert_eq!(meter.total_deposit(), StorageDeposit::Charge(0));
    assert_eq!(s.contract_info(&ALICE).unwrap().storage_bytes, 0);
    assert_eq!(StorageKey::try_from_var(vec![0; 9], 8).is_none(), true);
    assert_eq!(StorageKey::Fix([1; 32]).to_trie_key().len(), 33);
    assert_eq!(StorageKey::Fix([1; 32]).to_trie_key()[0], 0);
    assert_eq!(StorageKey::Var(vec![7]).to_trie_key(), vec![1, 7]);
    assert_eq!(StorageKey::Var(vec![7]).len(), 1);
}

#[test]
fn code_is_loaded_by_the_byte_and_counted_by_the_user() {
    let c = config();
    let mut s = State::new();
    let mut gas = GasMeter::new(w(100, 100));
    assert_eq!(load(&s, &c, &HASH, &mut gas).unwrap_err(), Error::CodeNotFound);
    s.set_code(&HASH, Some(entry(0)));
    let code = load(&s, &c, &HASH, &mut gas).unwrap();
    assert!(!code.stale);
    assert_eq!(code.code_hash, HASH);
    // four bytes of instrumented code at (2, 1) each
    assert_eq!(gas.gas_left(), w(92, 96));
    let mut poor = GasMeter::new(w(7, 100));
    assert_eq!(load(&s, &c, &HASH, &mut poor).unwrap_err(), Error::OutOfGas);
    assert_eq!(poor.gas_left(), w(7, 100));

    assert_eq!(add_user(&mut s, &[0; 32]), Err(Error::CodeNotFound));
    assert_eq!(add_user(&mut s, &HASH), Ok(()));
    assert_eq!(add_user(&mut s, &HASH), Ok(()));
    assert_eq!(s.code(&HASH).unwrap().refcount, 2);
    remove_user(&mut s, &HASH);
    remove_user(&mut s, &HASH);
    remove_user(&mut s, &HASH);
    remove_user(&mut s, &[0; 32]);
    assert_eq!(s.code(&HASH).unwrap().refcount, 0);
    assert!(s.code(&HASH).is_some());
}

#[test]
fn deletion_budget_is_the_weight_left_by_the_weight_of_a_deletion() {
    let c = config();
    // (100 - 10 - 2 * 3) / 3 = 28
    assert_eq!(deletion_budget(&c, 3, w(100, 0)), (w(3, 0), 28));
    assert_eq!(deletion_budget(&c, 3, w(16, 0)), (w(3, 0), 0));
    assert_eq!(deletion_budget(&c, 3, w(18, 0)), (w(3, 0), 0));
    assert_eq!(deletion_budget(&c, 3, w(19, 0)), (w(3, 0), 1));
    let mut free = config();
    free.weights.on_initialize_per_trie_key = w(0, 5);
    assert_eq!(deletion_budget(&free, 3, w(100, 0)), (w(0, 5), 0));
}

#[test]
fn deletion_batch_uses_the_weight_of_what_it_deletes() {
    let c = config();
    let mut s = State::new();
    s.create_contract(&ALICE, info());
    for i in 0..4u8 {
        s.set_storage(&ALICE, &[i], Some(vec![i]));
    }
    s.terminate(&ALICE);
    s.commit();
    assert_eq!(process_deletion_queue_batch(&mut s, &c, w(10, 0)), w(10, 0));
    assert_eq!(s.queued(0), Some(([8; 32], 4)));
    // the budget is (20 - 10 - 2) / 3 = 2 deletions, both are used
    assert_eq!(process_deletion_queue_batch(&mut s, &c, w(20, 0)), w(20, 0));
    assert_eq!(s.queued(0), Some(([8; 32], 2)));
    // the budget is (40 - 10 - 2) / 3 = 9 deletions, of which 7 are left over
    assert_eq!(process_deletion_queue_batch(&mut s, &c, w(40, 9)), w(40 - 21, 9));
    assert_eq!(s.queue_len(), 0);
    assert_eq!(process_deletion_queue_batch(&mut s, &c, w(40, 0)), w(0, 0));
}

#[test]
fn storage_refuses_what_its_counters_cannot_count() {
    let c = config();
    let mut s = State::new();
    let mut full = info();
    full.storage_items = u32::MAX;
    s.create_contract(&ALICE, full);
    let mut meter = Meter::new(1_000_000, None, 0, 0).unwrap();
    let key = StorageKey::Var(vec![1]);
    let refused = pallet_contracts::storage::write(
        &mut s,
        &c,
        &ALICE,
        &key,
        Some(vec![1]),
        &mut meter,
        false,
    );
    assert_eq!(refused.unwrap_err(), Error::ValueTooLarge);
    assert_eq!(read(&s, &ALICE, &key), None);
    assert_eq!(meter.total_deposit(), StorageDeposit::Charge(0));
    assert_eq!(s.contract_info(&ALICE).unwrap().storage_items, u32::MAX);
    // Clearing is never refused.
    let cleared = pallet_contracts::storage::write(&mut s, &c, &ALICE, &key, None, &mut meter, false);
    assert!(matches!(cleared, Ok(WriteOutcome::New)));
}

#[test]
fn nonce_never_falls() {
    let mut s = State::with_nonce(u64::MAX - 1);
    assert_eq!(s.bump_nonce(), u64::MAX);
    assert_eq!(s.bump_nonce(), u64::MAX);
    assert_eq!(s.nonce(), u64::MAX);
}

#[test]
fn a_ledger_is_exact_where_its_counters_say_what_it_holds() {
    let c = config();
    let mut s = State::new();
    assert!(is_exact(&s, &c));
    // A contract without its code.
    s.create_contract(&ALICE, info());
    assert!(!is_exact(&s, &c));
    // Its code, counting no user, then one, then two.
    s.set_code(&HASH, Some(entry(0)));
    assert!(!is_exact(&s, &c));
    s.set_code(&HASH, Some(entry(1)));
    assert!(is_exact(&s, &c));
    s.set_code(&HASH, Some(entry(2)));
    assert!(!is_exact(&s, &c));
    s.create_contract(&BOB, info());
    assert!(is_exact(&s, &c));
    // Code that nobody runs counts nobody.
    s.set_code(&[7; 32], Some(entry(0)));
    assert!(is_exact(&s, &c));
    s.set_code(&[7; 32], Some(entry(1)));
    assert!(!is_exact(&s, &c));
    s.set_code(&[7; 32], None);
    // A value that the record does not count: a key of three bytes behind its tag, and ten
    // bytes of value.
    s.set_storage(&ALICE, &[1, 1, 2, 3], Some(vec![0; 10]));
    assert!(!is_exact(&s, &c));
    let counted = ContractInfo {
        storage_bytes: 13,
        storage_items: 1,
        storage_byte_deposit: 39,
        storage_item_deposit: 5,
        ..info()
    };
    s.set_info(&ALICE, counted);
    assert!(is_exact(&s, &c));
    s.set_info(&ALICE, ContractInfo { storage_bytes: 10, storage_byte_deposit: 30, ..counted });
    assert!(!is_exact(&s, &c));
    s.set_info(&ALICE, ContractInfo { storage_items: 2, storage_item_deposit: 10, ..counted });
    assert!(!is_exact(&s, &c));
    s.set_info(&ALICE, ContractInfo { storage_byte_deposit: 38, ..counted });
    assert!(!is_exact(&s, &c));
    s.set_info(&ALICE, ContractInfo { storage_item_deposit: 6, ..counted });
    assert!(!is_exact(&s, &c));
    s.set_info(&ALICE, counted);
    // What the executor writes, it counts.
    let mut meter = Meter::new(1_000_000, None, 0, 0).unwrap();
    let key = StorageKey::Var(vec![9]);
    let written =
        pallet_contracts::storage::write(&mut s, &c, &BOB, &key, Some(vec![1, 2]), &mut meter, false);
    assert!(matches!(written, Ok(WriteOutcome::New)));
    assert!(is_exact(&s, &c));
}

#[test]
fn an_executor_is_made_over_an_exact_ledger_only() {
    let c = config();
    let mut s = State::new();
    s.set_balance(&ALICE, AccountData { free: 100, reserved: 7 });
    s.set_code(&HASH, Some(entry(1)));
    assert!(Pallet::try_with_ledger(c, s).is_none());
    let mut s = State::new();
    s.set_balance(&ALICE, AccountData { free: 100, reserved: 7 });
    s.set_code(&HASH, Some(entry(1)));
    s.create_contract(&BOB, info());
    let p = Pallet::try_with_ledger(c, s).unwrap();
    assert_eq!(p.code_hash(&BOB), Some(HASH));
    assert_eq!(p.code_hash(&ALICE), None);
}
