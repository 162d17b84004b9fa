//! Invariants of the ledger, and the proof that every change of the ledger keeps them.
//!
//! The ledger changes only by the transformers that the contracts of the operations name:
//! `transferred`, `reserved`, `unreserved`, `written`, `instantiated`, `terminated`,
//! `code_updated`, `stored`, `removed` and `reinstrumented`. Balance moves only by the first
//! three, and a lemma shows of each that it keeps the total of all balances. For the user
//! counts of code and for the storage accounts of contracts, a lemma shows of each
//! transformer that touches them that it keeps them exact. The operations use these lemmas
//! to keep the invariant of the stack, which holds the invariants of the ledger for the
//! ledger as it is and as it was at every checkpoint that a rollback can return to.

use vstd::prelude::*;
use crate::code_cache::{reinstrumented, removed, stored, PrefabWasmModule};
use crate::config::Config;
use crate::contract::{code_updated, terminated};
use crate::exec::instantiate::{instantiated, is_fresh};
use crate::ledger::{can_transfer, releasable, reserved, transferred, unreserved};
use crate::primitives::{AccountId, Balance, CodeHash};
use crate::state::{AccountData, ContractInfo, ContractView, StateView};
use crate::storage::{key_bytes, opt_len, store_refusal, written};
use crate::sums::{
    lemma_sum_at_most_bound, lemma_sum_at_most_count, lemma_sum_bounds_share, lemma_sum_empty,
    lemma_sum_insert, lemma_sum_remove, map_sum,
};
use crate::weight::capped;

verus! {

/// All that an account holds: its free and its reserved balance.
pub open spec fn holdings() -> spec_fn(Seq<u8>, AccountData) -> int {
    |who: Seq<u8>, d: AccountData| d.free + d.reserved
}

/// All balance that exists: the holdings of all accounts.
pub open spec fn total_issuance(s: StateView) -> int {
    map_sum(s.balances, holdings())
}

/// Whether the ledger `after` holds the balance that `before` held, no more and no less, and
/// has a nonce that is not below that of `before`.
pub open spec fn conserves(before: StateView, after: StateView) -> bool {
    &&& total_issuance(after) == total_issuance(before)
    &&& before.nonce <= after.nonce
}

/// Setting one balance changes the total by what that account gains or loses.
pub proof fn lemma_set_balance_changes_total(s: StateView, who: Seq<u8>, data: AccountData)
    requires
        s.balances.dom().finite(),
    ensures
        s.set_balance(who, data).balances.dom().finite(),
        total_issuance(s.set_balance(who, data)) == total_issuance(s) - (s.balance(who).free
            + s.balance(who).reserved) + (data.free + data.reserved),
{
    lemma_sum_insert(s.balances, holdings(), who, data);
}

/// A transfer creates and destroys no balance.
pub proof fn lemma_transfer_keeps_total(
    s: StateView,
    from: Seq<u8>,
    to: Seq<u8>,
    value: Balance,
    existential_deposit: Balance,
    keep_alive: bool,
)
    requires
        s.balances.dom().finite(),
        value == 0 || can_transfer(s, from, to, value, existential_deposit, keep_alive),
    ensures
        transferred(s, from, to, value).balances.dom().finite(),
        total_issuance(transferred(s, from, to, value)) == total_issuance(s),
{
    if from != to && value != 0 {
        let sender = s.balance(from);
        let receiver = s.balance(to);
        let debited = AccountData {
            free: (sender.free - value) as u128,
            reserved: sender.reserved,
        };
        let credited = AccountData {
            free: (receiver.free + value) as u128,
            reserved: receiver.reserved,
        };
        let mid = s.set_balance(from, debited);
        lemma_set_balance_changes_total(s, from, debited);
        assert(mid.balance(to) == receiver);
        lemma_set_balance_changes_total(mid, to, credited);
    }
}

/// Setting balance aside creates and destroys none.
pub proof fn lemma_reserve_keeps_total(s: StateView, who: Seq<u8>, amount: Balance)
    requires
        s.balances.dom().finite(),
        s.balance(who).free >= amount,
        s.balance(who).reserved + amount <= u128::MAX,
    ensures
        reserved(s, who, amount).balances.dom().finite(),
        total_issuance(reserved(s, who, amount)) == total_issuance(s),
{
    if amount != 0 {
        let d = s.balance(who);
        lemma_set_balance_changes_total(
            s,
            who,
            AccountData {
                free: (d.free - amount) as u128,
                reserved: (d.reserved + amount) as u128,
            },
        );
    }
}

/// Releasing balance that was set aside creates and destroys none.
pub proof fn lemma_unreserve_keeps_total(s: StateView, who: Seq<u8>, amount: Balance)
    requires
        s.balances.dom().finite(),
    ensures
        unreserved(s, who, amount).balances.dom().finite(),
        total_issuance(unreserved(s, who, amount)) == total_issuance(s),
{
    let part = releasable(s, who, amount);
    if part != 0 {
        let d = s.balance(who);
        lemma_set_balance_changes_total(
            s,
            who,
            AccountData { free: (d.free + part) as u128, reserved: (d.reserved - part) as u128 },
        );
    }
}

/// Number of bytes that an entry of contract storage counts for: the bytes of its key as
/// the contract wrote it, and the bytes of its value.
pub open spec fn pair_len() -> spec_fn(Seq<u8>, Seq<u8>) -> int {
    |k: Seq<u8>, v: Seq<u8>| (key_bytes(k) + v.len()) as int
}

/// Whether the record of a contract accounts for its storage: it counts the entries, and
/// the bytes of all keys and values, exactly, and names the deposits that these cost.
pub open spec fn accounted_for(c: ContractView, config: Config) -> bool {
    &&& c.storage.dom().finite()
    &&& forall|k: Seq<u8>|
        c.storage.contains_key(k) ==> key_bytes(k) + (#[trigger] c.storage[k]).len() <= u32::MAX
    &&& c.info.storage_items == c.storage.dom().len()
    &&& c.info.storage_bytes == map_sum(c.storage, pair_len())
    &&& c.info.storage_byte_deposit == capped(
        config.deposit_per_byte * c.info.storage_bytes,
        u128::MAX as int,
    )
    &&& c.info.storage_item_deposit == capped(
        config.deposit_per_item * c.info.storage_items,
        u128::MAX as int,
    )
}

/// A contract that was just created accounts for its storage: it has none.
pub proof fn lemma_fresh_contract_is_accounted_for(
    info: ContractInfo,
    address: Seq<u8>,
    code_hash: CodeHash,
    nonce: u64,
    config: Config,
)
    requires
        is_fresh(info, address, code_hash, nonce),
    ensures
        accounted_for(ContractView { info, storage: Map::empty() }, config),
{
    lemma_sum_empty(pair_len());
    assert(Map::<Seq<u8>, Seq<u8>>::empty().dom() =~= Set::<Seq<u8>>::empty());
}

/// The bytes of the storage of a contract that accounts for it fit its counter with room
/// to spare: no entry has more than `u32::MAX` bytes, and there are no more than `u32::MAX`
/// entries.
pub proof fn lemma_accounted_bytes_fit(c: ContractView, config: Config)
    requires
        accounted_for(c, config),
    ensures
        0 <= map_sum(c.storage, pair_len()) <= u32::MAX * c.storage.dom().len(),
        c.storage.dom().len() <= u32::MAX,
{
    assert forall|k: Seq<u8>| c.storage.contains_key(k) implies 0 <= #[trigger] pair_len()(
        k,
        c.storage[k],
    ) <= u32::MAX by {
        assert(key_bytes(k) + c.storage[k].len() <= u32::MAX);
    }
    lemma_sum_at_most_bound(c.storage, pair_len(), u32::MAX as int);
}

/// A write that is not refused keeps the accounts of the contract exact: the record counts
/// one entry more or less and the bytes that came or went, and the deposits follow.
pub proof fn lemma_write_keeps_accounts(
    s: StateView,
    config: Config,
    who: Seq<u8>,
    key: Seq<u8>,
    value: Option<Seq<u8>>,
)
    requires
        store_refusal(s, who, key, opt_len(value)) is None,
        accounted_for(s.contracts[who], config),
    ensures
        written(s, config, who, key, value).contracts.contains_key(who),
        accounted_for(written(s, config, who, key, value).contracts[who], config),
{
    let c = s.contracts[who];
    let after = written(s, config, who, key, value).contracts[who];
    let old_len = opt_len(s.storage_value(who, key));
    lemma_sum_bounds_share(c.storage, pair_len(), key);
    lemma_accounted_bytes_fit(c, config);
    let n = c.storage.dom().len() as int;
    assert(u32::MAX * n <= u32::MAX * u32::MAX) by (nonlinear_arith)
        requires
            0 <= n <= u32::MAX,
    ;
    match value {
        Some(v) => {
            lemma_sum_insert(c.storage, pair_len(), key, v);
            assert(after.storage =~= c.storage.insert(key, v));
            assert(c.storage.insert(key, v).dom() =~= c.storage.dom().insert(key));
            assert forall|k: Seq<u8>| after.storage.contains_key(k) implies key_bytes(k) + (
            #[trigger] after.storage[k]).len() <= u32::MAX by {
                if k != key {
                    assert(c.storage.contains_key(k));
                }
            }
        },
        None => {
            lemma_sum_remove(c.storage, pair_len(), key);
            assert(after.storage =~= c.storage.remove(key));
            assert(c.storage.remove(key).dom() =~= c.storage.dom().remove(key));
            assert forall|k: Seq<u8>| after.storage.contains_key(k) implies key_bytes(k) + (
            #[trigger] after.storage[k]).len() <= u32::MAX by {
                assert(c.storage.contains_key(k));
            }
        },
    }
}

/// Whether a contract runs the code under `hash`: one if it does, nothing if not.
pub open spec fn uses(hash: Seq<u8>) -> spec_fn(Seq<u8>, ContractView) -> int {
    |who: Seq<u8>, c: ContractView|
        if c.info.code_hash@ == hash {
            1int
        } else {
            0int
        }
}

/// Number of contracts that run the code under `hash`.
pub open spec fn users(s: StateView, hash: Seq<u8>) -> int {
    map_sum(s.contracts, uses(hash))
}

/// Whether the user counts of the ledger are exact: every contract runs code that is
/// stored, and every stored code counts exactly the contracts that run it.
pub open spec fn refcounts_exact(s: StateView) -> bool {
    &&& s.contracts.dom().finite()
    &&& forall|a: Seq<u8>| #[trigger]
        s.contracts.contains_key(a) ==> s.codes.contains_key(s.contracts[a].info.code_hash@)
    &&& forall|h: Seq<u8>| #[trigger] s.codes.contains_key(h) ==> s.codes[h].refcount == users(s, h)
}

/// No code has more users than there are contracts.
pub proof fn lemma_users_at_most_contracts(s: StateView, hash: Seq<u8>)
    requires
        s.contracts.dom().finite(),
    ensures
        0 <= users(s, hash) <= s.contracts.dom().len(),
{
    lemma_sum_at_most_count(s.contracts, uses(hash));
}

/// Code that some contract does not run has fewer users than there are contracts.
pub proof fn lemma_users_leave_room(s: StateView, hash: Seq<u8>, who: Seq<u8>)
    requires
        s.contracts.dom().finite(),
        s.contracts.contains_key(who),
        s.contracts[who].info.code_hash@ != hash,
    ensures
        users(s, hash) < s.contracts.dom().len(),
{
    lemma_sum_remove(s.contracts, uses(hash), who);
    lemma_sum_at_most_count(s.contracts.remove(who), uses(hash));
}

/// Whether the change from `before` to `after` keeps exact user counts exact.
pub open spec fn keeps_counts(before: StateView, after: StateView) -> bool {
    refcounts_exact(before) ==> refcounts_exact(after)
}

/// Code that no contract can be running has no users.
proof fn lemma_unstored_code_has_no_users(s: StateView, hash: Seq<u8>)
    requires
        s.contracts.dom().finite(),
        forall|a: Seq<u8>| #[trigger]
            s.contracts.contains_key(a) ==> s.contracts[a].info.code_hash@ != hash,
    ensures
        users(s, hash) == 0,
    decreases s.contracts.dom().len(),
{
    if s.contracts.dom().len() == 0 {
        assert(s.contracts =~= Map::<Seq<u8>, ContractView>::empty());
        lemma_sum_empty(uses(hash));
    } else {
        let a = s.contracts.dom().choose();
        lemma_sum_remove(s.contracts, uses(hash), a);
        lemma_unstored_code_has_no_users(s.remove_contract(a), hash);
    }
}

/// An instantiation keeps the user counts exact, as long as the count of the code does not
/// run over: the new contract is one user more of its code.
pub proof fn lemma_instantiated_keeps_refcounts(s: StateView, address: Seq<u8>, info: ContractInfo)
    requires
        refcounts_exact(s),
        !s.contracts.contains_key(address),
        s.codes.contains_key(info.code_hash@),
        s.codes[info.code_hash@].refcount < u64::MAX,
    ensures
        refcounts_exact(instantiated(s, address, info)),
{
    let after = instantiated(s, address, info);
    let c = ContractView { info, storage: Map::empty() };
    assert(after.contracts =~= s.contracts.insert(address, c));
    assert forall|h: Seq<u8>| #[trigger] after.codes.contains_key(h) implies after.codes[h].refcount
        == users(after, h) by {
        lemma_sum_insert(s.contracts, uses(h), address, c);
        assert(s.codes.contains_key(h));
    }
    lemma_sum_insert(s.contracts, uses(info.code_hash@), address, c);
}

/// The end of a contract keeps the user counts exact: the contract is one user less of its
/// code.
pub proof fn lemma_terminated_keeps_refcounts(s: StateView, who: AccountId, beneficiary: AccountId)
    requires
        refcounts_exact(s),
        s.contracts.contains_key(who@),
    ensures
        refcounts_exact(terminated(s, who, beneficiary)),
{
    let after = terminated(s, who, beneficiary);
    let c = s.contracts[who@];
    let hash = c.info.code_hash@;
    assert(after.contracts =~= s.contracts.remove(who@));
    assert(s.codes.contains_key(hash));
    lemma_sum_bounds_share(s.contracts, uses(hash), who@);
    assert forall|h: Seq<u8>| #[trigger] after.codes.contains_key(h) implies after.codes[h].refcount
        == users(after, h) by {
        lemma_sum_remove(s.contracts, uses(h), who@);
        assert(s.codes.contains_key(h));
    }
    assert forall|a: Seq<u8>| #[trigger] after.contracts.contains_key(
        a) implies after.codes.contains_key(
        after.contracts[a].info.code_hash@,
    ) by {
        assert(s.contracts.contains_key(a));
    }
}

/// A change of code keeps the user counts exact, as long as the count of the new code does
/// not run over: the contract is one user more of the new code and one less of the old.
pub proof fn lemma_code_updated_keeps_refcounts(s: StateView, who: AccountId, hash: CodeHash)
    requires
        refcounts_exact(s),
        s.contracts.contains_key(who@),
        s.codes.contains_key(hash@),
        s.contracts[who@].info.code_hash@ != hash@ ==> s.codes[hash@].refcount < u64::MAX,
    ensures
        refcounts_exact(code_updated(s, who, hash)),
{
    let after = code_updated(s, who, hash);
    let c = s.contracts[who@];
    let old_hash = c.info.code_hash@;
    let renamed = ContractView {
        info: ContractInfo { code_hash: hash, ..c.info },
        storage: c.storage,
    };
    assert(after.contracts =~= s.contracts.insert(who@, renamed));
    assert(s.codes.contains_key(old_hash));
    lemma_sum_bounds_share(s.contracts, uses(old_hash), who@);
    assert forall|h: Seq<u8>| #[trigger] after.codes.contains_key(h) implies after.codes[h].refcount
        == users(after, h) by {
        lemma_sum_insert(s.contracts, uses(h), who@, renamed);
        assert(s.codes.contains_key(h));
    }
    assert forall|a: Seq<u8>| #[trigger] after.contracts.contains_key(
        a) implies after.codes.contains_key(
        after.contracts[a].info.code_hash@,
    ) by {
        if a != who@ {
            assert(s.contracts.contains_key(a));
        }
    }
}

/// A write keeps the user counts exact: it changes no code of any contract.
pub proof fn lemma_written_keeps_refcounts(
    s: StateView,
    config: Config,
    who: Seq<u8>,
    key: Seq<u8>,
    value: Option<Seq<u8>>,
)
    requires
        refcounts_exact(s),
        s.contracts.contains_key(who),
    ensures
        refcounts_exact(written(s, config, who, key, value)),
{
    let after = written(s, config, who, key, value);
    let c = after.contracts[who];
    assert(after.contracts =~= s.contracts.insert(who, c));
    assert forall|h: Seq<u8>| #[trigger] after.codes.contains_key(h) implies after.codes[h].refcount
        == users(after, h) by {
        lemma_sum_insert(s.contracts, uses(h), who, c);
        assert(s.codes.contains_key(h));
    }
    assert forall|a: Seq<u8>| #[trigger] after.contracts.contains_key(
        a) implies after.codes.contains_key(
        after.contracts[a].info.code_hash@,
    ) by {
        if a != who {
            assert(s.contracts.contains_key(a));
        }
    }
}

/// Storing code keeps the user counts exact: new code has no users.
pub proof fn lemma_stored_keeps_refcounts(s: StateView, module: PrefabWasmModule, config: Config)
    requires
        refcounts_exact(s),
    ensures
        refcounts_exact(stored(s, module, config)),
{
    let after = stored(s, module, config);
    let hash = module.code_hash@;
    assert(after.contracts == s.contracts);
    if !s.codes.contains_key(hash) {
        lemma_unstored_code_has_no_users(s, hash);
    }
    assert forall|h: Seq<u8>| #[trigger] after.codes.contains_key(h) implies after.codes[h].refcount
        == users(after, h) by {
        if h != hash {
            assert(s.codes.contains_key(h));
        }
    }
    assert forall|a: Seq<u8>| #[trigger] after.contracts.contains_key(
        a) implies after.codes.contains_key(
        after.contracts[a].info.code_hash@,
    ) by {
        assert(s.codes.contains_key(s.contracts[a].info.code_hash@));
    }
}

/// Removing code keeps the user counts exact: only code without users is removed.
pub proof fn lemma_removed_keeps_refcounts(s: StateView, hash: CodeHash)
    requires
        refcounts_exact(s),
        s.codes.contains_key(hash@),
        s.codes[hash@].refcount == 0,
    ensures
        refcounts_exact(removed(s, hash)),
{
    let after = removed(s, hash);
    assert(after.contracts == s.contracts);
    assert forall|a: Seq<u8>| #[trigger] after.contracts.contains_key(
        a) implies after.codes.contains_key(
        after.contracts[a].info.code_hash@,
    ) by {
        let h = s.contracts[a].info.code_hash@;
        assert(s.codes.contains_key(h));
        if h == hash@ {
            lemma_sum_bounds_share(s.contracts, uses(hash@), a);
        }
    }
    assert forall|h: Seq<u8>| #[trigger] after.codes.contains_key(h) implies after.codes[h].refcount
        == users(after, h) by {
        assert(s.codes.contains_key(h));
    }
}

/// A change of the ledger that leaves contracts and code alone keeps the user counts exact.
pub proof fn lemma_same_contracts_and_codes_keep_refcounts(before: StateView, after: StateView)
    requires
        refcounts_exact(before),
        after.contracts == before.contracts,
        after.codes == before.codes,
    ensures
        refcounts_exact(after),
{
    assert forall|h: Seq<u8>| #[trigger] after.codes.contains_key(h) implies after.codes[h].refcount
        == users(after, h) by {
        assert(before.codes.contains_key(h));
    }
    assert forall|a: Seq<u8>| #[trigger] after.contracts.contains_key(
        a) implies after.codes.contains_key(
        after.contracts[a].info.code_hash@,
    ) by {
        assert(before.contracts.contains_key(a));
    }
}

/// A new instrumentation keeps the user counts exact: it changes the bytes of the code and
/// nothing else.
pub proof fn lemma_reinstrumented_keeps_refcounts(
    s: StateView,
    config: Config,
    hash: Seq<u8>,
    instrumented: Seq<u8>,
)
    requires
        refcounts_exact(s),
        s.codes.contains_key(hash),
    ensures
        refcounts_exact(reinstrumented(s, config, hash, instrumented)),
{
    let after = reinstrumented(s, config, hash, instrumented);
    assert(after.contracts == s.contracts);
    assert forall|h: Seq<u8>| #[trigger] after.codes.contains_key(h) implies after.codes[h].refcount
        == users(after, h) by {
        assert(s.codes.contains_key(h));
    }
    assert forall|a: Seq<u8>| #[trigger] after.contracts.contains_key(
        a) implies after.codes.contains_key(
        after.contracts[a].info.code_hash@,
    ) by {
        assert(s.codes.contains_key(s.contracts[a].info.code_hash@));
    }
}

/// Whether every contract of the ledger accounts for its storage.
pub open spec fn storage_accounted(s: StateView, config: Config) -> bool {
    forall|a: Seq<u8>| #[trigger] s.contracts.contains_key(a)
        ==> accounted_for(s.contracts[a], config)
}

/// Whether the change from `before` to `after` keeps exact accounts of storage exact.
pub open spec fn keeps_accounts(before: StateView, after: StateView, config: Config) -> bool {
    storage_accounted(before, config) ==> storage_accounted(after, config)
}

/// A write that is not refused keeps the accounts of every contract exact.
pub proof fn lemma_written_keeps_storage_accounted(
    s: StateView,
    config: Config,
    who: Seq<u8>,
    key: Seq<u8>,
    value: Option<Seq<u8>>,
)
    requires
        storage_accounted(s, config),
        store_refusal(s, who, key, opt_len(value)) is None,
    ensures
        storage_accounted(written(s, config, who, key, value), config),
{
    let after = written(s, config, who, key, value);
    lemma_write_keeps_accounts(s, config, who, key, value);
    assert forall|a: Seq<u8>| #[trigger] after.contracts.contains_key(a) implies accounted_for(
        after.contracts[a],
        config,
    ) by {
        if a != who {
            assert(s.contracts.contains_key(a));
        }
    }
}

/// An instantiation keeps the accounts of every contract exact: the new contract has no
/// storage and says so.
pub proof fn lemma_instantiated_keeps_storage_accounted(
    s: StateView,
    config: Config,
    address: Seq<u8>,
    info: ContractInfo,
    code_hash: CodeHash,
    nonce: u64,
)
    requires
        storage_accounted(s, config),
        is_fresh(info, address, code_hash, nonce),
    ensures
        storage_accounted(instantiated(s, address, info), config),
{
    let after = instantiated(s, address, info);
    lemma_fresh_contract_is_accounted_for(info, address, code_hash, nonce, config);
    assert forall|a: Seq<u8>| #[trigger] after.contracts.contains_key(a) implies accounted_for(
        after.contracts[a],
        config,
    ) by {
        if a != address {
            assert(s.contracts.contains_key(a));
        }
    }
}

/// The end of a contract keeps the accounts of all other contracts exact.
pub proof fn lemma_terminated_keeps_storage_accounted(
    s: StateView,
    config: Config,
    who: AccountId,
    beneficiary: AccountId,
)
    requires
        storage_accounted(s, config),
    ensures
        storage_accounted(terminated(s, who, beneficiary), config),
{
    let after = terminated(s, who, beneficiary);
    assert(after.contracts =~= s.contracts.remove(who@));
    assert forall|a: Seq<u8>| #[trigger] after.contracts.contains_key(a) implies accounted_for(
        after.contracts[a],
        config,
    ) by {
        assert(s.contracts.contains_key(a));
    }
}

/// A change of code keeps the accounts of every contract exact: the storage stays with
/// the contract.
pub proof fn lemma_code_updated_keeps_storage_accounted(
    s: StateView,
    config: Config,
    who: AccountId,
    hash: CodeHash,
)
    requires
        storage_accounted(s, config),
        s.contracts.contains_key(who@),
    ensures
        storage_accounted(code_updated(s, who, hash), config),
{
    let after = code_updated(s, who, hash);
    assert forall|a: Seq<u8>| #[trigger] after.contracts.contains_key(a) implies accounted_for(
        after.contracts[a],
        config,
    ) by {
        if a != who@ {
            assert(s.contracts.contains_key(a));
        } else {
            assert(after.contracts[a].storage == s.contracts[a].storage);
        }
    }
}

} // verus!
