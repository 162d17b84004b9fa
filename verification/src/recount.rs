//! The test of a ledger that was not made by the executor: whether its counters are exact.
//!
//! An executor keeps the counters of its ledger exact and asks the same of a ledger that it
//! is given. Of a ledger that was put together otherwise this is not known until it is
//! tested: `is_exact` walks the ledger and counts again.

use vstd::prelude::*;
use crate::config::Config;
use crate::invariants::{accounted_for, pair_len, refcounts_exact, storage_accounted, uses};
use crate::primitives::CodeHash;
use crate::state::{Contract, State};
use crate::storage::key_bytes;
use crate::sums::{lemma_sum_empty, lemma_sum_insert, map_sum};
use crate::table::{bytes_eq, Table};
use crate::weight::saturating_mul_u128;

verus! {

/// The bytes that the keys and values of `storage` count for, all together, where no entry
/// counts for more than `u32::MAX` bytes; `None` where one does.
fn counted_bytes(storage: &Table<Vec<u8>>) -> (r: Option<u128>)
    requires
        storage.wf(),
    ensures
        r is Some <==> (forall|k: Seq<u8>|
            storage@.contains_key(k) ==> key_bytes(k) + (#[trigger] storage@[k]).len()
                <= u32::MAX),
        r matches Some(n) ==> n == map_sum(storage@, pair_len()),
{
    let n: usize = storage.len();
    let mut total: u128 = 0;
    let mut i: usize = 0;
    proof {
        storage.lemma_first(0);
        lemma_sum_empty(pair_len());
    }
    while i < n
        invariant
            storage.wf(),
            n == storage@.dom().len(),
            i <= n,
            total == map_sum(storage.first(i as int), pair_len()),
            total <= i * u32::MAX,
            forall|j: int|
                0 <= j < i ==> key_bytes(#[trigger] storage.key_at(j)) + storage.value_at(j).len()
                    <= u32::MAX,
        decreases n - i,
    {
        let (key, value) = storage.entry(i);
        proof {
            storage.lemma_first(i as int);
            storage.lemma_next(i as int);
            lemma_sum_insert(
                storage.first(i as int),
                pair_len(),
                storage.key_at(i as int),
                storage.value_at(i as int),
            );
        }
        let key_len: usize = if key.len() >= 1 {
            key.len() - 1
        } else {
            0
        };
        let both: u128 = key_len as u128 + value.len() as u128;
        if both > u32::MAX as u128 {
            return None;
        }
        assert(total + both <= (i + 1) * u32::MAX) by (nonlinear_arith)
            requires
                total <= i * u32::MAX,
                both <= u32::MAX,
        ;
        assert((i + 1) * u32::MAX <= usize::MAX * u32::MAX) by (nonlinear_arith)
            requires
                i + 1 <= usize::MAX,
        ;
        total = total + both;
        i += 1;
    }
    proof {
        storage.lemma_first(n as int);
        assert forall|k: Seq<u8>| storage@.contains_key(k) implies key_bytes(k) + (
        #[trigger] storage@[k]).len() <= u32::MAX by {
            storage.lemma_position(k);
        }
    }
    Some(total)
}

/// Whether the record of `contract` counts its storage exactly and names the deposits that
/// the storage costs.
fn is_accounted_for(contract: &Contract, config: &Config) -> (ok: bool)
    requires
        contract.storage.wf(),
    ensures
        ok == accounted_for(contract@, *config),
{
    let items: usize = contract.storage.len();
    let info = contract.info;
    match counted_bytes(&contract.storage) {
        None => false,
        Some(bytes) => {
            items as u128 == info.storage_items as u128 && bytes == info.storage_bytes as u128
                && info.storage_byte_deposit == saturating_mul_u128(
                config.deposit_per_byte,
                info.storage_bytes as u128,
            ) && info.storage_item_deposit == saturating_mul_u128(
                config.deposit_per_item,
                info.storage_items as u128,
            )
        },
    }
}

/// Number of the contracts among `contracts` that run the code under `hash`.
fn count_users(contracts: &Table<Contract>, hash: &[u8]) -> (n: usize)
    requires
        contracts.wf(),
    ensures
        n == map_sum(contracts@, uses(hash@)),
{
    let len: usize = contracts.len();
    let mut n: usize = 0;
    let mut i: usize = 0;
    proof {
        contracts.lemma_first(0);
        lemma_sum_empty(uses(hash@));
    }
    while i < len
        invariant
            contracts.wf(),
            len == contracts@.dom().len(),
            i <= len,
            n <= i,
            n == map_sum(contracts.first(i as int), uses(hash@)),
        decreases len - i,
    {
        let (_, contract) = contracts.entry(i);
        proof {
            contracts.lemma_first(i as int);
            contracts.lemma_next(i as int);
            lemma_sum_insert(
                contracts.first(i as int),
                uses(hash@),
                contracts.key_at(i as int),
                contracts.value_at(i as int),
            );
        }
        if bytes_eq(contract.info.code_hash.as_slice(), hash) {
            n += 1;
        }
        i += 1;
    }
    proof {
        contracts.lemma_first(len as int);
    }
    n
}

/// Whether every contract of `state` runs code that is stored and counts its storage
/// exactly.
fn contracts_are_exact(state: &State, config: &Config) -> (ok: bool)
    requires
        state.wf(),
    ensures
        ok == (storage_accounted(state@, *config) && forall|a: Seq<u8>| #[trigger]
            state@.contracts.contains_key(a) ==> state@.codes.contains_key(
                state@.contracts[a].info.code_hash@,
            )),
{
    let contracts = state.contracts();
    let len: usize = contracts.len();
    let mut i: usize = 0;
    while i < len
        invariant
            state.wf(),
            contracts.wf(),
            contracts@ == state@.contracts,
            len == contracts@.dom().len(),
            i <= len,
            forall|j: int|
                0 <= j < i ==> accounted_for(#[trigger] contracts.value_at(j), *config)
                    && state@.codes.contains_key(contracts.value_at(j).info.code_hash@),
        decreases len - i,
    {
        let (_, contract) = contracts.entry(i);
        proof {
            contracts.lemma_next(i as int);
        }
        let hash: CodeHash = contract.info.code_hash;
        if state.code(&hash).is_none() || !is_accounted_for(contract, config) {
            return false;
        }
        i += 1;
    }
    proof {
        assert forall|a: Seq<u8>| #[trigger] state@.contracts.contains_key(a) implies accounted_for(
            state@.contracts[a],
            *config,
        ) && state@.codes.contains_key(state@.contracts[a].info.code_hash@) by {
            contracts.lemma_position(a);
        }
    }
    true
}

/// Whether every stored code of `state` counts exactly the contracts that run it.
fn codes_are_exact(state: &State) -> (ok: bool)
    requires
        state.wf(),
    ensures
        ok == (forall|h: Seq<u8>| #[trigger]
            state@.codes.contains_key(h) ==> state@.codes[h].refcount == map_sum(
                state@.contracts,
                uses(h),
            )),
{
    let codes = state.codes();
    let contracts = state.contracts();
    let len: usize = codes.len();
    let mut i: usize = 0;
    while i < len
        invariant
            state.wf(),
            codes.wf(),
            contracts.wf(),
            codes@ == state@.codes,
            contracts@ == state@.contracts,
            len == codes@.dom().len(),
            i <= len,
            forall|j: int|
                0 <= j < i ==> (#[trigger] codes.value_at(j)).refcount == map_sum(
                    state@.contracts,
                    uses(codes.key_at(j)),
                ),
        decreases len - i,
    {
        let (hash, entry) = codes.entry(i);
        proof {
            codes.lemma_next(i as int);
        }
        let users: usize = count_users(contracts, hash);
        if entry.refcount as u128 != users as u128 {
            return false;
        }
        i += 1;
    }
    proof {
        assert forall|h: Seq<u8>| #[trigger] state@.codes.contains_key(
            h) implies state@.codes[h].refcount
            == map_sum(state@.contracts, uses(h)) by {
            codes.lemma_position(h);
        }
    }
    true
}

/// Whether the counters of `state` are exact: every contract runs code that is stored,
/// every stored code counts exactly the contracts that run it, and every contract counts
/// exactly the entries and the bytes of its storage and names the deposits that they cost.
/// An executor can be made over a ledger that passes.
pub fn is_exact(state: &State, config: &Config) -> (ok: bool)
    requires
        state.wf(),
    ensures
        ok == (refcounts_exact(state@) && storage_accounted(state@, *config)),
{
    proof {
        state.lemma_contracts_fit();
    }
    contracts_are_exact(state, config) && codes_are_exact(state)
}

} // verus!
