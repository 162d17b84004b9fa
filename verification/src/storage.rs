//! Contract storage: reading and writing values, with exact accounting of their size.

use vstd::prelude::*;
use crate::config::Config;
use crate::deposit::{Diff, Meter};
use crate::error::Error;
use crate::primitives::AccountId;
use crate::state::{ContractInfo, State, StateView};
use crate::weight::{capped, floor_sub, saturating_mul_u128};

verus! {

/// A key of contract storage. Keys of fixed size and keys of variable size live side by side:
/// in the trie the first byte tells them apart.
#[derive(Clone, Debug)]
pub enum StorageKey {
    /// A key of exactly 32 bytes.
    Fix([u8; 32]),
    /// A key of any length up to the configured limit.
    Var(Vec<u8>),
}

impl StorageKey {
    /// The key under which the value is kept in the trie: `0` and the bytes of a fixed key,
    /// `1` and the bytes of a variable key.
    pub open spec fn trie_key(self) -> Seq<u8> {
        match self {
            StorageKey::Fix(k) => seq![0u8] + k@,
            StorageKey::Var(k) => seq![1u8] + k@,
        }
    }

    /// Number of bytes of the key as the contract wrote it.
    pub open spec fn spec_len(self) -> nat {
        match self {
            StorageKey::Fix(_) => 32,
            StorageKey::Var(k) => k@.len(),
        }
    }

    /// Number of bytes of the key as the contract wrote it.
    pub fn len(&self) -> (n: usize)
        ensures
            n == self.spec_len(),
            n + 1 == self.trie_key().len(),
    {
        match self {
            StorageKey::Fix(_) => 32,
            StorageKey::Var(k) => k.len(),
        }
    }

    /// A variable key, unless it is longer than `max_len`.
    pub fn try_from_var(key: Vec<u8>, max_len: u32) -> (r: Option<StorageKey>)
        ensures
            key@.len() <= max_len ==> (r matches Some(StorageKey::Var(k)) && k@ == key@),
            key@.len() > max_len ==> r.is_none(),
    {
        if key.len() > max_len as usize {
            None
        } else {
            Some(StorageKey::Var(key))
        }
    }

    /// The key under which the value is kept in the trie.
    pub fn to_trie_key(&self) -> (r: Vec<u8>)
        ensures
            r@ == self.trie_key(),
    {
        let mut out: Vec<u8> = Vec::new();
        match self {
            StorageKey::Fix(k) => {
                out.push(0u8);
                crate::address::extend(&mut out, k.as_slice());
            },
            StorageKey::Var(k) => {
                out.push(1u8);
                crate::address::extend(&mut out, k.as_slice());
            },
        }
        assert(out@ =~= self.trie_key());
        out
    }
}

/// Keys of different kind or with different bytes are kept under different trie keys.
pub proof fn lemma_trie_key_injective(a: StorageKey, b: StorageKey)
    requires
        a.trie_key() == b.trie_key(),
    ensures
        a is Fix <==> b is Fix,
        a.trie_key().subrange(1, a.trie_key().len() as int) == b.trie_key().subrange(
            1,
            b.trie_key().len() as int,
        ),
        (a.trie_key().subrange(1, a.trie_key().len() as int) == match a {
            StorageKey::Fix(x) => x@,
            StorageKey::Var(x) => x@,
        }),
{
    let ka = a.trie_key();
    let kb = b.trie_key();
    assert(ka[0] == kb[0]);
    assert(ka[0] == if a is Fix {
        0u8
    } else {
        1u8
    });
    assert(kb[0] == if b is Fix {
        0u8
    } else {
        1u8
    });
    match a {
        StorageKey::Fix(x) => {
            assert(x@ =~= ka.subrange(1, ka.len() as int));
        },
        StorageKey::Var(x) => {
            assert(x@ =~= ka.subrange(1, ka.len() as int));
        },
    }
}

/// What a write found under the key.
#[derive(Debug)]
pub enum WriteOutcome {
    /// No value was there.
    New,
    /// A value of this length was there, and the caller did not ask for it.
    Overwritten(u32),
    /// This value was there, and the caller asked for it.
    Taken(Vec<u8>),
}

/// A length as the accounting counts it: capped at `u32::MAX`.
pub open spec fn counted(len: nat) -> u32 {
    capped(len as int, u32::MAX as int) as u32
}

/// Number of bytes that the key of an entry counts for, given the key under which the entry
/// is kept in the trie: the bytes of the key as the contract wrote it.
pub open spec fn key_bytes(trie_key: Seq<u8>) -> nat {
    if trie_key.len() >= 1 {
        (trie_key.len() - 1) as nat
    } else {
        0
    }
}

/// Number of bytes that an entry counts for: those of its key and those of its value.
pub open spec fn entry_bytes(key_len: nat, value_len: nat) -> u32 {
    capped(counted(key_len) + counted(value_len), u32::MAX as int) as u32
}

/// The change in occupied storage when, under a key of `key_len` bytes, a value of length
/// `old_len` gives way to one of length `new_len`; `None` stands for no value. A new entry
/// counts with its key and its value, and so does an entry that goes; an overwritten value
/// counts with the difference of the lengths.
pub open spec fn write_diff(key_len: nat, old_len: Option<nat>, new_len: Option<nat>) -> Diff {
    match (old_len, new_len) {
        (Some(o), Some(n)) => if counted(n) > counted(o) {
            Diff {
                bytes_added: (counted(n) - counted(o)) as u32,
                bytes_removed: 0,
                items_added: 0,
                items_removed: 0,
            }
        } else {
            Diff {
                bytes_added: 0,
                bytes_removed: (counted(o) - counted(n)) as u32,
                items_added: 0,
                items_removed: 0,
            }
        },
        (None, Some(n)) => Diff {
            bytes_added: entry_bytes(key_len, n),
            bytes_removed: 0,
            items_added: 1,
            items_removed: 0,
        },
        (Some(o), None) => Diff {
            bytes_added: 0,
            bytes_removed: entry_bytes(key_len, o),
            items_added: 0,
            items_removed: 1,
        },
        (None, None) => Diff { bytes_added: 0, bytes_removed: 0, items_added: 0, items_removed: 0 },
    }
}

/// The record of a contract after its storage changed by `diff`: the counters follow the
/// change, and the deposits are the counters at the configured prices.
pub open spec fn accounted(info: ContractInfo, diff: Diff, config: Config) -> ContractInfo {
    let bytes = floor_sub(
        capped(info.storage_bytes + diff.bytes_added, u64::MAX as int),
        diff.bytes_removed as int,
    ) as u64;
    let items = floor_sub(
        capped(info.storage_items + diff.items_added, u32::MAX as int),
        diff.items_removed as int,
    ) as u32;
    ContractInfo {
        storage_bytes: bytes,
        storage_items: items,
        storage_byte_deposit: capped(config.deposit_per_byte * bytes, u128::MAX as int) as u128,
        storage_item_deposit: capped(config.deposit_per_item * items, u128::MAX as int) as u128,
        ..info
    }
}

/// The length of an optional value.
pub open spec fn opt_len(v: Option<Seq<u8>>) -> Option<nat> {
    match v {
        Some(b) => Some(b.len()),
        None => None,
    }
}

/// The ledger after the contract at `who` wrote `value` under `key`.
pub open spec fn written(
    s: StateView,
    config: Config,
    who: Seq<u8>,
    key: Seq<u8>,
    value: Option<Seq<u8>>,
) -> StateView {
    let diff = write_diff(key_bytes(key), opt_len(s.storage_value(who, key)), opt_len(value));
    let t = s.set_storage(who, key, value);
    t.set_info(who, accounted(s.contracts[who].info, diff, config))
}

fn len_u32(len: usize) -> (r: u32)
    ensures
        r == counted(len as nat),
{
    if len > u32::MAX as usize {
        u32::MAX
    } else {
        len as u32
    }
}

/// The value that the contract at `who` keeps under `key`.
pub fn read(state: &State, who: &AccountId, key: &StorageKey) -> (r: Option<Vec<u8>>)
    requires
        state.wf(),
    ensures
        crate::state::opt_view(r) == state@.storage_value(who@, key.trie_key()),
{
    let k = key.to_trie_key();
    state.storage_get(who, k.as_slice())
}

/// The length of the value that the contract at `who` keeps under `key`.
pub fn size(state: &State, who: &AccountId, key: &StorageKey) -> (r: Option<u32>)
    requires
        state.wf(),
    ensures
        match state@.storage_value(who@, key.trie_key()) {
            Some(v) => r == Some(counted(v.len())),
            None => r.is_none(),
        },
{
    let k = key.to_trie_key();
    match state.storage_len(who, k.as_slice()) {
        Some(n) => Some(len_u32(n)),
        None => None,
    }
}

/// Whether the contract at `who` keeps a value under `key`.
pub fn contains(state: &State, who: &AccountId, key: &StorageKey) -> (r: bool)
    requires
        state.wf(),
    ensures
        r == state@.storage_value(who@, key.trie_key()).is_some(),
{
    size(state, who, key).is_some()
}

/// Takes the value that the contract at `who` keeps under `key` out of the storage and
/// hands it back; `None` where there is none. The counters of the contract and the meter
/// follow as for a write of no value. Fails with `ContractNotFound`, and changes nothing,
/// where `who` is no contract.
pub fn take(
    state: &mut State,
    config: &Config,
    who: &AccountId,
    key: &StorageKey,
    meter: &mut Meter,
) -> (r: Result<Option<Vec<u8>>, Error>)
    requires
        old(state).wf(),
    ensures
        final(state).wf(),
        final(state).extends(*old(state)),
        crate::invariants::conserves(old(state)@, final(state)@),
        crate::invariants::keeps_counts(old(state)@, final(state)@),
        crate::invariants::keeps_accounts(old(state)@, final(state)@, *config),
        final(meter).limit() == old(meter).limit(),
        r.is_ok() <==> old(state)@.contracts.contains_key(who@),
        r.is_err() ==> {
            &&& r->Err_0 == Error::ContractNotFound
            &&& final(state)@ == old(state)@
            &&& *final(meter) == *old(meter)
        },
        r matches Ok(taken) ==> {
            let before = old(state)@.storage_value(who@, key.trie_key());
            &&& crate::state::opt_view(taken) == before
            &&& final(state)@ == written(old(state)@, *config, who@, key.trie_key(), None)
            &&& final(meter).total() == old(meter).total().spec_saturating_add(
                write_diff(key.spec_len(), opt_len(before), None).spec_deposit(
                    config.deposit_per_byte,
                    config.deposit_per_item,
                ),
            )
        },
{
    match write(state, config, who, key, None, meter, true) {
        Ok(WriteOutcome::Taken(v)) => Ok(Some(v)),
        Ok(_) => Ok(None),
        Err(e) => Err(e),
    }
}

/// Why the contract at `who` cannot put a value of `len` bytes under the trie key `key`, or
/// clear what is there (`None`), if it cannot: `who` is no contract; or the write would
/// make the storage more than its counters can count, because the entry has more than
/// `u32::MAX` bytes of key and value, or because it is a new entry beside `u32::MAX` others.
pub open spec fn store_refusal(
    s: StateView,
    who: Seq<u8>,
    key: Seq<u8>,
    len: Option<nat>,
) -> Option<Error> {
    if !s.contracts.contains_key(who) {
        Some(Error::ContractNotFound)
    } else if len matches Some(n) && (key_bytes(key) + n > u32::MAX || is_one_too_many(
        s,
        who,
        key,
    )) {
        Some(Error::ValueTooLarge)
    } else {
        None
    }
}

/// Whether an entry under `key` would be a new entry of a contract that counts `u32::MAX`
/// entries already.
pub open spec fn is_one_too_many(s: StateView, who: Seq<u8>, key: Seq<u8>) -> bool {
    !s.contracts[who].storage.contains_key(key) && s.contracts[who].info.storage_items
        == u32::MAX
}

/// Sets (`Some`) or clears (`None`) the value that the contract at `who` keeps under `key`.
///
/// The counters of the contract follow the change exactly, keys counted with their values,
/// and the meter is charged, or refunded, the price of the change. With `take` the old
/// value is handed back, else only its length. Fails, and changes nothing, for the reasons
/// of `store_refusal`.
pub fn write(
    state: &mut State,
    config: &Config,
    who: &AccountId,
    key: &StorageKey,
    new_value: Option<Vec<u8>>,
    meter: &mut Meter,
    take: bool,
) -> (r: Result<WriteOutcome, Error>)
    requires
        old(state).wf(),
    ensures
        final(state).wf(),
        final(state).extends(*old(state)),
        crate::invariants::conserves(old(state)@, final(state)@),
        crate::invariants::keeps_counts(old(state)@, final(state)@),
        crate::invariants::keeps_accounts(old(state)@, final(state)@, *config),
        final(meter).limit() == old(meter).limit(),
        r.is_ok() <==> store_refusal(
            old(state)@,
            who@,
            key.trie_key(),
            opt_len(crate::state::opt_view(new_value)),
        ) is None,
        r matches Err(e) ==> {
            &&& store_refusal(
                old(state)@,
                who@,
                key.trie_key(),
                opt_len(crate::state::opt_view(new_value)),
            ) == Some(e)
            &&& final(state)@ == old(state)@
            &&& *final(meter) == *old(meter)
        },
        r matches Ok(outcome) ==> {
            let before = old(state)@.storage_value(who@, key.trie_key());
            &&& final(state)@ == written(
                old(state)@,
                *config,
                who@,
                key.trie_key(),
                crate::state::opt_view(new_value),
            )
            &&& final(meter).total() == old(meter).total().spec_saturating_add(
                write_diff(
                    key.spec_len(),
                    opt_len(before),
                    opt_len(crate::state::opt_view(new_value)),
                ).spec_deposit(
                    config.deposit_per_byte,
                    config.deposit_per_item,
                ),
            )
            &&& match before {
                None => outcome is New,
                Some(v) => if take {
                    (outcome matches WriteOutcome::Taken(t) && t@ == v)
                } else {
                    (outcome matches WriteOutcome::Overwritten(n) && n == counted(v.len()))
                },
            }
        },
{
    proof {
        if crate::invariants::storage_accounted(state@, *config) && store_refusal(
            state@,
            who@,
            key.trie_key(),
            opt_len(crate::state::opt_view(new_value)),
        ) is None {
            crate::invariants::lemma_written_keeps_storage_accounted(
                state@,
                *config,
                who@,
                key.trie_key(),
                crate::state::opt_view(new_value),
            );
        }
        if crate::invariants::refcounts_exact(state@) && state@.contracts.contains_key(who@) {
            crate::invariants::lemma_written_keeps_refcounts(
                state@,
                *config,
                who@,
                key.trie_key(),
                crate::state::opt_view(new_value),
            );
        }
    }
    let info = match state.contract_info(who) {
        Some(info) => info,
        None => {
            return Err(Error::ContractNotFound);
        },
    };
    let k = key.to_trie_key();
    match &new_value {
        Some(v) => {
            let limit = u32::MAX as usize;
            if v.len() > limit || key.len() > limit - v.len() {
                return Err(Error::ValueTooLarge);
            }
            if info.storage_items == u32::MAX && state.storage_len(who, k.as_slice()).is_none() {
                return Err(Error::ValueTooLarge);
            }
        },
        None => {},
    }
    let new_len = match &new_value {
        Some(v) => Some(len_u32(v.len())),
        None => None,
    };
    let old_value = state.set_storage(who, k.as_slice(), new_value);
    let old_len = match &old_value {
        Some(v) => Some(len_u32(v.len())),
        None => None,
    };
    let key_len = len_u32(key.len());
    let diff = match (old_len, new_len) {
        (Some(o), Some(n)) => if n > o {
            Diff { bytes_added: n - o, bytes_removed: 0, items_added: 0, items_removed: 0 }
        } else {
            Diff { bytes_added: 0, bytes_removed: o - n, items_added: 0, items_removed: 0 }
        },
        (None, Some(n)) => Diff {
            bytes_added: key_len.saturating_add(n),
            bytes_removed: 0,
            items_added: 1,
            items_removed: 0,
        },
        (Some(o), None) => Diff {
            bytes_added: 0,
            bytes_removed: key_len.saturating_add(o),
            items_added: 0,
            items_removed: 1,
        },
        (None, None) => Diff::none(),
    };
    let bytes = info.storage_bytes.saturating_add(diff.bytes_added as u64).saturating_sub(
        diff.bytes_removed as u64,
    );
    let items = info.storage_items.saturating_add(diff.items_added).saturating_sub(
        diff.items_removed,
    );
    let new_info = ContractInfo {
        trie_id: info.trie_id,
        code_hash: info.code_hash,
        storage_bytes: bytes,
        storage_items: items,
        storage_byte_deposit: saturating_mul_u128(config.deposit_per_byte, bytes as u128),
        storage_item_deposit: saturating_mul_u128(config.deposit_per_item, items as u128),
    };
    state.set_info(who, new_info);
    meter.charge(diff.deposit(config.deposit_per_byte, config.deposit_per_item));
    Ok(
        match old_value {
            None => WriteOutcome::New,
            Some(v) => if take {
                WriteOutcome::Taken(v)
            } else {
                WriteOutcome::Overwritten(len_u32(v.len()))
            },
        },
    )
}

} // verus!
