//! The life of a contract after its instantiation: a change of its code, and its end.

use vstd::prelude::*;
use crate::address::{blake2_256_digest, hash_code};
use crate::code_cache::{remove_user, add_user, one_less, one_more};
use crate::config::Config;
use crate::deposit::StorageDeposit;
use crate::error::Error;
use crate::invariants::{
    conserves, keeps_accounts, keeps_counts, lemma_code_updated_keeps_refcounts,
    lemma_code_updated_keeps_storage_accounted, lemma_terminated_keeps_storage_accounted,
    storage_accounted,
    lemma_terminated_keeps_refcounts, lemma_users_leave_room, refcounts_exact,
};
use crate::event::{record_with_topics, Event, EventRecord, EventRecordView, EventView};
use crate::ledger::{can_transfer, transfer, transferred};
use crate::primitives::{AccountId, CodeHash};
use crate::state::{ContractInfo, State, StateView};
use crate::weight::capped;

verus! {

/// The ledger after the contract at `who` got the code under `hash`: the new code has one
/// user more, then the old code one user less, unless old and new are the same code, whose
/// count then stays; the record of the contract names the new code; and
/// `ContractCodeUpdated` is deposited under the digest of the contract, the new hash and
/// the old hash.
pub open spec fn code_updated(s: StateView, who: AccountId, hash: CodeHash) -> StateView {
    let info = s.contracts[who@].info;
    let more = s.set_refcount(hash@, one_more(s.codes[hash@].refcount));
    let less = if info.code_hash@ == hash@ {
        s
    } else if more.codes.contains_key(info.code_hash@) {
        more.set_refcount(info.code_hash@, one_less(more.codes[info.code_hash@].refcount))
    } else {
        more
    };
    let renamed = less.set_info(who@, ContractInfo { code_hash: hash, ..info });
    StateView {
        events: renamed.events.push(
            EventRecordView {
                topics: seq![blake2_256_digest(who@), hash@, info.code_hash@],
                event: EventView::ContractCodeUpdated {
                    contract: who,
                    new_code_hash: hash,
                    old_code_hash: info.code_hash,
                },
            },
        ),
        ..renamed
    }
}

/// Why the code of the contract at `who` cannot be set to that under `hash`, if it cannot.
pub open spec fn set_code_refusal(s: StateView, who: Seq<u8>, hash: Seq<u8>) -> Option<Error> {
    if !s.contracts.contains_key(who) {
        Some(Error::ContractNotFound)
    } else if !s.codes.contains_key(hash) {
        Some(Error::CodeNotFound)
    } else {
        None
    }
}

/// Gives the contract at `who` the code under `hash`. Fails, and changes nothing, with
/// `ContractNotFound` where `who` is no contract and with `CodeNotFound` where no code is
/// stored under `hash`.
pub fn set_contract_code(state: &mut State, who: &AccountId, hash: &CodeHash) -> (r: Result<
    (),
    Error,
>)
    requires
        old(state).wf(),
    ensures
        final(state).wf(),
        final(state).extends(*old(state)),
        conserves(old(state)@, final(state)@),
        keeps_counts(old(state)@, final(state)@),
        forall|config: Config| #[trigger] keeps_accounts(old(state)@, final(state)@, config),
        match set_code_refusal(old(state)@, who@, hash@) {
            Some(e) => r == Err::<(), Error>(e) && final(state)@ == old(state)@,
            None => r.is_ok() && final(state)@ == code_updated(old(state)@, *who, *hash),
        },
{
    proof {
        assert forall|config: Config|
            storage_accounted(state@, config) && set_code_refusal(state@, who@, hash@)
                is None implies #[trigger] storage_accounted(
            code_updated(state@, *who, *hash),
            config,
        ) by {
            lemma_code_updated_keeps_storage_accounted(state@, config, *who, *hash);
        }
        if refcounts_exact(state@) && set_code_refusal(state@, who@, hash@) is None {
            state.lemma_contracts_fit();
            if state@.contracts[who@].info.code_hash@ != hash@ {
                lemma_users_leave_room(state@, hash@, who@);
            }
            lemma_code_updated_keeps_refcounts(state@, *who, *hash);
        }
    }
    let info = match state.contract_info(who) {
        Some(info) => info,
        None => {
            return Err(Error::ContractNotFound);
        },
    };
    if crate::table::bytes_eq(info.code_hash.as_slice(), hash.as_slice()) {
        if state.code(hash).is_none() {
            return Err(Error::CodeNotFound);
        }
    } else {
        match add_user(state, hash) {
            Ok(()) => {},
            Err(e) => {
                return Err(e);
            },
        }
        remove_user(state, &info.code_hash);
    }
    state.set_info(
        who,
        ContractInfo {
            trie_id: info.trie_id,
            code_hash: *hash,
            storage_bytes: info.storage_bytes,
            storage_items: info.storage_items,
            storage_byte_deposit: info.storage_byte_deposit,
            storage_item_deposit: info.storage_item_deposit,
        },
    );
    let mut topics: Vec<CodeHash> = Vec::new();
    topics.push(hash_code(who.as_slice()));
    topics.push(*hash);
    topics.push(info.code_hash);
    let record = EventRecord {
        topics,
        event: Event::ContractCodeUpdated {
            contract: *who,
            new_code_hash: *hash,
            old_code_hash: info.code_hash,
        },
    };
    assert(record@.topics =~= seq![blake2_256_digest(who@), hash@, info.code_hash@]);
    state.deposit_event(record);
    Ok(())
}

/// The deposit that a contract gets back for all its storage when it ends.
pub open spec fn storage_refund(info: ContractInfo) -> StorageDeposit {
    StorageDeposit::Refund(
        capped(info.storage_byte_deposit + info.storage_item_deposit, u128::MAX as int) as u128,
    )
}

/// Why the contract at `who` cannot end in favour of `beneficiary`, if it cannot: the
/// deletion queue is full, or `who` is no contract, or its balance cannot move.
pub open spec fn terminate_refusal(
    s: StateView,
    config: Config,
    who: Seq<u8>,
    beneficiary: Seq<u8>,
) -> Option<Error> {
    if s.queue.len() >= config.deletion_queue_depth {
        Some(Error::DeletionQueueFull)
    } else if !s.contracts.contains_key(who) {
        Some(Error::ContractNotFound)
    } else if !(s.balance(who).free == 0 || can_transfer(
        s,
        who,
        beneficiary,
        s.balance(who).free,
        config.existential_deposit,
        false,
    )) {
        Some(Error::TransferFailed)
    } else {
        None
    }
}

/// The ledger after the contract at `who` ended: its record is gone and its storage waits
/// in the deletion queue, its code has one user less, its free balance is with the
/// beneficiary, and `Terminated` is deposited under the digests of both accounts.
pub open spec fn terminated(s: StateView, who: AccountId, beneficiary: AccountId) -> StateView {
    let info = s.contracts[who@].info;
    let queued = s.terminate(who@);
    let less = if queued.codes.contains_key(info.code_hash@) {
        queued.set_refcount(info.code_hash@, one_less(queued.codes[info.code_hash@].refcount))
    } else {
        queued
    };
    let swept = transferred(less, who@, beneficiary@, s.balance(who@).free);
    StateView {
        events: swept.events.push(
            EventRecordView {
                topics: seq![blake2_256_digest(who@), blake2_256_digest(beneficiary@)],
                event: EventView::Terminated { contract: who, beneficiary },
            },
        ),
        ..swept
    }
}

/// Ends the contract at `who` in favour of `beneficiary`, and returns the deposit that is
/// owed back for its storage. Fails, and changes nothing, for the reasons of
/// `terminate_refusal`.
pub fn terminate_contract(
    state: &mut State,
    config: &Config,
    who: &AccountId,
    beneficiary: &AccountId,
) -> (r: Result<StorageDeposit, Error>)
    requires
        old(state).wf(),
    ensures
        final(state).wf(),
        final(state).extends(*old(state)),
        conserves(old(state)@, final(state)@),
        keeps_counts(old(state)@, final(state)@),
        keeps_accounts(old(state)@, final(state)@, *config),
        match terminate_refusal(old(state)@, *config, who@, beneficiary@) {
            Some(e) => r == Err::<StorageDeposit, Error>(e) && final(state)@ == old(state)@,
            None => {
                &&& r == Ok::<StorageDeposit, Error>(
                    storage_refund(old(state)@.contracts[who@].info),
                )
                &&& final(state)@ == terminated(old(state)@, *who, *beneficiary)
            },
        },
{
    proof {
        if refcounts_exact(state@) && state@.contracts.contains_key(who@) {
            lemma_terminated_keeps_refcounts(state@, *who, *beneficiary);
        }
        if storage_accounted(state@, *config) {
            lemma_terminated_keeps_storage_accounted(state@, *config, *who, *beneficiary);
        }
    }
    if state.queue_len() >= config.deletion_queue_depth as usize {
        return Err(Error::DeletionQueueFull);
    }
    let info = match state.contract_info(who) {
        Some(info) => info,
        None => {
            return Err(Error::ContractNotFound);
        },
    };
    let free = state.balance(who).free;
    if free != 0 {
        let receiver = state.balance(beneficiary);
        let same = crate::table::bytes_eq(who.as_slice(), beneficiary.as_slice());
        if !same && (receiver.free > u128::MAX - free || receiver.free + free
            < config.existential_deposit) {
            return Err(Error::TransferFailed);
        }
    }
    let ghost before = state@;
    state.terminate(who);
    remove_user(state, &info.code_hash);
    let moved = transfer(state, who, beneficiary, free, config.existential_deposit, false);
    assert(moved.is_ok());
    state.deposit_event(
        record_with_topics(
            Event::Terminated { contract: *who, beneficiary: *beneficiary },
            hash_code(who.as_slice()),
            hash_code(beneficiary.as_slice()),
        ),
    );
    Ok(
        StorageDeposit::Refund(
            info.storage_byte_deposit.saturating_add(info.storage_item_deposit),
        ),
    )
}

} // verus!
