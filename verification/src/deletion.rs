//! Lazy deletion: the storage of ended contracts is deleted a batch per block.

use vstd::prelude::*;
use crate::config::Config;
use crate::state::{drained_keys, is_drained, State, StateView};
use crate::weight::{capped, Weight};

verus! {

/// The number of values that may be deleted under `weight_limit` while the queue holds
/// `queue_len` entries: what is left of the computation time after looking at the queue and
/// at each of its entries, by the time that one deletion takes. Nothing where a deletion
/// costs no time.
pub open spec fn key_budget(config: Config, queue_len: nat, weight_limit: Weight) -> u32 {
    let base = config.weights.on_process_deletion_queue_batch;
    let decoding = config.weights.on_initialize_per_queue_item.spec_saturating_mul(
        queue_len as u64);
    let rest = weight_limit.spec_saturating_sub(base).spec_saturating_sub(decoding).ref_time;
    let per_key = config.weights.on_initialize_per_trie_key.ref_time;
    if per_key == 0 {
        0
    } else {
        capped(rest as int / per_key as int, u32::MAX as int) as u32
    }
}

/// The weight of one deletion, and the number of deletions that fit `weight_limit`.
pub fn deletion_budget(config: &Config, queue_len: usize, weight_limit: Weight) -> (r: (
    Weight,
    u32,
))
    ensures
        r.0 == config.weights.on_initialize_per_trie_key,
        r.1 == key_budget(*config, queue_len as nat, weight_limit),
{
    let base = config.weights.on_process_deletion_queue_batch;
    let decoding = config.weights.on_initialize_per_queue_item.saturating_mul(queue_len as u64);
    let rest = weight_limit.saturating_sub(&base).saturating_sub(&decoding).ref_time;
    let per_key = config.weights.on_initialize_per_trie_key.ref_time;
    let budget = if per_key == 0 {
        0
    } else {
        let keys = rest / per_key;
        if keys > u32::MAX as u64 {
            u32::MAX
        } else {
            keys as u32
        }
    };
    (config.weights.on_initialize_per_trie_key, budget)
}

/// The weight that a batch uses: nothing where the queue is empty; all of the limit where
/// the limit pays for no deletion; else the limit less the deletions that were paid for and
/// not needed.
pub open spec fn batch_weight(s: StateView, config: Config, weight_limit: Weight) -> Weight {
    let budget = key_budget(config, s.queue.len(), weight_limit);
    if s.queue.len() == 0 {
        Weight { ref_time: 0, proof_size: 0 }
    } else if budget == 0 {
        weight_limit
    } else {
        weight_limit.spec_saturating_sub(
            config.weights.on_initialize_per_trie_key.spec_saturating_mul(
                (budget - drained_keys(s.queue, budget as nat)) as u64,
            ),
        )
    }
}

/// Deletes queued storage within `weight_limit`, first in first out, and returns the weight
/// used. An entry leaves the queue when its last value is deleted; an entry that the budget
/// does not empty stays at the head with the rest of its values.
pub fn process_deletion_queue_batch(state: &mut State, config: &Config, weight_limit: Weight) -> (
    used:
    Weight)
    requires
        old(state).wf(),
        old(state).journal_len() == 0,
    ensures
        final(state).wf(),
        final(state).journal_len() == 0,
        used == batch_weight(old(state)@, *config, weight_limit),
        is_drained(
            old(state)@.queue,
            final(state)@.queue,
            key_budget(*config, old(state)@.queue.len(), weight_limit) as nat,
        ),
        final(state)@ == (StateView { queue: final(state)@.queue, ..old(state)@ }),
{
    let queue_len = state.queue_len();
    let (weight_per_key, budget) = deletion_budget(config, queue_len, weight_limit);
    let left = state.delete_queued(budget);
    if queue_len == 0 {
        Weight::zero()
    } else if budget == 0 {
        weight_limit
    } else {
        weight_limit.saturating_sub(&weight_per_key.saturating_mul(left as u64))
    }
}

/// A budget that covers the entry at the head takes at least that entry off the queue.
pub proof fn lemma_head_drained(before: Seq<crate::state::DeletedView>, after: Seq<
    crate::state::DeletedView,
>, budget: nat)
    requires
        before.len() > 0,
        budget > 0,
        before[0].storage.dom().len() <= budget,
        is_drained(before, after, budget),
    ensures
        after.len() < before.len(),
{
}

} // verus!
