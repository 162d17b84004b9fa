//! Laws that hold of the executor as a whole, proved from the contracts of its operations.

use vstd::prelude::*;
use crate::address::{lemma_trie_id_preimage_injective, trie_id_preimage};
use crate::code_cache::{can_store, stored, PrefabWasmModule};
use crate::config::Config;
use crate::contract::terminate_refusal;
use crate::deposit::StorageDeposit;
use crate::error::Error;
use crate::invariants::{conserves, pair_len, refcounts_exact, storage_accounted, users, uses};
use crate::sums::{lemma_sum_agrees, lemma_sum_remove, map_sum};
use crate::pallet::Pallet;
use crate::run::InternalOutput;
use crate::exec::finish::{closed_ledger, commits};
use crate::exec::lifecycle::is_recursive;
use crate::exec::{CallFlags, Outcome, Stack};
use crate::exec::instantiate::{instantiate_refusal, instantiated, next_nonce};
use crate::ledger::{can_transfer, reserved, transferred};
use crate::primitives::{Balance, ExportedFunction};
use crate::state::StateView;

verus! {

/// While the frame at depth `depth` is open, `after` came out of `before` by operations that
/// left the checkpoint of that frame alone, and the ledger as it was at that checkpoint and
/// at every earlier one.
pub open spec fn keeps(after: Stack, before: Stack, depth: nat) -> bool {
    &&& 0 < depth <= before.depth()
    &&& depth <= after.depth()
    &&& after.frames()[depth - 1].checkpoint == before.frames()[depth - 1].checkpoint
    &&& forall|m: int|
        0 <= m <= before.frames()[depth - 1].checkpoint ==> #[trigger] after.state().reverts_to(m)
            == before.state().reverts_to(m)
}

/// What keeps a frame, step after step, keeps it from the first step to the last.
pub proof fn lemma_keeps_is_transitive(a: Stack, b: Stack, c: Stack, depth: nat)
    requires
        keeps(b, a, depth),
        keeps(c, b, depth),
    ensures
        keeps(c, a, depth),
{
}

/// A host function, which changes no frame but the top one and only adds to the journal,
/// keeps every open frame.
pub proof fn lemma_host_function_keeps(after: Stack, before: Stack, depth: nat)
    requires
        before.wf(),
        0 < depth <= before.depth(),
        after.same_below(before),
        after.top().checkpoint == before.top().checkpoint,
    ensures
        keeps(after, before, depth),
{
    if depth < before.depth() {
        assert(after.frames().drop_last()[depth - 1] == before.frames().drop_last()[depth - 1]);
    }
}

/// An operation that opens a frame above the caller keeps every frame that was open.
pub proof fn lemma_opening_keeps(after: Stack, before: Stack, depth: nat)
    requires
        before.wf(),
        0 < depth <= before.depth(),
        after.caller_kept(before),
    ensures
        keeps(after, before, depth),
{
    if depth < before.depth() {
        assert(after.frames().subrange(0, before.depth() - 1)[depth - 1]
            == before.frames().drop_last()[depth
            - 1]);
    }
}

/// Closing the top frame in any way keeps every frame below it.
pub proof fn lemma_closing_keeps(after: Stack, before: Stack, depth: nat)
    requires
        before.wf(),
        before.depth() >= 2,
        0 < depth < before.depth(),
        after.depth() == before.depth() - 1,
        after.frames().drop_last() == before.frames().drop_last().drop_last(),
        after.top().same_identity(before.frames()[before.depth() - 2]),
        forall|m: int|
            0 <= m <= before.top().checkpoint ==> #[trigger] after.state().reverts_to(m)
                == before.state().reverts_to(m),
    ensures
        keeps(after, before, depth),
{
    let i = depth - 1;
    if depth < after.depth() {
        assert(after.frames().drop_last()[i] == after.frames()[i]);
        assert(before.frames().drop_last().drop_last()[i] == before.frames()[i]);
        assert(after.frames()[i] == before.frames()[i]);
    } else {
        assert(after.frames()[i] == after.top());
    }
    assert(after.frames()[i].checkpoint == before.frames()[i].checkpoint);
    assert(before.frames()[i].checkpoint <= before.top().checkpoint);
}

/// A call that does not commit leaves the ledger of its caller as it was just before the
/// call: balances, contracts with their storage, code, nonce, deletion queue and events.
///
/// `before` is the stack before the call, `opened` the stack with the frame of the callee on
/// top, `ran` the stack when the code of the callee has ended, whatever it did and called in
/// between, and `after` the stack once the frame is closed.
pub proof fn lemma_failed_call_restores_ledger(
    before: Stack,
    opened: Stack,
    ran: Stack,
    after: Stack,
    outcome: Outcome,
)
    requires
        opened.wf(),
        opened.depth() == before.depth() + 1,
        opened.state().reverts_to(opened.top().checkpoint as int) == before.ledger(),
        keeps(ran, opened, opened.depth()),
        ran.depth() == opened.depth(),
        !commits(ran.top(), outcome),
        after.ledger() == closed_ledger(ran.top(), outcome, ran),
    ensures
        after.ledger() == before.ledger(),
{
}

/// One contract more is one user more. Take the ledger before an execution and the ledger
/// after it, both with exact counts, as every ledger of an executor is. Where the second
/// holds the contracts of the first, each with the code that it had, and one contract more,
/// the code of that contract counts one user more than it did, and all other code counts
/// what it counted.
pub proof fn lemma_one_contract_more_is_one_user_more(
    before: StateView,
    after: StateView,
    address: Seq<u8>,
)
    requires
        refcounts_exact(before),
        refcounts_exact(after),
        !before.contracts.contains_key(address),
        after.contracts.dom() == before.contracts.dom().insert(address),
        forall|a: Seq<u8>| #[trigger]
            before.contracts.contains_key(a) ==> after.contracts[a].info.code_hash
                == before.contracts[a].info.code_hash,
    ensures
        forall|hash: Seq<u8>|
            before.codes.contains_key(hash) && #[trigger] after.codes.contains_key(hash)
                ==> after.codes[hash].refcount == before.codes[hash].refcount + (if hash
                == after.contracts[address].info.code_hash@ {
                1int
            } else {
                0int
            }),
{
    assert forall|hash: Seq<u8>|
        before.codes.contains_key(hash) && #[trigger] after.codes.contains_key(
            hash,
        ) implies after.codes[hash].refcount == before.codes[hash].refcount + (if hash
        == after.contracts[address].info.code_hash@ {
        1int
    } else {
        0int
    }) by {
        let rest = after.contracts.remove(address);
        assert(after.contracts.contains_key(address));
        lemma_sum_remove(after.contracts, uses(hash), address);
        assert(rest.dom() =~= before.contracts.dom());
        assert forall|a: Seq<u8>| rest.contains_key(a) implies #[trigger] uses(hash)(a, rest[a])
            == uses(hash)(a, before.contracts[a]) by {
            assert(before.contracts.contains_key(a));
        }
        lemma_sum_agrees(rest, before.contracts, uses(hash));
    }
}

/// The same contracts are the same users. Where two ledgers with exact counts hold the same
/// contracts, each with the same code, as before and after an execution that failed or that
/// created and ended no contract and changed the code of none, all code that both hold
/// counts the same users.
pub proof fn lemma_same_contracts_are_the_same_users(before: StateView, after: StateView)
    requires
        refcounts_exact(before),
        refcounts_exact(after),
        after.contracts.dom() == before.contracts.dom(),
        forall|a: Seq<u8>| #[trigger]
            before.contracts.contains_key(a) ==> after.contracts[a].info.code_hash
                == before.contracts[a].info.code_hash,
    ensures
        forall|hash: Seq<u8>|
            before.codes.contains_key(hash) && #[trigger] after.codes.contains_key(hash)
                ==> after.codes[hash].refcount == before.codes[hash].refcount,
{
    assert forall|hash: Seq<u8>|
        before.codes.contains_key(hash) && #[trigger] after.codes.contains_key(
            hash,
        ) implies after.codes[hash].refcount == before.codes[hash].refcount by {
        assert forall|a: Seq<u8>| after.contracts.contains_key(a) implies #[trigger] uses(hash)(
            a,
            after.contracts[a],
        ) == uses(hash)(a, before.contracts[a]) by {
            assert(before.contracts.contains_key(a));
        }
        lemma_sum_agrees(after.contracts, before.contracts, uses(hash));
    }
}

/// At every moment of the life of an executor, between executions and while contracts
/// run, after calls that commit, revert or trap at any depth, every stored code counts
/// exactly the contracts that run it, and every contract counts exactly the entries of its
/// storage and the bytes of their keys and values, and names the deposits that these cost.
/// Every operation of the executor and of its stack keeps `wf`, from which this follows.
pub proof fn lemma_ledger_is_exact(p: Pallet)
    requires
        p.wf(),
    ensures
        refcounts_exact(p.ledger()),
        storage_accounted(p.ledger(), p.config()),
        forall|contract: Seq<u8>| #[trigger]
            p.ledger().contracts.contains_key(contract) ==> {
                let c = p.ledger().contracts[contract];
                &&& c.info.storage_items == c.storage.dom().len()
                &&& c.info.storage_bytes == map_sum(c.storage, pair_len())
                &&& p.ledger().codes.contains_key(c.info.code_hash@)
            },
        forall|hash: Seq<u8>| #[trigger]
            p.ledger().codes.contains_key(hash) ==> p.ledger().codes[hash].refcount == users(
                p.ledger(),
                hash,
            ),
{
}

/// An execution creates and destroys no balance and never lowers the nonce, whatever it
/// does and however it ends. An instantiation that keeps its changes raises the nonce.
///
/// `before` is the executor before the execution began, `started` the executor with the
/// root frame just opened, `ran` the executor when the code of the root frame has ended,
/// whatever it did and called in between, and `after` the executor once the execution is
/// concluded with `outcome`.
pub proof fn lemma_execution_conserves(
    before: Pallet,
    started: Pallet,
    ran: Pallet,
    after: Pallet,
    outcome: Outcome,
    out: InternalOutput,
)
    requires
        started.stack.wf(),
        started.stack.depth() == 1,
        started.stack.state().reverts_to(0) == before.ledger(),
        keeps(ran.stack, started.stack, 1),
        ran.pending is Some,
        Pallet::completed(ran, after, outcome, out),
    ensures
        conserves(before.ledger(), after.ledger()),
        crate::run::keeps_changes(ran.pending->0.dry_run, out.result) && ran.stack.top().entry_point
            == ExportedFunction::Constructor ==> after.ledger().nonce > before.ledger().nonce,
{
}

/// A call at the greatest depth is refused with `MaxCallDepthReached`, where the caller can
/// pay the fee of the call and still has the input that it forwards.
pub proof fn lemma_call_at_max_depth_is_refused(
    stack: Stack,
    flags: CallFlags,
    to: Seq<u8>,
    value: Balance,
)
    requires
        stack.depth() == stack.config().max_call_depth(),
        stack.config().schedule.host_fn_weights.call.all_lte(stack.top().nested_gas.left()),
        (flags.forward_input || flags.clone_input) ==> stack.top().input is Some,
    ensures
        stack.sub_call_refusal(flags, to, value) == Some(Error::MaxCallDepthReached),
{
}

/// A contract that is called, and on which a frame further down the stack acts as well,
/// cannot end: it is refused with `TerminatedWhileReentrant`.
pub proof fn lemma_terminate_while_reentrant_is_refused(stack: Stack, beneficiary: Seq<u8>)
    requires
        stack.depth() > 0,
        stack.top().entry_point == ExportedFunction::Call,
        is_recursive(stack.frames()),
    ensures
        stack.end_refusal(beneficiary) == Some(Error::TerminatedWhileReentrant),
{
}

/// A contract cannot end while the deletion queue is full: it is refused with
/// `DeletionQueueFull`.
pub proof fn lemma_full_queue_refuses_termination(
    s: StateView,
    config: Config,
    who: Seq<u8>,
    beneficiary: Seq<u8>,
)
    requires
        s.queue.len() >= config.deletion_queue_depth,
    ensures
        terminate_refusal(s, config, who, beneficiary) == Some(Error::DeletionQueueFull),
{
}

/// Storing the same code twice stores it once and reserves one deposit: the second store
/// changes nothing.
pub proof fn lemma_upload_is_idempotent(
    s: StateView,
    config: Config,
    first: PrefabWasmModule,
    second: PrefabWasmModule,
)
    requires
        first.code_hash@ == second.code_hash@,
        !s.codes.contains_key(first.code_hash@),
        can_store(s, first),
    ensures
        stored(stored(s, first, config), second, config) == stored(s, first, config),
        can_store(stored(s, first, config), second),
        stored(s, first, config).balance(first.owner@).reserved == s.balance(first.owner@).reserved
            + first.deposit,
{
}

/// What is set aside from the origin at the end of an execution is the storage deposit of
/// the execution: a charge raises the reserved balance of the origin by its amount, a refund
/// lowers it by its amount, as long as the origin has that much set aside and its free
/// balance can take it.
pub proof fn lemma_settled_deposit_is_reserved_delta(stack: Stack)
    requires
        stack.can_settle(),
        stack.deposit().total() matches StorageDeposit::Refund(a) ==> a <= stack.ledger().balance(
            stack.origin()@,
        ).reserved && stack.ledger().balance(stack.origin()@).free + a <= u128::MAX,
    ensures
        stack.settled().balance(stack.origin()@).reserved == stack.ledger().balance(
            stack.origin()@,
        ).reserved + stack.deposit().total().net(),
        stack.settled().balance(stack.origin()@).free + stack.settled().balance(
            stack.origin()@,
        ).reserved == stack.ledger().balance(stack.origin()@).free + stack.ledger().balance(
            stack.origin()@,
        ).reserved,
{
}

/// A transfer creates and destroys nothing: what the sender loses the receiver gains, and
/// no other balance changes.
pub proof fn lemma_transfer_conserves(
    s: StateView,
    from: Seq<u8>,
    to: Seq<u8>,
    value: Balance,
    existential_deposit: Balance,
    keep_alive: bool,
)
    requires
        can_transfer(s, from, to, value, existential_deposit, keep_alive),
        from != to,
    ensures
        transferred(s, from, to, value).balance(from).free
            + transferred(s, from, to, value).balance(
            to,
        ).free == s.balance(from).free + s.balance(to).free,
        transferred(s, from, to, value).balance(from).reserved == s.balance(from).reserved,
        transferred(s, from, to, value).balance(to).reserved == s.balance(to).reserved,
        forall|other: Seq<u8>|
            other != from && other != to
                ==> #[trigger] transferred(s, from, to, value).balance(other)
                == s.balance(other),
{
}

/// Each instantiation moves the nonce on by one, until it has reached the greatest number.
pub proof fn lemma_nonce_strictly_increases(nonce: u64)
    requires
        nonce < u64::MAX,
    ensures
        next_nonce(nonce) == nonce + 1,
        next_nonce(nonce) > nonce,
{
}

/// The nonce never falls, and no contract is instantiated once it cannot rise: an
/// instantiation that is not refused finds a nonce below the greatest number and leaves it
/// greater by one.
pub proof fn lemma_instantiation_moves_the_nonce_on(
    s: StateView,
    config: Config,
    depth: nat,
    gas_left: crate::weight::Weight,
    deployer: Seq<u8>,
    code_hash: Seq<u8>,
    address: Seq<u8>,
    info: crate::state::ContractInfo,
    value: Balance,
)
    requires
        instantiate_refusal(s, config, depth, gas_left, deployer, code_hash, address, value)
            is None,
    ensures
        s.nonce < u64::MAX,
        transferred(instantiated(s, address, info), deployer, address, value).nonce == s.nonce
            + 1,
        forall|n: u64| next_nonce(n) >= n,
{
}

/// The trie of a new contract is named after what no trie was named after before. Its
/// identifier is the digest of its account and of the nonce that its instantiation left,
/// and that nonce is above every nonce that an earlier instantiation left, at whatever
/// account: so the digest is taken of bytes of which it was never taken for a trie. Two
/// identifiers can fall together only where the digests of different bytes do.
pub proof fn lemma_new_trie_is_named_anew(
    s: StateView,
    config: Config,
    depth: nat,
    gas_left: crate::weight::Weight,
    deployer: Seq<u8>,
    code_hash: Seq<u8>,
    address: Seq<u8>,
    value: Balance,
    earlier_account: Seq<u8>,
    earlier_nonce: u64,
)
    requires
        instantiate_refusal(s, config, depth, gas_left, deployer, code_hash, address, value)
            is None,
        address.len() == 32,
        earlier_account.len() == 32,
        earlier_nonce <= s.nonce,
    ensures
        trie_id_preimage(address, next_nonce(s.nonce)) != trie_id_preimage(
            earlier_account,
            earlier_nonce,
        ),
{
    if trie_id_preimage(address, next_nonce(s.nonce)) == trie_id_preimage(
        earlier_account,
        earlier_nonce,
    ) {
        lemma_trie_id_preimage_injective(
            address,
            next_nonce(s.nonce),
            earlier_account,
            earlier_nonce,
        );
    }
}

} // verus!
