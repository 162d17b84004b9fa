//! The execution stack: nested call frames over the journaled ledger.
//!
//! A frame is opened by a call, a delegate call or an instantiation. While it is on top, the
//! running contract acts on the ledger through the host functions of the stack. When the
//! contract returns or traps, `finish` closes the frame: the changes of a frame that returned
//! without the revert flag stay, those of any other frame are taken back to the checkpoint
//! of the frame. The gas that a frame used stays used either way.

pub mod call;
pub mod finish;
pub mod host;
pub mod idle;
pub mod instantiate;
pub mod lifecycle;
pub mod storage;

use vstd::prelude::*;
use crate::config::Config;
use crate::deposit::Meter;
use crate::error::Error;
use crate::gas::GasMeter;
use crate::invariants::{conserves, refcounts_exact, storage_accounted};
use crate::primitives::{AccountId, Balance, CodeHash, Determinism, ExportedFunction};
use crate::state::{State, StateView};
use crate::weight::Weight;

verus! {

/// Flags that a contract passes with a call.
#[derive(Clone, Copy, Debug, PartialEq, Eq, Structural)]
pub struct CallFlags {
    /// Hand the input of the caller on to the callee. The caller loses it.
    pub forward_input: bool,
    /// Hand a copy of the input of the caller to the callee.
    pub clone_input: bool,
    /// Let the callee run in place of the caller, whose frame ends with the call.
    pub tail_call: bool,
    /// Allow the callee, and whatever it calls, to call back into the caller.
    pub allow_reentry: bool,
    /// Mark the callee, and whatever it calls, as read only.
    pub read_only: bool,
}

impl CallFlags {
    pub open spec fn spec_from_bits(bits: u32) -> Option<CallFlags> {
        if bits >= 32 {
            None
        } else {
            Some(
                CallFlags {
                    forward_input: bits % 2 == 1,
                    clone_input: bits / 2 % 2 == 1,
                    tail_call: bits / 4 % 2 == 1,
                    allow_reentry: bits / 8 % 2 == 1,
                    read_only: bits / 16 % 2 == 1,
                },
            )
        }
    }

    /// Reads the flags off their bits, the lowest first in the order of the fields. Bits
    /// beyond the five flags make the value invalid.
    pub fn from_bits(bits: u32) -> (r: Option<CallFlags>)
        ensures
            r == Self::spec_from_bits(bits),
    {
        if bits >= 32 {
            None
        } else {
            Some(
                CallFlags {
                    forward_input: bits % 2 == 1,
                    clone_input: bits / 2 % 2 == 1,
                    tail_call: bits / 4 % 2 == 1,
                    allow_reentry: bits / 8 % 2 == 1,
                    read_only: bits / 16 % 2 == 1,
                },
            )
        }
    }

    /// Reads the flags off their bits, or fails with `InvalidCallFlags` for bits that are no
    /// flags.
    pub fn try_from_bits(bits: u32) -> (r: Result<CallFlags, Error>)
        ensures
            match Self::spec_from_bits(bits) {
                Some(f) => r == Ok::<CallFlags, Error>(f),
                None => r == Err::<CallFlags, Error>(Error::InvalidCallFlags),
            },
    {
        match Self::from_bits(bits) {
            Some(f) => Ok(f),
            None => Err(Error::InvalidCallFlags),
        }
    }

    /// No flag set.
    pub fn empty() -> (r: CallFlags)
        ensures
            r == Self::spec_from_bits(0)->0,
    {
        CallFlags {
            forward_input: false,
            clone_input: false,
            tail_call: false,
            allow_reentry: false,
            read_only: false,
        }
    }
}

/// One call in progress.
pub struct Frame {
    /// The account whose storage and balance the frame acts on.
    pub account_id: AccountId,
    /// The account that made the call.
    pub caller: AccountId,
    /// The entry point that runs.
    pub entry_point: ExportedFunction,
    /// The code that runs.
    pub code_hash: CodeHash,
    /// Whether the code runs on behalf of another contract, by a delegate call.
    pub delegated: bool,
    /// The balance that came with the call.
    pub value_transferred: Balance,
    /// The input of the call, until it is forwarded.
    pub input: Option<Vec<u8>>,
    /// The gas of this frame.
    pub nested_gas: GasMeter,
    /// The storage deposit of this frame.
    pub nested_storage: Meter,
    /// Whether a call that this frame has in progress may reach this contract again.
    pub allows_reentry: bool,
    /// Whether the frame was opened read only.
    pub read_only: bool,
    /// The position of the journal when the frame was opened.
    pub checkpoint: usize,
}

impl Frame {
    /// Number of instantiations that opening the frame has counted: one for the frame of a
    /// constructor, none for any other.
    pub open spec fn instantiations(self) -> int {
        if self.entry_point == ExportedFunction::Constructor {
            1
        } else {
            0
        }
    }

    /// The gas meter of this frame has only paid out since the frame was `before`: the lowest
    /// rest that it remembers is the one that `before` remembered, or what it has left now
    /// where that is less.
    pub open spec fn paid_since(self, before: Frame) -> bool {
        self.nested_gas.lowest() == before.nested_gas.lowest().spec_min(self.nested_gas.left())
    }

    /// `self` is the frame `other`, apart from what changes while a frame runs: its gas, its
    /// storage deposit, its input and whether it can be re-entered.
    pub open spec fn same_identity(self, other: Frame) -> bool {
        &&& self.account_id == other.account_id
        &&& self.caller == other.caller
        &&& self.entry_point == other.entry_point
        &&& self.code_hash == other.code_hash
        &&& self.delegated == other.delegated
        &&& self.value_transferred == other.value_transferred
        &&& self.read_only == other.read_only
        &&& self.checkpoint == other.checkpoint
        &&& self.nested_gas.limit() == other.nested_gas.limit()
        &&& self.nested_storage.limit() == other.nested_storage.limit()
    }
}

/// Whether a call may reach the account `to`: no frame of that account forbids it.
pub open spec fn reentry_allowed(frames: Seq<Frame>, to: Seq<u8>) -> bool {
    forall|i: int| 0 <= i < frames.len() && (#[trigger] frames[i]).account_id@ == to
        ==> frames[i].allows_reentry
}

/// What the caller of `call` or `instantiate` has to do next.
#[derive(Clone, Copy, Debug)]
pub enum Started {
    /// A frame was opened. The code of the frame has to run, then `finish` closes it.
    Run {
        account_id: AccountId,
        code_hash: CodeHash,
        entry_point: ExportedFunction,
        /// The stored code is instrumented under old instruction weights and has to be
        /// instrumented again before it runs.
        stale: bool,
    },
    /// The call was a plain transfer to an account without code. It is complete.
    Transferred,
}

/// How the code of a frame ended.
pub enum Outcome {
    /// The contract returned, with its flags and its output.
    Returned { flags: u32, data: Vec<u8> },
    /// The contract trapped, or a host function failed.
    Trapped(Error),
}

/// The stack of frames, with the ledger they act on.
pub struct Stack {
    config: Config,
    state: State,
    origin: AccountId,
    gas_meter: GasMeter,
    storage_meter: Meter,
    frames: Vec<Frame>,
    debug_message: Option<Vec<u8>>,
    determinism: Determinism,
    block_number: u64,
    timestamp: u64,
}

impl Stack {
    pub closed spec fn config(self) -> Config {
        self.config
    }

    /// The ledger with its journal.
    pub closed spec fn state(self) -> State {
        self.state
    }

    /// The ledger.
    pub open spec fn ledger(self) -> StateView {
        self.state()@
    }

    /// The account that started the execution.
    pub closed spec fn origin(self) -> AccountId {
        self.origin
    }

    /// The gas meter of the whole execution.
    pub closed spec fn gas(self) -> GasMeter {
        self.gas_meter
    }

    /// The storage deposit meter of the whole execution.
    pub closed spec fn deposit(self) -> Meter {
        self.storage_meter
    }

    /// The frames, the root first.
    pub closed spec fn frames(self) -> Seq<Frame> {
        self.frames@
    }

    /// The debug buffer, where debugging is on.
    pub closed spec fn debug_buffer(self) -> Option<Seq<u8>> {
        match self.debug_message {
            Some(b) => Some(b@),
            None => None,
        }
    }

    pub closed spec fn determinism(self) -> Determinism {
        self.determinism
    }

    pub closed spec fn block_number(self) -> u64 {
        self.block_number
    }

    pub closed spec fn timestamp(self) -> u64 {
        self.timestamp
    }

    /// Number of frames.
    pub open spec fn depth(self) -> nat {
        self.frames().len()
    }

    /// The frame whose code is running.
    pub open spec fn top(self) -> Frame
        recommends
            self.depth() > 0,
    {
        self.frames().last()
    }

    /// Invariant of the stack: the ledger and all meters are well formed, the stack is no
    /// deeper than allowed, and the checkpoints of the frames are positions of the journal,
    /// in the order of the frames. Since the last commit, and since each frame was opened,
    /// no balance was created or destroyed and the nonce has not fallen; the instantiation
    /// that opened the frame of a constructor has raised it. Now, at the last commit and
    /// when each frame was opened, every stored code counts exactly the contracts that run
    /// it, and every contract counts exactly the entries and the bytes of its storage.
    pub open spec fn wf(self) -> bool {
        &&& self.state().wf()
        &&& self.gas().wf()
        &&& self.depth() <= self.config().max_call_depth()
        &&& self.depth() > 0 ==> self.top().allows_reentry
        &&& forall|i: int| 0 <= i < self.depth() ==> (#[trigger] self.frames()[i]).nested_gas.wf()
        &&& forall|i: int|
            0 <= i < self.depth() ==> (#[trigger] self.frames()[i]).checkpoint
                <= self.state().journal_len()
        &&& forall|i: int, j: int|
            0 <= i <= j < self.depth() ==> (#[trigger] self.frames()[i]).checkpoint <= (
            #[trigger] self.frames()[j]).checkpoint
        &&& self.conserved_since(0)
        &&& refcounts_exact(self.ledger())
        &&& refcounts_exact(self.state().reverts_to(0))
        &&& storage_accounted(self.ledger(), self.config())
        &&& storage_accounted(self.state().reverts_to(0), self.config())
        &&& forall|i: int|
            0 <= i < self.depth() ==> self.conserved_since(
                (#[trigger] self.frames()[i]).checkpoint as int,
            ) && self.state().reverts_to(0).nonce <= self.state().reverts_to(
                self.frames()[i].checkpoint as int,
            ).nonce && self.state().reverts_to(self.frames()[i].checkpoint as int).nonce
                + self.frames()[i].instantiations() <= self.ledger().nonce && refcounts_exact(
                self.state().reverts_to(self.frames()[i].checkpoint as int),
            ) && storage_accounted(
                self.state().reverts_to(self.frames()[i].checkpoint as int),
                self.config(),
            )
        &&& forall|i: int, j: int|
            0 <= i < j < self.depth() ==> self.state().reverts_to(
                (#[trigger] self.frames()[i]).checkpoint as int,
            ).nonce + self.frames()[i].instantiations() <= self.state().reverts_to(
                (#[trigger] self.frames()[j]).checkpoint as int,
            ).nonce
    }

    /// Since the ledger was what it was at the checkpoint `mark`, no balance was created or
    /// destroyed, and the nonce has not fallen.
    pub open spec fn conserved_since(self, mark: int) -> bool {
        conserves(self.state().reverts_to(mark), self.ledger())
    }

    /// `self` differs from `before` only in what the running frame may change: the ledger
    /// moved on within the journal, and the top frame is another. The frames below, the
    /// meters of the execution and the checkpoint of the top frame are the same.
    pub open spec fn same_below(self, before: Stack) -> bool {
        &&& self.config() == before.config()
        &&& self.origin() == before.origin()
        &&& self.gas() == before.gas()
        &&& self.deposit() == before.deposit()
        &&& self.determinism() == before.determinism()
        &&& self.block_number() == before.block_number()
        &&& self.timestamp() == before.timestamp()
        &&& self.depth() == before.depth()
        &&& self.frames().drop_last() == before.frames().drop_last()
        &&& self.state().extends(before.state())
    }

    /// `self` came out of `before` by an operation of the running contract that may have
    /// opened a frame: all below the caller is the same, and of the caller only its gas, its
    /// input and whether it can be re-entered may differ.
    pub open spec fn caller_kept(self, before: Stack) -> bool {
        &&& self.config() == before.config()
        &&& self.origin() == before.origin()
        &&& self.gas() == before.gas()
        &&& self.deposit() == before.deposit()
        &&& self.determinism() == before.determinism()
        &&& self.block_number() == before.block_number()
        &&& self.timestamp() == before.timestamp()
        &&& self.debug_buffer() == before.debug_buffer()
        &&& self.state().extends(before.state())
        &&& self.depth() >= before.depth()
        &&& self.frames().subrange(0, before.depth() - 1) == before.frames().drop_last()
        &&& self.frames()[before.depth() - 1].same_identity(before.top())
        &&& self.frames()[before.depth() - 1].nested_storage == before.top().nested_storage
        &&& self.frames()[before.depth() - 1].paid_since(before.top())
        &&& self.frames()[before.depth() - 1].nested_gas.left().all_lte(
            before.top().nested_gas.left(),
        )
    }

    /// `self` came out of `before` by a host function that took `fee` from the gas of the
    /// running frame and left the frames as they were in all else.
    pub open spec fn charged(self, before: Stack, fee: Weight) -> bool {
        &&& self.same_below(before)
        &&& self.debug_buffer() == before.debug_buffer()
        &&& self.top().same_identity(before.top())
        &&& self.top().input == before.top().input
        &&& self.top().allows_reentry == before.top().allows_reentry
        &&& self.top().nested_storage == before.top().nested_storage
        &&& self.top().nested_gas.left() == before.top().nested_gas.left().spec_saturating_sub(fee)
        &&& self.top().paid_since(before.top())
    }

    /// `self` is as `before` in everything.
    pub open spec fn same(self, before: Stack) -> bool {
        &&& self.same_below(before)
        &&& self.frames() == before.frames()
        &&& self.state() == before.state()
        &&& self.debug_buffer() == before.debug_buffer()
    }

    /// A stack without frames over `state`, at rest: no origin, no gas, no deposit.
    pub fn new(config: Config, state: State) -> (s: Stack)
        requires
            state.wf(),
            state.journal_len() == 0,
            refcounts_exact(state@),
            storage_accounted(state@, config),
        ensures
            s.wf(),
            s.depth() == 0,
            s.config() == config,
            s.state() == state,
            s.debug_buffer().is_none(),
            s.determinism() == Determinism::Deterministic,
            s.block_number() == 0,
            s.timestamp() == 0,
    {
        proof {
            state.lemma_reverts_to_now();
        }
        Stack {
            config,
            state,
            origin: [0u8; 32],
            gas_meter: GasMeter::new(Weight::zero()),
            storage_meter: Meter::empty(),
            frames: Vec::new(),
            debug_message: None,
            determinism: Determinism::Deterministic,
            block_number: 0,
            timestamp: 0,
        }
    }

    /// Prepares the stack for an execution on behalf of `origin`, with the meters of the
    /// execution and an empty debug buffer where debugging is on.
    pub fn begin(
        &mut self,
        origin: AccountId,
        gas_meter: GasMeter,
        storage_meter: Meter,
        debug: bool,
        determinism: Determinism,
    )
        requires
            old(self).wf(),
            old(self).depth() == 0,
            gas_meter.wf(),
        ensures
            final(self).wf(),
            final(self).depth() == 0,
            final(self).config() == old(self).config(),
            final(self).state() == old(self).state(),
            final(self).block_number() == old(self).block_number(),
            final(self).timestamp() == old(self).timestamp(),
            final(self).origin() == origin,
            final(self).gas() == gas_meter,
            final(self).deposit() == storage_meter,
            final(self).debug_buffer() == if debug {
                Some(Seq::<u8>::empty())
            } else {
                None
            },
            final(self).determinism() == determinism,
    {
        self.origin = origin;
        self.gas_meter = gas_meter;
        self.storage_meter = storage_meter;
        self.debug_message = if debug {
            Some(Vec::new())
        } else {
            None
        };
        self.determinism = determinism;
    }

    /// Tells the stack the number and the time of the current block.
    pub fn set_block(&mut self, block_number: u64, timestamp: u64)
        requires
            old(self).wf(),
        ensures
            final(self).wf(),
            final(self).config() == old(self).config(),
            final(self).state() == old(self).state(),
            final(self).origin() == old(self).origin(),
            final(self).gas() == old(self).gas(),
            final(self).deposit() == old(self).deposit(),
            final(self).frames() == old(self).frames(),
            final(self).debug_buffer() == old(self).debug_buffer(),
            final(self).determinism() == old(self).determinism(),
            final(self).block_number() == block_number,
            final(self).timestamp() == timestamp,
    {
        self.block_number = block_number;
        self.timestamp = timestamp;
    }

    /// The ledger.
    pub fn ledger_ref(&self) -> (r: &State)
        ensures
            *r == self.state(),
    {
        &self.state
    }

    /// The configuration.
    pub fn config_ref(&self) -> (r: &Config)
        ensures
            *r == self.config(),
    {
        &self.config
    }

    /// The gas meter of the execution.
    pub fn gas_meter(&self) -> (r: GasMeter)
        ensures
            r == self.gas(),
    {
        self.gas_meter
    }

    /// The storage deposit meter of the execution.
    pub fn storage_meter(&self) -> (r: Meter)
        ensures
            r == self.deposit(),
    {
        self.storage_meter
    }

    /// A copy of the debug buffer; empty where debugging is off.
    pub fn debug_message_bytes(&self) -> (r: Vec<u8>)
        ensures
            r@ == match self.debug_buffer() {
                Some(b) => b,
                None => Seq::<u8>::empty(),
            },
    {
        match &self.debug_message {
            Some(b) => crate::primitives::to_vec(b.as_slice()),
            None => Vec::new(),
        }
    }

    /// The gas that the running frame has left.
    pub fn gas_left(&self) -> (w: Weight)
        requires
            self.depth() > 0,
        ensures
            w == self.top().nested_gas.left(),
    {
        self.frames[self.frames.len() - 1].nested_gas.gas_left()
    }

    /// The storage deposit that the running frame has accrued.
    pub fn storage_deposit(&self) -> (d: crate::deposit::StorageDeposit)
        requires
            self.depth() > 0,
        ensures
            d == self.top().nested_storage.total(),
    {
        self.frames[self.frames.len() - 1].nested_storage.total_deposit()
    }

    /// Number of frames.
    pub fn frame_count(&self) -> (n: usize)
        ensures
            n == self.depth(),
    {
        self.frames.len()
    }

    /// Charges the running frame. Fails with `OutOfGas`, and charges nothing, where the frame
    /// has less left.
    pub fn charge(&mut self, amount: Weight) -> (r: Result<(), Error>)
        requires
            old(self).wf(),
            old(self).depth() > 0,
        ensures
            final(self).wf(),
            final(self).same_below(*old(self)),
            final(self).state() == old(self).state(),
            final(self).debug_buffer() == old(self).debug_buffer(),
            r.is_ok() <==> amount.all_lte(old(self).top().nested_gas.left()),
            r.is_err() ==> r == Err::<(), Error>(Error::OutOfGas) && final(self).same(*old(self)),
            r.is_ok() ==> final(self).charged(*old(self), amount),
            r.is_ok() ==> final(self).top() == (Frame {
                nested_gas: final(self).top().nested_gas,
                ..old(self).top()
            }) && final(self).top().nested_gas.limit() == old(self).top().nested_gas.limit()
                && final(self).top().nested_gas.left()
                    == old(self).top().nested_gas.left().spec_saturating_sub(amount),
    {
        let ghost before = *self;
        let mut top = self.frames.pop().unwrap();
        let ghost top_before = top;
        let r = top.nested_gas.charge(amount);
        self.frames.push(top);
        proof {
            if r.is_err() {
                assert(top == top_before);
                assert(self.frames@ =~= before.frames@);
            }
            assert(self.frames@.drop_last() =~= before.frames@.drop_last());
            assert forall|i: int| 0 <= i < self.depth() implies (
            #[trigger] self.frames()[i]).nested_gas.wf() && self.frames()[i].checkpoint
                == before.frames()[i].checkpoint by {
                if i < self.depth() - 1 {
                    assert(self.frames()[i] == before.frames()[i]);
                }
            }
        }
        r
    }
}

} // verus!
