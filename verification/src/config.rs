//! What a chain configures: limits, prices and the cost schedule.

use vstd::prelude::*;
use crate::primitives::Balance;
use crate::weight::{capped, saturating_mul_u128, Weight};

verus! {

/// Total memory that a runtime may use, in bytes.
pub const MAX_RUNTIME_MEM: u32 = 1024 * 1024 * 128;

/// Size of the value stack of one contract, in bytes.
pub const MAX_STACK_SIZE: u32 = 1024 * 1024;

/// Size that the debug buffer must exceed.
pub const MIN_DEBUG_BUF_SIZE: u32 = 256;

/// Size of a page of Wasm memory, in bytes.
pub const BYTES_PER_PAGE: u32 = 64 * 1024;

/// Value in place of a pointer or a length that tells a host function that the contract
/// passed no buffer.
pub const SENTINEL: u32 = u32::MAX;

/// Limits that a contract must keep.
#[derive(Clone, Copy, Debug)]
pub struct Limits {
    /// The most topics that an event may carry.
    pub event_topics: u32,
    /// The most pages of memory that a contract may have.
    pub memory_pages: u32,
    /// The greatest length of the subject of a randomness request.
    pub subject_len: u32,
    /// The greatest length of a storage value or of an event.
    pub payload_len: u32,
}

impl Limits {
    pub open spec fn spec_max_memory_size(self) -> int {
        capped(self.memory_pages * BYTES_PER_PAGE, u32::MAX as int)
    }

    /// The most memory that a contract may have, in bytes.
    pub fn max_memory_size(&self) -> (r: u32)
        ensures
            r == self.spec_max_memory_size(),
    {
        match self.memory_pages.checked_mul(BYTES_PER_PAGE) {
            Some(v) => v,
            None => u32::MAX,
        }
    }
}

/// What each host function costs before it does anything.
#[derive(Clone, Copy, Debug)]
pub struct HostFnWeights {
    /// Reading something of the frame or the chain: caller, address, balances and the like.
    pub query: Weight,
    /// Handing the input to the contract.
    pub input: Weight,
    /// Per byte of input or output handed over.
    pub per_byte: Weight,
    /// A transfer of balance.
    pub transfer: Weight,
    /// Starting a call.
    pub call: Weight,
    /// Starting a delegate call.
    pub delegate_call: Weight,
    /// Starting an instantiation.
    pub instantiate: Weight,
    /// Terminating the contract.
    pub terminate: Weight,
    /// Writing a storage value.
    pub set_storage: Weight,
    /// Per byte of a storage value written.
    pub set_storage_per_byte: Weight,
    /// Clearing a storage value.
    pub clear_storage: Weight,
    /// Reading a storage value.
    pub get_storage: Weight,
    /// Asking whether a storage value exists.
    pub contains_storage: Weight,
    /// Taking a storage value out.
    pub take_storage: Weight,
    /// Depositing an event.
    pub deposit_event: Weight,
    /// Per topic of an event.
    pub deposit_event_per_topic: Weight,
    /// Asking for a random value.
    pub random: Weight,
    /// Writing a debug message.
    pub debug_message: Weight,
    /// Replacing the code of the contract.
    pub set_code_hash: Weight,
}

/// The cost schedule.
#[derive(Clone, Copy, Debug)]
pub struct Schedule {
    pub limits: Limits,
    /// Version of the instruction weights. Code instrumented under an older version is
    /// instrumented again before it runs.
    pub instruction_weights_version: u32,
    pub host_fn_weights: HostFnWeights,
    /// Per byte of instrumented code that is loaded for execution.
    pub code_load_per_byte: Weight,
    /// Per byte of pristine code that is instrumented again.
    pub reinstrument_per_byte: Weight,
}

/// Fixed weights of the operations that are not metered by gas.
#[derive(Clone, Copy, Debug)]
pub struct DispatchWeights {
    pub call: Weight,
    pub instantiate: Weight,
    pub instantiate_per_input_byte: Weight,
    pub instantiate_per_salt_byte: Weight,
    pub instantiate_with_code: Weight,
    pub instantiate_with_code_per_code_byte: Weight,
    pub upload_code: Weight,
    pub upload_code_per_byte: Weight,
    pub remove_code: Weight,
    pub set_code: Weight,
    /// Looking at the deletion queue at all.
    pub on_process_deletion_queue_batch: Weight,
    /// Each entry of the deletion queue that has to be decoded.
    pub on_initialize_per_queue_item: Weight,
    /// Each storage value that is deleted.
    pub on_initialize_per_trie_key: Weight,
}

/// The configuration of the executor.
#[derive(Clone, Copy, Debug)]
pub struct Config {
    pub schedule: Schedule,
    pub weights: DispatchWeights,
    /// Number of nested calls that a call may make: the stack holds one frame more.
    pub call_stack_size: u32,
    /// The most contracts that can wait for the deletion of their storage.
    pub deletion_queue_depth: u32,
    /// The most weight that a block spends on deleting storage.
    pub deletion_weight_limit: Weight,
    /// Price of a byte of storage.
    pub deposit_per_byte: Balance,
    /// Price of a storage item.
    pub deposit_per_item: Balance,
    /// The greatest length of a code blob, pristine or instrumented.
    pub max_code_len: u32,
    /// The greatest length of a storage key.
    pub max_storage_key_len: u32,
    /// The greatest length of the debug buffer.
    pub max_debug_buffer_len: u32,
    /// Whether host functions that are not yet stable are offered to contracts.
    pub unsafe_unstable_interface: bool,
    /// The least balance that an account must have to exist.
    pub existential_deposit: Balance,
    /// The most weight that a block may use.
    pub max_block_weight: Weight,
    /// Whether the chain offers a chain extension.
    pub chain_extension: bool,
}

impl Config {
    /// The depth that the call stack may reach.
    pub open spec fn max_call_depth(self) -> int {
        self.call_stack_size + 1
    }

    /// Whether contracts cannot exhaust the memory of the runtime: with every frame of the
    /// deepest call stack holding its code seventy-two times over, a full value stack and a
    /// full heap, less than half of the memory is used; and the debug buffer holds more than
    /// its minimum.
    pub open spec fn integrity(self) -> bool {
        &&& (self.max_code_len * 72 + MAX_STACK_SIZE + self.schedule.limits.spec_max_memory_size())
            * self.max_call_depth() < MAX_RUNTIME_MEM / 2
        &&& self.max_debug_buffer_len > MIN_DEBUG_BUF_SIZE
    }

    /// Checks the configuration once, before anything runs.
    pub fn integrity_test(&self) -> (ok: bool)
        ensures
            ok == self.integrity(),
    {
        let max_heap_size: u64 = self.schedule.limits.max_memory_size() as u64;
        let max_call_depth: u64 = self.call_stack_size as u64 + 1;
        let per_frame: u64 = self.max_code_len as u64 * 72 + MAX_STACK_SIZE as u64 + max_heap_size;
        assert(per_frame * max_call_depth <= 0x4A_0000_0000 * 0x1_0000_0000) by (nonlinear_arith)
            requires
                per_frame <= 0x4A_0000_0000,
                max_call_depth <= 0x1_0000_0000,
        ;
        let total: u128 = per_frame as u128 * max_call_depth as u128;
        total < (MAX_RUNTIME_MEM / 2) as u128 && self.max_debug_buffer_len > MIN_DEBUG_BUF_SIZE
    }

    /// The deposit for a code blob whose instrumented form has `instrumented_len` bytes: the
    /// price of the bytes and of the three records kept for it.
    pub open spec fn spec_code_deposit(self, instrumented_len: nat) -> Balance {
        capped(
            capped(self.deposit_per_byte * instrumented_len, u128::MAX as int) + capped(
                self.deposit_per_item * 3,
                u128::MAX as int,
            ),
            u128::MAX as int,
        ) as u128
    }

    /// The deposit for a code blob whose instrumented form has `instrumented_len` bytes.
    pub fn code_deposit(&self, instrumented_len: usize) -> (d: Balance)
        ensures
            d == self.spec_code_deposit(instrumented_len as nat),
    {
        let bytes = saturating_mul_u128(self.deposit_per_byte, instrumented_len as u128);
        let items = saturating_mul_u128(self.deposit_per_item, 3);
        bytes.saturating_add(items)
    }
}

} // verus!
