//! Checked access to the linear memory of a running contract.
//!
//! A contract passes pointers and lengths into its own memory. Nothing is read or written
//! before the range is known to lie inside the memory. An output buffer is passed as a
//! pointer to the buffer and a pointer to its length; the length of what was written is
//! written back there.

use vstd::prelude::*;
use vstd::bytes::{spec_u32_from_le_bytes, spec_u32_to_le_bytes, u32_from_le_bytes, u32_to_le_bytes};
use crate::config::SENTINEL;
use crate::error::Error;

verus! {

/// Whether `len` bytes from `ptr` on lie inside a memory of `size` bytes.
pub open spec fn in_bounds(size: nat, ptr: u32, len: nat) -> bool {
    ptr + len <= size
}

/// The memory with `data` written at `ptr`.
pub open spec fn overwritten(memory: Seq<u8>, ptr: u32, data: Seq<u8>) -> Seq<u8> {
    Seq::new(
        memory.len(),
        |i: int|
            if ptr <= i < ptr + data.len() {
                data[i - ptr]
            } else {
                memory[i]
            },
    )
}

/// Reads `len` bytes at `ptr`. Fails with `OutOfBounds` unless the range lies inside the
/// memory.
pub fn read_sandbox_memory(memory: &[u8], ptr: u32, len: u32) -> (r: Result<Vec<u8>, Error>)
    ensures
        match r {
            Ok(bytes) => in_bounds(memory@.len(), ptr, len as nat) && bytes@ == memory@.subrange(
                ptr as int,
                ptr + len,
            ),
            Err(e) => e == Error::OutOfBounds && !in_bounds(memory@.len(), ptr, len as nat),
        },
{
    if ptr as u64 + len as u64 > memory.len() as u64 {
        return Err(Error::OutOfBounds);
    }
    let mut out: Vec<u8> = Vec::new();
    let mut i: usize = 0;
    while i < len as usize
        invariant
            i <= len,
            ptr + len <= memory@.len(),
            memory@.len() <= usize::MAX,
            out@ == memory@.subrange(ptr as int, ptr + i),
        decreases len - i,
    {
        out.push(memory[ptr as usize + i]);
        assert(memory@.subrange(ptr as int, ptr + i + 1) == memory@.subrange(
            ptr as int,
            ptr + i,
        ).push(memory@[ptr + i]));
        i += 1;
    }
    Ok(out)
}

/// Writes `data` at `ptr`. Fails with `OutOfBounds`, and writes nothing, unless the range
/// lies inside the memory.
pub fn write_sandbox_memory(memory: &mut Vec<u8>, ptr: u32, data: &[u8]) -> (r: Result<(), Error>)
    ensures
        final(memory)@.len() == old(memory)@.len(),
        match r {
            Ok(()) => in_bounds(old(memory)@.len(), ptr, data@.len()) && final(memory)@
                == overwritten(old(memory)@, ptr, data@),
            Err(e) => e == Error::OutOfBounds && !in_bounds(old(memory)@.len(), ptr, data@.len())
                && final(memory)@ == old(memory)@,
        },
{
    if data.len() > memory.len() || ptr as usize > memory.len() - data.len() {
        return Err(Error::OutOfBounds);
    }
    let mut i: usize = 0;
    while i < data.len()
        invariant
            i <= data.len(),
            memory@.len() == old(memory)@.len(),
            ptr + data@.len() <= memory@.len(),
            memory@.len() <= usize::MAX,
            forall|j: int|
                0 <= j < memory@.len() ==> memory@[j] == if ptr <= j < ptr + i {
                    data@[j - ptr]
                } else {
                    old(memory)@[j]
                },
        decreases data.len() - i,
    {
        memory[ptr as usize + i] = data[i];
        i += 1;
    }
    assert(memory@ =~= overwritten(old(memory)@, ptr, data@));
    Ok(())
}

/// Reads the little-endian `u32` at `ptr`. Fails with `OutOfBounds` unless its four bytes
/// lie inside the memory.
pub fn read_sandbox_u32(memory: &[u8], ptr: u32) -> (r: Result<u32, Error>)
    ensures
        match r {
            Ok(v) => in_bounds(memory@.len(), ptr, 4) && v == spec_u32_from_le_bytes(
                memory@.subrange(ptr as int, ptr + 4),
            ),
            Err(e) => e == Error::OutOfBounds && !in_bounds(memory@.len(), ptr, 4),
        },
{
    match read_sandbox_memory(memory, ptr, 4) {
        Ok(bytes) => Ok(u32_from_le_bytes(bytes.as_slice())),
        Err(e) => Err(e),
    }
}

/// Why an output cannot be handed to the contract, if it cannot: the length at
/// `out_len_ptr` cannot be read; the buffer of the contract is too small; the output or its
/// length cannot be written.
pub open spec fn output_refusal(memory: Seq<u8>, out_ptr: u32, out_len_ptr: u32,
    buf: Seq<u8>) -> Option<
    Error,
> {
    if !in_bounds(memory.len(), out_len_ptr, 4) {
        Some(Error::OutOfBounds)
    } else if spec_u32_from_le_bytes(memory.subrange(out_len_ptr as int, out_len_ptr + 4))
        < buf.len() {
        Some(Error::OutputBufferTooSmall)
    } else if !in_bounds(memory.len(), out_ptr, buf.len()) {
        Some(Error::OutOfBounds)
    } else {
        None
    }
}

/// Hands the output `buf` of a host function to the contract: writes it at `out_ptr` and
/// its length at `out_len_ptr`, where the contract has put the size of its buffer.
///
/// With `allow_skip`, a contract that passed the sentinel as `out_ptr` wants no output, and
/// nothing is written. Fails, and writes nothing, for the reasons of `output_refusal`.
pub fn write_sandbox_output(
    memory: &mut Vec<u8>,
    out_ptr: u32,
    out_len_ptr: u32,
    buf: &[u8],
    allow_skip: bool,
) -> (r: Result<(), Error>)
    requires
        buf@.len() <= u32::MAX,
    ensures
        final(memory)@.len() == old(memory)@.len(),
        if allow_skip && out_ptr == SENTINEL {
            r.is_ok() && final(memory)@ == old(memory)@
        } else {
            match output_refusal(old(memory)@, out_ptr, out_len_ptr, buf@) {
                Some(e) => r == Err::<(), Error>(e) && final(memory)@ == old(memory)@,
                None => r.is_ok() && final(memory)@ == overwritten(
                    overwritten(old(memory)@, out_ptr, buf@),
                    out_len_ptr,
                    spec_u32_to_le_bytes(buf@.len() as u32),
                ),
            }
        },
{
    if allow_skip && out_ptr == SENTINEL {
        return Ok(());
    }
    let buf_len = buf.len() as u32;
    let len = match read_sandbox_u32(memory.as_slice(), out_len_ptr) {
        Ok(len) => len,
        Err(e) => {
            return Err(e);
        },
    };
    if len < buf_len {
        return Err(Error::OutputBufferTooSmall);
    }
    match write_sandbox_memory(memory, out_ptr, buf) {
        Ok(()) => {},
        Err(e) => {
            return Err(e);
        },
    }
    let encoded = u32_to_le_bytes(buf_len);
    proof {
        vstd::bytes::lemma_auto_spec_u32_to_from_le_bytes();
    }
    let written = write_sandbox_memory(memory, out_len_ptr, encoded.as_slice());
    assert(written.is_ok());
    Ok(())
}

} // verus!
