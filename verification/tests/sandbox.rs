use pallet_contracts::config::SENTINEL;
use pallet_contracts::error::Error;
use pallet_contracts::sandbox::{
    read_sandbox_memory, read_sandbox_u32, write_sandbox_memory, write_sandbox_output,
};

#[test]
fn read_checks_bounds() {
    let memory = vec![10u8, 11, 12, 13, 14];
    assert_eq!(read_sandbox_memory(&memory, 1, 3), Ok(vec![11, 12, 13]));
    assert_eq!(read_sandbox_memory(&memory, 5, 0), Ok(vec![]));
    assert_eq!(read_sandbox_memory(&memory, 3, 3), Err(Error::OutOfBounds));
    assert_eq!(read_sandbox_memory(&memory, u32::MAX, u32::MAX), Err(Error::OutOfBounds));
}

#[test]
fn write_checks_bounds_and_writes_nothing_on_failure() {
    let mut memory = vec![0u8; 5];
    assert_eq!(write_sandbox_memory(&mut memory, 2, &[7, 8]), Ok(()));
    assert_eq!(memory, vec![0, 0, 7, 8, 0]);
    assert_eq!(write_sandbox_memory(&mut memory, 4, &[1, 2]), Err(Error::OutOfBounds));
    assert_eq!(memory, vec![0, 0, 7, 8, 0]);
}

#[test]
fn u32_is_read_little_endian() {
    let memory = vec![0u8, 0x78, 0x56, 0x34, 0x12];
    assert_eq!(read_sandbox_u32(&memory, 1), Ok(0x1234_5678));
    assert_eq!(read_sandbox_u32(&memory, 2), Err(Error::OutOfBounds));
}

#[test]
fn output_is_written_with_its_length() {
    let mut memory = vec![0u8; 16];
    memory[0] = 8;
    assert_eq!(write_sandbox_output(&mut memory, 4, 0, &[1, 2, 3], false), Ok(()));
    assert_eq!(&memory[0..4], &[3, 0, 0, 0]);
    assert_eq!(&memory[4..7], &[1, 2, 3]);
}

#[test]
fn output_buffer_too_small_is_reported() {
    let mut memory = vec![0u8; 16];
    memory[0] = 2;
    let before = memory.clone();
    assert_eq!(
        write_sandbox_output(&mut memory, 4, 0, &[1, 2, 3], false),
        Err(Error::OutputBufferTooSmall)
    );
    assert_eq!(memory, before);
}

#[test]
fn sentinel_skips_the_output_only_where_allowed() {
    let mut memory = vec![0u8; 16];
    assert_eq!(write_sandbox_output(&mut memory, SENTINEL, 100, &[1, 2, 3], true), Ok(()));
    assert_eq!(memory, vec![0u8; 16]);
    assert_eq!(
        write_sandbox_output(&mut memory, SENTINEL, 100, &[1, 2, 3], false),
        Err(Error::OutOfBounds)
    );
}

#[test]
fn output_out_of_bounds_is_reported() {
    let mut memory = vec![0u8; 16];
    memory[0] = 8;
    assert_eq!(write_sandbox_output(&mut memory, 14, 0, &[1, 2, 3], false), Err(Error::OutOfBounds));
    assert_eq!(write_sandbox_output(&mut memory, 4, 13, &[1, 2, 3], false), Err(Error::OutOfBounds));
}
