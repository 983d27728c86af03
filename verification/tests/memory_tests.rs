use chip8::memory::{Memory, OutOfBounds, MEMORY_SIZE};

#[test]
fn new_memory_is_zeroed() {
    let mem = Memory::new();
    assert_eq!(MEMORY_SIZE, 4096);
    for a in 0..4096u16 {
        assert_eq!(mem.read(a), Ok(0));
    }
}

#[test]
fn write_copies_bytes_from_the_address_on() {
    let mut mem = Memory::new();
    assert_eq!(mem.write(0x200, &[1, 2, 3]), Ok(()));
    assert_eq!(mem.read(0x1FF), Ok(0));
    assert_eq!(mem.read(0x200), Ok(1));
    assert_eq!(mem.read(0x201), Ok(2));
    assert_eq!(mem.read(0x202), Ok(3));
    assert_eq!(mem.read(0x203), Ok(0));
}

#[test]
fn write_up_to_the_last_byte_is_accepted() {
    let mut mem = Memory::new();
    assert_eq!(mem.write(4094, &[0xAA, 0xBB]), Ok(()));
    assert_eq!(mem.read(4094), Ok(0xAA));
    assert_eq!(mem.read(4095), Ok(0xBB));
    assert_eq!(mem.write(4096, &[]), Ok(()));
    let whole = vec![7u8; 4096];
    assert_eq!(mem.write(0, &whole), Ok(()));
    assert_eq!(mem.read(0), Ok(7));
    assert_eq!(mem.read(4095), Ok(7));
}

#[test]
fn write_past_the_end_is_refused_and_changes_nothing() {
    let mut mem = Memory::new();
    assert_eq!(mem.write(4090, &[9, 9, 9]), Ok(()));
    assert_eq!(mem.write(4095, &[1, 2]), Err(OutOfBounds));
    assert_eq!(mem.read(4095), Ok(0));
    assert_eq!(mem.write(4096, &[1]), Err(OutOfBounds));
    assert_eq!(mem.write(0xFFFF, &[]), Err(OutOfBounds));
    let too_long = vec![1u8; 4097];
    assert_eq!(mem.write(0, &too_long), Err(OutOfBounds));
    assert_eq!(mem.read(0), Ok(0));
    assert_eq!(mem.read(4090), Ok(9));
}

#[test]
fn read_outside_memory_fails() {
    let mem = Memory::new();
    assert_eq!(mem.read(4095), Ok(0));
    assert_eq!(mem.read(4096), Err(OutOfBounds));
    assert_eq!(mem.read(0xFFFF), Err(OutOfBounds));
}

#[test]
fn read16_is_big_endian() {
    let mut mem = Memory::new();
    assert_eq!(mem.write(0x300, &[0x12, 0x34, 0xFF, 0x01]), Ok(()));
    assert_eq!(mem.read16(0x300), Ok(0x1234));
    assert_eq!(mem.read16(0x301), Ok(0x34FF));
    assert_eq!(mem.read16(0x302), Ok(0xFF01));
    assert_eq!(mem.read16(0x303), Ok(0x0100));
}

#[test]
fn read16_needs_both_bytes_in_memory() {
    let mut mem = Memory::new();
    assert_eq!(mem.write(4094, &[0xAB, 0xCD]), Ok(()));
    assert_eq!(mem.read16(4094), Ok(0xABCD));
    assert_eq!(mem.read16(4095), Err(OutOfBounds));
    assert_eq!(mem.read16(4096), Err(OutOfBounds));
    assert_eq!(mem.read16(0xFFFF), Err(OutOfBounds));
}

#[test]
fn read_range_borrows_the_bytes() {
    let mut mem = Memory::new();
    assert_eq!(mem.write(0x210, &[0xF0, 0x90, 0x90, 0x90, 0xF0]), Ok(()));
    assert_eq!(mem.read_range(0x210, 5), Ok(&[0xF0u8, 0x90, 0x90, 0x90, 0xF0][..]));
    assert_eq!(mem.read_range(0x212, 2), Ok(&[0x90u8, 0x90][..]));
    assert_eq!(mem.read_range(4096, 0), Ok(&[][..]));
    assert_eq!(mem.read_range(4095, 1), Ok(&[0u8][..]));
    assert_eq!(mem.read_range(4095, 2), Err(OutOfBounds));
    assert_eq!(mem.read_range(4097, 0), Err(OutOfBounds));
    assert_eq!(mem.read_range(0, usize::MAX), Err(OutOfBounds));
}
