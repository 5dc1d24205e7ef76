use chip8::memory::{Memory, OutOfBounds, FONT_SIZE, MEMORY_SIZE};

const FONT: [u8; 80] = [
    0xF0, 0x90, 0x90, 0x90, 0xF0, 0x20, 0x60, 0x20, 0x20, 0x70, 0xF0, 0x10, 0xF0, 0x80, 0xF0, 0xF0,
    0x10, 0xF0, 0x10, 0xF0, 0x90, 0x90, 0xF0, 0x10, 0x10, 0xF0, 0x80, 0xF0, 0x10, 0xF0, 0xF0, 0x80,
    0xF0, 0x90, 0xF0, 0xF0, 0x10, 0x20, 0x40, 0x40, 0xF0, 0x90, 0xF0, 0x90, 0xF0, 0xF0, 0x90, 0xF0,
    0x10, 0xF0, 0xF0, 0x90, 0xF0, 0x90, 0x90, 0xE0, 0x90, 0xE0, 0x90, 0xE0, 0xF0, 0x80, 0x80, 0x80,
    0xF0, 0xE0, 0x90, 0x90, 0x90, 0xE0, 0xF0, 0x80, 0xF0, 0x80, 0xF0, 0xF0, 0x80, 0xF0, 0x80, 0x80,
];

#[test]
fn memory_has_4096_bytes() {
    let memory = Memory::new();
    assert_eq!(memory.len(), 4096);
    assert_eq!(MEMORY_SIZE, 4096);
    assert_eq!(memory.slice(0, 4096).len(), 4096);
}

#[test]
fn font_lies_at_address_zero() {
    let memory = Memory::new();
    assert_eq!(FONT_SIZE, 80);
    assert_eq!(memory.slice(0, 80), &FONT[..]);
    assert_eq!(memory.get(0), 0xF0);
    assert_eq!(memory.get(5), 0x20);
    assert_eq!(memory.get(79), 0x80);
}

#[test]
fn memory_behind_the_font_is_zero() {
    let memory = Memory::new();
    for addr in 80..4096 {
        assert_eq!(memory.get(addr), 0);
    }
}

#[test]
fn default_memory_is_new_memory() {
    let memory = Memory::default();
    assert_eq!(memory.slice(0, 4096), Memory::new().slice(0, 4096));
}

#[test]
fn set_then_get_returns_the_byte() {
    let mut memory = Memory::new();
    memory.set(0x200, 0xAB);
    memory.set(4095, 0xCD);
    assert_eq!(memory.get(0x200), 0xAB);
    assert_eq!(memory.get(4095), 0xCD);
    assert_eq!(memory.get(0x201), 0);
    assert_eq!(memory.get(0), 0xF0);
}

#[test]
fn slice_returns_the_range() {
    let mut memory = Memory::new();
    memory.set(100, 1);
    memory.set(101, 2);
    memory.set(102, 3);
    assert_eq!(memory.slice(100, 103), &[1, 2, 3]);
    assert_eq!(memory.slice(101, 101), &[] as &[u8]);
    assert_eq!(memory.slice(4096, 4096), &[] as &[u8]);
}

#[test]
fn store_copies_the_bytes_and_nothing_else() {
    let mut memory = Memory::new();
    assert_eq!(memory.store(0x200, &[9, 8, 7]), Ok(()));
    assert_eq!(memory.slice(0x1FF, 0x204), &[0, 9, 8, 7, 0]);
    assert_eq!(memory.slice(0, 80), &FONT[..]);
}

#[test]
fn store_up_to_the_last_byte_succeeds() {
    let mut memory = Memory::new();
    assert_eq!(memory.store(4094, &[1, 2]), Ok(()));
    assert_eq!(memory.get(4094), 1);
    assert_eq!(memory.get(4095), 2);
    assert_eq!(memory.store(4096, &[]), Ok(()));
}

#[test]
fn store_past_the_end_is_refused_whole() {
    let mut memory = Memory::new();
    assert_eq!(memory.store(4095, &[1, 2]), Err(OutOfBounds));
    assert_eq!(memory.get(4095), 0);
    assert_eq!(memory.store(4097, &[]), Err(OutOfBounds));
    assert_eq!(memory.store(usize::MAX, &[1, 2]), Err(OutOfBounds));
    assert_eq!(memory.slice(0, 4096), Memory::new().slice(0, 4096));
}
