use chip8::emulator::Chip8;
use chip8::machine::{Fault, Tick};
use chip8::quirks::Quirks;

fn set_registers(chip: &mut Chip8, values: &[u8]) {
    for (x, value) in values.iter().enumerate() {
        chip.execute(0x6000 | ((x as u16) << 8) | *value as u16, 0).unwrap();
    }
}

fn lit_pixels(chip: &Chip8) -> Vec<(usize, usize)> {
    let mut lit = Vec::new();
    for y in 0..32 {
        for x in 0..64 {
            if chip.window().get_pixel(x, y) {
                lit.push((x, y));
            }
        }
    }
    lit
}

struct Snapshot {
    registers: [u8; 16],
    pc: u16,
    index: u16,
    delay: u8,
    sound: u8,
    depth: usize,
    memory: Vec<u8>,
    pixels: Vec<bool>,
    keys: [bool; 16],
    waiting: Option<u8>,
}

fn snapshot(chip: &Chip8) -> Snapshot {
    Snapshot {
        registers: *chip.registers(),
        pc: chip.program_counter(),
        index: chip.index_register(),
        delay: chip.delay_timer(),
        sound: chip.sound_timer(),
        depth: chip.stack().depth(),
        memory: chip.memory().slice(0, 4096).to_vec(),
        pixels: chip.window().as_slice().to_vec(),
        keys: *chip.keys(),
        waiting: chip.key_wait_register(),
    }
}

fn assert_same(a: &Snapshot, b: &Snapshot) {
    assert_eq!(a.registers, b.registers);
    assert_eq!(a.pc, b.pc);
    assert_eq!(a.index, b.index);
    assert_eq!(a.delay, b.delay);
    assert_eq!(a.sound, b.sound);
    assert_eq!(a.depth, b.depth);
    assert!(a.memory == b.memory);
    assert!(a.pixels == b.pixels);
    assert_eq!(a.keys, b.keys);
    assert_eq!(a.waiting, b.waiting);
}

#[test]
fn load_index_sets_the_index_register() {
    let mut chip = Chip8::new();
    assert_eq!(chip.execute(0xAFED, 0), Ok(Tick::Executed));
    assert_eq!(chip.index_register(), 0xFED);
}

#[test]
fn add_index_adds_the_register() {
    let mut chip = Chip8::new();
    chip.execute(0xA100, 0).unwrap();
    chip.execute(0x6520, 0).unwrap();
    chip.execute(0x6F09, 0).unwrap();
    assert_eq!(chip.execute(0xF51E, 0), Ok(Tick::Executed));
    assert_eq!(chip.index_register(), 0x120);
    assert_eq!(chip.registers()[0xF], 9);
}

#[test]
fn add_index_wraps_at_sixteen_bits() {
    let mut chip = Chip8::new();
    chip.execute(0xA000, 0).unwrap();
    chip.execute(0x60FF, 0).unwrap();
    for _ in 0..257 {
        chip.execute(0xF01E, 0).unwrap();
    }
    assert_eq!(chip.index_register(), 0xFFFF);
    assert_eq!(chip.execute(0xF01E, 0), Ok(Tick::Executed));
    assert_eq!(chip.index_register(), 0x00FE);
}

#[test]
fn font_glyph_address_is_five_times_the_register() {
    let mut chip = Chip8::new();
    for (value, address) in [(0u8, 0u16), (1, 5), (0xA, 50), (0xF, 75), (0xFF, 1275)] {
        chip.execute(0x6300 | value as u16, 0).unwrap();
        assert_eq!(chip.execute(0xF329, 0), Ok(Tick::Executed));
        assert_eq!(chip.index_register(), address);
    }
}

#[test]
fn bcd_stores_hundreds_tens_and_units() {
    for (value, digits) in [(254u8, [2u8, 5, 4]), (0, [0, 0, 0]), (7, [0, 0, 7]), (90, [0, 9, 0]), (255, [2, 5, 5]), (100, [1, 0, 0])] {
        let mut chip = Chip8::new();
        chip.execute(0x6200 | value as u16, 0).unwrap();
        chip.execute(0xA300, 0).unwrap();
        assert_eq!(chip.execute(0xF233, 0), Ok(Tick::Executed));
        assert_eq!(chip.memory().slice(0x300, 0x303), &digits);
        assert_eq!(chip.memory().get(0x2FF), 0);
        assert_eq!(chip.memory().get(0x303), 0);
        assert_eq!(chip.index_register(), 0x300);
    }
}

#[test]
fn bcd_at_the_end_of_memory() {
    let mut chip = Chip8::new();
    chip.execute(0x627B, 0).unwrap();
    chip.execute(0xAFFD, 0).unwrap();
    assert_eq!(chip.execute(0xF233, 0), Ok(Tick::Executed));
    assert_eq!(chip.memory().slice(0xFFD, 0x1000), &[1, 2, 3]);
    chip.execute(0xAFFE, 0).unwrap();
    let before = snapshot(&chip);
    assert_eq!(chip.execute(0xF233, 0), Err(Fault::MemoryOutOfBounds));
    assert_same(&before, &snapshot(&chip));
}

#[test]
fn save_copies_registers_and_advances_the_index_by_x_plus_one() {
    let mut chip = Chip8::new();
    set_registers(&mut chip, &[0x11, 0x22, 0x33, 0x44, 0x55]);
    chip.execute(0xA400, 0).unwrap();
    assert_eq!(chip.execute(0xF355, 0), Ok(Tick::Executed));
    assert_eq!(chip.memory().slice(0x3FF, 0x405), &[0, 0x11, 0x22, 0x33, 0x44, 0]);
    assert_eq!(chip.index_register(), 0x404);
    assert_eq!(&chip.registers()[0..5], &[0x11, 0x22, 0x33, 0x44, 0x55]);
}

#[test]
fn save_without_the_memory_quirk_leaves_the_index() {
    let mut chip = Chip8::new().override_quirks(Quirks::empty());
    set_registers(&mut chip, &[0x11, 0x22, 0x33, 0x44, 0x55]);
    chip.execute(0xA400, 0).unwrap();
    assert_eq!(chip.execute(0xF355, 0), Ok(Tick::Executed));
    assert_eq!(chip.memory().slice(0x3FF, 0x405), &[0, 0x11, 0x22, 0x33, 0x44, 0]);
    assert_eq!(chip.index_register(), 0x400);
}

#[test]
fn save_of_v0_alone_and_of_all_registers() {
    let mut chip = Chip8::new();
    let values: Vec<u8> = (1..=16).collect();
    set_registers(&mut chip, &values);
    chip.execute(0xA500, 0).unwrap();
    chip.execute(0xF055, 0).unwrap();
    assert_eq!(chip.memory().slice(0x500, 0x502), &[1, 0]);
    assert_eq!(chip.index_register(), 0x501);
    chip.execute(0xA600, 0).unwrap();
    chip.execute(0xFF55, 0).unwrap();
    assert_eq!(chip.memory().slice(0x600, 0x611), &[1, 2, 3, 4, 5, 6, 7, 8, 9, 10, 11, 12, 13, 14, 15, 16, 0]);
    assert_eq!(chip.index_register(), 0x610);
}

#[test]
fn save_up_to_the_last_byte_and_beyond() {
    let mut chip = Chip8::new();
    set_registers(&mut chip, &[1, 2, 3, 4]);
    chip.execute(0xAFFC, 0).unwrap();
    assert_eq!(chip.execute(0xF355, 0), Ok(Tick::Executed));
    assert_eq!(chip.memory().slice(0xFFC, 0x1000), &[1, 2, 3, 4]);
    assert_eq!(chip.index_register(), 0x1000);
    chip.execute(0xAFFD, 0).unwrap();
    let before = snapshot(&chip);
    assert_eq!(chip.execute(0xF355, 0), Err(Fault::MemoryOutOfBounds));
    assert_same(&before, &snapshot(&chip));
}

#[test]
fn restore_fills_registers_and_advances_the_index_by_x_plus_one() {
    let mut chip = Chip8::new();
    chip.load(&[0xAA, 0xBB, 0xCC, 0xDD]).unwrap();
    set_registers(&mut chip, &[1, 2, 3, 4, 5]);
    chip.execute(0xA200, 0).unwrap();
    assert_eq!(chip.execute(0xF265, 0), Ok(Tick::Executed));
    assert_eq!(&chip.registers()[0..5], &[0xAA, 0xBB, 0xCC, 4, 5]);
    assert_eq!(chip.index_register(), 0x203);
}

#[test]
fn restore_without_the_memory_quirk_leaves_the_index() {
    let mut chip = Chip8::new().override_quirks(Quirks::empty());
    chip.load(&[0xAA, 0xBB, 0xCC, 0xDD]).unwrap();
    chip.execute(0xA200, 0).unwrap();
    assert_eq!(chip.execute(0xF265, 0), Ok(Tick::Executed));
    assert_eq!(&chip.registers()[0..4], &[0xAA, 0xBB, 0xCC, 0]);
    assert_eq!(chip.index_register(), 0x200);
}

#[test]
fn restore_beyond_memory_is_a_fault() {
    let mut chip = Chip8::new();
    set_registers(&mut chip, &[1, 2, 3, 4]);
    chip.execute(0xAFFF, 0).unwrap();
    let before = snapshot(&chip);
    assert_eq!(chip.execute(0xF165, 0), Err(Fault::MemoryOutOfBounds));
    assert_same(&before, &snapshot(&chip));
    assert_eq!(chip.execute(0xF065, 0), Ok(Tick::Executed));
    assert_eq!(chip.registers()[0], 0);
}

#[test]
fn save_then_restore_brings_the_registers_back() {
    let mut chip = Chip8::new();
    let values: Vec<u8> = (0..16).map(|i| 0xF0 | i).collect();
    set_registers(&mut chip, &values);
    chip.execute(0xA800, 0).unwrap();
    chip.execute(0xFF55, 0).unwrap();
    set_registers(&mut chip, &[0; 16]);
    chip.execute(0xA800, 0).unwrap();
    chip.execute(0xFF65, 0).unwrap();
    assert_eq!(&chip.registers()[..], &values[..]);
}

#[test]
fn draw_shows_a_font_glyph_and_clears_the_flag() {
    let mut chip = Chip8::new();
    set_registers(&mut chip, &[0x0A, 3, 2]);
    chip.execute(0x6F05, 0).unwrap();
    chip.execute(0xF029, 0).unwrap();
    assert_eq!(chip.execute(0xD125, 0), Ok(Tick::Executed));
    assert_eq!(chip.registers()[0xF], 0);
    let expected = vec![
        (3, 2),
        (4, 2),
        (5, 2),
        (6, 2),
        (3, 3),
        (6, 3),
        (3, 4),
        (4, 4),
        (5, 4),
        (6, 4),
        (3, 5),
        (6, 5),
        (3, 6),
        (6, 6),
    ];
    assert_eq!(lit_pixels(&chip), expected);
}

#[test]
fn draw_twice_erases_and_sets_the_flag() {
    let mut chip = Chip8::new();
    chip.execute(0xA000, 0).unwrap();
    chip.execute(0xD005, 0).unwrap();
    assert_eq!(chip.registers()[0xF], 0);
    assert_eq!(chip.execute(0xD005, 0), Ok(Tick::Executed));
    assert_eq!(chip.registers()[0xF], 1);
    assert!(lit_pixels(&chip).is_empty());
}

#[test]
fn draw_clips_under_the_default_quirks() {
    let mut chip = Chip8::new();
    set_registers(&mut chip, &[62, 30]);
    chip.execute(0xA000, 0).unwrap();
    chip.execute(0xD015, 0).unwrap();
    assert_eq!(lit_pixels(&chip), vec![(62, 30), (63, 30), (62, 31)]);
}

#[test]
fn draw_wraps_without_the_clipping_quirk() {
    let mut chip = Chip8::new().override_quirks(Quirks::empty());
    set_registers(&mut chip, &[62, 30]);
    chip.execute(0xA000, 0).unwrap();
    chip.execute(0xD012, 0).unwrap();
    assert_eq!(
        lit_pixels(&chip),
        vec![(0, 30), (1, 30), (62, 30), (63, 30), (1, 31), (62, 31)]
    );
}

#[test]
fn draw_of_no_rows_draws_nothing() {
    let mut chip = Chip8::new();
    chip.execute(0x6F07, 0).unwrap();
    chip.execute(0xA000, 0).unwrap();
    assert_eq!(chip.execute(0xD000, 0), Ok(Tick::Executed));
    assert!(lit_pixels(&chip).is_empty());
    assert_eq!(chip.registers()[0xF], 0);
}

#[test]
fn draw_reads_the_sprite_up_to_the_last_byte_of_memory() {
    let mut chip = Chip8::new();
    chip.load(&vec![0x80u8; 4096 - 0x200]).unwrap();
    chip.execute(0xAFF1, 0).unwrap();
    assert_eq!(chip.execute(0xD00F, 0), Ok(Tick::Executed));
    assert_eq!(lit_pixels(&chip).len(), 15);
    chip.execute(0xAFF2, 0).unwrap();
    let before = snapshot(&chip);
    assert_eq!(chip.execute(0xD00F, 0), Err(Fault::MemoryOutOfBounds));
    assert_same(&before, &snapshot(&chip));
}

#[test]
fn clear_screen_switches_every_pixel_off() {
    let mut chip = Chip8::new();
    chip.execute(0xA000, 0).unwrap();
    chip.execute(0xD005, 0).unwrap();
    assert!(!lit_pixels(&chip).is_empty());
    assert_eq!(chip.execute(0x00E0, 0), Ok(Tick::Executed));
    assert!(chip.window().as_slice().iter().all(|on| !on));
}

#[test]
fn faulting_tick_leaves_the_machine_untouched() {
    let mut chip = Chip8::new();
    chip.load(&[0xAF, 0xFF, 0xF2, 0x33]).unwrap();
    set_registers(&mut chip, &[9, 8, 7]);
    assert_eq!(chip.tick_cpu(), Ok(Tick::Executed));
    let before = snapshot(&chip);
    assert_eq!(before.pc, 0x202);
    assert_eq!(chip.tick_cpu(), Err(Fault::MemoryOutOfBounds));
    assert_same(&before, &snapshot(&chip));
    assert_eq!(chip.tick_cpu(), Err(Fault::MemoryOutOfBounds));
    assert_same(&before, &snapshot(&chip));
}
