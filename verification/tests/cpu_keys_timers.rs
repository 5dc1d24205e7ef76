use chip8::emulator::Chip8;
use chip8::machine::{Fault, Tick};

#[test]
fn press_and_release_set_the_key_state() {
    let mut chip = Chip8::new();
    assert!(chip.press_key(0x0));
    assert!(chip.press_key(0xF));
    assert!(chip.keys()[0x0]);
    assert!(chip.keys()[0xF]);
    assert!(!chip.keys()[0x1]);
    assert!(chip.release_key(0xF));
    assert!(chip.keys()[0x0]);
    assert!(!chip.keys()[0xF]);
}

#[test]
fn keys_out_of_range_are_discarded() {
    let mut chip = Chip8::new();
    chip.press_key(3);
    assert!(!chip.press_key(0x10));
    assert!(!chip.press_key(usize::MAX));
    assert!(!chip.release_key(0x10));
    assert!(!chip.release_key(usize::MAX));
    let mut expected = [false; 16];
    expected[3] = true;
    assert_eq!(chip.keys(), &expected);
    assert_eq!(chip.registers(), &[0u8; 16]);
}

#[test]
fn release_out_of_range_does_not_end_the_wait() {
    let mut chip = Chip8::new();
    chip.execute(0xF20A, 0).unwrap();
    assert!(!chip.release_key(16));
    assert_eq!(chip.key_wait_register(), Some(2));
    assert_eq!(chip.tick_cpu(), Ok(Tick::AwaitingKey));
}

#[test]
fn skip_if_key_is_down() {
    let mut chip = Chip8::new();
    chip.execute(0x6105, 0).unwrap();
    assert_eq!(chip.execute(0xE19E, 0), Ok(Tick::Executed));
    assert_eq!(chip.program_counter(), 0x200);
    chip.press_key(5);
    assert_eq!(chip.execute(0xE19E, 0), Ok(Tick::Executed));
    assert_eq!(chip.program_counter(), 0x202);
}

#[test]
fn skip_if_key_is_up() {
    let mut chip = Chip8::new();
    chip.execute(0x6105, 0).unwrap();
    assert_eq!(chip.execute(0xE1A1, 0), Ok(Tick::Executed));
    assert_eq!(chip.program_counter(), 0x202);
    chip.press_key(5);
    assert_eq!(chip.execute(0xE1A1, 0), Ok(Tick::Executed));
    assert_eq!(chip.program_counter(), 0x202);
}

#[test]
fn testing_a_key_that_does_not_exist_is_a_fault() {
    for opcode in [0xE19Eu16, 0xE1A1] {
        let mut chip = Chip8::new();
        chip.execute(0x6110, 0).unwrap();
        assert_eq!(chip.execute(opcode, 0), Err(Fault::KeyOutOfRange));
        assert_eq!(chip.program_counter(), 0x200);
        chip.execute(0x610F, 0).unwrap();
        assert_eq!(chip.execute(opcode, 0), Ok(Tick::Executed));
    }
}

#[test]
fn wait_for_key_halts_until_a_key_is_released() {
    let mut chip = Chip8::new();
    chip.load(&[0xF2, 0x0A, 0x63, 0x33]).unwrap();
    assert_eq!(chip.tick_cpu(), Ok(Tick::Executed));
    assert_eq!(chip.key_wait_register(), Some(2));
    assert_eq!(chip.program_counter(), 0x202);
    for _ in 0..100 {
        assert_eq!(chip.tick_cpu(), Ok(Tick::AwaitingKey));
        assert_eq!(chip.program_counter(), 0x202);
        assert_eq!(chip.registers(), &[0u8; 16]);
        assert_eq!(chip.key_wait_register(), Some(2));
    }
    assert!(chip.press_key(0x7));
    assert_eq!(chip.tick_cpu(), Ok(Tick::AwaitingKey));
    assert_eq!(chip.registers()[2], 0);
    assert!(chip.release_key(0x7));
    assert_eq!(chip.registers()[2], 7);
    assert_eq!(chip.key_wait_register(), None);
    assert!(!chip.keys()[7]);
    assert_eq!(chip.tick_cpu(), Ok(Tick::Executed));
    assert_eq!(chip.registers()[3], 0x33);
    assert_eq!(chip.program_counter(), 0x204);
}

#[test]
fn released_key_need_not_have_been_pressed() {
    let mut chip = Chip8::new();
    chip.execute(0xFF0A, 0).unwrap();
    assert_eq!(chip.key_wait_register(), Some(0xF));
    assert!(chip.release_key(0));
    assert_eq!(chip.registers()[0xF], 0);
    assert_eq!(chip.key_wait_register(), None);
    chip.execute(0xF00A, 0).unwrap();
    assert!(chip.release_key(0xF));
    assert_eq!(chip.registers()[0], 0xF);
}

#[test]
fn release_without_a_wait_changes_no_register() {
    let mut chip = Chip8::new();
    chip.press_key(9);
    assert!(chip.release_key(9));
    assert_eq!(chip.registers(), &[0u8; 16]);
    assert_eq!(chip.key_wait_register(), None);
}

#[test]
fn timers_tick_while_the_processor_waits() {
    let mut chip = Chip8::new();
    chip.execute(0x6105, 0).unwrap();
    chip.execute(0xF115, 0).unwrap();
    chip.execute(0xF00A, 0).unwrap();
    assert_eq!(chip.tick_cpu(), Ok(Tick::AwaitingKey));
    chip.tick_timers();
    assert_eq!(chip.delay_timer(), 4);
    assert_eq!(chip.key_wait_register(), Some(0));
}

#[test]
fn set_and_read_the_delay_timer() {
    let mut chip = Chip8::new();
    chip.execute(0x6142, 0).unwrap();
    assert_eq!(chip.execute(0xF115, 0), Ok(Tick::Executed));
    assert_eq!(chip.delay_timer(), 0x42);
    assert_eq!(chip.sound_timer(), 0);
    assert_eq!(chip.execute(0xF207, 0), Ok(Tick::Executed));
    assert_eq!(chip.registers()[2], 0x42);
}

#[test]
fn set_the_sound_timer() {
    let mut chip = Chip8::new();
    chip.execute(0x6103, 0).unwrap();
    assert_eq!(chip.execute(0xF118, 0), Ok(Tick::Executed));
    assert_eq!(chip.sound_timer(), 3);
    assert_eq!(chip.delay_timer(), 0);
    assert!(chip.is_sound_active());
}

#[test]
fn timers_count_down_by_one_and_stop_at_zero() {
    let mut chip = Chip8::new();
    chip.execute(0x6102, 0).unwrap();
    chip.execute(0x6203, 0).unwrap();
    chip.execute(0xF115, 0).unwrap();
    chip.execute(0xF218, 0).unwrap();
    chip.tick_timers();
    assert_eq!((chip.delay_timer(), chip.sound_timer()), (1, 2));
    chip.tick_timers();
    assert_eq!((chip.delay_timer(), chip.sound_timer()), (0, 1));
    chip.tick_timers();
    assert_eq!((chip.delay_timer(), chip.sound_timer()), (0, 0));
    chip.tick_timers();
    assert_eq!((chip.delay_timer(), chip.sound_timer()), (0, 0));
}

#[test]
fn tone_sounds_while_the_sound_timer_runs() {
    let mut chip = Chip8::new();
    assert!(!chip.tick_timers());
    chip.execute(0x6102, 0).unwrap();
    chip.execute(0xF118, 0).unwrap();
    assert!(chip.is_sound_active());
    assert!(chip.tick_timers());
    assert!(chip.is_sound_active());
    assert!(chip.tick_timers());
    assert!(!chip.is_sound_active());
    assert!(!chip.tick_timers());
    assert_eq!(chip.sound_timer(), 0);
}

#[test]
fn timers_do_not_tick_with_the_processor() {
    let mut chip = Chip8::new();
    chip.load(&[0x61, 0x09, 0xF1, 0x15, 0xF1, 0x18, 0x12, 0x06]).unwrap();
    for _ in 0..50 {
        assert_eq!(chip.tick_cpu(), Ok(Tick::Executed));
    }
    assert_eq!(chip.delay_timer(), 9);
    assert_eq!(chip.sound_timer(), 9);
}

#[test]
fn timer_ticks_change_nothing_but_the_timers() {
    let mut chip = Chip8::new();
    chip.execute(0x6177, 0).unwrap();
    chip.execute(0xF115, 0).unwrap();
    chip.execute(0xA123, 0).unwrap();
    chip.tick_timers();
    assert_eq!(chip.registers()[1], 0x77);
    assert_eq!(chip.index_register(), 0x123);
    assert_eq!(chip.program_counter(), 0x200);
    assert_eq!(chip.delay_timer(), 0x76);
}
