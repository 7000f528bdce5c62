use std::time::Duration;

use chip8::chip8::{create_chip8, DISPLAY_HEIGHT, DISPLAY_WIDTH};
use chip8::error::Chip8Error;
use chip8::timing::freq_to_period_duration;

#[test]
fn test_freq_to_period_duration() {
    let freq = 1;
    // 1 Hz
    assert_eq!(freq_to_period_duration(freq), Duration::from_secs(1));
    // 1 MHz
    assert_eq!(freq_to_period_duration(1_000_000), Duration::from_micros(1));
}

#[test]
fn test_fresh_machine_state() {
    let emulator = create_chip8();
    assert_eq!(emulator.pc, 0x200);
    assert_eq!(emulator.memory.len(), 4096);
    assert_eq!(emulator.gfx.len(), DISPLAY_WIDTH * DISPLAY_HEIGHT);
    assert_eq!(emulator.sp, 0);
    assert!(!emulator.draw);
    // the font's first and last bytes
    assert_eq!(emulator.memory[0], 0xF0);
    assert_eq!(emulator.memory[79], 0x80);
    // program space is zeroed
    assert_eq!(emulator.memory[0x200], 0);
}

#[test]
fn test_load_rom_places_bytes() {
    let mut emulator = create_chip8();
    let rom: Vec<u8> = vec![1, 2, 3];
    emulator.load_rom(&rom).unwrap();
    assert_eq!(emulator.memory[0x1FF], 0);
    assert_eq!(emulator.memory[0x200], 1);
    assert_eq!(emulator.memory[0x201], 2);
    assert_eq!(emulator.memory[0x202], 3);
    assert_eq!(emulator.memory[0x203], 0);
}

#[test]
fn test_load_rom_too_large() {
    let mut emulator = create_chip8();
    let big: Vec<u8> = vec![7; 3585];
    assert_eq!(emulator.load_rom(&big), Err(Chip8Error::RomTooLarge));
    // nothing was partially loaded
    assert_eq!(emulator.memory[0x200], 0);
    let exact: Vec<u8> = vec![7; 3584];
    assert_eq!(emulator.load_rom(&exact), Ok(()));
    assert_eq!(emulator.memory[4095], 7);
}

#[test]
fn test_key_state() {
    let mut emulator = create_chip8();
    emulator.key_down(4);
    assert!(emulator.keys[4]);
    emulator.key_up(4);
    assert!(!emulator.keys[4]);
}

#[test]
fn test_tick_timers() {
    let mut emulator = create_chip8();
    emulator.delay_timer = 2;
    emulator.sound_timer = 0;
    emulator.tick_timers();
    assert_eq!(emulator.delay_timer, 1);
    assert_eq!(emulator.sound_timer, 0);
    emulator.tick_timers();
    assert_eq!(emulator.delay_timer, 0);
    assert_eq!(emulator.sound_timer, 0);
    emulator.tick_timers();
    assert_eq!(emulator.delay_timer, 0);
    assert_eq!(emulator.sound_timer, 0);
}

#[test]
fn test_timer_instructions() {
    let mut emulator = create_chip8();
    emulator.v[3] = 42;
    // set delay timer from V3, read it back into V4, set sound timer
    let rom: Vec<u8> = vec![0xF3, 0x15, 0xF4, 0x07, 0xF3, 0x18];
    emulator.load_rom(&rom).unwrap();
    emulator.emulate_cycle().unwrap();
    assert_eq!(emulator.delay_timer, 42);
    emulator.emulate_cycle().unwrap();
    assert_eq!(emulator.v[4], 42);
    emulator.emulate_cycle().unwrap();
    assert_eq!(emulator.sound_timer, 42);
}

#[test]
fn test_cycle_jump() {
    let mut emulator = create_chip8();
    let rom: Vec<u8> = vec![0x12, 0x34];
    emulator.load_rom(&rom).unwrap();
    emulator.emulate_cycle().unwrap();
    assert_eq!(emulator.pc, 0x234);
}

#[test]
fn test_cycle_skip_if_equal() {
    let mut emulator = create_chip8();
    emulator.v[1] = 0xAB;
    let rom: Vec<u8> = vec![0x31, 0xAB];
    emulator.load_rom(&rom).unwrap();
    emulator.emulate_cycle().unwrap();
    assert_eq!(emulator.pc, 0x204);
}

#[test]
fn test_cycle_unknown_opcode_reported() {
    let mut emulator = create_chip8();
    let rom: Vec<u8> = vec![0xFF, 0x99];
    emulator.load_rom(&rom).unwrap();
    assert_eq!(
        emulator.emulate_cycle(),
        Err(Chip8Error::UnknownOpcode(0xFF99))
    );
    assert_eq!(emulator.pc, 0x200);
}

#[test]
fn test_cycle_fetch_out_of_range_reported() {
    let mut emulator = create_chip8();
    emulator.pc = 4095;
    assert_eq!(
        emulator.emulate_cycle(),
        Err(Chip8Error::AddressOutOfRange)
    );
}

#[test]
fn test_key_wait_blocks_until_key() {
    let mut emulator = create_chip8();
    // block on keypress into V3, then set V0 to 5
    let rom: Vec<u8> = vec![0xF3, 0x0A, 0x60, 0x05];
    emulator.load_rom(&rom).unwrap();
    emulator.emulate_cycle().unwrap();
    assert_eq!(emulator.wait_for_input, Some(3));
    assert_eq!(emulator.pc, 0x202);
    // further cycles are no-ops while the wait is pending
    emulator.emulate_cycle().unwrap();
    emulator.emulate_cycle().unwrap();
    assert_eq!(emulator.pc, 0x202);
    assert_eq!(emulator.v[0], 0);
    // a key press resolves the wait without marking the key held
    emulator.key_down(7);
    assert_eq!(emulator.v[3], 7);
    assert_eq!(emulator.wait_for_input, None);
    assert!(!emulator.keys[7]);
    // execution resumes
    emulator.emulate_cycle().unwrap();
    assert_eq!(emulator.v[0], 5);
    assert_eq!(emulator.pc, 0x204);
}

#[test]
fn test_key_skip_instructions() {
    let mut emulator = create_chip8();
    emulator.v[2] = 0xC;
    emulator.key_down(0xC);
    let rom: Vec<u8> = vec![0xE2, 0x9E, 0x00, 0x00, 0xE2, 0xA1];
    emulator.load_rom(&rom).unwrap();
    emulator.emulate_cycle().unwrap();
    // key C is down, so the skip was taken
    assert_eq!(emulator.pc, 0x204);
    emulator.emulate_cycle().unwrap();
    // skip-if-up not taken: advance by 2
    assert_eq!(emulator.pc, 0x206);
}
