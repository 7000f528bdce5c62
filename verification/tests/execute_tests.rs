use chip8::chip8::create_chip8;
use chip8::error::Chip8Error;
use chip8::opcode::Opcode;

#[test]
fn test_arithmetic() {
    let mut emulator = create_chip8();
    let x = 0;
    emulator.v[x] = 0x81;
    emulator.opcode = Opcode::OP_8X16(x);
    emulator.execute().unwrap();
    assert_eq!(emulator.v[x], 0x40);
    assert_eq!(emulator.v[0xF], 1);

    emulator.v[x] = 0xF0;
    emulator.execute().unwrap();
    assert_eq!(emulator.v[x], 0x78);
    assert_eq!(emulator.v[0xF], 0);

    let y = 1;
    emulator.opcode = Opcode::OP_8XY4(x, y);
    emulator.v[x] = 200;
    emulator.v[y] = 60;
    emulator.execute().unwrap();
    assert_eq!(emulator.v[x], 4);
    assert_eq!(emulator.v[0xF], 1);
}

#[test]
fn test_draw() {
    let mut emulator = create_chip8();
    let x = 0;
    let y = 0;
    emulator.i = 0;
    emulator.memory[0] = 0x81;
    emulator.memory[1] = 0xF1;
    emulator.v[x] = 0;
    emulator.v[y] = 0;

    emulator.opcode = Opcode::OP_DXYN(x, y, 2);
    emulator.execute().unwrap();
    assert_eq!(emulator.gfx[0], true);
    assert_eq!(emulator.gfx[7], true);
    assert_eq!(emulator.gfx[64], true);
    assert_eq!(emulator.gfx[71], true);
    assert_eq!(emulator.v[0xF], 0);
    emulator.execute().unwrap();
    assert_eq!(emulator.gfx[0], false);
    assert_eq!(emulator.gfx[7], false);

    assert_eq!(emulator.gfx[71], false);
    assert_eq!(emulator.v[0xF], 1);
}

#[test]
fn test_add_without_carry() {
    let mut emulator = create_chip8();
    emulator.v[0] = 10;
    emulator.v[1] = 20;
    emulator.opcode = Opcode::OP_8XY4(0, 1);
    emulator.execute().unwrap();
    assert_eq!(emulator.v[0], 30);
    assert_eq!(emulator.v[0xF], 0);
}

#[test]
fn test_sub_with_borrow() {
    let mut emulator = create_chip8();
    emulator.v[2] = 5;
    emulator.v[3] = 10;
    emulator.opcode = Opcode::OP_8XY5(2, 3);
    emulator.execute().unwrap();
    assert_eq!(emulator.v[2], 251);
    assert_eq!(emulator.v[0xF], 0);

    emulator.v[2] = 10;
    emulator.v[3] = 5;
    emulator.execute().unwrap();
    assert_eq!(emulator.v[2], 5);
    assert_eq!(emulator.v[0xF], 1);
}

#[test]
fn test_shift_left() {
    let mut emulator = create_chip8();
    emulator.v[4] = 0x81;
    emulator.opcode = Opcode::OP_8X1E(4);
    emulator.execute().unwrap();
    assert_eq!(emulator.v[4], 0x02);
    assert_eq!(emulator.v[0xF], 1);
}

#[test]
fn test_immediate_add_wraps_without_flag() {
    let mut emulator = create_chip8();
    emulator.v[0xF] = 9;
    emulator.v[5] = 250;
    emulator.opcode = Opcode::OP_7XKK(5, 10);
    emulator.execute().unwrap();
    assert_eq!(emulator.v[5], 4);
    assert_eq!(emulator.v[0xF], 9);
}

#[test]
fn test_draw_twice_restores_framebuffer() {
    let mut emulator = create_chip8();
    emulator.gfx[3] = true;
    emulator.gfx[100] = true;
    let before: Vec<bool> = emulator.gfx.clone();
    emulator.i = 0x300;
    emulator.memory[0x300] = 0x3C;
    emulator.memory[0x301] = 0xC3;
    emulator.v[0] = 10;
    emulator.v[1] = 5;
    emulator.opcode = Opcode::OP_DXYN(0, 1, 2);
    emulator.execute().unwrap();
    assert!(emulator.draw);
    emulator.draw = false;
    emulator.execute().unwrap();
    assert!(emulator.draw);
    assert_eq!(emulator.gfx, before);
}

#[test]
fn test_draw_collision_flag() {
    let mut emulator = create_chip8();
    emulator.i = 0x300;
    emulator.memory[0x300] = 0xFF;
    emulator.v[0] = 0;
    emulator.v[1] = 0;
    emulator.opcode = Opcode::OP_DXYN(0, 1, 1);
    emulator.execute().unwrap();
    assert_eq!(emulator.v[0xF], 0);
    emulator.execute().unwrap();
    assert_eq!(emulator.v[0xF], 1);
}

#[test]
fn test_draw_clips_at_screen_edge() {
    let mut emulator = create_chip8();
    emulator.i = 0x300;
    emulator.memory[0x300] = 0xFF;
    emulator.v[0] = 60;
    emulator.v[1] = 0;
    emulator.opcode = Opcode::OP_DXYN(0, 1, 1);
    emulator.execute().unwrap();
    assert_eq!(emulator.gfx[60], true);
    assert_eq!(emulator.gfx[63], true);
    // nothing wraps to the next row
    assert_eq!(emulator.gfx[64], false);
    assert_eq!(emulator.gfx[65], false);
}

#[test]
fn test_register_dump_load_round_trip() {
    let mut emulator = create_chip8();
    for k in 0..6u8 {
        emulator.v[k as usize] = 40 + k;
    }
    emulator.i = 0x300;
    emulator.opcode = Opcode::OP_FX55(5);
    emulator.execute().unwrap();
    for k in 0..6u8 {
        assert_eq!(emulator.memory[0x300 + k as usize], 40 + k);
        emulator.v[k as usize] = 0;
    }
    emulator.opcode = Opcode::OP_FX65(5);
    emulator.execute().unwrap();
    for k in 0..6u8 {
        assert_eq!(emulator.v[k as usize], 40 + k);
    }
    assert_eq!(emulator.i, 0x300);
}

#[test]
fn test_bcd_store() {
    let mut emulator = create_chip8();
    emulator.v[2] = 234;
    emulator.i = 0x300;
    emulator.opcode = Opcode::OP_FX33(2);
    emulator.execute().unwrap();
    assert_eq!(emulator.memory[0x300], 2);
    assert_eq!(emulator.memory[0x301], 3);
    assert_eq!(emulator.memory[0x302], 4);
}

#[test]
fn test_font_glyph_lookup() {
    let mut emulator = create_chip8();
    emulator.v[0] = 0xAB;
    emulator.opcode = Opcode::OP_FX29(0);
    emulator.execute().unwrap();
    assert_eq!(emulator.i, 55);
    // glyph 0 sits at the bottom of memory
    assert_eq!(emulator.memory[0], 0xF0);
    assert_eq!(emulator.memory[4], 0xF0);
}

#[test]
fn test_random_masked() {
    let mut emulator = create_chip8();
    emulator.v[1] = 77;
    emulator.opcode = Opcode::OP_CXKK(1, 0x00);
    emulator.execute().unwrap();
    assert_eq!(emulator.v[1], 0);
    emulator.opcode = Opcode::OP_CXKK(1, 0x0F);
    emulator.execute().unwrap();
    assert!(emulator.v[1] <= 0x0F);
}

#[test]
fn test_stack_underflow() {
    let mut emulator = create_chip8();
    emulator.opcode = Opcode::OP_00EE;
    assert_eq!(emulator.execute(), Err(Chip8Error::StackUnderflow));
}

#[test]
fn test_stack_overflow() {
    let mut emulator = create_chip8();
    emulator.opcode = Opcode::OP_2MMM(0x400);
    for _ in 0..16 {
        emulator.execute().unwrap();
    }
    assert_eq!(emulator.execute(), Err(Chip8Error::StackOverflow));
}

#[test]
fn test_call_and_return() {
    let mut emulator = create_chip8();
    emulator.opcode = Opcode::OP_2MMM(0x400);
    emulator.execute().unwrap();
    assert_eq!(emulator.pc, 0x400);
    emulator.opcode = Opcode::OP_00EE;
    emulator.execute().unwrap();
    assert_eq!(emulator.pc, 0x202);
}

#[test]
fn test_index_add_overflow_reported() {
    let mut emulator = create_chip8();
    emulator.i = 0xFFFF;
    emulator.v[0] = 1;
    emulator.opcode = Opcode::OP_FX1E(0);
    assert_eq!(emulator.execute(), Err(Chip8Error::AddressOutOfRange));
}

#[test]
fn test_draw_outside_memory_reported() {
    let mut emulator = create_chip8();
    emulator.i = 0xFFE;
    emulator.opcode = Opcode::OP_DXYN(0, 1, 3);
    assert_eq!(emulator.execute(), Err(Chip8Error::AddressOutOfRange));
}
