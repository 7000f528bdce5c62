use chip8::error::Chip8Error;
use chip8::opcode::{decode, Opcode};

#[test]
fn test_decode() {
    let result = decode(0xA21A);
    match result {
        Ok(Opcode::OP_AMMM(mmm)) => {
            assert_eq!(mmm, 0x21A);
        }
        _ => assert!(false, "wrong opcode parsed"),
    }
    let result = decode(0x8F17);
    match result {
        Ok(Opcode::OP_8XY7(x, y)) => {
            assert_eq!(x, 0xF);
            assert_eq!(y, 0x1);
        }
        _ => assert!(false, "wrong opcode parsed"),
    }
}

#[test]
fn test_decode_set_index_family() {
    assert_eq!(decode(0xA000), Ok(Opcode::OP_AMMM(0x000)));
    assert_eq!(decode(0xA123), Ok(Opcode::OP_AMMM(0x123)));
    assert_eq!(decode(0xAFFF), Ok(Opcode::OP_AMMM(0xFFF)));
}

#[test]
fn test_decode_fixed_words() {
    assert_eq!(decode(0x0000), Ok(Opcode::OP_0000));
    assert_eq!(decode(0x00E0), Ok(Opcode::OP_00E0));
    assert_eq!(decode(0x00EE), Ok(Opcode::OP_00EE));
}

#[test]
fn test_decode_unknown_f_suffix() {
    assert_eq!(decode(0xF000), Err(Chip8Error::UnknownOpcode(0xF000)));
    assert_eq!(decode(0xF070), Err(Chip8Error::UnknownOpcode(0xF070)));
    assert_eq!(decode(0xFF99), Err(Chip8Error::UnknownOpcode(0xFF99)));
}

#[test]
fn test_decode_unknown_words() {
    assert_eq!(decode(0x0001), Err(Chip8Error::UnknownOpcode(0x0001)));
    assert_eq!(decode(0x5121), Err(Chip8Error::UnknownOpcode(0x5121)));
    assert_eq!(decode(0x8AB8), Err(Chip8Error::UnknownOpcode(0x8AB8)));
    assert_eq!(decode(0x9075), Err(Chip8Error::UnknownOpcode(0x9075)));
    assert_eq!(decode(0xE1FF), Err(Chip8Error::UnknownOpcode(0xE1FF)));
}

#[test]
fn test_decode_operand_extraction() {
    assert_eq!(decode(0x3A55), Ok(Opcode::OP_3XKK(0xA, 0x55)));
    assert_eq!(decode(0x5AB0), Ok(Opcode::OP_5XY0(0xA, 0xB)));
    assert_eq!(decode(0xD12F), Ok(Opcode::OP_DXYN(0x1, 0x2, 0xF)));
    assert_eq!(decode(0xB321), Ok(Opcode::OP_BMMM(0x321)));
    assert_eq!(decode(0xE39E), Ok(Opcode::OP_EX9E(0x3)));
    assert_eq!(decode(0xE2A1), Ok(Opcode::OP_EXA1(0x2)));
    assert_eq!(decode(0xF129), Ok(Opcode::OP_FX29(0x1)));
    assert_eq!(decode(0xF533), Ok(Opcode::OP_FX33(0x5)));
}
