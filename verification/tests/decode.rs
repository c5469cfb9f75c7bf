use chip8::error::Chip8Error;
use chip8::opcode::decode_instruction;
use chip8::opcode::OpCode;

#[test]
fn decode_opcode_table() {
    assert_eq!(decode_instruction(0x00E0).unwrap(), OpCode::CLS);
    assert_eq!(decode_instruction(0x00EE).unwrap(), OpCode::RET);
    assert_eq!(decode_instruction(0x0123).unwrap(), OpCode::SYS { addr: 0x123 });
    assert_eq!(decode_instruction(0x1ABC).unwrap(), OpCode::JP { addr: 0xABC });
    assert_eq!(decode_instruction(0x2F00).unwrap(), OpCode::CALL { addr: 0xF00 });
    assert_eq!(decode_instruction(0x3A42).unwrap(), OpCode::SE { reg: 0xA, value: 0x42 });
    assert_eq!(decode_instruction(0x4B07).unwrap(), OpCode::SNE { reg: 0xB, value: 0x07 });
    assert_eq!(decode_instruction(0x5120).unwrap(), OpCode::SE2 { reg_x: 0x1, reg_y: 0x2 });
    assert_eq!(decode_instruction(0x6C99).unwrap(), OpCode::LD { reg: 0xC, value: 0x99 });
    assert_eq!(decode_instruction(0x7D01).unwrap(), OpCode::ADD { reg: 0xD, value: 0x01 });
    assert_eq!(decode_instruction(0x8120).unwrap(), OpCode::LD2 { reg_x: 0x1, reg_y: 0x2 });
    assert_eq!(decode_instruction(0x8341).unwrap(), OpCode::OR { reg_x: 0x3, reg_y: 0x4 });
    assert_eq!(decode_instruction(0x8562).unwrap(), OpCode::AND { reg_x: 0x5, reg_y: 0x6 });
    assert_eq!(decode_instruction(0x8783).unwrap(), OpCode::XOR { reg_x: 0x7, reg_y: 0x8 });
    assert_eq!(decode_instruction(0x89A4).unwrap(), OpCode::ADD2 { reg_x: 0x9, reg_y: 0xA });
    assert_eq!(decode_instruction(0x8BC5).unwrap(), OpCode::SUB { reg_x: 0xB, reg_y: 0xC });
    assert_eq!(decode_instruction(0x8DE6).unwrap(), OpCode::SHR { reg_x: 0xD, reg_y: 0xE });
    assert_eq!(decode_instruction(0x8F07).unwrap(), OpCode::SUBN { reg_x: 0xF, reg_y: 0x0 });
    assert_eq!(decode_instruction(0x812E).unwrap(), OpCode::SHL { reg_x: 0x1, reg_y: 0x2 });
    assert_eq!(decode_instruction(0x9340).unwrap(), OpCode::SNE2 { reg_x: 0x3, reg_y: 0x4 });
    assert_eq!(decode_instruction(0xA242).unwrap(), OpCode::LDI { addr: 0x242 });
    assert_eq!(decode_instruction(0xB001).unwrap(), OpCode::JP2 { addr: 0x001 });
    assert_eq!(decode_instruction(0xC3F0).unwrap(), OpCode::RND { reg: 0x3, value: 0xF0 });
    assert_eq!(
        decode_instruction(0xD125).unwrap(),
        OpCode::DRW { reg_x: 0x1, reg_y: 0x2, size: 0x5 }
    );
    assert_eq!(decode_instruction(0xEA9E).unwrap(), OpCode::SKP { reg: 0xA });
    assert_eq!(decode_instruction(0xEBA1).unwrap(), OpCode::SKNP { reg: 0xB });
    assert_eq!(decode_instruction(0xF407).unwrap(), OpCode::LDT { reg: 0x4 });
    assert_eq!(decode_instruction(0xF10A).unwrap(), OpCode::LDK { reg: 0x1 });
    assert_eq!(decode_instruction(0xF515).unwrap(), OpCode::LDDT { reg: 0x5 });
    assert_eq!(decode_instruction(0xF618).unwrap(), OpCode::LDST { reg: 0x6 });
    assert_eq!(decode_instruction(0xF91E).unwrap(), OpCode::ADDI { reg: 0x9 });
    assert_eq!(decode_instruction(0xF029).unwrap(), OpCode::LDF { reg: 0x0 });
    assert_eq!(decode_instruction(0xF733).unwrap(), OpCode::LDB { reg: 0x7 });
    assert_eq!(decode_instruction(0xF255).unwrap(), OpCode::LDAI { reg: 0x2 });
    assert_eq!(decode_instruction(0xF365).unwrap(), OpCode::LDM { reg: 0x3 });
}

#[test]
fn decode_rejects_malformed_sub_patterns() {
    // 8xy_ with a low nibble outside {0..7, E}
    assert_eq!(decode_instruction(0x8008), Err(Chip8Error::UnknownOpcode));
    assert_eq!(decode_instruction(0x8129), Err(Chip8Error::UnknownOpcode));
    assert_eq!(decode_instruction(0x834A), Err(Chip8Error::UnknownOpcode));
    assert_eq!(decode_instruction(0x8FFB), Err(Chip8Error::UnknownOpcode));
    assert_eq!(decode_instruction(0x800C), Err(Chip8Error::UnknownOpcode));
    assert_eq!(decode_instruction(0x800D), Err(Chip8Error::UnknownOpcode));
    assert_eq!(decode_instruction(0x800F), Err(Chip8Error::UnknownOpcode));

    // Ex__ with a low byte that is neither 9E nor A1
    assert_eq!(decode_instruction(0xE000), Err(Chip8Error::UnknownOpcode));
    assert_eq!(decode_instruction(0xEA9F), Err(Chip8Error::UnknownOpcode));
    assert_eq!(decode_instruction(0xEBA2), Err(Chip8Error::UnknownOpcode));
    assert_eq!(decode_instruction(0xEFFF), Err(Chip8Error::UnknownOpcode));

    // Fx__ with a low byte outside the defined set
    assert_eq!(decode_instruction(0xF000), Err(Chip8Error::UnknownOpcode));
    assert_eq!(decode_instruction(0xF108), Err(Chip8Error::UnknownOpcode));
    assert_eq!(decode_instruction(0xF230), Err(Chip8Error::UnknownOpcode));
    assert_eq!(decode_instruction(0xF356), Err(Chip8Error::UnknownOpcode));
    assert_eq!(decode_instruction(0xF466), Err(Chip8Error::UnknownOpcode));
    assert_eq!(decode_instruction(0xFFFF), Err(Chip8Error::UnknownOpcode));
}
