use vstd::prelude::*;

use crate::error::Chip8Error;

verus! {

/// A decoded instruction: one variant per opcode family, carrying the
/// operand fields its encoding holds.
#[derive(Clone, Copy, Debug, PartialEq, Eq, Structural)]
pub enum OpCode {
    CLS,  // 00E0 - CLS
    RET,  // 00EE - RET
    SYS { addr: u16 },  // 0nnn - SYS addr
    JP { addr: u16 },  // 1nnn - JP addr
    CALL { addr: u16 },  // 2nnn - CALL addr
    SE { reg: u8, value: u8 },  // 3xkk - SE Vx, byte
    SNE { reg: u8, value: u8 },  // 4xkk - SNE Vx, byte
    SE2 { reg_x: u8, reg_y: u8 },  // 5xy0 - SE Vx, Vy
    LD { reg: u8, value: u8 },  // 6xkk - LD Vx, byte
    ADD { reg: u8, value: u8 },  // 7xkk - ADD Vx, byte
    LD2 { reg_x: u8, reg_y: u8 },  // 8xy0 - LD Vx, Vy
    OR { reg_x: u8, reg_y: u8 },  // 8xy1 - OR Vx, Vy
    AND { reg_x: u8, reg_y: u8 },  // 8xy2 - AND Vx, Vy
    XOR { reg_x: u8, reg_y: u8 },  // 8xy3 - XOR Vx, Vy
    ADD2 { reg_x: u8, reg_y: u8 },  // 8xy4 - ADD Vx, Vy
    SUB { reg_x: u8, reg_y: u8 },  // 8xy5 - SUB Vx, Vy
    SHR { reg_x: u8, reg_y: u8 },  // 8xy6 - SHR Vx {, Vy}
    SUBN { reg_x: u8, reg_y: u8 },  // 8xy7 - SUBN Vx, Vy
    SHL { reg_x: u8, reg_y: u8 },  // 8xyE - SHL Vx {, Vy}
    SNE2 { reg_x: u8, reg_y: u8 },  // 9xy0 - SNE Vx, Vy
    LDI { addr: u16 },  // Annn - LD I, addr
    JP2 { addr: u16 },  // Bnnn - JP V0, addr
    RND { reg: u8, value: u8 },  // Cxkk - RND Vx, byte
    DRW { reg_x: u8, reg_y: u8, size: u8 },  // Dxyn - DRW Vx, Vy, nibble
    SKP { reg: u8 },  // Ex9E - SKP Vx
    SKNP { reg: u8 },  // ExA1 - SKNP Vx
    LDT { reg: u8 },  // Fx07 - LD Vx, DT
    LDK { reg: u8 },  // Fx0A - LD Vx, K
    LDDT { reg: u8 },  // Fx15 - LD DT, Vx
    LDST { reg: u8 },  // Fx18 - LD ST, Vx
    ADDI { reg: u8 },  // Fx1E - ADD I, Vx
    LDF { reg: u8 },  // Fx29 - LD F, Vx
    LDB { reg: u8 },  // Fx33 - LD B, Vx
    LDAI { reg: u8 },  // Fx55 - LD [I], Vx
    LDM { reg: u8 },  // Fx65 - LD Vx, [I]
}

impl OpCode {
    /// Every operand lies within the range its encoding field can carry:
    /// twelve bits for an address, four for a register index or sprite size.
    pub open spec fn wf(self) -> bool {
        match self {
            OpCode::CLS | OpCode::RET => true,
            OpCode::SYS { addr } | OpCode::JP { addr } | OpCode::CALL { addr } | OpCode::LDI {
                addr,
            } | OpCode::JP2 { addr } => addr <= 0xFFF,
            OpCode::SE { reg, value } | OpCode::SNE { reg, value } | OpCode::LD { reg, value }
            | OpCode::ADD { reg, value } | OpCode::RND { reg, value } => reg <= 0xF,
            OpCode::SE2 { reg_x, reg_y } | OpCode::LD2 { reg_x, reg_y } | OpCode::OR {
                reg_x,
                reg_y,
            } | OpCode::AND { reg_x, reg_y } | OpCode::XOR { reg_x, reg_y } | OpCode::ADD2 {
                reg_x,
                reg_y,
            } | OpCode::SUB { reg_x, reg_y } | OpCode::SHR { reg_x, reg_y } | OpCode::SUBN {
                reg_x,
                reg_y,
            } | OpCode::SHL { reg_x, reg_y } | OpCode::SNE2 { reg_x, reg_y } => reg_x <= 0xF
                && reg_y <= 0xF,
            OpCode::DRW { reg_x, reg_y, size } => reg_x <= 0xF && reg_y <= 0xF && size <= 0xF,
            OpCode::SKP { reg } | OpCode::SKNP { reg } | OpCode::LDT { reg } | OpCode::LDK { reg }
            | OpCode::LDDT { reg } | OpCode::LDST { reg } | OpCode::ADDI { reg } | OpCode::LDF {
                reg,
            } | OpCode::LDB { reg } | OpCode::LDAI { reg } | OpCode::LDM { reg } => reg <= 0xF,
        }
    }
}

/// The twelve low bits of an instruction word: an address operand.
pub open spec fn spec_addr(w: u16) -> u16 {
    w & 0x0FFF
}

/// The low byte of an instruction word: an immediate operand.
pub open spec fn spec_byte(w: u16) -> u8 {
    (w & 0x00FF) as u8
}

/// The second nibble of an instruction word: the first register operand.
pub open spec fn spec_nib_x(w: u16) -> u8 {
    ((w & 0x0F00) >> 8) as u8
}

/// The third nibble of an instruction word: the second register operand.
pub open spec fn spec_nib_y(w: u16) -> u8 {
    ((w & 0x00F0) >> 4) as u8
}

/// The low nibble of an instruction word: a size operand or sub-pattern.
pub open spec fn spec_nib_n(w: u16) -> u8 {
    (w & 0x000F) as u8
}

/// The opcode table: the instruction a sixteen-bit word denotes, or nothing
/// for a word outside the recognised encodings. Decoding goes by the top
/// nibble, then by the sub-pattern for the ambiguous families.
pub open spec fn spec_decode(w: u16) -> Option<OpCode> {
    let first_nibble = w & 0xF000;
    if first_nibble == 0x0000 {
        if spec_addr(w) == 0x0E0 {
            Some(OpCode::CLS)
        } else if spec_addr(w) == 0x0EE {
            Some(OpCode::RET)
        } else {
            Some(OpCode::SYS { addr: spec_addr(w) })
        }
    } else if first_nibble == 0x1000 {
        Some(OpCode::JP { addr: spec_addr(w) })
    } else if first_nibble == 0x2000 {
        Some(OpCode::CALL { addr: spec_addr(w) })
    } else if first_nibble == 0x3000 {
        Some(OpCode::SE { reg: spec_nib_x(w), value: spec_byte(w) })
    } else if first_nibble == 0x4000 {
        Some(OpCode::SNE { reg: spec_nib_x(w), value: spec_byte(w) })
    } else if first_nibble == 0x5000 {
        Some(OpCode::SE2 { reg_x: spec_nib_x(w), reg_y: spec_nib_y(w) })
    } else if first_nibble == 0x6000 {
        Some(OpCode::LD { reg: spec_nib_x(w), value: spec_byte(w) })
    } else if first_nibble == 0x7000 {
        Some(OpCode::ADD { reg: spec_nib_x(w), value: spec_byte(w) })
    } else if first_nibble == 0x8000 {
        let reg_x = spec_nib_x(w);
        let reg_y = spec_nib_y(w);
        if spec_nib_n(w) == 0x0 {
            Some(OpCode::LD2 { reg_x, reg_y })
        } else if spec_nib_n(w) == 0x1 {
            Some(OpCode::OR { reg_x, reg_y })
        } else if spec_nib_n(w) == 0x2 {
            Some(OpCode::AND { reg_x, reg_y })
        } else if spec_nib_n(w) == 0x3 {
            Some(OpCode::XOR { reg_x, reg_y })
        } else if spec_nib_n(w) == 0x4 {
            Some(OpCode::ADD2 { reg_x, reg_y })
        } else if spec_nib_n(w) == 0x5 {
            Some(OpCode::SUB { reg_x, reg_y })
        } else if spec_nib_n(w) == 0x6 {
            Some(OpCode::SHR { reg_x, reg_y })
        } else if spec_nib_n(w) == 0x7 {
            Some(OpCode::SUBN { reg_x, reg_y })
        } else if spec_nib_n(w) == 0xE {
            Some(OpCode::SHL { reg_x, reg_y })
        } else {
            None
        }
    } else if first_nibble == 0x9000 {
        Some(OpCode::SNE2 { reg_x: spec_nib_x(w), reg_y: spec_nib_y(w) })
    } else if first_nibble == 0xA000 {
        Some(OpCode::LDI { addr: spec_addr(w) })
    } else if first_nibble == 0xB000 {
        Some(OpCode::JP2 { addr: spec_addr(w) })
    } else if first_nibble == 0xC000 {
        Some(OpCode::RND { reg: spec_nib_x(w), value: spec_byte(w) })
    } else if first_nibble == 0xD000 {
        Some(OpCode::DRW { reg_x: spec_nib_x(w), reg_y: spec_nib_y(w), size: spec_nib_n(w) })
    } else if first_nibble == 0xE000 {
        let reg = spec_nib_x(w);
        if spec_byte(w) == 0x9E {
            Some(OpCode::SKP { reg })
        } else if spec_byte(w) == 0xA1 {
            Some(OpCode::SKNP { reg })
        } else {
            None
        }
    } else if first_nibble == 0xF000 {
        let reg = spec_nib_x(w);
        if spec_byte(w) == 0x07 {
            Some(OpCode::LDT { reg })
        } else if spec_byte(w) == 0x0A {
            Some(OpCode::LDK { reg })
        } else if spec_byte(w) == 0x15 {
            Some(OpCode::LDDT { reg })
        } else if spec_byte(w) == 0x18 {
            Some(OpCode::LDST { reg })
        } else if spec_byte(w) == 0x1E {
            Some(OpCode::ADDI { reg })
        } else if spec_byte(w) == 0x29 {
            Some(OpCode::LDF { reg })
        } else if spec_byte(w) == 0x33 {
            Some(OpCode::LDB { reg })
        } else if spec_byte(w) == 0x55 {
            Some(OpCode::LDAI { reg })
        } else if spec_byte(w) == 0x65 {
            Some(OpCode::LDM { reg })
        } else {
            None
        }
    } else {
        None
    }
}

/// The operand fields extracted by masking lie within their encodings'
/// ranges.
proof fn lemma_field_bounds(w: u16)
    by (bit_vector)
    ensures
        w & 0x0FFF <= 0xFFF,
        (w & 0x0F00) >> 8 <= 0xF,
        (w & 0x00F0) >> 4 <= 0xF,
        w & 0x000F <= 0xF,
        w & 0x00FF <= 0xFF,
{
}

/// Every instruction the table yields has well-formed operand fields.
pub proof fn lemma_decoded_wf(w: u16)
    ensures
        spec_decode(w) matches Some(op) ==> op.wf(),
{
    lemma_field_bounds(w);
}

/// A word of the 8xy_, Ex__ or Fx__ families whose sub-pattern is not in
/// the defined set decodes to nothing.
pub proof fn lemma_decode_rejects_malformed(w: u16)
    ensures
        (w & 0xF000 == 0x8000 && !(spec_nib_n(w) == 0x0 || spec_nib_n(w) == 0x1 || spec_nib_n(w)
            == 0x2 || spec_nib_n(w) == 0x3 || spec_nib_n(w) == 0x4 || spec_nib_n(w) == 0x5
            || spec_nib_n(w) == 0x6 || spec_nib_n(w) == 0x7 || spec_nib_n(w) == 0xE))
            ==> spec_decode(w) is None,
        (w & 0xF000 == 0xE000 && !(spec_byte(w) == 0x9E || spec_byte(w) == 0xA1)) ==> spec_decode(
            w,
        ) is None,
        (w & 0xF000 == 0xF000 && !(spec_byte(w) == 0x07 || spec_byte(w) == 0x0A || spec_byte(w)
            == 0x15 || spec_byte(w) == 0x18 || spec_byte(w) == 0x1E || spec_byte(w) == 0x29
            || spec_byte(w) == 0x33 || spec_byte(w) == 0x55 || spec_byte(w) == 0x65))
            ==> spec_decode(w) is None,
{
}

// Address
fn decode_0xxx(instruction: u16) -> (field: u16)
    ensures
        field == spec_addr(instruction),
{
    instruction & 0x0FFF
}

// Whole byte
fn decode_00xx(instruction: u16) -> (field: u8)
    ensures
        field == spec_byte(instruction),
{
    (instruction & 0x00FF) as u8
}

// One nibble
fn decode_0x00(instruction: u16) -> (field: u8)
    ensures
        field == spec_nib_x(instruction),
{
    ((instruction & 0x0F00) >> 8) as u8
}

fn decode_00x0(instruction: u16) -> (field: u8)
    ensures
        field == spec_nib_y(instruction),
{
    ((instruction & 0x00F0) >> 4) as u8
}

fn decode_000x(instruction: u16) -> (field: u8)
    ensures
        field == spec_nib_n(instruction),
{
    (instruction & 0x000F) as u8
}

/// Decodes a raw instruction word against the opcode table, or reports an
/// unknown opcode for a word the table does not recognise.
pub fn decode_instruction(instruction: u16) -> (decoded: Result<OpCode, Chip8Error>)
    ensures
        match decoded {
            Ok(op) => spec_decode(instruction) == Some(op) && op.wf(),
            Err(e) => spec_decode(instruction) is None && e == Chip8Error::UnknownOpcode,
        },
{
    proof {
        lemma_decoded_wf(instruction);
    }
    let first_nibble = instruction & 0xF000;

    match first_nibble {
        0x0000 => {
            match decode_0xxx(instruction) {
                0x00E0 => Ok(OpCode::CLS),
                0x00EE => Ok(OpCode::RET),
                _ => Ok(OpCode::SYS { addr: decode_0xxx(instruction) }),
            }
        },
        0x1000 => Ok(OpCode::JP { addr: decode_0xxx(instruction) }),
        0x2000 => Ok(OpCode::CALL { addr: decode_0xxx(instruction) }),
        0x3000 => Ok(OpCode::SE { reg: decode_0x00(instruction), value: decode_00xx(instruction) }),
        0x4000 => Ok(
            OpCode::SNE { reg: decode_0x00(instruction), value: decode_00xx(instruction) },
        ),
        0x5000 => Ok(
            OpCode::SE2 { reg_x: decode_0x00(instruction), reg_y: decode_00x0(instruction) },
        ),
        0x6000 => Ok(OpCode::LD { reg: decode_0x00(instruction), value: decode_00xx(instruction) }),
        0x7000 => Ok(
            OpCode::ADD { reg: decode_0x00(instruction), value: decode_00xx(instruction) },
        ),
        0x8000 => {
            let reg_x = decode_0x00(instruction);
            let reg_y = decode_00x0(instruction);
            match decode_000x(instruction) {
                0x0 => Ok(OpCode::LD2 { reg_x, reg_y }),
                0x1 => Ok(OpCode::OR { reg_x, reg_y }),
                0x2 => Ok(OpCode::AND { reg_x, reg_y }),
                0x3 => Ok(OpCode::XOR { reg_x, reg_y }),
                0x4 => Ok(OpCode::ADD2 { reg_x, reg_y }),
                0x5 => Ok(OpCode::SUB { reg_x, reg_y }),
                0x6 => Ok(OpCode::SHR { reg_x, reg_y }),
                0x7 => Ok(OpCode::SUBN { reg_x, reg_y }),
                0xE => Ok(OpCode::SHL { reg_x, reg_y }),
                _ => Err(Chip8Error::UnknownOpcode),
            }
        },
        0x9000 => Ok(
            OpCode::SNE2 { reg_x: decode_0x00(instruction), reg_y: decode_00x0(instruction) },
        ),
        0xA000 => Ok(OpCode::LDI { addr: decode_0xxx(instruction) }),
        0xB000 => Ok(OpCode::JP2 { addr: decode_0xxx(instruction) }),
        0xC000 => Ok(
            OpCode::RND { reg: decode_0x00(instruction), value: decode_00xx(instruction) },
        ),
        0xD000 => Ok(
            OpCode::DRW {
                reg_x: decode_0x00(instruction),
                reg_y: decode_00x0(instruction),
                size: decode_000x(instruction),
            },
        ),
        0xE000 => {
            let reg = decode_0x00(instruction);
            match decode_00xx(instruction) {
                0x9E => Ok(OpCode::SKP { reg }),
                0xA1 => Ok(OpCode::SKNP { reg }),
                _ => Err(Chip8Error::UnknownOpcode),
            }
        },
        0xF000 => {
            let reg = decode_0x00(instruction);
            match decode_00xx(instruction) {
                0x07 => Ok(OpCode::LDT { reg }),
                0x0A => Ok(OpCode::LDK { reg }),
                0x15 => Ok(OpCode::LDDT { reg }),
                0x18 => Ok(OpCode::LDST { reg }),
                0x1E => Ok(OpCode::ADDI { reg }),
                0x29 => Ok(OpCode::LDF { reg }),
                0x33 => Ok(OpCode::LDB { reg }),
                0x55 => Ok(OpCode::LDAI { reg }),
                0x65 => Ok(OpCode::LDM { reg }),
                _ => Err(Chip8Error::UnknownOpcode),
            }
        },
        _ => Err(Chip8Error::UnknownOpcode),
    }
}

} // verus!
