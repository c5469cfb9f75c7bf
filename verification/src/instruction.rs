use vstd::prelude::*;

use rand::Rng;

use crate::cpu::CPUState;
use crate::cpu::MachineView;
use crate::cpu::SCREEN_HEIGHT;
use crate::cpu::SCREEN_LINE_SIZE_IN_BYTES;
use crate::cpu::SCREEN_WIDTH;
use crate::cpu::STACK_SIZE;
use crate::display::byte_bit;
use crate::display::read_screen_pixel;
use crate::display::spec_pixel;
use crate::display::write_screen_pixel;
use crate::error::Chip8Error;
use crate::keyboard::get_key_pressed;
use crate::keyboard::is_key_pressed;
use crate::keyboard::KEY_ID_COUNT;
use crate::memory::is_valid_memory_range;
use crate::memory::MemoryUsage;
use crate::opcode::OpCode;
use crate::semantics::blank_screen;
use crate::semantics::op_core;
use crate::semantics::op_effect;
use crate::semantics::op_fault;
use crate::semantics::drw_collision;
use crate::semantics::sprite_bit;

verus! {

/// The low bit of a word decides its parity.
proof fn lemma_even_mask(w: u16)
    by (bit_vector)
    ensures
        (w & 0x0001) == w % 2,
{
}

// Clear the display.
pub fn execute_cls(state: &mut CPUState)
    requires
        old(state)@.wf(),
    ensures
        final(state)@.wf(),
        final(state)@ == op_core(old(state)@, OpCode::CLS),
{
    let mut screen: Vec<Vec<u8>> = Vec::new();
    while screen.len() < SCREEN_HEIGHT
        invariant
            screen@.len() <= SCREEN_HEIGHT,
            forall|y: int| 0 <= y < screen@.len() ==> (#[trigger] screen@[y])@ =~= Seq::new(
                SCREEN_LINE_SIZE_IN_BYTES as nat,
                |b: int| 0u8,
            ),
        decreases SCREEN_HEIGHT - screen@.len(),
    {
        let mut line: Vec<u8> = Vec::new();
        while line.len() < SCREEN_LINE_SIZE_IN_BYTES
            invariant
                line@.len() <= SCREEN_LINE_SIZE_IN_BYTES,
                forall|b: int| 0 <= b < line@.len() ==> line@[b] == 0u8,
            decreases SCREEN_LINE_SIZE_IN_BYTES - line@.len(),
        {
            line.push(0);
        }
        proof {
            assert(line@ =~= Seq::new(SCREEN_LINE_SIZE_IN_BYTES as nat, |b: int| 0u8));
        }
        screen.push(line);
    }
    state.screen = screen;

    proof {
        assert(state@.screen =~~= blank_screen());
        assert(state@ =~= op_core(old(state)@, OpCode::CLS));
    }
}

// Return from a subroutine.
// The interpreter sets the program counter to the address at the top of the
// stack, then subtracts 1 from the stack pointer.
pub fn execute_ret(state: &mut CPUState) -> (result: Result<(), Chip8Error>)
    requires
        old(state)@.wf(),
    ensures
        final(state)@.wf(),
        match result {
            Ok(()) => op_fault(old(state)@, OpCode::RET) is None && final(state)@ == op_core(
                old(state)@,
                OpCode::RET,
            ),
            Err(e) => op_fault(old(state)@, OpCode::RET) == Some(e) && final(state)@ == old(state)@,
        },
{
    if state.sp == 0 {
        return Err(Chip8Error::StackUnderflow);  // Stack underflow
    }
    let return_target = state.stack[state.sp as usize];
    if return_target > 0xFFD {
        // The incremented return address would leave the address space.
        return Err(Chip8Error::InvalidMemoryRange);
    }
    let next_pc_value: u16 = return_target + 2;
    if !is_valid_memory_range(next_pc_value, 2, MemoryUsage::Execute) {
        return Err(Chip8Error::InvalidMemoryRange);
    }

    state.pc = next_pc_value;
    state.sp = state.sp - 1;

    proof {
        assert(state@ =~= op_core(old(state)@, OpCode::RET));
    }
    Ok(())
}

// Jump to a machine code routine at nnn.
// This instruction is only used on the old computers on which Chip-8 was
// originally implemented.
// NOTE: We choose to ignore it since we don't load any code into system memory.
pub fn execute_sys(state: &mut CPUState, address: u16)
    requires
        old(state)@.wf(),
    ensures
        final(state)@.wf(),
        final(state)@ == op_core(old(state)@, OpCode::SYS { addr: address }),
{
    // noop
}

// Jump to location nnn.
// The interpreter sets the program counter to nnn.
pub fn execute_jp(state: &mut CPUState, address: u16) -> (result: Result<(), Chip8Error>)
    requires
        old(state)@.wf(),
    ensures
        final(state)@.wf(),
        match result {
            Ok(()) => op_fault(old(state)@, OpCode::JP { addr: address }) is None && final(state)@
                == op_core(old(state)@, OpCode::JP { addr: address }),
            Err(e) => op_fault(old(state)@, OpCode::JP { addr: address }) == Some(e) && final(state)@ == old(state)@,
        },
{
    proof {
        lemma_even_mask(address);
    }
    if (address & 0x0001) != 0 {
        return Err(Chip8Error::MisalignedAddress);  // Unaligned address
    }
    if !is_valid_memory_range(address, 2, MemoryUsage::Execute) {
        return Err(Chip8Error::InvalidMemoryRange);
    }

    state.pc = address;

    proof {
        assert(state@ =~= op_core(old(state)@, OpCode::JP { addr: address }));
    }
    Ok(())
}

// Call subroutine at nnn.
// The interpreter increments the stack pointer, then puts the current PC on
// the top of the stack. The PC is then set to nnn.
pub fn execute_call(state: &mut CPUState, address: u16) -> (result: Result<(), Chip8Error>)
    requires
        old(state)@.wf(),
    ensures
        final(state)@.wf(),
        match result {
            Ok(()) => op_fault(old(state)@, OpCode::CALL { addr: address }) is None && final(state)@ == op_core(old(state)@, OpCode::CALL { addr: address }),
            Err(e) => op_fault(old(state)@, OpCode::CALL { addr: address }) == Some(e) && final(state)@ == old(state)@,
        },
{
    proof {
        lemma_even_mask(address);
    }
    if (address & 0x0001) != 0 {
        return Err(Chip8Error::MisalignedAddress);  // Unaligned address
    }
    if !is_valid_memory_range(address, 2, MemoryUsage::Execute) {
        return Err(Chip8Error::InvalidMemoryRange);
    }
    if state.sp as usize >= STACK_SIZE - 1 {
        return Err(Chip8Error::StackOverflow);  // Stack overflow
    }

    state.sp = state.sp + 1;  // Increment sp
    state.stack[state.sp as usize] = state.pc;  // Put PC on top of the stack
    state.pc = address;  // Set PC to new address

    proof {
        assert(state@ =~= op_core(old(state)@, OpCode::CALL { addr: address }));
    }
    Ok(())
}

// Skip next instruction if Vx = kk.
// The interpreter compares register Vx to kk, and if they are equal,
// increments the program counter by 2.
pub fn execute_se(state: &mut CPUState, register_name: u8, value: u8) -> (result: Result<
    (),
    Chip8Error,
>)
    requires
        old(state)@.wf(),
        register_name < 16,
    ensures
        final(state)@.wf(),
        match result {
            Ok(()) => op_fault(old(state)@, OpCode::SE { reg: register_name, value }) is None
                && final(state)@ == op_core(
                old(state)@,
                OpCode::SE { reg: register_name, value },
            ),
            Err(e) => op_fault(old(state)@, OpCode::SE { reg: register_name, value }) == Some(e)
                && final(state)@ == old(state)@,
        },
{
    if !is_valid_memory_range(state.pc, 6, MemoryUsage::Execute) {
        return Err(Chip8Error::InvalidMemoryRange);
    }

    let register_value: u8 = state.v_registers[register_name as usize];

    if register_value == value {
        state.pc = state.pc + 4;
    }
    proof {
        assert(state@ =~= op_core(old(state)@, OpCode::SE { reg: register_name, value }));
    }
    Ok(())
}

// Skip next instruction if Vx != kk.
// The interpreter compares register Vx to kk, and if they are not equal,
// increments the program counter by 2.
pub fn execute_sne(state: &mut CPUState, register_name: u8, value: u8) -> (result: Result<
    (),
    Chip8Error,
>)
    requires
        old(state)@.wf(),
        register_name < 16,
    ensures
        final(state)@.wf(),
        match result {
            Ok(()) => op_fault(old(state)@, OpCode::SNE { reg: register_name, value }) is None
                && final(state)@ == op_core(
                old(state)@,
                OpCode::SNE { reg: register_name, value },
            ),
            Err(e) => op_fault(old(state)@, OpCode::SNE { reg: register_name, value }) == Some(e)
                && final(state)@ == old(state)@,
        },
{
    if !is_valid_memory_range(state.pc, 6, MemoryUsage::Execute) {
        return Err(Chip8Error::InvalidMemoryRange);
    }

    let register_value: u8 = state.v_registers[register_name as usize];

    if register_value != value {
        state.pc = state.pc + 4;
    }
    proof {
        assert(state@ =~= op_core(old(state)@, OpCode::SNE { reg: register_name, value }));
    }
    Ok(())
}

// Skip next instruction if Vx = Vy.
// The interpreter compares register Vx to register Vy, and if they are equal,
// increments the program counter by 2.
pub fn execute_se2(state: &mut CPUState, register_lhs: u8, register_rhs: u8) -> (result: Result<
    (),
    Chip8Error,
>)
    requires
        old(state)@.wf(),
        register_lhs < 16,
        register_rhs < 16,
    ensures
        final(state)@.wf(),
        match result {
            Ok(()) => op_fault(
                old(state)@,
                OpCode::SE2 { reg_x: register_lhs, reg_y: register_rhs },
            ) is None && final(state)@ == op_core(
                old(state)@,
                OpCode::SE2 { reg_x: register_lhs, reg_y: register_rhs },
            ),
            Err(e) => op_fault(old(state)@, OpCode::SE2 { reg_x: register_lhs, reg_y: register_rhs })
                == Some(e) && final(state)@ == old(state)@,
        },
{
    if !is_valid_memory_range(state.pc, 6, MemoryUsage::Execute) {
        return Err(Chip8Error::InvalidMemoryRange);
    }

    let register_value_lhs: u8 = state.v_registers[register_lhs as usize];
    let register_value_rhs: u8 = state.v_registers[register_rhs as usize];

    if register_value_lhs == register_value_rhs {
        state.pc = state.pc + 4;
    }
    proof {
        assert(state@ =~= op_core(
            old(state)@,
            OpCode::SE2 { reg_x: register_lhs, reg_y: register_rhs },
        ));
    }
    Ok(())
}

// Skip next instruction if Vx != Vy.
// The values of Vx and Vy are compared, and if they are not equal, the
// program counter is increased by 2.
pub fn execute_sne2(state: &mut CPUState, register_lhs: u8, register_rhs: u8) -> (result: Result<
    (),
    Chip8Error,
>)
    requires
        old(state)@.wf(),
        register_lhs < 16,
        register_rhs < 16,
    ensures
        final(state)@.wf(),
        match result {
            Ok(()) => op_fault(
                old(state)@,
                OpCode::SNE2 { reg_x: register_lhs, reg_y: register_rhs },
            ) is None && final(state)@ == op_core(
                old(state)@,
                OpCode::SNE2 { reg_x: register_lhs, reg_y: register_rhs },
            ),
            Err(e) => op_fault(
                old(state)@,
                OpCode::SNE2 { reg_x: register_lhs, reg_y: register_rhs },
            ) == Some(e) && final(state)@ == old(state)@,
        },
{
    if !is_valid_memory_range(state.pc, 6, MemoryUsage::Execute) {
        return Err(Chip8Error::InvalidMemoryRange);
    }

    let value_lhs: u8 = state.v_registers[register_lhs as usize];
    let value_rhs: u8 = state.v_registers[register_rhs as usize];

    if value_lhs != value_rhs {
        state.pc = state.pc + 4;
    }
    proof {
        assert(state@ =~= op_core(
            old(state)@,
            OpCode::SNE2 { reg_x: register_lhs, reg_y: register_rhs },
        ));
    }
    Ok(())
}

// Set Vx = kk.
// The interpreter puts the value kk into register Vx.
pub fn execute_ld(state: &mut CPUState, register_name: u8, value: u8)
    requires
        old(state)@.wf(),
        register_name < 16,
    ensures
        final(state)@.wf(),
        final(state)@ == op_core(old(state)@, OpCode::LD { reg: register_name, value }),
{
    state.v_registers[register_name as usize] = value;
    proof {
        assert(state@ =~= op_core(old(state)@, OpCode::LD { reg: register_name, value }));
    }
}

// Set Vx = Vx + kk.
// Adds the value kk to the value of register Vx, then stores the result in Vx.
// NOTE: Carry is NOT set.
// NOTE: Overflows will just wrap the value around.
pub fn execute_add(state: &mut CPUState, register_name: u8, value: u8)
    requires
        old(state)@.wf(),
        register_name < 16,
    ensures
        final(state)@.wf(),
        final(state)@ == op_core(old(state)@, OpCode::ADD { reg: register_name, value }),
{
    let register_value: u8 = state.v_registers[register_name as usize];
    let sum: u8 = register_value.wrapping_add(value);

    state.v_registers[register_name as usize] = sum;
    proof {
        assert(state@ =~= op_core(old(state)@, OpCode::ADD { reg: register_name, value }));
    }
}

// Set Vx = Vy.
// Stores the value of register Vy in register Vx.
pub fn execute_ld2(state: &mut CPUState, register_lhs: u8, register_rhs: u8)
    requires
        old(state)@.wf(),
        register_lhs < 16,
        register_rhs < 16,
    ensures
        final(state)@.wf(),
        final(state)@ == op_core(
            old(state)@,
            OpCode::LD2 { reg_x: register_lhs, reg_y: register_rhs },
        ),
{
    state.v_registers[register_lhs as usize] = state.v_registers[register_rhs as usize];
    proof {
        assert(state@ =~= op_core(
            old(state)@,
            OpCode::LD2 { reg_x: register_lhs, reg_y: register_rhs },
        ));
    }
}

// Set Vx = Vx OR Vy.
// Performs a bitwise OR on the values of Vx and Vy, then stores the result
// in Vx.
pub fn execute_or(state: &mut CPUState, register_lhs: u8, register_rhs: u8)
    requires
        old(state)@.wf(),
        register_lhs < 16,
        register_rhs < 16,
    ensures
        final(state)@.wf(),
        final(state)@ == op_core(
            old(state)@,
            OpCode::OR { reg_x: register_lhs, reg_y: register_rhs },
        ),
{
    let combined = state.v_registers[register_lhs as usize] | state.v_registers[register_rhs
        as usize];
    state.v_registers[register_lhs as usize] = combined;
    proof {
        assert(state@ =~= op_core(
            old(state)@,
            OpCode::OR { reg_x: register_lhs, reg_y: register_rhs },
        ));
    }
}

// Set Vx = Vx AND Vy.
// Performs a bitwise AND on the values of Vx and Vy, then stores the result
// in Vx.
pub fn execute_and(state: &mut CPUState, register_lhs: u8, register_rhs: u8)
    requires
        old(state)@.wf(),
        register_lhs < 16,
        register_rhs < 16,
    ensures
        final(state)@.wf(),
        final(state)@ == op_core(
            old(state)@,
            OpCode::AND { reg_x: register_lhs, reg_y: register_rhs },
        ),
{
    let combined = state.v_registers[register_lhs as usize] & state.v_registers[register_rhs
        as usize];
    state.v_registers[register_lhs as usize] = combined;
    proof {
        assert(state@ =~= op_core(
            old(state)@,
            OpCode::AND { reg_x: register_lhs, reg_y: register_rhs },
        ));
    }
}

// Set Vx = Vx XOR Vy.
// Performs a bitwise exclusive OR on the values of Vx and Vy, then stores
// the result in Vx.
pub fn execute_xor(state: &mut CPUState, register_lhs: u8, register_rhs: u8)
    requires
        old(state)@.wf(),
        register_lhs < 16,
        register_rhs < 16,
    ensures
        final(state)@.wf(),
        final(state)@ == op_core(
            old(state)@,
            OpCode::XOR { reg_x: register_lhs, reg_y: register_rhs },
        ),
{
    let combined = state.v_registers[register_lhs as usize] ^ state.v_registers[register_rhs
        as usize];
    state.v_registers[register_lhs as usize] = combined;
    proof {
        assert(state@ =~= op_core(
            old(state)@,
            OpCode::XOR { reg_x: register_lhs, reg_y: register_rhs },
        ));
    }
}

// Set Vx = Vx + Vy, set VF = carry.
// The values of Vx and Vy are added together; only the lowest 8 bits of the
// result are kept and stored in Vx. VF is derived from comparing the wrapped
// sum against the first addend, exactly as the interpreter computes it.
pub fn execute_add2(state: &mut CPUState, register_lhs: u8, register_rhs: u8)
    requires
        old(state)@.wf(),
        register_lhs < 16,
        register_rhs < 16,
    ensures
        final(state)@.wf(),
        final(state)@ == op_core(
            old(state)@,
            OpCode::ADD2 { reg_x: register_lhs, reg_y: register_rhs },
        ),
{
    let value_lhs: u8 = state.v_registers[register_lhs as usize];
    let value_rhs: u8 = state.v_registers[register_rhs as usize];
    let sum: u8 = value_lhs.wrapping_add(value_rhs);

    state.v_registers[register_lhs as usize] = sum;
    state.v_registers[15] = if sum > value_lhs {
        0
    } else {
        1
    };  // Set carry
    proof {
        assert(state@ =~= op_core(
            old(state)@,
            OpCode::ADD2 { reg_x: register_lhs, reg_y: register_rhs },
        ));
    }
}

// Set Vx = Vx - Vy, set VF = NOT borrow.
// If Vx > Vy, then VF is set to 1, otherwise 0.
// Then Vy is subtracted from Vx, and the results stored in Vx.
pub fn execute_sub(state: &mut CPUState, register_lhs: u8, register_rhs: u8)
    requires
        old(state)@.wf(),
        register_lhs < 16,
        register_rhs < 16,
    ensures
        final(state)@.wf(),
        final(state)@ == op_core(
            old(state)@,
            OpCode::SUB { reg_x: register_lhs, reg_y: register_rhs },
        ),
{
    let value_lhs: u8 = state.v_registers[register_lhs as usize];
    let value_rhs: u8 = state.v_registers[register_rhs as usize];
    let difference: u8 = value_lhs.wrapping_sub(value_rhs);

    state.v_registers[register_lhs as usize] = difference;
    state.v_registers[15] = if value_lhs > value_rhs {
        1
    } else {
        0
    };  // Set carry
    proof {
        assert(state@ =~= op_core(
            old(state)@,
            OpCode::SUB { reg_x: register_lhs, reg_y: register_rhs },
        ));
    }
}

// Set Vx = Vy - Vx, set VF = NOT borrow.
// If Vy > Vx, then VF is set to 1, otherwise 0.
// Then Vx is subtracted from Vy, and the results stored in Vx.
pub fn execute_subn(state: &mut CPUState, register_lhs: u8, register_rhs: u8)
    requires
        old(state)@.wf(),
        register_lhs < 16,
        register_rhs < 16,
    ensures
        final(state)@.wf(),
        final(state)@ == op_core(
            old(state)@,
            OpCode::SUBN { reg_x: register_lhs, reg_y: register_rhs },
        ),
{
    let value_lhs: u8 = state.v_registers[register_lhs as usize];
    let value_rhs: u8 = state.v_registers[register_rhs as usize];
    let difference: u8 = value_rhs.wrapping_sub(value_lhs);

    state.v_registers[register_lhs as usize] = difference;
    state.v_registers[15] = if value_rhs > value_lhs {
        1
    } else {
        0
    };  // Set carry
    proof {
        assert(state@ =~= op_core(
            old(state)@,
            OpCode::SUBN { reg_x: register_lhs, reg_y: register_rhs },
        ));
    }
}

// Set Vx = Vx SHR 1.
// If the least-significant bit of Vx is 1, then VF is set to 1, otherwise 0.
// Then Vx is divided by 2.
// NOTE: register_rhs is just ignored apparently.
pub fn execute_shr(state: &mut CPUState, register_lhs: u8, register_rhs: u8)
    requires
        old(state)@.wf(),
        register_lhs < 16,
    ensures
        final(state)@.wf(),
        final(state)@ == op_core(
            old(state)@,
            OpCode::SHR { reg_x: register_lhs, reg_y: register_rhs },
        ),
{
    let value_lhs: u8 = state.v_registers[register_lhs as usize];

    state.v_registers[register_lhs as usize] = value_lhs >> 1u8;
    state.v_registers[15] = value_lhs & 0x01;  // Set carry
    proof {
        assert(state@ =~= op_core(
            old(state)@,
            OpCode::SHR { reg_x: register_lhs, reg_y: register_rhs },
        ));
    }
}

// Set Vx = Vx SHL 1.
// If the most-significant bit of Vx is 1, then VF is set to 1, otherwise 0.
// Then Vx is multiplied by 2.
// NOTE: register_rhs is just ignored apparently.
pub fn execute_shl(state: &mut CPUState, register_lhs: u8, register_rhs: u8)
    requires
        old(state)@.wf(),
        register_lhs < 16,
    ensures
        final(state)@.wf(),
        final(state)@ == op_core(
            old(state)@,
            OpCode::SHL { reg_x: register_lhs, reg_y: register_rhs },
        ),
{
    let value_lhs: u8 = state.v_registers[register_lhs as usize];

    state.v_registers[register_lhs as usize] = value_lhs << 1u8;
    state.v_registers[15] = if (value_lhs & 0x80) != 0 {
        1
    } else {
        0
    };  // Set carry
    proof {
        assert(state@ =~= op_core(
            old(state)@,
            OpCode::SHL { reg_x: register_lhs, reg_y: register_rhs },
        ));
    }
}

// Set I = nnn.
// The value of register I is set to nnn.
pub fn execute_ldi(state: &mut CPUState, address: u16)
    requires
        old(state)@.wf(),
    ensures
        final(state)@.wf(),
        final(state)@ == op_core(old(state)@, OpCode::LDI { addr: address }),
{
    state.i = address;
    proof {
        assert(state@ =~= op_core(old(state)@, OpCode::LDI { addr: address }));
    }
}

// Jump to location nnn + V0.
// The program counter is set to nnn plus the value of V0.
pub fn execute_jp2(state: &mut CPUState, base_address: u16) -> (result: Result<(), Chip8Error>)
    requires
        old(state)@.wf(),
        base_address <= 0xFFF,
    ensures
        final(state)@.wf(),
        match result {
            Ok(()) => op_fault(old(state)@, OpCode::JP2 { addr: base_address }) is None && final(state)@ == op_core(old(state)@, OpCode::JP2 { addr: base_address }),
            Err(e) => op_fault(old(state)@, OpCode::JP2 { addr: base_address }) == Some(e)
                && final(state)@ == old(state)@,
        },
{
    let offset = state.v_registers[0] as u16;
    let jump_address: u16 = base_address + offset;

    proof {
        lemma_even_mask(jump_address);
    }
    if (jump_address & 0x0001) != 0 {
        return Err(Chip8Error::MisalignedAddress);  // Unaligned address
    }
    if !is_valid_memory_range(jump_address, 2, MemoryUsage::Execute) {
        return Err(Chip8Error::InvalidMemoryRange);
    }

    state.pc = jump_address;
    proof {
        assert(state@ =~= op_core(old(state)@, OpCode::JP2 { addr: base_address }));
    }
    Ok(())
}

/// Relies on rand's `thread_rng` and `Rng::gen`: a random byte, of which
/// nothing is promised.
#[verifier::external_body]
fn random_byte() -> u8 {
    rand::thread_rng().gen()
}

// Set Vx = random byte AND kk.
// The interpreter generates a random number from 0 to 255, which is then
// ANDed with the value kk. The results are stored in Vx.
pub fn execute_rnd(state: &mut CPUState, register_name: u8, value: u8)
    requires
        old(state)@.wf(),
        register_name < 16,
    ensures
        final(state)@.wf(),
        op_effect(old(state)@, final(state)@, OpCode::RND { reg: register_name, value }),
{
    let random_value: u8 = random_byte();
    state.v_registers[register_name as usize] = random_value & value;
    proof {
        assert(state@ =~= (MachineView {
            regs: old(state)@.regs.update(register_name as int, random_value & value),
            ..old(state)@
        }));
    }
}

// Skip next instruction if key with the value of Vx is pressed.
// Checks the keyboard, and if the key corresponding to the value of Vx is
// currently in the down position, PC is increased by 2.
pub fn execute_skp(state: &mut CPUState, register_name: u8) -> (result: Result<(), Chip8Error>)
    requires
        old(state)@.wf(),
        register_name < 16,
    ensures
        final(state)@.wf(),
        match result {
            Ok(()) => op_fault(old(state)@, OpCode::SKP { reg: register_name }) is None && final(state)@ == op_core(old(state)@, OpCode::SKP { reg: register_name }),
            Err(e) => op_fault(old(state)@, OpCode::SKP { reg: register_name }) == Some(e)
                && final(state)@ == old(state)@,
        },
{
    if !is_valid_memory_range(state.pc, 6, MemoryUsage::Execute) {
        return Err(Chip8Error::InvalidMemoryRange);
    }

    let key_id: u8 = state.v_registers[register_name as usize];
    if key_id >= KEY_ID_COUNT {
        return Err(Chip8Error::InvalidKey);  // Invalid key
    }

    if is_key_pressed(state, key_id) {
        state.pc = state.pc + 4;
    }
    proof {
        assert(state@ =~= op_core(old(state)@, OpCode::SKP { reg: register_name }));
    }
    Ok(())
}

// Skip next instruction if key with the value of Vx is not pressed.
// Checks the keyboard, and if the key corresponding to the value of Vx is
// currently in the up position, PC is increased by 2.
pub fn execute_sknp(state: &mut CPUState, register_name: u8) -> (result: Result<(), Chip8Error>)
    requires
        old(state)@.wf(),
        register_name < 16,
    ensures
        final(state)@.wf(),
        match result {
            Ok(()) => op_fault(old(state)@, OpCode::SKNP { reg: register_name }) is None && final(state)@ == op_core(old(state)@, OpCode::SKNP { reg: register_name }),
            Err(e) => op_fault(old(state)@, OpCode::SKNP { reg: register_name }) == Some(e)
                && final(state)@ == old(state)@,
        },
{
    if !is_valid_memory_range(state.pc, 6, MemoryUsage::Execute) {
        return Err(Chip8Error::InvalidMemoryRange);
    }

    let key_id: u8 = state.v_registers[register_name as usize];
    if key_id >= KEY_ID_COUNT {
        return Err(Chip8Error::InvalidKey);  // Invalid key
    }

    if !is_key_pressed(state, key_id) {
        state.pc = state.pc + 4;
    }
    proof {
        assert(state@ =~= op_core(old(state)@, OpCode::SKNP { reg: register_name }));
    }
    Ok(())
}

// Set Vx = delay timer value.
// The value of DT is placed into Vx.
pub fn execute_ldt(state: &mut CPUState, register_name: u8)
    requires
        old(state)@.wf(),
        register_name < 16,
    ensures
        final(state)@.wf(),
        final(state)@ == op_core(old(state)@, OpCode::LDT { reg: register_name }),
{
    state.v_registers[register_name as usize] = state.delay_timer;
    proof {
        assert(state@ =~= op_core(old(state)@, OpCode::LDT { reg: register_name }));
    }
}

// Wait for a key press, store the value of the key in Vx.
// All execution stops until a key is pressed, then the value of that key is
// stored in Vx. On first entry the waiting flag is raised; on later entries
// the lowest-numbered key that went down since the previous snapshot is
// taken, if there is one.
pub fn execute_ldk(state: &mut CPUState, register_name: u8)
    requires
        old(state)@.wf(),
        register_name < 16,
    ensures
        final(state)@.wf(),
        final(state)@ == op_core(old(state)@, OpCode::LDK { reg: register_name }),
{
    // If we enter for the first time, set the waiting flag.
    if !state.is_waiting_for_key {
        state.is_waiting_for_key = true;
    } else {
        let key_state_press_mask: u16 = !state.key_state_prev & state.key_state;
        // When waiting, check the key states.
        if key_state_press_mask != 0 {
            state.v_registers[register_name as usize] = get_key_pressed(key_state_press_mask);
            state.is_waiting_for_key = false;
        }
    }
    proof {
        assert(state@ =~= op_core(old(state)@, OpCode::LDK { reg: register_name }));
    }
}

// Set delay timer = Vx.
// DT is set equal to the value of Vx.
pub fn execute_lddt(state: &mut CPUState, register_name: u8)
    requires
        old(state)@.wf(),
        register_name < 16,
    ensures
        final(state)@.wf(),
        final(state)@ == op_core(old(state)@, OpCode::LDDT { reg: register_name }),
{
    state.delay_timer = state.v_registers[register_name as usize];
    proof {
        assert(state@ =~= op_core(old(state)@, OpCode::LDDT { reg: register_name }));
    }
}

// Set sound timer = Vx.
// ST is set equal to the value of Vx.
pub fn execute_ldst(state: &mut CPUState, register_name: u8)
    requires
        old(state)@.wf(),
        register_name < 16,
    ensures
        final(state)@.wf(),
        final(state)@ == op_core(old(state)@, OpCode::LDST { reg: register_name }),
{
    state.sound_timer = state.v_registers[register_name as usize];
    proof {
        assert(state@ =~= op_core(old(state)@, OpCode::LDST { reg: register_name }));
    }
}

// Set I = I + Vx.
// The values of I and Vx are added, and the results are stored in I.
// NOTE: Carry is NOT set; an overflow of the sixteen-bit register fails.
pub fn execute_addi(state: &mut CPUState, register_name: u8) -> (result: Result<(), Chip8Error>)
    requires
        old(state)@.wf(),
        register_name < 16,
    ensures
        final(state)@.wf(),
        match result {
            Ok(()) => op_fault(old(state)@, OpCode::ADDI { reg: register_name }) is None && final(state)@ == op_core(old(state)@, OpCode::ADDI { reg: register_name }),
            Err(e) => op_fault(old(state)@, OpCode::ADDI { reg: register_name }) == Some(e)
                && final(state)@ == old(state)@,
        },
{
    let register_value = state.v_registers[register_name as usize] as u16;
    let i_value: u16 = state.i;

    if i_value > 0xFFFF - register_value {
        return Err(Chip8Error::AddressOverflow);  // Overflow
    }
    let sum: u16 = i_value + register_value;

    state.i = sum;
    proof {
        assert(state@ =~= op_core(old(state)@, OpCode::ADDI { reg: register_name }));
    }
    Ok(())
}

// Set I = location of sprite for digit Vx.
// The value of I is set to the location for the hexadecimal sprite
// corresponding to the value of Vx.
pub fn execute_ldf(state: &mut CPUState, register_name: u8) -> (result: Result<(), Chip8Error>)
    requires
        old(state)@.wf(),
        register_name < 16,
    ensures
        final(state)@.wf(),
        match result {
            Ok(()) => op_fault(old(state)@, OpCode::LDF { reg: register_name }) is None && final(state)@ == op_core(old(state)@, OpCode::LDF { reg: register_name }),
            Err(e) => op_fault(old(state)@, OpCode::LDF { reg: register_name }) == Some(e)
                && final(state)@ == old(state)@,
        },
{
    let glyph_index: u8 = state.v_registers[register_name as usize];

    if glyph_index > 0x0F {
        return Err(Chip8Error::InvalidGlyphIndex);  // Invalid index
    }

    state.i = state.font_table_offsets[glyph_index as usize];
    proof {
        assert(state@ =~= op_core(old(state)@, OpCode::LDF { reg: register_name }));
    }
    Ok(())
}

// Store BCD representation of Vx in memory locations I, I+1, and I+2.
// The interpreter takes the decimal value of Vx, and places the hundreds
// digit in memory at location in I, the tens digit at location I+1, and the
// ones digit at location I+2.
pub fn execute_ldb(state: &mut CPUState, register_name: u8) -> (result: Result<(), Chip8Error>)
    requires
        old(state)@.wf(),
        register_name < 16,
    ensures
        final(state)@.wf(),
        match result {
            Ok(()) => op_fault(old(state)@, OpCode::LDB { reg: register_name }) is None && final(state)@ == op_core(old(state)@, OpCode::LDB { reg: register_name }),
            Err(e) => op_fault(old(state)@, OpCode::LDB { reg: register_name }) == Some(e)
                && final(state)@ == old(state)@,
        },
{
    if !is_valid_memory_range(state.i, 3, MemoryUsage::Write) {
        return Err(Chip8Error::InvalidMemoryRange);
    }

    let register_value: u8 = state.v_registers[register_name as usize];

    let ip = state.i as usize;
    state.memory[ip] = (register_value / 100) % 10;
    state.memory[ip + 1] = (register_value / 10) % 10;
    state.memory[ip + 2] = register_value % 10;

    proof {
        assert(state@ =~= op_core(old(state)@, OpCode::LDB { reg: register_name }));
    }
    Ok(())
}

// Store registers V0 through Vx in memory starting at location I.
// The interpreter copies the values of registers V0 through Vx into memory,
// starting at the address in I.
pub fn execute_ldai(state: &mut CPUState, register_name: u8) -> (result: Result<(), Chip8Error>)
    requires
        old(state)@.wf(),
        register_name < 16,
    ensures
        final(state)@.wf(),
        match result {
            Ok(()) => op_fault(old(state)@, OpCode::LDAI { reg: register_name }) is None && final(state)@ == op_core(old(state)@, OpCode::LDAI { reg: register_name }),
            Err(e) => op_fault(old(state)@, OpCode::LDAI { reg: register_name }) == Some(e)
                && final(state)@ == old(state)@,
        },
{
    let register_index_max = register_name as usize;

    if !is_valid_memory_range(state.i, register_index_max + 1, MemoryUsage::Write) {
        return Err(Chip8Error::InvalidMemoryRange);
    }

    let base = state.i as usize;
    let mut index: usize = 0;
    while index <= register_index_max
        invariant
            old(state)@.wf(),
            index <= register_index_max + 1,
            register_index_max == register_name,
            register_name < 16,
            base == old(state)@.index,
            base + register_index_max <= 0xFFF,
            state@ == (MachineView { mem: state@.mem, ..old(state)@ }),
            state@.mem.len() == old(state)@.mem.len(),
            forall|a: int| base <= a < base + index ==> state@.mem[a] == old(state)@.regs[a - base],
            forall|a: int|
                (0 <= a < base || base + index <= a < state@.mem.len()) ==> state@.mem[a] == old(
                    state,
                )@.mem[a],
        decreases register_index_max + 1 - index,
    {
        state.memory[base + index] = state.v_registers[index];
        index = index + 1;
    }

    proof {
        assert(state@.mem =~= crate::semantics::mem_with_regs(old(state)@, register_name));
        assert(state@ =~= op_core(old(state)@, OpCode::LDAI { reg: register_name }));
    }
    Ok(())
}

// Read registers V0 through Vx from memory starting at location I.
// The interpreter reads values from memory starting at location I into
// registers V0 through Vx.
pub fn execute_ldm(state: &mut CPUState, register_name: u8) -> (result: Result<(), Chip8Error>)
    requires
        old(state)@.wf(),
        register_name < 16,
    ensures
        final(state)@.wf(),
        match result {
            Ok(()) => op_fault(old(state)@, OpCode::LDM { reg: register_name }) is None && final(state)@ == op_core(old(state)@, OpCode::LDM { reg: register_name }),
            Err(e) => op_fault(old(state)@, OpCode::LDM { reg: register_name }) == Some(e)
                && final(state)@ == old(state)@,
        },
{
    let register_index_max = register_name as usize;

    if !is_valid_memory_range(state.i, register_index_max + 1, MemoryUsage::Read) {
        return Err(Chip8Error::InvalidMemoryRange);
    }

    let base = state.i as usize;
    let mut index: usize = 0;
    while index <= register_index_max
        invariant
            old(state)@.wf(),
            index <= register_index_max + 1,
            register_index_max == register_name,
            register_name < 16,
            base == old(state)@.index,
            base + register_index_max <= 0xFFF,
            state@ == (MachineView { regs: state@.regs, ..old(state)@ }),
            state@.regs.len() == old(state)@.regs.len(),
            forall|r: int| 0 <= r < index ==> state@.regs[r] == old(state)@.mem[base + r],
            forall|r: int| index <= r < state@.regs.len() ==> state@.regs[r] == old(state)@.regs[r],
        decreases register_index_max + 1 - index,
    {
        state.v_registers[index] = state.memory[base + index];
        index = index + 1;
    }

    proof {
        assert(state@.regs =~= crate::semantics::regs_from_mem(old(state)@, register_name));
        assert(state@ =~= op_core(old(state)@, OpCode::LDM { reg: register_name }));
    }
    Ok(())
}

/// The sprite bits blitted after `rows` complete rows plus the first `cols`
/// bits of row `rows`: a prefix of the sprite in drawing order.
spec fn sprite_bit_partial(
    mem: Seq<u8>,
    index: int,
    x0: int,
    y0: int,
    rows: int,
    cols: int,
    x: int,
    y: int,
) -> bool {
    exists|r: int, k: int|
        0 <= r && 0 <= k < 8 && (r < rows || (r == rows && k < cols)) && (y0 + r) % (SCREEN_HEIGHT
            as int) == y && (x0 + k) % (SCREEN_WIDTH as int) == x && #[trigger] byte_bit(
            mem[index + r],
            (7 - k) as u8,
        )
}

/// Whether the prefix of the sprite already blitted has erased some pixel
/// that was lit on `m`'s surface.
spec fn collision_partial(m: MachineView, x0: int, y0: int, rows: int, cols: int) -> bool {
    exists|x: int, y: int|
        0 <= x < SCREEN_WIDTH && 0 <= y < SCREEN_HEIGHT && #[trigger] spec_pixel(m.screen, x, y)
            && sprite_bit_partial(m.mem, m.index as int, x0, y0, rows, cols, x, y)
}

/// Two offsets below the modulus that land on the same wrapped coordinate
/// are the same offset.
proof fn lemma_mod_window_inj(base: int, a: int, b: int, m: int)
    requires
        m > 0,
        0 <= a < m,
        0 <= b < m,
        0 <= base,
        (base + a) % m == (base + b) % m,
    ensures
        a == b,
{
    let s = (base + a) % m;
    vstd::arithmetic::div_mod::lemma_fundamental_div_mod(base + a, m);
    vstd::arithmetic::div_mod::lemma_fundamental_div_mod(base + b, m);
    let q1 = (base + a) / m;
    let q2 = (base + b) / m;
    assert(a - b == (q1 - q2) * m) by (nonlinear_arith)
        requires
            base + a == m * q1 + s,
            base + b == m * q2 + s,
    ;
    assert(q1 - q2 == 0) by (nonlinear_arith)
        requires
            a - b == (q1 - q2) * m,
            -m < a - b < m,
            m > 0,
    ;
}

/// An empty prefix of row `rows` adds nothing: the blitted bits are exactly
/// those of the first `rows` rows.
proof fn lemma_partial_zero(mem: Seq<u8>, index: int, x0: int, y0: int, rows: int, x: int, y: int)
    ensures
        sprite_bit_partial(mem, index, x0, y0, rows, 0, x, y) == sprite_bit(
            mem,
            index,
            x0,
            y0,
            rows,
            x,
            y,
        ),
{
    if sprite_bit_partial(mem, index, x0, y0, rows, 0, x, y) {
        let (r, k) = choose|r: int, k: int|
            0 <= r && 0 <= k < 8 && (r < rows || (r == rows && k < 0)) && (y0 + r) % (SCREEN_HEIGHT
                as int) == y && (x0 + k) % (SCREEN_WIDTH as int) == x && #[trigger] byte_bit(
                mem[index + r],
                (7 - k) as u8,
            );
        assert(0 <= r < rows && 0 <= k < 8);
        assert(sprite_bit(mem, index, x0, y0, rows, x, y));
    }
    if sprite_bit(mem, index, x0, y0, rows, x, y) {
        let (r, k) = choose|r: int, k: int|
            0 <= r < rows && 0 <= k < 8 && (y0 + r) % (SCREEN_HEIGHT as int) == y && (x0 + k) % (
            SCREEN_WIDTH as int) == x && #[trigger] byte_bit(mem[index + r], (7 - k) as u8);
        assert(sprite_bit_partial(mem, index, x0, y0, rows, 0, x, y));
    }
}

/// A completed row prefix is the same set of bits as the empty prefix of
/// the next row.
proof fn lemma_partial_row_done(
    mem: Seq<u8>,
    index: int,
    x0: int,
    y0: int,
    rows: int,
    x: int,
    y: int,
)
    requires
        0 <= rows,
    ensures
        sprite_bit_partial(mem, index, x0, y0, rows, 8, x, y) == sprite_bit_partial(
            mem,
            index,
            x0,
            y0,
            rows + 1,
            0,
            x,
            y,
        ),
{
    if sprite_bit_partial(mem, index, x0, y0, rows, 8, x, y) {
        let (r, k) = choose|r: int, k: int|
            0 <= r && 0 <= k < 8 && (r < rows || (r == rows && k < 8)) && (y0 + r) % (SCREEN_HEIGHT
                as int) == y && (x0 + k) % (SCREEN_WIDTH as int) == x && #[trigger] byte_bit(
                mem[index + r],
                (7 - k) as u8,
            );
        assert(r < rows + 1);
        assert(sprite_bit_partial(mem, index, x0, y0, rows + 1, 0, x, y));
    }
    if sprite_bit_partial(mem, index, x0, y0, rows + 1, 0, x, y) {
        let (r, k) = choose|r: int, k: int|
            0 <= r && 0 <= k < 8 && (r < rows + 1 || (r == rows + 1 && k < 0)) && (y0 + r) % (
            SCREEN_HEIGHT as int) == y && (x0 + k) % (SCREEN_WIDTH as int) == x
                && #[trigger] byte_bit(mem[index + r], (7 - k) as u8);
        assert(r < rows || (r == rows && k < 8));
        assert(sprite_bit_partial(mem, index, x0, y0, rows, 8, x, y));
    }
}

/// Extending the prefix by one bit adds exactly the bit of column `cols` of
/// row `rows`, at its wrapped coordinate.
proof fn lemma_partial_step(
    mem: Seq<u8>,
    index: int,
    x0: int,
    y0: int,
    rows: int,
    cols: int,
    x: int,
    y: int,
)
    requires
        0 <= rows,
        0 <= cols < 8,
    ensures
        sprite_bit_partial(mem, index, x0, y0, rows, cols + 1, x, y) == (sprite_bit_partial(
            mem,
            index,
            x0,
            y0,
            rows,
            cols,
            x,
            y,
        ) || ((y0 + rows) % (SCREEN_HEIGHT as int) == y && (x0 + cols) % (SCREEN_WIDTH as int) == x
            && byte_bit(mem[index + rows], (7 - cols) as u8))),
{
    if sprite_bit_partial(mem, index, x0, y0, rows, cols + 1, x, y) {
        let (r, k) = choose|r: int, k: int|
            0 <= r && 0 <= k < 8 && (r < rows || (r == rows && k < cols + 1)) && (y0 + r) % (
            SCREEN_HEIGHT as int) == y && (x0 + k) % (SCREEN_WIDTH as int) == x
                && #[trigger] byte_bit(mem[index + r], (7 - k) as u8);
        if r < rows || (r == rows && k < cols) {
            assert(sprite_bit_partial(mem, index, x0, y0, rows, cols, x, y));
        } else {
            assert(r == rows && k == cols);
        }
    }
    if sprite_bit_partial(mem, index, x0, y0, rows, cols, x, y) {
        let (r, k) = choose|r: int, k: int|
            0 <= r && 0 <= k < 8 && (r < rows || (r == rows && k < cols)) && (y0 + r) % (
            SCREEN_HEIGHT as int) == y && (x0 + k) % (SCREEN_WIDTH as int) == x
                && #[trigger] byte_bit(mem[index + r], (7 - k) as u8);
        assert(sprite_bit_partial(mem, index, x0, y0, rows, cols + 1, x, y));
    }
    if (y0 + rows) % (SCREEN_HEIGHT as int) == y && (x0 + cols) % (SCREEN_WIDTH as int) == x
        && byte_bit(mem[index + rows], (7 - cols) as u8) {
        assert(sprite_bit_partial(mem, index, x0, y0, rows, cols + 1, x, y));
    }
}

/// No bit of the prefix lands on the wrapped coordinate of the bit about to
/// be blitted: within one sprite, no coordinate is visited twice.
proof fn lemma_partial_not_here(mem: Seq<u8>, index: int, x0: int, y0: int, rows: int, cols: int)
    requires
        0 <= x0,
        0 <= y0,
        0 <= rows < SCREEN_HEIGHT,
        0 <= cols < 8,
    ensures
        !sprite_bit_partial(
            mem,
            index,
            x0,
            y0,
            rows,
            cols,
            (x0 + cols) % (SCREEN_WIDTH as int),
            (y0 + rows) % (SCREEN_HEIGHT as int),
        ),
{
    let x = (x0 + cols) % (SCREEN_WIDTH as int);
    let y = (y0 + rows) % (SCREEN_HEIGHT as int);
    if sprite_bit_partial(mem, index, x0, y0, rows, cols, x, y) {
        let (r, k) = choose|r: int, k: int|
            0 <= r && 0 <= k < 8 && (r < rows || (r == rows && k < cols)) && (y0 + r) % (
            SCREEN_HEIGHT as int) == y && (x0 + k) % (SCREEN_WIDTH as int) == x
                && #[trigger] byte_bit(mem[index + r], (7 - k) as u8);
        lemma_mod_window_inj(y0, r, rows, SCREEN_HEIGHT as int);
        assert(r == rows);
        lemma_mod_window_inj(x0, k, cols, SCREEN_WIDTH as int);
        assert(false);
    }
}

/// The empty prefix has erased a lit pixel exactly when the whole `rows`-row
/// sprite of `drw_collision` has.
proof fn lemma_collision_zero(m: MachineView, x0: int, y0: int, rows: int)
    ensures
        collision_partial(m, x0, y0, rows, 0) == drw_collision(m, x0, y0, rows),
{
    if collision_partial(m, x0, y0, rows, 0) {
        let (x, y) = choose|x: int, y: int|
            0 <= x < SCREEN_WIDTH && 0 <= y < SCREEN_HEIGHT && #[trigger] spec_pixel(m.screen, x, y)
                && sprite_bit_partial(m.mem, m.index as int, x0, y0, rows, 0, x, y);
        lemma_partial_zero(m.mem, m.index as int, x0, y0, rows, x, y);
        assert(drw_collision(m, x0, y0, rows));
    }
    if drw_collision(m, x0, y0, rows) {
        let (x, y) = choose|x: int, y: int|
            0 <= x < SCREEN_WIDTH && 0 <= y < SCREEN_HEIGHT && #[trigger] spec_pixel(m.screen, x, y)
                && sprite_bit(m.mem, m.index as int, x0, y0, rows, x, y);
        lemma_partial_zero(m.mem, m.index as int, x0, y0, rows, x, y);
        assert(collision_partial(m, x0, y0, rows, 0));
    }
}

/// Completing a row leaves the erased-pixel verdict of the prefix unchanged.
proof fn lemma_collision_row_done(m: MachineView, x0: int, y0: int, rows: int)
    requires
        0 <= rows,
    ensures
        collision_partial(m, x0, y0, rows, 8) == collision_partial(m, x0, y0, rows + 1, 0),
{
    if collision_partial(m, x0, y0, rows, 8) {
        let (x, y) = choose|x: int, y: int|
            0 <= x < SCREEN_WIDTH && 0 <= y < SCREEN_HEIGHT && #[trigger] spec_pixel(m.screen, x, y)
                && sprite_bit_partial(m.mem, m.index as int, x0, y0, rows, 8, x, y);
        lemma_partial_row_done(m.mem, m.index as int, x0, y0, rows, x, y);
        assert(collision_partial(m, x0, y0, rows + 1, 0));
    }
    if collision_partial(m, x0, y0, rows + 1, 0) {
        let (x, y) = choose|x: int, y: int|
            0 <= x < SCREEN_WIDTH && 0 <= y < SCREEN_HEIGHT && #[trigger] spec_pixel(m.screen, x, y)
                && sprite_bit_partial(m.mem, m.index as int, x0, y0, rows + 1, 0, x, y);
        lemma_partial_row_done(m.mem, m.index as int, x0, y0, rows, x, y);
        assert(collision_partial(m, x0, y0, rows, 8));
    }
}

/// Extending the prefix by one bit erases a lit pixel exactly when the
/// prefix already had, or the new bit hits a lit pixel.
proof fn lemma_collision_step(m: MachineView, x0: int, y0: int, rows: int, cols: int)
    requires
        0 <= x0,
        0 <= y0,
        0 <= rows,
        0 <= cols < 8,
    ensures
        collision_partial(m, x0, y0, rows, cols + 1) == (collision_partial(m, x0, y0, rows, cols)
            || (spec_pixel(
            m.screen,
            (x0 + cols) % (SCREEN_WIDTH as int),
            (y0 + rows) % (SCREEN_HEIGHT as int),
        ) && byte_bit(m.mem[m.index + rows], (7 - cols) as u8))),
{
    let sx = (x0 + cols) % (SCREEN_WIDTH as int);
    let sy = (y0 + rows) % (SCREEN_HEIGHT as int);
    vstd::arithmetic::div_mod::lemma_mod_bound(x0 + cols, SCREEN_WIDTH as int);
    vstd::arithmetic::div_mod::lemma_mod_bound(y0 + rows, SCREEN_HEIGHT as int);
    if collision_partial(m, x0, y0, rows, cols + 1) {
        let (x, y) = choose|x: int, y: int|
            0 <= x < SCREEN_WIDTH && 0 <= y < SCREEN_HEIGHT && #[trigger] spec_pixel(m.screen, x, y)
                && sprite_bit_partial(m.mem, m.index as int, x0, y0, rows, cols + 1, x, y);
        lemma_partial_step(m.mem, m.index as int, x0, y0, rows, cols, x, y);
        if sprite_bit_partial(m.mem, m.index as int, x0, y0, rows, cols, x, y) {
            assert(collision_partial(m, x0, y0, rows, cols));
        } else {
            assert(x == sx && y == sy);
        }
    }
    if collision_partial(m, x0, y0, rows, cols) {
        let (x, y) = choose|x: int, y: int|
            0 <= x < SCREEN_WIDTH && 0 <= y < SCREEN_HEIGHT && #[trigger] spec_pixel(m.screen, x, y)
                && sprite_bit_partial(m.mem, m.index as int, x0, y0, rows, cols, x, y);
        lemma_partial_step(m.mem, m.index as int, x0, y0, rows, cols, x, y);
        assert(collision_partial(m, x0, y0, rows, cols + 1));
    }
    if spec_pixel(m.screen, sx, sy) && byte_bit(m.mem[m.index + rows], (7 - cols) as u8) {
        lemma_partial_step(m.mem, m.index as int, x0, y0, rows, cols, sx, sy);
        assert(sprite_bit_partial(m.mem, m.index as int, x0, y0, rows, cols + 1, sx, sy));
        assert(collision_partial(m, x0, y0, rows, cols + 1));
    }
}

// Display n-byte sprite starting at memory location I at (Vx, Vy), set
// VF = collision.
// The interpreter reads n bytes from memory, starting at the address stored
// in I. These bytes are then displayed as sprites on screen at coordinates
// (Vx, Vy). Sprites are XORed onto the existing screen. If this causes any
// pixels to be erased, VF is set to 1, otherwise it is set to 0.
// If the sprite is positioned so part of it is outside the coordinates of
// the display, it wraps around to the opposite side of the screen.
pub fn execute_drw(state: &mut CPUState, register_lhs: u8, register_rhs: u8, size: u8) -> (result:
    Result<(), Chip8Error>)
    requires
        old(state)@.wf(),
        register_lhs < 16,
        register_rhs < 16,
        size <= 15,
    ensures
        final(state)@.wf(),
        match result {
            Ok(()) => op_fault(
                old(state)@,
                OpCode::DRW { reg_x: register_lhs, reg_y: register_rhs, size },
            ) is None && crate::semantics::drw_effect(
                old(state)@,
                final(state)@,
                register_lhs,
                register_rhs,
                size,
            ),
            Err(e) => op_fault(
                old(state)@,
                OpCode::DRW { reg_x: register_lhs, reg_y: register_rhs, size },
            ) == Some(e) && final(state)@ == old(state)@,
        },
{
    if size == 0 {
        return Err(Chip8Error::InvalidRangeSize);  // Invalid sprite size
    }
    if !is_valid_memory_range(state.i, size as usize, MemoryUsage::Read) {
        return Err(Chip8Error::InvalidMemoryRange);
    }

    let sprite_start_x = state.v_registers[register_lhs as usize] as usize;
    let sprite_start_y = state.v_registers[register_rhs as usize] as usize;

    let ghost x0: int = sprite_start_x as int;
    let ghost y0: int = sprite_start_y as int;

    let mut collision: bool = false;

    // Sprites are made of rows of 1 byte each.
    let mut row_index: u8 = 0;
    while row_index < size
        invariant
            old(state)@.wf(),
            state@.wf(),
            register_lhs < 16,
            register_rhs < 16,
            1 <= size <= 15,
            row_index <= size,
            x0 == old(state)@.regs[register_lhs as int] as int,
            y0 == old(state)@.regs[register_rhs as int] as int,
            sprite_start_x as int == x0,
            sprite_start_y as int == y0,
            crate::memory::spec_valid_range(
                old(state)@.index as int,
                size as int,
                MemoryUsage::Read,
            ),
            state@ == (MachineView { screen: state@.screen, ..old(state)@ }),
            forall|x: int, y: int|
                0 <= x < SCREEN_WIDTH && 0 <= y < SCREEN_HEIGHT ==> #[trigger] spec_pixel(
                    state@.screen,
                    x,
                    y,
                ) == (spec_pixel(old(state)@.screen, x, y) != sprite_bit_partial(
                    old(state)@.mem,
                    old(state)@.index as int,
                    x0,
                    y0,
                    row_index as int,
                    0,
                    x,
                    y,
                )),
            collision == collision_partial(old(state)@, x0, y0, row_index as int, 0),
        decreases size - row_index,
    {
        let sprite_address = (state.i + row_index as u16) as usize;
        let sprite_row: u8 = state.memory[sprite_address];
        let screen_y = (sprite_start_y + row_index as usize) % SCREEN_HEIGHT;

        proof {
            vstd::arithmetic::div_mod::lemma_mod_bound(
                y0 + row_index as int,
                SCREEN_HEIGHT as int,
            );
        }

        let mut pixel_index: usize = 0;
        while pixel_index < 8
            invariant
                old(state)@.wf(),
                state@.wf(),
                register_lhs < 16,
                register_rhs < 16,
                1 <= size <= 15,
                row_index < size,
                pixel_index <= 8,
                x0 == old(state)@.regs[register_lhs as int] as int,
                y0 == old(state)@.regs[register_rhs as int] as int,
                sprite_start_x as int == x0,
                sprite_start_y as int == y0,
                crate::memory::spec_valid_range(
                    old(state)@.index as int,
                    size as int,
                    MemoryUsage::Read,
                ),
                sprite_row == old(state)@.mem[old(state)@.index + row_index as int],
                screen_y as int == (y0 + row_index as int) % (SCREEN_HEIGHT as int),
                screen_y < SCREEN_HEIGHT,
                state@ == (MachineView { screen: state@.screen, ..old(state)@ }),
                forall|x: int, y: int|
                    0 <= x < SCREEN_WIDTH && 0 <= y < SCREEN_HEIGHT ==> #[trigger] spec_pixel(
                        state@.screen,
                        x,
                        y,
                    ) == (spec_pixel(old(state)@.screen, x, y) != sprite_bit_partial(
                        old(state)@.mem,
                        old(state)@.index as int,
                        x0,
                        y0,
                        row_index as int,
                        pixel_index as int,
                        x,
                        y,
                    )),
                collision == collision_partial(
                    old(state)@,
                    x0,
                    y0,
                    row_index as int,
                    pixel_index as int,
                ),
            decreases 8 - pixel_index,
        {
            let shift: u8 = (7 - pixel_index) as u8;
            let sprite_pixel_value = ((sprite_row >> shift) & 0x1) != 0;
            let screen_x: usize = (sprite_start_x + pixel_index) % SCREEN_WIDTH;

            proof {
                vstd::arithmetic::div_mod::lemma_mod_bound(
                    x0 + pixel_index as int,
                    SCREEN_WIDTH as int,
                );
                lemma_partial_not_here(
                    old(state)@.mem,
                    old(state)@.index as int,
                    x0,
                    y0,
                    row_index as int,
                    pixel_index as int,
                );
            }

            let screen_pixel_value = read_screen_pixel(state, screen_x, screen_y);

            let result_pixel = screen_pixel_value ^ sprite_pixel_value;

            // A pixel was erased
            if screen_pixel_value && !result_pixel {
                collision = true;
            }

            let ghost mid = state@;
            write_screen_pixel(state, screen_x, screen_y, result_pixel);

            proof {
                let mem = old(state)@.mem;
                let idx = old(state)@.index as int;
                let rr = row_index as int;
                let kk = pixel_index as int;
                let sx = screen_x as int;
                let sy = screen_y as int;

                assert(sprite_pixel_value == byte_bit(mem[idx + rr], (7 - kk) as u8));
                assert(screen_pixel_value == spec_pixel(old(state)@.screen, sx, sy));

                assert forall|x: int, y: int|
                    0 <= x < SCREEN_WIDTH && 0 <= y < SCREEN_HEIGHT implies #[trigger] spec_pixel(
                    state@.screen,
                    x,
                    y,
                ) == (spec_pixel(old(state)@.screen, x, y) != sprite_bit_partial(
                    mem,
                    idx,
                    x0,
                    y0,
                    rr,
                    kk + 1,
                    x,
                    y,
                )) by {
                    lemma_partial_step(mem, idx, x0, y0, rr, kk, x, y);
                    if x == sx && y == sy {
                        assert(spec_pixel(state@.screen, x, y) == result_pixel);
                    } else {
                        assert(spec_pixel(state@.screen, x, y) == spec_pixel(mid.screen, x, y));
                    }
                }

                lemma_collision_step(old(state)@, x0, y0, rr, kk);
                assert(collision == collision_partial(old(state)@, x0, y0, rr, kk + 1));
            }

            pixel_index = pixel_index + 1;
        }

        proof {
            let mem = old(state)@.mem;
            let idx = old(state)@.index as int;
            let rr = row_index as int;
            assert forall|x: int, y: int|
                0 <= x < SCREEN_WIDTH && 0 <= y < SCREEN_HEIGHT implies sprite_bit_partial(
                mem,
                idx,
                x0,
                y0,
                rr,
                8,
                x,
                y,
            ) == sprite_bit_partial(mem, idx, x0, y0, rr + 1, 0, x, y) by {
                lemma_partial_row_done(mem, idx, x0, y0, rr, x, y);
            }
            lemma_collision_row_done(old(state)@, x0, y0, rr);
        }

        row_index = row_index + 1;
    }

    state.v_registers[15] = if collision {
        1
    } else {
        0
    };

    proof {
        let pre = old(state)@;
        let mem = pre.mem;
        let idx = pre.index as int;
        assert forall|x: int, y: int|
            0 <= x < SCREEN_WIDTH && 0 <= y < SCREEN_HEIGHT implies sprite_bit_partial(
            mem,
            idx,
            x0,
            y0,
            size as int,
            0,
            x,
            y,
        ) == sprite_bit(mem, idx, x0, y0, size as int, x, y) by {
            lemma_partial_zero(mem, idx, x0, y0, size as int, x, y);
        }
        lemma_collision_zero(pre, x0, y0, size as int);
        assert(state@ =~= (MachineView {
            screen: state@.screen,
            regs: pre.regs.update(
                15,
                if crate::semantics::drw_collision(pre, x0, y0, size as int) {
                    1u8
                } else {
                    0u8
                },
            ),
            ..pre
        }));
        assert(crate::semantics::drw_effect(pre, state@, register_lhs, register_rhs, size));
    }
    Ok(())
}

// Decode nothing: dispatch an already-decoded operation to its handler.
// The caller applies the post-execution rule afterwards.
pub fn execute_instruction_internal(state: &mut CPUState, instruction: OpCode) -> (result: Result<
    (),
    Chip8Error,
>)
    requires
        old(state)@.wf(),
        instruction.wf(),
    ensures
        final(state)@.wf(),
        match result {
            Ok(()) => op_fault(old(state)@, instruction) is None && op_effect(
                old(state)@,
                final(state)@,
                instruction,
            ),
            Err(e) => op_fault(old(state)@, instruction) == Some(e) && final(state)@ == old(state)@,
        },
{
    match instruction {
        OpCode::CLS => {
            execute_cls(state);
            Ok(())
        },
        OpCode::RET => execute_ret(state),
        OpCode::SYS { addr } => {
            execute_sys(state, addr);
            Ok(())
        },
        OpCode::JP { addr } => execute_jp(state, addr),
        OpCode::CALL { addr } => execute_call(state, addr),
        OpCode::SE { reg, value } => execute_se(state, reg, value),
        OpCode::SNE { reg, value } => execute_sne(state, reg, value),
        OpCode::SE2 { reg_x, reg_y } => execute_se2(state, reg_x, reg_y),
        OpCode::LD { reg, value } => {
            execute_ld(state, reg, value);
            Ok(())
        },
        OpCode::ADD { reg, value } => {
            execute_add(state, reg, value);
            Ok(())
        },
        OpCode::LD2 { reg_x, reg_y } => {
            execute_ld2(state, reg_x, reg_y);
            Ok(())
        },
        OpCode::OR { reg_x, reg_y } => {
            execute_or(state, reg_x, reg_y);
            Ok(())
        },
        OpCode::AND { reg_x, reg_y } => {
            execute_and(state, reg_x, reg_y);
            Ok(())
        },
        OpCode::ADD2 { reg_x, reg_y } => {
            execute_add2(state, reg_x, reg_y);
            Ok(())
        },
        OpCode::SUB { reg_x, reg_y } => {
            execute_sub(state, reg_x, reg_y);
            Ok(())
        },
        OpCode::XOR { reg_x, reg_y } => {
            execute_xor(state, reg_x, reg_y);
            Ok(())
        },
        OpCode::SHR { reg_x, reg_y } => {
            execute_shr(state, reg_x, reg_y);
            Ok(())
        },
        OpCode::SUBN { reg_x, reg_y } => {
            execute_subn(state, reg_x, reg_y);
            Ok(())
        },
        OpCode::SHL { reg_x, reg_y } => {
            execute_shl(state, reg_x, reg_y);
            Ok(())
        },
        OpCode::SNE2 { reg_x, reg_y } => execute_sne2(state, reg_x, reg_y),
        OpCode::LDI { addr } => {
            execute_ldi(state, addr);
            Ok(())
        },
        OpCode::JP2 { addr } => execute_jp2(state, addr),
        OpCode::DRW { reg_x, reg_y, size } => execute_drw(state, reg_x, reg_y, size),
        OpCode::RND { reg, value } => {
            execute_rnd(state, reg, value);
            Ok(())
        },
        OpCode::SKP { reg } => execute_skp(state, reg),
        OpCode::SKNP { reg } => execute_sknp(state, reg),
        OpCode::LDT { reg } => {
            execute_ldt(state, reg);
            Ok(())
        },
        OpCode::LDK { reg } => {
            execute_ldk(state, reg);
            Ok(())
        },
        OpCode::LDDT { reg } => {
            execute_lddt(state, reg);
            Ok(())
        },
        OpCode::LDST { reg } => {
            execute_ldst(state, reg);
            Ok(())
        },
        OpCode::ADDI { reg } => execute_addi(state, reg),
        OpCode::LDF { reg } => execute_ldf(state, reg),
        OpCode::LDB { reg } => execute_ldb(state, reg),
        OpCode::LDAI { reg } => execute_ldai(state, reg),
        OpCode::LDM { reg } => execute_ldm(state, reg),
    }
}

} // verus!
