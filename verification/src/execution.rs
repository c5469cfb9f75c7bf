use vstd::prelude::*;

use crate::cpu::CPUState;
use crate::cpu::MachineView;
use crate::cpu::DELAY_TIMER_PERIOD_MS;
use crate::cpu::INSTRUCTION_EXECUTION_PERIOD_MS;
use crate::cpu::MEMORY_SIZE_IN_BYTES;
use crate::cpu::MIN_PROGRAM_ADDRESS;
use crate::error::Chip8Error;
use crate::instruction::execute_instruction_internal;
use crate::memory::is_valid_memory_range;
use crate::memory::spec_valid_range;
use crate::memory::MemoryUsage;
use crate::opcode::decode_instruction;
use crate::opcode::spec_decode;
use crate::semantics::op_fault;
use crate::semantics::op_step;
use crate::semantics::post_rule;

verus! {

/// The big-endian instruction word held at the program counter.
pub open spec fn spec_fetch(m: MachineView) -> u16 {
    (m.mem[m.pc as int] * 256 + m.mem[m.pc + 1]) as u16
}

/// The fault the next fetch-decode-execute cycle of a machine in state `m`
/// raises, or nothing when it can proceed: the program counter must be
/// executable, the fetched word must decode, and the decoded operation must
/// not fault.
pub open spec fn machine_fault(m: MachineView) -> Option<Chip8Error> {
    if !spec_valid_range(m.pc as int, 2, MemoryUsage::Execute) {
        Some(Chip8Error::InvalidMemoryRange)
    } else {
        match spec_decode(spec_fetch(m)) {
            None => Some(Chip8Error::UnknownOpcode),
            Some(op) => op_fault(m, op),
        }
    }
}

/// One fault-free fetch-decode-execute cycle, post-execution rule included.
pub open spec fn machine_step(pre: MachineView, post: MachineView) -> bool {
    &&& machine_fault(pre) is None
    &&& op_step(pre, post, spec_decode(spec_fetch(pre))->Some_0)
}

/// `count` consecutive fault-free cycles.
pub open spec fn machine_run(pre: MachineView, post: MachineView, count: nat) -> bool
    decreases count,
{
    if count == 0 {
        post == pre
    } else {
        exists|mid: MachineView| machine_step(pre, mid) && machine_run(mid, post, (count - 1) as nat)
    }
}

/// A run of one cycle is exactly one machine step.
pub proof fn lemma_run_one(pre: MachineView, post: MachineView)
    ensures
        machine_run(pre, post, 1) == machine_step(pre, post),
{
    if machine_run(pre, post, 1) {
        let mid = choose|mid: MachineView| machine_step(pre, mid) && machine_run(mid, post, 0);
        assert(mid == post);
    }
    if machine_step(pre, post) {
        assert(machine_run(pre, post, 1)) by {
            assert(machine_step(pre, post) && machine_run(post, post, 0));
        }
    }
}

/// A run extended by one further step is a run one cycle longer.
pub proof fn lemma_run_snoc(first: MachineView, mid: MachineView, last: MachineView, count: nat)
    requires
        machine_run(first, mid, count),
        machine_step(mid, last),
    ensures
        machine_run(first, last, count + 1),
    decreases count,
{
    if count == 0 {
        assert(mid == first);
        assert(machine_step(first, last) && machine_run(last, last, 0));
    } else {
        let second = choose|second: MachineView|
            machine_step(first, second) && machine_run(second, mid, (count - 1) as nat);
        lemma_run_snoc(second, mid, last, (count - 1) as nat);
        assert(machine_step(first, second) && machine_run(second, last, count));
    }
}

/// The timer bookkeeping a driver call with `delta_time_ms` elapsed
/// milliseconds performs before any instruction runs: each accumulator
/// gathers the delta, whole periods are consumed, the delay timer loses one
/// per consumed period down to zero, and a running sound timer gains one.
pub open spec fn timers_view(m: MachineView, delta_time_ms: u32) -> MachineView {
    let delay_total = m.delay_acc + delta_time_ms;
    let ticks = delay_total / (DELAY_TIMER_PERIOD_MS as int);
    let exec_total = m.exec_acc + delta_time_ms;
    MachineView {
        delay_timer: if ticks >= m.delay_timer {
            0u8
        } else {
            (m.delay_timer - ticks) as u8
        },
        sound_timer: if m.sound_timer > 0 {
            vstd::wrapping::u8_specs::wrapping_add(m.sound_timer, 1)
        } else {
            m.sound_timer
        },
        delay_acc: (delay_total % (DELAY_TIMER_PERIOD_MS as int)) as u32,
        exec_acc: (exec_total % (INSTRUCTION_EXECUTION_PERIOD_MS as int)) as u32,
        ..m
    }
}

/// How many instructions a driver call with `delta_time_ms` elapsed
/// milliseconds owes: the whole instruction periods its accumulator gathers.
pub open spec fn instr_count(m: MachineView, delta_time_ms: u32) -> int {
    (m.exec_acc + delta_time_ms) / (INSTRUCTION_EXECUTION_PERIOD_MS as int)
}

/// Writes a program image into memory at the first program address.
/// The buffer must have even length and fit inside program memory.
pub fn load_program(state: &mut CPUState, program: Vec<u8>) -> (result: Result<(), Chip8Error>)
    requires
        old(state)@.wf(),
    ensures
        final(state)@.wf(),
        match result {
            Ok(()) => {
                &&& program@.len() % 2 == 0
                &&& 0 < program@.len() <= 0xE00
                &&& final(state)@ == (MachineView { mem: final(state)@.mem, ..old(state)@ })
                &&& final(state)@.mem.len() == old(state)@.mem.len()
                &&& (forall|a: int|
                    MIN_PROGRAM_ADDRESS <= a < MIN_PROGRAM_ADDRESS + program@.len()
                        ==> final(state)@.mem[a] == program@[a - MIN_PROGRAM_ADDRESS])
                &&& (forall|a: int|
                    (0 <= a < MIN_PROGRAM_ADDRESS || MIN_PROGRAM_ADDRESS + program@.len() <= a
                        < MEMORY_SIZE_IN_BYTES) ==> final(state)@.mem[a] == old(state)@.mem[a])
            },
            Err(e) => {
                &&& final(state)@ == old(state)@
                &&& !(program@.len() % 2 == 0 && 0 < program@.len() <= 0xE00)
                &&& e == (if program@.len() % 2 != 0 {
                    Chip8Error::OddProgramSize
                } else if program@.len() == 0 {
                    Chip8Error::InvalidRangeSize
                } else {
                    Chip8Error::InvalidMemoryRange
                })
            },
        },
{
    let program_size = program.len();

    if program_size % 2 != 0 {
        return Err(Chip8Error::OddProgramSize);  // Unaligned size
    }
    if program_size == 0 {
        return Err(Chip8Error::InvalidRangeSize);  // Nothing to load
    }
    if !is_valid_memory_range(MIN_PROGRAM_ADDRESS as u16, program_size, MemoryUsage::Write) {
        return Err(Chip8Error::InvalidMemoryRange);
    }

    let mut offset: usize = 0;
    while offset < program_size
        invariant
            old(state)@.wf(),
            offset <= program_size,
            program_size == program@.len(),
            MIN_PROGRAM_ADDRESS + program_size <= MEMORY_SIZE_IN_BYTES,
            state@ == (MachineView { mem: state@.mem, ..old(state)@ }),
            state@.mem.len() == old(state)@.mem.len(),
            forall|a: int|
                MIN_PROGRAM_ADDRESS <= a < MIN_PROGRAM_ADDRESS + offset ==> state@.mem[a]
                    == program@[a - MIN_PROGRAM_ADDRESS],
            forall|a: int|
                (0 <= a < MIN_PROGRAM_ADDRESS || MIN_PROGRAM_ADDRESS + offset <= a
                    < MEMORY_SIZE_IN_BYTES) ==> state@.mem[a] == old(state)@.mem[a],
        decreases program_size - offset,
    {
        state.memory[MIN_PROGRAM_ADDRESS + offset] = program[offset];
        offset = offset + 1;
    }

    Ok(())
}

/// Reads the two instruction bytes at the program counter, big endian.
pub fn load_next_instruction(state: &CPUState) -> (instruction: u16)
    requires
        state@.wf(),
        spec_valid_range(state@.pc as int, 2, MemoryUsage::Execute),
    ensures
        instruction == spec_fetch(state@),
{
    let pc = state.pc as usize;
    let byte0 = u32::from(state.memory[pc]);
    let byte1 = u32::from(state.memory[pc + 1]);

    // Load big endian
    let instruction = byte0 << 8 | byte1;

    proof {
        let b0 = state@.mem[state@.pc as int];
        let b1 = state@.mem[state@.pc + 1];
        assert((b0 as u32) << 8u32 | (b1 as u32) == 256 * (b0 as u32) + (b1 as u32))
            by (bit_vector);
    }

    instruction as u16
}

/// Consumes one frame's elapsed time: decays the delay timer at its own
/// rate, applies the sound timer's once-per-frame self-increment, and
/// reports how many instructions are due this frame.
fn update_timers(state: &mut CPUState, execution_counter: &mut u32, delta_time_ms: u32)
    requires
        old(state)@.wf(),
        delta_time_ms < 0xFFFF_FFF0,
    ensures
        final(state)@.wf(),
        final(state)@ == timers_view(old(state)@, delta_time_ms),
        *final(execution_counter) == instr_count(old(state)@, delta_time_ms),
{
    // Update delay timer
    state.delay_timer_accumulator = state.delay_timer_accumulator + delta_time_ms;

    let delay_timer_decrement: u32 = state.delay_timer_accumulator / DELAY_TIMER_PERIOD_MS;
    state.delay_timer = if delay_timer_decrement >= state.delay_timer as u32 {
        0
    } else {
        state.delay_timer - (delay_timer_decrement as u8)
    };

    // Remove accumulated ticks
    state.delay_timer_accumulator = state.delay_timer_accumulator % DELAY_TIMER_PERIOD_MS;

    // Update execution counter
    state.execution_timer_accumulator = state.execution_timer_accumulator + delta_time_ms;

    *execution_counter = state.execution_timer_accumulator / INSTRUCTION_EXECUTION_PERIOD_MS;
    state.execution_timer_accumulator = state.execution_timer_accumulator
        % INSTRUCTION_EXECUTION_PERIOD_MS;

    // The sound timer self-increments while running; audio is delegated to
    // the host.
    if state.sound_timer > 0 {
        state.sound_timer = state.sound_timer.wrapping_add(1);
    }

    proof {
        assert(state@ =~= timers_view(old(state)@, delta_time_ms));
    }
}

/// Decodes and executes one instruction word, then applies the
/// post-execution rule: the program counter advances by two unless the
/// opcode changed its value or the machine is blocked on a key read, and
/// the key-state snapshot is taken. On a fault the machine is unchanged.
pub fn execute_instruction(state: &mut CPUState, instruction: u16) -> (result: Result<
    (),
    Chip8Error,
>)
    requires
        old(state)@.wf(),
    ensures
        final(state)@.wf(),
        match result {
            Ok(()) => {
                &&& spec_decode(instruction) is Some
                &&& op_fault(old(state)@, spec_decode(instruction)->Some_0) is None
                &&& op_step(old(state)@, final(state)@, spec_decode(instruction)->Some_0)
            },
            Err(e) => {
                &&& final(state)@ == old(state)@
                &&& match spec_decode(instruction) {
                    None => e == Chip8Error::UnknownOpcode,
                    Some(op) => op_fault(old(state)@, op) == Some(e),
                }
            },
        },
{
    // Save PC for later
    let pc_save = state.pc;

    // Decode and execute
    let op = match decode_instruction(instruction) {
        Ok(op) => op,
        Err(e) => {
            return Err(e);
        },
    };
    match execute_instruction_internal(state, op) {
        Ok(()) => {},
        Err(e) => {
            return Err(e);
        },
    }

    let ghost mid = state@;

    // Increment PC only if it was NOT overriden by an instruction,
    // or if we are waiting for user input.
    if pc_save == state.pc && !state.is_waiting_for_key {
        state.pc = state.pc.wrapping_add(2);
    }

    // Save previous key state
    state.key_state_prev = state.key_state;

    proof {
        assert(state@ =~= post_rule(old(state)@, mid));
        assert(op_step(old(state)@, state@, op));
    }
    Ok(())
}

/// The driver's per-frame entry point: updates the timers for the elapsed
/// time, then fetches, decodes and executes every instruction due this
/// frame. Stops at the first fault, leaving the machine exactly as the
/// faulting cycle found it.
pub fn execute_step(state: &mut CPUState, delta_time_ms: u32) -> (result: Result<(), Chip8Error>)
    requires
        old(state)@.wf(),
        delta_time_ms < 0xFFFF_FFF0,
    ensures
        final(state)@.wf(),
        ({
            let ticked = timers_view(old(state)@, delta_time_ms);
            let due = instr_count(old(state)@, delta_time_ms);
            match result {
                Ok(()) => machine_run(ticked, final(state)@, due as nat),
                Err(e) => exists|done: nat|
                    done < due && #[trigger] machine_run(ticked, final(state)@, done)
                        && machine_fault(final(state)@) == Some(e),
            }
        }),
{
    let mut instructions_to_execute: u32 = 0;

    update_timers(state, &mut instructions_to_execute, delta_time_ms);

    let ghost ticked = state@;

    let mut executed: u32 = 0;
    while executed < instructions_to_execute
        invariant
            state@.wf(),
            executed <= instructions_to_execute,
            instructions_to_execute == instr_count(old(state)@, delta_time_ms),
            ticked == timers_view(old(state)@, delta_time_ms),
            machine_run(ticked, state@, executed as nat),
        decreases instructions_to_execute - executed,
    {
        if !is_valid_memory_range(state.pc, 2, MemoryUsage::Execute) {
            proof {
                assert(machine_fault(state@) == Some(Chip8Error::InvalidMemoryRange));
            }
            return Err(Chip8Error::InvalidMemoryRange);
        }

        // Simulate logic
        let next_instruction: u16 = load_next_instruction(state);
        let ghost before = state@;
        match execute_instruction(state, next_instruction) {
            Ok(()) => {
                proof {
                    assert(machine_step(before, state@));
                    lemma_run_snoc(ticked, before, state@, executed as nat);
                }
            },
            Err(e) => {
                proof {
                    assert(state@ == before);
                    assert(machine_fault(state@) == Some(e));
                }
                return Err(e);
            },
        }
        executed = executed + 1;
    }

    Ok(())
}

} // verus!
