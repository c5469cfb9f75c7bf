use vstd::prelude::*;

verus! {

pub const V_REGISTER_COUNT: usize = 16;
pub const STACK_SIZE: usize = 16;
pub const MEMORY_SIZE_IN_BYTES: usize = 0x1000;

// Display
pub const SCREEN_WIDTH: usize = 64;
pub const SCREEN_HEIGHT: usize = 32;
pub const SCREEN_LINE_SIZE_IN_BYTES: usize = SCREEN_WIDTH / 8;

// Memory
pub const MIN_PROGRAM_ADDRESS: usize = 0x0200;
pub const MAX_PROGRAM_ADDRESS: usize = 0x0FFF;

// Timings
pub const DELAY_TIMER_FREQUENCY: u32 = 60;
pub const DELAY_TIMER_PERIOD_MS: u32 = 1000 / DELAY_TIMER_FREQUENCY;
pub const INSTRUCTION_EXECUTION_FREQUENCY: u32 = 500;
pub const INSTRUCTION_EXECUTION_PERIOD_MS: u32 = 1000 / INSTRUCTION_EXECUTION_FREQUENCY;

// Fonts
pub const FONT_TABLE_GLYPH_COUNT: usize = 16;
pub const GLYPH_SIZE_IN_BYTES: usize = 5;

#[allow(dead_code)]
pub enum VRegisterName {
    V0, V1, V2, V3,
    V4, V5, V6, V7,
    V8, V9, VA, VB,
    VC, VD, VE, VF,
}

/// The machine as the contracts see it: every register, timer, buffer and
/// flag of the interpreter, with sequences in place of the executable
/// containers.
#[verifier::ext_equal]
pub ghost struct MachineView {
    pub pc: u16,
    pub sp: u8,
    pub stack: Seq<u16>,
    pub regs: Seq<u8>,
    pub index: u16,
    pub delay_timer: u8,
    pub sound_timer: u8,
    pub delay_acc: u32,
    pub exec_acc: u32,
    pub mem: Seq<u8>,
    pub keys: u16,
    pub keys_prev: u16,
    pub waiting: bool,
    pub fonts: Seq<u16>,
    pub screen: Seq<Seq<u8>>,
}

impl MachineView {
    /// Structural well-formedness: the sizes every component relies on, the
    /// stack pointer inside its slots, and the two sub-tick remainders below
    /// one period each.
    pub open spec fn wf(self) -> bool {
        &&& self.stack.len() == STACK_SIZE
        &&& self.regs.len() == V_REGISTER_COUNT
        &&& self.fonts.len() == FONT_TABLE_GLYPH_COUNT
        &&& self.mem.len() == MEMORY_SIZE_IN_BYTES
        &&& self.screen.len() == SCREEN_HEIGHT
        &&& (forall|y: int| 0 <= y < SCREEN_HEIGHT ==> (#[trigger] self.screen[y]).len()
            == SCREEN_LINE_SIZE_IN_BYTES)
        &&& self.sp < STACK_SIZE
        &&& self.delay_acc < DELAY_TIMER_PERIOD_MS
        &&& self.exec_acc < INSTRUCTION_EXECUTION_PERIOD_MS
    }
}

pub struct CPUState {
    pub pc: u16,
    pub sp: u8,
    pub stack: [u16; 16],
    pub v_registers: [u8; 16],
    pub i: u16,

    pub delay_timer: u8,
    pub sound_timer: u8,

    // Implementation detail
    pub delay_timer_accumulator: u32,
    pub execution_timer_accumulator: u32,

    pub memory: Vec<u8>,

    pub key_state: u16,

    pub key_state_prev: u16,
    pub is_waiting_for_key: bool,

    pub font_table_offsets: [u16; 16],
    pub screen: Vec<Vec<u8>>,
}

impl View for CPUState {
    type V = MachineView;

    open spec fn view(&self) -> MachineView {
        MachineView {
            pc: self.pc,
            sp: self.sp,
            stack: self.stack@,
            regs: self.v_registers@,
            index: self.i,
            delay_timer: self.delay_timer,
            sound_timer: self.sound_timer,
            delay_acc: self.delay_timer_accumulator,
            exec_acc: self.execution_timer_accumulator,
            mem: self.memory@,
            keys: self.key_state,
            keys_prev: self.key_state_prev,
            waiting: self.is_waiting_for_key,
            fonts: self.font_table_offsets@,
            screen: Seq::new(self.screen@.len(), |y: int| self.screen@[y]@),
        }
    }
}

/// The interpreter-supplied sprite rows for the sixteen hexadecimal digits,
/// five bytes per digit.
pub open spec fn glyph_data() -> Seq<u8> {
    seq![
        0xF0u8, 0x90, 0x90, 0x90, 0xF0, // 0
        0x20, 0x60, 0x20, 0x20, 0x70, // 1
        0xF0, 0x10, 0xF0, 0x80, 0xF0, // 2
        0xF0, 0x10, 0xF0, 0x10, 0xF0, // 3
        0x90, 0x90, 0xF0, 0x10, 0x10, // 4
        0xF0, 0x80, 0xF0, 0x10, 0xF0, // 5
        0xF0, 0x80, 0xF0, 0x90, 0xF0, // 6
        0xF0, 0x10, 0x20, 0x40, 0x40, // 7
        0xF0, 0x90, 0xF0, 0x90, 0xF0, // 8
        0xF0, 0x90, 0xF0, 0x10, 0xF0, // 9
        0xF0, 0x90, 0xF0, 0x90, 0x90, // A
        0xE0, 0x90, 0xE0, 0x90, 0xE0, // B
        0xF0, 0x80, 0x80, 0x80, 0xF0, // C
        0xE0, 0x90, 0x90, 0x90, 0xE0, // D
        0xF0, 0x80, 0xF0, 0x80, 0xF0, // E
        0xF0, 0x80, 0xF0, 0x80, 0x80, // F
    ]
}

/// The machine exactly as it leaves the constructor: cleared registers and
/// surfaces, the glyph table in reserved memory, and the program counter on
/// the first program address.
pub open spec fn init_view() -> MachineView {
    MachineView {
        pc: MIN_PROGRAM_ADDRESS as u16,
        sp: 0,
        stack: Seq::new(STACK_SIZE as nat, |s: int| 0u16),
        regs: Seq::new(V_REGISTER_COUNT as nat, |r: int| 0u8),
        index: 0,
        delay_timer: 0,
        sound_timer: 0,
        delay_acc: 0,
        exec_acc: 0,
        mem: Seq::new(
            MEMORY_SIZE_IN_BYTES as nat,
            |a: int| if a < 80 { glyph_data()[a] } else { 0u8 },
        ),
        keys: 0,
        keys_prev: 0,
        waiting: false,
        fonts: Seq::new(FONT_TABLE_GLYPH_COUNT as nat, |d: int| (5 * d) as u16),
        screen: Seq::new(
            SCREEN_HEIGHT as nat,
            |y: int| Seq::new(SCREEN_LINE_SIZE_IN_BYTES as nat, |b: int| 0u8),
        ),
    }
}

/// The sprite rows of `glyph_data`, as an executable table.
fn glyph_table() -> (table: Vec<u8>)
    ensures
        table@ == glyph_data(),
{
    let table: Vec<u8> = vec![
        0xF0u8, 0x90, 0x90, 0x90, 0xF0, // 0
        0x20, 0x60, 0x20, 0x20, 0x70, // 1
        0xF0, 0x10, 0xF0, 0x80, 0xF0, // 2
        0xF0, 0x10, 0xF0, 0x10, 0xF0, // 3
        0x90, 0x90, 0xF0, 0x10, 0x10, // 4
        0xF0, 0x80, 0xF0, 0x10, 0xF0, // 5
        0xF0, 0x80, 0xF0, 0x90, 0xF0, // 6
        0xF0, 0x10, 0x20, 0x40, 0x40, // 7
        0xF0, 0x90, 0xF0, 0x90, 0xF0, // 8
        0xF0, 0x90, 0xF0, 0x10, 0xF0, // 9
        0xF0, 0x90, 0xF0, 0x90, 0x90, // A
        0xE0, 0x90, 0xE0, 0x90, 0xE0, // B
        0xF0, 0x80, 0x80, 0x80, 0xF0, // C
        0xE0, 0x90, 0x90, 0x90, 0xE0, // D
        0xF0, 0x80, 0xF0, 0x80, 0xF0, // E
        0xF0, 0x80, 0xF0, 0x80, 0x80, // F
    ];
    table
}

/// Copies the glyph table into reserved memory and records each digit's
/// sprite address.
fn load_font_table(state: &mut CPUState)
    requires
        old(state)@.mem.len() == MEMORY_SIZE_IN_BYTES,
    ensures
        final(state)@.mem.len() == MEMORY_SIZE_IN_BYTES,
        forall|a: int| 0 <= a < 80 ==> final(state)@.mem[a] == glyph_data()[a],
        forall|a: int| 80 <= a < MEMORY_SIZE_IN_BYTES ==> final(state)@.mem[a]
            == old(state)@.mem[a],
        final(state)@.fonts == Seq::new(FONT_TABLE_GLYPH_COUNT as nat, |d: int| (5 * d) as u16),
        final(state)@ == (MachineView {
            mem: final(state)@.mem,
            fonts: final(state)@.fonts,
            ..old(state)@
        }),
{
    let table = glyph_table();
    let table_size = FONT_TABLE_GLYPH_COUNT * GLYPH_SIZE_IN_BYTES;

    let mut pos: usize = 0;
    while pos < table_size
        invariant
            pos <= table_size,
            table_size == 80,
            table@ == glyph_data(),
            state@.mem.len() == MEMORY_SIZE_IN_BYTES,
            forall|a: int| 0 <= a < pos ==> state@.mem[a] == glyph_data()[a],
            forall|a: int| pos <= a < MEMORY_SIZE_IN_BYTES ==> state@.mem[a] == old(state)@.mem[a],
            state@ == (MachineView { mem: state@.mem, ..old(state)@ }),
        decreases table_size - pos,
    {
        state.memory[pos] = table[pos];
        pos = pos + 1;
    }

    let mut table_index: usize = 0;
    while table_index < FONT_TABLE_GLYPH_COUNT
        invariant
            table_index <= FONT_TABLE_GLYPH_COUNT,
            state@.mem.len() == MEMORY_SIZE_IN_BYTES,
            forall|a: int| 0 <= a < 80 ==> state@.mem[a] == glyph_data()[a],
            forall|a: int| 80 <= a < MEMORY_SIZE_IN_BYTES ==> state@.mem[a] == old(state)@.mem[a],
            forall|d: int| 0 <= d < table_index ==> state@.fonts[d] == 5 * d,
            state@ == (MachineView { mem: state@.mem, fonts: state@.fonts, ..old(state)@ }),
        decreases FONT_TABLE_GLYPH_COUNT - table_index,
    {
        state.font_table_offsets[table_index] = (GLYPH_SIZE_IN_BYTES * table_index) as u16;
        table_index = table_index + 1;
    }

    proof {
        assert(state@.fonts =~= Seq::new(FONT_TABLE_GLYPH_COUNT as nat, |d: int| (5 * d) as u16));
    }
}

/// A freshly initialised machine: zeroed memory and display, the glyph
/// table loaded at address zero, and the program counter at the first
/// program address.
pub fn create_chip8_state() -> (state: CPUState)
    ensures
        state@ == init_view(),
        state@.wf(),
{
    let mut memory: Vec<u8> = Vec::new();
    while memory.len() < MEMORY_SIZE_IN_BYTES
        invariant
            memory@.len() <= MEMORY_SIZE_IN_BYTES,
            forall|a: int| 0 <= a < memory@.len() ==> memory@[a] == 0u8,
        decreases MEMORY_SIZE_IN_BYTES - memory@.len(),
    {
        memory.push(0);
    }

    let mut screen: Vec<Vec<u8>> = Vec::new();
    while screen.len() < SCREEN_HEIGHT
        invariant
            screen@.len() <= SCREEN_HEIGHT,
            forall|y: int| 0 <= y < screen@.len() ==> (#[trigger] screen@[y])@ =~= Seq::new(
                SCREEN_LINE_SIZE_IN_BYTES as nat,
                |b: int| 0u8,
            ),
        decreases SCREEN_HEIGHT - screen@.len(),
    {
        let mut line: Vec<u8> = Vec::new();
        while line.len() < SCREEN_LINE_SIZE_IN_BYTES
            invariant
                line@.len() <= SCREEN_LINE_SIZE_IN_BYTES,
                forall|b: int| 0 <= b < line@.len() ==> line@[b] == 0u8,
            decreases SCREEN_LINE_SIZE_IN_BYTES - line@.len(),
        {
            line.push(0);
        }
        proof {
            assert(line@ =~= Seq::new(SCREEN_LINE_SIZE_IN_BYTES as nat, |b: int| 0u8));
        }
        screen.push(line);
    }

    let mut state = CPUState {
        pc: MIN_PROGRAM_ADDRESS as u16,
        sp: 0,
        stack: [0u16; 16],
        v_registers: [0u8; 16],
        i: 0,
        delay_timer: 0,
        sound_timer: 0,
        delay_timer_accumulator: 0,
        execution_timer_accumulator: 0,
        memory,
        key_state: 0,
        key_state_prev: 0,
        is_waiting_for_key: false,
        font_table_offsets: [0u16; 16],
        screen,
    };

    load_font_table(&mut state);

    proof {
        assert(state@.stack =~= init_view().stack);
        assert(state@.regs =~= init_view().regs);
        assert(state@.mem =~= init_view().mem);
        assert(state@.screen =~= init_view().screen);
        assert(state@ =~= init_view());
    }

    state
}

} // verus!
