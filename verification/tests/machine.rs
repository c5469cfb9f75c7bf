use chip8::cpu::create_chip8_state;
use chip8::display::read_screen_pixel;
use chip8::error::Chip8Error;
use chip8::execution::execute_instruction;
use chip8::execution::execute_step;
use chip8::execution::load_next_instruction;
use chip8::execution::load_program;
use chip8::keyboard::get_key_pressed;
use chip8::keyboard::is_key_pressed;
use chip8::keyboard::set_key_pressed;
use chip8::memory::is_valid_memory_range;
use chip8::memory::MemoryUsage;

#[test]
fn fresh_state_layout() {
    let state = create_chip8_state();

    assert_eq!(state.pc, 0x200);
    assert_eq!(state.sp, 0);
    assert_eq!(state.i, 0);
    assert_eq!(state.memory.len(), 0x1000);
    assert_eq!(state.screen.len(), 32);
    assert_eq!(state.screen[0].len(), 8);

    // The glyph table for digit 0 sits at address 0, five bytes per digit.
    assert_eq!(&state.memory[0..5], &[0xF0, 0x90, 0x90, 0x90, 0xF0]);
    assert_eq!(&state.memory[75..80], &[0xF0, 0x80, 0xF0, 0x80, 0x80]);
    for digit in 0..16 {
        assert_eq!(state.font_table_offsets[digit], (5 * digit) as u16);
    }
    // Program memory starts zeroed.
    assert!(state.memory[0x200..].iter().all(|&b| b == 0));
}

#[test]
fn load_program_writes_program_memory() {
    let mut state = create_chip8_state();
    load_program(&mut state, vec![0x12, 0x34, 0x56, 0x78]).unwrap();

    assert_eq!(state.memory[0x200], 0x12);
    assert_eq!(state.memory[0x201], 0x34);
    assert_eq!(state.memory[0x202], 0x56);
    assert_eq!(state.memory[0x203], 0x78);
    assert_eq!(state.memory[0x204], 0x00);
    assert_eq!(load_next_instruction(&state), 0x1234);
}

#[test]
fn load_program_rejects_bad_buffers() {
    let mut state = create_chip8_state();
    assert_eq!(load_program(&mut state, vec![0x12]), Err(Chip8Error::OddProgramSize));
    assert_eq!(load_program(&mut state, vec![]), Err(Chip8Error::InvalidRangeSize));
    assert_eq!(load_program(&mut state, vec![0; 0xE02]), Err(Chip8Error::InvalidMemoryRange));
    // The largest even buffer that fits is accepted.
    assert_eq!(load_program(&mut state, vec![0; 0xE00]), Ok(()));
}

#[test]
fn single_step_reproduces_documented_add2_effects() {
    // LD V0, 128; LD V1, 130; ADD2 V0, V1
    let mut state = create_chip8_state();
    load_program(&mut state, vec![0x60, 0x80, 0x61, 0x82, 0x80, 0x14]).unwrap();

    // Two milliseconds hold exactly one 500 Hz instruction period.
    execute_step(&mut state, 2).unwrap();
    assert_eq!(state.v_registers[0], 128);
    assert_eq!(state.pc, 0x202);

    execute_step(&mut state, 2).unwrap();
    assert_eq!(state.v_registers[1], 130);

    execute_step(&mut state, 2).unwrap();
    assert_eq!(state.v_registers[0], 2);
    assert_eq!(state.v_registers[0xF], 1);
    assert_eq!(state.pc, 0x206);
}

#[test]
fn single_step_reproduces_documented_add2_no_carry() {
    // LD V0, 8; LD V1, 8; ADD2 V0, V1
    let mut state = create_chip8_state();
    load_program(&mut state, vec![0x60, 0x08, 0x61, 0x08, 0x80, 0x14]).unwrap();

    execute_step(&mut state, 2).unwrap();
    execute_step(&mut state, 2).unwrap();
    execute_step(&mut state, 2).unwrap();

    assert_eq!(state.v_registers[0], 16);
    assert_eq!(state.v_registers[0xF], 0);
}

#[test]
fn sub_tick_delta_executes_nothing() {
    let mut state = create_chip8_state();
    load_program(&mut state, vec![0x60, 0x07]).unwrap();

    // One millisecond is below the 2 ms instruction period: nothing runs,
    // the remainder is carried.
    execute_step(&mut state, 1).unwrap();
    assert_eq!(state.pc, 0x200);
    assert_eq!(state.v_registers[0], 0);
    assert_eq!(state.execution_timer_accumulator, 1);

    // The carried remainder plus one more millisecond make one instruction.
    execute_step(&mut state, 1).unwrap();
    assert_eq!(state.pc, 0x202);
    assert_eq!(state.v_registers[0], 7);
    assert_eq!(state.execution_timer_accumulator, 0);
}

#[test]
fn delay_timer_decays_at_sixty_hertz() {
    let mut state = create_chip8_state();
    state.delay_timer = 60;

    // Sixty frames of 16 ms each decay a fresh 60-count timer to zero, one
    // count per frame, without the accumulator ever holding a full period.
    for frame in 0..60 {
        execute_step(&mut state, 16).unwrap();
        assert!(state.delay_timer_accumulator < 16);
        assert_eq!(state.delay_timer, 60 - 1 - frame);
    }
    assert_eq!(state.delay_timer, 0);

    // A decayed timer stays at zero.
    execute_step(&mut state, 16).unwrap();
    assert_eq!(state.delay_timer, 0);
}

#[test]
fn delay_timer_consumes_several_periods_at_once() {
    let mut state = create_chip8_state();
    state.delay_timer = 10;

    // 48 ms hold three full 16 ms periods.
    execute_step(&mut state, 48).unwrap();
    assert_eq!(state.delay_timer, 7);
    assert_eq!(state.delay_timer_accumulator, 0);
}

#[test]
fn sound_timer_self_increments_while_running() {
    let mut state = create_chip8_state();
    state.sound_timer = 5;

    execute_step(&mut state, 2).unwrap();
    assert_eq!(state.sound_timer, 6);

    state.sound_timer = 0;
    execute_step(&mut state, 2).unwrap();
    assert_eq!(state.sound_timer, 0);

    // The self-increment wraps at the top of the eight-bit counter.
    state.sound_timer = 255;
    execute_step(&mut state, 2).unwrap();
    assert_eq!(state.sound_timer, 0);
}

#[test]
fn ldk_blocks_pc_until_new_key_edge() {
    let mut state = create_chip8_state();
    // LDK V0
    load_program(&mut state, vec![0xF0, 0x0A]).unwrap();

    execute_step(&mut state, 2).unwrap();
    assert!(state.is_waiting_for_key);
    assert_eq!(state.pc, 0x200);

    // No new key: the machine keeps re-executing the blocked read.
    execute_step(&mut state, 2).unwrap();
    assert!(state.is_waiting_for_key);
    assert_eq!(state.pc, 0x200);

    // A key held down before blocking counts only through its 0 -> 1 edge;
    // pressing two keys at once stores the lowest-numbered one.
    set_key_pressed(&mut state, 0xC, true);
    set_key_pressed(&mut state, 0x5, true);
    execute_step(&mut state, 2).unwrap();
    assert!(!state.is_waiting_for_key);
    assert_eq!(state.v_registers[0], 0x5);
    assert_eq!(state.pc, 0x202);
}

#[test]
fn ldk_ignores_keys_already_held() {
    let mut state = create_chip8_state();
    load_program(&mut state, vec![0xF0, 0x0A]).unwrap();

    // The key goes down before the read blocks, and its state is already
    // snapshotted: no 0 -> 1 edge is seen afterwards.
    set_key_pressed(&mut state, 0x3, true);
    execute_step(&mut state, 2).unwrap();
    assert!(state.is_waiting_for_key);

    execute_step(&mut state, 2).unwrap();
    assert!(state.is_waiting_for_key);
    assert_eq!(state.pc, 0x200);

    // Releasing and pressing again makes the edge.
    set_key_pressed(&mut state, 0x3, false);
    execute_step(&mut state, 2).unwrap();
    assert!(state.is_waiting_for_key);
    set_key_pressed(&mut state, 0x3, true);
    execute_step(&mut state, 2).unwrap();
    assert!(!state.is_waiting_for_key);
    assert_eq!(state.v_registers[0], 0x3);
}

#[test]
fn drw_draws_glyph_and_reports_collisions() {
    let mut state = create_chip8_state();

    // I <- sprite of digit 0; draw it at (V0, V1) = (0, 0), 5 rows.
    execute_instruction(&mut state, 0xF029).unwrap();
    assert_eq!(state.i, 0);
    execute_instruction(&mut state, 0xD015).unwrap();

    // Top row of the 0 glyph is 0xF0: the four leftmost pixels lit.
    assert!(read_screen_pixel(&state, 0, 0));
    assert!(read_screen_pixel(&state, 1, 0));
    assert!(read_screen_pixel(&state, 2, 0));
    assert!(read_screen_pixel(&state, 3, 0));
    assert!(!read_screen_pixel(&state, 4, 0));
    // Second row is 0x90: only the outer two of the four columns.
    assert!(read_screen_pixel(&state, 0, 1));
    assert!(!read_screen_pixel(&state, 1, 1));
    assert!(!read_screen_pixel(&state, 2, 1));
    assert!(read_screen_pixel(&state, 3, 1));
    // Nothing was erased on a blank screen.
    assert_eq!(state.v_registers[0xF], 0);

    // Drawing the same sprite again erases every pixel it lit.
    execute_instruction(&mut state, 0xD015).unwrap();
    assert_eq!(state.v_registers[0xF], 1);
    assert!(!read_screen_pixel(&state, 0, 0));
    assert!(!read_screen_pixel(&state, 3, 1));
}

#[test]
fn drw_wraps_coordinates_on_both_axes() {
    let mut state = create_chip8_state();

    state.v_registers[0] = 62;
    state.v_registers[1] = 30;
    // I stays 0: the digit-0 sprite. Draw at (62, 30): it wraps to the
    // left edge and the top edge.
    execute_instruction(&mut state, 0xD015).unwrap();
    assert_eq!(state.v_registers[0xF], 0);

    // Top row 0xF0 at y = 30, columns 62, 63, 0, 1.
    assert!(read_screen_pixel(&state, 62, 30));
    assert!(read_screen_pixel(&state, 63, 30));
    assert!(read_screen_pixel(&state, 0, 30));
    assert!(read_screen_pixel(&state, 1, 30));
    assert!(!read_screen_pixel(&state, 2, 30));
    // Third row 0x90 wraps to y = 0, columns 62 and 1 lit.
    assert!(read_screen_pixel(&state, 62, 0));
    assert!(!read_screen_pixel(&state, 63, 0));
    assert!(read_screen_pixel(&state, 1, 0));

    // The overlapping redraw erases and reports the collision.
    execute_instruction(&mut state, 0xD015).unwrap();
    assert_eq!(state.v_registers[0xF], 1);
    assert!(!read_screen_pixel(&state, 62, 30));
}

#[test]
fn address_validator_rejects_out_of_range_uses() {
    // Reads may cover the whole space, writes and execution only program
    // memory.
    assert!(is_valid_memory_range(0x000, 1, MemoryUsage::Read));
    assert!(is_valid_memory_range(0x000, 0x1000, MemoryUsage::Read));
    assert!(!is_valid_memory_range(0x000, 0x1001, MemoryUsage::Read));
    assert!(!is_valid_memory_range(0x1FF, 1, MemoryUsage::Write));
    assert!(is_valid_memory_range(0x200, 1, MemoryUsage::Write));
    assert!(is_valid_memory_range(0x200, 0xE00, MemoryUsage::Write));
    assert!(!is_valid_memory_range(0x200, 0xE01, MemoryUsage::Write));
    assert!(is_valid_memory_range(0xFFE, 2, MemoryUsage::Execute));
    assert!(!is_valid_memory_range(0xFFF, 2, MemoryUsage::Execute));

    // An end address beyond the sixteen-bit space is rejected for every
    // usage.
    assert!(!is_valid_memory_range(0xFFFF, 2, MemoryUsage::Read));
    assert!(!is_valid_memory_range(0x8000, 0x9000, MemoryUsage::Read));
    assert!(!is_valid_memory_range(0x0001, usize::MAX, MemoryUsage::Write));
}

#[test]
fn keyboard_mask_bookkeeping() {
    let mut state = create_chip8_state();

    set_key_pressed(&mut state, 0x4, true);
    set_key_pressed(&mut state, 0xF, true);
    assert!(is_key_pressed(&state, 0x4));
    assert!(is_key_pressed(&state, 0xF));
    assert!(!is_key_pressed(&state, 0x0));
    assert_eq!(state.key_state, (1 << 0x4) | (1 << 0xF));

    set_key_pressed(&mut state, 0x4, false);
    assert!(!is_key_pressed(&state, 0x4));
    assert!(is_key_pressed(&state, 0xF));
}

#[test]
fn get_key_pressed_picks_lowest() {
    assert_eq!(get_key_pressed(0b0000_0000_0000_0001), 0);
    assert_eq!(get_key_pressed(0b0101_0000), 4);
    assert_eq!(get_key_pressed(0x8000), 15);
    assert_eq!(get_key_pressed(0xFFFF), 0);
}

#[test]
fn faults_surface_as_typed_errors() {
    // A word outside the opcode table.
    let mut state = create_chip8_state();
    assert_eq!(execute_instruction(&mut state, 0x8008), Err(Chip8Error::UnknownOpcode));

    // RET on an empty stack.
    let mut state = create_chip8_state();
    assert_eq!(execute_instruction(&mut state, 0x00EE), Err(Chip8Error::StackUnderflow));

    // The sixteenth nested CALL finds no free slot.
    let mut state = create_chip8_state();
    for _ in 0..15 {
        execute_instruction(&mut state, 0x2300).unwrap();
    }
    assert_eq!(execute_instruction(&mut state, 0x2300), Err(Chip8Error::StackOverflow));

    // A jump to an odd address.
    let mut state = create_chip8_state();
    assert_eq!(execute_instruction(&mut state, 0x1241), Err(Chip8Error::MisalignedAddress));

    // A jump below program memory.
    let mut state = create_chip8_state();
    assert_eq!(execute_instruction(&mut state, 0x1100), Err(Chip8Error::InvalidMemoryRange));

    // A zero-row sprite.
    let mut state = create_chip8_state();
    assert_eq!(execute_instruction(&mut state, 0xD120), Err(Chip8Error::InvalidRangeSize));

    // A glyph request above 0xF.
    let mut state = create_chip8_state();
    state.v_registers[0] = 16;
    assert_eq!(execute_instruction(&mut state, 0xF029), Err(Chip8Error::InvalidGlyphIndex));

    // A key test above 0xF.
    let mut state = create_chip8_state();
    state.v_registers[0xA] = 16;
    assert_eq!(execute_instruction(&mut state, 0xEA9E), Err(Chip8Error::InvalidKey));

    // An index-register overflow.
    let mut state = create_chip8_state();
    state.i = 0xFFFF;
    state.v_registers[0] = 1;
    assert_eq!(execute_instruction(&mut state, 0xF01E), Err(Chip8Error::AddressOverflow));

    // A skip too close to the top of memory to hold its successor pair.
    let mut state = create_chip8_state();
    state.pc = 0xFFC;
    assert_eq!(execute_instruction(&mut state, 0x3000), Err(Chip8Error::InvalidMemoryRange));

    // A faulting instruction leaves the machine untouched.
    let mut state = create_chip8_state();
    state.v_registers[0] = 7;
    let _ = execute_instruction(&mut state, 0x1241);
    assert_eq!(state.pc, 0x200);
    assert_eq!(state.v_registers[0], 7);
}

#[test]
fn sys_is_a_no_op_besides_advancing_pc() {
    let mut state = create_chip8_state();
    execute_instruction(&mut state, 0x0300).unwrap();

    assert_eq!(state.pc, 0x202);
    assert_eq!(state.sp, 0);
    assert!(state.v_registers.iter().all(|&v| v == 0));
}

#[test]
fn skips_fall_through_when_their_test_fails() {
    let mut state = create_chip8_state();
    // SE V0, 0xFF with V0 = 0: no skip, plain advance.
    execute_instruction(&mut state, 0x30FF).unwrap();
    assert_eq!(state.pc, 0x202);

    // SNE V0, 0x00 with V0 = 0: values equal, no skip.
    execute_instruction(&mut state, 0x4000).unwrap();
    assert_eq!(state.pc, 0x204);
}

#[test]
fn jp2_faults_on_an_odd_target() {
    let mut state = create_chip8_state();
    state.v_registers[0] = 0x01;
    assert_eq!(execute_instruction(&mut state, 0xB240), Err(Chip8Error::MisalignedAddress));
    assert_eq!(state.pc, 0x200);
}

#[test]
fn step_stops_at_the_first_fault() {
    let mut state = create_chip8_state();
    // LD V0, 1 then an unknown word.
    load_program(&mut state, vec![0x60, 0x01, 0x80, 0x08]).unwrap();

    // Four milliseconds owe two instructions; the second faults.
    assert_eq!(execute_step(&mut state, 4), Err(Chip8Error::UnknownOpcode));
    assert_eq!(state.v_registers[0], 1);
    assert_eq!(state.pc, 0x202);
}
