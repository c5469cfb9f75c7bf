use chip8::cpu::create_chip8_state;
use chip8::cpu::VRegisterName::{V0, V1, V2, V3, V4, V5, V6, V7, V9, VA, VC, VD, VF};
use chip8::cpu::MIN_PROGRAM_ADDRESS;
use chip8::cpu::SCREEN_HEIGHT;
use chip8::cpu::SCREEN_LINE_SIZE_IN_BYTES;
use chip8::execution::execute_instruction;
use chip8::instruction::execute_instruction_internal;
use chip8::keyboard::set_key_pressed;
use chip8::opcode::OpCode;

#[test]
fn instructions() {
    //SUBCASE("CLS")
    {
        let mut state = create_chip8_state();
        state.screen[0][0] = 0b11001100;
        state.screen[SCREEN_HEIGHT - 1][SCREEN_LINE_SIZE_IN_BYTES - 1] = 0b10101010;

        execute_instruction(&mut state, 0x00E0).unwrap();

        assert_eq!(state.screen[0][0], 0x00);
        assert_eq!(state.screen[SCREEN_HEIGHT - 1][SCREEN_LINE_SIZE_IN_BYTES - 1], 0x00);
    }

    //SUBCASE("JP")
    {
        let mut state = create_chip8_state();
        execute_instruction(&mut state, 0x1240).unwrap();

        assert_eq!(state.pc, 0x0240);

        execute_instruction(&mut state, 0x1FFE).unwrap();

        assert_eq!(state.pc, 0x0FFE);
    }

    //SUBCASE("CALL/RET")
    {
        let mut state = create_chip8_state();
        execute_instruction(&mut state, 0x2F00).unwrap();

        assert_eq!(state.sp, 1);
        assert_eq!(state.pc, 0x0F00);

        execute_instruction(&mut state, 0x2A00).unwrap();

        assert_eq!(state.sp, 2);
        assert_eq!(state.pc, 0x0A00);

        execute_instruction(&mut state, 0x00EE).unwrap();

        assert_eq!(state.sp, 1);
        assert_eq!(state.pc, 0x0F02);

        execute_instruction(&mut state, 0x00EE).unwrap();

        assert_eq!(state.sp, 0);
        assert_eq!(state.pc, MIN_PROGRAM_ADDRESS as u16 + 2);
    }

    //SUBCASE("SE")
    {
        let mut state = create_chip8_state();
        execute_instruction(&mut state, 0x3000).unwrap();

        assert_eq!(state.v_registers[V0 as usize], 0);
        assert_eq!(state.pc, MIN_PROGRAM_ADDRESS as u16 + 4);
    }

    //SUBCASE("SNE")
    {
        let mut state = create_chip8_state();
        execute_instruction(&mut state, 0x40FF).unwrap();

        assert_eq!(state.v_registers[V0 as usize], 0);
        assert_eq!(state.pc, MIN_PROGRAM_ADDRESS as u16 + 4);
    }

    //SUBCASE("SE2")
    {
        let mut state = create_chip8_state();
        execute_instruction(&mut state, 0x5120).unwrap();

        assert_eq!(state.v_registers[V0 as usize], 0);
        assert_eq!(state.v_registers[V1 as usize], 0);
        assert_eq!(state.pc, MIN_PROGRAM_ADDRESS as u16 + 4);
    }

    //SUBCASE("LD")
    {
        let mut state = create_chip8_state();
        execute_instruction(&mut state, 0x06042).unwrap();

        assert_eq!(state.v_registers[V0 as usize], 0x42);

        execute_instruction(&mut state, 0x06A33).unwrap();

        assert_eq!(state.v_registers[VA as usize], 0x33);
    }

    //SUBCASE("ADD")
    {
        let mut state = create_chip8_state();
        assert_eq!(state.v_registers[V2 as usize], 0x00);

        execute_instruction(&mut state, 0x7203).unwrap();

        assert_eq!(state.v_registers[V2 as usize], 0x03);

        execute_instruction(&mut state, 0x7204).unwrap();

        assert_eq!(state.v_registers[V2 as usize], 0x07);
    }

    //SUBCASE("LD2")
    {
        let mut state = create_chip8_state();

        state.v_registers[V3 as usize] = 32;

        execute_instruction(&mut state, 0x8030).unwrap();

        assert_eq!(state.v_registers[V0 as usize], 32);
    }

    //SUBCASE("OR")
    {
        let mut state = create_chip8_state();

        state.v_registers[VC as usize] = 0xF0;
        state.v_registers[VD as usize] = 0x0F;

        execute_instruction(&mut state, 0x8CD1).unwrap();

        assert_eq!(state.v_registers[VC as usize], 0xFF);
    }

    //SUBCASE("AND")
    {
        let mut state = create_chip8_state();

        state.v_registers[VC as usize] = 0xF0;
        state.v_registers[VD as usize] = 0x0F;

        execute_instruction(&mut state, 0x8CD2).unwrap();

        assert_eq!(state.v_registers[VC as usize], 0x00);

        state.v_registers[VC as usize] = 0xF0;
        state.v_registers[VD as usize] = 0xFF;

        execute_instruction(&mut state, 0x8CD2).unwrap();

        assert_eq!(state.v_registers[VC as usize], 0xF0);
    }

    //SUBCASE("XOR")
    {
        let mut state = create_chip8_state();

        state.v_registers[VC as usize] = 0x10;
        state.v_registers[VD as usize] = 0x1F;

        execute_instruction(&mut state, 0x8CD3).unwrap();

        assert_eq!(state.v_registers[VC as usize], 0x0F);
    }

    //SUBCASE("ADD2")
    {
        let mut state = create_chip8_state();

        state.v_registers[V0 as usize] = 8;
        state.v_registers[V1 as usize] = 8;

        execute_instruction(&mut state, 0x8014).unwrap();

        assert_eq!(state.v_registers[V0 as usize], 16);
        assert_eq!(state.v_registers[VF as usize], 0);

        state.v_registers[V0 as usize] = 128;
        state.v_registers[V1 as usize] = 130;

        execute_instruction(&mut state, 0x8014).unwrap();

        assert_eq!(state.v_registers[V0 as usize], 2);
        assert_eq!(state.v_registers[VF as usize], 1);
    }

    //SUBCASE("SUB")
    {
        let mut state = create_chip8_state();

        state.v_registers[V0 as usize] = 8;
        state.v_registers[V1 as usize] = 7;

        execute_instruction(&mut state, 0x8015).unwrap();

        assert_eq!(state.v_registers[V0 as usize], 1);
        assert_eq!(state.v_registers[VF as usize], 1);

        state.v_registers[V0 as usize] = 8;
        state.v_registers[V1 as usize] = 9;

        execute_instruction(&mut state, 0x8015).unwrap();

        assert_eq!(state.v_registers[V0 as usize], 255);
        assert_eq!(state.v_registers[VF as usize], 0);
    }

    //SUBCASE("SHR")
    {
        let mut state = create_chip8_state();

        state.v_registers[V0 as usize] = 8;

        execute_instruction(&mut state, 0x8016).unwrap();

        assert_eq!(state.v_registers[V0 as usize], 4);
        assert_eq!(state.v_registers[VF as usize], 0);

        execute_instruction(&mut state, 0x8026).unwrap();

        assert_eq!(state.v_registers[V0 as usize], 2);
        assert_eq!(state.v_registers[VF as usize], 0);

        execute_instruction(&mut state, 0x8026).unwrap();

        assert_eq!(state.v_registers[V0 as usize], 1);
        assert_eq!(state.v_registers[VF as usize], 0);

        execute_instruction(&mut state, 0x8026).unwrap();

        assert_eq!(state.v_registers[V0 as usize], 0);
        assert_eq!(state.v_registers[VF as usize], 1);
    }

    //SUBCASE("SUBN")
    {
        let mut state = create_chip8_state();

        state.v_registers[V0 as usize] = 7;
        state.v_registers[V1 as usize] = 8;

        execute_instruction(&mut state, 0x8017).unwrap();

        assert_eq!(state.v_registers[V0 as usize], 1);
        assert_eq!(state.v_registers[VF as usize], 1);

        state.v_registers[V0 as usize] = 2;
        state.v_registers[V1 as usize] = 1;

        execute_instruction(&mut state, 0x8017).unwrap();

        assert_eq!(state.v_registers[V0 as usize], 255);
        assert_eq!(state.v_registers[VF as usize], 0);
    }

    //SUBCASE("SHL")
    {
        let mut state = create_chip8_state();

        state.v_registers[V0 as usize] = 64;

        execute_instruction(&mut state, 0x801E).unwrap();

        assert_eq!(state.v_registers[V0 as usize], 128);
        assert_eq!(state.v_registers[VF as usize], 0);

        execute_instruction(&mut state, 0x801E).unwrap();

        assert_eq!(state.v_registers[V0 as usize], 0);
        assert_eq!(state.v_registers[VF as usize], 1);
    }

    //SUBCASE("SNE2")
    {
        let mut state = create_chip8_state();

        state.v_registers[V9 as usize] = 64;
        state.v_registers[VA as usize] = 64;

        execute_instruction(&mut state, 0x99A0).unwrap();

        assert_eq!(state.pc, MIN_PROGRAM_ADDRESS as u16 + 2);

        state.v_registers[VA as usize] = 0;
        execute_instruction(&mut state, 0x99A0).unwrap();

        assert_eq!(state.pc, MIN_PROGRAM_ADDRESS as u16 + 6);
    }

    //SUBCASE("LDI")
    {
        let mut state = create_chip8_state();

        execute_instruction(&mut state, 0xA242).unwrap();

        assert_eq!(state.i, 0x0242);
    }

    //SUBCASE("JP2")
    {
        let mut state = create_chip8_state();

        state.v_registers[V0 as usize] = 0x02;

        execute_instruction(&mut state, 0xB240).unwrap();

        assert_eq!(state.pc, 0x0242);
    }

    //SUBCASE("RND")
    {
        let mut state = create_chip8_state();

        execute_instruction(&mut state, 0xC10F).unwrap();

        assert_eq!(state.v_registers[V1 as usize] & !0x0F, 0);

        execute_instruction(&mut state, 0xC1F0).unwrap();

        assert_eq!(state.v_registers[V1 as usize] & !0xF0, 0);
    }

    //SUBCASE("SKP")
    {
        let mut state = create_chip8_state();

        state.v_registers[VA as usize] = 0x0F;
        state.key_state = 0x8000;

        execute_instruction(&mut state, 0xEA9E).unwrap();

        assert_eq!(state.pc, MIN_PROGRAM_ADDRESS as u16 + 4); // Skipped

        execute_instruction(&mut state, 0xEB9E).unwrap();

        assert_eq!(state.pc, MIN_PROGRAM_ADDRESS as u16 + 6); // Did not skip
    }

    //SUBCASE("SKNP")
    {
        let mut state = create_chip8_state();

        state.v_registers[VA as usize] = 0xF;
        state.key_state = 0x8000;

        execute_instruction(&mut state, 0xEBA1).unwrap();

        assert_eq!(state.pc, MIN_PROGRAM_ADDRESS as u16 + 4); // Skipped

        execute_instruction(&mut state, 0xEAA1).unwrap();

        assert_eq!(state.pc, MIN_PROGRAM_ADDRESS as u16 + 6); // Did not skip
    }

    //SUBCASE("LDT")
    {
        let mut state = create_chip8_state();

        state.delay_timer = 42;
        state.v_registers[V4 as usize] = 0;

        execute_instruction(&mut state, 0xF407).unwrap();

        assert_eq!(state.v_registers[V4 as usize], 42);
    }

    //SUBCASE("LDK")
    {
        let mut state = create_chip8_state();

        assert!(!state.is_waiting_for_key);
        assert_eq!(state.v_registers[V1 as usize], 0);

        execute_instruction(&mut state, 0xF10A).unwrap();

        assert!(state.is_waiting_for_key);
        assert_eq!(state.v_registers[V1 as usize], 0);

        set_key_pressed(&mut state, 0xA, true);

        execute_instruction(&mut state, 0xF10A).unwrap();

        assert!(!state.is_waiting_for_key);
        assert_eq!(state.v_registers[V1 as usize], 0xA);
    }

    //SUBCASE("LDDT")
    {
        let mut state = create_chip8_state();

        state.v_registers[V5 as usize] = 66;

        execute_instruction(&mut state, 0xF515).unwrap();

        assert_eq!(state.delay_timer, 66);
    }

    //SUBCASE("LDST")
    {
        let mut state = create_chip8_state();

        state.v_registers[V6 as usize] = 33;

        execute_instruction(&mut state, 0xF618).unwrap();

        assert_eq!(state.sound_timer, 33);
    }

    //SUBCASE("ADDI")
    {
        let mut state = create_chip8_state();

        state.v_registers[V9 as usize] = 10;
        state.i = MIN_PROGRAM_ADDRESS as u16;

        execute_instruction(&mut state, 0xF91E).unwrap();

        assert_eq!(state.i, MIN_PROGRAM_ADDRESS as u16 + 10);
    }

    //SUBCASE("LDF")
    {
        let mut state = create_chip8_state();

        state.v_registers[V0 as usize] = 9;

        execute_instruction(&mut state, 0xF029).unwrap();

        assert_eq!(state.i, state.font_table_offsets[9]);

        state.v_registers[V0 as usize] = 0xF;

        execute_instruction(&mut state, 0xF029).unwrap();

        assert_eq!(state.i, state.font_table_offsets[0xF]);
    }

    //SUBCASE("LDB")
    {
        let mut state = create_chip8_state();

        state.i = MIN_PROGRAM_ADDRESS as u16;
        state.v_registers[V7 as usize] = 109;

        execute_instruction(&mut state, 0xF733).unwrap();

        assert_eq!(state.memory[state.i as usize + 0], 1);
        assert_eq!(state.memory[state.i as usize + 1], 0);
        assert_eq!(state.memory[state.i as usize + 2], 9);

        state.v_registers[V7 as usize] = 255;

        execute_instruction(&mut state, 0xF733).unwrap();

        assert_eq!(state.memory[state.i as usize + 0], 2);
        assert_eq!(state.memory[state.i as usize + 1], 5);
        assert_eq!(state.memory[state.i as usize + 2], 5);
    }

    //SUBCASE("LDAI")
    {
        let mut state = create_chip8_state();

        state.i = MIN_PROGRAM_ADDRESS as u16;
        state.memory[state.i as usize + 0] = 0xF4;
        state.memory[state.i as usize + 1] = 0x33;
        state.memory[state.i as usize + 2] = 0x82;
        state.memory[state.i as usize + 3] = 0x73;

        state.v_registers[V0 as usize] = 0xE4;
        state.v_registers[V1 as usize] = 0x23;
        state.v_registers[V2 as usize] = 0x00;

        execute_instruction_internal(&mut state, OpCode::LDAI { reg: V1 as u8 }).unwrap();

        assert_eq!(state.memory[state.i as usize + 0], 0xE4);
        assert_eq!(state.memory[state.i as usize + 1], 0x23);
        assert_eq!(state.memory[state.i as usize + 2], 0x82);
        assert_eq!(state.memory[state.i as usize + 3], 0x73);
    }

    //SUBCASE("LDM")
    {
        let mut state = create_chip8_state();

        state.i = MIN_PROGRAM_ADDRESS as u16;
        state.v_registers[V0 as usize] = 0xF4;
        state.v_registers[V1 as usize] = 0x33;
        state.v_registers[V2 as usize] = 0x82;
        state.v_registers[V3 as usize] = 0x73;

        state.memory[state.i as usize + 0] = 0xE4;
        state.memory[state.i as usize + 1] = 0x23;
        state.memory[state.i as usize + 2] = 0x00;

        execute_instruction_internal(&mut state, OpCode::LDM { reg: V1 as u8 }).unwrap();

        assert_eq!(state.v_registers[V0 as usize], 0xE4);
        assert_eq!(state.v_registers[V1 as usize], 0x23);
        assert_eq!(state.v_registers[V2 as usize], 0x82);
        assert_eq!(state.v_registers[V3 as usize], 0x73);
    }
}
