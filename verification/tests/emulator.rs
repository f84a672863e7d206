use chip_8::emulator::{Emulator, EmulatorState};
use chip_8::error::EmulatorError;

#[test]
fn new_emulator_is_blank() {
    let ch8 = Emulator::new();
    let state = ch8.get_state();
    assert!(state.is_well_formed());
    assert_eq!(state.pc, 0);
    assert!(state.ram.iter().all(|byte| *byte == 0));
    assert!(state.display.iter().all(|cell| !*cell));
}

#[test]
fn load_places_program_at_512() {
    let program: Vec<u8> = (0..200u32).map(|i| (i * 7 + 1) as u8).collect();
    let mut ch8 = Emulator::new();
    assert_eq!(ch8.load_prog(&program), Ok(()));
    let state = ch8.get_state();
    assert_eq!(state.pc, 512);
    for (i, byte) in program.iter().enumerate() {
        assert_eq!(state.ram[512 + i], *byte);
    }
    assert!(state.ram[..512].iter().all(|byte| *byte == 0));
    assert!(state.ram[712..].iter().all(|byte| *byte == 0));
}

#[test]
fn load_accepts_the_largest_program() {
    let program = vec![0xAAu8; 4096 - 512];
    let mut ch8 = Emulator::new();
    assert_eq!(ch8.load_prog(&program), Ok(()));
    assert_eq!(ch8.get_state().ram[4095], 0xAA);
    assert_eq!(ch8.get_state().ram[511], 0);
    assert_eq!(ch8.get_state().pc, 512);
}

#[test]
fn load_refuses_a_program_that_does_not_fit() {
    let program = vec![0xAAu8; 4096 - 512 + 1];
    let mut ch8 = Emulator::new();
    assert_eq!(ch8.load_prog(&program), Err(EmulatorError::Load));
    assert_eq!(ch8.get_state().pc, 0);
    assert!(ch8.get_state().ram.iter().all(|byte| *byte == 0));
}

#[test]
fn load_of_an_empty_program_only_moves_the_program_counter() {
    let mut ch8 = Emulator::new();
    assert_eq!(ch8.load_prog(&[]), Ok(()));
    assert_eq!(ch8.get_state().pc, 512);
    assert!(ch8.get_state().ram.iter().all(|byte| *byte == 0));
}

#[test]
fn clear_then_jump_returns_to_start() {
    let mut ch8 = Emulator::new();
    ch8.load_prog(&[0x00, 0xE0, 0x12, 0x00]).unwrap();
    assert_eq!(ch8.step(0), Ok(()));
    assert_eq!(ch8.get_state().pc, 514);
    assert_eq!(ch8.step(0), Ok(()));
    let state = ch8.get_state();
    assert_eq!(state.pc, 512);
    assert_eq!(state.display.len(), 2048);
    assert!(state.display.iter().all(|cell| !*cell));
}

#[test]
fn fetch_reads_the_high_byte_first_and_advances() {
    let mut ch8 = Emulator::new();
    ch8.load_prog(&[0x12, 0x4E]).unwrap();
    assert_eq!(ch8.fetch(), Ok(0x124E));
    assert_eq!(ch8.get_state().pc, 514);
}

#[test]
fn fetch_changes_nothing_but_the_program_counter() {
    let mut ch8 = Emulator::new();
    ch8.load_prog(&[0x61, 0x05, 0xA1, 0x23, 0x12, 0x34]).unwrap();
    ch8.step(0).unwrap();
    ch8.step(0).unwrap();
    let before = ch8.get_state().duplicate();
    assert_eq!(ch8.fetch(), Ok(0x1234));
    let after = ch8.get_state();
    assert_eq!(after.pc, before.pc + 2);
    assert_eq!(after.ram, before.ram);
    assert_eq!(after.register_bank, before.register_bank);
    assert_eq!(after.ireg, before.ireg);
    assert_eq!(after.stack, before.stack);
    assert_eq!(after.stack_len, before.stack_len);
    assert_eq!(after.delay_timer, before.delay_timer);
    assert_eq!(after.sound_timer, before.sound_timer);
    assert_eq!(after.display, before.display);
}

#[test]
fn fetch_of_a_zero_opcode_does_not_advance() {
    let mut ch8 = Emulator::new();
    ch8.load_prog(&[0x00, 0x00, 0x12, 0x34]).unwrap();
    assert_eq!(ch8.fetch(), Ok(0));
    assert_eq!(ch8.get_state().pc, 512);
    assert_eq!(ch8.fetch(), Ok(0));
    assert_eq!(ch8.get_state().pc, 512);
}

#[test]
fn fetch_advances_on_an_opcode_that_does_not_decode() {
    let mut ch8 = Emulator::new();
    ch8.load_prog(&[0xF1, 0xFF]).unwrap();
    assert_eq!(ch8.fetch(), Ok(0xF1FF));
    assert_eq!(ch8.get_state().pc, 514);
}

#[test]
fn peek_reads_without_advancing() {
    let mut ch8 = Emulator::new();
    ch8.load_prog(&[0x12, 0x4E]).unwrap();
    assert_eq!(ch8.peek(), Ok(0x124E));
    assert_eq!(ch8.peek(), Ok(0x124E));
    assert_eq!(ch8.get_state().pc, 512);
    let mut state = EmulatorState::new();
    state.pc = 4095;
    ch8.load_state(&state).unwrap();
    assert_eq!(ch8.peek(), Err(EmulatorError::ExecutionFault));
}

#[test]
fn zero_opcode_halts_in_place() {
    let mut ch8 = Emulator::new();
    ch8.load_prog(&[0x61, 0x05]).unwrap();
    assert_eq!(ch8.step(0), Ok(()));
    assert_eq!(ch8.get_state().pc, 514);
    assert_eq!(ch8.get_state().register_bank[1], 5);
    for _ in 0..3 {
        assert_eq!(ch8.step(0xFFFF), Ok(()));
        assert_eq!(ch8.get_state().pc, 514);
    }
}

#[test]
fn halting_does_not_remember_the_keys() {
    let mut ch8 = Emulator::new();
    ch8.load_prog(&[0x00, 0x00]).unwrap();
    assert_eq!(ch8.step(0b100), Ok(()));
    let mut state = ch8.get_state().duplicate();
    state.ram[512] = 0xF1;
    state.ram[513] = 0x0A;
    assert_eq!(ch8.load_state(&state), Ok(()));
    assert_eq!(ch8.step(0b100), Ok(()));
    assert_eq!(ch8.get_state().register_bank[1], 2);
    assert_eq!(ch8.get_state().pc, 514);
}

#[test]
fn unknown_opcode_fails_and_leaves_the_machine() {
    let mut ch8 = Emulator::new();
    ch8.load_prog(&[0x61, 0x05, 0xF1, 0xFF]).unwrap();
    assert_eq!(ch8.step(0), Ok(()));
    assert_eq!(ch8.step(0), Err(EmulatorError::Decode(0xF1FF)));
    assert_eq!(ch8.get_state().pc, 514);
    assert_eq!(ch8.get_state().register_bank[1], 5);
    assert_eq!(ch8.step(0), Err(EmulatorError::Decode(0xF1FF)));
}

#[test]
fn running_off_the_end_of_memory_faults() {
    let mut ch8 = Emulator::new();
    let mut state = EmulatorState::new();
    state.pc = 4094;
    state.ram[4094] = 0x61;
    state.ram[4095] = 0x07;
    assert_eq!(ch8.load_state(&state), Ok(()));
    assert_eq!(ch8.step(0), Ok(()));
    assert_eq!(ch8.get_state().pc, 4096);
    assert_eq!(ch8.get_state().register_bank[1], 7);
    assert_eq!(ch8.fetch(), Err(EmulatorError::ExecutionFault));
    assert_eq!(ch8.step(0), Err(EmulatorError::ExecutionFault));
    assert_eq!(ch8.get_state().pc, 4096);
    state.pc = 4095;
    assert_eq!(ch8.load_state(&state), Ok(()));
    assert_eq!(ch8.step(0), Err(EmulatorError::ExecutionFault));
}

#[test]
fn call_then_return_through_steps() {
    let mut ch8 = Emulator::new();
    ch8.load_prog(&[0x22, 0x04, 0x00, 0x00, 0x00, 0xEE]).unwrap();
    assert_eq!(ch8.step(0), Ok(()));
    assert_eq!(ch8.get_state().pc, 0x204);
    assert_eq!(ch8.get_state().stack_len, 1);
    assert_eq!(ch8.step(0), Ok(()));
    assert_eq!(ch8.get_state().pc, 0x202);
    assert_eq!(ch8.get_state().stack_len, 0);
}

#[test]
fn seventeen_nested_calls_overflow_the_stack() {
    let mut program: Vec<u8> = Vec::new();
    for i in 0..17u16 {
        let target = 0x200 + 2 * (i + 1);
        let opcode = 0x2000 | target;
        program.push((opcode >> 8) as u8);
        program.push((opcode & 0xFF) as u8);
    }
    let mut ch8 = Emulator::new();
    ch8.load_prog(&program).unwrap();
    for depth in 1..=16usize {
        assert_eq!(ch8.step(0), Ok(()));
        assert_eq!(ch8.get_state().stack_len, depth);
    }
    let pc = ch8.get_state().pc;
    assert_eq!(pc, 0x220);
    assert_eq!(ch8.step(0), Err(EmulatorError::StackOverflow));
    assert_eq!(ch8.get_state().stack_len, 16);
    assert_eq!(ch8.get_state().pc, pc);
}

#[test]
fn return_without_call_underflows() {
    let mut ch8 = Emulator::new();
    ch8.load_prog(&[0x00, 0xEE]).unwrap();
    assert_eq!(ch8.step(0), Err(EmulatorError::StackUnderflow));
    assert_eq!(ch8.get_state().pc, 512);
}

#[test]
fn wait_for_key_holds_until_the_keys_change() {
    let mut ch8 = Emulator::new();
    ch8.load_prog(&[0x63, 0x77, 0xF3, 0x0A, 0x12, 0x04]).unwrap();
    assert_eq!(ch8.step(0b0001), Ok(()));
    assert_eq!(ch8.get_state().pc, 514);
    for _ in 0..2 {
        assert_eq!(ch8.step(0b0001), Ok(()));
        assert_eq!(ch8.get_state().pc, 514);
        assert_eq!(ch8.get_state().register_bank[3], 0x77);
    }
    assert_eq!(ch8.step(0b1001), Ok(()));
    assert_eq!(ch8.get_state().pc, 516);
    assert_eq!(ch8.get_state().register_bank[3], 3);
}

#[test]
fn random_instruction_respects_its_mask() {
    let mut ch8 = Emulator::new();
    ch8.load_prog(&[0xC1, 0x0F, 0xC2, 0x00, 0x12, 0x00]).unwrap();
    for _ in 0..50 {
        assert_eq!(ch8.step(0), Ok(()));
        assert_eq!(ch8.step(0), Ok(()));
        assert_eq!(ch8.step(0), Ok(()));
        assert!(ch8.get_state().register_bank[1] <= 0x0F);
        assert_eq!(ch8.get_state().register_bank[2], 0);
        assert_eq!(ch8.get_state().pc, 512);
    }
}

#[test]
fn load_state_replaces_the_machine() {
    let mut ch8 = Emulator::new();
    let mut state = EmulatorState::new();
    state.pc = 0x300;
    state.ireg = 0x123;
    state.register_bank[5] = 55;
    state.display[100] = true;
    assert_eq!(ch8.load_state(&state), Ok(()));
    let loaded = ch8.get_state();
    assert_eq!(loaded.pc, 0x300);
    assert_eq!(loaded.ireg, 0x123);
    assert_eq!(loaded.register_bank, state.register_bank);
    assert_eq!(loaded.display, state.display);
    assert_eq!(loaded.ram, state.ram);
}

#[test]
fn load_state_refuses_a_malformed_state() {
    let mut ch8 = Emulator::new();
    ch8.load_prog(&[1, 2, 3]).unwrap();
    let mut state = EmulatorState::new();
    state.ram.push(0);
    assert_eq!(ch8.load_state(&state), Err(EmulatorError::Load));
    let mut state = EmulatorState::new();
    state.stack_len = 17;
    assert_eq!(ch8.load_state(&state), Err(EmulatorError::Load));
    assert_eq!(ch8.get_state().pc, 512);
    assert_eq!(&ch8.get_state().ram[512..515], &[1, 2, 3]);
}

#[test]
fn get_prog_returns_memory_from_the_load_address() {
    let mut ch8 = Emulator::new();
    ch8.load_prog(&[9, 8, 7]).unwrap();
    let prog = ch8.get_prog();
    assert_eq!(prog.len(), 4096 - 512);
    assert_eq!(&prog[..4], &[9, 8, 7, 0]);
}

#[test]
fn duplicate_copies_every_field() {
    let mut state = EmulatorState::new();
    state.ram[7] = 1;
    state.pc = 2;
    state.ireg = 3;
    state.stack[4] = 5;
    state.stack_len = 6;
    state.delay_timer = 7;
    state.sound_timer = 8;
    state.register_bank[9] = 10;
    state.display[11] = true;
    let copy = state.duplicate();
    assert_eq!(copy.ram, state.ram);
    assert_eq!((copy.pc, copy.ireg), (2, 3));
    assert_eq!(copy.stack, state.stack);
    assert_eq!(copy.stack_len, 6);
    assert_eq!((copy.delay_timer, copy.sound_timer), (7, 8));
    assert_eq!(copy.register_bank, state.register_bank);
    assert_eq!(copy.display, state.display);
}

#[test]
fn step_with_uses_the_given_random_byte() {
    let mut ch8 = Emulator::new();
    ch8.load_prog(&[0xC1, 0x0F, 0xC2, 0xF0]).unwrap();
    assert_eq!(ch8.step_with(0, 0xA5), Ok(()));
    assert_eq!(ch8.get_state().register_bank[1], 0x05);
    assert_eq!(ch8.step_with(0, 0xA5), Ok(()));
    assert_eq!(ch8.get_state().register_bank[2], 0xA0);
    assert_eq!(ch8.get_state().pc, 516);
}

#[test]
fn only_a_random_instruction_draws() {
    let mut ch8 = Emulator::new();
    assert!(!ch8.draws_random_next());
    ch8.load_prog(&[0xC1, 0x0F, 0x00, 0xE0, 0xF1, 0xFF]).unwrap();
    assert!(ch8.draws_random_next());
    ch8.step(0).unwrap();
    assert!(!ch8.draws_random_next());
    ch8.step(0).unwrap();
    assert!(!ch8.draws_random_next());
    let mut state = EmulatorState::new();
    state.pc = 4095;
    ch8.load_state(&state).unwrap();
    assert!(!ch8.draws_random_next());
}

#[test]
fn step_with_ignores_the_byte_for_other_instructions() {
    let mut a = Emulator::new();
    let mut b = Emulator::new();
    let program = [0x61, 0x07, 0x71, 0xFF, 0x81, 0x14, 0xA3, 0x00, 0xF1, 0x33];
    a.load_prog(&program).unwrap();
    b.load_prog(&program).unwrap();
    for _ in 0..5 {
        assert_eq!(a.step_with(0, 0x00), Ok(()));
        assert_eq!(b.step_with(0, 0xFF), Ok(()));
    }
    assert_eq!(a.get_state().register_bank, b.get_state().register_bank);
    assert_eq!(a.get_state().ram, b.get_state().ram);
    assert_eq!(a.get_state().pc, 522);
    assert_eq!(a.get_state().register_bank[1], 12);
    assert_eq!(a.get_state().register_bank[15], 0);
    assert_eq!(&a.get_state().ram[0x300..0x303], &[0, 1, 2]);
}
