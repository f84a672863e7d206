use chip_8::emulator::EmulatorState;
use chip_8::error::EmulatorError;
use chip_8::file_io::{read_program, read_state, write_program, write_state};

#[test]
fn test_read_program() {
    let mut file = vec![0u8; 478];
    file[..4].copy_from_slice(&[0x12, 0x4E, 0xEA, 0xAC]);
    file[474..].copy_from_slice(&[0x12, 0x48, 0x13, 0xDC]);
    let prog = read_program(&file).unwrap();
    assert_eq!(prog.len(), 478);

    assert_eq!(prog[0], 0x12);
    assert_eq!(prog[1], 0x4E);
    assert_eq!(prog[2], 0xEA);
    assert_eq!(prog[3], 0xAC);

    assert_eq!(prog[prog.len() - 4], 0x12);
    assert_eq!(prog[prog.len() - 3], 0x48);
    assert_eq!(prog[prog.len() - 2], 0x13);
    assert_eq!(prog[prog.len() - 1], 0xDC);
}

#[test]
fn program_file_is_the_program() {
    let program = vec![0x00, 0xE0, 0x12, 0x00];
    let file = write_program(&program).unwrap();
    assert_eq!(file, program);
    assert_eq!(read_program(&file).unwrap(), program);
}

#[test]
fn written_programs_are_bounded_by_memory() {
    let fits = vec![1u8; 3584];
    let long = vec![1u8; 3585];
    assert_eq!(write_program(&fits).unwrap().len(), 3584);
    assert_eq!(write_program(&long), Err(EmulatorError::Load));
    assert_eq!(write_program(&[]), Ok(vec![]));
}

#[test]
fn read_program_returns_every_byte_of_any_file() {
    assert_eq!(read_program(&[]), Ok(vec![]));
    assert_eq!(read_program(&[0x0D, 0x0A, 0x00, 0x20]), Ok(vec![0x0D, 0x0A, 0x00, 0x20]));
    let fits = vec![1u8; 3584];
    assert_eq!(read_program(&fits), Ok(fits.clone()));
    let long: Vec<u8> = (0..10_000u32).map(|i| (i % 251) as u8).collect();
    assert_eq!(read_program(&long), Ok(long.clone()));
}

#[test]
fn a_file_too_long_is_read_whole_and_refused_by_the_load() {
    let long = vec![7u8; 3585];
    let prog = read_program(&long).unwrap();
    assert_eq!(prog.len(), 3585);
    let mut ch8 = chip_8::emulator::Emulator::new();
    assert_eq!(ch8.load_prog(&prog), Err(EmulatorError::Load));
    assert_eq!(ch8.get_state().pc, 0);
}

fn sample_state() -> EmulatorState {
    let mut state = EmulatorState::new();
    for i in 0..4096 {
        state.ram[i] = (i * 31 % 251) as u8;
    }
    for i in 0..16 {
        state.register_bank[i] = 0xF0 + i as u8;
    }
    for i in 0..32 {
        state.stack[i] = 0x0200 + 3 * i as u16;
    }
    state.stack_len = 5;
    state.pc = 0x0ABC;
    state.ireg = 0x1234;
    state.delay_timer = 0x11;
    state.sound_timer = 0x22;
    for i in 0..2048 {
        state.display[i] = i % 5 == 0;
    }
    state
}

#[test]
fn snapshot_has_the_fixed_layout() {
    let state = sample_state();
    let image = write_state(&state);
    assert_eq!(image.len(), 6231);
    assert_eq!(&image[..4096], &state.ram[..]);
    assert_eq!(&image[4096..4112], &state.register_bank[..]);
    assert_eq!(&image[4112..4116], &[0x02, 0x00, 0x02, 0x03]);
    assert_eq!(&image[4174..4176], &[0x02, 0x5D]);
    assert_eq!(image[4176], 5);
    assert_eq!(&image[4177..4179], &[0x0A, 0xBC]);
    assert_eq!(&image[4179..4181], &[0x12, 0x34]);
    assert_eq!(image[4181], 0x11);
    assert_eq!(image[4182], 0x22);
    assert_eq!(&image[4183..4189], &[1, 0, 0, 0, 0, 1]);
    assert_eq!(image[6230], 0);
}

#[test]
fn snapshot_round_trip() {
    let state = sample_state();
    let image = write_state(&state);
    let back = read_state(&image).unwrap();
    assert!(back.is_well_formed());
    assert_eq!(back.ram, state.ram);
    assert_eq!(back.register_bank, state.register_bank);
    assert_eq!(back.stack, state.stack);
    assert_eq!(back.stack_len, state.stack_len);
    assert_eq!(back.pc, state.pc);
    assert_eq!(back.ireg, state.ireg);
    assert_eq!(back.delay_timer, state.delay_timer);
    assert_eq!(back.sound_timer, state.sound_timer);
    assert_eq!(back.display, state.display);
    assert_eq!(write_state(&back), image);
}

#[test]
fn snapshot_of_wrong_length_is_refused() {
    let image = write_state(&EmulatorState::new());
    assert!(matches!(read_state(&image[..6230]), Err(EmulatorError::Load)));
    let mut longer = image.clone();
    longer.push(0);
    assert!(matches!(read_state(&longer), Err(EmulatorError::Load)));
    assert!(matches!(read_state(&[]), Err(EmulatorError::Load)));
}

#[test]
fn snapshot_with_bad_depth_or_cell_is_refused() {
    let image = write_state(&EmulatorState::new());
    let mut deep = image.clone();
    deep[4176] = 17;
    assert!(matches!(read_state(&deep), Err(EmulatorError::Load)));
    deep[4176] = 16;
    assert_eq!(read_state(&deep).unwrap().stack_len, 16);
    let mut cell = image.clone();
    cell[6230] = 2;
    assert!(matches!(read_state(&cell), Err(EmulatorError::Load)));
    cell[6230] = 1;
    assert!(read_state(&cell).unwrap().display[2047]);
}
