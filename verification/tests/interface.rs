use chip_8::emulator::{Emulator, EmulatorState};
use chip_8::interface::{is_held, pad_key, read_keypad, Content, Key, Patch, TUI};

fn plain(col: u16, row: u16, content: Content) -> Patch {
    Patch { col, row, content, inverted: false }
}

#[test]
fn key_mask_has_one_bit_per_key() {
    let order = [
        Key::Key1,
        Key::Key2,
        Key::Key3,
        Key::Key4,
        Key::Q,
        Key::W,
        Key::E,
        Key::R,
        Key::A,
        Key::S,
        Key::D,
        Key::F,
        Key::Z,
        Key::X,
        Key::C,
        Key::V,
    ];
    for (bit, key) in order.iter().enumerate() {
        assert_eq!(pad_key(bit as u8), *key);
        assert_eq!(read_keypad(&[*key]), 1u16 << bit);
    }
    assert_eq!(read_keypad(&[]), 0);
    assert_eq!(read_keypad(&order), 0xFFFF);
}

#[test]
fn key_mask_combines_keys_and_ignores_others() {
    assert_eq!(read_keypad(&[Key::Q, Key::X]), 0x0010 | 0x2000);
    assert_eq!(read_keypad(&[Key::Other, Key::Key1, Key::Key1]), 1);
    assert_eq!(read_keypad(&[Key::LControl, Key::V]), 0x8000);
}

#[test]
fn held_keys_are_found() {
    assert!(is_held(&[Key::S, Key::A], Key::A));
    assert!(!is_held(&[Key::A], Key::S));
    assert!(!is_held(&[], Key::A));
}

#[test]
fn new_interface_runs_and_has_no_keys() {
    let tui = TUI::new();
    assert!(tui.is_running());
    assert!(!tui.has_keys());
    assert_eq!(tui.draw_keypad(), vec![]);
}

#[test]
fn update_keys_reads_the_keypad() {
    let mut tui = TUI::new();
    tui.update_keys(&[Key::Key2, Key::W]);
    assert!(tui.has_keys());
    assert_eq!(tui.get_keys(), 0b10_0010);
    tui.update_keys(&[]);
    assert_eq!(tui.get_keys(), 0);
    assert!(tui.is_running());
}

#[test]
fn control_keeps_the_mask_and_control_q_quits() {
    let mut tui = TUI::new();
    tui.update_keys(&[Key::Key1]);
    tui.update_keys(&[Key::LControl, Key::W]);
    assert_eq!(tui.get_keys(), 1);
    assert!(tui.is_running());
    tui.update_keys(&[Key::Q]);
    assert!(tui.is_running());
    assert_eq!(tui.get_keys(), 0x10);
    tui.update_keys(&[Key::Q, Key::RControl]);
    assert!(!tui.is_running());
    assert_eq!(tui.get_keys(), 0x10);
    tui.update_keys(&[Key::Key1]);
    assert!(!tui.is_running());
}

#[test]
fn control_before_any_key_leaves_no_mask() {
    let mut tui = TUI::new();
    tui.update_keys(&[Key::RControl]);
    assert!(!tui.has_keys());
    assert!(tui.is_running());
}

#[test]
fn display_patches_cover_changed_cells_only() {
    let mut tui = TUI::new();
    let mut display = vec![false; 2048];
    display[0] = true;
    display[65] = true;
    display[2047] = true;
    let patches = tui.draw_display(&display);
    assert_eq!(
        patches,
        vec![
            plain(2, 2, Content::Cell(true)),
            plain(3, 3, Content::Cell(true)),
            plain(65, 33, Content::Cell(true)),
        ]
    );
    assert_eq!(tui.draw_display(&display), vec![]);
    display[65] = false;
    assert_eq!(tui.draw_display(&display), vec![plain(3, 3, Content::Cell(false))]);
}

#[test]
fn keypad_patches_mark_held_keys() {
    let mut tui = TUI::new();
    tui.update_keys(&[Key::Key1, Key::V]);
    let patches = tui.draw_keypad();
    assert_eq!(patches.len(), 16);
    let symbols: Vec<char> = "123C456D789EA0BF".chars().collect();
    for (i, patch) in patches.iter().enumerate() {
        assert_eq!(patch.col, 2 + (i % 4) as u16);
        assert_eq!(patch.row, 35 + (i / 4) as u16);
        assert_eq!(patch.content, Content::Symbol(symbols[i]));
        assert_eq!(patch.inverted, i == 0 || i == 15);
    }
}

#[test]
fn value_patches_have_fixed_places() {
    let tui = TUI::new();
    assert_eq!(
        tui.draw_values(0x0200, 0x0123, 0x45, 0x67),
        vec![
            plain(72, 35, Content::Word(0x0200)),
            plain(72, 36, Content::Word(0x0123)),
            plain(74, 37, Content::Byte(0x45)),
            plain(74, 38, Content::Byte(0x67)),
        ]
    );
}

#[test]
fn register_patches_are_four_to_a_row() {
    let tui = TUI::new();
    let registers: Vec<u8> = (0..16u8).map(|i| i * 3).collect();
    let patches = tui.draw_registers(&registers);
    assert_eq!(patches.len(), 16);
    assert_eq!(patches[0], plain(78, 35, Content::Word(0)));
    assert_eq!(patches[3], plain(96, 35, Content::Word(9)));
    assert_eq!(patches[4], plain(78, 36, Content::Word(12)));
    assert_eq!(patches[15], plain(96, 38, Content::Word(45)));
}

fn memory_with_program() -> Vec<u8> {
    let mut ram = vec![0u8; 4096];
    ram[512..516].copy_from_slice(&[0x00, 0xE0, 0x12, 0x00]);
    ram
}

#[test]
fn first_listing_starts_at_the_line_of_the_program_counter() {
    let mut tui = TUI::new();
    let ram = memory_with_program();
    assert!(tui.can_draw_program(512));
    let patches = tui.draw_program(&ram, 512).unwrap();
    assert_eq!(patches.len(), 289);
    assert_eq!(patches[0], plain(68, 2, Content::Word(512)));
    assert_eq!(patches[1], plain(75, 2, Content::Word(0x00E0)));
    assert_eq!(patches[2], plain(81, 2, Content::Word(0x1200)));
    assert_eq!(patches[8], plain(117, 2, Content::Word(0)));
    assert_eq!(patches[9], plain(68, 3, Content::Word(528)));
    assert_eq!(patches[279], plain(68, 33, Content::Word(1008)));
    assert_eq!(
        patches[288],
        Patch { col: 75, row: 2, content: Content::Word(0x00E0), inverted: true }
    );
}

#[test]
fn mark_moves_with_the_program_counter() {
    let mut tui = TUI::new();
    let ram = memory_with_program();
    tui.draw_program(&ram, 512).unwrap();
    let patches = tui.draw_program(&ram, 514).unwrap();
    assert_eq!(
        patches,
        vec![
            plain(75, 2, Content::Word(0x00E0)),
            Patch { col: 81, row: 2, content: Content::Word(0x1200), inverted: true },
        ]
    );
}

#[test]
fn changed_words_are_patched_when_listed() {
    let mut tui = TUI::new();
    let mut ram = memory_with_program();
    tui.draw_program(&ram, 512).unwrap();
    ram[530] = 0xAB;
    ram[531] = 0xCD;
    ram[0] = 0x11;
    ram[1023] = 0x22;
    ram[1024] = 0x33;
    let patches = tui.draw_program(&ram, 512).unwrap();
    assert_eq!(
        patches,
        vec![
            plain(81, 3, Content::Word(0xABCD)),
            plain(117, 33, Content::Word(0x0022)),
            plain(75, 2, Content::Word(0x00E0)),
            Patch { col: 75, row: 2, content: Content::Word(0x00E0), inverted: true },
        ]
    );
}

#[test]
fn listing_moves_up_to_a_program_counter_above_it() {
    let mut tui = TUI::new();
    let ram = memory_with_program();
    tui.draw_program(&ram, 512).unwrap();
    let patches = tui.draw_program(&ram, 0x50).unwrap();
    assert_eq!(patches.len(), 290);
    assert_eq!(patches[0], plain(68, 2, Content::Word(5)));
    assert_eq!(patches[9], plain(68, 3, Content::Word(6)));
    assert_eq!(patches[288], plain(75, 29, Content::Word(0x00E0)));
    assert_eq!(
        patches[289],
        Patch { col: 75, row: 2, content: Content::Word(0), inverted: true }
    );
}

#[test]
fn listing_moves_down_to_end_with_the_program_counter() {
    let mut tui = TUI::new();
    let ram = memory_with_program();
    tui.draw_program(&ram, 512).unwrap();
    assert_eq!(tui.draw_program(&ram, 1008).unwrap().len(), 2);
    let patches = tui.draw_program(&ram, 1028).unwrap();
    assert_eq!(patches.len(), 290);
    assert_eq!(patches[0], plain(68, 2, Content::Word(33)));
    assert_eq!(patches[279], plain(68, 33, Content::Word(64)));
    assert_eq!(patches[288], plain(75, 32, Content::Word(0)));
    assert_eq!(
        patches[289],
        Patch { col: 87, row: 33, content: Content::Word(0), inverted: true }
    );
}

#[test]
fn listing_cannot_leave_the_old_mark_above_it() {
    let mut tui = TUI::new();
    let ram = memory_with_program();
    tui.draw_program(&ram, 512).unwrap();
    assert!(!tui.can_draw_program(1024));
    assert_eq!(tui.draw_program(&ram, 1024), None);
    assert_eq!(tui.draw_program(&ram, 514).unwrap().len(), 2);
}

#[test]
fn listing_must_lie_within_memory() {
    let mut tui = TUI::new();
    let ram = memory_with_program();
    assert!(tui.can_draw_program(3599));
    assert!(!tui.can_draw_program(3600));
    assert_eq!(tui.draw_program(&ram, 3600), None);
    assert_eq!(tui.draw_program(&ram, 4095), None);
    assert_eq!(tui.draw_program(&ram, 0xFFFF), None);
    assert_eq!(tui.draw_program(&ram, 3584).unwrap().len(), 289);
    assert!(tui.can_draw_program(4094));
    assert!(!tui.can_draw_program(4095));
}

#[test]
fn update_draws_every_pane_in_order() {
    let mut ch8 = Emulator::new();
    ch8.load_prog(&[0x61, 0x2A, 0x12, 0x00]).unwrap();
    ch8.step(0).unwrap();
    let mut tui = TUI::new();
    tui.update_keys(&[Key::Key3]);
    let patches = tui.update_tui(ch8.get_state()).unwrap();
    assert_eq!(patches.len(), 0 + 16 + 289 + 4 + 16);
    assert_eq!(
        patches[2],
        Patch { col: 4, row: 35, content: Content::Symbol('3'), inverted: true }
    );
    assert_eq!(patches[16], plain(68, 2, Content::Word(512)));
    assert_eq!(
        patches[304],
        Patch { col: 81, row: 2, content: Content::Word(0x1200), inverted: true }
    );
    assert_eq!(patches[305], plain(72, 35, Content::Word(514)));
    assert_eq!(patches[310], plain(84, 35, Content::Word(0x2A)));
    let again = tui.update_tui(ch8.get_state()).unwrap();
    assert_eq!(again.len(), 16 + 2 + 4 + 16);
}

#[test]
fn update_refuses_a_program_counter_it_cannot_list() {
    let mut state = EmulatorState::new();
    state.pc = 4095;
    state.display[0] = true;
    let mut tui = TUI::new();
    assert_eq!(tui.update_tui(&state), None);
    state.pc = 0;
    let patches = tui.update_tui(&state).unwrap();
    assert_eq!(patches[0], plain(2, 2, Content::Cell(true)));
}
