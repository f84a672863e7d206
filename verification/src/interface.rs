use vstd::arithmetic::power2::{
    lemma2_to64, lemma_pow2_pos, lemma_pow2_strictly_increases, lemma_pow2_unfold, pow2,
};
use vstd::prelude::*;

use crate::emulator::EmulatorState;
use crate::machine::{bit_set, opcode_at, Machine, DISPLAY_CELLS, MEMORY_SIZE, REGISTER_COUNT};

verus! {

/// A key of the keyboard, as far as the interface tells keys apart.
#[derive(Clone, Copy, Debug, PartialEq, Eq, Structural)]
pub enum Key {
    LControl,
    RControl,
    Key1,
    Key2,
    Key3,
    Key4,
    Q,
    W,
    E,
    R,
    A,
    S,
    D,
    F,
    Z,
    X,
    C,
    V,
    Other,
}

/// What a patch puts on the terminal.
#[derive(Clone, Copy, Debug, PartialEq, Eq, Structural)]
pub enum Content {
    /// One cell of the display, lit or dark.
    Cell(bool),
    /// One character.
    Symbol(char),
    /// A value shown as four hexadecimal digits.
    Word(u16),
    /// A value shown as two hexadecimal digits.
    Byte(u8),
}

/// One write to the terminal: where, what, and whether in reverse video.
/// Columns and rows count from 1.
#[derive(Clone, Copy, Debug, PartialEq, Eq, Structural)]
pub struct Patch {
    pub col: u16,
    pub row: u16,
    pub content: Content,
    pub inverted: bool,
}

/// Number of lines of the program listing.
pub const LISTING_LINES: u16 = 32;

/// The last line at which the listing may start and still end in memory.
pub const LAST_WINDOW: u16 = 224;

/// Number of patches that redraw the listing: each line has its label and
/// eight words.
pub const WINDOW_PATCHES: usize = 288;

// ---------------------------------------------------------------------------
// Keys

/// The key of the keyboard that stands for bit `bit` of the key mask.
pub open spec fn key_of_bit(bit: int) -> Key {
    if bit == 0 {
        Key::Key1
    } else if bit == 1 {
        Key::Key2
    } else if bit == 2 {
        Key::Key3
    } else if bit == 3 {
        Key::Key4
    } else if bit == 4 {
        Key::Q
    } else if bit == 5 {
        Key::W
    } else if bit == 6 {
        Key::E
    } else if bit == 7 {
        Key::R
    } else if bit == 8 {
        Key::A
    } else if bit == 9 {
        Key::S
    } else if bit == 10 {
        Key::D
    } else if bit == 11 {
        Key::F
    } else if bit == 12 {
        Key::Z
    } else if bit == 13 {
        Key::X
    } else if bit == 14 {
        Key::C
    } else {
        Key::V
    }
}

/// The key mask made of the `n` highest bits: bit 15 first, each further
/// bit doubling what stands and adding one when its key is held.
pub open spec fn mask_of(held: Seq<Key>, n: int) -> int
    decreases n,
{
    if n <= 0 {
        0
    } else {
        2 * mask_of(held, n - 1) + if held.contains(key_of_bit(16 - n)) {
            1int
        } else {
            0int
        }
    }
}

/// The 16-bit key mask for the keys held: bit `i` is set exactly when the
/// key that stands for it is among them.
pub open spec fn keypad_mask(held: Seq<Key>) -> u16 {
    mask_of(held, 16) as u16
}

/// Whether a control key is among the keys held.
pub open spec fn control_held(held: Seq<Key>) -> bool {
    held.contains(Key::LControl) || held.contains(Key::RControl)
}

/// A mask of `n` bits is less than two to the `n`.
proof fn lemma_mask_bound(held: Seq<Key>, n: int)
    requires
        0 <= n <= 16,
    ensures
        0 <= mask_of(held, n) < pow2(n as nat),
    decreases n,
{
    lemma2_to64();
    if n > 0 {
        lemma_mask_bound(held, n - 1);
        lemma_pow2_unfold(n as nat);
    } else {
        lemma_pow2_pos(0);
    }
}

/// How doubling a mask and adding a bit moves its bits up by one.
proof fn lemma_shift_in(k: u16, low: bool, bit: u8)
    by (bit_vector)
    requires
        k < 0x8000,
        bit < 16,
    ensures
        (((2 * k + if low {
            1u16
        } else {
            0u16
        }) as u16) & (1u16 << bit) != 0) == (if bit == 0 {
            low
        } else {
            k & (1u16 << ((bit - 1) as u8)) != 0
        }),
{
}

/// After `n` keys have been taken in, bit `b` of the mask answers for the
/// key of bit `16 - n + b`.
proof fn lemma_mask_bits(held: Seq<Key>, n: int, bit: u8)
    requires
        0 <= n <= 16,
        bit < n,
    ensures
        0 <= mask_of(held, n) <= u16::MAX,
        bit_set(mask_of(held, n) as u16, bit) == held.contains(key_of_bit(16 - n + bit)),
    decreases n,
{
    lemma_mask_bound(held, n);
    lemma_mask_bound(held, n - 1);
    lemma2_to64();
    if n < 16 {
        lemma_pow2_strictly_increases((n - 1) as nat, 15);
        lemma_pow2_strictly_increases(n as nat, 16);
    }
    lemma_shift_in(mask_of(held, n - 1) as u16, held.contains(key_of_bit(16 - n)), bit);
    if bit > 0 {
        lemma_mask_bits(held, n - 1, (bit - 1) as u8);
    }
}

/// Bit `bit` of the key mask is set exactly when its key is held.
pub proof fn law_mask_bit_is_key(held: Seq<Key>, bit: u8)
    requires
        bit < 16,
    ensures
        bit_set(keypad_mask(held), bit) == held.contains(key_of_bit(bit as int)),
{
    lemma_mask_bits(held, 16, bit);
}

/// Whether `key` is among `held`.
pub fn is_held(held: &[Key], key: Key) -> (found: bool)
    ensures
        found == held@.contains(key),
{
    let mut i: usize = 0;
    while i < held.len()
        invariant
            i <= held.len(),
            forall|j: int| 0 <= j < i ==> held@[j] != key,
        decreases held.len() - i,
    {
        if held[i] == key {
            return true;
        }
        i += 1;
    }
    false
}

/// The key of the keyboard that stands for bit `bit` of the key mask.
pub fn pad_key(bit: u8) -> (key: Key)
    ensures
        key == key_of_bit(bit as int),
{
    match bit {
        0 => Key::Key1,
        1 => Key::Key2,
        2 => Key::Key3,
        3 => Key::Key4,
        4 => Key::Q,
        5 => Key::W,
        6 => Key::E,
        7 => Key::R,
        8 => Key::A,
        9 => Key::S,
        10 => Key::D,
        11 => Key::F,
        12 => Key::Z,
        13 => Key::X,
        14 => Key::C,
        _ => Key::V,
    }
}

/// The 16-bit key mask for the keys held.
pub fn read_keypad(held: &[Key]) -> (mask: u16)
    ensures
        mask == keypad_mask(held@),
{
    let mut k: u16 = 0;
    let mut i: u8 = 0;
    while i < 16
        invariant
            i <= 16,
            k == mask_of(held@, i as int),
        decreases 16 - i,
    {
        proof {
            lemma_mask_bound(held@, i as int);
            lemma_mask_bound(held@, i + 1);
            lemma2_to64();
            if i < 15 {
                lemma_pow2_strictly_increases(i as nat, 15);
                lemma_pow2_strictly_increases((i + 1) as nat, 16);
            }
        }
        k = k * 2;
        if is_held(held, pad_key(15 - i)) {
            k = k + 1;
        }
        i += 1;
    }
    k
}

// ---------------------------------------------------------------------------
// What the terminal shows

/// The interface as a mathematical value.
pub struct TuiModel {
    /// The cells of the display as the terminal shows them.
    pub display: Seq<bool>,
    /// Memory as the listing shows it.
    pub prog: Seq<u8>,
    /// The program counter that the listing marks, once it marks one.
    pub pc: Option<u16>,
    /// The first line of memory that the listing shows, once it shows any.
    /// A line is sixteen bytes.
    pub prog_offset: Option<u16>,
    /// The key mask read last, once one was read.
    pub keys: Option<u16>,
    /// Whether the user has not asked to quit.
    pub running: bool,
}

impl TuiModel {
    /// What holds of every interface: the display and the memory shown have
    /// the sizes of a machine's, the listing ends within memory, and the
    /// word marked lies within memory.
    pub open spec fn wf(self) -> bool {
        &&& self.display.len() == DISPLAY_CELLS
        &&& self.prog.len() == MEMORY_SIZE
        &&& self.prog_offset matches Some(first) ==> first <= LAST_WINDOW
        &&& self.pc matches Some(pc) ==> pc + 1 < MEMORY_SIZE
    }
}

/// The interface before anything is drawn or read.
pub open spec fn initial_tui() -> TuiModel {
    TuiModel {
        display: Seq::new(DISPLAY_CELLS as nat, |i: int| false),
        prog: Seq::new(MEMORY_SIZE as nat, |i: int| 0u8),
        pc: None,
        prog_offset: None,
        keys: None,
        running: true,
    }
}

/// The interface after the keys in `held` were read. With a control key
/// held the key mask stays, and the run ends when Q is held too; without
/// one the key mask is read from the keypad.
pub open spec fn keys_read(model: TuiModel, held: Seq<Key>) -> TuiModel {
    if control_held(held) {
        TuiModel { running: model.running && !held.contains(Key::Q), ..model }
    } else {
        TuiModel { keys: Some(keypad_mask(held)), ..model }
    }
}

/// The patch that shows display cell `idx`.
pub open spec fn cell_patch(idx: int, lit: bool) -> Patch {
    Patch {
        col: (idx % 64 + 2) as u16,
        row: (idx / 64 + 2) as u16,
        content: Content::Cell(lit),
        inverted: false,
    }
}

/// The patches that bring the first `k` cells shown up to `display`: one
/// for each cell that differs, in order.
pub open spec fn display_patches(shown: Seq<bool>, display: Seq<bool>, k: int) -> Seq<Patch>
    decreases k,
{
    if k <= 0 {
        Seq::empty()
    } else if shown[k - 1] != display[k - 1] {
        display_patches(shown, display, k - 1).push(cell_patch(k - 1, display[k - 1]))
    } else {
        display_patches(shown, display, k - 1)
    }
}

/// The character on key `i` of the keypad, row by row.
pub open spec fn keypad_symbol(i: int) -> char {
    if i == 0 {
        '1'
    } else if i == 1 {
        '2'
    } else if i == 2 {
        '3'
    } else if i == 3 {
        'C'
    } else if i == 4 {
        '4'
    } else if i == 5 {
        '5'
    } else if i == 6 {
        '6'
    } else if i == 7 {
        'D'
    } else if i == 8 {
        '7'
    } else if i == 9 {
        '8'
    } else if i == 10 {
        '9'
    } else if i == 11 {
        'E'
    } else if i == 12 {
        'A'
    } else if i == 13 {
        '0'
    } else if i == 14 {
        'B'
    } else {
        'F'
    }
}

/// The patch for key `i` of the keypad: in reverse video when bit `i` of
/// the key mask is set.
pub open spec fn keypad_patch(keys: u16, i: int) -> Patch {
    Patch {
        col: (2 + i % 4) as u16,
        row: (35 + i / 4) as u16,
        content: Content::Symbol(keypad_symbol(i)),
        inverted: bit_set(keys, i as u8),
    }
}

/// The patches that draw the keypad: none before a key mask was read.
pub open spec fn keypad_patches(keys: Option<u16>) -> Seq<Patch> {
    match keys {
        Some(k) => Seq::new(16, |i: int| keypad_patch(k, i)),
        None => Seq::empty(),
    }
}

/// The patches that show the program counter, the index register and the
/// two timers.
pub open spec fn value_patches(pc: u16, ireg: u16, delay: u8, sound: u8) -> Seq<Patch> {
    seq![
        Patch { col: 72, row: 35, content: Content::Word(pc), inverted: false },
        Patch { col: 72, row: 36, content: Content::Word(ireg), inverted: false },
        Patch { col: 74, row: 37, content: Content::Byte(delay), inverted: false },
        Patch { col: 74, row: 38, content: Content::Byte(sound), inverted: false },
    ]
}

/// The patch that shows register `i`, four to a row.
pub open spec fn register_patch(register_bank: Seq<u8>, i: int) -> Patch {
    Patch {
        col: ((i % 4) * 6 + 78) as u16,
        row: (i / 4 + 35) as u16,
        content: Content::Word(register_bank[i] as u16),
        inverted: false,
    }
}

/// The patches that show the sixteen registers.
pub open spec fn register_patches(register_bank: Seq<u8>) -> Seq<Patch> {
    Seq::new(REGISTER_COUNT as nat, |i: int| register_patch(register_bank, i))
}

// ---------------------------------------------------------------------------
// The program listing
//
// The listing shows thirty-two lines of memory, sixteen bytes to a line:
// a label, then the eight words of the line. It follows the program counter.

/// The patch that shows the word at address `addr` in a listing whose first
/// line is `first`.
pub open spec fn word_patch(prog: Seq<u8>, first: int, addr: int, inverted: bool) -> Patch {
    Patch {
        col: ((addr % 16) * 3 + 75) as u16,
        row: (addr / 16 - first + 2) as u16,
        content: Content::Word(opcode_at(prog, addr)),
        inverted,
    }
}

/// The patches for those of the first `k` words of memory that changed and
/// that the listing shows. Before the listing shows any line there are none.
pub open spec fn changed_word_patches(
    shown: Seq<u8>,
    prog: Seq<u8>,
    offset: Option<u16>,
    k: int,
) -> Seq<Patch>
    decreases k,
{
    if k <= 0 {
        Seq::empty()
    } else {
        let addr = 2 * (k - 1);
        let rest = changed_word_patches(shown, prog, offset, k - 1);
        if (shown[addr] != prog[addr] || shown[addr + 1] != prog[addr + 1]) && (
        offset matches Some(first) && first <= addr / 16 < first + LISTING_LINES) {
            rest.push(word_patch(prog, offset->Some_0 as int, addr, false))
        } else {
            rest
        }
    }
}

/// The first line of the listing once it follows program counter `pc`.
///
/// A listing that shows the line of `pc` stays. One that lies below it
/// moves up to start at that line; one that lies above moves down to end
/// with it. The first listing starts at the line of `pc`.
pub open spec fn listing_window(offset: Option<u16>, pc: u16) -> int {
    let line = pc / 16;
    match offset {
        Some(first) => if line < first {
            line as int
        } else if line >= first + LISTING_LINES {
            line - (LISTING_LINES - 1)
        } else {
            first as int
        },
        None => line as int,
    }
}

/// Patch `j` of those that redraw the listing from line `first` on. Line
/// `l` takes the nine patches from `9 * l`: its label, then its words. The
/// label is the address of the line in the first listing, and the number
/// of the line in every later one.
pub open spec fn window_patch(prog: Seq<u8>, first: int, numbered: bool, j: int) -> Patch {
    let l = j / 9;
    let k = j % 9;
    if k == 0 {
        Patch {
            col: 68,
            row: (l + 2) as u16,
            content: Content::Word(
                if numbered {
                    (first + l) as u16
                } else {
                    ((first + l) * 16) as u16
                },
            ),
            inverted: false,
        }
    } else {
        Patch {
            col: (6 * (k - 1) + 75) as u16,
            row: (l + 2) as u16,
            content: Content::Word(opcode_at(prog, (first + l) * 16 + 2 * (k - 1))),
            inverted: false,
        }
    }
}

/// The patches that redraw the listing when it moves, or is first drawn.
pub open spec fn window_patches(prog: Seq<u8>, offset: Option<u16>, pc: u16) -> Seq<Patch> {
    let first = listing_window(offset, pc);
    if offset == Some(first as u16) {
        Seq::empty()
    } else {
        Seq::new(WINDOW_PATCHES as nat, |j: int| window_patch(prog, first, offset is Some, j))
    }
}

/// The patches that move the mark from the program counter marked before
/// to `pc`: the old word in plain, the new one in reverse video.
pub open spec fn mark_patches(prog: Seq<u8>, marked: Option<u16>, first: int, pc: u16) -> Seq<
    Patch,
> {
    let mark = seq![word_patch(prog, first, pc as int, true)];
    match marked {
        Some(old_pc) => seq![word_patch(prog, first, old_pc as int, false)] + mark,
        None => mark,
    }
}

/// Whether the listing can follow program counter `pc`: the word at `pc`
/// lies in memory, so does the whole listing, and the program counter
/// marked before does not lie above it.
pub open spec fn can_list(model: TuiModel, pc: u16) -> bool {
    let first = listing_window(model.prog_offset, pc);
    &&& pc + 1 < MEMORY_SIZE
    &&& first <= LAST_WINDOW
    &&& model.pc matches Some(old_pc) ==> old_pc / 16 >= first
}

/// The patches that bring the listing up to memory `prog` and program
/// counter `pc`.
pub open spec fn program_patches(model: TuiModel, prog: Seq<u8>, pc: u16) -> Seq<Patch> {
    let first = listing_window(model.prog_offset, pc);
    changed_word_patches(model.prog, prog, model.prog_offset, (MEMORY_SIZE / 2) as int)
        + window_patches(prog, model.prog_offset, pc) + mark_patches(prog, model.pc, first, pc)
}

/// The interface once the listing is brought up to `prog` and `pc`.
pub open spec fn program_drawn(model: TuiModel, prog: Seq<u8>, pc: u16) -> TuiModel {
    TuiModel {
        prog: prog.take(MEMORY_SIZE as int),
        pc: Some(pc),
        prog_offset: Some(listing_window(model.prog_offset, pc) as u16),
        ..model
    }
}

/// The patches that bring the whole interface up to machine `m`: the
/// display, the keypad, the listing, the values and the registers, in that
/// order.
pub open spec fn screen_patches(model: TuiModel, m: Machine) -> Seq<Patch> {
    display_patches(model.display, m.display, DISPLAY_CELLS as int) + keypad_patches(model.keys)
        + program_patches(model, m.ram, m.pc) + value_patches(
        m.pc,
        m.ireg,
        m.delay_timer,
        m.sound_timer,
    ) + register_patches(m.register_bank)
}

/// The interface once it is brought up to machine `m`.
pub open spec fn screen_drawn(model: TuiModel, m: Machine) -> TuiModel {
    TuiModel { display: m.display.take(DISPLAY_CELLS as int), ..program_drawn(model, m.ram, m.pc) }
}

/// A display that the terminal shows already needs no patch.
pub proof fn law_shown_display_needs_no_patch(display: Seq<bool>, k: int)
    ensures
        display_patches(display, display, k) == Seq::<Patch>::empty(),
    decreases k,
{
    if k > 0 {
        law_shown_display_needs_no_patch(display, k - 1);
    }
}

/// A memory that the listing shows already needs no patch for its words.
pub proof fn law_shown_memory_needs_no_patch(prog: Seq<u8>, offset: Option<u16>, k: int)
    ensures
        changed_word_patches(prog, prog, offset, k) == Seq::<Patch>::empty(),
    decreases k,
{
    if k > 0 {
        law_shown_memory_needs_no_patch(prog, offset, k - 1);
    }
}

/// Once the listing follows a program counter, it can follow it again,
/// and then only the mark is drawn anew.
pub proof fn law_listing_settles(model: TuiModel, prog: Seq<u8>, pc: u16)
    requires
        model.wf(),
        prog.len() >= MEMORY_SIZE,
        can_list(model, pc),
    ensures
        program_drawn(model, prog, pc).wf(),
        can_list(program_drawn(model, prog, pc), pc),
        program_drawn(program_drawn(model, prog, pc), prog, pc) == program_drawn(model, prog, pc),
        program_patches(program_drawn(model, prog, pc), prog, pc) == seq![
            word_patch(prog, listing_window(model.prog_offset, pc), pc as int, false),
            word_patch(prog, listing_window(model.prog_offset, pc), pc as int, true),
        ],
{
    let drawn = program_drawn(model, prog, pc);
    lemma_changed_words_look_at_memory(
        drawn.prog,
        prog,
        drawn.prog_offset,
        (MEMORY_SIZE / 2) as int,
    );
}

/// The patches for changed words look at the first 4096 bytes only.
proof fn lemma_changed_words_look_at_memory(
    shown: Seq<u8>,
    prog: Seq<u8>,
    offset: Option<u16>,
    k: int,
)
    requires
        k <= MEMORY_SIZE / 2,
        prog.len() >= MEMORY_SIZE,
        shown == prog.take(MEMORY_SIZE as int),
    ensures
        changed_word_patches(shown, prog, offset, k) == Seq::<Patch>::empty(),
    decreases k,
{
    if k > 0 {
        lemma_changed_words_look_at_memory(shown, prog, offset, k - 1);
    }
}

/// The interface: what the terminal shows, the keys read last, and whether
/// the run goes on.
pub struct TUI {
    display: Vec<bool>,
    prog: Vec<u8>,
    pc: Option<u16>,
    prog_offset: Option<u16>,
    keys: Option<u16>,
    running: bool,
}

impl View for TUI {
    type V = TuiModel;

    closed spec fn view(&self) -> TuiModel {
        TuiModel {
            display: self.display@,
            prog: self.prog@,
            pc: self.pc,
            prog_offset: self.prog_offset,
            keys: self.keys,
            running: self.running,
        }
    }
}

/// The character on key `i` of the keypad.
fn symbol(i: usize) -> (c: char)
    ensures
        c == keypad_symbol(i as int),
{
    match i {
        0 => '1',
        1 => '2',
        2 => '3',
        3 => 'C',
        4 => '4',
        5 => '5',
        6 => '6',
        7 => 'D',
        8 => '7',
        9 => '8',
        10 => '9',
        11 => 'E',
        12 => 'A',
        13 => '0',
        14 => 'B',
        _ => 'F',
    }
}

impl TUI {
    /// The display and the memory shown have the sizes of a machine's, and
    /// the listing lies within memory.
    #[verifier::type_invariant]
    spec fn inv(&self) -> bool {
        self@.wf()
    }

    /// An interface that shows a blank display and a memory of zeros, has
    /// read no key, and is running.
    pub fn new() -> (tui: TUI)
        ensures
            tui@.wf(),
            tui@ == initial_tui(),
    {
        let tui = TUI {
            display: vec![false; 2048],
            prog: vec![0u8; 4096],
            pc: None,
            prog_offset: None,
            keys: None,
            running: true,
        };
        assert(tui@.display =~= initial_tui().display);
        assert(tui@.prog =~= initial_tui().prog);
        tui
    }

    /// Whether the user has not asked to quit.
    pub fn is_running(&self) -> (running: bool)
        ensures
            running == self@.running,
    {
        self.running
    }

    /// Whether a key mask was read.
    pub fn has_keys(&self) -> (read: bool)
        ensures
            read == self@.keys is Some,
    {
        self.keys.is_some()
    }

    /// The key mask read last.
    pub fn get_keys(&self) -> (keys: u16)
        requires
            self@.keys is Some,
        ensures
            Some(keys) == self@.keys,
    {
        self.keys.unwrap()
    }

    /// Takes in the keys now held.
    pub fn update_keys(&mut self, held: &[Key])
        ensures
            final(self)@ == keys_read(old(self)@, held@),
    {
        proof {
            use_type_invariant(&*self);
        }
        if is_held(held, Key::LControl) || is_held(held, Key::RControl) {
            if is_held(held, Key::Q) {
                self.running = false;
            }
        } else {
            self.keys = Some(read_keypad(held));
        }
    }

    /// Brings the cells shown up to `display` and returns the patches that
    /// do the same on the terminal: one for each cell that changed.
    pub fn draw_display(&mut self, display: &Vec<bool>) -> (patches: Vec<Patch>)
        requires
            display.len() >= DISPLAY_CELLS,
        ensures
            final(self)@ == (TuiModel {
                display: display@.take(DISPLAY_CELLS as int),
                ..old(self)@
            }),
            patches@ == display_patches(old(self)@.display, display@, DISPLAY_CELLS as int),
    {
        proof {
            use_type_invariant(&*self);
        }
        let mut patches: Vec<Patch> = Vec::new();
        let mut idx: usize = 0;
        while idx < DISPLAY_CELLS
            invariant
                idx <= DISPLAY_CELLS,
                display.len() >= DISPLAY_CELLS,
                self@.wf(),
                self@ == (TuiModel { display: self.display@, ..old(self)@ }),
                forall|j: int| 0 <= j < idx ==> self.display[j] == display[j],
                forall|j: int|
                    idx <= j < DISPLAY_CELLS ==> self.display[j] == old(self)@.display[j],
                patches@ == display_patches(old(self)@.display, display@, idx as int),
            decreases DISPLAY_CELLS - idx,
        {
            if self.display[idx] != display[idx] {
                patches.push(
                    Patch {
                        col: (idx % 64 + 2) as u16,
                        row: (idx / 64 + 2) as u16,
                        content: Content::Cell(display[idx]),
                        inverted: false,
                    },
                );
                self.display[idx] = display[idx];
            }
            idx += 1;
        }
        assert(self.display@ =~= display@.take(DISPLAY_CELLS as int));
        patches
    }

    /// The patches that draw the keypad, the keys held in reverse video.
    pub fn draw_keypad(&self) -> (patches: Vec<Patch>)
        ensures
            patches@ == keypad_patches(self@.keys),
    {
        let mut patches: Vec<Patch> = Vec::new();
        if let Some(k) = self.keys {
            let mut i: usize = 0;
            while i < 16
                invariant
                    i <= 16,
                    patches.len() == i,
                    forall|j: int| 0 <= j < i ==> patches[j] == keypad_patch(k, j),
                decreases 16 - i,
            {
                patches.push(
                    Patch {
                        col: (2 + i % 4) as u16,
                        row: (35 + i / 4) as u16,
                        content: Content::Symbol(symbol(i)),
                        inverted: k & (1u16 << (i as u8)) != 0,
                    },
                );
                i += 1;
            }
        }
        patches
    }

    /// The patches that show the program counter, the index register and
    /// the two timers.
    pub fn draw_values(&self, pc: u16, ireg: u16, delay: u8, sound: u8) -> (patches: Vec<Patch>)
        ensures
            patches@ == value_patches(pc, ireg, delay, sound),
    {
        let mut patches: Vec<Patch> = Vec::new();
        patches.push(Patch { col: 72, row: 35, content: Content::Word(pc), inverted: false });
        patches.push(Patch { col: 72, row: 36, content: Content::Word(ireg), inverted: false });
        patches.push(Patch { col: 74, row: 37, content: Content::Byte(delay), inverted: false });
        patches.push(Patch { col: 74, row: 38, content: Content::Byte(sound), inverted: false });
        patches
    }

    /// The patches that show the sixteen registers.
    pub fn draw_registers(&self, register_bank: &Vec<u8>) -> (patches: Vec<Patch>)
        requires
            register_bank.len() >= REGISTER_COUNT,
        ensures
            patches@ == register_patches(register_bank@),
    {
        let mut patches: Vec<Patch> = Vec::new();
        let mut i: usize = 0;
        while i < REGISTER_COUNT
            invariant
                i <= REGISTER_COUNT,
                register_bank.len() >= REGISTER_COUNT,
                patches.len() == i,
                forall|j: int| 0 <= j < i ==> patches[j] == register_patch(register_bank@, j),
            decreases REGISTER_COUNT - i,
        {
            patches.push(
                Patch {
                    col: ((i % 4) * 6 + 78) as u16,
                    row: (i / 4 + 35) as u16,
                    content: Content::Word(register_bank[i] as u16),
                    inverted: false,
                },
            );
            i += 1;
        }
        patches
    }

    /// Whether the listing can follow program counter `pc`.
    pub fn can_draw_program(&self, pc: u16) -> (ok: bool)
        ensures
            ok == can_list(self@, pc),
    {
        let first: u16 = self.window_for(pc);
        pc < 4095 && first <= LAST_WINDOW && match self.pc {
            Some(old_pc) => old_pc / 16 >= first,
            None => true,
        }
    }

    /// The first line of the listing once it follows `pc`.
    fn window_for(&self, pc: u16) -> (first: u16)
        ensures
            first == listing_window(self@.prog_offset, pc),
    {
        proof {
            use_type_invariant(self);
        }
        let line: u16 = pc / 16;
        match self.prog_offset {
            Some(offset) => if line < offset {
                line
            } else if line >= offset + LISTING_LINES {
                line - (LISTING_LINES - 1)
            } else {
                offset
            },
            None => line,
        }
    }

    /// The word of the memory shown at `addr`.
    fn word(&self, addr: usize) -> (word: u16)
        requires
            addr + 1 < MEMORY_SIZE,
        ensures
            word == opcode_at(self@.prog, addr as int),
    {
        proof {
            use_type_invariant(self);
        }
        (self.prog[addr] as u16) * 256 + self.prog[addr + 1] as u16
    }

    /// Brings the listing up to memory `prog` and program counter `pc`,
    /// and returns the patches that do the same on the terminal: the words
    /// that changed, the whole listing if it had to move, and the mark on
    /// the word at `pc`. Where the listing cannot follow `pc` there are no
    /// patches and nothing changes.
    pub fn draw_program(&mut self, prog: &[u8], pc: u16) -> (res: Option<Vec<Patch>>)
        requires
            prog@.len() >= MEMORY_SIZE,
        ensures
            match res {
                Some(patches) => can_list(old(self)@, pc) && patches@ == program_patches(
                    old(self)@,
                    prog@,
                    pc,
                ) && final(self)@ == program_drawn(old(self)@, prog@, pc),
                None => !can_list(old(self)@, pc) && final(self)@ == old(self)@,
            },
    {
        proof {
            use_type_invariant(&*self);
        }
        if !self.can_draw_program(pc) {
            return None;
        }
        let ghost before = self@;
        let first: u16 = self.window_for(pc);
        let mut patches: Vec<Patch> = Vec::new();
        let mut i: usize = 0;
        while i < 2048
            invariant
                i <= 2048,
                prog@.len() >= MEMORY_SIZE,
                before.wf(),
                self.prog.len() == MEMORY_SIZE,
                self@ == (TuiModel { prog: self.prog@, ..before }),
                forall|j: int| 0 <= j < 2 * i ==> self.prog[j] == prog@[j],
                forall|j: int| 2 * i <= j < MEMORY_SIZE ==> self.prog[j] == before.prog[j],
                patches@ == changed_word_patches(before.prog, prog@, before.prog_offset, i as int),
            decreases 2048 - i,
        {
            let addr: usize = 2 * i;
            if self.prog[addr] != prog[addr] || self.prog[addr + 1] != prog[addr + 1] {
                self.prog[addr] = prog[addr];
                self.prog[addr + 1] = prog[addr + 1];
                if let Some(offset) = self.prog_offset {
                    let line: u16 = (addr / 16) as u16;
                    if offset <= line && line < offset + LISTING_LINES {
                        let word: u16 = self.word(addr);
                        patches.push(
                            Patch {
                                col: ((addr % 16) * 3 + 75) as u16,
                                row: (line - offset) + 2,
                                content: Content::Word(word),
                                inverted: false,
                            },
                        );
                    }
                }
            }
            i += 1;
        }
        assert(self.prog@ =~= prog@.take(MEMORY_SIZE as int));
        let ghost changed = patches@;
        let numbered: bool = self.prog_offset.is_some();
        if self.prog_offset != Some(first) {
            let mut l: u16 = 0;
            while l < LISTING_LINES
                invariant
                    l <= LISTING_LINES,
                    first <= LAST_WINDOW,
                    first == listing_window(before.prog_offset, pc),
                    before.prog_offset != Some(first),
                    numbered == before.prog_offset is Some,
                    prog@.len() >= MEMORY_SIZE,
                    before.wf(),
                    self@.wf(),
                    self@ == (TuiModel { prog: prog@.take(MEMORY_SIZE as int), ..before }),
                    patches@.len() == changed.len() + 9 * l,
                    forall|j: int| 0 <= j < changed.len() ==> patches[j] == changed[j],
                    forall|j: int|
                        0 <= j < 9 * l ==> patches[changed.len() + j] == window_patch(
                            prog@,
                            first as int,
                            numbered,
                            j,
                        ),
                decreases LISTING_LINES - l,
            {
                let label: u16 = if numbered {
                    first + l
                } else {
                    (first + l) * 16
                };
                patches.push(
                    Patch { col: 68, row: l + 2, content: Content::Word(label), inverted: false },
                );
                let mut c: u16 = 0;
                while c < 8
                    invariant
                        c <= 8,
                        l < LISTING_LINES,
                        first <= LAST_WINDOW,
                        prog@.len() >= MEMORY_SIZE,
                        before.wf(),
                        self@.wf(),
                        self@ == (TuiModel { prog: prog@.take(MEMORY_SIZE as int), ..before }),
                        patches@.len() == changed.len() + 9 * l + 1 + c,
                        forall|j: int| 0 <= j < changed.len() ==> patches[j] == changed[j],
                        forall|j: int|
                            0 <= j < 9 * l + 1 + c ==> patches[changed.len() + j] == window_patch(
                                prog@,
                                first as int,
                                numbered,
                                j,
                            ),
                    decreases 8 - c,
                {
                    let addr: usize = ((first + l) * 16 + 2 * c) as usize;
                    let word: u16 = self.word(addr);
                    patches.push(
                        Patch {
                            col: 6 * c + 75,
                            row: l + 2,
                            content: Content::Word(word),
                            inverted: false,
                        },
                    );
                    c += 1;
                }
                l += 1;
            }
        }
        self.prog_offset = Some(first);
        if let Some(old_pc) = self.pc {
            let word: u16 = self.word(old_pc as usize);
            patches.push(
                Patch {
                    col: (old_pc % 16) * 3 + 75,
                    row: (old_pc / 16 - first) + 2,
                    content: Content::Word(word),
                    inverted: false,
                },
            );
        }
        self.pc = Some(pc);
        let word: u16 = self.word(pc as usize);
        patches.push(
            Patch {
                col: (pc % 16) * 3 + 75,
                row: (pc / 16 - first) + 2,
                content: Content::Word(word),
                inverted: true,
            },
        );
        Some(patches)
    }

    /// Brings the interface up to `state` and returns the patches that do
    /// the same on the terminal. Where the listing cannot follow the
    /// program counter there are no patches and nothing changes.
    pub fn update_tui(&mut self, state: &EmulatorState) -> (res: Option<Vec<Patch>>)
        requires
            state.display.len() >= DISPLAY_CELLS,
            state.ram.len() >= MEMORY_SIZE,
            state.register_bank.len() >= REGISTER_COUNT,
        ensures
            match res {
                Some(patches) => can_list(old(self)@, state.pc) && patches@ == screen_patches(
                    old(self)@,
                    state@,
                ) && final(self)@ == screen_drawn(old(self)@, state@),
                None => !can_list(old(self)@, state.pc) && final(self)@ == old(self)@,
            },
    {
        if !self.can_draw_program(state.pc) {
            return None;
        }
        let mut patches: Vec<Patch> = self.draw_display(&state.display);
        let mut keypad: Vec<Patch> = self.draw_keypad();
        patches.append(&mut keypad);
        let mut listing: Vec<Patch> = match self.draw_program(state.ram.as_slice(), state.pc) {
            Some(listing) => listing,
            None => Vec::new(),
        };
        patches.append(&mut listing);
        let mut values: Vec<Patch> = self.draw_values(
            state.pc,
            state.ireg,
            state.delay_timer,
            state.sound_timer,
        );
        patches.append(&mut values);
        let mut registers: Vec<Patch> = self.draw_registers(&state.register_bank);
        patches.append(&mut registers);
        Some(patches)
    }
}

} // verus!
