use vstd::prelude::*;

use crate::emulator::EmulatorState;
use crate::error::EmulatorError;
use crate::machine::{
    opcode_at, Machine, DISPLAY_CELLS, MEMORY_SIZE, PROGRAM_START, REGISTER_COUNT,
    STACK_CAPACITY, STACK_SLOTS,
};

verus! {

/// Whether `bytes` can be loaded: they fit between the load address and the
/// end of memory.
pub open spec fn is_program(bytes: Seq<u8>) -> bool {
    bytes.len() <= MEMORY_SIZE - PROGRAM_START
}

/// Copies a slice of bytes.
fn copy_bytes(bytes: &[u8]) -> (copy: Vec<u8>)
    ensures
        copy@ == bytes@,
{
    let mut copy: Vec<u8> = Vec::new();
    let mut i: usize = 0;
    while i < bytes.len()
        invariant
            i <= bytes.len(),
            copy@ == bytes@.take(i as int),
        decreases bytes.len() - i,
    {
        copy.push(bytes[i]);
        i += 1;
    }
    copy
}

/// The program that a program file holds, given the bytes of the file.
///
/// A program file is the program itself, byte for byte: every byte comes
/// back, in order, whatever the length. Whether the program fits in memory
/// is for the loading to say.
pub fn read_program(bytes: &[u8]) -> (res: Result<Vec<u8>, EmulatorError>)
    ensures
        res matches Ok(prog) && prog@ == bytes@,
{
    Ok(copy_bytes(bytes))
}

/// The bytes of the file that holds program `prog`.
///
/// A program that could never be loaded is refused rather than written.
pub fn write_program(prog: &[u8]) -> (res: Result<Vec<u8>, EmulatorError>)
    ensures
        match res {
            Ok(bytes) => is_program(prog@) && bytes@ == prog@,
            Err(e) => !is_program(prog@) && e == EmulatorError::Load,
        },
{
    if prog.len() > MEMORY_SIZE - PROGRAM_START {
        Err(EmulatorError::Load)
    } else {
        Ok(copy_bytes(prog))
    }
}

// ---------------------------------------------------------------------------
// Snapshots of the machine
//
// A snapshot is a record of fixed layout: memory, the registers, the call
// stack (each slot as two bytes, the high one first, then the depth), the
// program counter and the index register (two bytes each, the high one
// first), the delay and the sound timer, and the display with one byte, 0 or
// 1, for each cell.

/// Offset of the registers in a snapshot.
pub const IMAGE_REGISTERS: usize = 4096;

/// Offset of the call stack in a snapshot.
pub const IMAGE_STACK: usize = 4112;

/// Offset of the depth of the call stack in a snapshot.
pub const IMAGE_DEPTH: usize = 4176;

/// Offset of the program counter in a snapshot.
pub const IMAGE_PC: usize = 4177;

/// Offset of the index register in a snapshot.
pub const IMAGE_IREG: usize = 4179;

/// Offset of the delay timer in a snapshot.
pub const IMAGE_DELAY: usize = 4181;

/// Offset of the sound timer in a snapshot.
pub const IMAGE_SOUND: usize = 4182;

/// Offset of the display in a snapshot.
pub const IMAGE_DISPLAY: usize = 4183;

/// Number of bytes of a snapshot.
pub const IMAGE_SIZE: usize = 6231;

/// The high or the low byte of a 16-bit value: the byte at `place` 0 or 1
/// of the value written with its high byte first.
pub open spec fn word_byte(word: u16, place: int) -> u8 {
    if place == 0 {
        (word / 256) as u8
    } else {
        (word % 256) as u8
    }
}

/// The byte at offset `i` of the snapshot of machine `m`.
pub open spec fn image_byte(m: Machine, i: int) -> u8 {
    if i < IMAGE_REGISTERS {
        m.ram[i]
    } else if i < IMAGE_STACK {
        m.register_bank[i - IMAGE_REGISTERS]
    } else if i < IMAGE_DEPTH {
        word_byte(m.stack[(i - IMAGE_STACK) / 2], (i - IMAGE_STACK) % 2)
    } else if i == IMAGE_DEPTH {
        m.stack_len as u8
    } else if i < IMAGE_IREG {
        word_byte(m.pc, i - IMAGE_PC)
    } else if i < IMAGE_DELAY {
        word_byte(m.ireg, i - IMAGE_IREG)
    } else if i == IMAGE_DELAY {
        m.delay_timer
    } else if i == IMAGE_SOUND {
        m.sound_timer
    } else if m.display[i - IMAGE_DISPLAY] {
        1
    } else {
        0
    }
}

/// The snapshot of machine `m`.
pub open spec fn state_image(m: Machine) -> Seq<u8> {
    Seq::new(IMAGE_SIZE as nat, |i: int| image_byte(m, i))
}

/// Whether `bytes` are the snapshot of a machine: they have the length of
/// one, a depth within the capacity of the stack, and 0 or 1 for each cell.
pub open spec fn is_state_image(bytes: Seq<u8>) -> bool {
    &&& bytes.len() == IMAGE_SIZE
    &&& bytes[IMAGE_DEPTH as int] <= STACK_CAPACITY
    &&& forall|i: int| IMAGE_DISPLAY <= i < IMAGE_SIZE ==> bytes[i] <= 1
}

/// The machine that a snapshot holds.
pub open spec fn parsed_state(bytes: Seq<u8>) -> Machine {
    Machine {
        ram: bytes.subrange(0, IMAGE_REGISTERS as int),
        pc: opcode_at(bytes, IMAGE_PC as int),
        ireg: opcode_at(bytes, IMAGE_IREG as int),
        stack: Seq::new(STACK_SLOTS as nat, |k: int| opcode_at(bytes, IMAGE_STACK + 2 * k)),
        stack_len: bytes[IMAGE_DEPTH as int] as usize,
        delay_timer: bytes[IMAGE_DELAY as int],
        sound_timer: bytes[IMAGE_SOUND as int],
        register_bank: bytes.subrange(IMAGE_REGISTERS as int, IMAGE_STACK as int),
        display: Seq::new(DISPLAY_CELLS as nat, |k: int| bytes[IMAGE_DISPLAY + k] == 1),
    }
}

/// The snapshot of a well-formed machine is a snapshot, and holds that
/// machine.
pub proof fn law_state_survives_snapshot(m: Machine)
    requires
        m.wf(),
    ensures
        is_state_image(state_image(m)),
        parsed_state(state_image(m)) == m,
{
}

/// Bytes that are a snapshot hold a well-formed machine, whose snapshot
/// they are.
pub proof fn law_snapshot_survives_parsing(bytes: Seq<u8>)
    requires
        is_state_image(bytes),
    ensures
        parsed_state(bytes).wf(),
        state_image(parsed_state(bytes)) == bytes,
{
}

/// Appends the two bytes of `word`, the high one first.
fn push_word(out: &mut Vec<u8>, word: u16)
    ensures
        final(out)@ == old(out)@.push(word_byte(word, 0)).push(word_byte(word, 1)),
{
    out.push((word / 256) as u8);
    out.push((word % 256) as u8);
}

/// The 16-bit value whose two bytes lie at `at`, the high one first.
fn word_from(bytes: &[u8], at: usize) -> (word: u16)
    requires
        at + 1 < bytes.len(),
    ensures
        word == opcode_at(bytes@, at as int),
{
    (bytes[at] as u16) * 256 + bytes[at + 1] as u16
}

/// The bytes of the file that holds a snapshot of `state`.
pub fn write_state(state: &EmulatorState) -> (bytes: Vec<u8>)
    requires
        state.wf(),
    ensures
        bytes@ == state_image(state@),
{
    let ghost m = state@;
    let mut out: Vec<u8> = Vec::new();
    let mut i: usize = 0;
    while i < MEMORY_SIZE
        invariant
            i <= MEMORY_SIZE,
            m == state@,
            m.wf(),
            out.len() == i,
            forall|j: int| 0 <= j < out.len() ==> out[j] == image_byte(m, j),
        decreases MEMORY_SIZE - i,
    {
        out.push(state.ram[i]);
        i += 1;
    }
    i = 0;
    while i < REGISTER_COUNT
        invariant
            i <= REGISTER_COUNT,
            m == state@,
            m.wf(),
            out.len() == IMAGE_REGISTERS + i,
            forall|j: int| 0 <= j < out.len() ==> out[j] == image_byte(m, j),
        decreases REGISTER_COUNT - i,
    {
        out.push(state.register_bank[i]);
        i += 1;
    }
    i = 0;
    while i < STACK_SLOTS
        invariant
            i <= STACK_SLOTS,
            m == state@,
            m.wf(),
            out.len() == IMAGE_STACK + 2 * i,
            forall|j: int| 0 <= j < out.len() ==> out[j] == image_byte(m, j),
        decreases STACK_SLOTS - i,
    {
        push_word(&mut out, state.stack[i]);
        i += 1;
    }
    out.push(state.stack_len as u8);
    push_word(&mut out, state.pc);
    push_word(&mut out, state.ireg);
    out.push(state.delay_timer);
    out.push(state.sound_timer);
    i = 0;
    while i < DISPLAY_CELLS
        invariant
            i <= DISPLAY_CELLS,
            m == state@,
            m.wf(),
            out.len() == IMAGE_DISPLAY + i,
            forall|j: int| 0 <= j < out.len() ==> out[j] == image_byte(m, j),
        decreases DISPLAY_CELLS - i,
    {
        out.push(
            if state.display[i] {
                1
            } else {
                0
            },
        );
        i += 1;
    }
    out
}

/// Whether every byte of `bytes` from `from` on is 0 or 1.
fn cells_valid(bytes: &[u8], from: usize) -> (ok: bool)
    requires
        from <= bytes.len(),
    ensures
        ok == forall|i: int| from <= i < bytes.len() ==> bytes@[i] <= 1,
{
    let mut i: usize = from;
    while i < bytes.len()
        invariant
            from <= i <= bytes.len(),
            forall|j: int| from <= j < i ==> bytes@[j] <= 1,
        decreases bytes.len() - i,
    {
        if bytes[i] > 1 {
            return false;
        }
        i += 1;
    }
    true
}

/// The machine that a snapshot file holds, given the bytes of the file.
///
/// Bytes that are not a snapshot are refused.
pub fn read_state(bytes: &[u8]) -> (res: Result<EmulatorState, EmulatorError>)
    ensures
        match res {
            Ok(state) => is_state_image(bytes@) && state.wf() && state@ == parsed_state(bytes@),
            Err(e) => !is_state_image(bytes@) && e == EmulatorError::Load,
        },
{
    if bytes.len() != IMAGE_SIZE || bytes[IMAGE_DEPTH] as usize > STACK_CAPACITY || !cells_valid(
        bytes,
        IMAGE_DISPLAY,
    ) {
        return Err(EmulatorError::Load);
    }
    let mut ram: Vec<u8> = Vec::new();
    let mut i: usize = 0;
    while i < MEMORY_SIZE
        invariant
            i <= MEMORY_SIZE,
            bytes.len() == IMAGE_SIZE,
            ram@ == bytes@.subrange(0, i as int),
        decreases MEMORY_SIZE - i,
    {
        ram.push(bytes[i]);
        i += 1;
    }
    let mut register_bank: Vec<u8> = Vec::new();
    i = 0;
    while i < REGISTER_COUNT
        invariant
            i <= REGISTER_COUNT,
            bytes.len() == IMAGE_SIZE,
            register_bank@ == bytes@.subrange(IMAGE_REGISTERS as int, IMAGE_REGISTERS + i),
        decreases REGISTER_COUNT - i,
    {
        register_bank.push(bytes[IMAGE_REGISTERS + i]);
        i += 1;
    }
    let mut stack: Vec<u16> = Vec::new();
    i = 0;
    while i < STACK_SLOTS
        invariant
            i <= STACK_SLOTS,
            bytes.len() == IMAGE_SIZE,
            stack.len() == i,
            forall|k: int| 0 <= k < i ==> stack[k] == opcode_at(bytes@, IMAGE_STACK + 2 * k),
        decreases STACK_SLOTS - i,
    {
        stack.push(word_from(bytes, IMAGE_STACK + 2 * i));
        i += 1;
    }
    let mut display: Vec<bool> = Vec::new();
    i = 0;
    while i < DISPLAY_CELLS
        invariant
            i <= DISPLAY_CELLS,
            bytes.len() == IMAGE_SIZE,
            display.len() == i,
            forall|k: int| 0 <= k < i ==> display[k] == (bytes@[IMAGE_DISPLAY + k] == 1),
        decreases DISPLAY_CELLS - i,
    {
        display.push(bytes[IMAGE_DISPLAY + i] == 1);
        i += 1;
    }
    let state = EmulatorState {
        ram,
        pc: word_from(bytes, IMAGE_PC),
        ireg: word_from(bytes, IMAGE_IREG),
        stack,
        stack_len: bytes[IMAGE_DEPTH] as usize,
        delay_timer: bytes[IMAGE_DELAY],
        sound_timer: bytes[IMAGE_SOUND],
        register_bank,
        display,
    };
    Ok(state)
}

} // verus!
