use vstd::prelude::*;

use crate::display::{clear, draw};
use crate::emulator::EmulatorState;
use crate::error::EmulatorError;
use crate::instruction::{Instruction, Operand};
use crate::machine::{
    add_registers, bit_set, call_subroutine, dump_registers, execute_spec, jump_relative,
    load_registers, lowest_set_bit, return_subroutine, set_index, shift_left, shift_right,
    skip_if, store_bcd, subtract, wait_for_key, Machine, FLAG_REGISTER, FONT_BASE, GLYPH_SIZE,
    MEMORY_SIZE, REGISTER_COUNT, STACK_CAPACITY,
};

verus! {

/// Whether key `k` is held in `keys`. A key past the fifteenth never is.
pub fn key_down(keys: u16, k: u8) -> (down: bool)
    ensures
        down == bit_set(keys, k),
    no_unwind
{
    k < 16 && keys & (1u16 << k) != 0
}

/// The lowest index at which `mask` has a set bit, or 16 when it is zero.
pub fn lowest_key(mask: u16) -> (i: u8)
    ensures
        i == lowest_set_bit(mask, 0),
    no_unwind
{
    let mut i: u8 = 0;
    while i < 16
        invariant
            i <= 16,
            lowest_set_bit(mask, 0) == lowest_set_bit(mask, i),
        decreases 16 - i,
    {
        if mask & (1u16 << i) != 0 {
            return i;
        }
        i += 1;
    }
    i
}

/// Writes `value` to register `i`.
fn set_reg(state: &mut EmulatorState, i: usize, value: u8)
    requires
        old(state).wf(),
        i < REGISTER_COUNT,
    ensures
        final(state).wf(),
        final(state)@ == old(state)@.with_reg(i, value),
    no_unwind
{
    state.register_bank[i] = value;
}

/// Skips the next instruction when `taken`.
fn skip(state: &mut EmulatorState, taken: bool) -> (res: Result<(), EmulatorError>)
    requires
        old(state).wf(),
    ensures
        final(state).wf(),
        match skip_if(old(state)@, taken) {
            Ok(m) => res is Ok && final(state)@ == m,
            Err(e) => res == Err::<(), EmulatorError>(e) && final(state)@ == old(state)@,
        },
    no_unwind
{
    if taken {
        if state.pc > u16::MAX - 2 {
            return Err(EmulatorError::ExecutionFault);
        }
        state.pc = state.pc + 2;
    }
    Ok(())
}

/// Points the index register at `a + b`.
fn point_index(state: &mut EmulatorState, a: u16, b: u16) -> (res: Result<(), EmulatorError>)
    requires
        old(state).wf(),
    ensures
        final(state).wf(),
        match set_index(old(state)@, a as int, b as int) {
            Ok(m) => res is Ok && final(state)@ == m,
            Err(e) => res == Err::<(), EmulatorError>(e) && final(state)@ == old(state)@,
        },
    no_unwind
{
    if a > u16::MAX - b {
        return Err(EmulatorError::ExecutionFault);
    }
    state.ireg = a + b;
    Ok(())
}

/// Stacks the program counter and jumps to `addr`.
fn call(state: &mut EmulatorState, addr: u16) -> (res: Result<(), EmulatorError>)
    requires
        old(state).wf(),
    ensures
        final(state).wf(),
        match call_subroutine(old(state)@, addr) {
            Ok(m) => res is Ok && final(state)@ == m,
            Err(e) => res == Err::<(), EmulatorError>(e) && final(state)@ == old(state)@,
        },
    no_unwind
{
    if state.stack_len < STACK_CAPACITY {
        let depth: usize = state.stack_len;
        state.stack[depth] = state.pc;
        state.stack_len = depth + 1;
        state.pc = addr;
        Ok(())
    } else {
        Err(EmulatorError::StackOverflow)
    }
}

/// Returns to the address stacked last.
fn ret(state: &mut EmulatorState) -> (res: Result<(), EmulatorError>)
    requires
        old(state).wf(),
    ensures
        final(state).wf(),
        match return_subroutine(old(state)@) {
            Ok(m) => res is Ok && final(state)@ == m,
            Err(e) => res == Err::<(), EmulatorError>(e) && final(state)@ == old(state)@,
        },
    no_unwind
{
    if state.stack_len == 0 {
        Err(EmulatorError::StackUnderflow)
    } else {
        state.pc = state.stack[state.stack_len - 1];
        state.stack_len = state.stack_len - 1;
        Ok(())
    }
}

/// Jumps to `addr` plus register 0.
fn jump_offset(state: &mut EmulatorState, addr: u16) -> (res: Result<(), EmulatorError>)
    requires
        old(state).wf(),
    ensures
        final(state).wf(),
        match jump_relative(old(state)@, addr) {
            Ok(m) => res is Ok && final(state)@ == m,
            Err(e) => res == Err::<(), EmulatorError>(e) && final(state)@ == old(state)@,
        },
    no_unwind
{
    let offset: u16 = state.register_bank[0] as u16;
    if addr > u16::MAX - offset {
        return Err(EmulatorError::ExecutionFault);
    }
    state.pc = offset + addr;
    Ok(())
}

/// Adds registers `vx` and `vy` into `vd`, the carry into the flag.
fn add_carry(state: &mut EmulatorState, vd: usize, vx: usize, vy: usize)
    requires
        old(state).wf(),
        vd < REGISTER_COUNT,
        vx < REGISTER_COUNT,
        vy < REGISTER_COUNT,
    ensures
        final(state).wf(),
        final(state)@ == add_registers(old(state)@, vd, vx, vy),
    no_unwind
{
    let sum: u16 = state.register_bank[vx] as u16 + state.register_bank[vy] as u16;
    set_reg(state, FLAG_REGISTER, (sum / 256) as u8);
    set_reg(state, vd, (sum % 256) as u8);
}

/// Subtracts register `vy` from `vx` into `vd`; the flag tells whether
/// nothing was borrowed.
fn sub_borrow(state: &mut EmulatorState, vd: usize, vx: usize, vy: usize)
    requires
        old(state).wf(),
        vd < REGISTER_COUNT,
        vx < REGISTER_COUNT,
        vy < REGISTER_COUNT,
    ensures
        final(state).wf(),
        final(state)@ == subtract(old(state)@, vd, vx, vy),
    no_unwind
{
    let x: u8 = state.register_bank[vx];
    let y: u8 = state.register_bank[vy];
    if y > x {
        set_reg(state, FLAG_REGISTER, 0);
        set_reg(state, vd, 255 - (y - x - 1));
    } else {
        set_reg(state, FLAG_REGISTER, 1);
        set_reg(state, vd, x - y);
    }
}

/// Shifts register `vx` right by one.
fn shr(state: &mut EmulatorState, vx: usize)
    requires
        old(state).wf(),
        vx < REGISTER_COUNT,
    ensures
        final(state).wf(),
        final(state)@ == shift_right(old(state)@, vx),
    no_unwind
{
    if state.register_bank[vx] % 2 == 1 {
        set_reg(state, FLAG_REGISTER, 1);
    }
    let v: u8 = state.register_bank[vx];
    set_reg(state, vx, v / 2);
}

/// Shifts register `vx` left by one.
fn shl(state: &mut EmulatorState, vx: usize)
    requires
        old(state).wf(),
        vx < REGISTER_COUNT,
    ensures
        final(state).wf(),
        final(state)@ == shift_left(old(state)@, vx),
    no_unwind
{
    if state.register_bank[vx] >= 128 {
        set_reg(state, FLAG_REGISTER, 1);
    }
    let v: u8 = state.register_bank[vx];
    set_reg(state, vx, (v % 128) * 2);
}

/// Takes the lowest key that changed, or steps back to wait for one.
fn wait_key(state: &mut EmulatorState, vx: usize, keys: u16, prev_keys: u16) -> (res: Result<
    (),
    EmulatorError,
>)
    requires
        old(state).wf(),
        vx < REGISTER_COUNT,
    ensures
        final(state).wf(),
        match wait_for_key(old(state)@, vx, keys, prev_keys) {
            Ok(m) => res is Ok && final(state)@ == m,
            Err(e) => res == Err::<(), EmulatorError>(e) && final(state)@ == old(state)@,
        },
    no_unwind
{
    if keys != prev_keys {
        set_reg(state, vx, lowest_key(keys ^ prev_keys));
        Ok(())
    } else if state.pc < 2 {
        Err(EmulatorError::ExecutionFault)
    } else {
        state.pc = state.pc - 2;
        Ok(())
    }
}

/// Writes the three decimal digits of register `vx` at the index register.
fn bcd(state: &mut EmulatorState, vx: usize) -> (res: Result<(), EmulatorError>)
    requires
        old(state).wf(),
        vx < REGISTER_COUNT,
    ensures
        final(state).wf(),
        match store_bcd(old(state)@, vx) {
            Ok(m) => res is Ok && final(state)@ == m,
            Err(e) => res == Err::<(), EmulatorError>(e) && final(state)@ == old(state)@,
        },
    no_unwind
{
    let at: usize = state.ireg as usize;
    if at + 2 >= MEMORY_SIZE {
        return Err(EmulatorError::ExecutionFault);
    }
    let v: u8 = state.register_bank[vx];
    state.ram[at] = v / 100;
    state.ram[at + 1] = (v / 10) % 10;
    state.ram[at + 2] = v % 10;
    Ok(())
}

/// Copies registers 0 to `vx` to memory at the index register.
fn dump(state: &mut EmulatorState, vx: usize) -> (res: Result<(), EmulatorError>)
    requires
        old(state).wf(),
        vx < REGISTER_COUNT,
    ensures
        final(state).wf(),
        match dump_registers(old(state)@, vx) {
            Ok(m) => res is Ok && final(state)@ == m,
            Err(e) => res == Err::<(), EmulatorError>(e) && final(state)@ == old(state)@,
        },
    no_unwind
{
    let at: usize = state.ireg as usize;
    if at + vx >= MEMORY_SIZE {
        return Err(EmulatorError::ExecutionFault);
    }
    let ghost before = state@;
    let mut i: usize = 0;
    while i <= vx
        invariant
            i <= vx + 1,
            vx < REGISTER_COUNT,
            at == before.ireg,
            at + vx < MEMORY_SIZE,
            before.wf(),
            state.wf(),
            state@ == (Machine { ram: state.ram@, ..before }),
            forall|j: int|
                0 <= j < MEMORY_SIZE ==> state.ram[j] == if at <= j < at + i {
                    before.register_bank[j - at]
                } else {
                    before.ram[j]
                },
        decreases vx + 1 - i,
    {
        state.ram[at + i] = state.register_bank[i];
        i += 1;
    }
    Ok(())
}

/// Copies memory at the index register to registers 0 to `vx`.
fn load(state: &mut EmulatorState, vx: usize) -> (res: Result<(), EmulatorError>)
    requires
        old(state).wf(),
        vx < REGISTER_COUNT,
    ensures
        final(state).wf(),
        match load_registers(old(state)@, vx) {
            Ok(m) => res is Ok && final(state)@ == m,
            Err(e) => res == Err::<(), EmulatorError>(e) && final(state)@ == old(state)@,
        },
    no_unwind
{
    let at: usize = state.ireg as usize;
    if at + vx >= MEMORY_SIZE {
        return Err(EmulatorError::ExecutionFault);
    }
    let ghost before = state@;
    let mut i: usize = 0;
    while i <= vx
        invariant
            i <= vx + 1,
            vx < REGISTER_COUNT,
            at == before.ireg,
            at + vx < MEMORY_SIZE,
            before.wf(),
            state.wf(),
            state@ == (Machine { register_bank: state.register_bank@, ..before }),
            forall|j: int|
                0 <= j < REGISTER_COUNT ==> state.register_bank[j] == if j < i {
                    before.ram[at + j]
                } else {
                    before.register_bank[j]
                },
        decreases vx + 1 - i,
    {
        state.register_bank[i] = state.ram[at + i];
        i += 1;
    }
    Ok(())
}

/// Executes one decoded instruction on `state`.
///
/// `keys` are the keys held now, `prev_keys` those seen by the instruction
/// before, and `random` the byte that a random instruction draws. When the
/// instruction is refused the state is left as it was.
pub fn execute(
    state: &mut EmulatorState,
    instruction: Instruction,
    keys: u16,
    prev_keys: u16,
    random: u8,
) -> (res: Result<(), EmulatorError>)
    requires
        old(state).wf(),
    ensures
        final(state).wf(),
        match execute_spec(old(state)@, instruction, keys, prev_keys, random) {
            Ok(m) => res is Ok && final(state)@ == m,
            Err(e) => res == Err::<(), EmulatorError>(e) && final(state)@ == old(state)@,
        },
    no_unwind
{
    let shape = Err(EmulatorError::OperandShape(instruction));
    match instruction {
        Instruction::ClearDisplay => {
            clear(state);
            Ok(())
        },
        Instruction::DrawSprite(Operand::Reg(vx), Operand::Reg(vy), Operand::Literal(n)) => {
            if vx < REGISTER_COUNT && vy < REGISTER_COUNT {
                draw(state, vx, vy, n)
            } else {
                shape
            }
        },
        Instruction::CallSubroutine(Operand::Literal(n)) => call(state, n),
        Instruction::ReturnSubroutine => ret(state),
        Instruction::Jump(Operand::Literal(n)) => {
            state.pc = n;
            Ok(())
        },
        Instruction::JumpRelative(Operand::Literal(n)) => jump_offset(state, n),
        Instruction::SkipIfEqual(Operand::Reg(vx), Operand::Literal(n)) => {
            if vx < REGISTER_COUNT {
                let taken: bool = state.register_bank[vx] == (n % 256) as u8;
                skip(state, taken)
            } else {
                shape
            }
        },
        Instruction::SkipIfEqual(Operand::Reg(vx), Operand::Reg(vy)) => {
            if vx < REGISTER_COUNT && vy < REGISTER_COUNT {
                let taken: bool = state.register_bank[vx] == state.register_bank[vy];
                skip(state, taken)
            } else {
                shape
            }
        },
        Instruction::SkipIfEqual(Operand::Key, Operand::Reg(vx)) => {
            if vx < REGISTER_COUNT {
                let taken: bool = key_down(keys, state.register_bank[vx]);
                skip(state, taken)
            } else {
                shape
            }
        },
        Instruction::SkipIfNotEqual(Operand::Reg(vx), Operand::Literal(n)) => {
            if vx < REGISTER_COUNT {
                let taken: bool = state.register_bank[vx] != (n % 256) as u8;
                skip(state, taken)
            } else {
                shape
            }
        },
        Instruction::SkipIfNotEqual(Operand::Reg(vx), Operand::Reg(vy)) => {
            if vx < REGISTER_COUNT && vy < REGISTER_COUNT {
                let taken: bool = state.register_bank[vx] != state.register_bank[vy];
                skip(state, taken)
            } else {
                shape
            }
        },
        Instruction::SkipIfNotEqual(Operand::Key, Operand::Reg(vx)) => {
            if vx < REGISTER_COUNT {
                let taken: bool = !key_down(keys, state.register_bank[vx]);
                skip(state, taken)
            } else {
                shape
            }
        },
        Instruction::Add(Operand::IReg, Operand::Literal(a), Operand::Literal(b)) => point_index(
            state,
            a,
            b,
        ),
        Instruction::Add(Operand::IReg, Operand::IReg, Operand::Reg(vx)) => {
            if vx < REGISTER_COUNT {
                let a: u16 = state.ireg;
                let b: u16 = state.register_bank[vx] as u16;
                point_index(state, a, b)
            } else {
                shape
            }
        },
        Instruction::Add(Operand::Reg(vx), Operand::Literal(a), Operand::Literal(b)) => {
            if vx < REGISTER_COUNT {
                set_reg(state, vx, ((a as u32 + b as u32) % 256) as u8);
                Ok(())
            } else {
                shape
            }
        },
        Instruction::Add(Operand::Reg(vx), Operand::Reg(vy), Operand::Literal(n)) => {
            if vx < REGISTER_COUNT && vy < REGISTER_COUNT {
                let a: u32 = state.register_bank[vy] as u32;
                set_reg(state, vx, ((a + n as u32) % 256) as u8);
                Ok(())
            } else {
                shape
            }
        },
        Instruction::Add(Operand::Reg(vd), Operand::Reg(vx), Operand::Reg(vy)) => {
            if vd < REGISTER_COUNT && vx < REGISTER_COUNT && vy < REGISTER_COUNT {
                add_carry(state, vd, vx, vy);
                Ok(())
            } else {
                shape
            }
        },
        Instruction::Subtract(Operand::Reg(vd), Operand::Reg(vx), Operand::Reg(vy)) => {
            if vd < REGISTER_COUNT && vx < REGISTER_COUNT && vy < REGISTER_COUNT {
                sub_borrow(state, vd, vx, vy);
                Ok(())
            } else {
                shape
            }
        },
        Instruction::BitwiseOr(Operand::Reg(vd), Operand::Reg(vx), Operand::Reg(vy)) => {
            if vd < REGISTER_COUNT && vx < REGISTER_COUNT && vy < REGISTER_COUNT {
                let v: u8 = state.register_bank[vx] | state.register_bank[vy];
                set_reg(state, vd, v);
                Ok(())
            } else {
                shape
            }
        },
        Instruction::BitwiseAnd(Operand::Reg(vd), Operand::Reg(vx), Operand::Reg(vy)) => {
            if vd < REGISTER_COUNT && vx < REGISTER_COUNT && vy < REGISTER_COUNT {
                let v: u8 = state.register_bank[vx] & state.register_bank[vy];
                set_reg(state, vd, v);
                Ok(())
            } else {
                shape
            }
        },
        Instruction::BitwiseXor(Operand::Reg(vd), Operand::Reg(vx), Operand::Reg(vy)) => {
            if vd < REGISTER_COUNT && vx < REGISTER_COUNT && vy < REGISTER_COUNT {
                let v: u8 = state.register_bank[vx] ^ state.register_bank[vy];
                set_reg(state, vd, v);
                Ok(())
            } else {
                shape
            }
        },
        Instruction::ShiftRight(Operand::Reg(vx)) => {
            if vx < REGISTER_COUNT {
                shr(state, vx);
                Ok(())
            } else {
                shape
            }
        },
        Instruction::ShiftLeft(Operand::Reg(vx)) => {
            if vx < REGISTER_COUNT {
                shl(state, vx);
                Ok(())
            } else {
                shape
            }
        },
        Instruction::Random(Operand::Reg(vx), Operand::Literal(n)) => {
            if vx < REGISTER_COUNT {
                set_reg(state, vx, random & (n % 256) as u8);
                Ok(())
            } else {
                shape
            }
        },
        Instruction::ReadDelayTimer(Operand::Reg(vx)) => {
            if vx < REGISTER_COUNT {
                let v: u8 = state.delay_timer;
                set_reg(state, vx, v);
                Ok(())
            } else {
                shape
            }
        },
        Instruction::WaitForKey(Operand::Reg(vx)) => {
            if vx < REGISTER_COUNT {
                wait_key(state, vx, keys, prev_keys)
            } else {
                shape
            }
        },
        Instruction::WriteDelayTimer(Operand::Reg(vx)) => {
            if vx < REGISTER_COUNT {
                state.delay_timer = state.register_bank[vx];
                Ok(())
            } else {
                shape
            }
        },
        Instruction::WriteSoundTimer(Operand::Reg(vx)) => {
            if vx < REGISTER_COUNT {
                state.sound_timer = state.register_bank[vx];
                Ok(())
            } else {
                shape
            }
        },
        Instruction::GetSpriteAddress(Operand::Reg(vx)) => {
            if vx < REGISTER_COUNT {
                state.ireg = FONT_BASE + GLYPH_SIZE * (state.register_bank[vx] as u16);
                Ok(())
            } else {
                shape
            }
        },
        Instruction::StoreBCD(Operand::Reg(vx)) => {
            if vx < REGISTER_COUNT {
                bcd(state, vx)
            } else {
                shape
            }
        },
        Instruction::DumpRegisters(Operand::Reg(vx)) => {
            if vx < REGISTER_COUNT {
                dump(state, vx)
            } else {
                shape
            }
        },
        Instruction::LoadRegisters(Operand::Reg(vx)) => {
            if vx < REGISTER_COUNT {
                load(state, vx)
            } else {
                shape
            }
        },
        _ => shape,
    }
}

} // verus!
