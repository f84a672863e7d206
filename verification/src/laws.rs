use vstd::prelude::*;

use crate::error::EmulatorError;
use crate::instruction::{decode_spec, Instruction, Operand};
use crate::machine::{
    add_registers, bit_set, call_subroutine, draw_sprite, execute_spec, fetch_spec, load_spec,
    lowest_set_bit, sprite_covers, step_spec, subtract, wait_for_key, Machine, DISPLAY_CELLS,
    FLAG_REGISTER, MEMORY_SIZE, PROGRAM_START, REGISTER_COUNT, STACK_CAPACITY,
};

verus! {

// ---------------------------------------------------------------------------
// Loading

/// Loading a program that fits puts the program counter at the load address
/// and the program's bytes, in order, from that address on.
pub proof fn law_load_places_program(m: Machine, program: Seq<u8>)
    requires
        m.wf(),
        program.len() <= MEMORY_SIZE - PROGRAM_START,
    ensures
        load_spec(m, program) matches Ok(after) && after.wf() && after.pc == PROGRAM_START
            && forall|i: int|
            0 <= i < program.len() ==> after.ram[PROGRAM_START + i] == program[i],
{
}

/// A program that does not fit is refused.
pub proof fn law_load_refuses_long_program(m: Machine, program: Seq<u8>)
    requires
        program.len() > MEMORY_SIZE - PROGRAM_START,
    ensures
        load_spec(m, program) == Err::<Machine, EmulatorError>(EmulatorError::Load),
{
}

// ---------------------------------------------------------------------------
// The executor as a whole

/// Executing an instruction on a well-formed machine yields a well-formed
/// machine: the sizes stay, and the call stack stays within its capacity.
pub proof fn law_execute_keeps_well_formed(
    m: Machine,
    instruction: Instruction,
    keys: u16,
    prev_keys: u16,
    random: u8,
)
    requires
        m.wf(),
    ensures
        execute_spec(m, instruction, keys, prev_keys, random) matches Ok(after) ==> after.wf(),
{
}

/// Whatever the decoder produces, the executor has a meaning for: its
/// registers exist and its operands are of the kinds the operation takes.
pub proof fn law_decoded_shape_is_handled(
    opcode: u16,
    m: Machine,
    keys: u16,
    prev_keys: u16,
    random: u8,
)
    ensures
        decode_spec(opcode) matches Ok(instruction) ==> execute_spec(
            m,
            instruction,
            keys,
            prev_keys,
            random,
        ) != Err::<Machine, EmulatorError>(EmulatorError::OperandShape(instruction)),
{
}

/// Only a random instruction looks at the random byte.
pub proof fn law_random_byte_unused(
    m: Machine,
    instruction: Instruction,
    keys: u16,
    prev_keys: u16,
    r1: u8,
    r2: u8,
)
    requires
        !(instruction is Random),
    ensures
        execute_spec(m, instruction, keys, prev_keys, r1) == execute_spec(
            m,
            instruction,
            keys,
            prev_keys,
            r2,
        ),
{
}

// ---------------------------------------------------------------------------
// Arithmetic

/// Adding two registers keeps the whole nine-bit sum: the destination holds
/// its low eight bits and the flag its ninth. When the destination is the
/// flag register itself, the low eight bits are what stays.
pub proof fn law_add_keeps_the_sum(m: Machine, vd: usize, vx: usize, vy: usize)
    requires
        m.wf(),
        vd < REGISTER_COUNT,
        vx < REGISTER_COUNT,
        vy < REGISTER_COUNT,
    ensures
        add_registers(m, vd, vx, vy).reg(vd) == (m.reg(vx) + m.reg(vy)) % 256,
        vd != FLAG_REGISTER ==> add_registers(m, vd, vx, vy).reg(FLAG_REGISTER) * 256
            + add_registers(m, vd, vx, vy).reg(vd) == m.reg(vx) + m.reg(vy),
{
}

/// Subtracting reports in the flag whether the result is the true
/// difference: with the flag at 1 it is, with the flag at 0 it is the
/// difference plus 256.
pub proof fn law_subtract_borrows(m: Machine, vd: usize, vx: usize, vy: usize)
    requires
        m.wf(),
        vd < REGISTER_COUNT,
        vx < REGISTER_COUNT,
        vy < REGISTER_COUNT,
        vd != FLAG_REGISTER,
    ensures
        subtract(m, vd, vx, vy).reg(FLAG_REGISTER) == 1 <==> m.reg(vx) >= m.reg(vy),
        subtract(m, vd, vx, vy).reg(FLAG_REGISTER) == 1 ==> subtract(m, vd, vx, vy).reg(vd)
            == m.reg(vx) - m.reg(vy),
        subtract(m, vd, vx, vy).reg(FLAG_REGISTER) == 0 ==> subtract(m, vd, vx, vy).reg(vd)
            == m.reg(vx) - m.reg(vy) + 256,
        subtract(m, vd, vx, vy).reg(FLAG_REGISTER) <= 1,
{
}

// ---------------------------------------------------------------------------
// Display

/// Clearing the display leaves 2048 cells, all off, whatever it showed.
pub proof fn law_clear_blanks_display(m: Machine, keys: u16, prev_keys: u16, random: u8)
    ensures
        execute_spec(m, Instruction::ClearDisplay, keys, prev_keys, random) matches Ok(after)
            && after.display.len() == DISPLAY_CELLS && forall|i: int|
            0 <= i < DISPLAY_CELLS ==> !after.display[i],
{
}

/// Drawing a sprite twice at one place restores the display.
///
/// The second draw must find the sprite where the first put it: the two
/// position registers, reduced to the grid, are the same after the first
/// draw as before. Then every cell is back to what it showed, and the
/// second draw reports a collision exactly when the first lit a cell.
pub proof fn law_draw_twice_restores(m: Machine, vx: usize, vy: usize, n: u16)
    requires
        m.wf(),
        vx < REGISTER_COUNT,
        vy < REGISTER_COUNT,
        draw_sprite(m, vx, vy, n) matches Ok(once) && once.reg(vx) % 64 == m.reg(vx) % 64
            && once.reg(vy) % 32 == m.reg(vy) % 32,
    ensures
        draw_sprite(m, vx, vy, n) matches Ok(once) && draw_sprite(once, vx, vy, n) matches Ok(
            twice,
        ) && twice.display == m.display && (twice.reg(FLAG_REGISTER) == 1 <==> exists|idx: int|
            0 <= idx < DISPLAY_CELLS && #[trigger] sprite_covers(
                m.ram,
                m.ireg,
                (m.reg(vx) % 64) as int,
                (m.reg(vy) % 32) as int,
                n as int,
                idx,
            ) && !m.display[idx]) && (twice.reg(FLAG_REGISTER) == 0 || twice.reg(FLAG_REGISTER)
            == 1),
{
}

// ---------------------------------------------------------------------------
// Subroutines

/// A call followed at once by a return puts the program counter, and the
/// depth of the stack, back to what they were before the call.
pub proof fn law_call_then_return(
    m: Machine,
    addr: u16,
    keys: u16,
    prev_keys: u16,
    random: u8,
)
    requires
        m.wf(),
    ensures
        execute_spec(
            m,
            Instruction::CallSubroutine(Operand::Literal(addr)),
            keys,
            prev_keys,
            random,
        ) matches Ok(called) ==> called.pc == addr && (execute_spec(
            called,
            Instruction::ReturnSubroutine,
            keys,
            prev_keys,
            random,
        ) matches Ok(back) && back.pc == m.pc && back.stack_len == m.stack_len),
{
}

/// A call succeeds exactly when fewer than sixteen return addresses are
/// stacked; otherwise it fails with a stack overflow.
pub proof fn law_call_overflows_when_full(m: Machine, addr: u16)
    requires
        m.wf(),
    ensures
        m.stack_len < STACK_CAPACITY ==> (call_subroutine(m, addr) matches Ok(called)
            && called.stack_len == m.stack_len + 1),
        m.stack_len == STACK_CAPACITY ==> call_subroutine(m, addr) == Err::<
            Machine,
            EmulatorError,
        >(EmulatorError::StackOverflow),
{
}

/// The machine after calling each of `addrs` in turn, or the first failure.
pub open spec fn nested_calls(m: Machine, addrs: Seq<u16>) -> Result<Machine, EmulatorError>
    decreases addrs.len(),
{
    if addrs.len() == 0 {
        Ok(m)
    } else {
        match nested_calls(m, addrs.drop_last()) {
            Ok(inner) => call_subroutine(inner, addrs.last()),
            Err(e) => Err(e),
        }
    }
}

/// From an empty stack, calls nested up to sixteen deep succeed and reach a
/// depth equal to their number; the seventeenth, and any after it, fails
/// with a stack overflow.
pub proof fn law_nested_calls(m: Machine, addrs: Seq<u16>)
    requires
        m.wf(),
        m.stack_len == 0,
    ensures
        addrs.len() <= STACK_CAPACITY ==> (nested_calls(m, addrs) matches Ok(inner) && inner.wf()
            && inner.stack_len == addrs.len()),
        addrs.len() > STACK_CAPACITY ==> nested_calls(m, addrs) == Err::<Machine, EmulatorError>(
            EmulatorError::StackOverflow,
        ),
    decreases addrs.len(),
{
    if addrs.len() > 0 {
        law_nested_calls(m, addrs.drop_last());
    }
}

// ---------------------------------------------------------------------------
// Waiting for a key

/// What `lowest_set_bit` finds: a set bit with no set bit between `from` and
/// it, or 16 when no bit from `from` on is set.
pub proof fn lemma_lowest_set_bit(mask: u16, from: u8)
    requires
        from <= 16,
    ensures
        from <= lowest_set_bit(mask, from) <= 16,
        lowest_set_bit(mask, from) < 16 ==> bit_set(mask, lowest_set_bit(mask, from)),
        forall|j: u8| from <= j < lowest_set_bit(mask, from) ==> !bit_set(mask, j),
    decreases 16 - from,
{
    if from < 16 && !bit_set(mask, from) {
        lemma_lowest_set_bit(mask, (from + 1) as u8);
    }
}

/// A set bit below which no bit is set is the one `lowest_set_bit` finds.
pub proof fn lemma_lowest_set_bit_is(mask: u16, i: u8)
    requires
        bit_set(mask, i),
        forall|j: u8| j < i ==> !bit_set(mask, j),
    ensures
        lowest_set_bit(mask, 0) == i,
{
    lemma_lowest_set_bit(mask, 0);
}

/// How the bits of two masks combine, bit by bit.
proof fn lemma_bits_combine(a: u16, b: u16, i: u8)
    by (bit_vector)
    requires
        i < 16,
    ensures
        ((a ^ b) & (1u16 << i) != 0) == ((a & (1u16 << i) != 0) != (b & (1u16 << i) != 0)),
        ((a & !b) & (1u16 << i) != 0) == ((a & (1u16 << i) != 0) && !(b & (1u16 << i) != 0)),
{
}

/// A mask that is not zero has a set bit.
proof fn lemma_nonzero_has_bit(a: u16)
    by (bit_vector)
    requires
        a != 0,
    ensures
        a & (1u16 << 0u8) != 0 || a & (1u16 << 1u8) != 0 || a & (1u16 << 2u8) != 0 || a & (1u16
            << 3u8) != 0 || a & (1u16 << 4u8) != 0 || a & (1u16 << 5u8) != 0 || a & (1u16 << 6u8)
            != 0 || a & (1u16 << 7u8) != 0 || a & (1u16 << 8u8) != 0 || a & (1u16 << 9u8) != 0
            || a & (1u16 << 10u8) != 0 || a & (1u16 << 11u8) != 0 || a & (1u16 << 12u8) != 0 || a
            & (1u16 << 13u8) != 0 || a & (1u16 << 14u8) != 0 || a & (1u16 << 15u8) != 0,
{
}

/// Two masks that differ, differ in one of their sixteen bits.
proof fn lemma_differ_in_a_bit(a: u16, b: u16)
    by (bit_vector)
    requires
        a != b,
    ensures
        a ^ b != 0,
{
}

/// When the keys change, the waiting instruction finds a key: the lowest one
/// that changed is written to the register and nothing else moves.
pub proof fn law_wait_receives_lowest_changed_key(m: Machine, vx: usize, keys: u16, prev_keys: u16)
    requires
        m.wf(),
        vx < REGISTER_COUNT,
        keys != prev_keys,
    ensures
        wait_for_key(m, vx, keys, prev_keys) matches Ok(after) && after == m.with_reg(
            vx,
            after.reg(vx),
        ) && after.reg(vx) < 16 && bit_set(keys, after.reg(vx)) != bit_set(
            prev_keys,
            after.reg(vx),
        ) && forall|j: u8| j < after.reg(vx) ==> bit_set(keys, j) == bit_set(prev_keys, j),
{
    let mask = keys ^ prev_keys;
    let found = lowest_set_bit(mask, 0);
    lemma_lowest_set_bit(mask, 0);
    lemma_differ_in_a_bit(keys, prev_keys);
    lemma_nonzero_has_bit(mask);
    assert(found < 16) by {
        if found == 16 {
            assert(!bit_set(mask, 0) && !bit_set(mask, 1) && !bit_set(mask, 2) && !bit_set(
                mask,
                3,
            ) && !bit_set(mask, 4) && !bit_set(mask, 5) && !bit_set(mask, 6) && !bit_set(mask, 7)
                && !bit_set(mask, 8) && !bit_set(mask, 9) && !bit_set(mask, 10) && !bit_set(
                mask,
                11,
            ) && !bit_set(mask, 12) && !bit_set(mask, 13) && !bit_set(mask, 14) && !bit_set(
                mask,
                15,
            ));
        }
    }
    lemma_bits_combine(keys, prev_keys, found);
    assert forall|j: u8| j < found implies bit_set(keys, j) == bit_set(prev_keys, j) by {
        lemma_bits_combine(keys, prev_keys, j);
        assert(!bit_set(mask, j));
    }
}

/// When the keys change and the lowest key that changed was pressed, not
/// released, the register receives the lowest of the newly pressed keys.
pub proof fn law_wait_receives_lowest_new_key(m: Machine, vx: usize, keys: u16, prev_keys: u16)
    requires
        m.wf(),
        vx < REGISTER_COUNT,
        keys != prev_keys,
        bit_set(keys, lowest_set_bit(keys ^ prev_keys, 0)),
    ensures
        wait_for_key(m, vx, keys, prev_keys) matches Ok(after) && after.reg(vx) == lowest_set_bit(
            keys & !prev_keys,
            0,
        ) && after.pc == m.pc,
{
    law_wait_receives_lowest_changed_key(m, vx, keys, prev_keys);
    let found = lowest_set_bit(keys ^ prev_keys, 0);
    let fresh = keys & !prev_keys;
    lemma_bits_combine(keys, prev_keys, found);
    assert forall|j: u8| j < found implies !bit_set(fresh, j) by {
        lemma_bits_combine(keys, prev_keys, j);
        assert(bit_set(keys, j) == bit_set(prev_keys, j));
    }
    lemma_lowest_set_bit_is(fresh, found);
}

/// While the keys stay as they were, a step on a waiting instruction changes
/// nothing: the program counter, moved past the instruction and back, is
/// where it was, and no register is written.
pub proof fn law_wait_holds_on_unchanged_keys(m: Machine, keys: u16, random: u8)
    requires
        m.wf(),
        fetch_spec(m) matches Ok(opcode) && opcode != 0 && decode_spec(opcode) is Ok
            && decode_spec(opcode)->Ok_0 is WaitForKey,
    ensures
        step_spec(m, keys, keys, random) == Ok::<(Machine, u16), EmulatorError>((m, keys)),
{
}

/// Of two steps in a row with the same keys, the second changes nothing
/// when it finds a waiting instruction.
pub proof fn law_wait_across_two_steps(
    m: Machine,
    prev_keys: u16,
    keys: u16,
    r1: u8,
    r2: u8,
)
    requires
        m.wf(),
        step_spec(m, prev_keys, keys, r1) matches Ok((next, seen)) && (fetch_spec(
            next,
        ) matches Ok(opcode) && opcode != 0 && decode_spec(opcode) is Ok && decode_spec(
            opcode,
        )->Ok_0 is WaitForKey),
    ensures
        step_spec(m, prev_keys, keys, r1) matches Ok((next, seen)) && step_spec(
            next,
            seen,
            keys,
            r2,
        ) == Ok::<(Machine, u16), EmulatorError>((next, seen)),
{
    let first = step_spec(m, prev_keys, keys, r1)->Ok_0;
    let next = first.0;
    if fetch_spec(m)->Ok_0 != 0 {
        law_execute_keeps_well_formed(
            m.with_pc((m.pc + 2) as u16),
            decode_spec(fetch_spec(m)->Ok_0)->Ok_0,
            keys,
            prev_keys,
            r1,
        );
        law_wait_holds_on_unchanged_keys(next, keys, r2);
    }
}

} // verus!
