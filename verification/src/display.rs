use vstd::prelude::*;

use crate::emulator::EmulatorState;
use crate::error::EmulatorError;
use crate::machine::{
    clear_display, draw_sprite, sprite_covers, Machine, DISPLAY_CELLS, DISPLAY_HEIGHT,
    DISPLAY_WIDTH, FLAG_REGISTER, MEMORY_SIZE, REGISTER_COUNT,
};

verus! {

/// Turns every cell of the display off.
pub fn clear(state: &mut EmulatorState)
    requires
        old(state).wf(),
    ensures
        final(state).wf(),
        final(state)@ == clear_display(old(state)@),
    no_unwind
{
    let mut i: usize = 0;
    while i < DISPLAY_CELLS
        invariant
            i <= DISPLAY_CELLS,
            state.display.len() == DISPLAY_CELLS,
            forall|j: int| 0 <= j < i ==> !state.display[j],
            state@ == (Machine { display: state.display@, ..old(state)@ }),
        decreases DISPLAY_CELLS - i,
    {
        state.display[i] = false;
        i += 1;
    }
}

/// The display while a sprite is being drawn: the cells before `bound` have
/// received the sprite, the others are as they were.
spec fn partly_drawn(m: Machine, px: int, py: int, n: int, bound: int) -> Seq<bool> {
    Seq::new(
        DISPLAY_CELLS as nat,
        |idx: int|
            m.display[idx] != (idx < bound && sprite_covers(m.ram, m.ireg, px, py, n, idx)),
    )
}

/// Whether the sprite turns off a cell before `bound`.
spec fn collides_before(m: Machine, px: int, py: int, n: int, bound: int) -> bool {
    exists|idx: int|
        0 <= idx < bound && #[trigger] sprite_covers(m.ram, m.ireg, px, py, n, idx)
            && m.display[idx]
}

/// Draws the `n`-row sprite found at the index register, its corner at the
/// position that registers `vx` and `vy` give once reduced to the grid.
///
/// Each set bit of the sprite flips the cell under it; what leaves the grid
/// is cut off. The flag register ends as 1 when a lit cell went dark, as 0
/// otherwise.
pub fn draw(state: &mut EmulatorState, vx: usize, vy: usize, n: u16) -> (res: Result<
    (),
    EmulatorError,
>)
    requires
        old(state).wf(),
        vx < REGISTER_COUNT,
        vy < REGISTER_COUNT,
    ensures
        final(state).wf(),
        match draw_sprite(old(state)@, vx, vy, n) {
            Ok(m) => res is Ok && final(state)@ == m,
            Err(e) => res == Err::<(), EmulatorError>(e) && final(state)@ == old(state)@,
        },
    no_unwind
{
    let px: usize = (state.register_bank[vx] % 64) as usize;
    let py: usize = (state.register_bank[vy] % 32) as usize;
    let rows: usize = if (n as usize) < DISPLAY_HEIGHT - py {
        n as usize
    } else {
        DISPLAY_HEIGHT - py
    };
    let base: usize = state.ireg as usize;
    if rows > 0 && base + rows > MEMORY_SIZE {
        return Err(EmulatorError::ExecutionFault);
    }
    let ghost before = state@;
    let ghost gx = px as int;
    let ghost gy = py as int;
    let ghost gn = n as int;
    let mut collision: bool = false;
    let mut offset: usize = 0;
    while offset < rows
        invariant
            offset <= rows,
            rows <= DISPLAY_HEIGHT - py,
            rows <= n,
            px < DISPLAY_WIDTH,
            gx == px,
            gy == py,
            gn == n,
            base == before.ireg,
            rows > 0 ==> base + rows <= MEMORY_SIZE,
            before.wf(),
            state.wf(),
            state@ == (Machine { display: state.display@, ..before }),
            state.display@ == partly_drawn(before, gx, gy, gn, (py + offset) * 64),
            collision == collides_before(before, gx, gy, gn, (py + offset) * 64),
        decreases rows - offset,
    {
        let byte: u8 = state.ram[base + offset];
        let row_start: usize = (py + offset) * DISPLAY_WIDTH;
        let mut bit: usize = 0;
        while bit < 8 && px + bit < DISPLAY_WIDTH
            invariant
                bit <= 8,
                px + bit <= DISPLAY_WIDTH,
                offset < rows,
                rows <= DISPLAY_HEIGHT - py,
                rows <= n,
                px < DISPLAY_WIDTH,
                gx == px,
                gy == py,
                gn == n,
                base == before.ireg,
                base + rows <= MEMORY_SIZE,
                row_start == (py + offset) * DISPLAY_WIDTH,
                byte == before.ram[base + offset],
                before.wf(),
                state.wf(),
                state@ == (Machine { display: state.display@, ..before }),
                state.display@ == partly_drawn(before, gx, gy, gn, row_start + px + bit),
                collision == collides_before(before, gx, gy, gn, row_start + px + bit),
            decreases 8 - bit,
        {
            let idx: usize = row_start + px + bit;
            if byte & (0x80u8 >> (bit as u8)) != 0 {
                let lit: bool = state.display[idx];
                if lit {
                    collision = true;
                }
                state.display[idx] = !lit;
            }
            assert(state.display@ =~= partly_drawn(before, gx, gy, gn, idx + 1));
            bit += 1;
        }
        offset += 1;
    }
    state.register_bank[FLAG_REGISTER] = if collision {
        1
    } else {
        0
    };
    Ok(())
}

} // verus!
