use vstd::prelude::*;

use crate::error::EmulatorError;
use crate::instruction::{decode_spec, Instruction, Operand};

verus! {

/// Number of addressable bytes of memory.
pub const MEMORY_SIZE: usize = 4096;

/// Address at which a loaded program starts.
pub const PROGRAM_START: usize = 512;

/// Number of general-purpose registers.
pub const REGISTER_COUNT: usize = 16;

/// Index of the register that doubles as carry, borrow and collision flag.
pub const FLAG_REGISTER: usize = 15;

/// Number of return addresses the call stack may hold.
pub const STACK_CAPACITY: usize = 16;

/// Number of slots in the storage behind the call stack.
pub const STACK_SLOTS: usize = 32;

/// Width of the display in cells.
pub const DISPLAY_WIDTH: usize = 64;

/// Height of the display in cells.
pub const DISPLAY_HEIGHT: usize = 32;

/// Number of cells of the display, stored row by row.
pub const DISPLAY_CELLS: usize = 2048;

/// Address of the glyph for the digit 0.
pub const FONT_BASE: u16 = 0x50;

/// Number of bytes of one glyph.
pub const GLYPH_SIZE: u16 = 5;

/// The machine as a mathematical value: what an `EmulatorState` holds, with
/// sequences in place of vectors.
#[verifier::ext_equal]
pub struct Machine {
    pub ram: Seq<u8>,
    pub pc: u16,
    pub ireg: u16,
    pub stack: Seq<u16>,
    pub stack_len: usize,
    pub delay_timer: u8,
    pub sound_timer: u8,
    pub register_bank: Seq<u8>,
    pub display: Seq<bool>,
}

impl Machine {
    /// The sizes that every machine has, and the bound on the call depth.
    pub open spec fn wf(self) -> bool {
        &&& self.ram.len() == MEMORY_SIZE
        &&& self.register_bank.len() == REGISTER_COUNT
        &&& self.display.len() == DISPLAY_CELLS
        &&& self.stack.len() == STACK_SLOTS
        &&& self.stack_len <= STACK_CAPACITY
    }

    /// The value of register `i`.
    pub open spec fn reg(self, i: usize) -> u8 {
        self.register_bank[i as int]
    }

    /// This machine with register `i` set to `value`.
    pub open spec fn with_reg(self, i: usize, value: u8) -> Machine {
        Machine { register_bank: self.register_bank.update(i as int, value), ..self }
    }

    /// This machine with the program counter set to `pc`.
    pub open spec fn with_pc(self, pc: u16) -> Machine {
        Machine { pc, ..self }
    }

    /// This machine with the index register set to `ireg`.
    pub open spec fn with_ireg(self, ireg: u16) -> Machine {
        Machine { ireg, ..self }
    }
}

/// The machine before any program is loaded: everything zero, display blank.
pub open spec fn initial_machine() -> Machine {
    Machine {
        ram: Seq::new(MEMORY_SIZE as nat, |i: int| 0u8),
        pc: 0,
        ireg: 0,
        stack: Seq::new(STACK_SLOTS as nat, |i: int| 0u16),
        stack_len: 0,
        delay_timer: 0,
        sound_timer: 0,
        register_bank: Seq::new(REGISTER_COUNT as nat, |i: int| 0u8),
        display: Seq::new(DISPLAY_CELLS as nat, |i: int| false),
    }
}

/// Whether bit `i` of `mask` is set. Bits past the fifteenth are never set.
pub open spec fn bit_set(mask: u16, i: u8) -> bool {
    i < 16 && mask & (1u16 << i) != 0
}

/// The lowest index at or above `from` of a set bit of `mask`; 16 if there
/// is none.
pub open spec fn lowest_set_bit(mask: u16, from: u8) -> u8
    decreases 16 - from,
{
    if from >= 16 {
        16
    } else if bit_set(mask, from) {
        from
    } else {
        lowest_set_bit(mask, (from + 1) as u8)
    }
}

/// The value of a literal operand once cut down to a byte.
pub open spec fn low_byte(n: u16) -> u8 {
    (n % 256) as u8
}

// ---------------------------------------------------------------------------
// Display

/// A display with every cell off.
pub open spec fn blank_display() -> Seq<bool> {
    Seq::new(DISPLAY_CELLS as nat, |i: int| false)
}

/// Whether bit `col` of a sprite row is set, the leftmost pixel being bit 7.
pub open spec fn sprite_bit(row: u8, col: u8) -> bool {
    row & (0x80u8 >> col) != 0
}

/// Whether a sprite of `n` rows, read from `ram` at `ireg` and placed with
/// its top-left corner at column `px`, row `py`, has a set bit over display
/// cell `idx`. Rows and columns that leave the grid cover nothing.
pub open spec fn sprite_covers(ram: Seq<u8>, ireg: u16, px: int, py: int, n: int, idx: int) -> bool {
    let row = idx / (DISPLAY_WIDTH as int) - py;
    let col = idx % (DISPLAY_WIDTH as int) - px;
    &&& 0 <= idx < DISPLAY_CELLS
    &&& 0 <= row < n
    &&& 0 <= col < 8
    &&& sprite_bit(ram[ireg + row], col as u8)
}

/// The display after the sprite is combined into it by exclusive or.
pub open spec fn drawn_display(m: Machine, px: int, py: int, n: int) -> Seq<bool> {
    Seq::new(
        DISPLAY_CELLS as nat,
        |idx: int| m.display[idx] != sprite_covers(m.ram, m.ireg, px, py, n, idx),
    )
}

/// Whether drawing the sprite turns off a cell that was on.
pub open spec fn draw_collides(m: Machine, px: int, py: int, n: int) -> bool {
    exists|idx: int|
        0 <= idx < DISPLAY_CELLS && #[trigger] sprite_covers(m.ram, m.ireg, px, py, n, idx)
            && m.display[idx]
}

/// The number of sprite rows that fall on the grid.
pub open spec fn visible_rows(py: int, n: int) -> int {
    if n < DISPLAY_HEIGHT - py {
        n
    } else {
        DISPLAY_HEIGHT - py
    }
}

/// Turns every cell of the display off.
pub open spec fn clear_display(m: Machine) -> Machine {
    Machine { display: blank_display(), ..m }
}

/// Whether a visible row of the sprite would be read past the end of memory.
pub open spec fn sprite_faults(ireg: u16, py: int, n: int) -> bool {
    visible_rows(py, n) > 0 && ireg + visible_rows(py, n) > MEMORY_SIZE
}

/// Draws the `n`-row sprite at the index register, at the position held in
/// registers `vx` and `vy` reduced to the grid. The flag register reports
/// the collision. Reading a visible row past the end of memory is a fault.
pub open spec fn draw_sprite(m: Machine, vx: usize, vy: usize, n: u16) -> Result<
    Machine,
    EmulatorError,
> {
    let px = (m.reg(vx) % 64) as int;
    let py = (m.reg(vy) % 32) as int;
    if sprite_faults(m.ireg, py, n as int) {
        Err(EmulatorError::ExecutionFault)
    } else {
        Ok(
            Machine {
                display: drawn_display(m, px, py, n as int),
                register_bank: m.register_bank.update(
                    FLAG_REGISTER as int,
                    if draw_collides(m, px, py, n as int) {
                        1u8
                    } else {
                        0u8
                    },
                ),
                ..m
            },
        )
    }
}

// ---------------------------------------------------------------------------
// Control flow

/// Stacks the program counter and jumps to `addr`. A stack that already
/// holds its sixteen addresses overflows.
pub open spec fn call_subroutine(m: Machine, addr: u16) -> Result<Machine, EmulatorError> {
    if m.stack_len < STACK_CAPACITY {
        Ok(
            Machine {
                stack: m.stack.update(m.stack_len as int, m.pc),
                stack_len: (m.stack_len + 1) as usize,
                pc: addr,
                ..m
            },
        )
    } else {
        Err(EmulatorError::StackOverflow)
    }
}

/// Takes the address stacked last as the program counter. An empty stack
/// underflows.
pub open spec fn return_subroutine(m: Machine) -> Result<Machine, EmulatorError> {
    if m.stack_len == 0 {
        Err(EmulatorError::StackUnderflow)
    } else {
        Ok(Machine { pc: m.stack[m.stack_len - 1], stack_len: (m.stack_len - 1) as usize, ..m })
    }
}

/// Jumps to `addr` plus register 0; a target past the 16-bit range is a fault.
pub open spec fn jump_relative(m: Machine, addr: u16) -> Result<Machine, EmulatorError> {
    if m.reg(0) + addr > u16::MAX {
        Err(EmulatorError::ExecutionFault)
    } else {
        Ok(m.with_pc((m.reg(0) + addr) as u16))
    }
}

/// Skips the next instruction when `taken`; a program counter that would
/// leave the 16-bit range is a fault.
pub open spec fn skip_if(m: Machine, taken: bool) -> Result<Machine, EmulatorError> {
    if !taken {
        Ok(m)
    } else if m.pc + 2 > u16::MAX {
        Err(EmulatorError::ExecutionFault)
    } else {
        Ok(m.with_pc((m.pc + 2) as u16))
    }
}

// ---------------------------------------------------------------------------
// Arithmetic

/// Sets the index register to `a + b`, which must stay within 16 bits.
pub open spec fn set_index(m: Machine, a: int, b: int) -> Result<Machine, EmulatorError> {
    if a + b > u16::MAX {
        Err(EmulatorError::ExecutionFault)
    } else {
        Ok(m.with_ireg((a + b) as u16))
    }
}

/// Sets register `vd` to `a + b` modulo 256; the flag is left alone.
pub open spec fn add_wrapping(m: Machine, vd: usize, a: int, b: int) -> Machine {
    m.with_reg(vd, ((a + b) % 256) as u8)
}

/// Adds two registers: the flag receives the carry, then `vd` the low byte.
pub open spec fn add_registers(m: Machine, vd: usize, vx: usize, vy: usize) -> Machine {
    let sum = m.reg(vx) + m.reg(vy);
    m.with_reg(FLAG_REGISTER, (sum / 256) as u8).with_reg(vd, (sum % 256) as u8)
}

/// Subtracts register `vy` from `vx`: the flag receives 1 when nothing is
/// borrowed, then `vd` the difference modulo 256.
pub open spec fn subtract(m: Machine, vd: usize, vx: usize, vy: usize) -> Machine {
    let diff = m.reg(vx) - m.reg(vy);
    m.with_reg(
        FLAG_REGISTER,
        if m.reg(vx) >= m.reg(vy) {
            1u8
        } else {
            0u8
        },
    ).with_reg(vd, (diff % 256) as u8)
}

/// Shifts register `vx` right by one. The flag is set to 1 when the bit
/// shifted out is 1, and left alone otherwise; the shift reads the register
/// after that.
pub open spec fn shift_right(m: Machine, vx: usize) -> Machine {
    let flagged = if m.reg(vx) % 2 == 1 {
        m.with_reg(FLAG_REGISTER, 1)
    } else {
        m
    };
    flagged.with_reg(vx, flagged.reg(vx) / 2)
}

/// Shifts register `vx` left by one. The flag is set to 1 when the bit
/// shifted out is 1, and left alone otherwise; the shift reads the register
/// after that.
pub open spec fn shift_left(m: Machine, vx: usize) -> Machine {
    let flagged = if m.reg(vx) >= 128 {
        m.with_reg(FLAG_REGISTER, 1)
    } else {
        m
    };
    flagged.with_reg(vx, ((flagged.reg(vx) % 128) * 2) as u8)
}

// ---------------------------------------------------------------------------
// Keys, memory

/// Waits for a change of the keypad: when `keys` differs from `prev_keys`
/// register `vx` receives the lowest index at which they differ; otherwise
/// the program counter steps back over the instruction.
pub open spec fn wait_for_key(m: Machine, vx: usize, keys: u16, prev_keys: u16) -> Result<
    Machine,
    EmulatorError,
> {
    if keys != prev_keys {
        Ok(m.with_reg(vx, lowest_set_bit(keys ^ prev_keys, 0)))
    } else if m.pc < 2 {
        Err(EmulatorError::ExecutionFault)
    } else {
        Ok(m.with_pc((m.pc - 2) as u16))
    }
}

/// Writes the hundreds, tens and ones of register `vx` at the index register.
pub open spec fn store_bcd(m: Machine, vx: usize) -> Result<Machine, EmulatorError> {
    let v = m.reg(vx);
    let at = m.ireg as int;
    if at + 2 >= MEMORY_SIZE {
        Err(EmulatorError::ExecutionFault)
    } else {
        Ok(
            Machine {
                ram: m.ram.update(at, v / 100).update(at + 1, (v / 10) % 10).update(
                    at + 2,
                    v % 10,
                ),
                ..m
            },
        )
    }
}

/// Copies registers 0 to `vx`, both included, to memory at the index register.
pub open spec fn dump_registers(m: Machine, vx: usize) -> Result<Machine, EmulatorError> {
    let at = m.ireg as int;
    if at + vx >= MEMORY_SIZE {
        Err(EmulatorError::ExecutionFault)
    } else {
        Ok(
            Machine {
                ram: Seq::new(
                    MEMORY_SIZE as nat,
                    |i: int|
                        if at <= i <= at + vx {
                            m.register_bank[i - at]
                        } else {
                            m.ram[i]
                        },
                ),
                ..m
            },
        )
    }
}

/// Copies memory at the index register to registers 0 to `vx`, both included.
pub open spec fn load_registers(m: Machine, vx: usize) -> Result<Machine, EmulatorError> {
    let at = m.ireg as int;
    if at + vx >= MEMORY_SIZE {
        Err(EmulatorError::ExecutionFault)
    } else {
        Ok(
            Machine {
                register_bank: Seq::new(
                    REGISTER_COUNT as nat,
                    |i: int|
                        if i <= vx {
                            m.ram[at + i]
                        } else {
                            m.register_bank[i]
                        },
                ),
                ..m
            },
        )
    }
}

// ---------------------------------------------------------------------------
// The executor

/// What executing `instruction` makes of machine `m`, given the keys now
/// held, the keys seen by the instruction before, and a random byte.
///
/// An instruction whose operands are not of a kind its operation handles,
/// or name a register that does not exist, is refused by value.
pub open spec fn execute_spec(
    m: Machine,
    instruction: Instruction,
    keys: u16,
    prev_keys: u16,
    random: u8,
) -> Result<Machine, EmulatorError> {
    let shape = Err::<Machine, EmulatorError>(EmulatorError::OperandShape(instruction));
    match instruction {
        Instruction::ClearDisplay => Ok(clear_display(m)),
        Instruction::DrawSprite(Operand::Reg(vx), Operand::Reg(vy), Operand::Literal(n)) => {
            if vx < REGISTER_COUNT && vy < REGISTER_COUNT {
                draw_sprite(m, vx, vy, n)
            } else {
                shape
            }
        },
        Instruction::CallSubroutine(Operand::Literal(n)) => call_subroutine(m, n),
        Instruction::ReturnSubroutine => return_subroutine(m),
        Instruction::Jump(Operand::Literal(n)) => Ok(m.with_pc(n)),
        Instruction::JumpRelative(Operand::Literal(n)) => jump_relative(m, n),
        Instruction::SkipIfEqual(Operand::Reg(vx), Operand::Literal(n)) => {
            if vx < REGISTER_COUNT {
                skip_if(m, m.reg(vx) == low_byte(n))
            } else {
                shape
            }
        },
        Instruction::SkipIfEqual(Operand::Reg(vx), Operand::Reg(vy)) => {
            if vx < REGISTER_COUNT && vy < REGISTER_COUNT {
                skip_if(m, m.reg(vx) == m.reg(vy))
            } else {
                shape
            }
        },
        Instruction::SkipIfEqual(Operand::Key, Operand::Reg(vx)) => {
            if vx < REGISTER_COUNT {
                skip_if(m, bit_set(keys, m.reg(vx)))
            } else {
                shape
            }
        },
        Instruction::SkipIfNotEqual(Operand::Reg(vx), Operand::Literal(n)) => {
            if vx < REGISTER_COUNT {
                skip_if(m, m.reg(vx) != low_byte(n))
            } else {
                shape
            }
        },
        Instruction::SkipIfNotEqual(Operand::Reg(vx), Operand::Reg(vy)) => {
            if vx < REGISTER_COUNT && vy < REGISTER_COUNT {
                skip_if(m, m.reg(vx) != m.reg(vy))
            } else {
                shape
            }
        },
        Instruction::SkipIfNotEqual(Operand::Key, Operand::Reg(vx)) => {
            if vx < REGISTER_COUNT {
                skip_if(m, !bit_set(keys, m.reg(vx)))
            } else {
                shape
            }
        },
        Instruction::Add(Operand::IReg, Operand::Literal(a), Operand::Literal(b)) => set_index(
            m,
            a as int,
            b as int,
        ),
        Instruction::Add(Operand::IReg, Operand::IReg, Operand::Reg(vx)) => {
            if vx < REGISTER_COUNT {
                set_index(m, m.ireg as int, m.reg(vx) as int)
            } else {
                shape
            }
        },
        Instruction::Add(Operand::Reg(vx), Operand::Literal(a), Operand::Literal(b)) => {
            if vx < REGISTER_COUNT {
                Ok(add_wrapping(m, vx, a as int, b as int))
            } else {
                shape
            }
        },
        Instruction::Add(Operand::Reg(vx), Operand::Reg(vy), Operand::Literal(n)) => {
            if vx < REGISTER_COUNT && vy < REGISTER_COUNT {
                Ok(add_wrapping(m, vx, m.reg(vy) as int, n as int))
            } else {
                shape
            }
        },
        Instruction::Add(Operand::Reg(vd), Operand::Reg(vx), Operand::Reg(vy)) => {
            if vd < REGISTER_COUNT && vx < REGISTER_COUNT && vy < REGISTER_COUNT {
                Ok(add_registers(m, vd, vx, vy))
            } else {
                shape
            }
        },
        Instruction::Subtract(Operand::Reg(vd), Operand::Reg(vx), Operand::Reg(vy)) => {
            if vd < REGISTER_COUNT && vx < REGISTER_COUNT && vy < REGISTER_COUNT {
                Ok(subtract(m, vd, vx, vy))
            } else {
                shape
            }
        },
        Instruction::BitwiseOr(Operand::Reg(vd), Operand::Reg(vx), Operand::Reg(vy)) => {
            if vd < REGISTER_COUNT && vx < REGISTER_COUNT && vy < REGISTER_COUNT {
                Ok(m.with_reg(vd, m.reg(vx) | m.reg(vy)))
            } else {
                shape
            }
        },
        Instruction::BitwiseAnd(Operand::Reg(vd), Operand::Reg(vx), Operand::Reg(vy)) => {
            if vd < REGISTER_COUNT && vx < REGISTER_COUNT && vy < REGISTER_COUNT {
                Ok(m.with_reg(vd, m.reg(vx) & m.reg(vy)))
            } else {
                shape
            }
        },
        Instruction::BitwiseXor(Operand::Reg(vd), Operand::Reg(vx), Operand::Reg(vy)) => {
            if vd < REGISTER_COUNT && vx < REGISTER_COUNT && vy < REGISTER_COUNT {
                Ok(m.with_reg(vd, m.reg(vx) ^ m.reg(vy)))
            } else {
                shape
            }
        },
        Instruction::ShiftRight(Operand::Reg(vx)) => {
            if vx < REGISTER_COUNT {
                Ok(shift_right(m, vx))
            } else {
                shape
            }
        },
        Instruction::ShiftLeft(Operand::Reg(vx)) => {
            if vx < REGISTER_COUNT {
                Ok(shift_left(m, vx))
            } else {
                shape
            }
        },
        Instruction::Random(Operand::Reg(vx), Operand::Literal(n)) => {
            if vx < REGISTER_COUNT {
                Ok(m.with_reg(vx, random & low_byte(n)))
            } else {
                shape
            }
        },
        Instruction::ReadDelayTimer(Operand::Reg(vx)) => {
            if vx < REGISTER_COUNT {
                Ok(m.with_reg(vx, m.delay_timer))
            } else {
                shape
            }
        },
        Instruction::WaitForKey(Operand::Reg(vx)) => {
            if vx < REGISTER_COUNT {
                wait_for_key(m, vx, keys, prev_keys)
            } else {
                shape
            }
        },
        Instruction::WriteDelayTimer(Operand::Reg(vx)) => {
            if vx < REGISTER_COUNT {
                Ok(Machine { delay_timer: m.reg(vx), ..m })
            } else {
                shape
            }
        },
        Instruction::WriteSoundTimer(Operand::Reg(vx)) => {
            if vx < REGISTER_COUNT {
                Ok(Machine { sound_timer: m.reg(vx), ..m })
            } else {
                shape
            }
        },
        Instruction::GetSpriteAddress(Operand::Reg(vx)) => {
            if vx < REGISTER_COUNT {
                Ok(m.with_ireg((FONT_BASE + GLYPH_SIZE * m.reg(vx)) as u16))
            } else {
                shape
            }
        },
        Instruction::StoreBCD(Operand::Reg(vx)) => {
            if vx < REGISTER_COUNT {
                store_bcd(m, vx)
            } else {
                shape
            }
        },
        Instruction::DumpRegisters(Operand::Reg(vx)) => {
            if vx < REGISTER_COUNT {
                dump_registers(m, vx)
            } else {
                shape
            }
        },
        Instruction::LoadRegisters(Operand::Reg(vx)) => {
            if vx < REGISTER_COUNT {
                load_registers(m, vx)
            } else {
                shape
            }
        },
        _ => shape,
    }
}

// ---------------------------------------------------------------------------
// The fetch cycle

/// The opcode held at `pc`: two bytes, the high one first.
pub open spec fn opcode_at(ram: Seq<u8>, pc: int) -> u16 {
    (ram[pc] * 256 + ram[pc + 1]) as u16
}

/// The opcode at the program counter, or a fault when its two bytes do not
/// lie within memory.
pub open spec fn fetch_spec(m: Machine) -> Result<u16, EmulatorError> {
    if m.pc + 1 >= MEMORY_SIZE {
        Err(EmulatorError::ExecutionFault)
    } else {
        Ok(opcode_at(m.ram, m.pc as int))
    }
}

/// One fetch-decode-execute cycle on machine `m`: the machine that results,
/// with the keys the next cycle will compare against.
///
/// A zero opcode halts: nothing advances and the remembered keys stay.
/// Otherwise the program counter moves past the opcode before the
/// instruction runs, and `keys` are remembered.
pub open spec fn step_spec(m: Machine, prev_keys: u16, keys: u16, random: u8) -> Result<
    (Machine, u16),
    EmulatorError,
> {
    match fetch_spec(m) {
        Err(e) => Err(e),
        Ok(opcode) => {
            if opcode == 0 {
                Ok((m, prev_keys))
            } else {
                match decode_spec(opcode) {
                    Err(e) => Err(e),
                    Ok(instruction) => {
                        match execute_spec(
                            m.with_pc((m.pc + 2) as u16),
                            instruction,
                            keys,
                            prev_keys,
                            random,
                        ) {
                            Err(e) => Err(e),
                            Ok(next) => Ok((next, keys)),
                        }
                    },
                }
            }
        },
    }
}

/// Memory with `program` copied in at the load address.
pub open spec fn loaded_ram(ram: Seq<u8>, program: Seq<u8>) -> Seq<u8> {
    Seq::new(
        ram.len(),
        |i: int|
            if PROGRAM_START <= i < PROGRAM_START + program.len() {
                program[i - PROGRAM_START]
            } else {
                ram[i]
            },
    )
}

/// Loads `program` at the load address and points the program counter at
/// it. A program that does not fit in memory is refused.
pub open spec fn load_spec(m: Machine, program: Seq<u8>) -> Result<Machine, EmulatorError> {
    if PROGRAM_START + program.len() > MEMORY_SIZE {
        Err(EmulatorError::Load)
    } else {
        Ok(Machine { ram: loaded_ram(m.ram, program), pc: PROGRAM_START as u16, ..m })
    }
}

} // verus!
