use vstd::prelude::*;

use crate::error::EmulatorError;
use crate::execute::execute;
use crate::instruction::{decode, decode_spec, Instruction};
use crate::machine::{
    fetch_spec, initial_machine, load_spec, loaded_ram, step_spec, Machine, DISPLAY_CELLS,
    MEMORY_SIZE, PROGRAM_START, REGISTER_COUNT, STACK_CAPACITY, STACK_SLOTS,
};

verus! {

/// Everything the machine holds, laid open for whoever draws or stores it.
pub struct EmulatorState {
    pub ram: Vec<u8>,
    pub pc: u16,
    pub ireg: u16,
    pub stack: Vec<u16>,
    pub stack_len: usize,
    pub delay_timer: u8,
    pub sound_timer: u8,
    pub register_bank: Vec<u8>,
    pub display: Vec<bool>,
}

impl View for EmulatorState {
    type V = Machine;

    open spec fn view(&self) -> Machine {
        Machine {
            ram: self.ram@,
            pc: self.pc,
            ireg: self.ireg,
            stack: self.stack@,
            stack_len: self.stack_len,
            delay_timer: self.delay_timer,
            sound_timer: self.sound_timer,
            register_bank: self.register_bank@,
            display: self.display@,
        }
    }
}

impl EmulatorState {
    /// Whether the state has the sizes of a machine and a call depth within
    /// the capacity of the stack.
    pub open spec fn wf(&self) -> bool {
        self@.wf()
    }

    /// A machine with everything zero and a blank display.
    pub fn new() -> (state: EmulatorState)
        ensures
            state.wf(),
            state@ == initial_machine(),
    {
        let state = EmulatorState {
            ram: vec![0u8; 4096],
            pc: 0,
            ireg: 0,
            stack: vec![0u16; 32],
            stack_len: 0,
            delay_timer: 0,
            sound_timer: 0,
            register_bank: vec![0u8; 16],
            display: vec![false; 2048],
        };
        state
    }

    /// A copy of this state.
    pub fn duplicate(&self) -> (copy: EmulatorState)
        ensures
            copy@ == self@,
    {
        let copy = EmulatorState {
            ram: self.ram.clone(),
            pc: self.pc,
            ireg: self.ireg,
            stack: self.stack.clone(),
            stack_len: self.stack_len,
            delay_timer: self.delay_timer,
            sound_timer: self.sound_timer,
            register_bank: self.register_bank.clone(),
            display: self.display.clone(),
        };
        copy
    }

    /// Checks the sizes and the call depth at run time.
    pub fn is_well_formed(&self) -> (ok: bool)
        ensures
            ok == self.wf(),
    {
        self.ram.len() == MEMORY_SIZE && self.register_bank.len() == REGISTER_COUNT
            && self.display.len() == DISPLAY_CELLS && self.stack.len() == STACK_SLOTS
            && self.stack_len <= STACK_CAPACITY
    }
}

/// The generator that `rand` keeps for each thread. Nothing is known of what
/// it holds.
#[verifier::external_type_specification]
#[verifier::external_body]
pub struct ExThreadRng(rand::rngs::ThreadRng);

/// `rand::rng` hands out a handle to the calling thread's generator. Nothing
/// is claimed of the handle. The call panics when the operating system
/// cannot seed the generator.
pub assume_specification[ rand::rng ]() -> (rng: rand::rngs::ThreadRng)
;

/// Draws a byte with `rand::Rng::random`. Any byte may come back, and two
/// draws need not agree, so the contract promises nothing of it. The call
/// panics when the generator is due for new seed and the operating system
/// gives none.
#[verifier::external_body]
fn random_byte(rng: &mut rand::rngs::ThreadRng) -> (byte: u8) {
    rand::Rng::random::<u8>(rng)
}

/// The part of the interpreter that contracts speak of: the machine, kept
/// well formed, and the keys seen by the instruction before.
struct Core {
    state: EmulatorState,
    prev_keys: u16,
}

impl Core {
    #[verifier::type_invariant]
    spec fn inv(&self) -> bool {
        self.state.wf()
    }
}

/// The interpreter: a machine, the keys seen by the instruction before, and
/// the source of random bytes.
pub struct Emulator {
    core: Core,
    rng_state: rand::rngs::ThreadRng,
}

/// An interpreter as a mathematical value. The random source has no part in
/// it: a step is described for each byte it may draw.
pub struct EmulatorModel {
    pub machine: Machine,
    pub prev_keys: u16,
}

/// How a step relates the interpreter before and after it, when `random` is
/// the byte a random instruction draws: on success the machine and the
/// remembered keys are those of `step_spec`; on failure nothing has changed.
pub open spec fn step_outcome(
    before: EmulatorModel,
    keys: u16,
    random: u8,
    after: EmulatorModel,
    res: Result<(), EmulatorError>,
) -> bool {
    match step_spec(before.machine, before.prev_keys, keys, random) {
        Ok((machine, prev_keys)) => res is Ok && after.machine == machine && after.prev_keys
            == prev_keys,
        Err(e) => res == Err::<(), EmulatorError>(e) && after == before,
    }
}

/// Whether the instruction at the program counter draws a random byte.
pub open spec fn draws_random(m: Machine) -> bool {
    fetch_spec(m) matches Ok(opcode) && opcode != 0 && decode_spec(opcode) is Ok && decode_spec(
        opcode,
    )->Ok_0 is Random
}

/// How loading `program` relates the interpreter before and after.
pub open spec fn load_outcome(
    before: EmulatorModel,
    program: Seq<u8>,
    after: EmulatorModel,
    res: Result<(), EmulatorError>,
) -> bool {
    match load_spec(before.machine, program) {
        Ok(machine) => res is Ok && after.machine == machine && after.prev_keys
            == before.prev_keys,
        Err(e) => res == Err::<(), EmulatorError>(e) && after == before,
    }
}

impl View for Emulator {
    type V = EmulatorModel;

    closed spec fn view(&self) -> EmulatorModel {
        EmulatorModel { machine: self.core.state@, prev_keys: self.core.prev_keys }
    }
}

impl Emulator {
    /// An interpreter whose machine is all zero, that has seen no key.
    ///
    /// It takes a handle to the thread's random generator, and panics when
    /// the operating system gives that generator no entropy to start from.
    pub fn new() -> (emulator: Emulator)
        ensures
            emulator@.machine == initial_machine(),
            emulator@.prev_keys == 0,
            emulator@.machine.wf(),
    {
        Emulator {
            core: Core { state: EmulatorState::new(), prev_keys: 0 },
            rng_state: rand::rng(),
        }
    }

    /// The machine, for reading. It is always well formed.
    pub fn get_state(&self) -> (state: &EmulatorState)
        ensures
            state.wf(),
            state@ == self@.machine,
    {
        proof {
            use_type_invariant(&self.core);
        }
        &self.core.state
    }

    /// Copies `prog` into memory at the load address and points the program
    /// counter at it. A program too long for memory is refused, and then
    /// nothing changes.
    pub fn load_prog(&mut self, prog: &[u8]) -> (res: Result<(), EmulatorError>)
        ensures
            load_outcome(old(self)@, prog@, final(self)@, res),
            final(self)@.machine.wf(),
    {
        proof {
            use_type_invariant(&self.core);
        }
        if prog.len() > MEMORY_SIZE - PROGRAM_START {
            return Err(EmulatorError::Load);
        }
        let ghost before = self.core.state@;
        let mut i: usize = 0;
        while i < prog.len()
            invariant
                i <= prog.len(),
                prog.len() <= MEMORY_SIZE - PROGRAM_START,
                before.wf(),
                self.core.state.wf(),
                self.core.prev_keys == old(self).core.prev_keys,
                self.core.state@ == (Machine { ram: self.core.state.ram@, ..before }),
                forall|j: int|
                    0 <= j < MEMORY_SIZE ==> self.core.state.ram[j] == if PROGRAM_START <= j
                        < PROGRAM_START + i {
                        prog@[j - PROGRAM_START]
                    } else {
                        before.ram[j]
                    },
            decreases prog.len() - i,
        {
            self.core.state.ram[PROGRAM_START + i] = prog[i];
            i += 1;
        }
        self.core.state.pc = PROGRAM_START as u16;
        assert(self.core.state.ram@ =~= loaded_ram(before.ram, prog@));
        Ok(())
    }

    /// Replaces the machine by a copy of `state`. A state that is not well
    /// formed is refused, and then nothing changes. The keys seen before
    /// stay as they are.
    pub fn load_state(&mut self, state: &EmulatorState) -> (res: Result<(), EmulatorError>)
        ensures
            final(self)@.machine.wf(),
            final(self)@.prev_keys == old(self)@.prev_keys,
            match res {
                Ok(_) => state.wf() && final(self)@.machine == state@,
                Err(e) => !state.wf() && e == EmulatorError::Load && final(self)@ == old(self)@,
            },
    {
        proof {
            use_type_invariant(&self.core);
        }
        if state.is_well_formed() {
            self.core.state = state.duplicate();
            Ok(())
        } else {
            Err(EmulatorError::Load)
        }
    }

    /// The bytes of memory from the load address to its end: the loaded
    /// program, followed by whatever memory holds after it.
    pub fn get_prog(&self) -> (prog: Vec<u8>)
        ensures
            prog@ == self@.machine.ram.subrange(PROGRAM_START as int, MEMORY_SIZE as int),
    {
        proof {
            use_type_invariant(&self.core);
        }
        let mut prog: Vec<u8> = Vec::new();
        let mut i: usize = PROGRAM_START;
        while i < MEMORY_SIZE
            invariant
                PROGRAM_START <= i <= MEMORY_SIZE,
                self.core.state.ram.len() == MEMORY_SIZE,
                prog@ == self.core.state.ram@.subrange(PROGRAM_START as int, i as int),
            decreases MEMORY_SIZE - i,
        {
            prog.push(self.core.state.ram[i]);
            i += 1;
        }
        prog
    }

    /// Reads the opcode at the program counter: two bytes, the high one
    /// first. Nothing moves.
    pub fn peek(&self) -> (res: Result<u16, EmulatorError>)
        ensures
            res == fetch_spec(self@.machine),
    {
        proof {
            use_type_invariant(&self.core);
        }
        let pc: usize = self.core.state.pc as usize;
        if pc + 1 >= MEMORY_SIZE {
            return Err(EmulatorError::ExecutionFault);
        }
        let high: u16 = self.core.state.ram[pc] as u16;
        let low: u16 = self.core.state.ram[pc + 1] as u16;
        Ok(high * 256 + low)
    }

    /// Fetches the opcode at the program counter: two bytes, the high one
    /// first. An opcode that is not zero moves the program counter past
    /// itself; a zero opcode, or one that does not lie within memory,
    /// leaves it. Nothing else changes.
    pub fn fetch(&mut self) -> (res: Result<u16, EmulatorError>)
        ensures
            res == fetch_spec(old(self)@.machine),
            final(self)@.prev_keys == old(self)@.prev_keys,
            final(self)@.machine == if res is Ok && res->Ok_0 != 0 {
                old(self)@.machine.with_pc((old(self)@.machine.pc + 2) as u16)
            } else {
                old(self)@.machine
            },
            final(self)@.machine.wf(),
    {
        proof {
            use_type_invariant(&self.core);
        }
        let res = self.peek();
        if let Ok(opcode) = res {
            if opcode != 0 {
                self.core.state.pc = self.core.state.pc + 2;
            }
        }
        res
    }

    /// Whether the instruction at the program counter draws a random byte.
    pub fn draws_random_next(&self) -> (draws: bool)
        ensures
            draws == draws_random(self@.machine),
    {
        match self.peek() {
            Ok(opcode) => opcode != 0 && match decode(opcode) {
                Ok(Instruction::Random(_, _)) => true,
                _ => false,
            },
            Err(_) => false,
        }
    }

    /// Runs one fetch-decode-execute cycle with `keys` held, `random` being
    /// the byte that a random instruction draws.
    ///
    /// A zero opcode halts the machine where it stands. Otherwise the fetch
    /// moves the program counter past the opcode, the instruction runs, and
    /// `keys` are remembered for the next cycle. A cycle that fails leaves
    /// the interpreter as it was: the program counter goes back to the
    /// opcode that failed.
    pub fn step_with(&mut self, keys: u16, random: u8) -> (res: Result<(), EmulatorError>)
        ensures
            step_outcome(old(self)@, keys, random, final(self)@, res),
            final(self)@.machine.wf(),
    {
        proof {
            use_type_invariant(&self.core);
        }
        let pc: u16 = self.core.state.pc;
        let opcode: u16 = match self.fetch() {
            Ok(opcode) => opcode,
            Err(e) => {
                return Err(e);
            },
        };
        if opcode == 0 {
            return Ok(());
        }
        proof {
            use_type_invariant(&self.core);
        }
        let instruction: Instruction = match decode(opcode) {
            Ok(instruction) => instruction,
            Err(e) => {
                self.core.state.pc = pc;
                return Err(e);
            },
        };
        match execute(&mut self.core.state, instruction, keys, self.core.prev_keys, random) {
            Ok(()) => {
                self.core.prev_keys = keys;
                Ok(())
            },
            Err(e) => {
                self.core.state.pc = pc;
                Err(e)
            },
        }
    }

    /// Runs one fetch-decode-execute cycle with `keys` held.
    ///
    /// A random instruction draws its byte from the thread's generator, so
    /// the outcome is that of `step_with` for some byte; every other
    /// instruction has the outcome of `step_with` for any byte. The draw
    /// panics when the generator is due for new seed and the operating
    /// system gives it no entropy.
    pub fn step(&mut self, keys: u16) -> (res: Result<(), EmulatorError>)
        ensures
            exists|random: u8| step_outcome(old(self)@, keys, random, final(self)@, res),
            !draws_random(old(self)@.machine) ==> forall|random: u8|
                step_outcome(old(self)@, keys, random, final(self)@, res),
            final(self)@.machine.wf(),
    {
        let random: u8 = if self.draws_random_next() {
            random_byte(&mut self.rng_state)
        } else {
            0
        };
        let res = self.step_with(keys, random);
        assert(step_outcome(old(self)@, keys, random, self@, res));
        res
    }
}

} // verus!
