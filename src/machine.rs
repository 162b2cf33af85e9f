//! The executable interpreter, proved against the model in `semantics`.
use vstd::prelude::*;
use crate::semantics::{
    add_registers, addr_of, class_of, d_of, run_n, step_spec, word_at, x_of, y_of,
    Fault, MachineState, StepOutcome, Transition, FLAG_REGISTER, LAST_FETCH_ADDRESS,
    MEMORY_SIZE, STACK_DEPTH,
};
use crate::progress::{lemma_step_lowers_progress, progress};

verus! {

/// An instruction word split into its fields.
#[derive(PartialEq, Eq, Structural, Debug, Clone, Copy)]
pub struct Instruction {
    /// Opcode class, bits 15 to 12.
    pub c: u8,
    /// First register operand, bits 11 to 8.
    pub x: u8,
    /// Second register operand, bits 7 to 4.
    pub y: u8,
    /// Sub-opcode discriminator, bits 3 to 0.
    pub d: u8,
    /// Address operand, bits 11 to 0.
    pub addr: u16,
}

/// Splits a word into its four nibbles and its twelve-bit address. Every word
/// decodes.
pub fn decode(word: u16) -> (r: Instruction)
    ensures
        r.c == class_of(word),
        r.x == x_of(word),
        r.y == y_of(word),
        r.d == d_of(word),
        r.addr == addr_of(word),
{
    let c = ((word & 0xF000) >> 12u16) as u8;
    let x = ((word & 0x0F00) >> 8u16) as u8;
    let y = ((word & 0x00F0) >> 4u16) as u8;
    let d = (word & 0x000F) as u8;
    let addr = word & 0x0FFF;
    assert((word & 0xF000) >> 12u16 == word / 4096) by (bit_vector);
    assert((word & 0x0F00) >> 8u16 == (word / 256) % 16) by (bit_vector);
    assert((word & 0x00F0) >> 4u16 == (word / 16) % 16) by (bit_vector);
    assert(word & 0x000F == word % 16) by (bit_vector);
    assert(word & 0x0FFF == word % 4096) by (bit_vector);
    Instruction { c, x, y, d, addr }
}

/// The interpreter: sixteen 8-bit registers (the last one doubles as the carry
/// flag), 4096 bytes of memory, a program counter and a call stack of sixteen
/// return addresses.
pub struct CPU {
    pub registers: [u8; 16],
    pub position_in_memory: usize,
    pub memory: [u8; 4096],
    pub stack: [u16; 16],
    pub stack_pointer: usize,
}

impl View for CPU {
    type V = MachineState;

    open spec fn view(&self) -> MachineState {
        MachineState {
            registers: self.registers@,
            pc: self.position_in_memory as int,
            memory: self.memory@,
            stack: self.stack@,
            sp: self.stack_pointer as int,
        }
    }
}

impl CPU {
    /// The call stack never holds more than its sixteen entries.
    pub open spec fn wf(&self) -> bool {
        self.stack_pointer <= STACK_DEPTH
    }

    /// A machine with every register, memory byte and stack entry zero and the
    /// program counter at address 0.
    pub fn new() -> (r: CPU)
        ensures
            r.wf(),
            r@.pc == 0,
            r@.sp == 0,
            r@.registers == Seq::new(16, |i: int| 0u8),
            r@.memory == Seq::new(4096, |i: int| 0u8),
            r@.stack == Seq::new(16, |i: int| 0u16),
    {
        let r = CPU {
            registers: [0u8; 16],
            position_in_memory: 0,
            memory: [0u8; 4096],
            stack: [0u16; 16],
            stack_pointer: 0,
        };
        assert(r@.registers =~= Seq::new(16, |i: int| 0u8));
        assert(r@.memory =~= Seq::new(4096, |i: int| 0u8));
        assert(r@.stack =~= Seq::new(16, |i: int| 0u16));
        r
    }

    /// A zeroed machine whose memory starts with `image`; the rest of memory
    /// is zero.
    pub fn from_image(image: &[u8]) -> (r: CPU)
        requires
            image@.len() <= MEMORY_SIZE,
        ensures
            r.wf(),
            r@.pc == 0,
            r@.sp == 0,
            r@.registers == Seq::new(16, |i: int| 0u8),
            r@.stack == Seq::new(16, |i: int| 0u16),
            r@.memory == image@ + Seq::new((MEMORY_SIZE - image@.len()) as nat, |i: int| 0u8),
    {
        let mut r = CPU::new();
        let mut i: usize = 0;
        while i < image.len()
            invariant
                image@.len() <= MEMORY_SIZE,
                i <= image@.len(),
                r.wf(),
                r@.pc == 0,
                r@.sp == 0,
                r@.registers == Seq::new(16, |i: int| 0u8),
                r@.stack == Seq::new(16, |i: int| 0u16),
                r@.memory.len() == MEMORY_SIZE,
                forall|j: int| 0 <= j < i ==> r@.memory[j] == image@[j],
                forall|j: int| i <= j < MEMORY_SIZE ==> r@.memory[j] == 0u8,
            decreases image@.len() - i,
        {
            r.memory[i] = image[i];
            i = i + 1;
        }
        assert(r@.memory =~= image@ + Seq::new((MEMORY_SIZE - image@.len()) as nat, |i: int| 0u8));
        r
    }

    /// Reads the big-endian word at the program counter without moving it.
    pub fn read_opcode(&self) -> (r: Result<u16, Fault>)
        ensures
            self.position_in_memory <= LAST_FETCH_ADDRESS ==> r == Ok::<u16, Fault>(
                word_at(self.memory@, self.position_in_memory as int),
            ),
            self.position_in_memory > LAST_FETCH_ADDRESS ==> r == Err::<u16, Fault>(
                Fault::OutOfBounds(self.position_in_memory),
            ),
    {
        let p = self.position_in_memory;
        if p > LAST_FETCH_ADDRESS {
            return Err(Fault::OutOfBounds(p));
        }
        let op_byte1 = self.memory[p] as u16;
        let op_byte2 = self.memory[p + 1] as u16;
        assert((op_byte1 << 8u16) | op_byte2 == op_byte1 * 256 + op_byte2) by (bit_vector)
            requires
                op_byte1 < 256,
                op_byte2 < 256,
        ;
        Ok((op_byte1 << 8u16) | op_byte2)
    }

    /// Adds register `y` into register `x` with 8-bit wraparound, then sets
    /// the flag register to 1 if the sum overflowed and to 0 if it did not.
    pub fn add_xy(&mut self, x: u8, y: u8)
        requires
            x < 16,
            y < 16,
        ensures
            final(self)@ == (MachineState {
                registers: add_registers(old(self)@.registers, x as int, y as int),
                ..old(self)@
            }),
    {
        let arg1 = self.registers[x as usize];
        let arg2 = self.registers[y as usize];
        let sum: u16 = arg1 as u16 + arg2 as u16;
        let overflow = sum > 255;
        self.registers[x as usize] = (sum % 256) as u8;
        if overflow {
            self.registers[FLAG_REGISTER] = 1;
        } else {
            self.registers[FLAG_REGISTER] = 0;
        }
        assert(self.registers@ =~= add_registers(old(self)@.registers, x as int, y as int));
    }

    /// Saves the program counter on the call stack and jumps to `addr`, or
    /// reports `StackOverflow` and changes nothing if the stack is full.
    pub fn call(&mut self, addr: u16) -> (r: Result<(), Fault>)
        requires
            old(self).wf(),
        ensures
            final(self).wf(),
            old(self).stack_pointer >= STACK_DEPTH ==> r == Err::<(), Fault>(
                Fault::StackOverflow(addr),
            ) && *final(self) == *old(self),
            old(self).stack_pointer < STACK_DEPTH ==> r == Ok::<(), Fault>(()) && final(self)@ == (
            MachineState {
                pc: addr as int,
                stack: old(self)@.stack.update(
                    old(self)@.sp,
                    old(self).position_in_memory as u16,
                ),
                sp: old(self)@.sp + 1,
                ..old(self)@
            }),
    {
        let sp = self.stack_pointer;
        if sp >= STACK_DEPTH {
            return Err(Fault::StackOverflow(addr));
        }
        self.stack[sp] = self.position_in_memory as u16;
        self.stack_pointer = sp + 1;
        self.position_in_memory = addr as usize;
        Ok(())
    }

    /// Pops the last saved return address into the program counter, or reports
    /// `StackUnderflow` and changes nothing if the stack is empty.
    pub fn ret(&mut self) -> (r: Result<(), Fault>)
        requires
            old(self).wf(),
        ensures
            final(self).wf(),
            old(self).stack_pointer == 0 ==> r == Err::<(), Fault>(Fault::StackUnderflow)
                && *final(self) == *old(self),
            old(self).stack_pointer > 0 ==> r == Ok::<(), Fault>(()) && final(self)@ == (
            MachineState {
                pc: old(self)@.stack[old(self)@.sp - 1] as int,
                sp: old(self)@.sp - 1,
                ..old(self)@
            }),
    {
        if self.stack_pointer == 0 {
            return Err(Fault::StackUnderflow);
        }
        self.stack_pointer = self.stack_pointer - 1;
        self.position_in_memory = self.stack[self.stack_pointer] as usize;
        Ok(())
    }

    /// Runs one fetch-decode-execute step. On a fault the machine is left as it
    /// was, with the program counter at the faulting instruction.
    pub fn step(&mut self) -> (r: Result<StepOutcome, Fault>)
        requires
            old(self).wf(),
        ensures
            final(self).wf(),
            match step_spec(old(self)@) {
                Transition::Running(t) => r == Ok::<StepOutcome, Fault>(StepOutcome::Continue)
                    && final(self)@ == t,
                Transition::Halted(t) => r == Ok::<StepOutcome, Fault>(StepOutcome::Halted)
                    && final(self)@ == t,
                Transition::Faulted(f, t) => r == Err::<StepOutcome, Fault>(f) && final(self)@
                    == t,
            },
    {
        let opcode = match self.read_opcode() {
            Ok(w) => w,
            Err(f) => return Err(f),
        };
        let ins = decode(opcode);
        let start = self.position_in_memory;
        self.position_in_memory = start + 2;
        match (ins.c, ins.x, ins.y, ins.d) {
            (0, 0, 0, 0) => Ok(StepOutcome::Halted),
            (0, 0, 0xE, 0xE) => match self.ret() {
                Ok(()) => Ok(StepOutcome::Continue),
                Err(f) => {
                    self.position_in_memory = start;
                    Err(f)
                },
            },
            (0x2, _, _, _) => match self.call(ins.addr) {
                Ok(()) => Ok(StepOutcome::Continue),
                Err(f) => {
                    self.position_in_memory = start;
                    Err(f)
                },
            },
            (0x8, _, _, 0x4) => {
                self.add_xy(ins.x, ins.y);
                Ok(StepOutcome::Continue)
            },
            _ => {
                self.position_in_memory = start;
                Err(Fault::UnimplementedOpcode(opcode))
            },
        }
    }

    /// Runs until the machine halts or faults. The result is the halt or
    /// fault that the model reaches from the starting state after some number
    /// of steps, and the machine is left in the state the model gives there.
    pub fn run(&mut self) -> (r: Result<(), Fault>)
        requires
            old(self).wf(),
        ensures
            final(self).wf(),
            r is Ok ==> exists|n: nat| run_n(old(self)@, n) == Transition::Halted(final(self)@),
            r is Err ==> exists|n: nat|
                run_n(old(self)@, n) == Transition::Faulted(r->Err_0, final(self)@),
    {
        let ghost start = self@;
        let ghost mut n: nat = 0;
        loop
            invariant
                self.wf(),
                self@.wf(),
                start == old(self)@,
                run_n(start, n) == Transition::Running(self@),
            decreases progress(self@),
        {
            let ghost before = self@;
            let ghost m: nat = n + 1;
            proof {
                if step_spec(before) is Running {
                    lemma_step_lowers_progress(before);
                }
                assert(run_n(start, m) == step_spec(before));
            }
            match self.step() {
                Ok(StepOutcome::Continue) => {
                    proof {
                        n = m;
                    }
                },
                Ok(StepOutcome::Halted) => {
                    assert(run_n(start, m) == Transition::Halted(self@));
                    return Ok(());
                },
                Err(f) => {
                    assert(run_n(start, m) == Transition::Faulted(f, self@));
                    return Err(f);
                },
            }
        }
    }
}

} // verus!
