//! The mathematical model of the interpreter: the state, how an instruction
//! word splits into fields, and what one step does to the state.
use vstd::prelude::*;

verus! {

/// Number of general-purpose registers.
pub const REGISTER_COUNT: usize = 16;

/// Index of the register that doubles as the carry flag.
pub const FLAG_REGISTER: usize = 15;

/// Size of the byte-addressable memory.
pub const MEMORY_SIZE: usize = 4096;

/// Number of return addresses the call stack can hold.
pub const STACK_DEPTH: usize = 16;

/// The last address from which a whole two-byte instruction can be fetched.
pub const LAST_FETCH_ADDRESS: usize = 4094;

/// A fatal interpreter error. Each one stops the run and carries the operand
/// that explains it.
#[derive(PartialEq, Eq, Structural, Debug, Clone, Copy)]
pub enum Fault {
    /// The program counter leaves no room for a two-byte fetch.
    OutOfBounds(usize),
    /// A call to the given address found the call stack full.
    StackOverflow(u16),
    /// A return found the call stack empty.
    StackUnderflow,
    /// The instruction word matches no entry of the dispatch table.
    UnimplementedOpcode(u16),
}

/// What a step that did not fault left the machine doing.
#[derive(PartialEq, Eq, Structural, Debug, Clone, Copy)]
pub enum StepOutcome {
    Continue,
    Halted,
}

/// The abstract machine: registers, program counter, memory and call stack.
pub struct MachineState {
    pub registers: Seq<u8>,
    pub pc: int,
    pub memory: Seq<u8>,
    pub stack: Seq<u16>,
    pub sp: int,
}

impl MachineState {
    pub open spec fn wf(self) -> bool {
        &&& self.registers.len() == REGISTER_COUNT
        &&& self.memory.len() == MEMORY_SIZE
        &&& self.stack.len() == STACK_DEPTH
        &&& 0 <= self.sp <= STACK_DEPTH
        &&& 0 <= self.pc
    }
}

/// Where one or more steps leave the machine.
pub enum Transition {
    /// Still running, in the given state.
    Running(MachineState),
    /// Halted, in the given state.
    Halted(MachineState),
    /// Faulted; the state is the one in which the faulting step began.
    Faulted(Fault, MachineState),
}

/// The big-endian instruction word stored at `p` and `p + 1`.
pub open spec fn word_at(memory: Seq<u8>, p: int) -> u16 {
    (memory[p] as int * 256 + memory[p + 1] as int) as u16
}

/// Opcode class: bits 15 to 12.
pub open spec fn class_of(w: u16) -> u8 {
    (w / 4096) as u8
}

/// First register operand: bits 11 to 8.
pub open spec fn x_of(w: u16) -> u8 {
    ((w / 256) % 16) as u8
}

/// Second register operand: bits 7 to 4.
pub open spec fn y_of(w: u16) -> u8 {
    ((w / 16) % 16) as u8
}

/// Sub-opcode discriminator: bits 3 to 0.
pub open spec fn d_of(w: u16) -> u8 {
    (w % 16) as u8
}

/// Twelve-bit address operand: bits 11 to 0.
pub open spec fn addr_of(w: u16) -> u16 {
    (w % 4096) as u16
}

pub open spec fn is_halt(w: u16) -> bool {
    class_of(w) == 0 && x_of(w) == 0 && y_of(w) == 0 && d_of(w) == 0
}

pub open spec fn is_ret(w: u16) -> bool {
    class_of(w) == 0 && x_of(w) == 0 && y_of(w) == 0xE && d_of(w) == 0xE
}

pub open spec fn is_call(w: u16) -> bool {
    class_of(w) == 2
}

pub open spec fn is_add(w: u16) -> bool {
    class_of(w) == 8 && d_of(w) == 4
}

/// Whether the four nibbles are bound to an instruction.
pub open spec fn is_implemented(w: u16) -> bool {
    is_halt(w) || is_ret(w) || is_call(w) || is_add(w)
}

/// The carry flag that adding `a` and `b` sets.
pub open spec fn carry_of(a: u8, b: u8) -> u8 {
    if a as int + b as int > 255 { 1u8 } else { 0u8 }
}

/// The register bank after adding register `y` into register `x` with 8-bit
/// wraparound, then writing the carry into the flag register.
pub open spec fn add_registers(r: Seq<u8>, x: int, y: int) -> Seq<u8> {
    r.update(x, ((r[x] as int + r[y] as int) % 256) as u8).update(
        FLAG_REGISTER as int,
        carry_of(r[x], r[y]),
    )
}

/// One fetch-decode-execute step. The program counter is advanced past the
/// fetched word before the instruction runs, so a call saves the address of
/// the instruction after it. A faulting step changes nothing.
pub open spec fn step_spec(s: MachineState) -> Transition {
    if s.pc > LAST_FETCH_ADDRESS {
        Transition::Faulted(Fault::OutOfBounds(s.pc as usize), s)
    } else {
        let w = word_at(s.memory, s.pc);
        let next = s.pc + 2;
        if is_halt(w) {
            Transition::Halted(MachineState { pc: next, ..s })
        } else if is_ret(w) {
            if s.sp == 0 {
                Transition::Faulted(Fault::StackUnderflow, s)
            } else {
                Transition::Running(MachineState { pc: s.stack[s.sp - 1] as int, sp: s.sp - 1, ..s })
            }
        } else if is_call(w) {
            if s.sp >= STACK_DEPTH {
                Transition::Faulted(Fault::StackOverflow(addr_of(w)), s)
            } else {
                Transition::Running(
                    MachineState {
                        pc: addr_of(w) as int,
                        stack: s.stack.update(s.sp, next as u16),
                        sp: s.sp + 1,
                        ..s
                    },
                )
            }
        } else if is_add(w) {
            Transition::Running(
                MachineState {
                    registers: add_registers(s.registers, x_of(w) as int, y_of(w) as int),
                    pc: next,
                    ..s
                },
            )
        } else {
            Transition::Faulted(Fault::UnimplementedOpcode(w), s)
        }
    }
}

/// Where `n` steps from `s` leave the machine; a halt or a fault is final.
pub open spec fn run_n(s: MachineState, n: nat) -> Transition
    decreases n,
{
    if n == 0 {
        Transition::Running(s)
    } else {
        match run_n(s, (n - 1) as nat) {
            Transition::Running(t) => step_spec(t),
            other => other,
        }
    }
}

} // verus!
