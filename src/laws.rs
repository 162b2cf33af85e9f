//! Properties of the interpreter that hold of every program, proved over the
//! model in `semantics`.
use vstd::prelude::*;
use crate::semantics::{
    addr_of, class_of, d_of, is_call, is_halt, is_implemented, is_ret,
    run_n, step_spec, word_at, x_of, y_of, Fault, MachineState, Transition, FLAG_REGISTER,
    LAST_FETCH_ADDRESS, STACK_DEPTH,
};

verus! {

/// Once a run has halted or faulted, further steps change nothing.
pub proof fn lemma_final_is_kept(s: MachineState, n: nat, m: nat)
    requires
        !(run_n(s, n) is Running),
    ensures
        run_n(s, n + m) == run_n(s, n),
    decreases m,
{
    if m > 0 {
        lemma_final_is_kept(s, n, (m - 1) as nat);
        assert(run_n(s, n + m) == run_n(s, (n + (m - 1)) as nat));
    }
}

/// A state has one outcome: any two step counts at which the run has halted
/// or faulted give the same halt or fault, in the same state.
pub proof fn law_outcome_is_unique(s: MachineState, n1: nat, n2: nat)
    requires
        !(run_n(s, n1) is Running),
        !(run_n(s, n2) is Running),
    ensures
        run_n(s, n1) == run_n(s, n2),
{
    if n1 <= n2 {
        lemma_final_is_kept(s, n1, (n2 - n1) as nat);
    } else {
        lemma_final_is_kept(s, n2, (n1 - n2) as nat);
    }
}

/// A run of one step is the step itself.
pub proof fn lemma_one_step(s: MachineState)
    ensures
        run_n(s, 1) == step_spec(s),
{
    assert(run_n(s, 0) == Transition::Running(s));
}

/// A halt instruction at the program counter ends the run after one step,
/// with the registers, memory and stack as they were; the run stays halted.
pub proof fn law_halt_is_terminal(s: MachineState, n: nat)
    requires
        s.wf(),
        s.pc <= LAST_FETCH_ADDRESS,
        word_at(s.memory, s.pc) == 0,
        n > 0,
    ensures
        run_n(s, n) == Transition::Halted(MachineState { pc: s.pc + 2, ..s }),
        (run_n(s, n)->Halted_0).registers == s.registers,
{
    let w = word_at(s.memory, s.pc);
    assert(is_halt(w));
    lemma_one_step(s);
    lemma_final_is_kept(s, 1, (n - 1) as nat);
}

/// An addition stores `(a + b) mod 256` in register `x` and sets the flag
/// register to 1 exactly when `a + b > 255`, where `a` and `b` are the two
/// registers' values before the step.
pub proof fn law_add_wraps(s: MachineState)
    requires
        s.wf(),
        s.pc <= LAST_FETCH_ADDRESS,
        class_of(word_at(s.memory, s.pc)) == 8,
        d_of(word_at(s.memory, s.pc)) == 4,
        x_of(word_at(s.memory, s.pc)) != FLAG_REGISTER,
    ensures
        ({
            let w = word_at(s.memory, s.pc);
            let a = s.registers[x_of(w) as int] as int;
            let b = s.registers[y_of(w) as int] as int;
            &&& step_spec(s) is Running
            &&& (step_spec(s)->Running_0).registers[x_of(w) as int] == (a + b) % 256
            &&& (step_spec(s)->Running_0).registers[FLAG_REGISTER as int] == (if a + b > 255 {
                1int
            } else {
                0int
            })
            &&& (step_spec(s)->Running_0).pc == s.pc + 2
        }),
{
    let w = word_at(s.memory, s.pc);
    assert(x_of(w) < 16);
    assert(y_of(w) < 16);
}

/// A call followed directly by a return resumes at the instruction after the
/// call, with the same registers and stack depth.
pub proof fn law_call_then_ret(s: MachineState)
    requires
        s.wf(),
        s.pc <= LAST_FETCH_ADDRESS,
        is_call(word_at(s.memory, s.pc)),
        s.sp < STACK_DEPTH,
        addr_of(word_at(s.memory, s.pc)) <= LAST_FETCH_ADDRESS,
        is_ret(word_at(s.memory, addr_of(word_at(s.memory, s.pc)) as int)),
    ensures
        run_n(s, 2) == Transition::Running(
            MachineState {
                pc: s.pc + 2,
                stack: s.stack.update(s.sp, (s.pc + 2) as u16),
                ..s
            },
        ),
{
    let w = word_at(s.memory, s.pc);
    assert(!is_halt(w) && !is_ret(w));
    lemma_one_step(s);
    let t = step_spec(s)->Running_0;
    let r = word_at(t.memory, t.pc);
    assert(!is_halt(r));
    assert(run_n(s, 2) == step_spec(t));
}

/// After a call, a return reached with the stack as the call left it resumes
/// at the instruction after the call, one frame shallower.
pub proof fn law_ret_resumes_after_call(s: MachineState, u: MachineState)
    requires
        s.wf(),
        s.pc <= LAST_FETCH_ADDRESS,
        is_call(word_at(s.memory, s.pc)),
        s.sp < STACK_DEPTH,
        u.wf(),
        u.sp == s.sp + 1,
        u.stack[s.sp] == (step_spec(s)->Running_0).stack[s.sp],
        u.pc <= LAST_FETCH_ADDRESS,
        is_ret(word_at(u.memory, u.pc)),
    ensures
        step_spec(s) is Running,
        step_spec(u) is Running,
        (step_spec(u)->Running_0).pc == s.pc + 2,
        (step_spec(u)->Running_0).sp == s.sp,
        (step_spec(u)->Running_0).registers == u.registers,
{
    let w = word_at(s.memory, s.pc);
    assert(!is_halt(w) && !is_ret(w));
    let r = word_at(u.memory, u.pc);
    assert(!is_halt(r));
}

/// A call with sixteen return addresses already saved faults with
/// `StackOverflow` and changes nothing.
pub proof fn law_call_on_full_stack(s: MachineState)
    requires
        s.wf(),
        s.pc <= LAST_FETCH_ADDRESS,
        is_call(word_at(s.memory, s.pc)),
        s.sp == STACK_DEPTH,
    ensures
        step_spec(s) == Transition::Faulted(
            Fault::StackOverflow(addr_of(word_at(s.memory, s.pc))),
            s,
        ),
{
    let w = word_at(s.memory, s.pc);
    assert(!is_halt(w) && !is_ret(w));
}

/// A return with an empty stack faults with `StackUnderflow` and changes
/// nothing.
pub proof fn law_ret_on_empty_stack(s: MachineState)
    requires
        s.wf(),
        s.pc <= LAST_FETCH_ADDRESS,
        is_ret(word_at(s.memory, s.pc)),
        s.sp == 0,
    ensures
        step_spec(s) == Transition::Faulted(Fault::StackUnderflow, s),
{
    let w = word_at(s.memory, s.pc);
    assert(!is_halt(w));
}

/// Whether each of the first `k` steps from `s` runs a call.
pub open spec fn only_calls(s: MachineState, k: nat) -> bool {
    forall|j: nat|
        j < k ==> {
            let t = #[trigger] run_n(s, j);
            &&& t is Running
            &&& t->Running_0.pc <= LAST_FETCH_ADDRESS
            &&& is_call(word_at(t->Running_0.memory, t->Running_0.pc))
        }
}

proof fn lemma_calls_deepen(s: MachineState, k: nat)
    requires
        s.wf(),
        s.sp == 0,
        k <= STACK_DEPTH,
        only_calls(s, k),
    ensures
        run_n(s, k) is Running,
        (run_n(s, k)->Running_0).wf(),
        (run_n(s, k)->Running_0).sp == k,
    decreases k,
{
    if k > 0 {
        let j = (k - 1) as nat;
        lemma_calls_deepen(s, j);
        assert(only_calls(s, j + 1));
        let t = run_n(s, j)->Running_0;
        let w = word_at(t.memory, t.pc);
        assert(run_n(s, j) is Running && is_call(w));
        assert(!is_halt(w) && !is_ret(w));
        assert(run_n(s, k) == step_spec(t));
    }
}

/// Seventeen nested calls with no return between them: the first sixteen
/// fill the stack, and the seventeenth faults with `StackOverflow`.
pub proof fn law_seventeenth_nested_call_overflows(s: MachineState)
    requires
        s.wf(),
        s.sp == 0,
        only_calls(s, (STACK_DEPTH + 1) as nat),
    ensures
        ({
            let t = run_n(s, STACK_DEPTH as nat)->Running_0;
            &&& t.sp == STACK_DEPTH
            &&& run_n(s, (STACK_DEPTH + 1) as nat) == Transition::Faulted(
                Fault::StackOverflow(addr_of(word_at(t.memory, t.pc))),
                t,
            )
        }),
{
    assert(only_calls(s, STACK_DEPTH as nat));
    lemma_calls_deepen(s, STACK_DEPTH as nat);
    let t = run_n(s, STACK_DEPTH as nat)->Running_0;
    assert(run_n(s, STACK_DEPTH as nat) is Running);
    law_call_on_full_stack(t);
    assert(run_n(s, (STACK_DEPTH + 1) as nat) == step_spec(t));
}

/// A word that matches no instruction faults with `UnimplementedOpcode`
/// carrying that word, and every later step keeps the machine where it was.
pub proof fn law_unimplemented_is_fatal(s: MachineState, n: nat)
    requires
        s.wf(),
        s.pc <= LAST_FETCH_ADDRESS,
        !is_implemented(word_at(s.memory, s.pc)),
        n > 0,
    ensures
        run_n(s, n) == Transition::Faulted(Fault::UnimplementedOpcode(word_at(s.memory, s.pc)), s),
{
    lemma_one_step(s);
    lemma_final_is_kept(s, 1, (n - 1) as nat);
}

/// The word `0xFFFF` matches no instruction.
pub proof fn law_all_ones_is_unimplemented()
    ensures
        !is_implemented(0xFFFFu16),
{
}

} // verus!
