//! A measure that every non-final step strictly lowers, so a run always ends.
//!
//! Read the state as the sequence of return addresses on the stack followed by
//! the program counter, padded with an "infinite" address. An addition moves
//! the last address forward, a call moves it forward (to the return address)
//! and opens a new frame, and a return replaces the program counter by the
//! padding. Each of these raises the sequence lexicographically, and the
//! sequence has a bounded length and bounded entries.
use vstd::prelude::*;
use crate::semantics::{
    is_call, is_halt, is_ret, run_n, step_spec, word_at, MachineState, Transition, MEMORY_SIZE,
    STACK_DEPTH,
};

verus! {

/// One more than the number of values a digit can take.
pub open spec fn base() -> int {
    4098
}

/// Digit for an address: farther ahead means a smaller digit; addresses past
/// the end of memory all share the digit 1, and the padding has digit 0.
pub open spec fn digit(v: int) -> int {
    if v >= MEMORY_SIZE { 1 } else { 4097 - v }
}

/// The frames of `s` as digits: saved return addresses, then the program
/// counter, then padding up to one more than the stack depth.
pub open spec fn digits(s: MachineState) -> Seq<int> {
    Seq::new(
        (STACK_DEPTH + 1) as nat,
        |i: int|
            if i < s.sp {
                digit(s.stack[i] as int)
            } else if i == s.sp {
                digit(s.pc)
            } else {
                0
            },
    )
}

/// The number whose base-`base()` digits are the first `n` entries of `d`.
pub open spec fn positional(d: Seq<int>, n: nat) -> int
    decreases n,
{
    if n == 0 {
        0
    } else {
        positional(d, (n - 1) as nat) * base() + d[n - 1]
    }
}

/// The measure that each running step lowers.
pub open spec fn progress(s: MachineState) -> nat {
    positional(digits(s), (STACK_DEPTH + 1) as nat) as nat
}

pub open spec fn digits_in_range(d: Seq<int>, n: nat) -> bool {
    forall|i: int| 0 <= i < n ==> 0 <= #[trigger] d[i] < base()
}

proof fn lemma_positional_nonneg(d: Seq<int>, n: nat)
    requires
        n <= d.len(),
        digits_in_range(d, n),
    ensures
        positional(d, n) >= 0,
    decreases n,
{
    if n > 0 {
        lemma_positional_nonneg(d, (n - 1) as nat);
        let p = positional(d, (n - 1) as nat);
        assert(p * base() >= 0) by (nonlinear_arith)
            requires
                p >= 0,
        ;
    }
}

proof fn lemma_positional_same_prefix(a: Seq<int>, b: Seq<int>, n: nat)
    requires
        n <= a.len(),
        n <= b.len(),
        forall|i: int| 0 <= i < n ==> a[i] == b[i],
    ensures
        positional(a, n) == positional(b, n),
    decreases n,
{
    if n > 0 {
        lemma_positional_same_prefix(a, b, (n - 1) as nat);
    }
}

/// Positional numbers compare as their first differing digit does.
proof fn lemma_positional_lex(a: Seq<int>, b: Seq<int>, k: nat, n: nat)
    requires
        k < n,
        n <= a.len(),
        n <= b.len(),
        digits_in_range(a, n),
        digits_in_range(b, n),
        forall|i: int| 0 <= i < k ==> a[i] == b[i],
        a[k as int] > b[k as int],
    ensures
        positional(a, n) > positional(b, n),
    decreases n,
{
    if n == k + 1 {
        lemma_positional_same_prefix(a, b, k);
    } else {
        lemma_positional_lex(a, b, k, (n - 1) as nat);
        let pa = positional(a, (n - 1) as nat);
        let pb = positional(b, (n - 1) as nat);
        assert((pa - pb) * base() >= base()) by (nonlinear_arith)
            requires
                pa - pb >= 1,
                base() > 0,
        ;
        assert(pa * base() - pb * base() == (pa - pb) * base()) by (nonlinear_arith);
    }
}

proof fn lemma_digits_in_range(s: MachineState)
    requires
        s.wf(),
    ensures
        digits_in_range(digits(s), (STACK_DEPTH + 1) as nat),
        positional(digits(s), (STACK_DEPTH + 1) as nat) >= 0,
{
    lemma_positional_nonneg(digits(s), (STACK_DEPTH + 1) as nat);
}

/// Every step that leaves the machine running lowers `progress`.
pub proof fn lemma_step_lowers_progress(s: MachineState)
    requires
        s.wf(),
        step_spec(s) is Running,
    ensures
        ({
            let t = step_spec(s)->Running_0;
            t.wf() && progress(t) < progress(s)
        }),
{
    let t = step_spec(s)->Running_0;
    let w = word_at(s.memory, s.pc);
    let a = digits(s);
    let b = digits(t);
    lemma_digits_in_range(s);
    assert(t.wf());
    lemma_digits_in_range(t);
    if is_halt(w) {
    } else if is_ret(w) {
        assert(forall|i: int| 0 <= i < s.sp ==> a[i] == b[i]);
        lemma_positional_lex(a, b, s.sp as nat, (STACK_DEPTH + 1) as nat);
    } else if is_call(w) {
        assert(forall|i: int| 0 <= i < s.sp ==> a[i] == b[i]);
        lemma_positional_lex(a, b, s.sp as nat, (STACK_DEPTH + 1) as nat);
    } else {
        assert(forall|i: int| 0 <= i < s.sp ==> a[i] == b[i]);
        lemma_positional_lex(a, b, s.sp as nat, (STACK_DEPTH + 1) as nat);
    }
}

/// Running `n` more steps after a step that kept the machine running is
/// running `n + 1` steps from the start.
proof fn lemma_run_after_step(s: MachineState, n: nat)
    requires
        step_spec(s) is Running,
    ensures
        run_n(s, n + 1) == run_n(step_spec(s)->Running_0, n),
    decreases n,
{
    let t = step_spec(s)->Running_0;
    if n == 0 {
        assert(run_n(s, 0) == Transition::Running(s));
        assert(run_n(t, 0) == Transition::Running(t));
    } else {
        lemma_run_after_step(s, (n - 1) as nat);
        assert(run_n(s, n + 1) == match run_n(s, n) {
            Transition::Running(u) => step_spec(u),
            other => other,
        });
    }
}

/// Every run ends: from any well-formed state, some number of steps halts or
/// faults, whatever the program, so no host needs a step limit to stop it.
pub proof fn law_every_run_ends(s: MachineState)
    requires
        s.wf(),
    ensures
        exists|n: nat| !(#[trigger] run_n(s, n) is Running),
    decreases progress(s),
{
    assert(run_n(s, 0) == Transition::Running(s));
    if step_spec(s) is Running {
        let t = step_spec(s)->Running_0;
        lemma_step_lowers_progress(s);
        law_every_run_ends(t);
        let m = choose|m: nat| !(#[trigger] run_n(t, m) is Running);
        lemma_run_after_step(s, m);
        assert(!(run_n(s, m + 1) is Running));
    } else {
        assert(run_n(s, 1) == step_spec(s));
        assert(!(run_n(s, 1) is Running));
    }
}

} // verus!
