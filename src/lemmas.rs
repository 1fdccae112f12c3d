//! What holds of every run: how stepping and running agree, and what the cells do.
use vstd::prelude::*;
use crate::brainf::{Machine, State, Token, step_spec, run, emitted, initial, inc, dec, cell};
use crate::parse::{links, closes, depth_at};

verus! {

/// Taking `k` steps one by one, whatever the state: the machine after them, and the
/// text of every step that returned some, in order.
pub open spec fn steps(m: Machine, k: nat) -> (Machine, Seq<char>)
    decreases k,
{
    if k == 0 {
        (m, seq![])
    } else {
        let (m2, o) = step_spec(m);
        let (m3, rest) = steps(m2, (k - 1) as nat);
        (m3, emitted(o) + rest)
    }
}

/// Adding one to a cell `n` times.
pub open spec fn inc_times(v: u8, n: nat) -> u8
    decreases n,
{
    if n == 0 {
        v
    } else {
        inc(inc_times(v, (n - 1) as nat))
    }
}

/// Taking one from a cell `n` times.
pub open spec fn dec_times(v: u8, n: nat) -> u8
    decreases n,
{
    if n == 0 {
        v
    } else {
        dec(dec_times(v, (n - 1) as nat))
    }
}

/// Once a run is over, further steps change nothing and print nothing.
pub proof fn lemma_terminated_stays(m: Machine, k: nat)
    requires
        m.state == State::Terminated,
    ensures
        steps(m, k) == (m, Seq::<char>::empty()),
        run(m, k) == (m, Seq::<char>::empty()),
    decreases k,
{
    if k > 0 {
        lemma_terminated_stays(m, (k - 1) as nat);
        assert(Seq::<char>::empty() + Seq::<char>::empty() =~= Seq::<char>::empty());
    }
}

/// Running with a budget of `k` steps is taking `k` steps one by one.
pub proof fn lemma_run_is_steps(m: Machine, k: nat)
    ensures
        run(m, k) == steps(m, k),
    decreases k,
{
    if k > 0 {
        if m.state == State::Terminated {
            lemma_terminated_stays(m, k);
        } else {
            lemma_run_is_steps(step_spec(m).0, (k - 1) as nat);
        }
    }
}

/// A run that is over within a budget of `a` steps ends the same, and prints the same,
/// under any larger budget.
pub proof fn lemma_run_settles(m: Machine, a: nat, b: nat)
    requires
        a <= b,
        run(m, a).0.state == State::Terminated,
    ensures
        run(m, b) == run(m, a),
    decreases a,
{
    if m.state == State::Terminated {
        lemma_terminated_stays(m, a);
        lemma_terminated_stays(m, b);
    } else if a > 0 {
        lemma_run_settles(step_spec(m).0, (a - 1) as nat, (b - 1) as nat);
    }
}

/// Stepping a machine one command at a time until its run is over, and joining every
/// text that a step returned, gives the final machine and the text that a whole run
/// of the same machine gives.
pub proof fn lemma_step_run_agree(m: Machine, k: nat)
    requires
        k <= u64::MAX,
        steps(m, k).0.state == State::Terminated,
    ensures
        steps(m, k) == run(m, u64::MAX as nat),
{
    lemma_run_is_steps(m, k);
    lemma_run_settles(m, k, u64::MAX as nat);
}

proof fn lemma_closing_unique(p: Seq<Token>, s: int, e1: int, e2: int)
    requires
        closes(p, s, e1),
        closes(p, s, e2),
    ensures
        e1 == e2,
{
    if e1 < e2 {
        assert(depth_at(p, e1 + 1) > depth_at(p, s));
    } else if e2 < e1 {
        assert(depth_at(p, e2 + 1) > depth_at(p, s));
    }
}

/// A program has one way only to link its brackets.
pub proof fn lemma_links_unique(p: Seq<Token>, j1: Seq<usize>, j2: Seq<usize>)
    requires
        links(p, j1),
        links(p, j2),
    ensures
        j1 == j2,
{
    reveal(links);
    assert forall|i: int| 0 <= i < p.len() && p[i] == Token::LoopStart implies j1[i] == j2[i] by {
        lemma_closing_unique(p, i, j1[i] as int, j2[i] as int);
    }
    assert forall|i: int| 0 <= i < p.len() implies j1[i] == j2[i] by {
        if p[i] == Token::LoopEnd {
            let s1 = j1[i] as int;
            let s2 = j2[i] as int;
            assert(j1[s2] == j2[s2]);
            assert(j1[j1[s2] as int] == s2);
        }
    }
    assert(j1 =~= j2);
}

/// Two programs read from the same text, each with brackets linked, run alike: under
/// any budget they end in the same machine and print the same text.
pub proof fn lemma_run_deterministic(p: Seq<Token>, j1: Seq<usize>, j2: Seq<usize>, fuel: nat)
    requires
        links(p, j1),
        links(p, j2),
    ensures
        run(initial(p, j1), fuel) == run(initial(p, j2), fuel),
{
    lemma_links_unique(p, j1, j2);
}

proof fn lemma_inc_times_mod(v: u8, n: nat)
    ensures
        inc_times(v, n) == (v + n) % 256,
        dec_times(v, n) == (v + 255 * n) % 256,
    decreases n,
{
    if n > 0 {
        lemma_inc_times_mod(v, (n - 1) as nat);
        assert(((v + (n - 1)) % 256 + 1) % 256 == (v + n) % 256) by (nonlinear_arith);
        assert(((v + 255 * (n - 1)) % 256 + 255) % 256 == (v + 255 * n) % 256) by (nonlinear_arith);
    }
}

/// Adding one to a cell 256 times gives back the value it had; so does taking one
/// 256 times.
pub proof fn lemma_full_cycle(v: u8)
    ensures
        inc_times(v, 256) == v,
        dec_times(v, 256) == v,
{
    lemma_inc_times_mod(v, 256);
    assert((v + 255 * 256) % 256 == v) by (nonlinear_arith);
}

/// A cell that was never written reads 0, and a step writes no cell but the current
/// one, and that only for `+` and `-`: a command that only reads a cell adds no
/// address to the tape.
pub proof fn lemma_reads_do_not_write(m: Machine, a: i64)
    requires
        m.index >= 0,
    ensures
        !m.tape.contains_key(a) ==> cell(m.tape, a) == 0,
        ({
            let m2 = step_spec(m).0;
            if m.state != State::Terminated && m.index < m.program.len() && (m.program[m.index]
                == Token::Increment || m.program[m.index] == Token::Decrement) {
                m2.tape.dom() == m.tape.dom().insert(m.pointer)
            } else {
                m2.tape == m.tape
            }
        }),
{
    let m2 = step_spec(m).0;
    if m.state != State::Terminated && m.index < m.program.len() && (m.program[m.index]
        == Token::Increment || m.program[m.index] == Token::Decrement) {
        assert(m2.tape.dom() =~= m.tape.dom().insert(m.pointer));
    }
}

} // verus!
