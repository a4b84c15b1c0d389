//! What the machine does with whole stretches of a program: a run of
//! arithmetic and movement, a loop that is skipped, the loop that clears a
//! cell, and the loop that never ends.

use crate::analyze::{balanced, bracket_delta, closes, depth};
use crate::laws::{law_batching, run_batched};
use crate::machine::{
    lemma_jump_stack_nonempty, lemma_steps_add, lemma_steps_succ, Machine, Status,
};
use crate::ops::is_accumulating;
use vstd::prelude::*;

verus! {

/// A stretch of `k` arithmetic and movement operators takes `k` steps, and
/// does to the tape what its operators do one character at a time. Nothing
/// else changes.
pub proof fn law_accumulating_stretch(prog: Seq<char>, m: Machine, k: nat)
    requires
        m.skip == 0,
        0 <= m.pc,
        m.pc + k <= prog.len(),
        forall|i: int| m.pc <= i < m.pc + k ==> is_accumulating(#[trigger] prog[i]),
    ensures
        m.steps(prog, k) == (Machine {
            pc: m.pc + k,
            tape: m.tape.apply_each(prog.subrange(m.pc, m.pc + k)),
            ..m
        }),
    decreases k,
{
    let stretch = prog.subrange(m.pc, m.pc + k);
    if k > 0 {
        let c = prog[m.pc];
        assert(is_accumulating(c));
        let next = m.step(prog);
        assert(next == (Machine { pc: m.pc + 1, tape: m.tape.apply_run(c, 1), ..m }));
        law_accumulating_stretch(prog, next, (k - 1) as nat);
        assert(stretch[0] == c);
        assert(stretch.drop_first() =~= prog.subrange(next.pc as int, next.pc + (k - 1)));
    }
}

/// On such a stretch the machine, which knows no batching, and the run
/// buffer, which batches, end with the same tape and the same cursor.
pub proof fn law_batched_stretch(prog: Seq<char>, m: Machine, k: nat)
    requires
        m.skip == 0,
        0 <= m.pc,
        m.pc + k <= prog.len(),
        forall|i: int| m.pc <= i < m.pc + k ==> is_accumulating(#[trigger] prog[i]),
    ensures
        m.steps(prog, k).tape == run_batched(m.tape, prog.subrange(m.pc, m.pc + k)),
{
    law_accumulating_stretch(prog, m, k);
    law_batching(m.tape, prog.subrange(m.pc, m.pc + k));
}

/// A `]` that is run in a balanced program finds on top of the jump stack
/// the `[` that it closes. Where the cell is not zero the machine goes on
/// right behind that `[`, and the loop stays open; where the cell is zero it
/// goes on behind the `]`, and the loop is closed.
pub proof fn law_loop_repeats_from_its_opening(prog: Seq<char>, m: Machine)
    requires
        balanced(prog),
        m.inv(prog),
        m.pc < prog.len(),
        m.skip == 0,
        prog[m.pc] == ']',
    ensures
        m.jumps.len() > 0,
        closes(prog, m.jumps.last(), m.pc),
        m.tape.read() != 0 ==> m.step(prog) == (Machine { pc: m.jumps.last() + 1, ..m }),
        m.tape.read() == 0 ==> m.step(prog) == (Machine {
            pc: m.pc + 1,
            jumps: m.jumps.drop_last(),
            ..m
        }),
{
    lemma_jump_stack_nonempty(prog, m);
    let top = m.jumps.last();
    assert(top == m.jumps[m.jumps.len() - 1]);
    assert(depth(prog, m.pc + 1) == depth(prog, m.pc) + bracket_delta(prog[m.pc]));
}

/// A machine that skips, inside the loop that `open` and `close` delimit,
/// leaves skip mode right behind `close`.
proof fn lemma_skip_rest(prog: Seq<char>, m: Machine, open: int, close: int)
    requires
        closes(prog, open, close),
        open < m.pc <= close,
        m.skip == depth(prog, m.pc) - depth(prog, open),
    ensures
        m.steps(prog, (close + 1 - m.pc) as nat) == (Machine {
            pc: close + 1,
            skip: 0,
            ..m
        }),
    decreases close - m.pc,
{
    let p = m.pc;
    assert(depth(prog, p) > depth(prog, open));
    assert(depth(prog, p + 1) == depth(prog, p) + bracket_delta(prog[p]));
    let next = m.step(prog);
    assert(next == (Machine {
        pc: p + 1,
        skip: depth(prog, p + 1) - depth(prog, open),
        ..m
    }));
    if p == close {
        assert(next.steps(prog, 0) == next);
    } else {
        lemma_skip_rest(prog, next, open, close);
    }
}

/// A loop that is entered on a zero cell is skipped as a whole: the machine
/// goes from its `[` to right behind the `]` that closes it, one step for
/// each character, and nothing else changes. No input is read, no output is
/// written, the tape and the cursor stay, whatever stands inside the loop.
pub proof fn law_false_loop_is_skipped(prog: Seq<char>, m: Machine, close: int)
    requires
        closes(prog, m.pc, close),
        m.skip == 0,
        m.tape.read() == 0,
    ensures
        m.steps(prog, (close + 1 - m.pc) as nat) == (Machine { pc: close + 1, ..m }),
{
    let open = m.pc;
    assert(depth(prog, open + 1) == depth(prog, open) + bracket_delta(prog[open]));
    let next = m.step(prog);
    assert(next == (Machine { pc: open + 1, skip: 1, ..m }));
    lemma_skip_rest(prog, next, open, close);
}

/// The empty loop `[]` on a zero cell is left after two steps, and nothing
/// but the program counter has changed.
pub proof fn law_empty_loop_on_zero(prog: Seq<char>, m: Machine)
    requires
        0 <= m.pc,
        m.pc + 1 < prog.len(),
        prog[m.pc] == '[',
        prog[m.pc + 1] == ']',
        m.skip == 0,
        m.tape.read() == 0,
    ensures
        m.steps(prog, 2) == (Machine { pc: m.pc + 2, ..m }),
{
    let open = m.pc;
    assert(depth(prog, open + 1) == depth(prog, open) + bracket_delta(prog[open]));
    assert(depth(prog, open + 2) == depth(prog, open + 1) + bracket_delta(prog[open + 1]));
    assert(closes(prog, open, open + 1));
    law_false_loop_is_skipped(prog, m, open + 1);
}

/// The empty loop `[]` on a cell that is not zero never ends: after any
/// number of steps the machine is still running, has read no input and has
/// written no output, and the tape is as it was.
pub proof fn law_empty_loop_never_ends(prog: Seq<char>, m: Machine, n: nat)
    requires
        0 <= m.pc,
        m.pc + 1 < prog.len(),
        prog[m.pc] == '[',
        prog[m.pc + 1] == ']',
        m.skip == 0,
        m.tape.read() != 0,
    ensures
        m.steps(prog, n).status(prog) == Status::Running,
        m.steps(prog, n).input == m.input,
        m.steps(prog, n).output == m.output,
        m.steps(prog, n).tape == m.tape,
        !m.terminates(prog),
{
    let inside = Machine { pc: m.pc + 1, jumps: m.jumps.push(m.pc), ..m };
    assert(m.step(prog) == inside);
    assert(inside.step(prog) == inside);
    assert forall|k: nat| (#[trigger] m.steps(prog, k)).status(prog) == Status::Running by {
        lemma_spin(prog, m, inside, k);
    }
    lemma_spin(prog, m, inside, n);
}

/// A machine whose first step leads to a state that steps to itself is, from
/// then on, in that state.
proof fn lemma_spin(prog: Seq<char>, m: Machine, inside: Machine, n: nat)
    requires
        m.step(prog) == inside,
        inside.step(prog) == inside,
    ensures
        m.steps(prog, n) == if n == 0 {
            m
        } else {
            inside
        },
    decreases n,
{
    if n > 1 {
        lemma_spin(prog, m, inside, (n - 1) as nat);
        lemma_steps_succ(prog, m, (n - 1) as nat);
    } else if n == 1 {
        assert(m.steps(prog, 1) == m.step(prog).steps(prog, 0));
    }
}

/// Inside the loop `[-]`, at the `-`, with `v` in the cell: `v` rounds of
/// two steps each bring the cell to zero and the machine behind the loop.
proof fn lemma_clear_rounds(prog: Seq<char>, m: Machine, open: int, below: Seq<int>, v: nat)
    requires
        0 <= open,
        open + 2 < prog.len(),
        prog[open + 1] == '-',
        prog[open + 2] == ']',
        m.pc == open + 1,
        m.skip == 0,
        m.jumps == below.push(open),
        m.tape.read() == v,
        v > 0,
    ensures
        m.steps(prog, 2 * v) == (Machine {
            pc: open + 3,
            jumps: below,
            tape: m.tape.write(0),
            ..m
        }),
    decreases v,
{
    let less = Machine { pc: open + 2, tape: m.tape.write((v - 1) as u8), ..m };
    assert(m.tape.apply_run('-', 1) =~= m.tape.write((v - 1) as u8));
    assert(m.step(prog) == less);
    assert(less.jumps.last() == open);
    assert(less.jumps.drop_last() =~= below);
    let after = less.step(prog);
    lemma_steps_add(prog, m, 2, (2 * v - 2) as nat);
    assert(m.steps(prog, 2) == after) by {
        assert(m.steps(prog, 2) == m.step(prog).steps(prog, 1));
        assert(less.steps(prog, 1) == less.step(prog).steps(prog, 0));
    }
    if v == 1 {
        assert(after =~= (Machine {
            pc: open + 3,
            jumps: below,
            tape: m.tape.write(0),
            ..m
        }));
        assert(after.steps(prog, 0) == after);
    } else {
        assert(after == (Machine { pc: open + 1, ..less }));
        lemma_clear_rounds(prog, after, open, below, (v - 1) as nat);
        assert(after.tape.write(0) =~= m.tape.write(0));
    }
}

/// The loop `[-]` on a cell that holds `v`, not zero, zeroes the cell in
/// exactly `v` rounds: one step to enter the loop and two steps for each
/// round, after which the machine stands behind the loop. The cursor has not
/// moved, no other cell has changed, and the jump stack is as it was.
pub proof fn law_clear_loop(prog: Seq<char>, m: Machine)
    requires
        0 <= m.pc,
        m.pc + 2 < prog.len(),
        prog[m.pc] == '[',
        prog[m.pc + 1] == '-',
        prog[m.pc + 2] == ']',
        m.skip == 0,
        m.tape.read() != 0,
    ensures
        m.steps(prog, 1 + 2 * (m.tape.read() as nat)) == (Machine {
            pc: m.pc + 3,
            tape: m.tape.write(0),
            ..m
        }),
{
    let v = m.tape.read() as nat;
    let inside = Machine { pc: m.pc + 1, jumps: m.jumps.push(m.pc), ..m };
    assert(m.step(prog) == inside);
    lemma_clear_rounds(prog, inside, m.pc, m.jumps, v);
    assert(m.steps(prog, 1 + 2 * v) == m.step(prog).steps(prog, 2 * v));
}

/// While the loop `[-]` runs, the round that begins after `i` full rounds
/// finds the cell lowered by `i`: the body is entered with `v`, `v - 1`, and
/// so on down to 1, and is entered `v` times in all.
pub proof fn law_clear_loop_rounds(prog: Seq<char>, m: Machine, i: nat)
    requires
        0 <= m.pc,
        m.pc + 2 < prog.len(),
        prog[m.pc] == '[',
        prog[m.pc + 1] == '-',
        prog[m.pc + 2] == ']',
        m.skip == 0,
        i < m.tape.read(),
    ensures
        m.steps(prog, 1 + 2 * i) == (Machine {
            pc: m.pc + 1,
            jumps: m.jumps.push(m.pc),
            tape: m.tape.write((m.tape.read() - i) as u8),
            ..m
        }),
    decreases i,
{
    let inside = Machine { pc: m.pc + 1, jumps: m.jumps.push(m.pc), ..m };
    if i == 0 {
        assert(m.step(prog) == inside);
        assert(m.steps(prog, 1) == m.step(prog).steps(prog, 0));
        assert(m.tape.write(m.tape.read()) =~= m.tape);
    } else {
        let before = (i - 1) as nat;
        law_clear_loop_rounds(prog, m, before);
        let at = m.steps(prog, 1 + 2 * before);
        let v = (m.tape.read() - before) as nat;
        let less = Machine { pc: m.pc + 2, tape: at.tape.write((v - 1) as u8), ..at };
        assert(at.tape.apply_run('-', 1) =~= at.tape.write((v - 1) as u8));
        assert(at.step(prog) == less);
        assert(less.jumps.last() == m.pc);
        assert(less.step(prog) == (Machine { pc: m.pc + 1, ..less }));
        lemma_steps_succ(prog, m, 1 + 2 * before);
        lemma_steps_succ(prog, m, 2 + 2 * before);
        assert(less.tape =~= m.tape.write((m.tape.read() - i) as u8));
    }
}

} // verus!
