//! What holds of the tape and of the run buffer whatever the program: cells
//! wrap around at 256, moves undo each other, and batching changes nothing
//! that can be observed.

use crate::ops::is_accumulating;
use crate::types::{lemma_run_concat, lemma_run_extend, lemma_run_zero, CharBuf, TapeView};
use vstd::prelude::*;

verus! {

/// `n` repeats of the operator `c`, written out.
pub open spec fn repeated(c: char, n: nat) -> Seq<char> {
    Seq::new(n, |i: int| c)
}

/// Applying an operator `n` times, one at a time, is applying it once as a
/// run of `n`: a bulk update does what the single updates do.
pub proof fn law_run_is_repeats(t: TapeView, c: char, n: nat)
    ensures
        t.apply_each(repeated(c, n)) == t.apply_run(c, n as int),
    decreases n,
{
    if n == 0 {
        lemma_run_zero(t, c);
    } else {
        let rest = (n - 1) as nat;
        assert(repeated(c, n).drop_first() =~= repeated(c, rest));
        law_run_is_repeats(t.apply_run(c, 1), c, rest);
        lemma_run_concat(t, c, 1, rest as int);
    }
}

/// Incrementing a cell 256 times restores its value, whether the increments
/// are applied as one run or one by one. So does decrementing it 256 times.
pub proof fn law_cell_wraps(t: TapeView)
    ensures
        t.apply_run('+', 256) == t,
        t.apply_each(repeated('+', 256)) == t,
        t.apply_run('-', 256) == t,
        t.apply_each(repeated('-', 256)) == t,
{
    law_run_is_repeats(t, '+', 256);
    law_run_is_repeats(t, '-', 256);
    assert(t.apply_run('+', 256) =~= t);
    assert(t.apply_run('-', 256) =~= t);
}

/// A run whose length is a multiple of 256 leaves the cell as it was, and two
/// runs whose lengths differ by a multiple of 256 do the same to it.
pub proof fn law_run_modulo(t: TapeView, n: int, k: int)
    ensures
        t.apply_run('+', n + 256 * k) == t.apply_run('+', n),
        t.apply_run('-', n + 256 * k) == t.apply_run('-', n),
{
    assert((t.read() + (n + 256 * k)) % 256 == (t.read() + n) % 256) by {
        vstd::arithmetic::div_mod::lemma_mod_multiples_vanish(k, t.read() + n, 256);
    }
    assert((t.read() - (n + 256 * k)) % 256 == (t.read() - n) % 256) by {
        vstd::arithmetic::div_mod::lemma_mod_multiples_vanish(-k, t.read() - n, 256);
    }
}

/// Decrementing a cell that holds 0 gives 255, and incrementing one that
/// holds 255 gives 0.
pub proof fn law_cell_wraps_below_zero(t: TapeView)
    ensures
        t.read() == 0 ==> t.apply_run('-', 1).read() == 255,
        t.read() == 255 ==> t.apply_run('+', 1).read() == 0,
{
}

/// Moving the cursor `n` cells to the right and then `n` cells to the left
/// leaves the tape and the cursor as they were: whatever was written, at the
/// start address or elsewhere, is still where it was written. The same holds
/// of the other direction, and of moves made one cell at a time.
pub proof fn law_move_round_trip(t: TapeView, n: nat)
    ensures
        t.apply_run('>', n as int).apply_run('<', n as int) == t,
        t.apply_run('<', n as int).apply_run('>', n as int) == t,
        t.apply_each(repeated('>', n)).apply_each(repeated('<', n)) == t,
        t.apply_each(repeated('<', n)).apply_each(repeated('>', n)) == t,
{
    law_run_is_repeats(t, '>', n);
    law_run_is_repeats(t.apply_run('>', n as int), '<', n);
    law_run_is_repeats(t, '<', n);
    law_run_is_repeats(t.apply_run('<', n as int), '>', n);
    assert(t.apply_run('>', n as int).apply_run('<', n as int) =~= t);
    assert(t.apply_run('<', n as int).apply_run('>', n as int) =~= t);
}

/// A byte written at the start address is read back there after the cursor
/// went `n` cells away and came back, and a move alone changes no cell.
pub proof fn law_move_keeps_cells(t: TapeView, val: u8, n: int, a: int)
    ensures
        t.write(val).shift(n).shift(-n).read() == val,
        t.shift(n).cell(a) == t.cell(a),
        t.shift(n).cursor == t.cursor + n,
{
}

/// The buffer and the tape after the operators `ops` went through the run
/// buffer one by one: an operator that the buffer accepts is counted, and
/// one that it does not accept has the buffer flushed to the tape first.
pub open spec fn batch(buf: CharBuf, t: TapeView, ops: Seq<char>) -> (CharBuf, TapeView)
    decreases ops.len(),
{
    if ops.len() == 0 {
        (buf, t)
    } else if buf.accepts(ops[0]) {
        batch(buf.inserted(ops[0]), t, ops.drop_first())
    } else {
        batch(CharBuf::empty().inserted(ops[0]), buf.apply(t), ops.drop_first())
    }
}

/// The tape after batched execution of `ops`: the operators go through the
/// run buffer, and the buffer is flushed at the end.
pub open spec fn run_batched(t: TapeView, ops: Seq<char>) -> TapeView {
    let (buf, tape) = batch(CharBuf::empty(), t, ops);
    buf.apply(tape)
}

/// Batching from any state of the buffer: what is pending counts as applied.
pub proof fn lemma_batch(buf: CharBuf, t: TapeView, ops: Seq<char>)
    requires
        forall|i: int| 0 <= i < ops.len() ==> is_accumulating(#[trigger] ops[i]),
    ensures
        batch(buf, t, ops).0.apply(batch(buf, t, ops).1) == buf.apply(t).apply_each(ops),
    decreases ops.len(),
{
    if ops.len() > 0 {
        let c = ops[0];
        let rest = ops.drop_first();
        assert forall|i: int| 0 <= i < rest.len() implies is_accumulating(#[trigger] rest[i]) by {
            assert(rest[i] == ops[i + 1]);
        }
        if buf.accepts(c) {
            lemma_batch(buf.inserted(c), t, rest);
            if buf.ch_opt is Some {
                lemma_run_extend(t, c, buf.ctr as int);
            }
        } else {
            lemma_batch(CharBuf::empty().inserted(c), buf.apply(t), rest);
        }
    }
}

/// For any sequence of the four accumulating operators, batched execution
/// and execution one character at a time end with the same tape and the same
/// cursor, however long the runs are.
pub proof fn law_batching(t: TapeView, ops: Seq<char>)
    requires
        forall|i: int| 0 <= i < ops.len() ==> is_accumulating(#[trigger] ops[i]),
    ensures
        run_batched(t, ops) == t.apply_each(ops),
{
    lemma_batch(CharBuf::empty(), t, ops);
}

} // verus!
