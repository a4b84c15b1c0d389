//! The data that a run works on: the memory tape and the buffer that
//! coalesces runs of one operator.

use crate::ops::trunc;
use vstd::prelude::*;

verus! {

/// The tape as mathematics: a byte at every integer address, and the address
/// that the cursor stands on.
#[verifier::ext_equal]
pub struct TapeView {
    /// The byte held at each address.
    pub cells: spec_fn(int) -> u8,
    /// The address of the current cell.
    pub cursor: int,
}

impl TapeView {
    /// The tape on which nothing was written: zero everywhere, cursor at 0.
    pub open spec fn blank() -> TapeView {
        TapeView { cells: |a: int| 0u8, cursor: 0 }
    }

    /// The byte at address `a`.
    pub open spec fn cell(self, a: int) -> u8 {
        (self.cells)(a)
    }

    /// The byte in the current cell.
    pub open spec fn read(self) -> u8 {
        self.cell(self.cursor)
    }

    /// The tape with `val` in the current cell.
    pub open spec fn write(self, val: u8) -> TapeView {
        TapeView {
            cells: |a: int|
                if a == self.cursor {
                    val
                } else {
                    self.cell(a)
                },
            cursor: self.cursor,
        }
    }

    /// The tape with the cursor moved by `delta` cells, to the right where
    /// `delta` is positive.
    pub open spec fn shift(self, delta: int) -> TapeView {
        TapeView { cells: self.cells, cursor: self.cursor + delta }
    }

    /// The tape with `n` added to the current cell modulo 256.
    pub open spec fn add(self, n: int) -> TapeView {
        self.write(((self.read() + n) % 256) as u8)
    }

    /// The tape with `n` subtracted from the current cell modulo 256.
    pub open spec fn sub(self, n: int) -> TapeView {
        self.write(((self.read() - n) % 256) as u8)
    }

    /// The tape after the operators `ops` are applied one character at a
    /// time, without any batching.
    pub open spec fn apply_each(self, ops: Seq<char>) -> TapeView
        decreases ops.len(),
    {
        if ops.len() == 0 {
            self
        } else {
            self.apply_run(ops[0], 1).apply_each(ops.drop_first())
        }
    }

    /// The tape after `n` repeats of the accumulating operator `c`, applied
    /// as one bulk update. Any other character changes nothing.
    pub open spec fn apply_run(self, c: char, n: int) -> TapeView {
        if c == '+' {
            self.add(n)
        } else if c == '-' {
            self.sub(n)
        } else if c == '<' {
            self.shift(-n)
        } else if c == '>' {
            self.shift(n)
        } else {
            self
        }
    }
}

/// The memory tape: unbounded in both directions, zero wherever nothing was
/// written, with one cursor.
///
/// The cells on either side of the cursor are kept on two stacks, the cell
/// nearest to the cursor on top, so a move is a push and a pop, and a read or
/// a write touches no stack at all.
pub struct Strip {
    left: Vec<u8>,
    cur: u8,
    right: Vec<u8>,
    pos: Ghost<int>,
}

impl Strip {
    /// The byte `k` cells to the right of the cursor (to the left where `k`
    /// is negative).
    spec fn rel(self, k: int) -> u8 {
        if k == 0 {
            self.cur
        } else if k < 0 {
            let i = self.left@.len() + k;
            if i >= 0 {
                self.left@[i]
            } else {
                0u8
            }
        } else {
            let i = self.right@.len() - k;
            if i >= 0 {
                self.right@[i]
            } else {
                0u8
            }
        }
    }
}

impl View for Strip {
    type V = TapeView;

    closed spec fn view(&self) -> TapeView {
        TapeView { cells: |a: int| self.rel(a - self.pos@), cursor: self.pos@ }
    }
}

impl Strip {
    /// A blank tape.
    pub fn new() -> (s: Strip)
        ensures
            s@ == TapeView::blank(),
    {
        Strip { left: Vec::new(), cur: 0, right: Vec::new(), pos: Ghost(0) }
    }

    /// The value of the current cell. A cell that was never written holds 0.
    pub fn read(&self) -> (val: u8)
        ensures
            val == self@.read(),
    {
        self.cur
    }

    /// Overwrites the current cell.
    pub fn write(&mut self, val: u8)
        ensures
            final(self)@ == old(self)@.write(val),
    {
        self.cur = val;
    }

    /// Moves the cursor one cell to the right.
    pub fn move_right(&mut self)
        ensures
            final(self)@ == old(self)@.shift(1),
    {
        self.left.push(self.cur);
        self.cur = match self.right.pop() {
            Some(v) => v,
            None => 0,
        };
        proof {
            self.pos@ = self.pos@ + 1;
        }
    }

    /// Moves the cursor one cell to the left.
    pub fn move_left(&mut self)
        ensures
            final(self)@ == old(self)@.shift(-1),
    {
        self.right.push(self.cur);
        self.cur = match self.left.pop() {
            Some(v) => v,
            None => 0,
        };
        proof {
            self.pos@ = self.pos@ - 1;
        }
    }

    /// Moves the cursor by `delta` cells: to the right where `delta` is
    /// positive, to the left where it is negative. What was written stays
    /// where it was written.
    pub fn shift(&mut self, delta: i64)
        ensures
            final(self)@ == old(self)@.shift(delta as int),
    {
        let mut k: i64 = 0;
        if delta >= 0 {
            while k < delta
                invariant
                    0 <= k <= delta,
                    self@ == old(self)@.shift(k as int),
                decreases delta - k,
            {
                self.move_right();
                k += 1;
            }
        } else {
            while k > delta
                invariant
                    delta <= k <= 0,
                    self@ == old(self)@.shift(k as int),
                decreases k - delta,
            {
                self.move_left();
                k -= 1;
            }
        }
    }

    /// Adds `n` to the current cell, wrapping around at 256.
    pub fn add(&mut self, n: u8)
        ensures
            final(self)@ == old(self)@.add(n as int),
    {
        self.cur = self.cur.wrapping_add(n);
    }

    /// Subtracts `n` from the current cell, wrapping around at 256.
    pub fn sub(&mut self, n: u8)
        ensures
            final(self)@ == old(self)@.sub(n as int),
    {
        self.cur = self.cur.wrapping_sub(n);
    }

    /// Applies `n` repeats of the accumulating operator `c` as one bulk
    /// update: the cell changes by `n` modulo 256, or the cursor moves by `n`
    /// cells. Any other character changes nothing.
    pub fn apply_run(&mut self, c: char, n: u32)
        ensures
            final(self)@ == old(self)@.apply_run(c, n as int),
    {
        let ghost before = self@;
        if c == '+' {
            self.add(trunc(n));
            proof {
                lemma_add_mod(before, n as int);
            }
        } else if c == '-' {
            self.sub(trunc(n));
            proof {
                lemma_sub_mod(before, n as int);
            }
        } else if c == '<' {
            self.shift(-(n as i64));
        } else if c == '>' {
            self.shift(n as i64);
        }
    }

    /// Wipes the tape: every cell is zero again and the cursor is back at
    /// address 0.
    pub fn clear(&mut self)
        ensures
            final(self)@ == TapeView::blank(),
    {
        self.left.clear();
        self.right.clear();
        self.cur = 0;
        proof {
            self.pos@ = 0;
        }
    }
}

/// The buffer that coalesces consecutive repeats of one operator. It holds at
/// most one pending operator with its repeat count, and must be flushed
/// before another operator goes in.
pub struct CharBuf {
    /// The operator that is being buffered, if any.
    pub ch_opt: Option<char>,
    /// How many times it was inserted since the buffer was last empty.
    pub ctr: u32,
}

impl CharBuf {
    /// The buffer that holds nothing.
    pub open spec fn empty() -> CharBuf {
        CharBuf { ch_opt: None, ctr: 0 }
    }

    /// The buffer after one more `c` went in: an empty buffer holds `c`
    /// once, a buffer that holds `c` counts one more.
    pub open spec fn inserted(self, c: char) -> CharBuf {
        CharBuf {
            ch_opt: Some(c),
            ctr: if self.ch_opt is Some {
                (self.ctr + 1) as u32
            } else {
                1
            },
        }
    }

    /// What the pending run does to a tape once it is flushed.
    pub open spec fn apply(self, t: TapeView) -> TapeView {
        match self.ch_opt {
            Some(c) => t.apply_run(c, self.ctr as int),
            None => t,
        }
    }

    /// `c` may be inserted: the buffer is empty, or it holds `c` and its
    /// counter has room for one more.
    pub open spec fn accepts(self, c: char) -> bool {
        self.ch_opt matches Some(held) ==> held == c && self.ctr < u32::MAX
    }

    /// An empty buffer.
    pub fn new() -> (buf: CharBuf)
        ensures
            buf == CharBuf::empty(),
    {
        CharBuf { ch_opt: None, ctr: 0 }
    }

    /// Tells whether `c` may be inserted as the buffer stands, or whether
    /// the buffer must be flushed first.
    pub fn can_insert(&self, c: char) -> (ok: bool)
        ensures
            ok == self.accepts(c),
    {
        match self.ch_opt {
            Some(held) => held == c && self.ctr < u32::MAX,
            None => true,
        }
    }

    /// Inserts one repeat of `c`: an empty buffer then holds `c` once, a
    /// buffer that holds `c` already counts one more.
    pub fn insert(&mut self, c: char)
        requires
            old(self).accepts(c),
        ensures
            *final(self) == old(self).inserted(c),
    {
        match self.ch_opt {
            Some(_) => {
                self.ctr += 1;
            },
            None => {
                self.ch_opt = Some(c);
                self.ctr = 1;
            },
        }
    }

    /// Resets the buffer to the empty state.
    pub fn clear(&mut self)
        ensures
            *final(self) == CharBuf::empty(),
    {
        self.ch_opt = None;
        self.ctr = 0;
    }

    /// Applies the pending run to the tape as one bulk update and empties
    /// the buffer. Flushing an empty buffer changes nothing.
    pub fn flush(&mut self, tape: &mut Strip)
        ensures
            final(tape)@ == old(self).apply(old(tape)@),
            *final(self) == CharBuf::empty(),
    {
        match self.ch_opt {
            Some(c) => {
                tape.apply_run(c, self.ctr);
            },
            None => {},
        }
        self.clear();
    }
}

impl Default for CharBuf {
    fn default() -> (buf: CharBuf)
        ensures
            buf == CharBuf::empty(),
    {
        CharBuf::new()
    }
}

impl Default for Strip {
    fn default() -> (s: Strip)
        ensures
            s@ == TapeView::blank(),
    {
        Strip::new()
    }
}

/// Adding `n` to a cell is adding `n` modulo 256.
pub proof fn lemma_add_mod(t: TapeView, n: int)
    ensures
        t.add(n % 256) == t.add(n),
{
    assert((t.read() + n % 256) % 256 == (t.read() + n) % 256) by {
        vstd::arithmetic::div_mod::lemma_add_mod_noop_right(t.read() as int, n, 256);
    }
}

/// Subtracting `n` from a cell is subtracting `n` modulo 256.
pub proof fn lemma_sub_mod(t: TapeView, n: int)
    ensures
        t.sub(n % 256) == t.sub(n),
{
    assert((t.read() - n % 256) % 256 == (t.read() - n) % 256) by {
        vstd::arithmetic::div_mod::lemma_sub_mod_noop_right(t.read() as int, n, 256);
    }
}

/// Reducing modulo 256 between two additions changes nothing.
proof fn lemma_wrap_twice(y: int, b: int)
    ensures
        ((y % 256) + b) % 256 == (y + b) % 256,
        ((y % 256) - b) % 256 == (y - b) % 256,
{
}

/// Two runs of one operator, one after the other, are one run of both
/// lengths together.
pub proof fn lemma_run_concat(t: TapeView, c: char, a: int, b: int)
    ensures
        t.apply_run(c, a).apply_run(c, b) == t.apply_run(c, a + b),
{
    let x = t.read() as int;
    if c == '+' {
        lemma_wrap_twice(x + a, b);
        let mid = ((x + a) % 256) as u8;
        assert(t.add(a).read() == mid);
        assert(t.add(a).add(b) =~= t.add(a + b));
    } else if c == '-' {
        lemma_wrap_twice(x - a, b);
        let mid = ((x - a) % 256) as u8;
        assert(t.sub(a).read() == mid);
        assert(t.sub(a).sub(b) =~= t.sub(a + b));
    } else if c == '<' {
        assert(t.shift(-a).shift(-b) =~= t.shift(-(a + b)));
    } else if c == '>' {
        assert(t.shift(a).shift(b) =~= t.shift(a + b));
    }
}

/// A run of `n` repeats followed by one more repeat is a run of `n + 1`.
pub proof fn lemma_run_extend(t: TapeView, c: char, n: int)
    ensures
        t.apply_run(c, n).apply_run(c, 1) == t.apply_run(c, n + 1),
{
    lemma_run_concat(t, c, n, 1);
}

/// A run of no repeats changes nothing.
pub proof fn lemma_run_zero(t: TapeView, c: char)
    ensures
        t.apply_run(c, 0) == t,
{
}

} // verus!
