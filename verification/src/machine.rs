//! The execution engine as mathematics: the state of a run, and the state
//! that follows each state. One step takes one instruction of the program,
//! without any batching.

use crate::analyze::{balanced, bracket_delta, depth};
use crate::ops::{decode, Op};
use crate::types::TapeView;
use vstd::prelude::*;

verus! {

/// Where a run stands.
#[derive(Copy, Debug, Clone, PartialEq, Eq, Structural)]
pub enum Status {
    /// There are instructions left and the next one can be taken.
    Running,
    /// The program counter is at the end of the program.
    Halted,
    /// The next instruction reads a byte and the input holds none.
    NeedsInput,
}

/// The state of a run.
#[verifier::ext_equal]
pub struct Machine {
    /// The program counter: the index of the next instruction.
    pub pc: int,
    /// While it is not zero the machine skips the body of a loop whose entry
    /// condition was false, and counts the loops nested in what it skips.
    pub skip: int,
    /// The memory tape.
    pub tape: TapeView,
    /// The positions of the `[` of the loops that are being run, the
    /// innermost last.
    pub jumps: Seq<int>,
    /// The bytes of input that were not read yet.
    pub input: Seq<u8>,
    /// The bytes of output written so far.
    pub output: Seq<u8>,
}

impl Machine {
    /// The state in which a run begins: blank tape, no open loop, program
    /// counter at the first instruction.
    pub open spec fn start(input: Seq<u8>, output: Seq<u8>) -> Machine {
        Machine {
            pc: 0,
            skip: 0,
            tape: TapeView::blank(),
            jumps: Seq::empty(),
            input,
            output,
        }
    }

    /// The program counter is at the end of `prog`.
    pub open spec fn halted(self, prog: Seq<char>) -> bool {
        self.pc >= prog.len()
    }

    /// The machine is about to run `,` and no input is left.
    pub open spec fn starved(self, prog: Seq<char>) -> bool {
        &&& 0 <= self.pc < prog.len()
        &&& self.skip == 0
        &&& prog[self.pc] == ','
        &&& self.input.len() == 0
    }

    /// Where the run stands.
    pub open spec fn status(self, prog: Seq<char>) -> Status {
        if self.halted(prog) {
            Status::Halted
        } else if self.starved(prog) {
            Status::NeedsInput
        } else {
            Status::Running
        }
    }

    /// What `n` repeats of the operator `c` do to the state, before the
    /// program counter moves on. Only the accumulating operators use `n`.
    /// A `]` without an open loop, which a balanced program never meets,
    /// does nothing.
    pub open spec fn exec(self, c: char, n: int) -> Machine {
        match decode(c) {
            Some(Op::Output) => Machine { output: self.output.push(self.tape.read()), ..self },
            Some(Op::Input) => if self.input.len() > 0 {
                Machine {
                    tape: self.tape.write(self.input[0]),
                    input: self.input.drop_first(),
                    ..self
                }
            } else {
                self
            },
            Some(Op::JumpIfZero) => if self.tape.read() == 0 {
                Machine { skip: 1, ..self }
            } else {
                Machine { jumps: self.jumps.push(self.pc), ..self }
            },
            Some(Op::JumpIfNonZero) => if self.jumps.len() == 0 {
                self
            } else if self.tape.read() == 0 {
                Machine { jumps: self.jumps.drop_last(), ..self }
            } else {
                Machine { pc: self.jumps.last(), ..self }
            },
            _ => Machine { tape: self.tape.apply_run(c, n), ..self },
        }
    }

    /// The state after the next instruction of `prog`. A machine that has
    /// halted or needs input stays as it is.
    pub open spec fn step(self, prog: Seq<char>) -> Machine {
        if self.halted(prog) || self.starved(prog) {
            self
        } else if self.skip > 0 {
            Machine {
                skip: self.skip + bracket_delta(prog[self.pc]),
                pc: self.pc + 1,
                ..self
            }
        } else {
            let after = self.exec(prog[self.pc], 1);
            Machine { pc: after.pc + 1, ..after }
        }
    }

    /// The state after `n` steps.
    pub open spec fn steps(self, prog: Seq<char>, n: nat) -> Machine
        decreases n,
    {
        if n == 0 {
            self
        } else {
            self.step(prog).steps(prog, (n - 1) as nat)
        }
    }

    /// The run comes to an end: after some number of steps the machine has
    /// halted or needs input that is not there.
    pub open spec fn terminates(self, prog: Seq<char>) -> bool {
        exists|n: nat| (#[trigger] self.steps(prog, n)).status(prog) != Status::Running
    }

    /// The state in which the run comes to an end, if it does.
    pub open spec fn outcome(self, prog: Seq<char>) -> Machine {
        self.steps(
            prog,
            choose|n: nat| (#[trigger] self.steps(prog, n)).status(prog) != Status::Running,
        )
    }

    /// What holds of every state that a run of a balanced program reaches:
    /// the program counter is within the program, every loop that is open at
    /// the program counter is either being run or being skipped, and the
    /// jump stack holds the `[` of the loops that are being run, each at the
    /// depth of its place on the stack, and none of them closed before the
    /// program counter.
    pub open spec fn inv(self, prog: Seq<char>) -> bool {
        &&& 0 <= self.pc <= prog.len()
        &&& 0 <= self.skip
        &&& self.skip + self.jumps.len() == depth(prog, self.pc)
        &&& forall|i: int|
            0 <= i < self.jumps.len() ==> {
                &&& 0 <= (#[trigger] self.jumps[i]) < self.pc
                &&& prog[self.jumps[i]] == '['
                &&& depth(prog, self.jumps[i]) == i
            }
        &&& forall|i: int, k: int|
            0 <= i < self.jumps.len() && (#[trigger] self.jumps[i]) < k <= self.pc ==> (
            #[trigger] depth(prog, k)) > i
    }
}

/// In a balanced program a `]` that is run, not skipped, finds the `[` of
/// its loop on the jump stack: the stack never underflows.
pub proof fn lemma_jump_stack_nonempty(prog: Seq<char>, m: Machine)
    requires
        balanced(prog),
        m.inv(prog),
        m.pc < prog.len(),
        m.skip == 0,
        prog[m.pc] == ']',
    ensures
        m.jumps.len() > 0,
{
    assert(depth(prog, m.pc + 1) >= 0);
}

/// A step of a balanced program keeps the invariant.
pub proof fn lemma_step_inv(prog: Seq<char>, m: Machine)
    requires
        balanced(prog),
        m.inv(prog),
    ensures
        m.step(prog).inv(prog),
{
    let next = m.step(prog);
    if m.halted(prog) || m.starved(prog) {
    } else {
        let c = prog[m.pc];
        let len = m.jumps.len() as int;
        assert(depth(prog, m.pc + 1) == depth(prog, m.pc) + bracket_delta(c));
        assert(depth(prog, m.pc + 1) >= 0);
        if m.skip == 0 && c == ']' {
            lemma_jump_stack_nonempty(prog, m);
            let top = m.jumps.last();
            assert(top == m.jumps[len - 1]);
            assert(depth(prog, top + 1) == depth(prog, top) + bracket_delta(prog[top]));
            if m.tape.read() != 0 {
                assert(next.pc == top + 1);
                assert(next.jumps == m.jumps);
                assert forall|i: int| 0 <= i < len implies (#[trigger] next.jumps[i]) < next.pc by {
                    if i < len - 1 && m.jumps[i] > top {
                        assert(depth(prog, m.jumps[i]) > len - 1);
                    }
                }
                assert forall|i: int, k: int|
                    0 <= i < len && (#[trigger] next.jumps[i]) < k <= next.pc implies (
                #[trigger] depth(prog, k)) > i by {
                    if k == top + 1 {
                    } else {
                        assert(k <= m.pc);
                    }
                }
            } else {
                assert(next.jumps =~= m.jumps.drop_last());
                assert forall|i: int, k: int|
                    0 <= i < len - 1 && (#[trigger] next.jumps[i]) < k <= next.pc implies (
                #[trigger] depth(prog, k)) > i by {
                    if k <= m.pc {
                        assert(m.jumps[i] < k);
                    }
                }
            }
        } else if m.skip == 0 && c == '[' && m.tape.read() != 0 {
            assert(next.jumps == m.jumps.push(m.pc));
            assert forall|i: int, k: int|
                0 <= i < len + 1 && (#[trigger] next.jumps[i]) < k <= next.pc implies (
            #[trigger] depth(prog, k)) > i by {
                if i < len && k <= m.pc {
                    assert(m.jumps[i] < k);
                }
            }
        } else {
            assert(next.jumps == m.jumps);
            assert(next.pc == m.pc + 1);
            assert forall|i: int, k: int|
                0 <= i < len && (#[trigger] next.jumps[i]) < k <= next.pc implies (
            #[trigger] depth(prog, k)) > i by {
                if k <= m.pc {
                    assert(m.jumps[i] < k);
                }
            }
        }
    }
}

/// Any number of steps of a balanced program keeps the invariant.
pub proof fn lemma_steps_inv(prog: Seq<char>, m: Machine, n: nat)
    requires
        balanced(prog),
        m.inv(prog),
    ensures
        m.steps(prog, n).inv(prog),
    decreases n,
{
    if n > 0 {
        lemma_step_inv(prog, m);
        lemma_steps_inv(prog, m.step(prog), (n - 1) as nat);
    }
}

/// Every state that a run of a balanced program reaches meets the
/// invariant, whatever the input and however many steps were taken.
pub proof fn law_run_keeps_invariant(prog: Seq<char>, input: Seq<u8>, output: Seq<u8>, n: nat)
    requires
        balanced(prog),
    ensures
        Machine::start(input, output).steps(prog, n).inv(prog),
{
    lemma_steps_inv(prog, Machine::start(input, output), n);
}

/// Steps add up: `a + b` steps are `a` steps and then `b` more.
pub proof fn lemma_steps_add(prog: Seq<char>, m: Machine, a: nat, b: nat)
    ensures
        m.steps(prog, a + b) == m.steps(prog, a).steps(prog, b),
    decreases a,
{
    if a > 0 {
        lemma_steps_add(prog, m.step(prog), (a - 1) as nat, b);
    }
}

/// One more step is a step from where the steps before it led.
pub proof fn lemma_steps_succ(prog: Seq<char>, m: Machine, n: nat)
    ensures
        m.steps(prog, n + 1) == m.steps(prog, n).step(prog),
{
    lemma_steps_add(prog, m, n, 1);
    let at = m.steps(prog, n);
    assert(at.steps(prog, 1) == at.step(prog).steps(prog, 0));
}

/// A machine that has halted or needs input does not move, however many
/// steps it is given.
pub proof fn lemma_steps_stay(prog: Seq<char>, m: Machine, n: nat)
    requires
        m.status(prog) != Status::Running,
    ensures
        m.steps(prog, n) == m,
    decreases n,
{
    if n > 0 {
        lemma_steps_stay(prog, m, (n - 1) as nat);
    }
}

/// A run that has come to an end after `n` steps terminates, and the state it
/// is in then is its outcome, whatever `n` was chosen.
pub proof fn lemma_outcome(prog: Seq<char>, m: Machine, n: nat)
    requires
        m.steps(prog, n).status(prog) != Status::Running,
    ensures
        m.terminates(prog),
        m.outcome(prog) == m.steps(prog, n),
{
    let k = choose|k: nat| (#[trigger] m.steps(prog, k)).status(prog) != Status::Running;
    if k <= n {
        lemma_steps_add(prog, m, k, (n - k) as nat);
        lemma_steps_stay(prog, m.steps(prog, k), (n - k) as nat);
    } else {
        lemma_steps_add(prog, m, n, (k - n) as nat);
        lemma_steps_stay(prog, m.steps(prog, n), (k - n) as nat);
    }
}

} // verus!
