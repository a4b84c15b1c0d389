//! A verified interpreter for an eight-instruction tape language.
//!
//! Source text is filtered down to its instruction characters and its
//! brackets are checked; the execution engine then runs the program on an
//! unbounded tape of bytes, reading its input from a buffer of bytes and
//! appending its output to another. Consecutive repeats of an arithmetic or
//! movement operator are coalesced and applied as one bulk update; what the
//! engine computes is nevertheless, step by step, what the unbatched machine
//! of [`machine`] computes.

pub mod analyze;
mod engine;
pub mod error;
pub mod laws;
pub mod loops;
pub mod machine;
pub mod ops;
pub mod pre;
pub mod types;

use crate::analyze::{balanced, validate};
use crate::engine::Engine;
use crate::error::Error;
use crate::machine::{Machine, Status};
use crate::pre::instructions;
use vstd::prelude::*;

verus! {

/// The interpreter: an execution engine that is well formed at all times.
///
/// It holds the program that is loaded, the state of its run, the bytes that
/// the program may still read and the bytes that it has written. Its view is
/// the state of the run as a [`Machine`].
pub struct Interpreter {
    engine: Engine,
}

impl View for Interpreter {
    type V = Machine;

    closed spec fn view(&self) -> Machine {
        self.engine@
    }
}

impl Interpreter {
    #[verifier::type_invariant]
    spec fn well_formed(self) -> bool {
        self.engine.wf()
    }

    /// The program that is loaded: instruction characters only.
    pub closed spec fn program(&self) -> Seq<char> {
        self.engine.program()
    }

    /// Constructs a new `Interpreter`: no program, a blank tape, no input
    /// and no output.
    pub fn new() -> (interp: Interpreter)
        ensures
            interp.program() == Seq::<char>::empty(),
            interp@ == Machine::start(Seq::empty(), Seq::empty()),
    {
        Interpreter { engine: Engine::new() }
    }

    /// Sets the bytes that the program reads: `ins` takes the place of
    /// whatever input was left.
    pub fn bfin(self, ins: Vec<u8>) -> (interp: Interpreter)
        ensures
            interp.program() == self.program(),
            interp@ == (Machine { input: ins@, ..self@ }),
    {
        proof {
            use_type_invariant(&self);
        }
        Interpreter { engine: self.engine.bfin(ins) }
    }

    /// Sets the buffer that the program writes to: the output of the run is
    /// appended to `outs`.
    pub fn bfout(self, outs: Vec<u8>) -> (interp: Interpreter)
        ensures
            interp.program() == self.program(),
            interp@ == (Machine { output: outs@, ..self@ }),
    {
        proof {
            use_type_invariant(&self);
        }
        Interpreter { engine: self.engine.bfout(outs) }
    }

    /// Runs a program from its source text: the text is preprocessed and
    /// validated, the program is executed to its end on a blank tape, and
    /// the engine is reset. The run reads from the input that is left and
    /// appends to the output. A program whose brackets do not match is
    /// refused before anything else happens. A run ends in a fault, after
    /// whatever output it has written, where the program asks for input and
    /// none is left.
    ///
    /// This function returns when the run has come to an end, so it is for
    /// programs that come to one. A program of which that is not known is
    /// run with [`Interpreter::run_within`].
    pub fn run(&mut self, prog: &str) -> (r: Result<(), Error>)
        requires
            balanced(instructions(prog@)) ==> Machine::start(
                old(self)@.input,
                old(self)@.output,
            ).terminates(instructions(prog@)),
        ensures
            match validate(instructions(prog@)) {
                Err(e) => {
                    &&& r == Err::<(), Error>(e)
                    &&& final(self).program() == old(self).program()
                    &&& final(self)@ == old(self)@
                },
                Ok(()) => {
                    let end = Machine::start(old(self)@.input, old(self)@.output).outcome(
                        instructions(prog@),
                    );
                    &&& r == (if end.halted(instructions(prog@)) {
                        Ok::<(), Error>(())
                    } else {
                        Err::<(), Error>(Error::EndOfInput)
                    })
                    &&& final(self).program() == Seq::<char>::empty()
                    &&& final(self)@ == Machine::start(end.input, end.output)
                },
            },
    {
        proof {
            use_type_invariant(&*self);
        }
        let mut engine = Engine::new();
        std::mem::swap(&mut engine, &mut self.engine);
        let r = engine.run(prog);
        self.engine = engine;
        r
    }

    /// Runs a program from its source text for up to `limit` steps. Where
    /// the run has come to an end by then, this is [`Interpreter::run`]: the
    /// engine is reset, and the result is `Ok(true)`, or the fault that the
    /// run ended in. Where it has not, the result is `Ok(false)` and the
    /// interpreter is left in the middle of the run, which
    /// [`Interpreter::advance`] takes further.
    pub fn run_within(&mut self, prog: &str, limit: usize) -> (r: Result<bool, Error>)
        ensures
            match validate(instructions(prog@)) {
                Err(e) => {
                    &&& r == Err::<bool, Error>(e)
                    &&& final(self).program() == old(self).program()
                    &&& final(self)@ == old(self)@
                },
                Ok(()) => {
                    let at = Machine::start(old(self)@.input, old(self)@.output).steps(
                        instructions(prog@),
                        limit as nat,
                    );
                    match at.status(instructions(prog@)) {
                        Status::Running => {
                            &&& r == Ok::<bool, Error>(false)
                            &&& final(self).program() == instructions(prog@)
                            &&& final(self)@ == at
                        },
                        Status::Halted => {
                            &&& r == Ok::<bool, Error>(true)
                            &&& final(self).program() == Seq::<char>::empty()
                            &&& final(self)@ == Machine::start(at.input, at.output)
                        },
                        Status::NeedsInput => {
                            &&& r == Err::<bool, Error>(Error::EndOfInput)
                            &&& final(self).program() == Seq::<char>::empty()
                            &&& final(self)@ == Machine::start(at.input, at.output)
                        },
                    }
                },
            },
    {
        proof {
            use_type_invariant(&*self);
        }
        let mut engine = Engine::new();
        std::mem::swap(&mut engine, &mut self.engine);
        let r = engine.run_within(prog, limit);
        self.engine = engine;
        r
    }

    /// Loads a program: the text is reduced to its instructions and
    /// validated, the engine is reset, and the run stands before the first
    /// instruction. A program whose brackets do not match is refused, and the
    /// interpreter is left as it was.
    pub fn load(&mut self, prog: &str) -> (r: Result<(), Error>)
        ensures
            r == validate(instructions(prog@)),
            r is Ok ==> final(self).program() == instructions(prog@) && final(self)@
                == Machine::start(old(self)@.input, old(self)@.output),
            r is Err ==> final(self).program() == old(self).program() && final(self)@ == old(
                self,
            )@,
    {
        proof {
            use_type_invariant(&*self);
        }
        let mut engine = Engine::new();
        std::mem::swap(&mut engine, &mut self.engine);
        let r = engine.load(prog);
        self.engine = engine;
        r
    }

    /// Takes the next instruction of the program. A machine that has halted,
    /// or that needs input which is not there, stays as it is. Returns where
    /// the run stands after the step.
    pub fn step(&mut self) -> (s: Status)
        ensures
            final(self).program() == old(self).program(),
            final(self)@ == old(self)@.step(old(self).program()),
            s == final(self)@.status(final(self).program()),
    {
        proof {
            use_type_invariant(&*self);
        }
        let mut engine = Engine::new();
        std::mem::swap(&mut engine, &mut self.engine);
        let s = engine.step();
        self.engine = engine;
        s
    }

    /// Takes up to `limit` steps, and stops before that where the machine
    /// halts or needs input. Returns where the run stands then.
    pub fn advance(&mut self, limit: usize) -> (s: Status)
        ensures
            final(self).program() == old(self).program(),
            final(self)@ == old(self)@.steps(old(self).program(), limit as nat),
            s == final(self)@.status(final(self).program()),
    {
        proof {
            use_type_invariant(&*self);
        }
        let mut engine = Engine::new();
        std::mem::swap(&mut engine, &mut self.engine);
        let s = engine.advance(limit);
        self.engine = engine;
        s
    }

    /// Where the run stands.
    pub fn status(&self) -> (s: Status)
        ensures
            s == self@.status(self.program()),
    {
        proof {
            use_type_invariant(self);
        }
        self.engine.status()
    }

    /// Resets the engine in one piece: the tape is blank, the jump stack and
    /// the run buffer are empty, no program is loaded. The input that was not
    /// read and the output that was written stay.
    pub fn reset(&mut self)
        ensures
            final(self).program() == Seq::<char>::empty(),
            final(self)@ == Machine::start(old(self)@.input, old(self)@.output),
    {
        proof {
            use_type_invariant(&*self);
        }
        let mut engine = Engine::new();
        std::mem::swap(&mut engine, &mut self.engine);
        engine.reset();
        self.engine = engine;
    }

    /// Appends one byte to the input that the program reads.
    pub fn push_input(&mut self, byte: u8)
        ensures
            final(self).program() == old(self).program(),
            final(self)@ == (Machine { input: old(self)@.input.push(byte), ..old(self)@ }),
    {
        proof {
            use_type_invariant(&*self);
        }
        let mut engine = Engine::new();
        std::mem::swap(&mut engine, &mut self.engine);
        engine.push_input(byte);
        self.engine = engine;
    }

    /// Hands out the output written so far and leaves the output empty.
    pub fn take_output(&mut self) -> (out: Vec<u8>)
        ensures
            final(self).program() == old(self).program(),
            out@ == old(self)@.output,
            final(self)@ == (Machine { output: Seq::empty(), ..old(self)@ }),
    {
        proof {
            use_type_invariant(&*self);
        }
        let mut engine = Engine::new();
        std::mem::swap(&mut engine, &mut self.engine);
        let out = engine.take_output();
        self.engine = engine;
        out
    }
}

impl Default for Interpreter {
    fn default() -> (interp: Interpreter)
        ensures
            interp.program() == Seq::<char>::empty(),
            interp@ == Machine::start(Seq::empty(), Seq::empty()),
    {
        Interpreter::new()
    }
}

} // verus!
