//! The execution engine: the tape, the jump stack, the run buffer and the
//! program counter, and the transitions between its states.

use crate::analyze::{balanced, lemma_depth_bounds, validate};
use crate::error::Error;
use crate::machine::{
    lemma_jump_stack_nonempty, lemma_outcome, lemma_step_inv, lemma_steps_add, lemma_steps_stay,
    lemma_steps_succ, Machine, Status,
};
use crate::ops::is_accumulating;
use crate::pre::{instructions, process};
use crate::types::{lemma_run_extend, CharBuf, Strip};
use vstd::prelude::*;

verus! {

/// The execution engine. It owns the tape, the jump stack, the run buffer,
/// the program counter, the program that is loaded, and the two byte
/// streams of the run. Its methods ask for a well-formed engine and leave
/// one behind.
pub struct Engine {
    bfin: Vec<u8>,
    in_pos: usize,
    bfout: Vec<u8>,
    prog: Vec<char>,
    prog_ctr: usize,
    skip_ctr: usize,
    strip: Strip,
    jumps: Vec<usize>,
    char_buf: CharBuf,
}

impl View for Engine {
    type V = Machine;

    /// The state of the run. A run that is pending in the buffer counts as
    /// applied: batching is invisible here.
    closed spec fn view(&self) -> Machine {
        Machine { tape: self.char_buf.apply(self.strip@), ..self.held() }
    }
}

impl Engine {
    /// The state as it is held, with the tape as it is before the pending
    /// run is applied.
    spec fn held(&self) -> Machine {
        Machine {
            pc: self.prog_ctr as int,
            skip: self.skip_ctr as int,
            tape: self.strip@,
            jumps: self.jumps@.map_values(|j: usize| j as int),
            input: self.bfin@.subrange(self.in_pos as int, self.bfin@.len() as int),
            output: self.bfout@,
        }
    }

    /// The program that is loaded: instruction characters only.
    pub closed spec fn program(&self) -> Seq<char> {
        self.prog@
    }

    /// The engine is in a state that a run of its program can be in.
    pub closed spec fn wf(&self) -> bool {
        &&& self.in_pos <= self.bfin@.len()
        &&& balanced(self.prog@)
        &&& self@.inv(self.prog@)
        &&& match self.char_buf.ch_opt {
            Some(c) => is_accumulating(c) && self.skip_ctr == 0,
            None => true,
        }
    }

    /// An engine with no program, a blank tape, no input and no output.
    pub fn new() -> (engine: Engine)
        ensures
            engine.wf(),
            engine.program() == Seq::<char>::empty(),
            engine@ == Machine::start(Seq::empty(), Seq::empty()),
    {
        let engine = Engine {
            bfin: Vec::new(),
            in_pos: 0,
            bfout: Vec::new(),
            prog: Vec::new(),
            prog_ctr: 0,
            skip_ctr: 0,
            strip: Strip::new(),
            jumps: Vec::new(),
            char_buf: CharBuf::new(),
        };
        assert(engine.held().jumps =~= Seq::empty());
        assert(engine.held().input =~= Seq::empty());
        engine
    }

    /// Sets the bytes that the program reads: `ins` takes the place of
    /// whatever input was left.
    pub fn bfin(self, ins: Vec<u8>) -> (engine: Engine)
        requires
            self.wf(),
        ensures
            engine.wf(),
            engine.program() == self.program(),
            engine@ == (Machine { input: ins@, ..self@ }),
    {
        let mut engine = self;
        engine.bfin = ins;
        engine.in_pos = 0;
        assert(engine.held().input =~= ins@);
        engine
    }

    /// Sets the buffer that the program writes to: the output of the run is
    /// appended to `outs`.
    pub fn bfout(self, outs: Vec<u8>) -> (engine: Engine)
        requires
            self.wf(),
        ensures
            engine.wf(),
            engine.program() == self.program(),
            engine@ == (Machine { output: outs@, ..self@ }),
    {
        let mut engine = self;
        engine.bfout = outs;
        engine
    }

    /// Returns the value of the active cell.
    fn read(&self) -> (val: u8)
        ensures
            val == self.held().tape.read(),
    {
        self.strip.read()
    }

    /// Writes a byte into the active cell.
    fn write(&mut self, val: u8)
        ensures
            final(self).held() == (Machine {
                tape: old(self).held().tape.write(val),
                ..old(self).held()
            }),
            final(self).prog == old(self).prog,
            final(self).char_buf == old(self).char_buf,
            final(self).in_pos == old(self).in_pos,
            final(self).bfin == old(self).bfin,
    {
        self.strip.write(val);
    }

    /// Reads one byte from the input and stores it in the active cell.
    /// Without input nothing happens.
    fn read_byte(&mut self)
        requires
            old(self).in_pos <= old(self).bfin@.len(),
        ensures
            final(self).held() == old(self).held().exec(',', 1),
            final(self).prog == old(self).prog,
            final(self).char_buf == old(self).char_buf,
            final(self).in_pos <= final(self).bfin@.len(),
    {
        if self.in_pos < self.bfin.len() {
            let byte = self.bfin[self.in_pos];
            self.in_pos += 1;
            self.write(byte);
            assert(final(self).held().input =~= old(self).held().input.drop_first());
        }
    }

    /// Writes the value of the active cell to the output.
    fn write_byte(&mut self)
        ensures
            final(self).held() == old(self).held().exec('.', 1),
            final(self).prog == old(self).prog,
            final(self).char_buf == old(self).char_buf,
            final(self).in_pos == old(self).in_pos,
            final(self).bfin == old(self).bfin,
    {
        let byte = self.read();
        self.bfout.push(byte);
    }

    /// Executes the given char as an operator `num` times on the state as
    /// it is held; the program counter is left for the caller to advance.
    /// Over- and underflow of a cell wraps around.
    fn exec(&mut self, c: char, num: u32)
        requires
            old(self).in_pos <= old(self).bfin@.len(),
        ensures
            final(self).held() == old(self).held().exec(c, num as int),
            final(self).prog == old(self).prog,
            final(self).char_buf == old(self).char_buf,
            final(self).in_pos <= final(self).bfin@.len(),
    {
        if c == '.' {
            self.write_byte();
        } else if c == ',' {
            self.read_byte();
        } else if c == '[' {
            if self.read() == 0 {
                self.skip_ctr = 1;
            } else {
                self.jumps.push(self.prog_ctr);
                assert(final(self).held().jumps =~= old(self).held().jumps.push(
                    old(self).prog_ctr as int,
                ));
            }
        } else if c == ']' {
            if self.jumps.len() > 0 {
                if self.read() == 0 {
                    self.jumps.pop();
                    assert(final(self).held().jumps =~= old(self).held().jumps.drop_last());
                } else {
                    self.prog_ctr = self.jumps[self.jumps.len() - 1];
                }
            }
        } else {
            self.strip.apply_run(c, num);
        }
    }

    /// Flushes the run buffer: the pending run is applied to the tape as one
    /// bulk update and the buffer is empty again.
    fn flush_buf(&mut self)
        requires
            old(self).wf(),
        ensures
            final(self).wf(),
            final(self)@ == old(self)@,
            final(self).held() == old(self)@,
            final(self).prog == old(self).prog,
            final(self).char_buf.ch_opt is None,
    {
        match self.char_buf.ch_opt {
            Some(c) => {
                self.exec(c, self.char_buf.ctr);
            },
            None => {},
        }
        self.char_buf.clear();
    }

    /// Where the run stands.
    pub fn status(&self) -> (s: Status)
        requires
            self.wf(),
        ensures
            s == self@.status(self.program()),
    {
        if self.prog_ctr >= self.prog.len() {
            Status::Halted
        } else if self.skip_ctr == 0 && self.prog[self.prog_ctr] == ',' && self.in_pos
            >= self.bfin.len() {
            Status::NeedsInput
        } else {
            Status::Running
        }
    }
}

impl Engine {
    /// Takes the next instruction of the program. An arithmetic or movement
    /// operator goes into the run buffer; any other operator first flushes
    /// the buffer and is then executed at once. A machine that has halted,
    /// or that needs input which is not there, stays as it is. Returns where
    /// the run stands after the step.
    pub fn step(&mut self) -> (s: Status)
        requires
            old(self).wf(),
        ensures
            final(self).wf(),
            final(self).program() == old(self).program(),
            final(self)@ == old(self)@.step(old(self).program()),
            s == final(self)@.status(final(self).program()),
    {
        proof {
            lemma_step_inv(self.prog@, self@);
        }
        if self.prog_ctr < self.prog.len() {
            let c = self.prog[self.prog_ctr];
            if self.skip_ctr != 0 {
                if c == '[' {
                    proof {
                        lemma_depth_bounds(self.prog@, self.prog_ctr as int);
                    }
                    self.skip_ctr += 1;
                } else if c == ']' {
                    self.skip_ctr -= 1;
                }
                self.prog_ctr += 1;
            } else {
                if !self.char_buf.can_insert(c) {
                    self.flush_buf();
                }
                if c == '+' || c == '-' || c == '<' || c == '>' {
                    proof {
                        lemma_run_extend(self.strip@, c, self.char_buf.ctr as int);
                    }
                    self.char_buf.insert(c);
                    self.prog_ctr += 1;
                } else if c == ',' && self.in_pos >= self.bfin.len() {
                } else {
                    proof {
                        if c == ']' {
                            lemma_jump_stack_nonempty(self.prog@, self@);
                        }
                    }
                    self.exec(c, 1);
                    self.prog_ctr += 1;
                }
            }
        }
        if self.prog_ctr >= self.prog.len() {
            self.flush_buf();
        }
        self.status()
    }

    /// Takes up to `limit` steps, and stops before that where the machine
    /// halts or needs input.
    pub fn advance(&mut self, limit: usize) -> (s: Status)
        requires
            old(self).wf(),
        ensures
            final(self).wf(),
            final(self).program() == old(self).program(),
            final(self)@ == old(self)@.steps(old(self).program(), limit as nat),
            s == final(self)@.status(final(self).program()),
    {
        let mut taken: usize = 0;
        let mut s = self.status();
        while taken < limit && s == Status::Running
            invariant
                self.wf(),
                self.program() == old(self).program(),
                taken <= limit,
                self@ == old(self)@.steps(old(self).program(), taken as nat),
                s == self@.status(self.program()),
            decreases limit - taken,
        {
            proof {
                lemma_steps_succ(old(self).program(), old(self)@, taken as nat);
            }
            s = self.step();
            taken += 1;
        }
        proof {
            if taken < limit {
                lemma_steps_add(
                    old(self).program(),
                    old(self)@,
                    taken as nat,
                    (limit - taken) as nat,
                );
                lemma_steps_stay(self.program(), self@, (limit - taken) as nat);
            }
        }
        s
    }

    /// Resets the engine in one piece: the tape is blank, the jump stack and
    /// the run buffer are empty, no program is loaded. The input that was not
    /// read and the output that was written stay.
    pub fn reset(&mut self)
        requires
            old(self).wf(),
        ensures
            final(self).wf(),
            final(self).program() == Seq::<char>::empty(),
            final(self)@ == Machine::start(old(self)@.input, old(self)@.output),
    {
        self.prog.clear();
        self.prog_ctr = 0;
        self.skip_ctr = 0;
        self.strip.clear();
        self.jumps.clear();
        self.char_buf.clear();
        assert(self.held().jumps =~= Seq::empty());
    }

    /// Loads a program: the text is reduced to its instructions and
    /// validated, the engine is reset, and the run stands at the first
    /// instruction. A program whose brackets do not match is refused, and the
    /// engine is left as it was.
    pub fn load(&mut self, prog: &str) -> (r: Result<(), Error>)
        requires
            old(self).wf(),
        ensures
            final(self).wf(),
            r == validate(instructions(prog@)),
            r is Ok ==> final(self).program() == instructions(prog@) && final(self)@
                == Machine::start(old(self)@.input, old(self)@.output),
            r is Err ==> final(self).program() == old(self).program() && final(self)@ == old(
                self,
            )@,
    {
        match process(prog) {
            Ok(chars) => {
                self.reset();
                self.prog = chars;
                Ok(())
            },
            Err(e) => Err(e),
        }
    }

    /// Appends one byte to the input that the program reads.
    pub fn push_input(&mut self, byte: u8)
        requires
            old(self).wf(),
        ensures
            final(self).wf(),
            final(self).program() == old(self).program(),
            final(self)@ == (Machine { input: old(self)@.input.push(byte), ..old(self)@ }),
    {
        if self.in_pos >= self.bfin.len() {
            // Everything was read: the bytes that are done with need no room.
            self.bfin.clear();
            self.in_pos = 0;
        }
        self.bfin.push(byte);
        assert(self.held().input =~= old(self).held().input.push(byte));
    }

    /// Hands out the output written so far and leaves the output empty.
    pub fn take_output(&mut self) -> (out: Vec<u8>)
        requires
            old(self).wf(),
        ensures
            final(self).wf(),
            final(self).program() == old(self).program(),
            out@ == old(self)@.output,
            final(self)@ == (Machine { output: Seq::empty(), ..old(self)@ }),
    {
        let mut out: Vec<u8> = Vec::new();
        std::mem::swap(&mut out, &mut self.bfout);
        out
    }

    /// Runs a program from its source text: the text is preprocessed and
    /// validated, the program is executed to its end, and the engine is
    /// reset. The run reads from the input that is left and appends to the
    /// output. It ends in a fault, after whatever output it has written,
    /// where the program asks for input and none is left.
    pub fn run(&mut self, prog: &str) -> (r: Result<(), Error>)
        requires
            old(self).wf(),
            balanced(instructions(prog@)) ==> Machine::start(
                old(self)@.input,
                old(self)@.output,
            ).terminates(instructions(prog@)),
        ensures
            final(self).wf(),
            match validate(instructions(prog@)) {
                Err(e) => {
                    &&& r == Err::<(), Error>(e)
                    &&& final(self).program() == old(self).program()
                    &&& final(self)@ == old(self)@
                },
                Ok(()) => {
                    let end = Machine::start(old(self)@.input, old(self)@.output).outcome(
                        instructions(prog@),
                    );
                    &&& r == (if end.halted(instructions(prog@)) {
                        Ok::<(), Error>(())
                    } else {
                        Err::<(), Error>(Error::EndOfInput)
                    })
                    &&& final(self).program() == Seq::<char>::empty()
                    &&& final(self)@ == Machine::start(end.input, end.output)
                },
            },
    {
        match self.load(prog) {
            Ok(()) => {},
            Err(e) => {
                return Err(e);
            },
        }
        let ghost code = self.prog@;
        let ghost start = self@;
        let ghost mut fuel: nat = choose|n: nat|
            (#[trigger] start.steps(code, n)).status(code) != Status::Running;
        let ghost mut taken: nat = 0;
        let mut s = self.status();
        while s == Status::Running
            invariant
                self.wf(),
                self.program() == code,
                self@ == start.steps(code, taken),
                s == self@.status(code),
                self@.steps(code, fuel).status(code) != Status::Running,
            decreases fuel,
        {
            proof {
                lemma_steps_succ(code, start, taken);
            }
            s = self.step();
            proof {
                fuel = (fuel - 1) as nat;
                taken = taken + 1;
            }
        }
        proof {
            lemma_outcome(code, start, taken);
        }
        self.reset();
        if s == Status::Halted {
            Ok(())
        } else {
            Err(Error::EndOfInput)
        }
    }

    /// Runs a program from its source text for up to `limit` steps. Where
    /// the run has come to an end by then, this is [`Engine::run`]: the
    /// engine is reset, and the result is `Ok(true)`, or the fault that the
    /// run ended in. Where it has not, the result is `Ok(false)` and the
    /// engine is left in the middle of the run, which may be taken further.
    pub fn run_within(&mut self, prog: &str, limit: usize) -> (r: Result<bool, Error>)
        requires
            old(self).wf(),
        ensures
            final(self).wf(),
            match validate(instructions(prog@)) {
                Err(e) => {
                    &&& r == Err::<bool, Error>(e)
                    &&& final(self).program() == old(self).program()
                    &&& final(self)@ == old(self)@
                },
                Ok(()) => {
                    let at = Machine::start(old(self)@.input, old(self)@.output).steps(
                        instructions(prog@),
                        limit as nat,
                    );
                    match at.status(instructions(prog@)) {
                        Status::Running => {
                            &&& r == Ok::<bool, Error>(false)
                            &&& final(self).program() == instructions(prog@)
                            &&& final(self)@ == at
                        },
                        Status::Halted => {
                            &&& r == Ok::<bool, Error>(true)
                            &&& final(self).program() == Seq::<char>::empty()
                            &&& final(self)@ == Machine::start(at.input, at.output)
                        },
                        Status::NeedsInput => {
                            &&& r == Err::<bool, Error>(Error::EndOfInput)
                            &&& final(self).program() == Seq::<char>::empty()
                            &&& final(self)@ == Machine::start(at.input, at.output)
                        },
                    }
                },
            },
    {
        match self.load(prog) {
            Ok(()) => {},
            Err(e) => {
                return Err(e);
            },
        }
        match self.advance(limit) {
            Status::Running => Ok(false),
            Status::Halted => {
                self.reset();
                Ok(true)
            },
            Status::NeedsInput => {
                self.reset();
                Err(Error::EndOfInput)
            },
        }
    }
}

} // verus!
