//! The eight operations of the language and the characters that stand for
//! them.

use vstd::prelude::*;

verus! {

/// One primitive instruction.
#[derive(Copy, Debug, Clone, PartialEq, Eq, Structural)]
pub enum Op {
    /// `<`: move the cursor one cell to the left.
    MoveLeft,
    /// `>`: move the cursor one cell to the right.
    MoveRight,
    /// `+`: add one to the current cell, wrapping at 256.
    Increment,
    /// `-`: subtract one from the current cell, wrapping at 256.
    Decrement,
    /// `.`: write the current cell to the output.
    Output,
    /// `,`: read one byte of input into the current cell.
    Input,
    /// `[`: skip to the matching `]` if the current cell is zero.
    JumpIfZero,
    /// `]`: go back to the matching `[` if the current cell is not zero.
    JumpIfNonZero,
}

/// The operation that a character stands for, if it stands for one.
pub open spec fn decode(c: char) -> Option<Op> {
    if c == '<' {
        Some(Op::MoveLeft)
    } else if c == '>' {
        Some(Op::MoveRight)
    } else if c == '+' {
        Some(Op::Increment)
    } else if c == '-' {
        Some(Op::Decrement)
    } else if c == '.' {
        Some(Op::Output)
    } else if c == ',' {
        Some(Op::Input)
    } else if c == '[' {
        Some(Op::JumpIfZero)
    } else if c == ']' {
        Some(Op::JumpIfNonZero)
    } else {
        None
    }
}

/// `c` is one of the eight instruction characters.
pub open spec fn is_op(c: char) -> bool {
    decode(c) is Some
}

/// `c` is one of the four operators that accumulate into a run: the two
/// arithmetic and the two movement operators.
pub open spec fn is_accumulating(c: char) -> bool {
    c == '+' || c == '-' || c == '<' || c == '>'
}

impl Op {
    /// The character that stands for this operation.
    pub open spec fn symbol(self) -> char {
        match self {
            Op::MoveLeft => '<',
            Op::MoveRight => '>',
            Op::Increment => '+',
            Op::Decrement => '-',
            Op::Output => '.',
            Op::Input => ',',
            Op::JumpIfZero => '[',
            Op::JumpIfNonZero => ']',
        }
    }

    /// Decodes one character of source text; every character that is no
    /// instruction is a comment and gives `None`.
    pub fn from_char(c: char) -> (r: Option<Op>)
        ensures
            r == decode(c),
    {
        if c == '<' {
            Some(Op::MoveLeft)
        } else if c == '>' {
            Some(Op::MoveRight)
        } else if c == '+' {
            Some(Op::Increment)
        } else if c == '-' {
            Some(Op::Decrement)
        } else if c == '.' {
            Some(Op::Output)
        } else if c == ',' {
            Some(Op::Input)
        } else if c == '[' {
            Some(Op::JumpIfZero)
        } else if c == ']' {
            Some(Op::JumpIfNonZero)
        } else {
            None
        }
    }

    /// The character that stands for this operation.
    pub fn to_char(self) -> (c: char)
        ensures
            c == self.symbol(),
            decode(c) == Some(self),
    {
        match self {
            Op::MoveLeft => '<',
            Op::MoveRight => '>',
            Op::Increment => '+',
            Op::Decrement => '-',
            Op::Output => '.',
            Op::Input => ',',
            Op::JumpIfZero => '[',
            Op::JumpIfNonZero => ']',
        }
    }
}

/// Operations and instruction characters correspond one to one.
pub proof fn law_decode_one_to_one(op: Op, c: char)
    ensures
        decode(op.symbol()) == Some(op),
        decode(c) == Some(op) <==> c == op.symbol(),
{
}

/// Reduces a repeat count to the byte that a cell changes by: the count
/// modulo 256.
pub fn trunc(v: u32) -> (b: u8)
    ensures
        b == v % 256,
{
    (v % 256) as u8
}

} // verus!
