//! Faults reported by the validator and the execution engine.

use vstd::prelude::*;

verus! {

/// Faults that a program or its run can end in.
#[derive(Copy, Debug, Clone, PartialEq, Eq, Structural)]
pub enum Error {
    /// A `[` is never closed: the program has more left than right brackets.
    MissingRightBracket,
    /// A `]` closes nothing: no left bracket is open where it stands.
    MissingLeftBracket,
    /// The program asked for a byte of input and the input was exhausted.
    EndOfInput,
}

impl Error {
    /// The text that describes the fault.
    pub open spec fn text(self) -> Seq<char> {
        match self {
            Error::MissingRightBracket => "Error: MissingRightBracket"@,
            Error::MissingLeftBracket => "Error: MissingLeftBracket"@,
            Error::EndOfInput => "Error: EndOfInput"@,
        }
    }

    /// Describes the fault in words, for a message to the user.
    pub fn to_string(&self) -> (s: String)
        ensures
            s@ == self.text(),
    {
        match self {
            Error::MissingRightBracket => "Error: MissingRightBracket".to_owned(),
            Error::MissingLeftBracket => "Error: MissingLeftBracket".to_owned(),
            Error::EndOfInput => "Error: EndOfInput".to_owned(),
        }
    }
}

} // verus!
