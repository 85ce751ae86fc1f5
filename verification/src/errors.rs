//! The error taxonomy: lexer, parser and step-time failures, unified under
//! one reportable type.

use vstd::prelude::*;

verus! {

/// A failure of the lexer under strict mode.
#[derive(Clone, Copy, Debug, PartialEq, Eq, Structural)]
pub enum LexerError {
    /// A character that denotes no instruction, with its 0-based offset in
    /// the source text.
    ForeignCharacter { character: char, position: usize },
}

/// A failure of the parser, plus the sentinel for normal termination.
#[derive(Clone, Copy, Debug, PartialEq, Eq, Structural)]
pub enum ParserError {
    /// A bracket without a partner; carries the offending token index.
    UnbalancedBrackets(usize),
    /// The program counter already stands at the end of the program:
    /// nothing is left to run. Normal completion, not a defect.
    ProgramFinished,
}

/// Every failure the interpreter can report: load-time failures wrapped
/// from the lexer and parser, plus step-time faults of its own.
#[derive(Clone, Copy, Debug, PartialEq, Eq, Structural)]
pub enum InterpreterError {
    Lexer(LexerError),
    Parser(ParserError),
    /// A strict-boundness pointer move past an edge of the tape.
    BoundsViolation,
    /// The output sink refused the byte.
    OutputFailure,
}

} // verus!
