//! The instruction alphabet and the tokens the lexer emits.

use vstd::prelude::*;

verus! {

/// The eight instructions of the language.
#[derive(Clone, Copy, Debug, PartialEq, Eq, Structural)]
pub enum Instruction {
    MoveRight,
    MoveLeft,
    Increment,
    Decrement,
    Output,
    Input,
    LoopStart,
    LoopEnd,
}

/// An instruction together with its 0-based position in the emitted token
/// stream (not the raw character offset).
#[derive(Clone, Copy, Debug, PartialEq, Eq, Structural)]
pub struct Token {
    pub index: usize,
    pub instruction: Instruction,
}

/// Which instruction, if any, a source character denotes. Characters that
/// denote none are foreign: comment text under lenient lexing, an error
/// under strict lexing.
pub open spec fn spec_instruction_of_char(c: char) -> Option<Instruction> {
    if c == '>' {
        Some(Instruction::MoveRight)
    } else if c == '<' {
        Some(Instruction::MoveLeft)
    } else if c == '+' {
        Some(Instruction::Increment)
    } else if c == '-' {
        Some(Instruction::Decrement)
    } else if c == '.' {
        Some(Instruction::Output)
    } else if c == ',' {
        Some(Instruction::Input)
    } else if c == '[' {
        Some(Instruction::LoopStart)
    } else if c == ']' {
        Some(Instruction::LoopEnd)
    } else {
        None
    }
}

/// Executable form of `spec_instruction_of_char`.
pub fn instruction_of_char(c: char) -> (r: Option<Instruction>)
    ensures
        r == spec_instruction_of_char(c),
{
    if c == '>' {
        Some(Instruction::MoveRight)
    } else if c == '<' {
        Some(Instruction::MoveLeft)
    } else if c == '+' {
        Some(Instruction::Increment)
    } else if c == '-' {
        Some(Instruction::Decrement)
    } else if c == '.' {
        Some(Instruction::Output)
    } else if c == ',' {
        Some(Instruction::Input)
    } else if c == '[' {
        Some(Instruction::LoopStart)
    } else if c == ']' {
        Some(Instruction::LoopEnd)
    } else {
        None
    }
}

/// The instruction stream carried by a token sequence.
pub open spec fn instructions_of(tokens: Seq<Token>) -> Seq<Instruction> {
    tokens.map_values(|t: Token| t.instruction)
}

/// Every token carries its own position in the stream.
pub open spec fn token_indices_ok(tokens: Seq<Token>) -> bool {
    forall|k: int| 0 <= k < tokens.len() ==> (#[trigger] tokens[k].index) == k as usize
}

} // verus!
