//! The lexer: source text to token sequence, under a strictness policy.

use vstd::prelude::*;

use crate::errors::LexerError;
use crate::instruction::Token;
use crate::instruction::instruction_of_char;
use crate::instruction::spec_instruction_of_char;
use vstd::string::StrSliceExecFns;

verus! {

/// How the lexer treats foreign characters: fail on the first one, or skip
/// them all as comments.
#[derive(Clone, Copy, Debug, PartialEq, Eq, Structural)]
pub enum LexerMode {
    Strict,
    Lenient,
}

/// The instruction stream a source text denotes: each character mapped to
/// its instruction, foreign characters dropped.
pub open spec fn lexed(s: Seq<char>) -> Seq<crate::instruction::Instruction>
    decreases s.len(),
{
    if s.len() == 0 {
        Seq::empty()
    } else {
        lexed(s.drop_last()) + (match spec_instruction_of_char(s.last()) {
            Some(i) => seq![i],
            None => Seq::empty(),
        })
    }
}

/// Every character of the text denotes an instruction.
pub open spec fn all_recognized(s: Seq<char>) -> bool {
    forall|i: int| 0 <= i < s.len() ==> (#[trigger] spec_instruction_of_char(s[i])) is Some
}

/// The lexer accepts the text: always under lenient mode, only fully
/// recognized text under strict mode.
pub open spec fn lex_accepts(s: Seq<char>, mode: LexerMode) -> bool {
    mode is Lenient || all_recognized(s)
}

/// The token sequence carries exactly the given instructions, each token
/// under its own stream position.
pub open spec fn tokens_for(tokens: Seq<Token>, instrs: Seq<crate::instruction::Instruction>) -> bool {
    &&& tokens.len() == instrs.len()
    &&& forall|k: int|
        0 <= k < tokens.len() ==> (#[trigger] tokens[k]) == (Token {
            index: k as usize,
            instruction: instrs[k],
        })
}

/// The error a strict lex reports: the first foreign character of the text,
/// with its 0-based offset.
pub open spec fn lexer_reports_first_foreign(s: Seq<char>, e: LexerError) -> bool {
    e matches LexerError::ForeignCharacter { character, position } && {
        &&& position < s.len()
        &&& character == s[position as int]
        &&& spec_instruction_of_char(s[position as int]) is None
        &&& forall|j: int|
            0 <= j < position ==> (#[trigger] spec_instruction_of_char(s[j])) is Some
    }
}

/// Text made of foreign characters only denotes no instructions at all, so
/// lenient lexing of such text yields the empty token sequence.
pub proof fn lemma_foreign_only_lexes_empty(s: Seq<char>)
    requires
        forall|i: int| 0 <= i < s.len() ==> (#[trigger] spec_instruction_of_char(s[i])) is None,
    ensures
        lexed(s) == Seq::<crate::instruction::Instruction>::empty(),
    decreases s.len(),
{
    if s.len() > 0 {
        lemma_foreign_only_lexes_empty(s.drop_last());
        assert(spec_instruction_of_char(s[s.len() - 1]) is None);
        assert(lexed(s) =~= Seq::<crate::instruction::Instruction>::empty());
    }
}

/// Scan the source text left to right and emit one token per recognized
/// character. Under strict mode the first foreign character fails the lex,
/// and nothing is kept; under lenient mode foreign characters are skipped.
pub fn lex(source: &str, mode: LexerMode) -> (r: Result<Vec<Token>, LexerError>)
    ensures
        r is Ok <==> lex_accepts(source@, mode),
        r matches Ok(tokens) ==> tokens_for(tokens@, lexed(source@)),
        r matches Err(e) ==> mode is Strict && lexer_reports_first_foreign(source@, e),
{
    let length = source.unicode_len();
    let mut tokens: Vec<Token> = Vec::new();
    let mut i: usize = 0;
    while i < length
        invariant
            length == source@.len(),
            i <= length,
            tokens_for(tokens@, lexed(source@.take(i as int))),
            mode is Strict ==> forall|j: int|
                0 <= j < i ==> (#[trigger] spec_instruction_of_char(source@[j])) is Some,
        decreases length - i,
    {
        let c = source.get_char(i);
        proof {
            assert(source@.take(i + 1).drop_last() =~= source@.take(i as int));
            assert(source@.take(i + 1).last() == source@[i as int]);
        }
        match instruction_of_char(c) {
            Some(inst) => {
                let position = tokens.len();
                tokens.push(Token { index: position, instruction: inst });
            },
            None => {
                if mode == LexerMode::Strict {
                    return Err(LexerError::ForeignCharacter { character: c, position: i });
                }
            },
        }
        i += 1;
    }
    proof {
        assert(source@.take(length as int) =~= source@);
    }
    Ok(tokens)
}

} // verus!
