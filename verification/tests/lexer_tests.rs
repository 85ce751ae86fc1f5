use brainfuck::errors::LexerError;
use brainfuck::instruction::Instruction;
use brainfuck::lexer::lex;
use brainfuck::lexer::LexerMode;

#[test]
fn lenient_foreign_only_is_empty() {
    let tokens = lex("this text holds no instruction symbols at all", LexerMode::Lenient).unwrap();
    assert!(tokens.is_empty());
    let tokens = lex("   \n\t#@! comments", LexerMode::Lenient).unwrap();
    assert!(tokens.is_empty());
    let tokens = lex("", LexerMode::Lenient).unwrap();
    assert!(tokens.is_empty());
}

#[test]
fn strict_fails_on_first_foreign_character() {
    let err = lex("+x+y", LexerMode::Strict).unwrap_err();
    assert_eq!(err, LexerError::ForeignCharacter { character: 'x', position: 1 });
    let err = lex("q", LexerMode::Strict).unwrap_err();
    assert_eq!(err, LexerError::ForeignCharacter { character: 'q', position: 0 });
}

#[test]
fn strict_accepts_pure_instruction_text() {
    let tokens = lex("+-><.,[]", LexerMode::Strict).unwrap();
    let expected = [
        Instruction::Increment,
        Instruction::Decrement,
        Instruction::MoveRight,
        Instruction::MoveLeft,
        Instruction::Output,
        Instruction::Input,
        Instruction::LoopStart,
        Instruction::LoopEnd,
    ];
    assert_eq!(tokens.len(), expected.len());
    for (k, token) in tokens.iter().enumerate() {
        assert_eq!(token.index, k);
        assert_eq!(token.instruction, expected[k]);
    }
}

#[test]
fn lenient_skips_comments_and_keeps_stream_positions() {
    let tokens = lex("a + b [ - ] c", LexerMode::Lenient).unwrap();
    let expected = [
        Instruction::Increment,
        Instruction::LoopStart,
        Instruction::Decrement,
        Instruction::LoopEnd,
    ];
    assert_eq!(tokens.len(), expected.len());
    for (k, token) in tokens.iter().enumerate() {
        assert_eq!(token.index, k);
        assert_eq!(token.instruction, expected[k]);
    }
}
