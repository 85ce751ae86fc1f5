use brainfuck::errors::InterpreterError;
use brainfuck::errors::LexerError;
use brainfuck::errors::ParserError;
use brainfuck::instruction::Instruction;
use brainfuck::interpreter::Interpreter;
use brainfuck::interpreter::DEFAULT_CAPACITY;
use brainfuck::io::InputSource;
use brainfuck::io::OutputSink;
use brainfuck::lexer::LexerMode;
use brainfuck::tape::BoundnessMode;

const HELLO_WORLD: &str = "++++++++[>++++[>++>+++>+++>+<<<<-]>+>+>->>+[<]<-]>>.>---.+++++++..+++.>>.<-.<.+++.------.--------.>>+.>++.";

/// Step until the interpreter reports ProgramFinished; fail the test on
/// any other error or on a runaway program.
fn run_to_completion(
    interpreter: &mut Interpreter,
    input: &mut InputSource,
    output: &mut OutputSink,
) {
    let finished = InterpreterError::Parser(ParserError::ProgramFinished);
    for _ in 0..10_000_000u64 {
        match interpreter.step(input, output) {
            Ok(()) => {},
            Err(e) if e == finished => return,
            Err(e) => panic!("unexpected step error: {:?}", e),
        }
    }
    panic!("program did not finish");
}

fn fresh(source: &str) -> Interpreter {
    let mut interpreter =
        Interpreter::new(DEFAULT_CAPACITY, LexerMode::Strict, BoundnessMode::Strict);
    interpreter.load_program(source).unwrap();
    interpreter
}

#[test]
fn straight_line_program_finishes_in_its_own_length() {
    let mut interpreter = fresh("+->><");
    let length = interpreter.program_length();
    assert_eq!(length, 5);
    let mut input = InputSource::new(Vec::new());
    let mut output = OutputSink::new();
    for k in 0..length {
        assert_eq!(interpreter.program_counter(), k);
        interpreter.step(&mut input, &mut output).unwrap();
    }
    assert_eq!(interpreter.program_counter(), length);
    let pointer = interpreter.memory_address();
    let err = interpreter.step(&mut input, &mut output).unwrap_err();
    assert_eq!(err, InterpreterError::Parser(ParserError::ProgramFinished));
    assert_eq!(interpreter.program_counter(), length);
    assert_eq!(interpreter.memory_address(), pointer);
    assert_eq!(output.len(), 0);
}

#[test]
fn cell_arithmetic_wraps_during_execution() {
    // 256 increments bring the cell back to 0; one decrement leaves 255.
    let mut source = String::new();
    for _ in 0..256 {
        source.push('+');
    }
    let mut interpreter = fresh(&source);
    let mut input = InputSource::new(Vec::new());
    let mut output = OutputSink::new();
    run_to_completion(&mut interpreter, &mut input, &mut output);
    assert_eq!(interpreter.memory_value(0), Some(0));
    let mut interpreter = fresh("-");
    run_to_completion(&mut interpreter, &mut input, &mut output);
    assert_eq!(interpreter.memory_value(0), Some(255));
}

#[test]
fn strict_boundness_fails_edge_moves_without_mutation() {
    let mut interpreter = Interpreter::new(2, LexerMode::Strict, BoundnessMode::Strict);
    interpreter.load_program("+<").unwrap();
    let mut input = InputSource::new(Vec::new());
    let mut output = OutputSink::new();
    interpreter.step(&mut input, &mut output).unwrap();
    let err = interpreter.step(&mut input, &mut output).unwrap_err();
    assert_eq!(err, InterpreterError::BoundsViolation);
    assert_eq!(interpreter.program_counter(), 1);
    assert_eq!(interpreter.memory_address(), 0);
    assert_eq!(interpreter.memory_value(0), Some(1));
    interpreter.load_program(">>").unwrap();
    interpreter.step(&mut input, &mut output).unwrap();
    let err = interpreter.step(&mut input, &mut output).unwrap_err();
    assert_eq!(err, InterpreterError::BoundsViolation);
    assert_eq!(interpreter.memory_address(), 1);
}

#[test]
fn wrapping_boundness_wraps_edge_moves() {
    let mut interpreter = Interpreter::new(3, LexerMode::Strict, BoundnessMode::Wrapping);
    interpreter.load_program("<+>>>").unwrap();
    let mut input = InputSource::new(Vec::new());
    let mut output = OutputSink::new();
    run_to_completion(&mut interpreter, &mut input, &mut output);
    // `<` wrapped to the last cell, `+` marked it, `>>>` wrapped back to it.
    assert_eq!(interpreter.memory_address(), 2);
    assert_eq!(interpreter.memory_value(2), Some(1));
}

#[test]
fn reset_replays_the_same_outputs() {
    let mut interpreter = fresh(",[.,]");
    let mut input = InputSource::new(vec![b'x', b'y', 0]);
    let mut output = OutputSink::new();
    run_to_completion(&mut interpreter, &mut input, &mut output);
    let first = output.bytes().clone();
    assert_eq!(first.as_slice(), b"xy");
    let length = interpreter.program_length();
    interpreter.reset();
    assert_eq!(interpreter.program_counter(), 0);
    assert_eq!(interpreter.memory_address(), 0);
    assert_eq!(interpreter.memory_value(0), Some(0));
    assert_eq!(interpreter.program_length(), length);
    input.rewind();
    output.clear();
    run_to_completion(&mut interpreter, &mut input, &mut output);
    assert_eq!(output.bytes(), &first);
}

#[test]
fn hello_world_runs_to_completion() {
    let mut interpreter = fresh(HELLO_WORLD);
    let mut input = InputSource::new(Vec::new());
    let mut output = OutputSink::new();
    run_to_completion(&mut interpreter, &mut input, &mut output);
    assert_eq!(output.bytes().as_slice(), b"Hello World!\n");
    assert_eq!(interpreter.program_counter(), interpreter.program_length());
}

#[test]
fn echo_program_copies_input_until_the_zero_terminator() {
    let mut interpreter = fresh(",[.,]");
    let mut input = InputSource::new(vec![b'A', b'B', 0]);
    let mut output = OutputSink::new();
    run_to_completion(&mut interpreter, &mut input, &mut output);
    assert_eq!(output.bytes().as_slice(), b"AB");
    assert_eq!(interpreter.program_counter(), interpreter.program_length());
}

#[test]
fn input_at_end_of_source_leaves_the_cell_unchanged() {
    let mut interpreter = fresh("+,");
    let mut input = InputSource::new(Vec::new());
    let mut output = OutputSink::new();
    run_to_completion(&mut interpreter, &mut input, &mut output);
    assert_eq!(interpreter.memory_value(0), Some(1));
}

#[test]
fn lone_brackets_fail_loading_as_unbalanced() {
    let mut interpreter = fresh("+");
    let err = interpreter.load_program("[").unwrap_err();
    assert_eq!(err, InterpreterError::Parser(ParserError::UnbalancedBrackets(0)));
    let err = interpreter.load_program("]").unwrap_err();
    assert_eq!(err, InterpreterError::Parser(ParserError::UnbalancedBrackets(0)));
    // The failed loads left the previous program active.
    assert_eq!(interpreter.program_length(), 1);
    assert_eq!(
        interpreter.program_instruction(0).map(|t| t.instruction),
        Some(Instruction::Increment)
    );
}

#[test]
fn strict_load_fails_on_foreign_characters_and_keeps_state() {
    let mut interpreter = fresh("++");
    let mut input = InputSource::new(Vec::new());
    let mut output = OutputSink::new();
    interpreter.step(&mut input, &mut output).unwrap();
    let err = interpreter.load_program("+ +").unwrap_err();
    assert_eq!(
        err,
        InterpreterError::Lexer(LexerError::ForeignCharacter { character: ' ', position: 1 })
    );
    // The failed load kept the program, the counter and the tape.
    assert_eq!(interpreter.program_length(), 2);
    assert_eq!(interpreter.program_counter(), 1);
    assert_eq!(interpreter.memory_value(0), Some(1));
}

#[test]
fn lenient_interpreter_loads_commented_source() {
    let mut interpreter =
        Interpreter::new(DEFAULT_CAPACITY, LexerMode::Lenient, BoundnessMode::Strict);
    interpreter.load_program("add two: + +").unwrap();
    assert_eq!(interpreter.program_length(), 2);
    let mut input = InputSource::new(Vec::new());
    let mut output = OutputSink::new();
    run_to_completion(&mut interpreter, &mut input, &mut output);
    assert_eq!(interpreter.memory_value(0), Some(2));
}

#[test]
fn full_output_sink_fails_the_step_without_mutation() {
    let mut interpreter = fresh("+..");
    let mut input = InputSource::new(Vec::new());
    let mut output = OutputSink::with_capacity(1);
    interpreter.step(&mut input, &mut output).unwrap();
    interpreter.step(&mut input, &mut output).unwrap();
    assert_eq!(output.bytes().as_slice(), &[1]);
    let err = interpreter.step(&mut input, &mut output).unwrap_err();
    assert_eq!(err, InterpreterError::OutputFailure);
    assert_eq!(interpreter.program_counter(), 2);
    assert_eq!(output.bytes().as_slice(), &[1]);
}

#[test]
fn display_queries_are_total() {
    let interpreter = fresh("+-");
    assert_eq!(
        interpreter.program_instruction(1).map(|t| (t.index, t.instruction)),
        Some((1, Instruction::Decrement))
    );
    assert_eq!(interpreter.program_instruction(2), None);
    assert_eq!(interpreter.memory_value(DEFAULT_CAPACITY), None);
    assert_eq!(interpreter.capacity(), DEFAULT_CAPACITY);
    assert_eq!(interpreter.lexer_mode(), LexerMode::Strict);
    assert_eq!(interpreter.boundness_mode(), BoundnessMode::Strict);
}

#[test]
fn loop_skips_forward_over_its_body_when_the_cell_is_zero() {
    let mut interpreter = fresh("[+++]-");
    let mut input = InputSource::new(Vec::new());
    let mut output = OutputSink::new();
    // The cell is zero, so the loop start jumps straight to its partner.
    interpreter.step(&mut input, &mut output).unwrap();
    assert_eq!(interpreter.program_counter(), 4);
    interpreter.step(&mut input, &mut output).unwrap();
    assert_eq!(interpreter.program_counter(), 5);
    run_to_completion(&mut interpreter, &mut input, &mut output);
    assert_eq!(interpreter.memory_value(0), Some(255));
}

#[test]
fn multiplication_loop_computes_its_product() {
    // 3 * 5 left in the second cell.
    let mut interpreter = fresh("+++[>+++++<-]");
    let mut input = InputSource::new(Vec::new());
    let mut output = OutputSink::new();
    run_to_completion(&mut interpreter, &mut input, &mut output);
    assert_eq!(interpreter.memory_value(0), Some(0));
    assert_eq!(interpreter.memory_value(1), Some(15));
}
