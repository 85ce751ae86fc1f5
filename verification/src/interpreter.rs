//! The interpreter: owns one loaded program, its jump table, the tape and
//! the program counter, and executes exactly one instruction per `step`.

use vstd::prelude::*;

use crate::errors::InterpreterError;
use crate::errors::ParserError;
use crate::instruction::Instruction;
use crate::instruction::Token;
use crate::instruction::instructions_of;
use crate::instruction::token_indices_ok;
use crate::io::InputSource;
use crate::io::OutputSink;
use crate::lexer::LexerMode;
use crate::lexer::lex;
use crate::lexer::lex_accepts;
use crate::lexer::lexed;
use crate::lexer::lexer_reports_first_foreign;
use crate::parser::balanced;
use crate::parser::build_jump_table;
use crate::parser::jump_entry_ok;
use crate::parser::jump_table_ok;
use crate::parser::unbalanced_report;
use crate::semantics::MachineState;
use crate::semantics::StepOutcome;
use crate::semantics::spec_step;
use crate::tape::BoundnessMode;
use crate::tape::Tape;

verus! {

/// The tape capacity the surrounding tool conventionally builds with.
pub const DEFAULT_CAPACITY: usize = 30000;

/// One loaded program, its jump table, one tape, and one program counter.
/// A program counter equal to the program length denotes normal
/// termination; the fresh interpreter holds the empty program.
pub struct Interpreter {
    program: Vec<Token>,
    jump_table: Vec<usize>,
    tape: Tape,
    pc: usize,
    lexer_mode: LexerMode,
}

impl Interpreter {
    /// The loaded token sequence.
    pub closed spec fn spec_program(&self) -> Seq<Token> {
        self.program@
    }

    /// The loaded instruction stream.
    pub open spec fn spec_instructions(&self) -> Seq<Instruction> {
        instructions_of(self.spec_program())
    }

    /// The jump table built at load time.
    pub closed spec fn spec_jump_table(&self) -> Seq<usize> {
        self.jump_table@
    }

    /// The program counter.
    pub closed spec fn spec_pc(&self) -> int {
        self.pc as int
    }

    /// The tape, with its pointer and boundness policy.
    pub closed spec fn spec_tape(&self) -> Tape {
        self.tape
    }

    /// The lexer strictness the interpreter was built with.
    pub closed spec fn spec_lexer_mode(&self) -> LexerMode {
        self.lexer_mode
    }

    /// Well-formedness: the jump table matches the program, tokens carry
    /// their own positions, the tape is valid, and the program counter
    /// never passes the end.
    pub open spec fn wf(&self) -> bool {
        &&& jump_table_ok(self.spec_instructions(), self.spec_jump_table())
        &&& token_indices_ok(self.spec_program())
        &&& self.spec_tape().wf()
        &&& 0 <= self.spec_pc() <= self.spec_program().len()
    }

    /// The machine state a step call starts from, given the streams the
    /// caller hands in.
    pub open spec fn machine_state(&self, input: InputSource, output: OutputSink) -> MachineState {
        MachineState {
            program: self.spec_instructions(),
            jump: self.spec_jump_table(),
            cells: self.spec_tape().spec_cells(),
            pointer: self.spec_tape().spec_pointer(),
            pc: self.spec_pc(),
            boundness: self.spec_tape().spec_boundness(),
            input: input.spec_data(),
            input_pos: input.spec_position(),
            output: output.spec_data(),
            output_capacity: output.spec_capacity(),
        }
    }

    /// An interpreter with no program loaded: a zeroed tape of the given
    /// capacity, and the two policies fixed for its lifetime.
    pub fn new(capacity: usize, lexer_mode: LexerMode, boundness: BoundnessMode) -> (r: Interpreter)
        requires
            capacity > 0,
        ensures
            r.wf(),
            r.spec_program() == Seq::<Token>::empty(),
            r.spec_pc() == 0,
            r.spec_lexer_mode() == lexer_mode,
            r.spec_tape().spec_boundness() == boundness,
            r.spec_tape().spec_cells() == Seq::new(capacity as nat, |i: int| 0u8),
            r.spec_tape().spec_pointer() == 0,
    {
        Interpreter {
            program: Vec::new(),
            jump_table: Vec::new(),
            tape: Tape::new(capacity, boundness),
            pc: 0,
            lexer_mode,
        }
    }

    /// Lex and parse the source text, and on success install the new
    /// program and jump table and reset the tape and the program counter.
    /// On failure the previously loaded program, and all other state, stays
    /// exactly as it was.
    pub fn load_program(&mut self, source: &str) -> (r: Result<(), InterpreterError>)
        requires
            old(self).wf(),
        ensures
            final(self).wf(),
            final(self).spec_lexer_mode() == old(self).spec_lexer_mode(),
            final(self).spec_tape().spec_boundness() == old(self).spec_tape().spec_boundness(),
            final(self).spec_tape().spec_cells().len() == old(self).spec_tape().spec_cells().len(),
            r is Ok <==> (lex_accepts(source@, old(self).spec_lexer_mode()) && balanced(
                lexed(source@),
            )),
            r is Ok ==> {
                &&& final(self).spec_instructions() == lexed(source@)
                &&& final(self).spec_pc() == 0
                &&& final(self).spec_tape().spec_pointer() == 0
                &&& final(self).spec_tape().spec_cells() == Seq::new(
                    old(self).spec_tape().spec_cells().len(),
                    |i: int| 0u8,
                )
            },
            r is Err ==> *final(self) == *old(self),
            r matches Err(e) ==> (match e {
                InterpreterError::Lexer(le) => {
                    &&& !lex_accepts(source@, old(self).spec_lexer_mode())
                    &&& lexer_reports_first_foreign(source@, le)
                },
                InterpreterError::Parser(pe) => {
                    &&& lex_accepts(source@, old(self).spec_lexer_mode())
                    &&& !balanced(lexed(source@))
                    &&& (pe matches ParserError::UnbalancedBrackets(k) && unbalanced_report(
                        lexed(source@),
                        k as int,
                    ))
                },
                _ => false,
            }),
    {
        let tokens = match lex(source, self.lexer_mode) {
            Ok(tokens) => tokens,
            Err(e) => {
                return Err(InterpreterError::Lexer(e));
            },
        };
        proof {
            assert(instructions_of(tokens@) =~= lexed(source@));
        }
        let table = match build_jump_table(&tokens) {
            Ok(table) => table,
            Err(e) => {
                return Err(InterpreterError::Parser(e));
            },
        };
        self.program = tokens;
        self.jump_table = table;
        self.pc = 0;
        self.tape.reset();
        Ok(())
    }

    /// Zero the tape, move the pointer back to cell 0, and set the program
    /// counter back to the start; the loaded program, the jump table and
    /// both policies stay exactly as they were.
    pub fn reset(&mut self)
        requires
            old(self).wf(),
        ensures
            final(self).wf(),
            final(self).spec_program() == old(self).spec_program(),
            final(self).spec_jump_table() == old(self).spec_jump_table(),
            final(self).spec_lexer_mode() == old(self).spec_lexer_mode(),
            final(self).spec_tape().spec_boundness() == old(self).spec_tape().spec_boundness(),
            final(self).spec_pc() == 0,
            final(self).spec_tape().spec_pointer() == 0,
            final(self).spec_tape().spec_cells() == Seq::new(
                old(self).spec_tape().spec_cells().len(),
                |i: int| 0u8,
            ),
    {
        self.tape.reset();
        self.pc = 0;
    }

    /// Execute exactly one instruction: precisely what `spec_step` says of
    /// the machine state the call starts from. A counter at the end of the
    /// program reports ProgramFinished and changes nothing; a failed step
    /// changes nothing; a successful step lands in the successor state.
    pub fn step(&mut self, input: &mut InputSource, output: &mut OutputSink) -> (r: Result<
        (),
        InterpreterError,
    >)
        requires
            old(self).wf(),
            old(input).wf(),
            old(output).wf(),
        ensures
            final(self).wf(),
            final(input).wf(),
            final(output).wf(),
            final(self).spec_program() == old(self).spec_program(),
            final(self).spec_jump_table() == old(self).spec_jump_table(),
            final(self).spec_lexer_mode() == old(self).spec_lexer_mode(),
            final(self).spec_tape().spec_boundness() == old(self).spec_tape().spec_boundness(),
            final(self).spec_tape().spec_cells().len() == old(self).spec_tape().spec_cells().len(),
            final(input).spec_data() == old(input).spec_data(),
            final(output).spec_capacity() == old(output).spec_capacity(),
            (match spec_step(old(self).machine_state(*old(input), *old(output))) {
                StepOutcome::Finished => {
                    &&& r matches Err(InterpreterError::Parser(ParserError::ProgramFinished))
                    &&& *final(self) == *old(self)
                    &&& *final(input) == *old(input)
                    &&& *final(output) == *old(output)
                },
                StepOutcome::BoundsViolation => {
                    &&& r matches Err(InterpreterError::BoundsViolation)
                    &&& *final(self) == *old(self)
                    &&& *final(input) == *old(input)
                    &&& *final(output) == *old(output)
                },
                StepOutcome::OutputFailure => {
                    &&& r matches Err(InterpreterError::OutputFailure)
                    &&& *final(self) == *old(self)
                    &&& *final(input) == *old(input)
                    &&& *final(output) == *old(output)
                },
                StepOutcome::Progress(t) => {
                    &&& r is Ok
                    &&& final(self).machine_state(*final(input), *final(output)) == t
                },
            }),
    {
        let ghost pre = self.machine_state(*input, *output);
        if self.pc == self.program.len() {
            return Err(InterpreterError::Parser(ParserError::ProgramFinished));
        }
        proof {
            assert(jump_entry_ok(pre.program, pre.jump, pre.pc));
        }
        let token = self.program[self.pc];
        proof {
            assert(pre.program[pre.pc] == token.instruction);
        }
        match token.instruction {
            Instruction::MoveRight => {
                if self.tape.move_right() {
                    self.pc += 1;
                    proof {
                        assert(self.machine_state(*input, *output) =~= spec_step(pre)->Progress_0);
                    }
                    Ok(())
                } else {
                    Err(InterpreterError::BoundsViolation)
                }
            },
            Instruction::MoveLeft => {
                if self.tape.move_left() {
                    self.pc += 1;
                    proof {
                        assert(self.machine_state(*input, *output) =~= spec_step(pre)->Progress_0);
                    }
                    Ok(())
                } else {
                    Err(InterpreterError::BoundsViolation)
                }
            },
            Instruction::Increment => {
                self.tape.increment();
                self.pc += 1;
                proof {
                    assert(self.machine_state(*input, *output) =~= spec_step(pre)->Progress_0);
                }
                Ok(())
            },
            Instruction::Decrement => {
                self.tape.decrement();
                self.pc += 1;
                proof {
                    assert(self.machine_state(*input, *output) =~= spec_step(pre)->Progress_0);
                }
                Ok(())
            },
            Instruction::Output => {
                let value = self.tape.read_cell();
                if output.write_byte(value) {
                    self.pc += 1;
                    proof {
                        assert(self.machine_state(*input, *output) =~= spec_step(pre)->Progress_0);
                    }
                    Ok(())
                } else {
                    Err(InterpreterError::OutputFailure)
                }
            },
            Instruction::Input => {
                match input.read_byte() {
                    Some(value) => {
                        self.tape.write_cell(value);
                    },
                    None => {},
                }
                self.pc += 1;
                proof {
                    assert(self.machine_state(*input, *output) =~= spec_step(pre)->Progress_0);
                }
                Ok(())
            },
            Instruction::LoopStart => {
                if self.tape.read_cell() == 0 {
                    self.pc = self.jump_table[self.pc];
                } else {
                    self.pc += 1;
                }
                proof {
                    assert(self.machine_state(*input, *output) =~= spec_step(pre)->Progress_0);
                }
                Ok(())
            },
            Instruction::LoopEnd => {
                if self.tape.read_cell() != 0 {
                    self.pc = self.jump_table[self.pc];
                } else {
                    self.pc += 1;
                }
                proof {
                    assert(self.machine_state(*input, *output) =~= spec_step(pre)->Progress_0);
                }
                Ok(())
            },
        }
    }

    /// The current program counter, for display.
    pub fn program_counter(&self) -> (r: usize)
        ensures
            r == self.spec_pc(),
    {
        self.pc
    }

    /// The current memory pointer, for display.
    pub fn memory_address(&self) -> (r: usize)
        ensures
            r == self.spec_tape().spec_pointer(),
    {
        self.tape.pointer()
    }

    /// The cell value at an arbitrary address, for display; out of range is
    /// None.
    pub fn memory_value(&self, address: usize) -> (r: Option<u8>)
        ensures
            address < self.spec_tape().spec_cells().len() ==> r == Some(
                self.spec_tape().spec_cells()[address as int],
            ),
            address >= self.spec_tape().spec_cells().len() ==> r is None,
    {
        self.tape.cell_at(address)
    }

    /// The token at an arbitrary program index, for display; out of range
    /// is None.
    pub fn program_instruction(&self, index: usize) -> (r: Option<Token>)
        ensures
            index < self.spec_program().len() ==> r == Some(self.spec_program()[index as int]),
            index >= self.spec_program().len() ==> r is None,
    {
        if index < self.program.len() {
            Some(self.program[index])
        } else {
            None
        }
    }

    /// How many tokens the loaded program holds.
    pub fn program_length(&self) -> (r: usize)
        ensures
            r == self.spec_program().len(),
    {
        self.program.len()
    }

    /// The tape capacity the interpreter was built with.
    pub fn capacity(&self) -> (r: usize)
        ensures
            r == self.spec_tape().spec_cells().len(),
    {
        self.tape.capacity()
    }

    /// The lexer strictness the interpreter was built with.
    pub fn lexer_mode(&self) -> (r: LexerMode)
        ensures
            r == self.spec_lexer_mode(),
    {
        self.lexer_mode
    }

    /// The boundness policy the interpreter was built with.
    pub fn boundness_mode(&self) -> (r: BoundnessMode)
        ensures
            r == self.spec_tape().spec_boundness(),
    {
        self.tape.boundness()
    }
}

} // verus!
