//! The mathematical semantics of one execution step, and of runs of steps.
//!
//! `spec_step` is the single source of truth for what `Interpreter::step`
//! does: the interpreter's contract says that each call behaves exactly as
//! `spec_step` on the machine state the call started from.

use vstd::prelude::*;

use crate::instruction::Instruction;
use crate::parser::jump_table_ok;
use crate::tape::BoundnessMode;
use crate::tape::pointer_left;
use crate::tape::pointer_right;
use crate::tape::wrap_dec;
use crate::tape::wrap_inc;

verus! {

/// The whole state of a machine in mid-run, as mathematics: the loaded
/// program and jump table, the tape, the two cursors, the boundness policy,
/// and the two I/O streams the caller handed to the step.
#[verifier::ext_equal]
pub ghost struct MachineState {
    pub program: Seq<Instruction>,
    pub jump: Seq<usize>,
    pub cells: Seq<u8>,
    pub pointer: int,
    pub pc: int,
    pub boundness: BoundnessMode,
    pub input: Seq<u8>,
    pub input_pos: int,
    pub output: Seq<u8>,
    pub output_capacity: int,
}

/// What one step does: advance to a next state, report normal termination,
/// or fail, leaving the state untouched.
pub ghost enum StepOutcome {
    /// The program counter already stands at the end: nothing executed.
    Finished,
    /// One instruction executed; the machine now stands in this state.
    Progress(MachineState),
    /// A strict-boundness pointer move past an edge of the tape.
    BoundsViolation,
    /// The output sink refused the byte.
    OutputFailure,
}

/// A machine state the interpreter can actually stand in.
pub open spec fn state_wf(s: MachineState) -> bool {
    &&& jump_table_ok(s.program, s.jump)
    &&& s.cells.len() > 0
    &&& 0 <= s.pointer < s.cells.len()
    &&& 0 <= s.pc <= s.program.len()
    &&& 0 <= s.input_pos <= s.input.len()
    &&& s.output.len() <= s.output_capacity
}

/// The per-instruction semantics of one step, exactly as the interpreter
/// executes it.
pub open spec fn spec_step(s: MachineState) -> StepOutcome {
    if s.pc >= s.program.len() {
        StepOutcome::Finished
    } else {
        match s.program[s.pc] {
            Instruction::MoveRight => {
                if s.boundness is Wrapping || s.pointer + 1 < s.cells.len() {
                    StepOutcome::Progress(
                        MachineState {
                            pointer: pointer_right(s.pointer, s.cells.len() as int),
                            pc: s.pc + 1,
                            ..s
                        },
                    )
                } else {
                    StepOutcome::BoundsViolation
                }
            },
            Instruction::MoveLeft => {
                if s.boundness is Wrapping || s.pointer > 0 {
                    StepOutcome::Progress(
                        MachineState {
                            pointer: pointer_left(s.pointer, s.cells.len() as int),
                            pc: s.pc + 1,
                            ..s
                        },
                    )
                } else {
                    StepOutcome::BoundsViolation
                }
            },
            Instruction::Increment => StepOutcome::Progress(
                MachineState {
                    cells: s.cells.update(s.pointer, wrap_inc(s.cells[s.pointer])),
                    pc: s.pc + 1,
                    ..s
                },
            ),
            Instruction::Decrement => StepOutcome::Progress(
                MachineState {
                    cells: s.cells.update(s.pointer, wrap_dec(s.cells[s.pointer])),
                    pc: s.pc + 1,
                    ..s
                },
            ),
            Instruction::Output => {
                if s.output.len() < s.output_capacity {
                    StepOutcome::Progress(
                        MachineState { output: s.output.push(s.cells[s.pointer]), pc: s.pc + 1, ..s },
                    )
                } else {
                    StepOutcome::OutputFailure
                }
            },
            Instruction::Input => {
                if s.input_pos < s.input.len() {
                    StepOutcome::Progress(
                        MachineState {
                            cells: s.cells.update(s.pointer, s.input[s.input_pos]),
                            input_pos: s.input_pos + 1,
                            pc: s.pc + 1,
                            ..s
                        },
                    )
                } else {
                    StepOutcome::Progress(MachineState { pc: s.pc + 1, ..s })
                }
            },
            Instruction::LoopStart => {
                if s.cells[s.pointer] == 0 {
                    StepOutcome::Progress(MachineState { pc: s.jump[s.pc] as int, ..s })
                } else {
                    StepOutcome::Progress(MachineState { pc: s.pc + 1, ..s })
                }
            },
            Instruction::LoopEnd => {
                if s.cells[s.pointer] != 0 {
                    StepOutcome::Progress(MachineState { pc: s.jump[s.pc] as int, ..s })
                } else {
                    StepOutcome::Progress(MachineState { pc: s.pc + 1, ..s })
                }
            },
        }
    }
}

/// A step from a well-formed state lands in a well-formed state and never
/// touches the program, the jump table, the policy, the tape's capacity,
/// the input bytes, or the sink's capacity.
pub proof fn lemma_step_preserves_wf(s: MachineState)
    requires
        state_wf(s),
    ensures
        spec_step(s) matches StepOutcome::Progress(t) ==> {
            &&& state_wf(t)
            &&& t.program == s.program
            &&& t.jump == s.jump
            &&& t.boundness == s.boundness
            &&& t.cells.len() == s.cells.len()
            &&& t.input == s.input
            &&& t.output_capacity == s.output_capacity
            &&& s.output.len() <= t.output.len() <= s.output.len() + 1
        },
{
    if s.pc < s.program.len() {
        assert(crate::parser::jump_entry_ok(s.program, s.jump, s.pc));
        if s.program[s.pc] is LoopStart || s.program[s.pc] is LoopEnd {
            let j = s.jump[s.pc] as int;
            if s.program[s.pc] is LoopStart {
                assert(crate::parser::jump_entry_ok(s.program, s.jump, j));
            } else {
                assert(crate::parser::jump_entry_ok(s.program, s.jump, j));
            }
        }
    }
}

/// The state after `n` consecutive successful steps from `s`, or None if
/// some step among them finishes or fails instead.
pub open spec fn spec_run(s: MachineState, n: nat) -> Option<MachineState>
    decreases n,
{
    if n == 0 {
        Some(s)
    } else {
        match spec_run(s, (n - 1) as nat) {
            Some(t) => match spec_step(t) {
                StepOutcome::Progress(u) => Some(u),
                _ => None,
            },
            None => None,
        }
    }
}

/// No instruction of the program is a loop bracket.
pub open spec fn straight_line(program: Seq<Instruction>) -> bool {
    forall|i: int|
        0 <= i < program.len() ==> !((#[trigger] program[i]) is LoopStart) && !(program[i] is LoopEnd)
}

/// Helper for `lemma_straight_line_run`: the first `n` steps of a
/// bracket-free program under wrapping boundness each succeed and advance
/// the program counter by exactly one.
proof fn lemma_straight_line_run_prefix(s: MachineState, n: nat)
    requires
        state_wf(s),
        straight_line(s.program),
        s.boundness is Wrapping,
        s.pc == 0,
        s.output.len() + s.program.len() <= s.output_capacity,
        n <= s.program.len(),
    ensures
        spec_run(s, n) matches Some(t) && {
            &&& state_wf(t)
            &&& t.pc == n
            &&& t.program == s.program
            &&& t.boundness == s.boundness
            &&& t.output_capacity == s.output_capacity
            &&& t.output.len() <= s.output.len() + n
        },
    decreases n,
{
    if n > 0 {
        lemma_straight_line_run_prefix(s, (n - 1) as nat);
        let t = spec_run(s, (n - 1) as nat)->Some_0;
        lemma_step_preserves_wf(t);
        assert(t.pc < t.program.len());
        assert(!(t.program[t.pc] is LoopStart) && !(t.program[t.pc] is LoopEnd));
        assert(spec_step(t) is Progress);
    }
}

/// Stepping a fresh-loaded, bracket-free program of length L under wrapping
/// boundness, into a sink with room for L more bytes, succeeds exactly L
/// times and leaves the program counter at L; the step after that only
/// reports that the program is finished.
pub proof fn lemma_straight_line_run(s: MachineState)
    requires
        state_wf(s),
        straight_line(s.program),
        s.boundness is Wrapping,
        s.pc == 0,
        s.output.len() + s.program.len() <= s.output_capacity,
    ensures
        spec_run(s, s.program.len()) matches Some(t) && t.pc == s.program.len() && spec_step(t)
            is Finished,
{
    lemma_straight_line_run_prefix(s, s.program.len());
}

} // verus!
