//! Bracket validation and the bidirectional jump table.

use vstd::prelude::*;

use crate::errors::ParserError;
use crate::instruction::Instruction;
use crate::instruction::Token;
use crate::instruction::instructions_of;

verus! {

/// Contribution of one instruction to the bracket nesting depth.
pub open spec fn bracket_weight(i: Instruction) -> int {
    match i {
        Instruction::LoopStart => 1,
        Instruction::LoopEnd => -1,
        _ => 0,
    }
}

/// Net bracket depth over the first `n` instructions.
pub open spec fn depth(s: Seq<Instruction>, n: int) -> int
    decreases n,
{
    if n <= 0 {
        0
    } else {
        depth(s, n - 1) + bracket_weight(s[n - 1])
    }
}

/// Balanced, properly nested brackets: no prefix closes more than it has
/// opened, and everything opened is closed by the end.
pub open spec fn balanced(s: Seq<Instruction>) -> bool {
    &&& depth(s, s.len() as int) == 0
    &&& forall|n: int| 0 <= n <= s.len() ==> #[trigger] depth(s, n) >= 0
}

/// The jump table entry at a bracket index names its partner, and the two
/// entries point back at each other.
pub open spec fn jump_entry_ok(s: Seq<Instruction>, table: Seq<usize>, i: int) -> bool {
    match s[i] {
        Instruction::LoopStart => {
            &&& i < table[i] < s.len()
            &&& s[table[i] as int] is LoopEnd
            &&& table[table[i] as int] == i as usize
        },
        Instruction::LoopEnd => {
            &&& 0 <= table[i] < i
            &&& s[table[i] as int] is LoopStart
            &&& table[table[i] as int] == i as usize
        },
        _ => true,
    }
}

/// A complete jump table: one entry per instruction, every bracket paired
/// with its partner, symmetrically. `table(table(i)) == i` on every bracket.
pub open spec fn jump_table_ok(s: Seq<Instruction>, table: Seq<usize>) -> bool {
    &&& table.len() == s.len()
    &&& forall|i: int| 0 <= i < s.len() ==> #[trigger] jump_entry_ok(s, table, i)
}

/// The first token index at which the nesting depth goes negative: a
/// LoopEnd with no open bracket to close.
pub open spec fn first_excess_close(s: Seq<Instruction>, k: int) -> bool {
    &&& 0 <= k < s.len()
    &&& depth(s, k + 1) < 0
    &&& forall|m: int| 0 <= m <= k ==> #[trigger] depth(s, m) >= 0
}

/// The innermost LoopStart left open at the end of the scan: the depth
/// never falls back to its level.
pub open spec fn last_dangling_open(s: Seq<Instruction>, k: int) -> bool {
    &&& 0 <= k < s.len()
    &&& s[k] is LoopStart
    &&& depth(s, k) == depth(s, s.len() as int) - 1
    &&& forall|m: int| k < m <= s.len() ==> #[trigger] depth(s, m) > depth(s, k)
}

/// The token index an unbalanced-bracket failure reports: the first excess
/// LoopEnd where one exists, else the innermost dangling LoopStart.
pub open spec fn unbalanced_report(s: Seq<Instruction>, k: int) -> bool {
    ||| first_excess_close(s, k)
    ||| (last_dangling_open(s, k) && forall|m: int| 0 <= m <= s.len() ==> #[trigger] depth(s, m) >= 0)
}

/// Validate the bracket structure of a token sequence with a single
/// left-to-right scan over a stack of pending LoopStart indices, and record
/// every matched pair symmetrically in the jump table.
pub fn build_jump_table(program: &Vec<Token>) -> (r: Result<Vec<usize>, ParserError>)
    ensures
        r is Ok <==> balanced(instructions_of(program@)),
        r matches Ok(table) ==> jump_table_ok(instructions_of(program@), table@),
        r matches Err(e) ==> (e matches ParserError::UnbalancedBrackets(k)
            && unbalanced_report(instructions_of(program@), k as int)),
{
    let ghost s = instructions_of(program@);
    let length = program.len();
    let mut table: Vec<usize> = Vec::new();
    let mut filled: usize = 0;
    while filled < length
        invariant
            filled <= length,
            table@.len() == filled,
        decreases length - filled,
    {
        table.push(0);
        filled += 1;
    }
    let mut stack: Vec<usize> = Vec::new();
    let mut i: usize = 0;
    while i < length
        invariant
            s == instructions_of(program@),
            length == program.len() == s.len(),
            table@.len() == length,
            i <= length,
            stack@.len() == depth(s, i as int),
            forall|m: int| 0 <= m <= i ==> #[trigger] depth(s, m) >= 0,
            forall|p: int| 0 <= p < stack@.len() ==> {
                let q = #[trigger] stack@[p] as int;
                &&& 0 <= q < i
                &&& s[q] is LoopStart
                &&& depth(s, q) == p
                &&& forall|m: int| q < m <= i ==> #[trigger] depth(s, m) > p
            },
            forall|j: int|
                0 <= j < i && !stack@.contains(j as usize) ==> #[trigger] matched_below(
                    s,
                    table@,
                    stack@,
                    j,
                    i as int,
                ),
        decreases length - i,
    {
        let token = program[i];
        let ghost stack0 = stack@;
        let ghost table0 = table@;
        proof {
            assert(s[i as int] == program@[i as int].instruction);
            assert(depth(s, i + 1) == depth(s, i as int) + bracket_weight(s[i as int]));
        }
        match token.instruction {
            Instruction::LoopStart => {
                stack.push(i);
                proof {
                    assert forall|j: int| 0 <= j < i + 1 && !stack@.contains(j as usize)
                        implies #[trigger] matched_below(s, table@, stack@, j, i + 1) by {
                        assert(stack@[stack@.len() - 1] == i as usize);
                        assert(stack@.contains(i as usize));
                        if stack0.contains(j as usize) {
                            let p = choose|p: int|
                                0 <= p < stack0.len() && stack0[p] == j as usize;
                            assert(stack@[p] == j as usize);
                        }
                        assert(matched_below(s, table0, stack0, j, i as int));
                        if s[j] is LoopStart || s[j] is LoopEnd {
                            let t = table@[j];
                            assert((t as int) < i);
                            if stack@.contains(t) {
                                let p = choose|p: int|
                                    0 <= p < stack@.len() && stack@[p] == t;
                                if p < stack0.len() {
                                    assert(stack0[p] == t);
                                    assert(!stack0.contains(t));
                                } else {
                                    assert(stack@[p] == i as usize);
                                }
                            }
                        }
                    }
                }
            },
            Instruction::LoopEnd => {
                let popped = stack.pop();
                match popped {
                    Some(open_index) => {
                        proof {
                            assert(stack0.len() == depth(s, i as int));
                            assert(stack0.len() > 0);
                            assert(open_index == stack0[stack0.len() - 1]);
                            assert(stack@ =~= stack0.subrange(0, stack0.len() - 1));
                            assert(s[open_index as int] is LoopStart);
                            assert(depth(s, open_index as int) == stack0.len() - 1);
                            assert((open_index as int) < i);
                        }
                        table[open_index] = i;
                        table[i] = open_index;
                        proof {
                            let stack1 = stack@;
                            let table2 = table@;
                            assert(table2 =~= table0.update(open_index as int, i).update(
                                i as int,
                                open_index,
                            ));
                            assert(!stack1.contains(open_index)) by {
                                if stack1.contains(open_index) {
                                    let p = choose|p: int|
                                        0 <= p < stack1.len() && stack1[p] == open_index;
                                    assert(stack0[p] == open_index);
                                    assert(depth(s, open_index as int) == p);
                                }
                            }
                            assert(!stack1.contains(i as usize)) by {
                                if stack1.contains(i as usize) {
                                    let p = choose|p: int|
                                        0 <= p < stack1.len() && stack1[p] == i as usize;
                                    assert(stack0[p] == i as usize);
                                    assert((stack0[p] as int) < i);
                                }
                            }
                            assert forall|j: int| 0 <= j < i + 1 && !stack1.contains(j as usize)
                                implies #[trigger] matched_below(s, table2, stack1, j, i + 1) by {
                                if j == i {
                                    assert(matched_below(s, table2, stack1, j, i + 1));
                                } else if j == open_index as int {
                                    assert(matched_below(s, table2, stack1, j, i + 1));
                                } else {
                                    assert(!stack0.contains(j as usize)) by {
                                        if stack0.contains(j as usize) {
                                            let p = choose|p: int|
                                                0 <= p < stack0.len() && stack0[p] == j as usize;
                                            if p < stack1.len() {
                                                assert(stack1[p] == j as usize);
                                            }
                                        }
                                    }
                                    assert(matched_below(s, table0, stack0, j, i as int));
                                    if s[j] is LoopStart || s[j] is LoopEnd {
                                        let t = table0[j];
                                        assert(stack0.contains(open_index)) by {
                                            assert(stack0[stack0.len() - 1] == open_index);
                                        }
                                        assert(t != open_index);
                                        assert((t as int) < i);
                                        assert(table2[j] == table0[j]);
                                        assert(table2[t as int] == table0[t as int]);
                                        assert(!stack1.contains(t)) by {
                                            if stack1.contains(t) {
                                                let p = choose|p: int|
                                                    0 <= p < stack1.len() && stack1[p] == t;
                                                assert(stack0[p] == t);
                                            }
                                        }
                                    }
                                }
                            }
                        }
                    },
                    None => {
                        proof {
                            assert(depth(s, i as int) == 0);
                            assert(depth(s, i + 1) < 0);
                        }
                        return Err(ParserError::UnbalancedBrackets(i));
                    },
                }
            },
            _ => {
                proof {
                    assert forall|j: int| 0 <= j < i + 1 && !stack@.contains(j as usize)
                        implies #[trigger] matched_below(s, table@, stack@, j, i + 1) by {
                        if j < i {
                            assert(matched_below(s, table0, stack0, j, i as int));
                        }
                    }
                }
            },
        }
        i += 1;
    }
    if stack.len() > 0 {
        let dangling = stack[stack.len() - 1];
        proof {
            assert(depth(s, s.len() as int) == stack@.len());
            assert(depth(s, dangling as int) == stack@.len() - 1);
            assert(last_dangling_open(s, dangling as int));
        }
        return Err(ParserError::UnbalancedBrackets(dangling));
    }
    proof {
        assert forall|j: int| 0 <= j < s.len() implies #[trigger] jump_entry_ok(s, table@, j) by {
            assert(!stack@.contains(j as usize));
            assert(matched_below(s, table@, stack@, j, s.len() as int));
        }
    }
    Ok(table)
}

/// Scan-time shape of an already matched bracket: its partner is also
/// behind the scan front and off the stack, and the two entries of the
/// table point at each other.
pub open spec fn matched_below(
    s: Seq<Instruction>,
    table: Seq<usize>,
    stack: Seq<usize>,
    j: int,
    front: int,
) -> bool {
    match s[j] {
        Instruction::LoopStart => {
            &&& j < table[j] < front
            &&& s[table[j] as int] is LoopEnd
            &&& table[table[j] as int] == j as usize
            &&& !stack.contains(table[j])
        },
        Instruction::LoopEnd => {
            &&& 0 <= table[j] < j
            &&& s[table[j] as int] is LoopStart
            &&& table[table[j] as int] == j as usize
            &&& !stack.contains(table[j])
        },
        _ => true,
    }
}

} // verus!
