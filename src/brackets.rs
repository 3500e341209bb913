//! Bracket matching: checks that loops nest properly and builds the table
//! that takes each bracket to its partner.

use vstd::prelude::*;
use crate::command::{BFCommand, InputInstruction};

verus! {

/// A loop bracket that has no partner, with the instruction it stands at.
#[derive(Debug, Clone, Copy, PartialEq, Eq, Structural)]
pub enum BracketError {
    /// A `[` that is never closed.
    UnmatchedStart(InputInstruction),
    /// A `]` with no `[` left open before it.
    UnmatchedEnd(InputInstruction),
}

/// How a command changes the nesting depth.
pub open spec fn nesting_delta(command: BFCommand) -> int {
    match command {
        BFCommand::IfZeroJumpForward => 1,
        BFCommand::IfNonZeroJumpBack => -1,
        _ => 0,
    }
}

/// The number of `[` minus the number of `]` among the first `k` instructions.
pub open spec fn depth(s: Seq<InputInstruction>, k: int) -> int
    decreases k,
{
    if k <= 0 {
        0
    } else {
        depth(s, k - 1) + nesting_delta(s[k - 1].command)
    }
}

/// Instruction `i` is a `[`.
pub open spec fn is_loop_start(s: Seq<InputInstruction>, i: int) -> bool {
    0 <= i < s.len() && s[i].command == BFCommand::IfZeroJumpForward
}

/// Instruction `j` is a `]`.
pub open spec fn is_loop_end(s: Seq<InputInstruction>, j: int) -> bool {
    0 <= j < s.len() && s[j].command == BFCommand::IfNonZeroJumpBack
}

/// The `[` at `i` is still open after the first `k` instructions: the depth
/// stays above its own through position `k`.
pub open spec fn open_through(s: Seq<InputInstruction>, i: int, k: int) -> bool {
    &&& is_loop_start(s, i)
    &&& i < k
    &&& forall|m: int| i < m <= k ==> #[trigger] depth(s, m) > depth(s, i)
}

/// The `]` at `j` is the one that closes the `[` at `i`: the first place
/// after `i` where the depth comes back down to that of `i`.
pub open spec fn closes(s: Seq<InputInstruction>, i: int, j: int) -> bool {
    &&& is_loop_start(s, i)
    &&& is_loop_end(s, j)
    &&& i < j
    &&& open_through(s, i, j)
    &&& depth(s, j + 1) == depth(s, i)
}

/// Every bracket has a partner: the depth never drops below zero and ends at zero.
pub open spec fn balanced(s: Seq<InputInstruction>) -> bool {
    &&& forall|k: int| 0 <= k <= s.len() ==> #[trigger] depth(s, k) >= 0
    &&& depth(s, s.len() as int) == 0
}

/// The `]` at `j` is the first one with no `[` open before it.
pub open spec fn first_unmatched_end(s: Seq<InputInstruction>, j: int) -> bool {
    &&& is_loop_end(s, j)
    &&& depth(s, j + 1) < 0
    &&& forall|m: int| 0 <= m <= j ==> #[trigger] depth(s, m) >= 0
}

/// The `[` at `i` is never closed, and every `[` after it is.
pub open spec fn innermost_unmatched_start(s: Seq<InputInstruction>, i: int) -> bool {
    &&& open_through(s, i, s.len() as int)
    &&& forall|j: int| i < j < s.len() ==> !#[trigger] open_through(s, j, s.len() as int)
}

/// `e` names the bracket that is at fault in `s`: the first `]` with nothing
/// open before it or, when there is none, the innermost `[` never closed.
pub open spec fn reports(s: Seq<InputInstruction>, e: BracketError) -> bool {
    match e {
        BracketError::UnmatchedEnd(ins) => exists|j: int| first_unmatched_end(s, j) && ins == s[j],
        BracketError::UnmatchedStart(ins) => {
            &&& forall|j: int| !#[trigger] first_unmatched_end(s, j)
            &&& exists|i: int| innermost_unmatched_start(s, i) && ins == s[i]
        },
    }
}

/// `t` takes each `[` to the `]` that closes it and each `]` to the `[` it
/// closes, and every other instruction to itself.
pub open spec fn is_jump_table(s: Seq<InputInstruction>, t: Seq<usize>) -> bool {
    &&& t.len() == s.len()
    &&& forall|i: int| is_loop_start(s, i) ==> closes(s, i, #[trigger] t[i] as int)
    &&& forall|j: int| is_loop_end(s, j) ==> closes(s, #[trigger] t[j] as int, j)
    &&& forall|k: int|
        0 <= k < s.len() && !is_loop_start(s, k) && !is_loop_end(s, k) ==> #[trigger] t[k] == k
}

proof fn lemma_closer_unique(s: Seq<InputInstruction>, i: int, j1: int, j2: int)
    requires
        closes(s, i, j1),
        closes(s, i, j2),
    ensures
        j1 == j2,
{
    if j1 < j2 {
        assert(depth(s, j1 + 1) > depth(s, i));
    } else if j2 < j1 {
        assert(depth(s, j2 + 1) > depth(s, i));
    }
}

proof fn lemma_opener_unique(s: Seq<InputInstruction>, i1: int, i2: int, j: int)
    requires
        closes(s, i1, j),
        closes(s, i2, j),
    ensures
        i1 == i2,
{
    if i1 < i2 {
        assert(depth(s, i2) > depth(s, i1));
    } else if i2 < i1 {
        assert(depth(s, i1) > depth(s, i2));
    }
}

/// Following a jump table from any bracket to its partner and back again
/// returns to the bracket started from.
pub proof fn lemma_jump_round_trip(s: Seq<InputInstruction>, t: Seq<usize>)
    requires
        is_jump_table(s, t),
    ensures
        forall|i: int| is_loop_start(s, i) ==> #[trigger] t[t[i] as int] == i,
        forall|j: int| is_loop_end(s, j) ==> #[trigger] t[t[j] as int] == j,
{
    assert forall|i: int| is_loop_start(s, i) implies #[trigger] t[t[i] as int] == i by {
        let j = t[i] as int;
        assert(is_loop_end(s, j));
        lemma_opener_unique(s, i, t[j] as int, j);
    }
    assert forall|j: int| is_loop_end(s, j) implies #[trigger] t[t[j] as int] == j by {
        let i = t[j] as int;
        assert(is_loop_start(s, i));
        lemma_closer_unique(s, i, t[i] as int, j);
    }
}

/// Matches the brackets of `commands`: the jump table when every bracket has
/// a partner; otherwise the first `]` with nothing open before it or, when
/// there is none, the innermost `[` that is never closed.
pub fn resolve_jumps(commands: &Vec<InputInstruction>) -> (r: Result<Vec<usize>, BracketError>)
    ensures
        r is Ok <==> balanced(commands@),
        match r {
            Ok(t) => is_jump_table(commands@, t@),
            Err(e) => reports(commands@, e),
        },
{
    let ghost s = commands@;
    let n = commands.len();
    let mut stack: Vec<usize> = Vec::new();
    let mut table: Vec<usize> = Vec::new();
    let mut k: usize = 0;
    while k < n
        invariant
            n == s.len(),
            s == commands@,
            k <= n,
            table@.len() == k,
            stack@.len() == depth(s, k as int),
            forall|m: int| 0 <= m <= k ==> #[trigger] depth(s, m) >= 0,
            forall|p: int|
                0 <= p < stack@.len() ==> {
                    &&& #[trigger] stack@[p] < k
                    &&& depth(s, stack@[p] as int) == p
                    &&& open_through(s, stack@[p] as int, k as int)
                },
            forall|p: int, q: int| 0 <= p < q < stack@.len() ==> stack@[p] < stack@[q],
            forall|i: int|
                0 <= i < k && #[trigger] open_through(s, i, k as int) ==> {
                    &&& depth(s, i) < stack@.len()
                    &&& stack@[depth(s, i)] == i
                },
            forall|i: int|
                0 <= i < k && is_loop_start(s, i) && !#[trigger] open_through(s, i, k as int)
                    ==> table@[i] < k && closes(s, i, table@[i] as int),
            forall|j: int| 0 <= j < k && is_loop_end(s, j) ==> closes(s, #[trigger] table@[j] as int, j),
            forall|m: int|
                0 <= m < k && !is_loop_start(s, m) && !is_loop_end(s, m) ==> #[trigger] table@[m] == m,
        decreases n - k,
    {
        let ins = commands[k];
        let ghost old_stack = stack@;
        let ghost old_table = table@;
        assert(depth(s, k + 1) == depth(s, k as int) + nesting_delta(ins.command));
        match ins.command {
            BFCommand::IfZeroJumpForward => {
                stack.push(k);
                table.push(k);
                assert forall|i: int|
                    0 <= i < k + 1 && #[trigger] open_through(s, i, k + 1) implies {
                    &&& depth(s, i) < stack@.len()
                    &&& stack@[depth(s, i)] == i
                } by {
                    if i < k {
                        assert(open_through(s, i, k as int));
                    }
                }
                assert forall|i: int|
                    0 <= i < k + 1 && is_loop_start(s, i) && !#[trigger] open_through(
                        s,
                        i,
                        k + 1,
                    ) implies table@[i] < k + 1 && closes(s, i, table@[i] as int) by {
                    if open_through(s, i, k as int) {
                        assert(depth(s, i) < old_stack.len());
                    }
                }
            },
            BFCommand::IfNonZeroJumpBack => {
                if stack.len() == 0 {
                    assert(first_unmatched_end(s, k as int));
                    return Err(BracketError::UnmatchedEnd(ins));
                }
                let top = stack.pop().unwrap();
                let ghost len = old_stack.len();
                assert(top == old_stack[len - 1]);
                assert(closes(s, top as int, k as int));
                table[top] = k;
                table.push(top);
                assert forall|i: int|
                    0 <= i < k + 1 && #[trigger] open_through(s, i, k + 1) implies {
                    &&& depth(s, i) < stack@.len()
                    &&& stack@[depth(s, i)] == i
                } by {
                    assert(open_through(s, i, k as int));
                    assert(depth(s, k + 1) > depth(s, i));
                }
                assert forall|i: int|
                    0 <= i < k + 1 && is_loop_start(s, i) && !#[trigger] open_through(
                        s,
                        i,
                        k + 1,
                    ) implies table@[i] < k + 1 && closes(s, i, table@[i] as int) by {
                    if i != top as int {
                        if open_through(s, i, k as int) {
                            assert(old_stack[depth(s, i)] == i);
                            assert(depth(s, i) != len - 1);
                            assert forall|m: int| i < m <= k + 1 implies #[trigger] depth(s, m)
                                > depth(s, i) by {
                                if m <= k {
                                    assert(open_through(s, i, k as int));
                                }
                            }
                        } else {
                            assert(old_table[i] == table@[i]);
                        }
                    }
                }
                assert forall|j: int| 0 <= j < k + 1 && is_loop_end(s, j) implies closes(
                    s,
                    #[trigger] table@[j] as int,
                    j,
                ) by {
                    if j < k {
                        assert(old_table[j] == table@[j]);
                    }
                }
            },
            _ => {
                table.push(k);
                assert forall|i: int|
                    0 <= i < k + 1 && #[trigger] open_through(s, i, k + 1) implies {
                    &&& depth(s, i) < stack@.len()
                    &&& stack@[depth(s, i)] == i
                } by {
                    assert(open_through(s, i, k as int));
                }
                assert forall|i: int|
                    0 <= i < k + 1 && is_loop_start(s, i) && !#[trigger] open_through(
                        s,
                        i,
                        k + 1,
                    ) implies table@[i] < k + 1 && closes(s, i, table@[i] as int) by {
                    if open_through(s, i, k as int) {
                        assert(old_stack[depth(s, i)] == i);
                    }
                }
            },
        }
        k = k + 1;
    }
    if stack.len() > 0 {
        let top = stack[stack.len() - 1];
        let ghost len = stack@.len();
        assert forall|j: int| top < j < n implies !#[trigger] open_through(s, j, n as int) by {
            if open_through(s, j, n as int) {
                assert(stack@[depth(s, j)] == j);
                if depth(s, j) < len - 1 {
                    assert(stack@[depth(s, j)] < stack@[len - 1]);
                }
            }
        }
        assert(innermost_unmatched_start(s, top as int));
        assert forall|j: int| !#[trigger] first_unmatched_end(s, j) by {
            if first_unmatched_end(s, j) {
                assert(depth(s, j + 1) >= 0);
            }
        }
        return Err(BracketError::UnmatchedStart(commands[top]));
    }
    assert forall|i: int| is_loop_start(s, i) implies closes(s, i, #[trigger] table@[i] as int) by {
        if open_through(s, i, n as int) {
            assert(stack@[depth(s, i)] == i);
        }
    }
    Ok(table)
}

} // verus!
