use vstd::prelude::*;

use crate::instruction::Instruction;

verus! {

/// Why a program's loop delimiters cannot be paired.
#[derive(Clone, Copy, Debug, PartialEq, Eq, Structural)]
pub enum ProgramError {
    /// A `]` at this instruction index closes no open `[`.
    UnmatchedLoopEnd(usize),
    /// At least one `[` is still open at the end of the program.
    UnmatchedLoopStart,
}

/// How an instruction changes the loop nesting depth.
pub open spec fn depth_step(ins: Instruction) -> int {
    match ins {
        Instruction::LoopStart => 1,
        Instruction::LoopEnd => -1,
        _ => 0,
    }
}

/// The nesting depth before instruction `k`: the number of `[` minus the
/// number of `]` among the first `k` instructions.
pub open spec fn depth(p: Seq<Instruction>, k: int) -> int
    decreases k,
{
    if k <= 0 {
        0
    } else {
        depth(p, k - 1) + depth_step(p[k - 1])
    }
}

/// Whether instruction `i` is a loop delimiter.
pub open spec fn is_loop(p: Seq<Instruction>, i: int) -> bool {
    p[i] == Instruction::LoopStart || p[i] == Instruction::LoopEnd
}

/// The loop delimiters are balanced and properly nested: no prefix closes more
/// loops than it opens, and the whole program closes every loop it opens.
pub open spec fn well_formed(p: Seq<Instruction>) -> bool {
    &&& never_negative(p, p.len() as int)
    &&& depth(p, p.len() as int) == 0
}

/// The `[` at `i` and the `]` at `j` enclose each other: every point strictly
/// inside is nested deeper than the `[`, and after the `]` the depth is back.
pub open spec fn encloses(p: Seq<Instruction>, i: int, j: int) -> bool {
    &&& 0 <= i < j < p.len()
    &&& p[i] == Instruction::LoopStart
    &&& p[j] == Instruction::LoopEnd
    &&& depth(p, j + 1) == depth(p, i)
    &&& forall|k: int| i < k <= j ==> depth(p, k) > depth(p, i)
}

/// A jump table for `p`: one entry per instruction; each `[` maps to its `]`,
/// each `]` to its `[`, and every other instruction to itself.
pub open spec fn is_jump_table(p: Seq<Instruction>, t: Seq<usize>) -> bool {
    &&& t.len() == p.len()
    &&& forall|i: int|
        0 <= i < p.len() ==> {
            &&& (p[i] == Instruction::LoopStart ==> encloses(p, i, #[trigger] t[i] as int))
            &&& (p[i] == Instruction::LoopEnd ==> encloses(p, t[i] as int, i))
            &&& (!is_loop(p, i) ==> t[i] == i)
        }
}

/// Whether every prefix of `p` up to length `k` has a non-negative depth.
pub open spec fn never_negative(p: Seq<Instruction>, k: int) -> bool {
    forall|m: int| 0 <= m <= k ==> depth(p, m) >= 0
}

/// Instruction `k` is the first `]` that closes no open `[`: the depth is
/// non-negative up to it and falls below zero right after it.
pub open spec fn first_negative(p: Seq<Instruction>, k: int) -> bool {
    &&& 0 <= k < p.len()
    &&& never_negative(p, k)
    &&& depth(p, k + 1) < 0
}

/// The error `e` describes `p`: `UnmatchedLoopEnd(k)` names the first `]`
/// that closes nothing; `UnmatchedLoopStart` means that no `]` is unmatched but
/// some `[` is still open at the end.
pub open spec fn rejects(p: Seq<Instruction>, e: ProgramError) -> bool {
    match e {
        ProgramError::UnmatchedLoopEnd(k) => first_negative(p, k as int),
        ProgramError::UnmatchedLoopStart => never_negative(p, p.len() as int) && depth(
            p,
            p.len() as int,
        ) > 0,
    }
}

/// Pairs every loop delimiter of `program` with its partner in one left-to-right
/// scan with a stack of open `[` indices.
/// Fails with `UnmatchedLoopEnd(k)` at the first `]` that closes nothing, and
/// with `UnmatchedLoopStart` when a `[` is still open at the end.
pub fn build_jump_table(program: &Vec<Instruction>) -> (r: Result<Vec<usize>, ProgramError>)
    ensures
        r is Ok <==> well_formed(program@),
        match r {
            Ok(t) => is_jump_table(program@, t@),
            Err(e) => rejects(program@, e),
        },
{
    let ghost p = program@;
    let n = program.len();
    let mut table: Vec<usize> = Vec::new();
    let mut i: usize = 0;
    while i < n
        invariant
            n == p.len(),
            i <= n,
            table.len() == i,
            forall|j: int| 0 <= j < i ==> table[j] == j,
        decreases n - i,
    {
        table.push(i);
        i = i + 1;
    }
    let mut stack: Vec<usize> = Vec::new();
    let mut k: usize = 0;
    while k < n
        invariant
            p == program@,
            n == p.len(),
            k <= n,
            table.len() == n,
            stack.len() == depth(p, k as int),
            never_negative(p, k as int),
            forall|m: int|
                #![trigger stack[m]]
                0 <= m < stack.len() ==> {
                    &&& stack[m] < k
                    &&& p[stack[m] as int] == Instruction::LoopStart
                    &&& depth(p, stack[m] as int) == m
                    &&& forall|q: int| stack[m] < q <= k ==> #[trigger] depth(p, q) > m
                },
            forall|i: int|
                #![trigger table[i]]
                0 <= i < n ==> {
                    &&& (k <= i || !is_loop(p, i)) ==> table[i] == i
                    &&& (i < k && p[i] == Instruction::LoopEnd) ==> encloses(p, table[i] as int, i)
                    &&& (i < k && p[i] == Instruction::LoopStart) ==> if (forall|q: int|
                        i < q <= k ==> #[trigger] depth(p, q) > depth(p, i)) {
                        depth(p, i) < stack.len() && stack[depth(p, i)] == i
                    } else {
                        encloses(p, i, table[i] as int) && table[i] < k
                    }
                },
        decreases n - k,
    {
        match program[k] {
            Instruction::LoopStart => {
                stack.push(k);
            },
            Instruction::LoopEnd => {
                if stack.len() == 0 {
                    assert(depth(p, k + 1) < 0);
                    return Err(ProgramError::UnmatchedLoopEnd(k));
                }
                let s = stack.pop().unwrap();
                table.set(s, k);
                table.set(k, s);
            },
            _ => {},
        }
        k = k + 1;
    }
    if stack.len() > 0 {
        return Err(ProgramError::UnmatchedLoopStart);
    }
    Ok(table)
}


/// A `]` is closed by at most one `[`, and a `[` is closed by at most one `]`.
pub proof fn lemma_encloses_unique(p: Seq<Instruction>, i1: int, j1: int, i2: int, j2: int)
    requires
        encloses(p, i1, j1),
        encloses(p, i2, j2),
        i1 == i2 || j1 == j2,
    ensures
        i1 == i2 && j1 == j2,
{
    if i1 == i2 {
        if j1 < j2 {
            assert(depth(p, j1 + 1) > depth(p, i2));
        } else if j2 < j1 {
            assert(depth(p, j2 + 1) > depth(p, i1));
        }
    } else if i1 < i2 {
        assert(depth(p, i2) > depth(p, i1));
    } else {
        assert(depth(p, i1) > depth(p, i2));
    }
}

/// Following a jump twice leads back: for every instruction index `i` of a
/// well-formed program, `t[t[i]] == i`, so the table pairs each loop delimiter
/// with its partner and back.
pub proof fn lemma_jump_involution(p: Seq<Instruction>, t: Seq<usize>, i: int)
    requires
        well_formed(p),
        is_jump_table(p, t),
        0 <= i < p.len(),
    ensures
        0 <= t[i] < p.len(),
        t[t[i] as int] == i,
        is_loop(p, i) ==> is_loop(p, t[i] as int),
{
    let j = t[i] as int;
    if p[i] == Instruction::LoopStart {
        assert(p[j] == Instruction::LoopEnd);
        lemma_encloses_unique(p, i, j, t[j] as int, j);
    } else if p[i] == Instruction::LoopEnd {
        assert(p[j] == Instruction::LoopStart);
        lemma_encloses_unique(p, j, i, j, t[j] as int);
    }
}


/// Scanning right from a `[` at `i` while the depth stays above its own, the
/// first point that drops back to the `[`'s depth comes right after its `]`.
proof fn lemma_find_close(p: Seq<Instruction>, i: int, k: int)
    requires
        0 <= i < k <= p.len(),
        p[i] == Instruction::LoopStart,
        depth(p, p.len() as int) <= depth(p, i),
        forall|q: int| i < q < k ==> depth(p, q) > depth(p, i),
    ensures
        exists|j: int| encloses(p, i, j),
    decreases p.len() - k,
{
    if depth(p, k) <= depth(p, i) {
        assert(k - 1 > i);
        assert(depth(p, k - 1) > depth(p, i));
        assert(encloses(p, i, k - 1));
    } else {
        lemma_find_close(p, i, k + 1);
    }
}

/// A program with a `[` that no `]` closes is not well formed, so it is
/// refused before it runs.
pub proof fn lemma_unclosed_start_rejected(p: Seq<Instruction>, i: int)
    requires
        0 <= i < p.len(),
        p[i] == Instruction::LoopStart,
        forall|j: int| !encloses(p, i, j),
    ensures
        !well_formed(p),
{
    if well_formed(p) {
        assert(depth(p, i) >= 0);
        lemma_find_close(p, i, i + 1);
    }
}

} // verus!
