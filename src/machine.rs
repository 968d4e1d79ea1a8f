use vstd::prelude::*;

use crate::instruction::Instruction;
use crate::jumps::{
    build_jump_table,
    is_jump_table,
    rejects,
    lemma_encloses_unique,
    encloses,
    well_formed,
    ProgramError,
};

verus! {

/// The tape length used when the host does not choose one.
pub const DEFAULT_TAPE_LEN: usize = 100000;

/// What one step of the machine did.
#[derive(Clone, Copy, Debug, PartialEq, Eq, Structural)]
pub enum Action {
    /// An instruction ran and nothing left the machine.
    Continue,
    /// An `Output` instruction ran and emitted this byte.
    Output(u8),
    /// The instruction pointer is past the last instruction: the program is done.
    Halted,
    /// A `MoveRight` at the last cell would leave the tape; the machine did not move.
    TapeOverflow,
}

/// The abstract state of a machine.
pub struct MachineView {
    pub program: Seq<Instruction>,
    pub tape: Seq<u8>,
    pub dp: int,
    pub ip: int,
}

impl MachineView {
    /// The program is well formed, the tape has a cell under the data pointer,
    /// and the instruction pointer is at most one past the last instruction.
    pub open spec fn wf(self) -> bool {
        &&& well_formed(self.program)
        &&& 0 <= self.dp < self.tape.len()
        &&& 0 <= self.ip <= self.program.len()
    }

    /// The program has run to its end.
    pub open spec fn halted(self) -> bool {
        self.ip >= self.program.len()
    }

    /// The next instruction reads a byte of input.
    pub open spec fn wants_input(self) -> bool {
        0 <= self.ip < self.program.len() && self.program[self.ip] == Instruction::Input
    }

    /// The cell under the data pointer.
    pub open spec fn current(self) -> u8 {
        self.tape[self.dp]
    }
}

/// The partner of the loop delimiter at `i`: the `]` that closes a `[`, or the
/// `[` that a `]` closes.
pub open spec fn partner(p: Seq<Instruction>, i: int) -> int {
    if p[i] == Instruction::LoopStart {
        choose|j: int| encloses(p, i, j)
    } else {
        choose|j: int| encloses(p, j, i)
    }
}

/// A fresh machine for `program` on a tape of `tape_len` zero cells.
pub open spec fn initial(program: Seq<Instruction>, tape_len: nat) -> MachineView {
    MachineView { program, tape: Seq::new(tape_len, |k: int| 0u8), dp: 0, ip: 0 }
}

/// The byte an `Input` instruction stores: the byte read, or zero at end of input.
pub open spec fn input_byte(input: Option<u8>) -> u8 {
    match input {
        Some(b) => b,
        None => 0,
    }
}

/// One step of the machine on state `v`, with `input` as the byte handed to an
/// `Input` instruction (`None` at end of input). Gives the next state and what
/// the step did.
pub open spec fn next(v: MachineView, input: Option<u8>) -> (MachineView, Action) {
    if v.halted() {
        (v, Action::Halted)
    } else {
        let adv = MachineView { ip: v.ip + 1, ..v };
        match v.program[v.ip] {
            Instruction::MoveRight => if v.dp + 1 < v.tape.len() {
                (MachineView { dp: v.dp + 1, ..adv }, Action::Continue)
            } else {
                (v, Action::TapeOverflow)
            },
            Instruction::MoveLeft => if v.dp > 0 {
                (MachineView { dp: v.dp - 1, ..adv }, Action::Continue)
            } else {
                (adv, Action::Continue)
            },
            Instruction::Increment => (
                MachineView { tape: v.tape.update(v.dp, ((v.current() + 1) % 256) as u8), ..adv },
                Action::Continue,
            ),
            Instruction::Decrement => (
                MachineView { tape: v.tape.update(v.dp, ((v.current() - 1) % 256) as u8), ..adv },
                Action::Continue,
            ),
            Instruction::Output => (adv, Action::Output(v.current())),
            Instruction::Input => (
                MachineView { tape: v.tape.update(v.dp, input_byte(input)), ..adv },
                Action::Continue,
            ),
            Instruction::LoopStart => if v.current() == 0 {
                (MachineView { ip: partner(v.program, v.ip) + 1, ..v }, Action::Continue)
            } else {
                (adv, Action::Continue)
            },
            Instruction::LoopEnd => if v.current() != 0 {
                (MachineView { ip: partner(v.program, v.ip) + 1, ..v }, Action::Continue)
            } else {
                (adv, Action::Continue)
            },
        }
    }
}

/// The jump table entry of a loop delimiter is its partner.
proof fn lemma_table_partner(p: Seq<Instruction>, t: Seq<usize>, i: int)
    requires
        is_jump_table(p, t),
        0 <= i < p.len(),
        p[i] == Instruction::LoopStart || p[i] == Instruction::LoopEnd,
    ensures
        partner(p, i) == t[i] as int,
        0 <= t[i] < p.len(),
{
    if p[i] == Instruction::LoopStart {
        let j = choose|j: int| encloses(p, i, j);
        assert(encloses(p, i, t[i] as int));
        lemma_encloses_unique(p, i, j, i, t[i] as int);
    } else {
        let j = choose|j: int| encloses(p, j, i);
        assert(encloses(p, t[i] as int, i));
        lemma_encloses_unique(p, j, i, t[i] as int, i);
    }
}

/// An interpreter instance: the instructions, their jump table, the tape and
/// the two pointers. Instances share nothing.
pub struct Machine {
    program: Vec<Instruction>,
    jumps: Vec<usize>,
    tape: Vec<u8>,
    dp: usize,
    ip: usize,
}

impl View for Machine {
    type V = MachineView;

    closed spec fn view(&self) -> MachineView {
        MachineView {
            program: self.program@,
            tape: self.tape@,
            dp: self.dp as int,
            ip: self.ip as int,
        }
    }
}

impl Machine {
    /// The machine's own invariant: its view is well formed and it holds the
    /// jump table of its program.
    pub closed spec fn wf(&self) -> bool {
        &&& self@.wf()
        &&& is_jump_table(self.program@, self.jumps@)
    }

    /// Builds a machine for `program` with a tape of `tape_len` zero cells.
    /// The loop delimiters are paired here, before any instruction runs: a
    /// program whose delimiters do not balance is refused with the error that
    /// the resolver gives.
    pub fn new(program: Vec<Instruction>, tape_len: usize) -> (r: Result<Machine, ProgramError>)
        requires
            tape_len > 0,
        ensures
            r is Ok <==> well_formed(program@),
            match r {
                Ok(m) => m.wf() && m@ == initial(program@, tape_len as nat),
                Err(e) => rejects(program@, e),
            },
    {
        match build_jump_table(&program) {
            Err(e) => Err(e),
            Ok(jumps) => {
                let mut tape: Vec<u8> = Vec::new();
                let mut k: usize = 0;
                while k < tape_len
                    invariant
                        k <= tape_len,
                        tape@ == Seq::new(k as nat, |j: int| 0u8),
                    decreases tape_len - k,
                {
                    tape.push(0);
                    k = k + 1;
                }
                Ok(Machine { program, jumps, tape, dp: 0, ip: 0 })
            },
        }
    }

    /// Whether the next instruction reads a byte of input. A host asks this
    /// before each step and reads a byte only when it is true.
    pub fn needs_input(&self) -> (r: bool)
        requires
            self.wf(),
        ensures
            r == self@.wants_input(),
    {
        self.ip < self.program.len() && self.program[self.ip] == Instruction::Input
    }

    /// Whether the program has run to its end.
    pub fn is_halted(&self) -> (r: bool)
        requires
            self.wf(),
        ensures
            r == self@.halted(),
    {
        self.ip >= self.program.len()
    }

    /// Runs the instruction under the instruction pointer. `input` is the byte
    /// for an `Input` instruction (`None` at end of input, which stores zero);
    /// other instructions ignore it.
    pub fn step(&mut self, input: Option<u8>) -> (r: Action)
        requires
            old(self).wf(),
        ensures
            final(self).wf(),
            (final(self)@, r) == next(old(self)@, input),
    {
        if self.ip >= self.program.len() {
            return Action::Halted;
        }
        let ip = self.ip;
        let dp = self.dp;
        match self.program[ip] {
            Instruction::MoveRight => {
                if dp >= self.tape.len() - 1 {
                    return Action::TapeOverflow;
                }
                self.dp = dp + 1;
            },
            Instruction::MoveLeft => {
                if dp > 0 {
                    self.dp = dp - 1;
                }
            },
            Instruction::Increment => {
                let c = self.tape[dp];
                self.tape.set(dp, c.wrapping_add(1));
            },
            Instruction::Decrement => {
                let c = self.tape[dp];
                self.tape.set(dp, c.wrapping_sub(1));
            },
            Instruction::Output => {
                self.ip = ip + 1;
                return Action::Output(self.tape[dp]);
            },
            Instruction::Input => {
                let b = match input {
                    Some(b) => b,
                    None => 0,
                };
                self.tape.set(dp, b);
            },
            Instruction::LoopStart => {
                proof {
                    lemma_table_partner(self.program@, self.jumps@, ip as int);
                }
                if self.tape[dp] == 0 {
                    self.ip = self.jumps[ip] + 1;
                    return Action::Continue;
                }
            },
            Instruction::LoopEnd => {
                proof {
                    lemma_table_partner(self.program@, self.jumps@, ip as int);
                }
                if self.tape[dp] != 0 {
                    self.ip = self.jumps[ip] + 1;
                    return Action::Continue;
                }
            },
        }
        self.ip = ip + 1;
        Action::Continue
    }

    /// The data pointer: the index of the current cell.
    pub fn data_pointer(&self) -> (r: usize)
        ensures
            r == self@.dp,
    {
        self.dp
    }

    /// The instruction pointer: the index of the next instruction to run.
    pub fn instruction_pointer(&self) -> (r: usize)
        ensures
            r == self@.ip,
    {
        self.ip
    }

    /// The number of cells on the tape.
    pub fn tape_len(&self) -> (r: usize)
        ensures
            r == self@.tape.len(),
    {
        self.tape.len()
    }

    /// The value of cell `k`.
    pub fn cell(&self, k: usize) -> (r: u8)
        requires
            k < self@.tape.len(),
        ensures
            r == self@.tape[k as int],
    {
        self.tape[k]
    }

    /// The value of the cell under the data pointer.
    pub fn current_cell(&self) -> (r: u8)
        requires
            self.wf(),
        ensures
            r == self@.current(),
    {
        self.tape[self.dp]
    }

    /// The instruction sequence the machine runs.
    pub fn program(&self) -> (r: &Vec<Instruction>)
        ensures
            r@ == self@.program,
    {
        &self.program
    }
}


/// Cell arithmetic wraps modulo 256: incrementing a cell that holds 255 leaves
/// 0 there, decrementing a cell that holds 0 leaves 255, and every other value
/// moves by exactly one.
pub proof fn lemma_cell_wraps(v: MachineView, input: Option<u8>)
    requires
        v.wf(),
        !v.halted(),
    ensures
        v.program[v.ip] == Instruction::Increment ==> next(v, input).0.current() == (if v.current()
            == 255 {
            0
        } else {
            v.current() + 1
        }),
        v.program[v.ip] == Instruction::Decrement ==> next(v, input).0.current() == (if v.current()
            == 0 {
            255
        } else {
            v.current() - 1
        }),
{
}

/// Moving left from cell 0 stays at cell 0: the step succeeds, the data
/// pointer does not wrap, and execution goes on with the next instruction.
pub proof fn lemma_move_left_at_zero(v: MachineView, input: Option<u8>)
    requires
        v.wf(),
        !v.halted(),
        v.program[v.ip] == Instruction::MoveLeft,
        v.dp == 0,
    ensures
        next(v, input).0.dp == 0,
        next(v, input).0.ip == v.ip + 1,
        next(v, input).1 == Action::Continue,
{
}

} // verus!
