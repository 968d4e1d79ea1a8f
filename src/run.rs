use vstd::prelude::*;

use crate::jumps::{rejects, well_formed, ProgramError};
use crate::machine::{initial, next, Action, Machine, MachineView};
use crate::tokenizer::{precompile, tokenize};

verus! {

/// Why a run stopped.
#[derive(Clone, Copy, Debug, PartialEq, Eq, Structural)]
pub enum Stop {
    /// The instruction pointer reached the end of the program.
    Halted,
    /// A `MoveRight` at the last cell would have left the tape.
    TapeOverflow,
    /// The step budget ran out before the program ended.
    OutOfSteps,
}

/// The outcome of running a whole program: the machine as the run left it,
/// the bytes it emitted in order, and why it stopped.
pub struct Run {
    pub machine: Machine,
    pub output: Vec<u8>,
    pub stop: Stop,
}

/// Runs the machine from state `v` for at most `fuel` steps, feeding `Input`
/// instructions from `input` in order (zero once it is used up). Gives the
/// final state, the bytes emitted, and why the run stopped.
pub open spec fn run(v: MachineView, input: Seq<u8>, fuel: nat) -> (MachineView, Seq<u8>, Stop)
    decreases fuel,
{
    if v.halted() {
        (v, Seq::empty(), Stop::Halted)
    } else if fuel == 0 {
        (v, Seq::empty(), Stop::OutOfSteps)
    } else {
        let reads = v.wants_input() && input.len() > 0;
        let byte = if reads {
            Some(input[0])
        } else {
            None
        };
        let rest = if reads {
            input.drop_first()
        } else {
            input
        };
        let (w, a) = next(v, byte);
        match a {
            Action::TapeOverflow => (w, Seq::empty(), Stop::TapeOverflow),
            Action::Output(b) => {
                let tail = run(w, rest, (fuel - 1) as nat);
                (tail.0, seq![b] + tail.1, tail.2)
            },
            _ => run(w, rest, (fuel - 1) as nat),
        }
    }
}

/// `r` with `out` put in front of its output.
pub open spec fn after_output(out: Seq<u8>, r: (MachineView, Seq<u8>, Stop)) -> (
    MachineView,
    Seq<u8>,
    Stop,
) {
    (r.0, out + r.1, r.2)
}

/// Tokenizes `source`, pairs its loop delimiters, and runs it on a tape of
/// `tape_len` zero cells for at most `max_steps` steps, reading `input` for
/// `Input` instructions. A program with unbalanced loop delimiters is refused
/// before any instruction runs.
pub fn execute(source: String, input: &Vec<u8>, tape_len: usize, max_steps: u64) -> (r: Result<
    Run,
    ProgramError,
>)
    requires
        tape_len > 0,
    ensures
        r is Ok <==> well_formed(tokenize(source@)),
        match r {
            Ok(res) => res.machine.wf() && (res.machine@, res.output@, res.stop) == run(
                initial(tokenize(source@), tape_len as nat),
                input@,
                max_steps as nat,
            ),
            Err(e) => rejects(tokenize(source@), e),
        },
{
    let ghost prog = tokenize(source@);
    let mut m = match Machine::new(precompile(source), tape_len) {
        Ok(m) => m,
        Err(e) => return Err(e),
    };
    let ghost v0 = m@;
    let mut output: Vec<u8> = Vec::new();
    let mut pos: usize = 0;
    let mut fuel: u64 = max_steps;
    proof {
        assert(input@.skip(0) =~= input@);
        let whole = run(v0, input@, max_steps as nat);
        assert(Seq::<u8>::empty() + whole.1 =~= whole.1);
    }
    loop
        invariant
            prog == tokenize(source@),
            well_formed(prog),
            v0 == initial(prog, tape_len as nat),
            m.wf(),
            pos <= input.len(),
            run(v0, input@, max_steps as nat) == after_output(
                output@,
                run(m@, input@.skip(pos as int), fuel as nat),
            ),
        decreases fuel,
    {
        if m.is_halted() {
            proof {
                assert(output@ + Seq::<u8>::empty() =~= output@);
            }
            return Ok(Run { machine: m, output, stop: Stop::Halted });
        }
        if fuel == 0 {
            proof {
                assert(output@ + Seq::<u8>::empty() =~= output@);
            }
            return Ok(Run { machine: m, output, stop: Stop::OutOfSteps });
        }
        let ghost rest0 = input@.skip(pos as int);
        let ghost before = m@;
        let byte = if m.needs_input() && pos < input.len() {
            let b = input[pos];
            pos = pos + 1;
            proof {
                assert(rest0.drop_first() =~= input@.skip(pos as int));
            }
            Some(b)
        } else {
            None
        };
        let a = m.step(byte);
        fuel = fuel - 1;
        match a {
            Action::TapeOverflow => {
                proof {
                    assert(output@ + Seq::<u8>::empty() =~= output@);
                }
                return Ok(Run { machine: m, output, stop: Stop::TapeOverflow });
            },
            Action::Output(b) => {
                proof {
                    let tail = run(m@, input@.skip(pos as int), fuel as nat);
                    assert(output@ + (seq![b] + tail.1) =~= output@.push(b) + tail.1);
                }
                output.push(b);
            },
            _ => {},
        }
    }
}

} // verus!
