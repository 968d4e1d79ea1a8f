use bfi::instruction::{instruction_of, Instruction};
use bfi::jumps::{build_jump_table, ProgramError};
use bfi::machine::{Action, Machine, DEFAULT_TAPE_LEN};
use bfi::run::{execute, Stop};
use bfi::tokenizer::precompile;

fn machine_for(source: &str, tape_len: usize) -> Machine {
    Machine::new(precompile(source.to_string()), tape_len).unwrap()
}

#[test]
fn tokenizer_maps_each_symbol() {
    let got = precompile("><+-.,[]".to_string());
    assert_eq!(
        got,
        vec![
            Instruction::MoveRight,
            Instruction::MoveLeft,
            Instruction::Increment,
            Instruction::Decrement,
            Instruction::Output,
            Instruction::Input,
            Instruction::LoopStart,
            Instruction::LoopEnd,
        ]
    );
}

#[test]
fn tokenizer_skips_other_characters() {
    let source = "add + one, then\n print it. [loop] é ->";
    let got = precompile(source.to_string());
    let symbols = source.chars().filter(|c| "><+-.,[]".contains(*c)).count();
    assert_eq!(got.len(), symbols);
    assert_eq!(
        got,
        vec![
            Instruction::Increment,
            Instruction::Input,
            Instruction::Output,
            Instruction::LoopStart,
            Instruction::LoopEnd,
            Instruction::Decrement,
            Instruction::MoveRight,
        ]
    );
}

#[test]
fn tokenizer_empty_and_comment_only() {
    assert!(precompile(String::new()).is_empty());
    assert!(precompile("hello world".to_string()).is_empty());
}

#[test]
fn instruction_of_rejects_non_symbols() {
    assert_eq!(instruction_of('['), Some(Instruction::LoopStart));
    assert_eq!(instruction_of('a'), None);
    assert_eq!(instruction_of(' '), None);
}

#[test]
fn jump_table_pairs_nested_loops() {
    let program = precompile("[[]][]".to_string());
    let table = build_jump_table(&program).unwrap();
    assert_eq!(table, vec![3, 2, 1, 0, 5, 4]);
    for i in 0..table.len() {
        assert_eq!(table[table[i]], i);
    }
}

#[test]
fn jump_table_maps_other_instructions_to_themselves() {
    let program = precompile("+[-]".to_string());
    let table = build_jump_table(&program).unwrap();
    assert_eq!(table, vec![0, 3, 2, 1]);
}

#[test]
fn jump_table_of_empty_program() {
    let table = build_jump_table(&Vec::new()).unwrap();
    assert!(table.is_empty());
}

#[test]
fn jump_table_rejects_unmatched_end() {
    let program = precompile("+]".to_string());
    assert_eq!(build_jump_table(&program), Err(ProgramError::UnmatchedLoopEnd(1)));
    let program = precompile("[]][".to_string());
    assert_eq!(build_jump_table(&program), Err(ProgramError::UnmatchedLoopEnd(2)));
}

#[test]
fn jump_table_rejects_unmatched_start() {
    let program = precompile("[+".to_string());
    assert_eq!(build_jump_table(&program), Err(ProgramError::UnmatchedLoopStart));
    let program = precompile("[[]".to_string());
    assert_eq!(build_jump_table(&program), Err(ProgramError::UnmatchedLoopStart));
}

#[test]
fn three_increments_output_three() {
    let run = execute("+++.".to_string(), &Vec::new(), DEFAULT_TAPE_LEN, 1000).unwrap();
    assert_eq!(run.output, vec![3]);
    assert_eq!(run.stop, Stop::Halted);
}

#[test]
fn loop_runs_once_and_ends_at_zero() {
    let run = execute("+[-]".to_string(), &Vec::new(), DEFAULT_TAPE_LEN, 4).unwrap();
    assert_eq!(run.stop, Stop::Halted);
    assert_eq!(run.machine.cell(0), 0);
    assert!(run.output.is_empty());
}

#[test]
fn eight_times_eight_outputs_sixty_four() {
    let run = execute(
        "++++++++[>++++++++<-]>.".to_string(),
        &Vec::new(),
        DEFAULT_TAPE_LEN,
        10000,
    )
    .unwrap();
    assert_eq!(run.output, vec![64]);
    assert_eq!(run.stop, Stop::Halted);
    assert_eq!(run.machine.cell(0), 0);
    assert_eq!(run.machine.data_pointer(), 1);
}

#[test]
fn decrement_at_zero_wraps_to_255() {
    let mut m = machine_for("-", 10);
    assert_eq!(m.step(None), Action::Continue);
    assert_eq!(m.current_cell(), 255);
}

#[test]
fn increment_at_255_wraps_to_zero() {
    let mut m = machine_for("-+", 10);
    m.step(None);
    assert_eq!(m.current_cell(), 255);
    assert_eq!(m.step(None), Action::Continue);
    assert_eq!(m.current_cell(), 0);
    let run = execute("+".repeat(256), &Vec::new(), 1, 1000).unwrap();
    assert_eq!(run.machine.cell(0), 0);
}

#[test]
fn unmatched_start_is_rejected_before_running() {
    let got = execute("[+".to_string(), &Vec::new(), DEFAULT_TAPE_LEN, 1000);
    assert!(matches!(got, Err(ProgramError::UnmatchedLoopStart)));
    let got = execute(".+.[".to_string(), &Vec::new(), DEFAULT_TAPE_LEN, 1000);
    assert!(matches!(got, Err(ProgramError::UnmatchedLoopStart)));
    assert!(Machine::new(precompile("[+".to_string()), 10).is_err());
}

#[test]
fn unmatched_end_is_rejected_before_running() {
    let got = execute(".]".to_string(), &Vec::new(), DEFAULT_TAPE_LEN, 1000);
    assert!(matches!(got, Err(ProgramError::UnmatchedLoopEnd(1))));
}

#[test]
fn move_left_at_zero_stays_at_zero() {
    let mut m = machine_for("<<+", 10);
    assert_eq!(m.step(None), Action::Continue);
    assert_eq!(m.data_pointer(), 0);
    assert_eq!(m.instruction_pointer(), 1);
    assert_eq!(m.step(None), Action::Continue);
    assert_eq!(m.step(None), Action::Continue);
    assert_eq!(m.data_pointer(), 0);
    assert_eq!(m.cell(0), 1);
    assert_eq!(m.cell(9), 0);
}

#[test]
fn move_right_past_last_cell_overflows() {
    let mut m = machine_for(">>", 2);
    assert_eq!(m.step(None), Action::Continue);
    assert_eq!(m.data_pointer(), 1);
    assert_eq!(m.step(None), Action::TapeOverflow);
    assert_eq!(m.data_pointer(), 1);
    assert_eq!(m.instruction_pointer(), 1);
    let run = execute(">>.".to_string(), &Vec::new(), 2, 100).unwrap();
    assert_eq!(run.stop, Stop::TapeOverflow);
    assert!(run.output.is_empty());
}

#[test]
fn step_reports_output_and_halt() {
    let mut m = machine_for("+.", 4);
    assert!(!m.is_halted());
    assert_eq!(m.step(None), Action::Continue);
    assert_eq!(m.step(None), Action::Output(1));
    assert!(m.is_halted());
    assert_eq!(m.step(None), Action::Halted);
    assert_eq!(m.tape_len(), 4);
    assert_eq!(m.program().len(), 2);
}

#[test]
fn input_stores_byte_and_zero_at_end() {
    let mut m = machine_for("+,,", 4);
    assert!(!m.needs_input());
    m.step(None);
    assert!(m.needs_input());
    assert_eq!(m.step(Some(65)), Action::Continue);
    assert_eq!(m.current_cell(), 65);
    assert_eq!(m.step(None), Action::Continue);
    assert_eq!(m.current_cell(), 0);
}

#[test]
fn echo_until_end_of_input() {
    let run = execute(",[.,]".to_string(), &b"hi".to_vec(), 8, 1000).unwrap();
    assert_eq!(run.output, b"hi".to_vec());
    assert_eq!(run.stop, Stop::Halted);
}

#[test]
fn endless_loop_runs_out_of_steps() {
    let run = execute("+[]".to_string(), &Vec::new(), 8, 100).unwrap();
    assert_eq!(run.stop, Stop::OutOfSteps);
    assert_eq!(run.machine.cell(0), 1);
}

#[test]
fn zero_cell_skips_loop_body() {
    let run = execute("[.+]+.".to_string(), &Vec::new(), 8, 100).unwrap();
    assert_eq!(run.output, vec![1]);
    assert_eq!(run.stop, Stop::Halted);
}
