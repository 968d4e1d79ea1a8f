use vstd::prelude::*;

verus! {

/// One instruction of the language. It carries no payload: the tag is all.
#[derive(Clone, Copy, Debug, PartialEq, Eq, Structural)]
pub enum Instruction {
    /// `>`: move the data pointer one cell to the right.
    MoveRight,
    /// `<`: move the data pointer one cell to the left, staying put at cell 0.
    MoveLeft,
    /// `+`: add one to the current cell, modulo 256.
    Increment,
    /// `-`: subtract one from the current cell, modulo 256.
    Decrement,
    /// `.`: emit the current cell as one byte.
    Output,
    /// `,`: read one byte into the current cell.
    Input,
    /// `[`: skip past the matching `]` when the current cell is zero.
    LoopStart,
    /// `]`: go back past the matching `[` when the current cell is not zero.
    LoopEnd,
}

/// The instruction a source character stands for, if it is one of the eight symbols.
pub open spec fn symbol_instruction(c: char) -> Option<Instruction> {
    if c == '>' {
        Some(Instruction::MoveRight)
    } else if c == '<' {
        Some(Instruction::MoveLeft)
    } else if c == '+' {
        Some(Instruction::Increment)
    } else if c == '-' {
        Some(Instruction::Decrement)
    } else if c == '.' {
        Some(Instruction::Output)
    } else if c == ',' {
        Some(Instruction::Input)
    } else if c == '[' {
        Some(Instruction::LoopStart)
    } else if c == ']' {
        Some(Instruction::LoopEnd)
    } else {
        None
    }
}

/// Whether a character belongs to the eight-symbol alphabet.
pub open spec fn is_symbol(c: char) -> bool {
    c == '>' || c == '<' || c == '+' || c == '-' || c == '.' || c == ',' || c == '['
        || c == ']'
}

/// Maps a source character to its instruction, or `None` for any other character.
pub fn instruction_of(c: char) -> (r: Option<Instruction>)
    ensures
        r == symbol_instruction(c),
        r is Some <==> is_symbol(c),
{
    match c {
        '>' => Some(Instruction::MoveRight),
        '<' => Some(Instruction::MoveLeft),
        '+' => Some(Instruction::Increment),
        '-' => Some(Instruction::Decrement),
        '.' => Some(Instruction::Output),
        ',' => Some(Instruction::Input),
        '[' => Some(Instruction::LoopStart),
        ']' => Some(Instruction::LoopEnd),
        _ => None,
    }
}

} // verus!
