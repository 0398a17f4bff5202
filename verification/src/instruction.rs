//! The instruction set.

use vstd::prelude::*;

verus! {

/// One operation of the tape language.
#[derive(Clone, Copy, Debug, PartialEq, Eq, Structural)]
pub enum Instruction {
    /// `>`: move the head one cell to the right.
    MoveRight,
    /// `<`: move the head one cell to the left.
    MoveLeft,
    /// `+`: add one to the cell under the head, wrapping at 255.
    Increment,
    /// `-`: subtract one from the cell under the head, wrapping at 0.
    Decrement,
    /// `.`: emit the cell under the head.
    Output,
    /// `,`: store the next input byte in the cell under the head.
    Input,
    /// `[`: jump forward if the cell under the head is zero.
    LoopOpen,
    /// `]`: jump backward if the cell under the head is not zero.
    LoopClose,
}

/// The instruction that a source character stands for, if any.
pub open spec fn decode(c: char) -> Option<Instruction> {
    if c == '>' {
        Some(Instruction::MoveRight)
    } else if c == '<' {
        Some(Instruction::MoveLeft)
    } else if c == '+' {
        Some(Instruction::Increment)
    } else if c == '-' {
        Some(Instruction::Decrement)
    } else if c == '.' {
        Some(Instruction::Output)
    } else if c == ',' {
        Some(Instruction::Input)
    } else if c == '[' {
        Some(Instruction::LoopOpen)
    } else if c == ']' {
        Some(Instruction::LoopClose)
    } else {
        None
    }
}

impl Instruction {
    /// Reads one source character.
    pub fn from_char(c: char) -> (r: Option<Instruction>)
        ensures
            r == decode(c),
    {
        match c {
            '>' => Some(Instruction::MoveRight),
            '<' => Some(Instruction::MoveLeft),
            '+' => Some(Instruction::Increment),
            '-' => Some(Instruction::Decrement),
            '.' => Some(Instruction::Output),
            ',' => Some(Instruction::Input),
            '[' => Some(Instruction::LoopOpen),
            ']' => Some(Instruction::LoopClose),
            _ => None,
        }
    }
}

} // verus!
