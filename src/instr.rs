//! The eight instructions of the source language and how bytes map to them.
use vstd::prelude::*;

verus! {

/// One instruction of the source language.
#[derive(Clone, Copy, Debug, PartialEq, Eq)]
pub enum Instr {
    /// `+`: add one to the current cell, modulo 256.
    Inc,
    /// `-`: subtract one from the current cell, modulo 256.
    Dec,
    /// `<`: select the neighbouring cell on one side.
    Left,
    /// `>`: select the neighbouring cell on the other side.
    Right,
    /// `.`: write the current cell to standard output.
    Output,
    /// `,`: read one byte from standard input into the current cell.
    Input,
    /// `[`: start of a loop.
    LoopStart,
    /// `]`: end of a loop.
    LoopEnd,
}

/// The instruction that a source byte stands for; every other byte is a comment.
pub open spec fn decode(b: u8) -> Option<Instr> {
    if b == 43 {
        Some(Instr::Inc)
    } else if b == 45 {
        Some(Instr::Dec)
    } else if b == 60 {
        Some(Instr::Left)
    } else if b == 62 {
        Some(Instr::Right)
    } else if b == 46 {
        Some(Instr::Output)
    } else if b == 44 {
        Some(Instr::Input)
    } else if b == 91 {
        Some(Instr::LoopStart)
    } else if b == 93 {
        Some(Instr::LoopEnd)
    } else {
        None
    }
}

/// Decodes one source byte.
pub fn decode_byte(b: u8) -> (r: Option<Instr>)
    ensures
        r == decode(b),
{
    match b {
        43u8 => Some(Instr::Inc),
        45u8 => Some(Instr::Dec),
        60u8 => Some(Instr::Left),
        62u8 => Some(Instr::Right),
        46u8 => Some(Instr::Output),
        44u8 => Some(Instr::Input),
        91u8 => Some(Instr::LoopStart),
        93u8 => Some(Instr::LoopEnd),
        _ => None,
    }
}

} // verus!
