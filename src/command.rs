//! The instruction vocabulary and position-tagged instructions.

use vstd::prelude::*;

verus! {

/// One of the eight commands of the language.
#[derive(Debug, Clone, Copy, PartialEq, Eq, Structural)]
pub enum BFCommand {
    /// `>`
    IncrementPointer,
    /// `<`
    DecrementPointer,
    /// `+`
    IncrementByte,
    /// `-`
    DecrementByte,
    /// `.`
    OutputByte,
    /// `,`
    InputByte,
    /// `[`
    IfZeroJumpForward,
    /// `]`
    IfNonZeroJumpBack,
}

/// The command that a source character stands for, if any.
pub open spec fn command_of(c: char) -> Option<BFCommand> {
    if c == '>' {
        Some(BFCommand::IncrementPointer)
    } else if c == '<' {
        Some(BFCommand::DecrementPointer)
    } else if c == '+' {
        Some(BFCommand::IncrementByte)
    } else if c == '-' {
        Some(BFCommand::DecrementByte)
    } else if c == '.' {
        Some(BFCommand::OutputByte)
    } else if c == ',' {
        Some(BFCommand::InputByte)
    } else if c == '[' {
        Some(BFCommand::IfZeroJumpForward)
    } else if c == ']' {
        Some(BFCommand::IfNonZeroJumpBack)
    } else {
        None
    }
}

/// The source character of a command.
pub open spec fn char_of(command: BFCommand) -> char {
    match command {
        BFCommand::IncrementPointer => '>',
        BFCommand::DecrementPointer => '<',
        BFCommand::IncrementByte => '+',
        BFCommand::DecrementByte => '-',
        BFCommand::OutputByte => '.',
        BFCommand::InputByte => ',',
        BFCommand::IfZeroJumpForward => '[',
        BFCommand::IfNonZeroJumpBack => ']',
    }
}

/// Whether a source character is one of the eight commands.
pub open spec fn is_command_char(c: char) -> bool {
    command_of(c) is Some
}

impl BFCommand {
    /// The command written as `raw_command`, or `None` for any other character.
    pub fn from_char(raw_command: char) -> (r: Option<BFCommand>)
        ensures
            r == command_of(raw_command),
    {
        match raw_command {
            '>' => Some(BFCommand::IncrementPointer),
            '<' => Some(BFCommand::DecrementPointer),
            '+' => Some(BFCommand::IncrementByte),
            '-' => Some(BFCommand::DecrementByte),
            '.' => Some(BFCommand::OutputByte),
            ',' => Some(BFCommand::InputByte),
            '[' => Some(BFCommand::IfZeroJumpForward),
            ']' => Some(BFCommand::IfNonZeroJumpBack),
            _ => None,
        }
    }

    /// The character that `command` is written as.
    pub fn to_char(command: BFCommand) -> (r: char)
        ensures
            r == char_of(command),
            command_of(r) == Some(command),
    {
        match command {
            BFCommand::IncrementPointer => '>',
            BFCommand::DecrementPointer => '<',
            BFCommand::IncrementByte => '+',
            BFCommand::DecrementByte => '-',
            BFCommand::OutputByte => '.',
            BFCommand::InputByte => ',',
            BFCommand::IfZeroJumpForward => '[',
            BFCommand::IfNonZeroJumpBack => ']',
        }
    }
}

/// A command together with the 0-based line and column of the character it
/// was read from.
#[derive(Debug, Clone, Copy, PartialEq, Eq, Structural)]
pub struct InputInstruction {
    pub command: BFCommand,
    pub line_number: usize,
    pub column_number: usize,
}

impl InputInstruction {
    /// An instruction for `command` read at `line_number`, `column_number`.
    pub fn new(command: BFCommand, line_number: usize, column_number: usize) -> (r: InputInstruction)
        ensures
            r == (InputInstruction { command, line_number, column_number }),
    {
        InputInstruction { command, line_number, column_number }
    }

    /// The command.
    pub fn get_command(&self) -> (r: BFCommand)
        ensures
            r == self.command,
    {
        self.command
    }

    /// The 0-based line the command was read from.
    pub fn line_number(&self) -> (r: usize)
        ensures
            r == self.line_number,
    {
        self.line_number
    }

    /// The 0-based column the command was read from.
    pub fn column_number(&self) -> (r: usize)
        ensures
            r == self.column_number,
    {
        self.column_number
    }
}

} // verus!
