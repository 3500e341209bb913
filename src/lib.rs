//! An interpreter for the eight-command tape-machine language, with its
//! loader, bracket resolver and execution engine verified.

pub mod brackets;
pub mod cell;
pub mod command;
pub mod machine;
pub mod program;

pub use brackets::{BracketError, resolve_jumps};
pub use cell::CellKind;
pub use command::{BFCommand, InputInstruction};
pub use machine::{BFVirtualMachine, ReadOutcome, Request, VMError};
pub use program::BFProgram;
