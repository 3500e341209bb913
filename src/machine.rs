//! The execution engine: a program counter and a tape head stepping through a
//! program whose brackets have been matched.
//!
//! Reading and writing bytes is left to the caller: [`BFVirtualMachine::next_request`]
//! says what the instruction at the program counter needs, and the caller
//! answers through [`BFVirtualMachine::step`], [`BFVirtualMachine::input`] or
//! [`BFVirtualMachine::output`].

use vstd::prelude::*;
use crate::brackets::{BracketError, balanced, is_jump_table, resolve_jumps, reports};
use crate::cell::{CellKind, wrap_add, wrap_sub};
use crate::command::{BFCommand, InputInstruction};
use crate::program::BFProgram;

verus! {

/// The number of cells a tape starts with when no size is given.
pub const DEFAULT_TAPE_SIZE: usize = 30000;

/// A failure while running, with the instruction that was running.
#[derive(Debug, Clone, Copy, PartialEq, Eq, Structural)]
pub enum VMError {
    /// The head would leave the tape.
    InvalidHeadPosition(InputInstruction),
    /// The tape would need more cells than can be addressed.
    TapeTooBig(InputInstruction),
    /// Reading an input byte failed.
    IOReadError(InputInstruction),
    /// Writing an output byte failed.
    IOWriteError(InputInstruction),
}

/// What the instruction at the program counter needs before the machine can
/// go on.
#[derive(Debug, Clone, Copy, PartialEq, Eq, Structural)]
pub enum Request {
    /// The program counter is past the last instruction: the run is over.
    Halt,
    /// Nothing from outside: call `step`.
    Execute,
    /// One byte of input: read it and call `input`.
    ReadByte,
    /// This byte is to be written: write it and call `output`.
    WriteByte(u8),
}

/// What came of reading one input byte.
#[derive(Debug, Clone, Copy, PartialEq, Eq, Structural)]
pub enum ReadOutcome {
    /// A byte was read.
    Byte(u8),
    /// The input is exhausted.
    EndOfInput,
    /// The read failed.
    Failed,
}

/// The state of a machine as mathematical values.
pub struct MachineView {
    pub program: Seq<InputInstruction>,
    pub jumps: Seq<usize>,
    pub can_grow: bool,
    pub pc: int,
    pub head: int,
    pub tape: Seq<u8>,
}

impl MachineView {
    /// The jump table fits the program, the program counter is at most one
    /// past the last instruction and the head is on the tape.
    pub open spec fn wf(self) -> bool {
        &&& is_jump_table(self.program, self.jumps)
        &&& 0 <= self.pc <= self.program.len()
        &&& 0 <= self.head < self.tape.len()
        &&& self.program.len() <= usize::MAX
        &&& self.tape.len() <= usize::MAX
    }

    /// The instruction at the program counter.
    pub open spec fn current(self) -> InputInstruction {
        self.program[self.pc]
    }

    /// The value of the cell under the head.
    pub open spec fn cell(self) -> u8 {
        self.tape[self.head]
    }

    /// The same state with the program counter on the next instruction.
    pub open spec fn advance(self) -> MachineView {
        MachineView { pc: self.pc + 1, ..self }
    }

    /// The same state with the cell under the head set to `value`.
    pub open spec fn with_cell(self, value: u8) -> MachineView {
        MachineView { tape: self.tape.update(self.head, value), ..self }
    }

    /// Moving the head one cell left: refused at the first cell.
    pub open spec fn move_left(self) -> Result<MachineView, VMError> {
        if self.head > 0 {
            Ok(MachineView { head: self.head - 1, ..self })
        } else {
            Err(VMError::InvalidHeadPosition(self.current()))
        }
    }

    /// Moving the head one cell right: at the last cell the tape gains a zero
    /// cell when it may grow, and the move is refused when it may not.
    pub open spec fn move_right(self) -> Result<MachineView, VMError> {
        if self.head + 1 < self.tape.len() {
            Ok(MachineView { head: self.head + 1, ..self })
        } else if !self.can_grow {
            Err(VMError::InvalidHeadPosition(self.current()))
        } else if self.tape.len() >= usize::MAX {
            Err(VMError::TapeTooBig(self.current()))
        } else {
            Ok(MachineView { head: self.head + 1, tape: self.tape.push(0), ..self })
        }
    }

    /// The program counter after a `[`: past the matching `]` when the cell
    /// is zero, else on the next instruction.
    pub open spec fn loop_forward(self) -> MachineView {
        if self.cell() == 0 {
            MachineView { pc: self.jumps[self.pc] + 1, ..self }
        } else {
            self.advance()
        }
    }

    /// The program counter after a `]`: just after the matching `[` when the
    /// cell is not zero, else on the next instruction.
    pub open spec fn loop_back(self) -> MachineView {
        if self.cell() != 0 {
            MachineView { pc: self.jumps[self.pc] + 1, ..self }
        } else {
            self.advance()
        }
    }

    /// What the instruction at the program counter needs from outside.
    pub open spec fn request(self) -> Request {
        if self.pc >= self.program.len() {
            Request::Halt
        } else {
            match self.current().command {
                BFCommand::InputByte => Request::ReadByte,
                BFCommand::OutputByte => Request::WriteByte(self.cell()),
                _ => Request::Execute,
            }
        }
    }

    /// Executing the instruction at the program counter, for every command
    /// but input and output.
    pub open spec fn step(self) -> Result<MachineView, VMError> {
        match self.current().command {
            BFCommand::IncrementPointer => match self.move_right() {
                Ok(v) => Ok(v.advance()),
                Err(e) => Err(e),
            },
            BFCommand::DecrementPointer => match self.move_left() {
                Ok(v) => Ok(v.advance()),
                Err(e) => Err(e),
            },
            BFCommand::IncrementByte => Ok(self.with_cell(wrap_add(self.cell(), 1)).advance()),
            BFCommand::DecrementByte => Ok(self.with_cell(wrap_sub(self.cell(), 1)).advance()),
            BFCommand::IfZeroJumpForward => Ok(self.loop_forward()),
            BFCommand::IfNonZeroJumpBack => Ok(self.loop_back()),
            _ => Ok(self),
        }
    }

    /// Executing an input instruction given what came of the read.
    pub open spec fn input(self, outcome: ReadOutcome) -> Result<MachineView, VMError> {
        match outcome {
            ReadOutcome::Byte(b) => Ok(self.with_cell(b).advance()),
            ReadOutcome::EndOfInput => Ok(self.advance()),
            ReadOutcome::Failed => Err(VMError::IOReadError(self.current())),
        }
    }

    /// Executing an output instruction given whether the write succeeded.
    pub open spec fn output(self, written: bool) -> Result<MachineView, VMError> {
        if written {
            Ok(self.advance())
        } else {
            Err(VMError::IOWriteError(self.current()))
        }
    }
}

/// At the last cell, moving right fails when the tape may not grow; when it
/// may, the move succeeds and the head lands on a new cell that reads zero.
pub proof fn lemma_move_right_at_tape_end(v: MachineView)
    requires
        v.wf(),
        v.pc < v.program.len(),
        v.head == v.tape.len() - 1,
    ensures
        !v.can_grow ==> v.move_right() == Err::<MachineView, VMError>(
            VMError::InvalidHeadPosition(v.current()),
        ),
        v.can_grow && v.tape.len() < usize::MAX ==> (v.move_right() matches Ok(w) && w.head
            == v.head + 1 && w.tape.len() == v.tape.len() + 1 && w.cell() == 0),
{
}

/// The machine's state after an operation that may fail: the new state on
/// success, the old one with the error on failure.
pub open spec fn outcome_is(
    before: MachineView,
    after: MachineView,
    r: Result<(), VMError>,
    expected: Result<MachineView, VMError>,
) -> bool {
    match expected {
        Ok(v) => r is Ok && after == v,
        Err(e) => r == Err::<(), VMError>(e) && after == before,
    }
}

/// A tape of `n` zero cells.
pub open spec fn zero_tape(n: nat) -> Seq<u8> {
    Seq::new(n, |i: int| 0u8)
}

/// The running interpreter: a program with its jump table, a tape of byte
/// cells with a head, and a program counter.
#[derive(Debug)]
pub struct BFVirtualMachine {
    program: BFProgram,
    jumps: Vec<usize>,
    program_counter: usize,
    can_grow: bool,
    tape_pointer: usize,
    tape: Vec<u8>,
}

impl View for BFVirtualMachine {
    type V = MachineView;

    closed spec fn view(&self) -> MachineView {
        MachineView {
            program: self.program@,
            jumps: self.jumps@,
            can_grow: self.can_grow,
            pc: self.program_counter as int,
            head: self.tape_pointer as int,
            tape: self.tape@,
        }
    }
}

impl BFVirtualMachine {
    /// The machine is in a state it can run from.
    pub open spec fn wf(&self) -> bool {
        self@.wf()
    }

    /// Whether every bracket of `program` has a partner.
    pub fn has_matching_brackets(program: &BFProgram) -> (r: bool)
        ensures
            r == balanced(program@),
    {
        resolve_jumps(program.commands()).is_ok()
    }

    /// A machine at the start of `a_program`, with `tape_size` zero cells (or
    /// the default number when `tape_size` is zero) that may grow to the right
    /// when `can_grow` is set. Fails when a bracket of the program has no
    /// partner.
    pub fn new(a_program: BFProgram, can_grow: bool, tape_size: usize) -> (r: Result<
        BFVirtualMachine,
        BracketError,
    >)
        ensures
            r is Ok <==> balanced(a_program@),
            match r {
                Ok(vm) => {
                    &&& vm.wf()
                    &&& vm@.program == a_program@
                    &&& vm@.can_grow == can_grow
                    &&& vm@.pc == 0
                    &&& vm@.head == 0
                    &&& vm@.tape == zero_tape(
                        if tape_size == 0 {
                            DEFAULT_TAPE_SIZE as nat
                        } else {
                            tape_size as nat
                        },
                    )
                },
                Err(e) => reports(a_program@, e),
            },
    {
        // every program counter up to one past the end fits in a usize
        let program_len = a_program.commands().len();
        assert(a_program@.len() == program_len);
        let jumps = match resolve_jumps(a_program.commands()) {
            Ok(t) => t,
            Err(e) => {
                return Err(e);
            },
        };
        let tape_size = if tape_size == 0 {
            DEFAULT_TAPE_SIZE
        } else {
            tape_size
        };
        let mut tape: Vec<u8> = Vec::new();
        while tape.len() < tape_size
            invariant
                tape.len() <= tape_size,
                tape@ == zero_tape(tape.len() as nat),
            decreases tape_size - tape.len(),
        {
            tape.push(0);
            assert(tape@ =~= zero_tape(tape.len() as nat));
        }
        Ok(BFVirtualMachine { program: a_program, jumps, program_counter: 0, can_grow, tape_pointer: 0, tape })
    }

    /// The instruction at the program counter.
    pub fn get_current_cell(&self) -> (r: &InputInstruction)
        requires
            self.wf(),
            self@.pc < self@.program.len(),
        ensures
            *r == self@.current(),
    {
        self.program.get_command(self.program_counter)
    }

    /// Moves the program counter to the next instruction.
    pub fn next(&mut self)
        requires
            old(self).wf(),
            old(self)@.pc < old(self)@.program.len(),
        ensures
            final(self).wf(),
            final(self)@ == old(self)@.advance(),
    {
        self.program_counter = self.program_counter + 1;
    }

    /// Moves the head one cell left; fails at the first cell.
    pub fn move_head_left(&mut self) -> (r: Result<(), VMError>)
        requires
            old(self).wf(),
            old(self)@.pc < old(self)@.program.len(),
        ensures
            final(self).wf(),
            outcome_is(old(self)@, final(self)@, r, old(self)@.move_left()),
    {
        if self.tape_pointer > 0 {
            self.tape_pointer = self.tape_pointer - 1;
            Ok(())
        } else {
            Err(VMError::InvalidHeadPosition(*self.program.get_command(self.program_counter)))
        }
    }

    /// Moves the head one cell right. At the last cell the tape gains a zero
    /// cell if it may grow; otherwise the move fails.
    pub fn move_head_right(&mut self) -> (r: Result<(), VMError>)
        requires
            old(self).wf(),
            old(self)@.pc < old(self)@.program.len(),
        ensures
            final(self).wf(),
            outcome_is(old(self)@, final(self)@, r, old(self)@.move_right()),
    {
        if self.tape_pointer + 1 < self.tape.len() {
            self.tape_pointer = self.tape_pointer + 1;
            Ok(())
        } else if !self.can_grow {
            Err(VMError::InvalidHeadPosition(*self.program.get_command(self.program_counter)))
        } else if self.tape.len() == usize::MAX {
            Err(VMError::TapeTooBig(*self.program.get_command(self.program_counter)))
        } else {
            self.tape.push(0);
            self.tape_pointer = self.tape_pointer + 1;
            Ok(())
        }
    }

    /// Adds `num` to the cell under the head, wrapping past 255.
    pub fn wrapped_add(&mut self, num: u8)
        requires
            old(self).wf(),
        ensures
            final(self).wf(),
            final(self)@ == old(self)@.with_cell(wrap_add(old(self)@.cell(), num)),
    {
        let mut value = self.tape[self.tape_pointer];
        value.wrapping_increment(num);
        self.tape.set(self.tape_pointer, value);
    }

    /// Subtracts `num` from the cell under the head, wrapping below 0.
    pub fn wrapped_sub(&mut self, num: u8)
        requires
            old(self).wf(),
        ensures
            final(self).wf(),
            final(self)@ == old(self)@.with_cell(wrap_sub(old(self)@.cell(), num)),
    {
        let mut value = self.tape[self.tape_pointer];
        value.wrapping_decrement(num);
        self.tape.set(self.tape_pointer, value);
    }

    /// Executes the `[` at the program counter.
    pub fn loop_forward(&mut self)
        requires
            old(self).wf(),
            old(self)@.pc < old(self)@.program.len(),
            old(self)@.current().command == BFCommand::IfZeroJumpForward,
        ensures
            final(self).wf(),
            final(self)@ == old(self)@.loop_forward(),
    {
        if self.tape[self.tape_pointer] == 0 {
            self.program_counter = self.jumps[self.program_counter] + 1;
        } else {
            self.program_counter = self.program_counter + 1;
        }
    }

    /// Executes the `]` at the program counter.
    pub fn loop_back(&mut self)
        requires
            old(self).wf(),
            old(self)@.pc < old(self)@.program.len(),
            old(self)@.current().command == BFCommand::IfNonZeroJumpBack,
        ensures
            final(self).wf(),
            final(self)@ == old(self)@.loop_back(),
    {
        if self.tape[self.tape_pointer] != 0 {
            self.program_counter = self.jumps[self.program_counter] + 1;
        } else {
            self.program_counter = self.program_counter + 1;
        }
    }

    /// The index of the instruction to run next.
    pub fn program_counter(&self) -> (r: usize)
        ensures
            r == self@.pc,
    {
        self.program_counter
    }

    /// The index of the cell under the head.
    pub fn tape_pointer(&self) -> (r: usize)
        ensures
            r == self@.head,
    {
        self.tape_pointer
    }

    /// The number of cells on the tape.
    pub fn tape_len(&self) -> (r: usize)
        ensures
            r == self@.tape.len(),
    {
        self.tape.len()
    }

    /// The value of the cell under the head.
    pub fn read_current(&self) -> (r: u8)
        requires
            self.wf(),
        ensures
            r == self@.cell(),
    {
        self.tape[self.tape_pointer]
    }

    /// What the instruction at the program counter needs from outside.
    pub fn next_request(&self) -> (r: Request)
        requires
            self.wf(),
        ensures
            r == self@.request(),
    {
        if self.program_counter >= self.program.commands().len() {
            return Request::Halt;
        }
        match self.program.get_command(self.program_counter).get_command() {
            BFCommand::InputByte => Request::ReadByte,
            BFCommand::OutputByte => Request::WriteByte(self.tape[self.tape_pointer]),
            _ => Request::Execute,
        }
    }

    /// Executes the instruction at the program counter, which is neither
    /// input nor output.
    pub fn step(&mut self) -> (r: Result<(), VMError>)
        requires
            old(self).wf(),
            old(self)@.request() == Request::Execute,
        ensures
            final(self).wf(),
            outcome_is(old(self)@, final(self)@, r, old(self)@.step()),
    {
        match self.program.get_command(self.program_counter).get_command() {
            BFCommand::IncrementPointer => {
                self.move_head_right()?;
                self.next();
                Ok(())
            },
            BFCommand::DecrementPointer => {
                self.move_head_left()?;
                self.next();
                Ok(())
            },
            BFCommand::IncrementByte => {
                self.wrapped_add(1);
                self.next();
                Ok(())
            },
            BFCommand::DecrementByte => {
                self.wrapped_sub(1);
                self.next();
                Ok(())
            },
            BFCommand::IfZeroJumpForward => {
                self.loop_forward();
                Ok(())
            },
            BFCommand::IfNonZeroJumpBack => {
                self.loop_back();
                Ok(())
            },
            _ => Ok(()),
        }
    }

    /// Executes the input instruction at the program counter given what came
    /// of reading one byte: the byte replaces the cell under the head, the end
    /// of input leaves it as it is, and a failed read is an error.
    pub fn input(&mut self, outcome: ReadOutcome) -> (r: Result<(), VMError>)
        requires
            old(self).wf(),
            old(self)@.request() == Request::ReadByte,
        ensures
            final(self).wf(),
            outcome_is(old(self)@, final(self)@, r, old(self)@.input(outcome)),
    {
        match outcome {
            ReadOutcome::Byte(b) => {
                self.tape.set(self.tape_pointer, b);
                self.next();
                Ok(())
            },
            ReadOutcome::EndOfInput => {
                self.next();
                Ok(())
            },
            ReadOutcome::Failed => Err(
                VMError::IOReadError(*self.program.get_command(self.program_counter)),
            ),
        }
    }

    /// Executes the output instruction at the program counter given whether
    /// the byte it asked for was written.
    pub fn output(&mut self, written: bool) -> (r: Result<(), VMError>)
        requires
            old(self).wf(),
            old(self)@.request() is WriteByte,
        ensures
            final(self).wf(),
            outcome_is(old(self)@, final(self)@, r, old(self)@.output(written)),
    {
        if written {
            self.next();
            Ok(())
        } else {
            Err(VMError::IOWriteError(*self.program.get_command(self.program_counter)))
        }
    }
}

} // verus!
