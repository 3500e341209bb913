use bft::{BFCommand, BFProgram, BFVirtualMachine, BracketError, InputInstruction, ReadOutcome, Request, VMError};

fn machine(text: &str, can_grow: bool, tape_size: usize) -> BFVirtualMachine {
    BFVirtualMachine::new(BFProgram::new(String::from("test.bf"), text), can_grow, tape_size).unwrap()
}

/// Runs a machine to its end, feeding it `input` and collecting what it writes.
fn run(vm: &mut BFVirtualMachine, input: &[u8]) -> (Result<(), VMError>, Vec<u8>) {
    let mut output = Vec::new();
    let mut remaining = input.iter();
    loop {
        let r = match vm.next_request() {
            Request::Halt => return (Ok(()), output),
            Request::Execute => vm.step(),
            Request::ReadByte => match remaining.next() {
                Some(b) => vm.input(ReadOutcome::Byte(*b)),
                None => vm.input(ReadOutcome::EndOfInput),
            },
            Request::WriteByte(b) => {
                output.push(b);
                vm.output(true)
            }
        };
        if let Err(e) = r {
            return (Err(e), output);
        }
    }
}

fn run_text(text: &str, input: &[u8]) -> (Result<(), VMError>, Vec<u8>) {
    run(&mut machine(text, false, 0), input)
}

#[test]
fn two_increments_then_output() {
    assert_eq!(run_text("++.", b""), (Ok(()), vec![2]));
}

#[test]
fn loop_clears_cell_and_halts() {
    let mut vm = machine("+[-]", false, 0);
    assert_eq!(run(&mut vm, b""), (Ok(()), vec![]));
    assert_eq!(vm.read_current(), 0);
    assert_eq!(vm.program_counter(), 4);
}

#[test]
fn input_is_copied_to_output() {
    assert_eq!(run_text(",.", &[65]), (Ok(()), vec![65]));
}

#[test]
fn lone_start_fails_to_load() {
    let r = BFVirtualMachine::new(BFProgram::new(String::from("a.bf"), "["), false, 0);
    assert_eq!(
        r.err(),
        Some(BracketError::UnmatchedStart(InputInstruction::new(BFCommand::IfZeroJumpForward, 0, 0)))
    );
}

#[test]
fn lone_end_fails_to_load() {
    let r = BFVirtualMachine::new(BFProgram::new(String::from("a.bf"), "]"), false, 0);
    assert_eq!(
        r.err(),
        Some(BracketError::UnmatchedEnd(InputInstruction::new(BFCommand::IfNonZeroJumpBack, 0, 0)))
    );
}

#[test]
fn has_matching_brackets_checks_balance() {
    assert!(BFVirtualMachine::has_matching_brackets(&BFProgram::new(String::new(), "+[[-]>]")));
    assert!(!BFVirtualMachine::has_matching_brackets(&BFProgram::new(String::new(), "+[[-]>")));
    assert!(!BFVirtualMachine::has_matching_brackets(&BFProgram::new(String::new(), "]+[")));
}

#[test]
fn zero_tape_size_means_default() {
    let vm = machine("+", false, 0);
    assert_eq!(vm.tape_len(), 30000);
    assert_eq!(vm.tape_pointer(), 0);
    assert_eq!(vm.program_counter(), 0);
    assert_eq!(machine("+", false, 5).tape_len(), 5);
}

#[test]
fn hello_world_prints() {
    let text = "++++++++[>++++[>++>+++>+++>+<<<<-]>+>+>->>+[<]<-]>>.>---.+++++++..+++.>>.<-.<.+++.------.--------.>>+.>++.";
    let (r, out) = run_text(text, b"");
    assert_eq!(r, Ok(()));
    assert_eq!(out, b"Hello World!\n".to_vec());
}

#[test]
fn cat_until_zero_byte() {
    let (r, out) = run_text(",[.,]", b"abc\0def");
    assert_eq!(r, Ok(()));
    assert_eq!(out, b"abc".to_vec());
}

#[test]
fn end_of_input_leaves_cell_unchanged() {
    let (r, out) = run_text("+++,.", b"");
    assert_eq!(r, Ok(()));
    assert_eq!(out, vec![3]);
}

#[test]
fn increment_wraps_from_255() {
    let mut text = String::from("-");
    assert_eq!(run_text(&text, b"").1, vec![]);
    text.push('.');
    assert_eq!(run_text(&text, b""), (Ok(()), vec![255]));
    assert_eq!(run_text("-+.", b""), (Ok(()), vec![0]));
}

#[test]
fn moving_left_of_origin_fails() {
    let (r, _) = run_text("+<", b"");
    assert_eq!(
        r,
        Err(VMError::InvalidHeadPosition(InputInstruction::new(BFCommand::DecrementPointer, 0, 1)))
    );
}

#[test]
fn fixed_tape_refuses_to_grow() {
    let mut vm = machine(">>", false, 2);
    assert_eq!(vm.step(), Ok(()));
    assert_eq!(vm.tape_pointer(), 1);
    assert_eq!(
        vm.step(),
        Err(VMError::InvalidHeadPosition(InputInstruction::new(BFCommand::IncrementPointer, 0, 1)))
    );
    assert_eq!(vm.tape_pointer(), 1);
    assert_eq!(vm.tape_len(), 2);
}

#[test]
fn growable_tape_grows_with_zero_cell() {
    let mut vm = machine("+>>", true, 2);
    assert_eq!(run(&mut vm, b""), (Ok(()), vec![]));
    assert_eq!(vm.tape_pointer(), 2);
    assert_eq!(vm.tape_len(), 3);
    assert_eq!(vm.read_current(), 0);
}

#[test]
fn move_head_right_at_end_depends_on_growth() {
    let mut fixed = machine("+", false, 1);
    assert!(fixed.move_head_right().is_err());
    let mut growing = machine("+", true, 1);
    assert_eq!(growing.move_head_right(), Ok(()));
    assert_eq!(growing.tape_len(), 2);
    assert_eq!(growing.read_current(), 0);
    assert_eq!(growing.move_head_left(), Ok(()));
    assert!(growing.move_head_left().is_err());
}

#[test]
fn wrapped_add_and_sub_change_current_cell() {
    let mut vm = machine("+", false, 3);
    vm.wrapped_add(200);
    vm.wrapped_add(100);
    assert_eq!(vm.read_current(), 44);
    vm.wrapped_sub(50);
    assert_eq!(vm.read_current(), 250);
}

#[test]
fn loop_forward_skips_body_on_zero() {
    let mut vm = machine("[+]+", false, 1);
    vm.loop_forward();
    assert_eq!(vm.program_counter(), 3);
}

#[test]
fn loop_back_reenters_body_on_nonzero() {
    let mut vm = machine("+[-]", false, 1);
    vm.wrapped_add(2);
    vm.next();
    vm.loop_forward();
    assert_eq!(vm.program_counter(), 2);
    vm.step().unwrap();
    assert_eq!(vm.get_current_cell().get_command(), BFCommand::IfNonZeroJumpBack);
    vm.loop_back();
    assert_eq!(vm.program_counter(), 2);
}

#[test]
fn current_instruction_follows_program_counter() {
    let mut vm = machine("+\n>", false, 0);
    assert_eq!(*vm.get_current_cell(), InputInstruction::new(BFCommand::IncrementByte, 0, 0));
    vm.next();
    assert_eq!(*vm.get_current_cell(), InputInstruction::new(BFCommand::IncrementPointer, 1, 0));
}

#[test]
fn read_failure_is_an_error() {
    let mut vm = machine("+,", false, 0);
    vm.step().unwrap();
    assert_eq!(vm.next_request(), Request::ReadByte);
    assert_eq!(
        vm.input(ReadOutcome::Failed),
        Err(VMError::IOReadError(InputInstruction::new(BFCommand::InputByte, 0, 1)))
    );
    assert_eq!(vm.program_counter(), 1);
}

#[test]
fn write_failure_is_an_error() {
    let mut vm = machine("+.", false, 0);
    vm.step().unwrap();
    assert_eq!(vm.next_request(), Request::WriteByte(1));
    assert_eq!(
        vm.output(false),
        Err(VMError::IOWriteError(InputInstruction::new(BFCommand::OutputByte, 0, 1)))
    );
}

#[test]
fn input_overwrites_current_cell() {
    let mut vm = machine("+++,", false, 0);
    for _ in 0..3 {
        vm.step().unwrap();
    }
    vm.input(ReadOutcome::Byte(9)).unwrap();
    assert_eq!(vm.read_current(), 9);
    assert_eq!(vm.next_request(), Request::Halt);
}
