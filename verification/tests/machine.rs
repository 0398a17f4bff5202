use std::collections::VecDeque;
use tape_machine::{Error, ErrorKind, Instruction, TuringMachine, TAPE_SIZE};

fn error(kind: ErrorKind, position: usize) -> Error {
    Error { kind, position }
}

fn run_all(source: &str, bytes: &[u8]) -> (TuringMachine, VecDeque<u8>, Vec<u8>, Result<(), Error>) {
    let mut machine = TuringMachine::new(source).unwrap();
    let mut input: VecDeque<u8> = bytes.iter().copied().collect();
    let mut output = Vec::new();
    let result = machine.run(&mut input, &mut output, 10_000_000);
    (machine, input, output, result)
}

#[test]
fn new_machine_is_blank() {
    let machine = TuringMachine::new(" +>. ").unwrap();
    assert_eq!(TAPE_SIZE, 30000);
    assert_eq!(machine.tape().len(), 30000);
    assert!(machine.tape().iter().all(|cell| *cell == 0));
    assert_eq!(machine.pointer(), 0);
    assert_eq!(machine.program_counter(), 0);
    assert_eq!(machine.cell(), 0);
    assert_eq!(
        machine.program(),
        &vec![Instruction::Increment, Instruction::MoveRight, Instruction::Output]
    );
    assert!(machine.has_instructions_left());
    assert_eq!(machine.next_instruction(), Some(Instruction::Increment));
}

#[test]
fn empty_program_has_halted() {
    let mut machine = TuringMachine::new("").unwrap();
    assert!(!machine.has_instructions_left());
    assert_eq!(machine.next_instruction(), None);
    let mut input = VecDeque::from(vec![1u8]);
    let mut output = Vec::new();
    assert_eq!(machine.perform_next_instruction(&mut input, &mut output), Ok(()));
    assert_eq!(machine.run(&mut input, &mut output, 5), Ok(()));
    assert_eq!(machine.program_counter(), 0);
    assert_eq!(input, VecDeque::from(vec![1u8]));
    assert!(output.is_empty());
}

#[test]
fn move_right_moves_the_head() {
    let mut machine = TuringMachine::new(">>").unwrap();
    assert_eq!(machine.move_right(), Ok(()));
    assert_eq!(machine.pointer(), 1);
    assert_eq!(machine.program_counter(), 1);
}

#[test]
fn move_left_moves_the_head_back() {
    let mut machine = TuringMachine::new("><").unwrap();
    assert_eq!(machine.move_right(), Ok(()));
    assert_eq!(machine.move_left(), Ok(()));
    assert_eq!(machine.pointer(), 0);
    assert_eq!(machine.program_counter(), 2);
    assert!(!machine.has_instructions_left());
}

#[test]
fn move_left_on_the_first_cell_fails() {
    let mut machine = TuringMachine::new("+<").unwrap();
    machine.increment();
    assert_eq!(machine.move_left(), Err(error(ErrorKind::HeadOutOfBounds, 1)));
    assert_eq!(machine.pointer(), 0);
    assert_eq!(machine.program_counter(), 1);
    assert_eq!(machine.cell(), 1);
}

#[test]
fn move_right_on_the_last_cell_fails() {
    let source = ">".repeat(30000);
    let (machine, _, _, result) = run_all(&source, &[]);
    assert_eq!(result, Err(error(ErrorKind::HeadOutOfBounds, 29999)));
    assert_eq!(machine.pointer(), 29999);
    assert_eq!(machine.program_counter(), 29999);
}

#[test]
fn the_last_cell_can_be_used() {
    let source = format!("{}+.", ">".repeat(29999));
    let (machine, _, output, result) = run_all(&source, &[]);
    assert_eq!(result, Ok(()));
    assert_eq!(machine.pointer(), 29999);
    assert_eq!(machine.tape()[29999], 1);
    assert_eq!(output, vec![1]);
}

#[test]
fn increment_adds_one() {
    let mut machine = TuringMachine::new("++").unwrap();
    machine.increment();
    machine.increment();
    assert_eq!(machine.cell(), 2);
    assert_eq!(machine.tape()[0], 2);
    assert_eq!(machine.tape()[1], 0);
    assert_eq!(machine.program_counter(), 2);
}

#[test]
fn increment_wraps_at_255() {
    let mut machine = TuringMachine::new("-+").unwrap();
    machine.decrement();
    assert_eq!(machine.cell(), 255);
    machine.increment();
    assert_eq!(machine.cell(), 0);
}

#[test]
fn decrement_wraps_at_0() {
    let mut machine = TuringMachine::new("-").unwrap();
    machine.decrement();
    assert_eq!(machine.cell(), 255);
    assert_eq!(machine.program_counter(), 1);
}

#[test]
fn decrement_subtracts_one() {
    let mut machine = TuringMachine::new("++-").unwrap();
    machine.increment();
    machine.increment();
    machine.decrement();
    assert_eq!(machine.cell(), 1);
}

#[test]
fn increment_256_times_comes_back_to_zero() {
    let source = "+".repeat(256);
    let (machine, _, _, result) = run_all(&source, &[]);
    assert_eq!(result, Ok(()));
    assert_eq!(machine.cell(), 0);
    let source = "+".repeat(255);
    let (machine, _, _, _) = run_all(&source, &[]);
    assert_eq!(machine.cell(), 255);
}

#[test]
fn write_appends_the_cell() {
    let mut machine = TuringMachine::new("+..").unwrap();
    let mut output = vec![9u8];
    machine.increment();
    machine.write(&mut output);
    machine.write(&mut output);
    assert_eq!(output, vec![9, 1, 1]);
    assert_eq!(machine.cell(), 1);
    assert_eq!(machine.program_counter(), 3);
}

#[test]
fn replace_stores_the_next_byte() {
    let mut machine = TuringMachine::new(",>,").unwrap();
    let mut input = VecDeque::from(vec![7u8, 8, 9]);
    assert_eq!(machine.replace(&mut input), Ok(()));
    assert_eq!(machine.cell(), 7);
    assert_eq!(machine.move_right(), Ok(()));
    assert_eq!(machine.replace(&mut input), Ok(()));
    assert_eq!(machine.cell(), 8);
    assert_eq!(machine.tape()[0], 7);
    assert_eq!(input, VecDeque::from(vec![9u8]));
    assert_eq!(machine.program_counter(), 3);
}

#[test]
fn replace_without_input_fails() {
    let mut machine = TuringMachine::new("+,").unwrap();
    let mut input = VecDeque::new();
    machine.increment();
    assert_eq!(machine.replace(&mut input), Err(error(ErrorKind::InputExhausted, 1)));
    assert_eq!(machine.cell(), 1);
    assert_eq!(machine.program_counter(), 1);
    assert!(input.is_empty());
}

#[test]
fn jump_if_zero_enters_the_loop_on_a_cell_that_is_not_zero() {
    let mut machine = TuringMachine::new("+[-]").unwrap();
    machine.increment();
    assert_eq!(machine.jump_if_zero(), Ok(()));
    assert_eq!(machine.program_counter(), 2);
    assert_eq!(machine.cell(), 1);
}

#[test]
fn jump_if_zero_jumps_to_the_end_of_the_forward_scan() {
    let mut machine = TuringMachine::new("+[>[+]<-]").unwrap();
    let mut input = VecDeque::new();
    let mut output = Vec::new();
    assert_eq!(machine.run(&mut input, &mut output, 3), Ok(()));
    assert_eq!(machine.program_counter(), 3);
    assert_eq!(machine.pointer(), 1);
    assert_eq!(machine.cell(), 0);
    assert_eq!(machine.jump_if_zero(), Ok(()));
    assert_eq!(machine.program_counter(), 8);
    assert_eq!(machine.get_matching_closing_bracket(3), Ok(8));
    assert_eq!(machine.pointer(), 1);
    assert_eq!(machine.cell(), 0);
    assert_eq!(machine.tape()[0], 1);
}

#[test]
fn jump_if_zero_fails_where_the_forward_scan_fails() {
    let mut machine = TuringMachine::new("[-]").unwrap();
    assert_eq!(machine.jump_if_zero(), Err(error(ErrorKind::UnmatchedBracket, 0)));
    assert_eq!(machine.program_counter(), 0);
    assert_eq!(machine.cell(), 0);
}

#[test]
fn jump_unless_zero_leaves_the_loop_on_a_zero_cell() {
    let mut machine = TuringMachine::new("+[-]").unwrap();
    let mut input = VecDeque::new();
    let mut output = Vec::new();
    assert_eq!(machine.run(&mut input, &mut output, 3), Ok(()));
    assert_eq!(machine.program_counter(), 3);
    assert_eq!(machine.cell(), 0);
    assert_eq!(machine.jump_unless_zero(), Ok(()));
    assert_eq!(machine.program_counter(), 4);
    assert!(!machine.has_instructions_left());
}

#[test]
fn jump_unless_zero_goes_back_to_the_open_bracket() {
    let mut machine = TuringMachine::new("++[-]").unwrap();
    let mut input = VecDeque::new();
    let mut output = Vec::new();
    assert_eq!(machine.run(&mut input, &mut output, 4), Ok(()));
    assert_eq!(machine.program_counter(), 4);
    assert_eq!(machine.cell(), 1);
    assert_eq!(machine.jump_unless_zero(), Ok(()));
    assert_eq!(machine.program_counter(), 2);
    assert_eq!(machine.cell(), 1);
}

#[test]
fn jump_unless_zero_fails_where_the_backward_scan_fails() {
    let mut machine = TuringMachine::new("+-").unwrap();
    machine.increment();
    assert_eq!(machine.jump_unless_zero(), Err(error(ErrorKind::UnmatchedBracket, 1)));
    assert_eq!(machine.program_counter(), 1);
    assert_eq!(machine.cell(), 1);
}

#[test]
fn perform_next_instruction_executes_what_the_program_counter_points_at() {
    let mut machine = TuringMachine::new("+>,.<-").unwrap();
    let mut input = VecDeque::from(vec![42u8]);
    let mut output = Vec::new();
    assert_eq!(machine.perform_next_instruction(&mut input, &mut output), Ok(()));
    assert_eq!((machine.cell(), machine.pointer(), machine.program_counter()), (1, 0, 1));
    assert_eq!(machine.perform_next_instruction(&mut input, &mut output), Ok(()));
    assert_eq!((machine.cell(), machine.pointer(), machine.program_counter()), (0, 1, 2));
    assert_eq!(machine.perform_next_instruction(&mut input, &mut output), Ok(()));
    assert_eq!((machine.cell(), machine.pointer(), machine.program_counter()), (42, 1, 3));
    assert!(input.is_empty());
    assert_eq!(machine.perform_next_instruction(&mut input, &mut output), Ok(()));
    assert_eq!(output, vec![42]);
    assert_eq!(machine.perform_next_instruction(&mut input, &mut output), Ok(()));
    assert_eq!((machine.cell(), machine.pointer(), machine.program_counter()), (1, 0, 5));
    assert_eq!(machine.perform_next_instruction(&mut input, &mut output), Ok(()));
    assert_eq!((machine.cell(), machine.pointer(), machine.program_counter()), (0, 0, 6));
    assert!(!machine.has_instructions_left());
    assert_eq!(machine.perform_next_instruction(&mut input, &mut output), Ok(()));
    assert_eq!((machine.cell(), machine.pointer(), machine.program_counter()), (0, 0, 6));
    assert_eq!(output, vec![42]);
}

#[test]
fn perform_next_instruction_leaves_everything_as_it_was_on_failure() {
    let mut machine = TuringMachine::new("+.<").unwrap();
    let mut input = VecDeque::from(vec![5u8]);
    let mut output = Vec::new();
    assert_eq!(machine.run(&mut input, &mut output, 2), Ok(()));
    let tape = machine.tape().clone();
    assert_eq!(
        machine.perform_next_instruction(&mut input, &mut output),
        Err(error(ErrorKind::HeadOutOfBounds, 2))
    );
    assert_eq!(machine.tape(), &tape);
    assert_eq!(machine.tape()[0], 1);
    assert_eq!(machine.pointer(), 0);
    assert_eq!(machine.program_counter(), 2);
    assert_eq!(input, VecDeque::from(vec![5u8]));
    assert_eq!(output, vec![1]);
}
