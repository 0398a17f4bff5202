//! The machine that executes a program.

use vstd::prelude::*;
use crate::brackets::{
    closes_from, excess, first_unmatched, lemma_excess_first, lemma_matching_close,
    lemma_matching_open, lemma_well_bracketed, matching_close, matching_open, opens_before,
    scan_result, unmatched_in,
};
use crate::error::{Error, ErrorKind};
use crate::instruction::Instruction;
use crate::model::{follows, loaded, session_follows, MachineView, Session, TAPE_SIZE};
use crate::search::{first_in, last_in};
use std::collections::VecDeque;

verus! {

/// A tape of byte cells with a head on it, and a program with a program
/// counter in it.
#[derive(Debug)]
pub struct TuringMachine {
    tape: Vec<u8>,
    pointer: usize,
    program: Vec<Instruction>,
    program_counter: usize,
}

impl View for TuringMachine {
    type V = MachineView;

    closed spec fn view(&self) -> MachineView {
        MachineView {
            tape: self.tape@,
            pointer: self.pointer as int,
            program: self.program@,
            program_counter: self.program_counter as int,
        }
    }
}

impl TuringMachine {
    /// The machine is in a state that a run can be in.
    pub open spec fn wf(&self) -> bool {
        self@.wf()
    }

    /// The machine together with what is left of the input and what has
    /// been emitted.
    pub open spec fn session(&self, input: Seq<u8>, output: Seq<u8>) -> Session {
        Session { machine: self@, input, output }
    }

    /// Loads a program: parses `program`, checks that every bracket has a
    /// partner, and sets up a machine with a tape of zeros, the head on
    /// the first cell and the program counter on the first instruction.
    /// A source that does not parse fails with the parser's error, and a
    /// bracket without a partner with `UnmatchedBracket` at the position
    /// of the first such bracket: in both cases before anything executes.
    pub fn new(program: &str) -> (r: Result<TuringMachine, Error>)
        ensures
            match loaded(program@) {
                Ok(instructions) => r is Ok && r.unwrap()@ == MachineView::initial(instructions),
                Err(error) => r == Err::<TuringMachine, Error>(error),
            },
            r matches Ok(machine) ==> machine.wf(),
    {
        let program = match TuringMachine::parse(program) {
            Ok(program) => program,
            Err(error) => {
                return Err(error);
            },
        };
        let machine = TuringMachine {
            tape: vec![0u8; TAPE_SIZE],
            pointer: 0,
            program,
            program_counter: 0,
        };
        assert(machine.tape@ == MachineView::initial(machine.program@).tape);
        match machine.first_unmatched_bracket() {
            Some(position) => Err(Error { kind: ErrorKind::UnmatchedBracket, position }),
            None => {
                proof {
                    lemma_well_bracketed(machine.program@);
                    assert(machine.program@.len() == machine.program.len());
                }
                Ok(machine)
            },
        }
    }

    /// The position of the first bracket without a partner.
    fn first_unmatched_bracket(&self) -> (r: Option<usize>)
        ensures
            match first_unmatched(self@.program) {
                Some(at) => r == Some(at as usize),
                None => r is None,
            },
    {
        let n = self.program.len();
        let mut at: usize = 0;
        while at < n
            invariant
                at <= n == self.program@.len(),
                first_unmatched(self.program@) == first_in(
                    at as int,
                    n as int,
                    unmatched_in(self.program@),
                ),
            decreases n - at,
        {
            let alone = match self.program[at] {
                Instruction::LoopOpen => self.get_matching_closing_bracket(at + 1).is_err(),
                Instruction::LoopClose => self.get_matching_opening_bracket(at).is_err(),
                _ => false,
            };
            if alone {
                return Some(at);
            }
            at = at + 1;
        }
        None
    }

    /// The tape.
    pub fn tape(&self) -> (tape: &Vec<u8>)
        ensures
            tape@ == self@.tape,
    {
        &self.tape
    }

    /// The position of the head on the tape.
    pub fn pointer(&self) -> (pointer: usize)
        ensures
            pointer == self@.pointer,
    {
        self.pointer
    }

    /// The program.
    pub fn program(&self) -> (program: &Vec<Instruction>)
        ensures
            program@ == self@.program,
    {
        &self.program
    }

    /// The position of the instruction that is executed next.
    pub fn program_counter(&self) -> (program_counter: usize)
        ensures
            program_counter == self@.program_counter,
    {
        self.program_counter
    }

    /// The cell under the head.
    pub fn cell(&self) -> (cell: u8)
        requires
            self.wf(),
        ensures
            cell == self@.cell(),
    {
        self.tape[self.pointer]
    }

    /// The instruction that is executed next, if the machine has not halted.
    pub fn next_instruction(&self) -> (next: Option<Instruction>)
        ensures
            next == if self@.running() {
                Some(self@.current())
            } else {
                None
            },
    {
        if self.program_counter < self.program.len() {
            Some(self.program[self.program_counter])
        } else {
            None
        }
    }

    /// Tells whether there is an instruction left to execute.
    pub fn has_instructions_left(&self) -> (b: bool)
        ensures
            b == self@.running(),
    {
        self.program_counter < self.program.len()
    }

    /// Executes `>`: moves the head one cell to the right and goes on to
    /// the next instruction. On the last cell it fails with
    /// `HeadOutOfBounds` and changes nothing.
    pub fn move_right(&mut self) -> (r: Result<(), Error>)
        requires
            old(self).wf(),
            old(self)@.running(),
        ensures
            final(self).wf(),
            follows(old(self)@, old(self)@.move_right(), final(self)@, r),
    {
        if self.pointer + 1 < TAPE_SIZE {
            self.pointer = self.pointer + 1;
            self.program_counter = self.program_counter + 1;
            Ok(())
        } else {
            Err(Error { kind: ErrorKind::HeadOutOfBounds, position: self.program_counter })
        }
    }

    /// Executes `<`: moves the head one cell to the left and goes on to
    /// the next instruction. On the first cell it fails with
    /// `HeadOutOfBounds` and changes nothing.
    pub fn move_left(&mut self) -> (r: Result<(), Error>)
        requires
            old(self).wf(),
            old(self)@.running(),
        ensures
            final(self).wf(),
            follows(old(self)@, old(self)@.move_left(), final(self)@, r),
    {
        if self.pointer > 0 {
            self.pointer = self.pointer - 1;
            self.program_counter = self.program_counter + 1;
            Ok(())
        } else {
            Err(Error { kind: ErrorKind::HeadOutOfBounds, position: self.program_counter })
        }
    }

    /// Executes `+`: adds one to the cell under the head, so that 255
    /// becomes 0, and goes on to the next instruction.
    pub fn increment(&mut self)
        requires
            old(self).wf(),
            old(self)@.running(),
        ensures
            final(self).wf(),
            final(self)@ == old(self)@.increment(),
            final(self)@.cell() == if old(self)@.cell() == 255 {
                0
            } else {
                old(self)@.cell() + 1
            },
    {
        let value = self.tape[self.pointer].wrapping_add(1);
        self.tape.set(self.pointer, value);
        self.program_counter = self.program_counter + 1;
    }

    /// Executes `-`: subtracts one from the cell under the head, so that 0
    /// becomes 255, and goes on to the next instruction.
    pub fn decrement(&mut self)
        requires
            old(self).wf(),
            old(self)@.running(),
        ensures
            final(self).wf(),
            final(self)@ == old(self)@.decrement(),
            final(self)@.cell() == if old(self)@.cell() == 0 {
                255
            } else {
                old(self)@.cell() - 1
            },
    {
        let value = self.tape[self.pointer].wrapping_sub(1);
        self.tape.set(self.pointer, value);
        self.program_counter = self.program_counter + 1;
    }

    /// Executes `.`: appends the cell under the head to `output` and goes
    /// on to the next instruction.
    pub fn write(&mut self, output: &mut Vec<u8>)
        requires
            old(self).wf(),
            old(self)@.running(),
        ensures
            final(self).wf(),
            final(self)@ == old(self)@.write(),
            final(output)@ == old(output)@.push(old(self)@.cell()),
    {
        output.push(self.tape[self.pointer]);
        self.program_counter = self.program_counter + 1;
    }

    /// Executes `,`: takes the first byte from `input`, stores it in the
    /// cell under the head and goes on to the next instruction. With no
    /// byte left it fails with `InputExhausted` and changes nothing.
    pub fn replace(&mut self, input: &mut VecDeque<u8>) -> (r: Result<(), Error>)
        requires
            old(self).wf(),
            old(self)@.running(),
        ensures
            final(self).wf(),
            old(input)@.len() > 0 ==> r is Ok && final(self)@ == old(self)@.replace(
                old(input)@.first(),
            ) && final(input)@ == old(input)@.drop_first(),
            old(input)@.len() == 0 ==> r == Err::<(), Error>(
                old(self)@.fault(ErrorKind::InputExhausted),
            ) && final(self)@ == old(self)@ && final(input)@ == old(input)@,
    {
        match input.pop_front() {
            Some(byte) => {
                self.tape.set(self.pointer, byte);
                self.program_counter = self.program_counter + 1;
                Ok(())
            },
            None => Err(
                Error { kind: ErrorKind::InputExhausted, position: self.program_counter },
            ),
        }
    }

    /// Scans forward from `bracket_to_match`, that position included, with
    /// a depth counter that starts at zero. A `[` raises the depth. A `]`
    /// at depth zero ends the scan and is returned; any other `]` lowers
    /// the depth. A scan that reaches the end of the program fails.
    pub fn get_matching_closing_bracket(&self, bracket_to_match: usize) -> (r: Result<
        usize,
        Error,
    >)
        ensures
            r == scan_result(
                matching_close(self@.program, bracket_to_match as int),
                bracket_to_match,
            ),
    {
        let n = self.program.len();
        let mut depth: usize = 0;
        let mut at: usize = bracket_to_match;
        while at < n
            invariant
                n == self.program@.len(),
                bracket_to_match <= at,
                depth == excess(self.program@, bracket_to_match as int, at as int),
                depth <= at - bracket_to_match,
                matching_close(self.program@, bracket_to_match as int) == first_in(
                    at as int,
                    n as int,
                    closes_from(self.program@, bracket_to_match as int),
                ),
            decreases n - at,
        {
            match self.program[at] {
                Instruction::LoopClose => {
                    if depth == 0 {
                        return Ok(at);
                    }
                    depth = depth - 1;
                },
                Instruction::LoopOpen => {
                    depth = depth + 1;
                },
                _ => {},
            }
            at = at + 1;
        }
        Err(Error { kind: ErrorKind::UnmatchedBracket, position: bracket_to_match })
    }

    /// Scans backward from the position before `bracket_to_match` with a
    /// depth counter that starts at zero. A `]` raises the depth. A `[` at
    /// depth zero ends the scan and is returned; any other `[` lowers the
    /// depth. A scan that passes the start of the program fails, and so
    /// does one from a position behind the end of the program.
    pub fn get_matching_opening_bracket(&self, bracket_to_match: usize) -> (r: Result<
        usize,
        Error,
    >)
        ensures
            r == scan_result(
                matching_open(self@.program, bracket_to_match as int),
                bracket_to_match,
            ),
    {
        let n = self.program.len();
        if bracket_to_match > n {
            proof {
                lemma_matching_open(self.program@, bracket_to_match as int);
            }
            return Err(Error { kind: ErrorKind::UnmatchedBracket, position: bracket_to_match });
        }
        let mut depth: usize = 0;
        let mut at: usize = bracket_to_match;
        while at > 0
            invariant
                at <= bracket_to_match <= n,
                n == self.program@.len(),
                depth == -excess(self.program@, at as int, bracket_to_match as int),
                depth <= bracket_to_match - at,
                matching_open(self.program@, bracket_to_match as int) == last_in(
                    0,
                    at as int,
                    opens_before(self.program@, bracket_to_match as int),
                ),
            decreases at,
        {
            at = at - 1;
            proof {
                lemma_excess_first(self.program@, at as int, bracket_to_match as int);
            }
            match self.program[at] {
                Instruction::LoopOpen => {
                    if depth == 0 {
                        return Ok(at);
                    }
                    depth = depth - 1;
                },
                Instruction::LoopClose => {
                    depth = depth + 1;
                },
                _ => {},
            }
        }
        Err(Error { kind: ErrorKind::UnmatchedBracket, position: bracket_to_match })
    }

    /// Executes `[`. On a zero cell the program counter is set to where
    /// the forward scan from the current position ends, and nothing else
    /// changes; if that scan fails, so does the jump, with
    /// `UnmatchedBracket`, and nothing changes at all. On any other cell
    /// the machine goes on to the next instruction.
    pub fn jump_if_zero(&mut self) -> (r: Result<(), Error>)
        requires
            old(self).wf(),
            old(self)@.running(),
        ensures
            final(self).wf(),
            follows(old(self)@, old(self)@.jump_if_zero(), final(self)@, r),
            old(self)@.cell() == 0 && r is Ok ==> {
                &&& final(self)@.tape == old(self)@.tape
                &&& final(self)@.pointer == old(self)@.pointer
                &&& matching_close(old(self)@.program, old(self)@.program_counter) == Some(
                    final(self)@.program_counter,
                )
            },
    {
        if self.tape[self.pointer] == 0 {
            match self.get_matching_closing_bracket(self.program_counter) {
                Ok(new_counter) => {
                    proof {
                        lemma_matching_close(self.program@, self.program_counter as int);
                    }
                    self.program_counter = new_counter;
                    Ok(())
                },
                Err(error) => Err(error),
            }
        } else {
            self.program_counter = self.program_counter + 1;
            Ok(())
        }
    }

    /// Executes `]`. On a zero cell the machine goes on to the next
    /// instruction. On any other cell the program counter is set to where
    /// the backward scan from the current position ends, and nothing else
    /// changes; if that scan fails, so does the jump, with
    /// `UnmatchedBracket`, and nothing changes at all.
    pub fn jump_unless_zero(&mut self) -> (r: Result<(), Error>)
        requires
            old(self).wf(),
            old(self)@.running(),
        ensures
            final(self).wf(),
            follows(old(self)@, old(self)@.jump_unless_zero(), final(self)@, r),
    {
        if self.tape[self.pointer] == 0 {
            self.program_counter = self.program_counter + 1;
            Ok(())
        } else {
            match self.get_matching_opening_bracket(self.program_counter) {
                Ok(new_counter) => {
                    proof {
                        lemma_matching_open(self.program@, self.program_counter as int);
                    }
                    self.program_counter = new_counter;
                    Ok(())
                },
                Err(error) => Err(error),
            }
        }
    }

    /// Executes the instruction under the program counter, reading from
    /// `input` and writing to `output` where the instruction asks for it.
    /// A machine that has halted does nothing. When the instruction fails,
    /// the machine and both streams are left as they were.
    pub fn perform_next_instruction(
        &mut self,
        input: &mut VecDeque<u8>,
        output: &mut Vec<u8>,
    ) -> (r: Result<(), Error>)
        requires
            old(self).wf(),
        ensures
            final(self).wf(),
            session_follows(
                old(self).session(old(input)@, old(output)@),
                old(self).session(old(input)@, old(output)@).step(),
                final(self).session(final(input)@, final(output)@),
                r,
            ),
    {
        if self.program_counter >= self.program.len() {
            return Ok(());
        }
        match self.program[self.program_counter] {
            Instruction::MoveRight => self.move_right(),
            Instruction::MoveLeft => self.move_left(),
            Instruction::Increment => {
                self.increment();
                Ok(())
            },
            Instruction::Decrement => {
                self.decrement();
                Ok(())
            },
            Instruction::Output => {
                self.write(output);
                Ok(())
            },
            Instruction::Input => self.replace(input),
            Instruction::LoopOpen => self.jump_if_zero(),
            Instruction::LoopClose => self.jump_unless_zero(),
        }
    }

    /// Executes instructions until the machine halts, an instruction
    /// fails, or `max_steps` instructions have been executed. After a
    /// failure the machine and both streams are as the failing instruction
    /// found them: what the instructions before it did stays done.
    pub fn run(&mut self, input: &mut VecDeque<u8>, output: &mut Vec<u8>, max_steps: u64) -> (r:
        Result<(), Error>)
        requires
            old(self).wf(),
        ensures
            final(self).wf(),
            final(self)@.program == old(self)@.program,
            (final(self).session(final(input)@, final(output)@), r) == old(self).session(
                old(input)@,
                old(output)@,
            ).run(max_steps as nat),
    {
        let mut steps_left: u64 = max_steps;
        while steps_left > 0 && self.has_instructions_left()
            invariant
                self.wf(),
                self@.program == old(self)@.program,
                self.session(input@, output@).run(steps_left as nat) == old(self).session(
                    old(input)@,
                    old(output)@,
                ).run(max_steps as nat),
            decreases steps_left,
        {
            match self.perform_next_instruction(input, output) {
                Ok(()) => {},
                Err(error) => {
                    return Err(error);
                },
            }
            steps_left = steps_left - 1;
        }
        Ok(())
    }
}

} // verus!
