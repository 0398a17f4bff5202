//! The machine as a mathematical value, and what each instruction does to it.

use vstd::prelude::*;
use crate::brackets::{
    first_unmatched, lemma_matching_close, lemma_matching_open, matching_close, matching_open,
    opens_before, unmatched, well_bracketed,
};
use crate::error::{Error, ErrorKind};
use crate::instruction::Instruction;
use crate::parser::parsed;
use crate::search::lemma_last_in_is;

verus! {

/// The number of cells on the tape.
pub const TAPE_SIZE: usize = 30000;

/// The state of a machine: its tape, its head, its program and its
/// program counter.
pub struct MachineView {
    pub tape: Seq<u8>,
    pub pointer: int,
    pub program: Seq<Instruction>,
    pub program_counter: int,
}

impl MachineView {
    /// The tape has its full size, the head is on it, the program counter
    /// is in the program or just behind it, positions of the program fit
    /// in a `usize`, and every bracket has a partner.
    pub open spec fn wf(self) -> bool {
        &&& self.tape.len() == TAPE_SIZE
        &&& 0 <= self.pointer < TAPE_SIZE
        &&& 0 <= self.program_counter <= self.program.len() <= usize::MAX
        &&& well_bracketed(self.program)
    }

    /// A machine that has not run yet.
    pub open spec fn initial(program: Seq<Instruction>) -> MachineView {
        MachineView {
            tape: Seq::new(TAPE_SIZE as nat, |i: int| 0u8),
            pointer: 0,
            program,
            program_counter: 0,
        }
    }

    /// There is an instruction left to execute.
    pub open spec fn running(self) -> bool {
        self.program_counter < self.program.len()
    }

    /// The instruction that is executed next.
    pub open spec fn current(self) -> Instruction
        recommends
            self.running(),
    {
        self.program[self.program_counter]
    }

    /// The cell under the head.
    pub open spec fn cell(self) -> u8 {
        self.tape[self.pointer]
    }

    /// An error of the given kind at the current instruction.
    pub open spec fn fault(self, kind: ErrorKind) -> Error {
        Error { kind, position: self.program_counter as usize }
    }

    /// The program counter moved on by one.
    pub open spec fn advance(self) -> MachineView {
        MachineView { program_counter: self.program_counter + 1, ..self }
    }

    /// The program counter set to `target`.
    pub open spec fn jump(self, target: int) -> MachineView {
        MachineView { program_counter: target, ..self }
    }

    /// The cell under the head replaced by `value`.
    pub open spec fn with_cell(self, value: u8) -> MachineView {
        MachineView { tape: self.tape.update(self.pointer, value), ..self }
    }

    /// `>`: the head moves right, unless it stands on the last cell.
    pub open spec fn move_right(self) -> Result<MachineView, Error> {
        if self.pointer + 1 < TAPE_SIZE {
            Ok(MachineView { pointer: self.pointer + 1, ..self.advance() })
        } else {
            Err(self.fault(ErrorKind::HeadOutOfBounds))
        }
    }

    /// `<`: the head moves left, unless it stands on the first cell.
    pub open spec fn move_left(self) -> Result<MachineView, Error> {
        if self.pointer > 0 {
            Ok(MachineView { pointer: self.pointer - 1, ..self.advance() })
        } else {
            Err(self.fault(ErrorKind::HeadOutOfBounds))
        }
    }

    /// `+`: the cell under the head grows by one, and 255 becomes 0.
    pub open spec fn increment(self) -> MachineView {
        self.with_cell(((self.cell() + 1) % 256) as u8).advance()
    }

    /// `-`: the cell under the head shrinks by one, and 0 becomes 255.
    pub open spec fn decrement(self) -> MachineView {
        self.with_cell(((self.cell() + 255) % 256) as u8).advance()
    }

    /// `.`: nothing changes but the program counter; the cell under the
    /// head is what is emitted.
    pub open spec fn write(self) -> MachineView {
        self.advance()
    }

    /// `,`: the cell under the head takes the byte that was read.
    pub open spec fn replace(self, byte: u8) -> MachineView {
        self.with_cell(byte).advance()
    }

    /// `[`: on a zero cell the program counter goes where the forward scan
    /// from the current position ends; on any other it moves on by one.
    pub open spec fn jump_if_zero(self) -> Result<MachineView, Error> {
        if self.cell() == 0 {
            match matching_close(self.program, self.program_counter) {
                Some(target) => Ok(self.jump(target)),
                None => Err(self.fault(ErrorKind::UnmatchedBracket)),
            }
        } else {
            Ok(self.advance())
        }
    }

    /// `]`: on a zero cell the program counter moves on by one; on any
    /// other it goes where the backward scan from the current position ends.
    pub open spec fn jump_unless_zero(self) -> Result<MachineView, Error> {
        if self.cell() == 0 {
            Ok(self.advance())
        } else {
            match matching_open(self.program, self.program_counter) {
                Some(target) => Ok(self.jump(target)),
                None => Err(self.fault(ErrorKind::UnmatchedBracket)),
            }
        }
    }
}

/// An operation that can fail did what `expected` says: on success the
/// machine is in the new state, on failure it is unchanged and the error
/// is handed out.
pub open spec fn follows(
    before: MachineView,
    expected: Result<MachineView, Error>,
    after: MachineView,
    result: Result<(), Error>,
) -> bool {
    match expected {
        Ok(next) => after == next && result is Ok,
        Err(error) => after == before && result == Err::<(), Error>(error),
    }
}

/// What loading `source` gives: the program it parses to, if every
/// bracket of that program has a partner; else the error of parsing, or
/// the position of the first bracket without a partner.
pub open spec fn loaded(source: Seq<char>) -> Result<Seq<Instruction>, Error> {
    match parsed(source) {
        Ok(program) => match first_unmatched(program) {
            Some(at) => Err(Error { kind: ErrorKind::UnmatchedBracket, position: at as usize }),
            None => Ok(program),
        },
        Err(error) => Err(error),
    }
}

/// A machine together with the two streams it works on: the input bytes
/// that have not been read yet, and the output bytes emitted so far.
pub struct Session {
    pub machine: MachineView,
    pub input: Seq<u8>,
    pub output: Seq<u8>,
}

impl Session {
    /// The session with the machine in the state that an operation on the
    /// machine alone leads to.
    pub open spec fn with_machine(self, next: Result<MachineView, Error>) -> Result<
        Session,
        Error,
    > {
        match next {
            Ok(machine) => Ok(Session { machine, ..self }),
            Err(error) => Err(error),
        }
    }

    /// `.`: the cell under the head is appended to the output.
    pub open spec fn write(self) -> Session {
        Session {
            machine: self.machine.write(),
            output: self.output.push(self.machine.cell()),
            ..self
        }
    }

    /// `,`: the first byte of the input is taken from it and stored in the
    /// cell under the head. With no input left this fails.
    pub open spec fn replace(self) -> Result<Session, Error> {
        if self.input.len() > 0 {
            Ok(
                Session {
                    machine: self.machine.replace(self.input.first()),
                    input: self.input.drop_first(),
                    ..self
                },
            )
        } else {
            Err(self.machine.fault(ErrorKind::InputExhausted))
        }
    }

    /// One turn of the fetch-execute cycle: the instruction under the
    /// program counter is executed. A machine that has halted stays as it is.
    pub open spec fn step(self) -> Result<Session, Error> {
        if !self.machine.running() {
            Ok(self)
        } else {
            match self.machine.current() {
                Instruction::MoveRight => self.with_machine(self.machine.move_right()),
                Instruction::MoveLeft => self.with_machine(self.machine.move_left()),
                Instruction::Increment => self.with_machine(Ok(self.machine.increment())),
                Instruction::Decrement => self.with_machine(Ok(self.machine.decrement())),
                Instruction::Output => Ok(self.write()),
                Instruction::Input => self.replace(),
                Instruction::LoopOpen => self.with_machine(self.machine.jump_if_zero()),
                Instruction::LoopClose => self.with_machine(self.machine.jump_unless_zero()),
            }
        }
    }

    /// Up to `steps` turns of the cycle. The run ends early when the
    /// machine halts, and when an instruction fails: the session is then
    /// the one that the failing instruction found.
    pub open spec fn run(self, steps: nat) -> (Session, Result<(), Error>)
        decreases steps,
    {
        if steps == 0 || !self.machine.running() {
            (self, Ok(()))
        } else {
            match self.step() {
                Ok(next) => next.run((steps - 1) as nat),
                Err(error) => (self, Err(error)),
            }
        }
    }
}

/// An operation on a session did what `expected` says: on success the
/// session is the new one, on failure it is unchanged and the error is
/// handed out.
pub open spec fn session_follows(
    before: Session,
    expected: Result<Session, Error>,
    after: Session,
    result: Result<(), Error>,
) -> bool {
    match expected {
        Ok(next) => after == next && result is Ok,
        Err(error) => after == before && result == Err::<(), Error>(error),
    }
}

/// An instruction leaves the program as it is and the machine in a state
/// that a run can be in.
pub proof fn lemma_step_keeps_wf(session: Session)
    requires
        session.machine.wf(),
    ensures
        session.step() matches Ok(next) ==> next.machine.wf() && next.machine.program
            == session.machine.program,
{
    let machine = session.machine;
    lemma_matching_close(machine.program, machine.program_counter);
    lemma_matching_open(machine.program, machine.program_counter);
}

/// In a program in which every bracket has a partner, `]` never fails.
pub proof fn lemma_loop_close_jumps(machine: MachineView)
    requires
        machine.wf(),
        machine.running(),
        machine.current() == Instruction::LoopClose,
    ensures
        machine.jump_unless_zero() is Ok,
{
    assert(!unmatched(machine.program, machine.program_counter));
}

/// A run leaves the program as it is and the machine in a state that a
/// run can be in, whether it ends in an error or not.
pub proof fn lemma_run_keeps_wf(session: Session, steps: nat)
    requires
        session.machine.wf(),
    ensures
        session.run(steps).0.machine.wf(),
        session.run(steps).0.machine.program == session.machine.program,
    decreases steps,
{
    if steps > 0 && session.machine.running() {
        lemma_step_keeps_wf(session);
        match session.step() {
            Ok(next) => lemma_run_keeps_wf(next, (steps - 1) as nat),
            Err(_) => {},
        }
    }
}

/// A run can be made in two parts: where the first part ends without an
/// error, going on from there for `more` steps is the run of `steps +
/// more` steps; where it ends in an error, so does the longer run, in the
/// same session.
pub proof fn lemma_run_resumes(session: Session, steps: nat, more: nat)
    ensures
        session.run(steps + more) == match session.run(steps) {
            (reached, Ok(_)) => reached.run(more),
            (reached, Err(error)) => (reached, Err(error)),
        },
    decreases steps,
{
    if session.machine.running() && steps > 0 {
        match session.step() {
            Ok(next) => lemma_run_resumes(next, (steps - 1) as nat, more),
            Err(_) => {},
        }
    }
}

/// A run that ends in an error has made fewer steps than it was allowed,
/// all of them without an error, and hands out the session that they led
/// to together with the error of the instruction that comes next there.
pub proof fn lemma_run_fails_at(session: Session, steps: nat) -> (done: nat)
    requires
        session.run(steps).1 is Err,
    ensures
        done < steps,
        session.run(done) == (session.run(steps).0, Ok::<(), Error>(())),
        session.run(steps).0.machine.running(),
        session.run(steps).0.step() == Err::<Session, Error>(session.run(steps).1->Err_0),
    decreases steps,
{
    match session.step() {
        Ok(next) => {
            let done = lemma_run_fails_at(next, (steps - 1) as nat);
            done + 1
        },
        Err(_) => 0,
    }
}

/// An instruction fails with `InputExhausted` exactly if it is an input
/// instruction that finds the input empty.
pub proof fn lemma_input_exhausted(session: Session)
    requires
        session.machine.running(),
    ensures
        (session.step() matches Err(error) && error.kind == ErrorKind::InputExhausted) <==> (
        session.machine.current() == Instruction::Input && session.input.len() == 0),
{
}

/// The program `,.` copies the first byte of the input to the output.
pub proof fn lemma_echo(input: Seq<u8>, steps: nat)
    requires
        input.len() > 0,
        steps >= 2,
    ensures
        ({
            let program = seq![Instruction::Input, Instruction::Output];
            let start = Session {
                machine: MachineView::initial(program),
                input,
                output: Seq::empty(),
            };
            let (end, result) = start.run(steps);
            &&& result is Ok
            &&& !end.machine.running()
            &&& end.output == seq![input.first()]
            &&& end.input == input.drop_first()
        }),
{
    reveal_with_fuel(Session::run, 3);
}

/// The loop `[-]`, entered on a cell that is not zero, takes three steps
/// for each unit of the cell and then stands behind its `]` with the
/// cell at zero and nothing else changed.
pub proof fn lemma_clearing_loop(session: Session, start: int)
    requires
        session.machine.wf(),
        session.machine.program_counter == start,
        start + 2 < session.machine.program.len(),
        session.machine.program[start] == Instruction::LoopOpen,
        session.machine.program[start + 1] == Instruction::Decrement,
        session.machine.program[start + 2] == Instruction::LoopClose,
        session.machine.cell() > 0,
    ensures
        session.run(3 * session.machine.cell() as nat) == (
            Session { machine: session.machine.with_cell(0).jump(start + 3), ..session },
            Ok::<(), Error>(()),
        ),
    decreases session.machine.cell(),
{
    let machine = session.machine;
    let program = machine.program;
    let rounds = machine.cell() as nat;
    let entered = Session { machine: machine.advance(), ..session };
    let lowered = Session { machine: entered.machine.decrement(), ..session };
    let close = start + 2;
    assert(matching_open(program, close) == Some(start)) by {
        lemma_last_in_is(0, close, opens_before(program, close), start);
    }
    let next = Session {
        machine: if rounds == 1 {
            lowered.machine.advance()
        } else {
            lowered.machine.jump(start)
        },
        ..session
    };
    assert(session.run(3) == (next, Ok::<(), Error>(()))) by {
        reveal_with_fuel(Session::run, 4);
    }
    lemma_run_resumes(session, 3, (3 * (rounds - 1)) as nat);
    assert(machine.with_cell(0).tape == next.machine.with_cell(0).tape);
    if rounds > 1 {
        lemma_clearing_loop(next, start);
    }
}

} // verus!
