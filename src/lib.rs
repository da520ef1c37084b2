use std::collections::VecDeque;

use vstd::prelude::*;

use crate::cells::{step_backward, step_forward, Cells};
use crate::parse::{
    all_matched, is_parse_error, is_translation, parse_program, tokens, Instruction, ParseError,
};

pub mod cells;
pub mod lemmas;
pub mod parse;

verus! {

/// Where a machine stands in its execution.
#[derive(Debug, PartialEq, Eq, Clone, Copy, Structural)]
pub enum Status {
    Done,
    Running,
    Paused,
    NotStarted,
}

/// Why execution stopped with an error.
#[derive(Debug, PartialEq, Eq, Clone, Copy, Structural)]
pub enum RunError {
    /// An input instruction ran with no input left.
    InputExhausted,
}

/// How a machine treats breakpoint instructions.
#[derive(Debug, Default, Clone, Copy)]
pub struct BrainfuckVMOptions {
    pub enable_breakpoints: bool,
}

/// A machine that runs a translated program against a tape, one instruction
/// at a time.
pub struct BrainfuckVM {
    pc: usize,
    cells: Cells,
    input_chars: VecDeque<char>,
    instructions: Vec<Instruction>,
    status: Status,
    vm_options: BrainfuckVMOptions,
    output: Vec<u8>,
}

/// The value stored in a cell for an input character.
pub open spec fn char_byte(c: char) -> u8 {
    (c as u32) as u8
}

/// The characters of an optional input text.
pub open spec fn input_seq(input: Option<&str>) -> Seq<char> {
    match input {
        Some(s) => s@,
        None => Seq::empty(),
    }
}

/// The instruction jumps.
pub open spec fn is_jump(ins: Instruction) -> bool {
    ins is Open || ins is Close
}

/// Every jump of `p` targets an instruction of `p`.
pub open spec fn targets_in_range(p: Seq<Instruction>) -> bool {
    forall|i: int|
        0 <= i < p.len() ==> match #[trigger] p[i] {
            Instruction::Open(t) => t < p.len(),
            Instruction::Close(t) => t < p.len(),
            _ => true,
        }
}

impl BrainfuckVM {
    /// The program counter.
    pub closed spec fn pc_spec(self) -> int {
        self.pc as int
    }

    /// The tape.
    pub closed spec fn tape(self) -> Cells {
        self.cells
    }

    /// The input not consumed yet.
    pub closed spec fn input(self) -> Seq<char> {
        self.input_chars@
    }

    /// The translated program.
    pub closed spec fn program(self) -> Seq<Instruction> {
        self.instructions@
    }

    /// The execution status.
    pub closed spec fn status_spec(self) -> Status {
        self.status
    }

    /// Breakpoints pause the machine.
    pub closed spec fn breakpoints(self) -> bool {
        self.vm_options.enable_breakpoints
    }

    /// The bytes written by output instructions, in order.
    pub closed spec fn out(self) -> Seq<u8> {
        self.output@
    }

    /// The tape is well formed, the program counter is within the program or
    /// just past it, and every jump stays within the program.
    pub open spec fn wf(self) -> bool {
        &&& self.tape().wf()
        &&& 0 <= self.pc_spec() <= self.program().len()
        &&& targets_in_range(self.program())
    }

    /// The status after a step that left the program counter at `pc`.
    pub open spec fn status_after(self, pc: int, pauses: bool) -> Status {
        if pc >= self.program().len() {
            Status::Done
        } else if pauses {
            Status::Paused
        } else {
            self.status_spec()
        }
    }

    /// Where the instruction at the program counter leaves the program
    /// counter, before it moves on by one: the jump target if it jumps.
    pub open spec fn landing(self) -> int {
        let c = self.tape();
        match self.program()[self.pc_spec()] {
            Instruction::Open(t) => if c.current() == 0 {
                t as int
            } else {
                self.pc_spec()
            },
            Instruction::Close(t) => if c.current() != 0 {
                t as int
            } else {
                self.pc_spec()
            },
            _ => self.pc_spec(),
        }
    }

    /// The instruction at the program counter pauses the machine.
    pub open spec fn pauses(self) -> bool {
        self.program()[self.pc_spec()] is Breakpoint && self.breakpoints()
    }

    /// `next` holds the tape, input and output that the instruction at the
    /// program counter makes of this machine's.
    pub open spec fn effects(self, next: Self) -> bool {
        let ins = self.program()[self.pc_spec()];
        let c = self.tape();
        &&& next.program() == self.program()
        &&& next.breakpoints() == self.breakpoints()
        &&& next.input() == (if ins is CellInput {
            self.input().drop_first()
        } else {
            self.input()
        })
        &&& next.out() == (if ins is CellOutput {
            self.out().push(c.current())
        } else {
            self.out()
        })
        &&& match ins {
            Instruction::PointerIncrement => c.moved_to(next.tape(), step_forward(c.ptr())),
            Instruction::PointerDecrement => c.moved_to(next.tape(), step_backward(c.ptr())),
            Instruction::CellIncrement => c.written(next.tape(), c.current().wrapping_add(1)),
            Instruction::CellDecrement => c.written(next.tape(), c.current().wrapping_sub(1)),
            Instruction::CellInput => c.written(next.tape(), char_byte(self.input()[0])),
            _ => next.tape() == c,
        }
    }

    /// `next` is this machine after the instruction at the program counter ran
    /// without error.
    pub open spec fn executed(self, next: Self) -> bool {
        &&& self.effects(next)
        &&& next.pc_spec() == self.landing() + 1
        &&& next.status_spec() == self.status_after(self.landing() + 1, self.pauses())
    }

    /// The instruction at the program counter would read from an empty input.
    pub open spec fn starves(self) -> bool {
        &&& self.status_spec() != Status::Done
        &&& self.pc_spec() < self.program().len()
        &&& self.program()[self.pc_spec()] is CellInput
        &&& self.input().len() == 0
    }

    /// `next` and `r` are what one `step` makes of this machine.
    #[verifier::opaque]
    pub open spec fn stepped(self, next: Self, r: Result<Status, RunError>) -> bool {
        if self.status_spec() == Status::Done {
            next == self && r == Ok::<Status, RunError>(Status::Done)
        } else if self.starves() {
            next == self && r == Err::<Status, RunError>(RunError::InputExhausted)
        } else if self.pc_spec() >= self.program().len() {
            &&& next.pc_spec() == self.pc_spec()
            &&& next.tape() == self.tape()
            &&& next.input() == self.input()
            &&& next.out() == self.out()
            &&& next.program() == self.program()
            &&& next.breakpoints() == self.breakpoints()
            &&& next.status_spec() == Status::Done
            &&& r == Ok::<Status, RunError>(Status::Done)
        } else {
            &&& self.executed(next)
            &&& r == Ok::<Status, RunError>(next.status_spec())
        }
    }

    /// Translates `program` and sets up a machine that has not started, with
    /// `input` queued for input instructions.
    pub fn new(program: &str, input: Option<&str>, vm_options: BrainfuckVMOptions) -> (r: Result<
        Self,
        ParseError,
    >)
        ensures
            match r {
                Ok(vm) => {
                    &&& vm.wf()
                    &&& all_matched(tokens(program@))
                    &&& is_translation(tokens(program@), vm.program())
                    &&& vm.pc_spec() == 0
                    &&& vm.status_spec() == Status::NotStarted
                    &&& vm.tape().ptr() == 0
                    &&& vm.tape().pos_side() == seq![0u8]
                    &&& vm.tape().neg_side() == Seq::<u8>::empty()
                    &&& vm.input() == input_seq(input)
                    &&& vm.out() == Seq::<u8>::empty()
                    &&& vm.breakpoints() == vm_options.enable_breakpoints
                },
                Err(e) => is_parse_error(tokens(program@), e),
            },
    {
        let instructions = match parse_program(program) {
            Ok(v) => v,
            Err(e) => {
                return Err(e);
            },
        };
        proof {
            assert forall|i: int| 0 <= i < instructions@.len() implies match #[trigger] instructions@[i] {
                Instruction::Open(t) => t < instructions@.len(),
                Instruction::Close(t) => t < instructions@.len(),
                _ => true,
            } by {
                assert(crate::parse::translates(tokens(program@), i, instructions@[i]));
            }
        }
        let text = match input {
            Some(s) => s,
            None => "",
        };
        proof {
            reveal_strlit("");
        }
        let n = text.unicode_len();
        let mut input_chars: VecDeque<char> = VecDeque::new();
        let mut i: usize = 0;
        while i < n
            invariant
                n == text@.len(),
                i <= n,
                input_chars@ == text@.subrange(0, i as int),
            decreases n - i,
        {
            input_chars.push_back(text.get_char(i));
            i += 1;
        }
        assert(text@.subrange(0, n as int) =~= input_seq(input));
        Ok(
            BrainfuckVM {
                pc: 0,
                cells: Cells::default(),
                input_chars,
                instructions,
                status: Status::NotStarted,
                vm_options,
                output: Vec::new(),
            },
        )
    }

    /// Runs the instruction at the program counter, unless the program is done.
    pub fn step(&mut self) -> (r: Result<Status, RunError>)
        requires
            old(self).wf(),
        ensures
            final(self).wf(),
            old(self).stepped(*final(self), r),
            match r {
                Ok(s) => s == final(self).status_spec(),
                Err(e) => old(self).starves() && *final(self) == *old(self),
            },
            old(self).status_spec() != Status::NotStarted ==> final(self).status_spec()
                != Status::NotStarted,
    {
        reveal(BrainfuckVM::stepped);
        if self.status != Status::Done {
            if self.pc < self.instructions.len() {
                match self.process_instruction() {
                    Ok(()) => {},
                    Err(e) => {
                        return Err(e);
                    },
                }
                self.pc += 1;
            }
        }
        Ok(self.update_status())
    }

    /// `next` is this machine set running: only the status differs.
    pub open spec fn started(self, next: Self) -> bool {
        &&& next.pc_spec() == self.pc_spec()
        &&& next.tape() == self.tape()
        &&& next.input() == self.input()
        &&& next.out() == self.out()
        &&& next.program() == self.program()
        &&& next.breakpoints() == self.breakpoints()
        &&& next.status_spec() == Status::Running
    }

    /// The machine at `i` of `trace` steps without error to the one after it.
    pub open spec fn steps_ok(trace: Seq<Self>, i: int) -> bool {
        trace[i].stepped(trace[i + 1], Ok(trace[i + 1].status_spec()))
    }

    /// The machine at `i` of `trace` is running and steps without error to
    /// the one after it.
    pub open spec fn run_step(trace: Seq<Self>, i: int) -> bool {
        trace[i].status_spec() == Status::Running && Self::steps_ok(trace, i)
    }

    /// Each machine of `trace` is running, but the last, and steps without
    /// error to the next one.
    pub open spec fn is_run(trace: Seq<Self>) -> bool {
        &&& trace.len() >= 1
        &&& forall|i: int| 0 <= i < trace.len() - 1 ==> #[trigger] Self::run_step(trace, i)
    }

    #[verifier::spinoff_prover]
    proof fn lemma_run_extend(trace: Seq<Self>, next: Self)
        requires
            Self::is_run(trace),
            trace.last().status_spec() == Status::Running,
            trace.last().stepped(next, Ok(next.status_spec())),
        ensures
            Self::is_run(trace.push(next)),
            trace.push(next)[0] == trace[0],
            trace.push(next).last() == next,
    {
        let t = trace.push(next);
        assert forall|i: int| 0 <= i < t.len() - 1 implies #[trigger] Self::run_step(t, i) by {
            if i < trace.len() - 1 {
                assert(Self::run_step(trace, i));
                assert(t[i] == trace[i]);
                assert(t[i + 1] == trace[i + 1]);
            } else {
                assert(t[i] == trace.last());
                assert(t[i + 1] == next);
            }
        }
    }

    /// Runs until the program pauses at a breakpoint, finishes or fails, or
    /// until `u64::MAX` steps have run.
    pub fn run(&mut self) -> (r: Result<Status, RunError>)
        requires
            old(self).wf(),
        ensures
            final(self).wf(),
            old(self).status_spec() == Status::Done ==> *final(self) == *old(self) && r == Ok::<
                Status,
                RunError,
            >(Status::Done),
            old(self).status_spec() != Status::Done ==> exists|trace: Seq<Self>|
                {
                    &&& #[trigger] Self::is_run(trace)
                    &&& old(self).started(trace[0])
                    &&& trace.last() == *final(self)
                    &&& (r is Ok && final(self).status_spec() == Status::Running) ==> trace.len()
                        == u64::MAX + 1
                },
            match r {
                Ok(s) => s == final(self).status_spec() && s != Status::NotStarted,
                Err(e) => final(self).starves() && final(self).status_spec() == Status::Running,
            },
    {
        if self.not_done() {
            self.status = Status::Running;
        }
        let ghost mut trace: Seq<Self> = seq![*self];
        let mut budget: u64 = u64::MAX;
        while self.running() && budget > 0
            invariant
                self.wf(),
                old(self).status_spec() == Status::Done ==> *self == *old(self),
                old(self).status_spec() != Status::Done ==> old(self).started(trace[0]),
                Self::is_run(trace),
                trace.last() == *self,
                old(self).status_spec() != Status::Done ==> trace.len() == u64::MAX - budget + 1,
                self.status_spec() != Status::NotStarted,
            decreases budget,
        {
            let res = self.step();
            if res.is_err() {
                assert(Self::is_run(trace));
                return res;
            }
            proof {
                Self::lemma_run_extend(trace, *self);
                trace = trace.push(*self);
            }
            budget -= 1;
        }
        assert(Self::is_run(trace));
        Ok(self.status)
    }

    /// The program has not finished.
    pub fn not_done(&self) -> (r: bool)
        ensures
            r == (self.status_spec() != Status::Done),
    {
        self.status != Status::Done
    }

    /// The machine is running.
    pub fn running(&self) -> (r: bool)
        ensures
            r == (self.status_spec() == Status::Running),
    {
        self.status == Status::Running
    }

    /// The execution status.
    pub fn status(&self) -> (r: Status)
        ensures
            r == self.status_spec(),
    {
        self.status
    }

    /// The tape.
    pub fn cells(&self) -> (r: &Cells)
        ensures
            *r == self.tape(),
    {
        &self.cells
    }

    /// The bytes written by output instructions so far.
    pub fn output(&self) -> (r: &Vec<u8>)
        ensures
            r@ == self.out(),
    {
        &self.output
    }

    /// Hands out the bytes written so far and forgets them.
    pub fn take_output(&mut self) -> (r: Vec<u8>)
        requires
            old(self).wf(),
        ensures
            final(self).wf(),
            r@ == old(self).out(),
            final(self).out() == Seq::<u8>::empty(),
            final(self).pc_spec() == old(self).pc_spec(),
            final(self).tape() == old(self).tape(),
            final(self).input() == old(self).input(),
            final(self).program() == old(self).program(),
            final(self).status_spec() == old(self).status_spec(),
            final(self).breakpoints() == old(self).breakpoints(),
    {
        let mut taken: Vec<u8> = Vec::new();
        std::mem::swap(&mut taken, &mut self.output);
        taken
    }

    fn update_status(&mut self) -> (r: Status)
        ensures
            *final(self) == (BrainfuckVM {
                status: if old(self).pc >= old(self).instructions.len() {
                    Status::Done
                } else {
                    old(self).status
                },
                ..*old(self)
            }),
            r == final(self).status,
    {
        if self.pc >= self.instructions.len() {
            self.status = Status::Done;
        }
        self.status
    }

    /// Runs the instruction at the program counter, leaving the program
    /// counter on the instruction whose successor runs next.
    fn process_instruction(&mut self) -> (r: Result<(), RunError>)
        requires
            old(self).wf(),
            old(self).status != Status::Done,
            old(self).pc < old(self).instructions.len(),
        ensures
            match r {
                Ok(()) => {
                    &&& !old(self).starves()
                    &&& final(self).tape().wf()
                    &&& old(self).effects(*final(self))
                    &&& final(self).pc_spec() == old(self).landing()
                    &&& final(self).status == (if old(self).pauses() {
                        Status::Paused
                    } else {
                        old(self).status
                    })
                },
                Err(e) => old(self).starves() && *final(self) == *old(self),
            },
    {
        match self.instructions[self.pc] {
            Instruction::PointerIncrement => self.cells.increment_pointer(),
            Instruction::PointerDecrement => self.cells.decrement_pointer(),
            Instruction::CellIncrement => self.cells.increment_cell(),
            Instruction::CellDecrement => self.cells.decrement_cell(),
            Instruction::Breakpoint => {
                if self.vm_options.enable_breakpoints {
                    self.status = Status::Paused;
                }
            },
            Instruction::CellOutput => {
                let v = self.cells.get_cell();
                self.output.push(v);
            },
            Instruction::CellInput => {
                if self.input_chars.len() == 0 {
                    return Err(RunError::InputExhausted);
                }
                match self.input_chars.pop_front() {
                    Some(c) => {
                        let b: u8 = #[verifier::truncate] ((c as u32) as u8);
                        self.cells.set_cell(b);
                    },
                    None => {},
                }
            },
            Instruction::Open(target) => {
                if self.cells.get_cell() == 0 {
                    self.pc = target;
                }
            },
            Instruction::Close(target) => {
                if self.cells.get_cell() != 0 {
                    self.pc = target;
                }
            },
        }
        Ok(())
    }
}

} // verus!
