//! The engine as a state machine: what the machine holds, and what each
//! instruction makes of it.

use vstd::prelude::*;
use crate::channel::ChannelView;
use crate::errors::RuntimeError;
use crate::frame::{FrameView, Pointer};
use crate::instruction::Op;
use crate::text::decimal;
use crate::variables::VariableAddress;

verus! {

/// The four arithmetic instructions.
pub enum Arithmetic {
    Add,
    Sub,
    Multiply,
    Divide,
}

/// The six relations of the conditional jumps.
pub enum Relation {
    Equal,
    NotEqual,
    Greater,
    Smaller,
    GreaterEqual,
    SmallerEqual,
}

/// The quotient of `x` by `d`, rounded towards zero.
pub open spec fn quotient(x: int, d: int) -> int
    recommends
        d != 0,
{
    if x >= 0 && d > 0 {
        x / d
    } else if x < 0 && d < 0 {
        (-x) / (-d)
    } else if x < 0 {
        -((-x) / d)
    } else {
        -(x / (-d))
    }
}

/// Whether `v` is a value that an operand can hold.
pub open spec fn fits(v: int) -> bool {
    isize::MIN <= v <= isize::MAX
}

/// The mathematical result of `lhs OP rhs`, where it is defined.
pub open spec fn exact(kind: Arithmetic, lhs: int, rhs: int) -> int {
    match kind {
        Arithmetic::Add => lhs + rhs,
        Arithmetic::Sub => lhs - rhs,
        Arithmetic::Multiply => lhs * rhs,
        Arithmetic::Divide => quotient(lhs, rhs),
    }
}

/// The result of `lhs OP rhs`: a division by zero is a fault, and so is a
/// result that no operand can hold.
pub open spec fn computed(kind: Arithmetic, lhs: isize, rhs: isize) -> Result<isize, RuntimeError> {
    if kind is Divide && rhs == 0 {
        Err(RuntimeError::DivisionByZero)
    } else if fits(exact(kind, lhs as int, rhs as int)) {
        Ok(exact(kind, lhs as int, rhs as int) as isize)
    } else {
        Err(RuntimeError::ArithmeticOverflow)
    }
}

/// Whether `lhs <relation> rhs` holds.
pub open spec fn holds(relation: Relation, lhs: isize, rhs: isize) -> bool {
    match relation {
        Relation::Equal => lhs == rhs,
        Relation::NotEqual => lhs != rhs,
        Relation::Greater => lhs > rhs,
        Relation::Smaller => lhs < rhs,
        Relation::GreaterEqual => lhs >= rhs,
        Relation::SmallerEqual => lhs <= rhs,
    }
}

/// The line that prints a variable.
pub open spec fn variable_line(name: Seq<char>, value: isize) -> Seq<char> {
    name + " = "@ + decimal(value as int)
}

/// What the engine holds.
pub struct Machine {
    /// The instruction pointer.
    pub ip: Pointer,
    /// The call stack, outermost frame first; the last frame is the current one.
    pub frames: Seq<FrameView<isize>>,
    /// The channel with its waiting workers.
    pub channel: ChannelView,
    /// The lines printed so far.
    pub output: Seq<Seq<char>>,
}

/// What executing one instruction leads to.
pub enum Step {
    /// The instruction was executed; this is the machine after it.
    Next(Machine),
    /// The instruction waits for a message; the machine stays as it is.
    Blocked,
    /// The instruction cannot be executed; the machine stays as it is.
    Fault(RuntimeError),
}

/// The result of an instruction that cannot block.
pub open spec fn step_of(r: Result<Machine, RuntimeError>) -> Step {
    match r {
        Ok(m) => Step::Next(m),
        Err(e) => Step::Fault(e),
    }
}

impl Machine {
    /// A machine before its first instruction: no frame, a free channel, no output.
    pub open spec fn fresh() -> Machine {
        Machine { ip: 0, frames: Seq::empty(), channel: ChannelView::idle(), output: Seq::empty() }
    }

    /// The current frame.
    pub open spec fn top(self) -> FrameView<isize>
        recommends
            self.frames.len() > 0,
    {
        self.frames.last()
    }

    /// This machine with `frame` in place of the current frame.
    pub open spec fn with_top(self, frame: FrameView<isize>) -> Machine
        recommends
            self.frames.len() > 0,
    {
        Machine { frames: self.frames.update(self.frames.len() - 1, frame), ..self }
    }

    /// This machine with one more frame on the call stack.
    pub open spec fn with_frame(self, frame: FrameView<isize>) -> Machine {
        Machine { frames: self.frames.push(frame), ..self }
    }

    /// This machine with the instruction pointer at `ip`.
    pub open spec fn at(self, ip: Pointer) -> Machine {
        Machine { ip, ..self }
    }

    /// Pushes `value` onto the current frame's operand stack.
    pub open spec fn push_value(self, value: isize) -> Result<Machine, RuntimeError> {
        if self.frames.len() == 0 {
            Err(RuntimeError::EmptyStack)
        } else {
            Ok(self.with_top(self.top().with_pushed(value)))
        }
    }

    /// The top of the current frame's operand stack.
    pub open spec fn peek_value(self) -> Result<isize, RuntimeError> {
        if self.frames.len() == 0 || self.top().operands.len() == 0 {
            Err(RuntimeError::EmptyStack)
        } else {
            Ok(self.top().operands.last())
        }
    }

    /// Pops the top of the current frame's operand stack.
    pub open spec fn pop_value(self) -> Result<(Machine, isize), RuntimeError> {
        if self.frames.len() == 0 || self.top().operands.len() == 0 {
            Err(RuntimeError::EmptyStack)
        } else {
            Ok((self.with_top(self.top().with_popped()), self.top().operands.last()))
        }
    }

    /// Pops the right operand, then the left one: the machine without them,
    /// the left operand and the right operand.
    pub open spec fn pop_pair(self) -> Result<(Machine, isize, isize), RuntimeError> {
        if self.frames.len() == 0 || self.top().operands.len() < 2 {
            Err(RuntimeError::EmptyStack)
        } else {
            let operands = self.top().operands;
            Ok(
                (
                    self.with_top(self.top().with_popped().with_popped()),
                    operands[operands.len() - 2],
                    operands[operands.len() - 1],
                ),
            )
        }
    }

    /// Pops one value and stores it in local slot `slot`.
    pub open spec fn write_variable(self, slot: VariableAddress) -> Result<Machine, RuntimeError> {
        match self.pop_value() {
            Err(e) => Err(e),
            Ok((m, value)) => {
                if m.top().writable(slot) {
                    Ok(m.with_top(m.top().with_local(slot, value)))
                } else {
                    Err(RuntimeError::WrongStackIndex)
                }
            },
        }
    }

    /// Pushes a copy of the value in local slot `slot`.
    pub open spec fn read_variable(self, slot: VariableAddress) -> Result<Machine, RuntimeError> {
        if self.frames.len() == 0 {
            Err(RuntimeError::EmptyStack)
        } else if slot >= self.top().locals.len() {
            Err(RuntimeError::WrongStackIndex)
        } else {
            self.push_value(self.top().locals[slot as int])
        }
    }

    /// Pops the right operand, then the left one, and pushes `lhs OP rhs`.
    pub open spec fn arithmetic(self, kind: Arithmetic) -> Result<Machine, RuntimeError> {
        match self.pop_pair() {
            Err(e) => Err(e),
            Ok((m, lhs, rhs)) => match computed(kind, lhs, rhs) {
                Err(e) => Err(e),
                Ok(value) => m.push_value(value),
            },
        }
    }

    /// The line that `Print` emits: the top of the operand stack.
    pub open spec fn printed(self) -> Result<Seq<char>, RuntimeError> {
        match self.peek_value() {
            Err(e) => Err(e),
            Ok(value) => Ok(decimal(value as int)),
        }
    }

    /// The line that `PrintVariable` emits: the name and the value in `slot`.
    pub open spec fn printed_variable(self, name: Seq<char>, slot: VariableAddress) -> Result<
        Seq<char>,
        RuntimeError,
    > {
        if self.frames.len() == 0 {
            Err(RuntimeError::EmptyStack)
        } else if slot >= self.top().locals.len() {
            Err(RuntimeError::WrongStackIndex)
        } else {
            Ok(variable_line(name, self.top().locals[slot as int]))
        }
    }

    /// This machine with one more line of output, or the fault of that line.
    pub open spec fn emit(self, line: Result<Seq<char>, RuntimeError>) -> Result<
        Machine,
        RuntimeError,
    > {
        match line {
            Err(e) => Err(e),
            Ok(text) => Ok(Machine { output: self.output.push(text), ..self }),
        }
    }

    /// Pops the right operand, then the left one, and sets the instruction
    /// pointer to `target` where `lhs <relation> rhs` holds.
    pub open spec fn jump_if(self, relation: Relation, target: Pointer) -> Result<
        Machine,
        RuntimeError,
    > {
        match self.pop_pair() {
            Err(e) => Err(e),
            Ok((m, lhs, rhs)) => Ok(
                if holds(relation, lhs, rhs) {
                    m.at(target)
                } else {
                    m
                },
            ),
        }
    }

    /// Pushes a frame that records the instruction pointer, and goes to `target`.
    pub open spec fn call_function(self, target: Pointer) -> Machine {
        self.with_frame(FrameView::fresh(self.ip)).at(target)
    }

    /// Pops the current frame and resumes at the pointer it recorded.
    pub open spec fn return_void(self) -> Result<Machine, RuntimeError> {
        if self.frames.len() == 0 {
            Err(RuntimeError::EmptyStack)
        } else {
            Ok(Machine { ip: self.top().ip, frames: self.frames.drop_last(), ..self })
        }
    }

    /// Pops one value and the current frame, and resumes at the pointer the
    /// frame recorded. The value is pushed onto the caller's frame; where
    /// the frame was the outermost one, nothing receives the value.
    pub open spec fn return_value(self) -> Result<Machine, RuntimeError> {
        match self.pop_value() {
            Err(e) => Err(e),
            Ok((_, value)) => {
                let rest = self.frames.drop_last();
                Ok(
                    Machine {
                        ip: self.top().ip,
                        frames: if rest.len() == 0 {
                            rest
                        } else {
                            rest.update(rest.len() - 1, rest.last().with_pushed(value))
                        },
                        ..self
                    },
                )
            },
        }
    }

    /// Pops one value and hands it to a new worker.
    pub open spec fn send(self) -> Result<Machine, RuntimeError> {
        match self.pop_value() {
            Err(e) => Err(e),
            Ok((m, value)) => {
                if m.channel.can_send() {
                    Ok(Machine { channel: m.channel.with_sent(value), ..m })
                } else {
                    Err(RuntimeError::WorkerPoolExhausted)
                }
            },
        }
    }

    /// Takes the message out of the channel and pushes it. With no message
    /// in the channel the machine waits.
    pub open spec fn receive(self) -> Step {
        if self.frames.len() == 0 {
            Step::Fault(RuntimeError::EmptyStack)
        } else {
            match self.channel.slot {
                None => Step::Blocked,
                Some(value) => Step::Next(
                    Machine { channel: self.channel.with_received(), ..self }.with_top(
                        self.top().with_pushed(value),
                    ),
                ),
            }
        }
    }

    /// What the instruction `op` makes of this machine, before the
    /// instruction pointer moves on.
    pub open spec fn execute(self, op: Op) -> Step {
        match op {
            Op::LoadValue(value) => step_of(self.push_value(value)),
            Op::WriteVariable(slot) => step_of(self.write_variable(slot)),
            Op::ReadVariable(slot) => step_of(self.read_variable(slot)),
            Op::Add => step_of(self.arithmetic(Arithmetic::Add)),
            Op::Sub => step_of(self.arithmetic(Arithmetic::Sub)),
            Op::Multiply => step_of(self.arithmetic(Arithmetic::Multiply)),
            Op::Divide => step_of(self.arithmetic(Arithmetic::Divide)),
            Op::Print => step_of(self.emit(self.printed())),
            Op::PrintVariable(name, slot) => step_of(self.emit(self.printed_variable(name, slot))),
            Op::Jump(target) => Step::Next(self.at(target)),
            Op::JumpIfEqual(target) => step_of(self.jump_if(Relation::Equal, target)),
            Op::JumpIfNotEqual(target) => step_of(self.jump_if(Relation::NotEqual, target)),
            Op::JumpIfGreater(target) => step_of(self.jump_if(Relation::Greater, target)),
            Op::JumpIfSmaller(target) => step_of(self.jump_if(Relation::Smaller, target)),
            Op::JumpIfGreaterEqual(target) => step_of(self.jump_if(Relation::GreaterEqual, target)),
            Op::JumpIfSmallerEqual(target) => step_of(self.jump_if(Relation::SmallerEqual, target)),
            Op::CallFunction(target) => Step::Next(self.call_function(target)),
            Op::Return => step_of(self.return_void()),
            Op::ReturnValue => step_of(self.return_value()),
            Op::Send => step_of(self.send()),
            Op::Receive => self.receive(),
            Op::Ignore => Step::Next(self),
        }
    }

    /// This machine with the instruction pointer moved on by one. A pointer
    /// that cannot grow stays: it lies past the end of every program.
    pub open spec fn advanced(self) -> Machine {
        if self.ip < usize::MAX {
            self.at((self.ip + 1) as Pointer)
        } else {
            self
        }
    }

    /// Whether the machine has ended on `program`: the instruction pointer
    /// ran past the end, or the outermost frame was popped.
    pub open spec fn halted(self, program: Seq<Op>) -> bool {
        self.ip >= program.len() || self.frames.len() == 0
    }
}

/// How a run stands.
#[derive(Debug, Clone, Copy, PartialEq, Eq, Structural)]
pub enum Status {
    /// The machine has not ended; it can go on.
    Running,
    /// The machine has ended, and no worker waits any more.
    Finished,
    /// The machine waits for a message that is not in the channel.
    Blocked,
}

impl Machine {
    /// One turn of the fetch, decode, execute loop on a machine that has not
    /// ended: the instruction under the pointer is executed, and the pointer
    /// moves on by one from where the instruction left it.
    pub open spec fn step(self, program: Seq<Op>) -> Step
        recommends
            !self.halted(program),
    {
        match self.execute(program[self.ip as int]) {
            Step::Next(m) => Step::Next(m.advanced()),
            Step::Blocked => Step::Blocked,
            Step::Fault(e) => Step::Fault(e),
        }
    }

    /// How an ended run stands once every worker was waited for: a worker
    /// that still waits to transmit can never do so, which is a fault.
    pub open spec fn joined(self) -> Result<Status, RuntimeError> {
        if self.channel.waiting.len() > 0 {
            Err(RuntimeError::WorkerFailed)
        } else {
            Ok(Status::Finished)
        }
    }

    /// The machine after a run of at most `fuel` instructions, and how the
    /// run stands then. A fault or a wait ends the run with the machine as
    /// it was before the instruction.
    pub open spec fn run(self, program: Seq<Op>, fuel: nat) -> (
        Machine,
        Result<Status, RuntimeError>,
    )
        decreases fuel,
    {
        if self.halted(program) {
            (self, self.joined())
        } else if fuel == 0 {
            (self, Ok(Status::Running))
        } else {
            match self.step(program) {
                Step::Next(m) => m.run(program, (fuel - 1) as nat),
                Step::Blocked => (self, Ok(Status::Blocked)),
                Step::Fault(e) => (self, Err(e)),
            }
        }
    }

    /// The machine with the outermost frame of a run of `program` on its
    /// call stack: a return from it leads past the end of the program.
    pub open spec fn started(self, program: Seq<Op>) -> Machine {
        self.with_frame(FrameView::fresh(program.len() as Pointer))
    }
}

} // verus!
