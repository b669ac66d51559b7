//! The execution engine: it owns the instruction pointer, the call stack,
//! the channel and the output, and runs resolved instructions.

use vstd::prelude::*;
use crate::channel::Channel;
use crate::errors::RuntimeError;
use crate::frame::{Frame, FrameView, Pointer};
use crate::instruction::{ops_of, Instruction};
use crate::machine::{computed, Arithmetic, Machine, Relation, Status, Step};
use crate::stack::Stack;
use crate::text::integer_text;

verus! {

/// The room reserved for the call stack of a new engine.
const CALL_STACK_DEFAULT_CAPACITY: usize = 20;

/// Whether a call that changes the engine did what `expected` says: on
/// success the engine is the expected machine, on a fault it is unchanged.
pub open spec fn did(
    before: Machine,
    expected: Result<Machine, RuntimeError>,
    after: Machine,
    r: Result<(), RuntimeError>,
) -> bool {
    match expected {
        Ok(m) => r == Ok::<(), RuntimeError>(()) && after == m,
        Err(e) => r == Err::<(), RuntimeError>(e) && after == before,
    }
}

/// What each frame of a call stack holds.
pub open spec fn frame_views(frames: Seq<Frame<isize>>) -> Seq<FrameView<isize>> {
    Seq::new(frames.len(), |i: int| frames[i]@)
}

/// The characters of each line.
pub open spec fn line_views(lines: Seq<String>) -> Seq<Seq<char>> {
    Seq::new(lines.len(), |i: int| lines[i]@)
}

/// The engine.
#[derive(Debug, PartialEq)]
pub struct VirtualMachine {
    ip: Pointer,
    call_stack: Stack<Frame<isize>>,
    channel: Channel,
    output: Vec<String>,
}

impl View for VirtualMachine {
    type V = Machine;

    closed spec fn view(&self) -> Machine {
        Machine {
            ip: self.ip,
            frames: frame_views(self.call_stack@),
            channel: self.channel@,
            output: line_views(self.output@),
        }
    }
}

impl VirtualMachine {
    /// An engine before its first instruction: the pointer at 0, no frame,
    /// a free channel and no output.
    pub fn new() -> (vm: Self)
        ensures
            vm@ == Machine::fresh(),
    {
        let vm = Self {
            ip: 0,
            call_stack: Stack::with_capacity(CALL_STACK_DEFAULT_CAPACITY),
            channel: Channel::new(),
            output: Vec::new(),
        };
        assert(vm@.frames =~= Seq::<FrameView<isize>>::empty());
        assert(vm@.output =~= Seq::<Seq<char>>::empty());
        vm
    }

    /// The instruction pointer.
    pub fn ip(&self) -> (ip: Pointer)
        ensures
            ip == self@.ip,
    {
        self.ip
    }

    /// The call stack, outermost frame first.
    pub fn call_stack(&self) -> (s: &Stack<Frame<isize>>)
        ensures
            frame_views(s@) == self@.frames,
    {
        &self.call_stack
    }

    /// The call stack, for writing. What is done through the reference is
    /// done to the engine's frames; the rest of the engine stays.
    pub fn call_stack_mut(&mut self) -> (s: &mut Stack<Frame<isize>>)
        ensures
            frame_views(s@) == old(self)@.frames,
            final(self)@ == (Machine { frames: frame_views(final(s)@), ..old(self)@ }),
    {
        &mut self.call_stack
    }

    /// The channel.
    pub fn channel(&self) -> (c: &Channel)
        ensures
            c@ == self@.channel,
    {
        &self.channel
    }

    /// The lines printed so far.
    pub fn output(&self) -> (lines: &Vec<String>)
        ensures
            line_views(lines@) == self@.output,
    {
        &self.output
    }

    /// Puts `frame` on top of the call stack.
    pub fn push_frame(&mut self, frame: Frame<isize>)
        ensures
            final(self)@ == old(self)@.with_frame(frame@),
    {
        self.call_stack.push(frame);
        assert(self@.frames =~= old(self)@.frames.push(frame@));
    }

    /// Pushes `value` onto the current frame's operand stack.
    pub fn push_value(&mut self, value: isize) -> (r: Result<(), RuntimeError>)
        ensures
            did(old(self)@, old(self)@.push_value(value), final(self)@, r),
    {
        match self.call_stack.peek_mut() {
            Ok(frame) => {
                frame.push_value(value);
                assert(self@.frames =~= old(self)@.push_value(value)->Ok_0.frames);
                Ok(())
            },
            Err(e) => {
                assert(self@.frames =~= old(self)@.frames);
                Err(e)
            },
        }
    }

    /// Pops the top of the current frame's operand stack. On a fault the
    /// engine is unchanged.
    pub fn pop_value(&mut self) -> (r: Result<isize, RuntimeError>)
        ensures
            match old(self)@.pop_value() {
                Ok((m, value)) => r == Ok::<isize, RuntimeError>(value) && final(self)@ == m,
                Err(e) => r == Err::<isize, RuntimeError>(e) && final(self)@ == old(self)@,
            },
    {
        match self.call_stack.peek_mut() {
            Ok(frame) => {
                let r = frame.pop_value();
                proof {
                    if r is Ok {
                        assert(self@.frames =~= old(self)@.pop_value()->Ok_0.0.frames);
                    } else {
                        assert(self@.frames =~= old(self)@.frames);
                    }
                }
                r
            },
            Err(e) => {
                assert(self@.frames =~= old(self)@.frames);
                Err(e)
            },
        }
    }

    /// The top of the current frame's operand stack.
    pub fn peek_value(&self) -> (r: Result<&isize, RuntimeError>)
        ensures
            match self@.peek_value() {
                Ok(value) => r == Ok::<&isize, RuntimeError>(&value),
                Err(e) => r == Err::<&isize, RuntimeError>(e),
            },
    {
        match self.call_stack.peek() {
            Ok(frame) => frame.peek_value(),
            Err(e) => Err(e),
        }
    }
}

/// The result of `lhs OP rhs`.
pub fn compute(kind: Arithmetic, lhs: isize, rhs: isize) -> (r: Result<isize, RuntimeError>)
    ensures
        r == computed(kind, lhs, rhs),
{
    let value = match kind {
        Arithmetic::Add => lhs.checked_add(rhs),
        Arithmetic::Sub => lhs.checked_sub(rhs),
        Arithmetic::Multiply => lhs.checked_mul(rhs),
        Arithmetic::Divide => {
            if rhs == 0 {
                return Err(RuntimeError::DivisionByZero);
            }
            lhs.checked_div(rhs)
        },
    };
    match value {
        Some(v) => Ok(v),
        None => Err(RuntimeError::ArithmeticOverflow),
    }
}

/// Whether `lhs <relation> rhs` holds.
pub fn compare(relation: Relation, lhs: isize, rhs: isize) -> (b: bool)
    ensures
        b == crate::machine::holds(relation, lhs, rhs),
{
    match relation {
        Relation::Equal => lhs == rhs,
        Relation::NotEqual => lhs != rhs,
        Relation::Greater => lhs > rhs,
        Relation::Smaller => lhs < rhs,
        Relation::GreaterEqual => lhs >= rhs,
        Relation::SmallerEqual => lhs <= rhs,
    }
}

impl VirtualMachine {
    /// The two topmost operands of the current frame, the left one first.
    fn operand_pair(&self) -> (r: Result<(isize, isize), RuntimeError>)
        ensures
            match self@.pop_pair() {
                Ok((_, lhs, rhs)) => r == Ok::<(isize, isize), RuntimeError>((lhs, rhs)),
                Err(e) => r == Err::<(isize, isize), RuntimeError>(e),
            },
    {
        match self.call_stack.peek() {
            Ok(frame) => {
                let operands = frame.get_operand_stack();
                let n: usize = operands.len();
                if n < 2 {
                    return Err(RuntimeError::EmptyStack);
                }
                match operands.get(n - 2) {
                    Ok(lhs) => match operands.get(n - 1) {
                        Ok(rhs) => Ok((*lhs, *rhs)),
                        Err(e) => Err(e),
                    },
                    Err(e) => Err(e),
                }
            },
            Err(e) => Err(e),
        }
    }

    /// Pops the two topmost operands of the current frame.
    fn drop_pair(&mut self)
        requires
            old(self)@.pop_pair() is Ok,
        ensures
            final(self)@ == old(self)@.pop_pair()->Ok_0.0,
    {
        match self.call_stack.peek_mut() {
            Ok(frame) => {
                let _ = frame.pop_value();
                let _ = frame.pop_value();
            },
            Err(_) => {},
        }
        assert(self@.frames =~= old(self)@.pop_pair()->Ok_0.0.frames);
    }

    /// Pops one value and stores it in local slot `var_idx` of the current
    /// frame. The slots grow by one when the next unused slot is written.
    pub fn write_variable(&mut self, var_idx: usize) -> (r: Result<(), RuntimeError>)
        ensures
            did(old(self)@, old(self)@.write_variable(var_idx), final(self)@, r),
    {
        match self.call_stack.peek_mut() {
            Ok(frame) => {
                let value = match frame.peek_value() {
                    Ok(v) => *v,
                    Err(e) => {
                        assert(self@.frames =~= old(self)@.frames);
                        return Err(e);
                    },
                };
                if var_idx > frame.locals_len() {
                    assert(self@.frames =~= old(self)@.frames);
                    return Err(RuntimeError::WrongStackIndex);
                }
                let _ = frame.pop_value();
                let _ = frame.set_local(var_idx, value);
                assert(self@.frames =~= old(self)@.write_variable(var_idx)->Ok_0.frames);
                Ok(())
            },
            Err(e) => {
                assert(self@.frames =~= old(self)@.frames);
                Err(e)
            },
        }
    }

    /// Pushes a copy of the value in local slot `var_idx` of the current frame.
    pub fn read_variable(&mut self, var_idx: usize) -> (r: Result<(), RuntimeError>)
        ensures
            did(old(self)@, old(self)@.read_variable(var_idx), final(self)@, r),
    {
        match self.call_stack.peek_mut() {
            Ok(frame) => {
                match frame.get_local(var_idx) {
                    Ok(value) => {
                        frame.push_value(value);
                        assert(self@.frames =~= old(self)@.read_variable(var_idx)->Ok_0.frames);
                        Ok(())
                    },
                    Err(e) => {
                        assert(self@.frames =~= old(self)@.frames);
                        Err(e)
                    },
                }
            },
            Err(e) => {
                assert(self@.frames =~= old(self)@.frames);
                Err(e)
            },
        }
    }

    /// Pops the right operand, then the left one, and pushes `lhs OP rhs`.
    pub fn arithmetic(&mut self, kind: Arithmetic) -> (r: Result<(), RuntimeError>)
        ensures
            did(old(self)@, old(self)@.arithmetic(kind), final(self)@, r),
    {
        let (lhs, rhs) = match self.operand_pair() {
            Ok(pair) => pair,
            Err(e) => {
                return Err(e);
            },
        };
        let value = match compute(kind, lhs, rhs) {
            Ok(value) => value,
            Err(e) => {
                return Err(e);
            },
        };
        self.drop_pair();
        self.push_value(value)
    }

    /// Pops the right operand, then the left one, and pushes `lhs + rhs`.
    pub fn add(&mut self) -> (r: Result<(), RuntimeError>)
        ensures
            did(old(self)@, old(self)@.arithmetic(Arithmetic::Add), final(self)@, r),
    {
        self.arithmetic(Arithmetic::Add)
    }

    /// Pops the right operand, then the left one, and pushes `lhs - rhs`.
    pub fn sub(&mut self) -> (r: Result<(), RuntimeError>)
        ensures
            did(old(self)@, old(self)@.arithmetic(Arithmetic::Sub), final(self)@, r),
    {
        self.arithmetic(Arithmetic::Sub)
    }

    /// Pops the right operand, then the left one, and pushes `lhs * rhs`.
    pub fn multiply(&mut self) -> (r: Result<(), RuntimeError>)
        ensures
            did(old(self)@, old(self)@.arithmetic(Arithmetic::Multiply), final(self)@, r),
    {
        self.arithmetic(Arithmetic::Multiply)
    }

    /// Pops the right operand, then the left one, and pushes `lhs / rhs`,
    /// rounded towards zero. A zero divisor is a fault.
    pub fn divide(&mut self) -> (r: Result<(), RuntimeError>)
        ensures
            did(old(self)@, old(self)@.arithmetic(Arithmetic::Divide), final(self)@, r),
    {
        self.arithmetic(Arithmetic::Divide)
    }
}

impl VirtualMachine {
    /// The line that `Print` emits: the top of the operand stack. The
    /// engine is only observed.
    pub fn print(&self) -> (r: Result<String, RuntimeError>)
        ensures
            match self@.printed() {
                Ok(line) => r is Ok && r->Ok_0@ == line,
                Err(e) => r is Err && r->Err_0 == e,
            },
    {
        match self.peek_value() {
            Ok(value) => Ok(integer_text(*value)),
            Err(e) => Err(e),
        }
    }

    /// The line that `PrintVariable` emits: the name, and the value in local
    /// slot `var_idx` of the current frame. The engine is only observed.
    pub fn print_variable(&self, var_name: &str, var_idx: usize) -> (r: Result<
        String,
        RuntimeError,
    >)
        ensures
            match self@.printed_variable(var_name@, var_idx) {
                Ok(line) => r is Ok && r->Ok_0@ == line,
                Err(e) => r is Err && r->Err_0 == e,
            },
    {
        match self.call_stack.peek() {
            Ok(frame) => match frame.get_local(var_idx) {
                Ok(value) => {
                    let number = integer_text(value);
                    Ok(String::from_str(var_name).concat(" = ").concat(number.as_str()))
                },
                Err(e) => Err(e),
            },
            Err(e) => Err(e),
        }
    }

    /// Appends the line to the output, or hands the fault on.
    fn emit(&mut self, line: Result<String, RuntimeError>) -> (r: Result<(), RuntimeError>)
        ensures
            did(
                old(self)@,
                old(self)@.emit(
                    match line {
                        Ok(text) => Ok(text@),
                        Err(e) => Err(e),
                    },
                ),
                final(self)@,
                r,
            ),
    {
        match line {
            Ok(text) => {
                self.output.push(text);
                assert(self@.output =~= old(self)@.output.push(text@));
                Ok(())
            },
            Err(e) => Err(e),
        }
    }

    /// Sets the instruction pointer to `ip`.
    pub fn jump(&mut self, ip: Pointer)
        ensures
            final(self)@ == old(self)@.at(ip),
    {
        self.ip = ip;
    }

    /// Pops the right operand, then the left one, and sets the instruction
    /// pointer to `label_ip` where `lhs <relation> rhs` holds.
    pub fn jump_if(&mut self, relation: Relation, label_ip: Pointer) -> (r: Result<
        (),
        RuntimeError,
    >)
        ensures
            did(old(self)@, old(self)@.jump_if(relation, label_ip), final(self)@, r),
    {
        let (lhs, rhs) = match self.operand_pair() {
            Ok(pair) => pair,
            Err(e) => {
                return Err(e);
            },
        };
        self.drop_pair();
        if compare(relation, lhs, rhs) {
            self.ip = label_ip;
        }
        Ok(())
    }

    /// Jumps to `label_ip` if the two topmost operands are equal.
    pub fn jie(&mut self, label_ip: Pointer) -> (r: Result<(), RuntimeError>)
        ensures
            did(old(self)@, old(self)@.jump_if(Relation::Equal, label_ip), final(self)@, r),
    {
        self.jump_if(Relation::Equal, label_ip)
    }

    /// Jumps to `label_ip` if the two topmost operands differ.
    pub fn jine(&mut self, label_ip: Pointer) -> (r: Result<(), RuntimeError>)
        ensures
            did(old(self)@, old(self)@.jump_if(Relation::NotEqual, label_ip), final(self)@, r),
    {
        self.jump_if(Relation::NotEqual, label_ip)
    }

    /// Jumps to `label_ip` if the left operand is greater than the right one.
    pub fn jilg(&mut self, label_ip: Pointer) -> (r: Result<(), RuntimeError>)
        ensures
            did(old(self)@, old(self)@.jump_if(Relation::Greater, label_ip), final(self)@, r),
    {
        self.jump_if(Relation::Greater, label_ip)
    }

    /// Jumps to `label_ip` if the left operand is smaller than the right one.
    pub fn jils(&mut self, label_ip: Pointer) -> (r: Result<(), RuntimeError>)
        ensures
            did(old(self)@, old(self)@.jump_if(Relation::Smaller, label_ip), final(self)@, r),
    {
        self.jump_if(Relation::Smaller, label_ip)
    }

    /// Jumps to `label_ip` if the left operand is greater than or equal to
    /// the right one.
    pub fn jilge(&mut self, label_ip: Pointer) -> (r: Result<(), RuntimeError>)
        ensures
            did(
                old(self)@,
                old(self)@.jump_if(Relation::GreaterEqual, label_ip),
                final(self)@,
                r,
            ),
    {
        self.jump_if(Relation::GreaterEqual, label_ip)
    }

    /// Jumps to `label_ip` if the left operand is smaller than or equal to
    /// the right one.
    pub fn jilse(&mut self, label_ip: Pointer) -> (r: Result<(), RuntimeError>)
        ensures
            did(
                old(self)@,
                old(self)@.jump_if(Relation::SmallerEqual, label_ip),
                final(self)@,
                r,
            ),
    {
        self.jump_if(Relation::SmallerEqual, label_ip)
    }

    /// Pushes a frame that records the instruction pointer as the address to
    /// return to, and sets the pointer to `start_ip`.
    pub fn call_function(&mut self, start_ip: Pointer)
        ensures
            final(self)@ == old(self)@.call_function(start_ip),
    {
        let frame: Frame<isize> = Frame::new(self.ip);
        self.call_stack.push(frame);
        self.ip = start_ip;
        assert(self@.frames =~= old(self)@.call_function(start_ip).frames);
    }

    /// Pops the current frame and resumes at the pointer it recorded. No
    /// value is handed over.
    pub fn return_void(&mut self) -> (r: Result<(), RuntimeError>)
        ensures
            did(old(self)@, old(self)@.return_void(), final(self)@, r),
    {
        match self.call_stack.pop() {
            Ok(frame) => {
                self.ip = frame.return_address();
                assert(self@.frames =~= old(self)@.frames.drop_last());
                Ok(())
            },
            Err(e) => {
                assert(self@.frames =~= old(self)@.frames);
                Err(e)
            },
        }
    }

    /// Pops one value and the current frame, and resumes at the pointer the
    /// frame recorded. The value is pushed onto the caller's frame; where
    /// the frame was the outermost one, nothing receives the value.
    pub fn return_value(&mut self) -> (r: Result<(), RuntimeError>)
        ensures
            did(old(self)@, old(self)@.return_value(), final(self)@, r),
    {
        let value = match self.peek_value() {
            Ok(value) => *value,
            Err(e) => {
                return Err(e);
            },
        };
        let ghost rest = old(self)@.frames.drop_last();
        match self.call_stack.pop() {
            Ok(frame) => {
                self.ip = frame.return_address();
                assert(self@.frames =~= rest);
                if !self.call_stack.is_empty() {
                    let _ = self.push_value(value);
                }
                Ok(())
            },
            Err(e) => Err(e),
        }
    }

    /// Pops one value and hands it to a new worker, which transmits it on
    /// the channel. The engine goes on at once. Where every worker of the
    /// pool waits already, the send is a fault.
    pub fn send(&mut self) -> (r: Result<(), RuntimeError>)
        ensures
            did(old(self)@, old(self)@.send(), final(self)@, r),
    {
        let value = match self.peek_value() {
            Ok(value) => *value,
            Err(e) => {
                return Err(e);
            },
        };
        if !self.channel.can_send() {
            return Err(RuntimeError::WorkerPoolExhausted);
        }
        let _ = self.pop_value();
        let _ = self.channel.send(value);
        Ok(())
    }

    /// Takes the message out of the channel and pushes it. Returns `false`,
    /// with the engine unchanged, where the channel holds no message: the
    /// engine waits.
    pub fn receive(&mut self) -> (r: Result<bool, RuntimeError>)
        ensures
            match old(self)@.receive() {
                Step::Next(m) => r == Ok::<bool, RuntimeError>(true) && final(self)@ == m,
                Step::Blocked => r == Ok::<bool, RuntimeError>(false) && final(self)@ == old(
                    self,
                )@,
                Step::Fault(e) => r == Err::<bool, RuntimeError>(e) && final(self)@ == old(
                    self,
                )@,
            },
    {
        if self.call_stack.is_empty() {
            return Err(RuntimeError::EmptyStack);
        }
        match self.channel.receive() {
            Some(value) => {
                let _ = self.push_value(value);
                Ok(true)
            },
            None => Ok(false),
        }
    }
}

impl VirtualMachine {
    /// Executes one instruction, without moving the instruction pointer on.
    /// Returns `false`, with the engine unchanged, where the instruction
    /// waits for a message. On a fault the engine is unchanged.
    pub fn execute(&mut self, instruction: &Instruction) -> (r: Result<bool, RuntimeError>)
        ensures
            match old(self)@.execute(instruction@) {
                Step::Next(m) => r == Ok::<bool, RuntimeError>(true) && final(self)@ == m,
                Step::Blocked => r == Ok::<bool, RuntimeError>(false) && final(self)@ == old(
                    self,
                )@,
                Step::Fault(e) => r == Err::<bool, RuntimeError>(e) && final(self)@ == old(
                    self,
                )@,
            },
    {
        let done = match instruction {
            Instruction::LoadValue(value) => self.push_value(*value),
            Instruction::WriteVariable(slot) => self.write_variable(*slot),
            Instruction::ReadVariable(slot) => self.read_variable(*slot),
            Instruction::Add => self.add(),
            Instruction::Sub => self.sub(),
            Instruction::Multiply => self.multiply(),
            Instruction::Divide => self.divide(),
            Instruction::Print => {
                let line = self.print();
                self.emit(line)
            },
            Instruction::PrintVariable(name, slot) => {
                let line = self.print_variable(name.as_str(), *slot);
                self.emit(line)
            },
            Instruction::Jump(target) => {
                self.jump(*target);
                Ok(())
            },
            Instruction::JumpIfEqual(target) => self.jie(*target),
            Instruction::JumpIfNotEqual(target) => self.jine(*target),
            Instruction::JumpIfGreater(target) => self.jilg(*target),
            Instruction::JumpIfSmaller(target) => self.jils(*target),
            Instruction::JumpIfGreaterEqual(target) => self.jilge(*target),
            Instruction::JumpIfSmallerEqual(target) => self.jilse(*target),
            Instruction::CallFunction(target) => {
                self.call_function(*target);
                Ok(())
            },
            Instruction::Return => self.return_void(),
            Instruction::ReturnValue => self.return_value(),
            Instruction::Send => self.send(),
            Instruction::Receive => {
                return self.receive();
            },
            Instruction::Ignore => Ok(()),
        };
        match done {
            Ok(()) => Ok(true),
            Err(e) => Err(e),
        }
    }

    /// Whether the engine has ended on `program`.
    pub fn halted(&self, program: &Vec<Instruction>) -> (b: bool)
        ensures
            b == self@.halted(ops_of(program@)),
    {
        self.ip >= program.len() || self.call_stack.is_empty()
    }

    /// One turn of the fetch, decode, execute loop. An engine that has ended
    /// stays as it is and is `Finished`. Otherwise the instruction under the
    /// pointer is executed and the pointer moves on by one; an instruction
    /// that waits or faults leaves the engine unchanged.
    pub fn step(&mut self, program: &Vec<Instruction>) -> (r: Result<Status, RuntimeError>)
        ensures
            old(self)@.halted(ops_of(program@)) ==> r == Ok::<Status, RuntimeError>(
                Status::Finished,
            ) && final(self)@ == old(self)@,
            !old(self)@.halted(ops_of(program@)) ==> match old(self)@.step(ops_of(program@)) {
                Step::Next(m) => r == Ok::<Status, RuntimeError>(Status::Running) && final(self)@
                    == m,
                Step::Blocked => r == Ok::<Status, RuntimeError>(Status::Blocked) && final(self)@
                    == old(self)@,
                Step::Fault(e) => r == Err::<Status, RuntimeError>(e) && final(self)@ == old(
                    self,
                )@,
            },
    {
        if self.halted(program) {
            return Ok(Status::Finished);
        }
        assert(ops_of(program@)[self.ip as int] == program@[self.ip as int]@);
        match self.execute(&program[self.ip]) {
            Ok(true) => {
                if self.ip < usize::MAX {
                    self.ip = self.ip + 1;
                }
                Ok(Status::Running)
            },
            Ok(false) => Ok(Status::Blocked),
            Err(e) => Err(e),
        }
    }

    /// Waits for every worker once the engine has ended: a worker that still
    /// waits to transmit is a fault.
    pub fn join(&self) -> (r: Result<Status, RuntimeError>)
        ensures
            r == self@.joined(),
    {
        if self.channel.waiting() > 0 {
            Err(RuntimeError::WorkerFailed)
        } else {
            Ok(Status::Finished)
        }
    }

    /// Goes on with a run for at most `max_steps` instructions. The run ends
    /// early where the engine ends, waits or faults.
    pub fn resume(&mut self, program: &Vec<Instruction>, max_steps: usize) -> (r: Result<
        Status,
        RuntimeError,
    >)
        ensures
            (final(self)@, r) == old(self)@.run(ops_of(program@), max_steps as nat),
    {
        let ghost ops = ops_of(program@);
        let mut steps: usize = 0;
        loop
            invariant
                ops == ops_of(program@),
                steps <= max_steps,
                old(self)@.run(ops, max_steps as nat) == self@.run(ops, (max_steps - steps) as nat),
            decreases max_steps - steps,
        {
            if self.halted(program) {
                return self.join();
            }
            if steps == max_steps {
                return Ok(Status::Running);
            }
            match self.step(program) {
                Ok(Status::Running) => {
                    steps = steps + 1;
                },
                Ok(status) => {
                    return Ok(status);
                },
                Err(e) => {
                    return Err(e);
                },
            }
        }
    }

    /// Runs `program`: the outermost frame is pushed, and the instructions
    /// are executed until the engine ends, waits or faults.
    pub fn run(&mut self, program: Vec<Instruction>) -> (r: Result<Status, RuntimeError>)
        ensures
            (final(self)@, r) == old(self)@.started(ops_of(program@)).run(
                ops_of(program@),
                usize::MAX as nat,
            ),
    {
        self.push_frame(Frame::new(program.len()));
        self.resume(&program, usize::MAX)
    }
}

} // verus!
