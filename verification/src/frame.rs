//! One invocation's context: where to resume in the caller, the local
//! variable slots, and a private operand stack.

use vstd::prelude::*;
use crate::errors::RuntimeError;
use crate::stack::Stack;

verus! {

/// An address: of an instruction, or of a local slot in a frame.
pub type Pointer = usize;

/// What a frame holds.
pub struct FrameView<T> {
    /// The instruction pointer to resume at in the caller.
    pub ip: Pointer,
    /// The operand stack, bottom first.
    pub operands: Seq<T>,
    /// The local slots, by index.
    pub locals: Seq<T>,
}

impl<T> FrameView<T> {
    /// What a freshly created frame holds.
    pub open spec fn fresh(ip: Pointer) -> FrameView<T> {
        FrameView { ip, operands: Seq::empty(), locals: Seq::empty() }
    }

    /// This frame with `value` pushed on its operand stack.
    pub open spec fn with_pushed(self, value: T) -> FrameView<T> {
        FrameView { operands: self.operands.push(value), ..self }
    }

    /// This frame without the top of its operand stack.
    pub open spec fn with_popped(self) -> FrameView<T> {
        FrameView { operands: self.operands.drop_last(), ..self }
    }

    /// Whether slot `idx` can be written: it exists, or is the next unused one.
    pub open spec fn writable(self, idx: Pointer) -> bool {
        idx <= self.locals.len()
    }

    /// This frame with `value` stored in the writable slot `idx`.
    pub open spec fn with_local(self, idx: Pointer, value: T) -> FrameView<T> {
        if idx == self.locals.len() {
            FrameView { locals: self.locals.push(value), ..self }
        } else {
            FrameView { locals: self.locals.update(idx as int, value), ..self }
        }
    }
}

/// The context of one invocation.
#[derive(Debug, PartialEq)]
pub struct Frame<T> {
    /// The instruction pointer to resume at in the caller.
    pub ip: Pointer,
    operand_stack: Stack<T>,
    locals: Stack<T>,
}

impl<T> View for Frame<T> {
    type V = FrameView<T>;

    closed spec fn view(&self) -> FrameView<T> {
        FrameView { ip: self.ip, operands: self.operand_stack@, locals: self.locals@ }
    }
}

impl<T: Copy> Frame<T> {
    /// A frame with no operands and no locals that resumes at `ip`.
    pub fn new(ip: Pointer) -> (f: Self)
        ensures
            f@ == FrameView::<T>::fresh(ip),
    {
        Self { ip, operand_stack: Stack::new(), locals: Stack::new() }
    }

    /// The instruction pointer to resume at in the caller.
    pub fn return_address(&self) -> (ip: Pointer)
        ensures
            ip == self@.ip,
    {
        self.ip
    }

    /// Pushes `value` on the operand stack.
    pub fn push_value(&mut self, value: T)
        ensures
            final(self)@ == old(self)@.with_pushed(value),
    {
        self.operand_stack.push(value);
    }

    /// Pops the top of the operand stack.
    pub fn pop_value(&mut self) -> (r: Result<T, RuntimeError>)
        ensures
            old(self)@.operands.len() == 0 ==> r == Err::<T, RuntimeError>(
                RuntimeError::EmptyStack,
            ) && final(self)@ == old(self)@,
            old(self)@.operands.len() > 0 ==> r == Ok::<T, RuntimeError>(
                old(self)@.operands.last(),
            ) && final(self)@ == old(self)@.with_popped(),
    {
        self.operand_stack.pop()
    }

    /// The top of the operand stack.
    pub fn peek_value(&self) -> (r: Result<&T, RuntimeError>)
        ensures
            self@.operands.len() == 0 ==> r == Err::<&T, RuntimeError>(RuntimeError::EmptyStack),
            self@.operands.len() > 0 ==> r == Ok::<&T, RuntimeError>(&self@.operands.last()),
    {
        self.operand_stack.peek()
    }

    /// Stores `value` in slot `local_idx`. The slots grow by one when the
    /// next unused index is written; any index beyond that is a fault.
    pub fn set_local(&mut self, local_idx: usize, value: T) -> (r: Result<(), RuntimeError>)
        ensures
            old(self)@.writable(local_idx) ==> r == Ok::<(), RuntimeError>(()) && final(self)@
                == old(self)@.with_local(local_idx, value),
            !old(self)@.writable(local_idx) ==> r == Err::<(), RuntimeError>(
                RuntimeError::WrongStackIndex,
            ) && final(self)@ == old(self)@,
    {
        if local_idx == self.locals.len() {
            self.locals.push(value);
            Ok(())
        } else if local_idx < self.locals.len() {
            match self.locals.get_mut(local_idx) {
                Ok(slot) => {
                    *slot = value;
                    Ok(())
                },
                Err(e) => Err(e),
            }
        } else {
            Err(RuntimeError::WrongStackIndex)
        }
    }

    /// A copy of the value in slot `local_idx`.
    pub fn get_local(&self, local_idx: usize) -> (r: Result<T, RuntimeError>)
        ensures
            local_idx < self@.locals.len() ==> r == Ok::<T, RuntimeError>(
                self@.locals[local_idx as int],
            ),
            local_idx >= self@.locals.len() ==> r == Err::<T, RuntimeError>(
                RuntimeError::WrongStackIndex,
            ),
    {
        match self.locals.get(local_idx) {
            Ok(v) => Ok(*v),
            Err(e) => Err(e),
        }
    }

    /// The number of local slots in use.
    pub fn locals_len(&self) -> (n: usize)
        ensures
            n == self@.locals.len(),
    {
        self.locals.len()
    }

    /// The operand stack.
    pub fn get_operand_stack(&self) -> (s: &Stack<T>)
        ensures
            s@ == self@.operands,
    {
        &self.operand_stack
    }

    /// The operand stack, for writing. What is done through the reference is
    /// done to this frame's operands; its locals and pointer stay.
    pub fn get_operand_stack_mut(&mut self) -> (s: &mut Stack<T>)
        ensures
            s@ == old(self)@.operands,
            final(self)@ == (FrameView { operands: final(s)@, ..old(self)@ }),
    {
        &mut self.operand_stack
    }
}

} // verus!
