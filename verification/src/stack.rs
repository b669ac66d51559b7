//! A LIFO container with indexed access, used for operands, locals and the
//! call stack.

use vstd::prelude::*;
use crate::errors::RuntimeError;

verus! {

/// A stack whose bottom element has index 0 and whose top is the last element.
#[derive(Debug, PartialEq)]
pub struct Stack<T>(Vec<T>);

impl<T> View for Stack<T> {
    type V = Seq<T>;

    closed spec fn view(&self) -> Seq<T> {
        self.0@
    }
}

/// `Vec::capacity`: the number of elements the vector has room for, which is
/// never less than the number it holds.
#[verifier::external_body]
fn reserved<T>(elements: &Vec<T>) -> (n: usize)
    ensures
        n >= elements@.len(),
{
    elements.capacity()
}

impl<T> Stack<T> {
    /// An empty stack.
    pub fn new() -> (s: Stack<T>)
        ensures
            s@ == Seq::<T>::empty(),
    {
        Stack(Vec::new())
    }

    /// An empty stack with room for `capacity` elements.
    pub fn with_capacity(capacity: usize) -> (s: Stack<T>)
        ensures
            s@ == Seq::<T>::empty(),
    {
        Stack(Vec::with_capacity(capacity))
    }

    /// The number of elements the stack has room for.
    pub fn capacity(&self) -> (n: usize)
        ensures
            n >= self@.len(),
    {
        reserved(&self.0)
    }

    /// Pushes `val` on top.
    pub fn push(&mut self, val: T)
        ensures
            final(self)@ == old(self)@.push(val),
    {
        self.0.push(val);
    }

    /// Removes and returns the top element.
    pub fn pop(&mut self) -> (r: Result<T, RuntimeError>)
        ensures
            old(self)@.len() == 0 ==> r == Err::<T, RuntimeError>(RuntimeError::EmptyStack)
                && final(self)@ == old(self)@,
            old(self)@.len() > 0 ==> r == Ok::<T, RuntimeError>(old(self)@.last())
                && final(self)@ == old(self)@.drop_last(),
    {
        match self.0.pop() {
            Some(v) => Ok(v),
            None => Err(RuntimeError::EmptyStack),
        }
    }

    /// The top element.
    pub fn peek(&self) -> (r: Result<&T, RuntimeError>)
        ensures
            self@.len() == 0 ==> r == Err::<&T, RuntimeError>(RuntimeError::EmptyStack),
            self@.len() > 0 ==> r == Ok::<&T, RuntimeError>(&self@.last()),
    {
        let n: usize = self.0.len();
        if n == 0 {
            Err(RuntimeError::EmptyStack)
        } else {
            Ok(&self.0[n - 1])
        }
    }

    /// The top element, for writing. What is written through the reference
    /// replaces the top element.
    pub fn peek_mut(&mut self) -> (r: Result<&mut T, RuntimeError>)
        ensures
            old(self)@.len() == 0 ==> r is Err && r->Err_0 == RuntimeError::EmptyStack
                && final(self)@ == old(self)@,
            old(self)@.len() > 0 ==> r is Ok && *r->Ok_0 == old(self)@.last()
                && final(self)@ == old(self)@.update(old(self)@.len() - 1, *final(r->Ok_0)),
    {
        let n: usize = self.0.len();
        if n == 0 {
            Err(RuntimeError::EmptyStack)
        } else {
            Ok(&mut self.0[n - 1])
        }
    }

    /// The element at `idx`, counted from the bottom.
    pub fn get(&self, idx: usize) -> (r: Result<&T, RuntimeError>)
        ensures
            idx >= self@.len() ==> r == Err::<&T, RuntimeError>(RuntimeError::WrongStackIndex),
            idx < self@.len() ==> r == Ok::<&T, RuntimeError>(&self@[idx as int]),
    {
        if idx < self.0.len() {
            Ok(&self.0[idx])
        } else {
            Err(RuntimeError::WrongStackIndex)
        }
    }

    /// The element at `idx`, counted from the bottom, for writing. What is
    /// written through the reference replaces that element.
    pub fn get_mut(&mut self, idx: usize) -> (r: Result<&mut T, RuntimeError>)
        ensures
            idx >= old(self)@.len() ==> r is Err && r->Err_0 == RuntimeError::WrongStackIndex
                && final(self)@ == old(self)@,
            idx < old(self)@.len() ==> r is Ok && *r->Ok_0 == old(self)@[idx as int]
                && final(self)@ == old(self)@.update(idx as int, *final(r->Ok_0)),
    {
        if idx < self.0.len() {
            Ok(&mut self.0[idx])
        } else {
            Err(RuntimeError::WrongStackIndex)
        }
    }

    /// The number of elements.
    pub fn len(&self) -> (n: usize)
        ensures
            n == self@.len(),
    {
        self.0.len()
    }

    /// Whether the stack holds no element.
    pub fn is_empty(&self) -> (b: bool)
        ensures
            b == (self@.len() == 0),
    {
        self.0.len() == 0
    }
}

} // verus!
