//! The two fault taxonomies: faults found while resolving a program, and
//! faults raised while running one.

use vstd::prelude::*;

verus! {

/// What a `ParseError` says, with each name as the characters it holds.
pub enum ParseFault {
    DuplicatedFunction(Seq<char>),
    FunctionNotFound(Seq<char>),
    VariableNotFound,
    DuplicatedLabel(Seq<char>),
    LabelNotFound(Seq<char>),
    FunctionNeverReturned(Seq<char>),
    ReturnOutsideFunction(Seq<char>),
    InvalidInstruction(Seq<char>),
}

/// A fault found before any instruction executes. The whole program is rejected.
#[derive(Debug, PartialEq, Eq)]
pub enum ParseError {
    /// A function name was declared a second time.
    DuplicatedFunction(String),
    /// A call names a function that was never declared.
    FunctionNotFound(String),
    /// A variable operand has no resolved slot left to take.
    VariableNotFound,
    /// A label name was declared a second time.
    DuplicatedLabel(String),
    /// A jump names a label that was never declared.
    LabelNotFound(String),
    /// A function declaration is not followed by any return marker.
    FunctionNeverReturned(String),
    /// A return marker stands outside every function; holds the line number.
    ReturnOutsideFunction(String),
    /// A token line that is no instruction; holds the line, joined by spaces.
    InvalidInstruction(String),
}

/// A fault raised while running: the resolved bytecode and the engine disagree.
#[derive(Debug, PartialEq, Eq, Clone, Copy, Structural)]
pub enum RuntimeError {
    /// A pop or peek found nothing on the stack.
    EmptyStack,
    /// An index or slot lies outside the stack.
    WrongStackIndex,
    /// The divisor of a division was zero.
    DivisionByZero,
    /// An arithmetic result does not fit the value type.
    ArithmeticOverflow,
    /// A send found every worker of the pool still waiting to transmit.
    WorkerPoolExhausted,
    /// The run ended while a worker was still waiting to transmit.
    WorkerFailed,
}

impl View for ParseError {
    type V = ParseFault;

    open spec fn view(&self) -> ParseFault {
        match self {
            ParseError::DuplicatedFunction(name) => ParseFault::DuplicatedFunction(name@),
            ParseError::FunctionNotFound(name) => ParseFault::FunctionNotFound(name@),
            ParseError::VariableNotFound => ParseFault::VariableNotFound,
            ParseError::DuplicatedLabel(name) => ParseFault::DuplicatedLabel(name@),
            ParseError::LabelNotFound(name) => ParseFault::LabelNotFound(name@),
            ParseError::FunctionNeverReturned(name) => ParseFault::FunctionNeverReturned(name@),
            ParseError::ReturnOutsideFunction(line) => ParseFault::ReturnOutsideFunction(line@),
            ParseError::InvalidInstruction(line) => ParseFault::InvalidInstruction(line@),
        }
    }
}

impl ParseFault {
    /// The sentence that describes the fault and names the offending symbol or line.
    pub open spec fn message(self) -> Seq<char> {
        match self {
            ParseFault::DuplicatedFunction(name) => "Function '"@ + name
                + "' duplicate found during parsing"@,
            ParseFault::FunctionNotFound(name) => "Function '"@ + name
                + "' has never been declared."@,
            ParseFault::VariableNotFound => "Variable has never been initialized."@,
            ParseFault::DuplicatedLabel(name) => "Label '"@ + name
                + "' duplicate found during parsing."@,
            ParseFault::LabelNotFound(name) => "Jump to non-existant label '"@ + name
                + "' found."@,
            ParseFault::FunctionNeverReturned(name) => "Missing return statement in the function '"@
                + name + "'."@,
            ParseFault::ReturnOutsideFunction(line) => "Return can only be used within a function (Line #"@
                + line + ")."@,
            ParseFault::InvalidInstruction(line) => "Unknown instruction '"@ + line + "'."@,
        }
    }
}

fn framed(before: &str, name: &str, after: &str) -> (s: String)
    ensures
        s@ == before@ + name@ + after@,
{
    String::from_str(before).concat(name).concat(after)
}

impl ParseError {
    /// The sentence that describes the fault.
    pub fn message(&self) -> (s: String)
        ensures
            s@ == self@.message(),
    {
        match self {
            ParseError::DuplicatedFunction(name) => framed(
                "Function '",
                name.as_str(),
                "' duplicate found during parsing",
            ),
            ParseError::FunctionNotFound(name) => framed(
                "Function '",
                name.as_str(),
                "' has never been declared.",
            ),
            ParseError::VariableNotFound => String::from_str(
                "Variable has never been initialized.",
            ),
            ParseError::DuplicatedLabel(name) => framed(
                "Label '",
                name.as_str(),
                "' duplicate found during parsing.",
            ),
            ParseError::LabelNotFound(name) => framed(
                "Jump to non-existant label '",
                name.as_str(),
                "' found.",
            ),
            ParseError::FunctionNeverReturned(name) => framed(
                "Missing return statement in the function '",
                name.as_str(),
                "'.",
            ),
            ParseError::ReturnOutsideFunction(line) => framed(
                "Return can only be used within a function (Line #",
                line.as_str(),
                ").",
            ),
            ParseError::InvalidInstruction(line) => framed(
                "Unknown instruction '",
                line.as_str(),
                "'.",
            ),
        }
    }
}

impl RuntimeError {
    /// The sentence that describes the fault.
    pub open spec fn message_text(self) -> Seq<char> {
        match self {
            RuntimeError::EmptyStack => "Stack is empty, nothing to pop/peek."@,
            RuntimeError::WrongStackIndex => "Element with provided index doesn't exist in the stack."@,
            RuntimeError::DivisionByZero => "Division by zero."@,
            RuntimeError::ArithmeticOverflow => "Arithmetic result doesn't fit the value type."@,
            RuntimeError::WorkerPoolExhausted => "Worker pool is exhausted, nothing can be sent."@,
            RuntimeError::WorkerFailed => "A worker could not transmit its value."@,
        }
    }

    /// The sentence that describes the fault.
    pub fn message(&self) -> (s: &'static str)
        ensures
            s@ == self.message_text(),
    {
        match self {
            RuntimeError::EmptyStack => "Stack is empty, nothing to pop/peek.",
            RuntimeError::WrongStackIndex => "Element with provided index doesn't exist in the stack.",
            RuntimeError::DivisionByZero => "Division by zero.",
            RuntimeError::ArithmeticOverflow => "Arithmetic result doesn't fit the value type.",
            RuntimeError::WorkerPoolExhausted => "Worker pool is exhausted, nothing can be sent.",
            RuntimeError::WorkerFailed => "A worker could not transmit its value.",
        }
    }
}

} // verus!
