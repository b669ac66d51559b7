//! The resolved instruction set, and the translation of one token line into
//! an instruction.

use vstd::prelude::*;
use crate::errors::{ParseError, ParseFault};
use crate::frame::Pointer;
use crate::functions::{FunctionMap, Functions};
use crate::labels::{LabelMap, Labels};
use crate::text::{
    integer_literal, join_words, joined, parse_integer, same_text, strip_quotes, unquoted,
    words_of, Line,
};
use crate::variables::{VariableAddress, Variables};

verus! {

/// A resolved instruction. Operands are addresses and slots, never names;
/// the name in `PrintVariable` is only printed.
#[derive(Debug, PartialEq)]
pub enum Instruction {
    LoadValue(isize),
    WriteVariable(VariableAddress),
    ReadVariable(VariableAddress),
    Add,
    Sub,
    Multiply,
    Divide,
    Print,
    PrintVariable(String, VariableAddress),
    Jump(Pointer),
    JumpIfEqual(Pointer),
    JumpIfNotEqual(Pointer),
    JumpIfGreater(Pointer),
    JumpIfSmaller(Pointer),
    JumpIfGreaterEqual(Pointer),
    JumpIfSmallerEqual(Pointer),
    CallFunction(Pointer),
    Return,
    ReturnValue,
    Send,
    Receive,
    Ignore,
}

/// What an instruction says, with the printed name as the characters it holds.
pub enum Op {
    LoadValue(isize),
    WriteVariable(VariableAddress),
    ReadVariable(VariableAddress),
    Add,
    Sub,
    Multiply,
    Divide,
    Print,
    PrintVariable(Seq<char>, VariableAddress),
    Jump(Pointer),
    JumpIfEqual(Pointer),
    JumpIfNotEqual(Pointer),
    JumpIfGreater(Pointer),
    JumpIfSmaller(Pointer),
    JumpIfGreaterEqual(Pointer),
    JumpIfSmallerEqual(Pointer),
    CallFunction(Pointer),
    Return,
    ReturnValue,
    Send,
    Receive,
    Ignore,
}

impl View for Instruction {
    type V = Op;

    open spec fn view(&self) -> Op {
        match self {
            Instruction::LoadValue(v) => Op::LoadValue(*v),
            Instruction::WriteVariable(slot) => Op::WriteVariable(*slot),
            Instruction::ReadVariable(slot) => Op::ReadVariable(*slot),
            Instruction::Add => Op::Add,
            Instruction::Sub => Op::Sub,
            Instruction::Multiply => Op::Multiply,
            Instruction::Divide => Op::Divide,
            Instruction::Print => Op::Print,
            Instruction::PrintVariable(name, slot) => Op::PrintVariable(name@, *slot),
            Instruction::Jump(ip) => Op::Jump(*ip),
            Instruction::JumpIfEqual(ip) => Op::JumpIfEqual(*ip),
            Instruction::JumpIfNotEqual(ip) => Op::JumpIfNotEqual(*ip),
            Instruction::JumpIfGreater(ip) => Op::JumpIfGreater(*ip),
            Instruction::JumpIfSmaller(ip) => Op::JumpIfSmaller(*ip),
            Instruction::JumpIfGreaterEqual(ip) => Op::JumpIfGreaterEqual(*ip),
            Instruction::JumpIfSmallerEqual(ip) => Op::JumpIfSmallerEqual(*ip),
            Instruction::CallFunction(ip) => Op::CallFunction(*ip),
            Instruction::Return => Op::Return,
            Instruction::ReturnValue => Op::ReturnValue,
            Instruction::Send => Op::Send,
            Instruction::Receive => Op::Receive,
            Instruction::Ignore => Op::Ignore,
        }
    }
}

/// What each instruction of `program` says.
pub open spec fn ops_of(program: Seq<Instruction>) -> Seq<Op> {
    Seq::new(program.len(), |i: int| program[i]@)
}

/// Whether `line` is the mnemonic `m` alone.
pub open spec fn is_nullary(line: Line, m: Seq<char>) -> bool {
    line.len() == 1 && line[0] == m
}

/// Whether `line` is the mnemonic `m` with one operand.
pub open spec fn is_unary(line: Line, m: Seq<char>) -> bool {
    line.len() == 2 && line[0] == m
}

/// Whether `line` refers to a variable: it writes, reads or prints one.
pub open spec fn names_variable(line: Line) -> bool {
    is_unary(line, "WRITE_VAR"@) || is_unary(line, "READ_VAR"@) || is_unary(line, "PRINT"@)
}

/// Whether `line` is one of the two return markers.
pub open spec fn is_return(line: Line) -> bool {
    is_nullary(line, "RETURN"@) || is_nullary(line, "RETURN_VAL"@)
}

/// Whether `line` is a conditional jump.
pub open spec fn is_conditional_jump(line: Line) -> bool {
    is_unary(line, "JUMP_IF_EQ"@) || is_unary(line, "JUMP_IF_NQ"@) || is_unary(
        line,
        "JUMP_IF_GR"@,
    ) || is_unary(line, "JUMP_IF_SM"@) || is_unary(line, "JUMP_IF_GREQ"@) || is_unary(
        line,
        "JUMP_IF_SMEQ"@,
    )
}

/// The conditional jump that the mnemonic of `line` names, to `target`.
pub open spec fn conditional_jump(line: Line, target: Pointer) -> Op
    recommends
        is_conditional_jump(line),
{
    if is_unary(line, "JUMP_IF_EQ"@) {
        Op::JumpIfEqual(target)
    } else if is_unary(line, "JUMP_IF_NQ"@) {
        Op::JumpIfNotEqual(target)
    } else if is_unary(line, "JUMP_IF_GR"@) {
        Op::JumpIfGreater(target)
    } else if is_unary(line, "JUMP_IF_SM"@) {
        Op::JumpIfSmaller(target)
    } else if is_unary(line, "JUMP_IF_GREQ"@) {
        Op::JumpIfGreaterEqual(target)
    } else {
        Op::JumpIfSmallerEqual(target)
    }
}

/// The instruction for a line that refers to a variable, with the slot
/// resolved for it.
pub open spec fn variable_op(line: Line, slot: VariableAddress) -> Op
    recommends
        names_variable(line),
{
    if is_unary(line, "WRITE_VAR"@) {
        Op::WriteVariable(slot)
    } else if is_unary(line, "READ_VAR"@) {
        Op::ReadVariable(slot)
    } else {
        Op::PrintVariable(unquoted(line[1]), slot)
    }
}

/// The instruction for a line without operand, if the line is one.
pub open spec fn nullary_op(line: Line) -> Option<Op> {
    if is_nullary(line, "ADD"@) {
        Some(Op::Add)
    } else if is_nullary(line, "SUB"@) {
        Some(Op::Sub)
    } else if is_nullary(line, "MULTIPLY"@) {
        Some(Op::Multiply)
    } else if is_nullary(line, "DIVIDE"@) {
        Some(Op::Divide)
    } else if is_nullary(line, "PRINT"@) {
        Some(Op::Print)
    } else if is_nullary(line, "RETURN"@) {
        Some(Op::Return)
    } else if is_nullary(line, "RETURN_VAL"@) {
        Some(Op::ReturnValue)
    } else if is_nullary(line, "SEND_CHANNEL"@) {
        Some(Op::Send)
    } else if is_nullary(line, "POP_CHANNEL"@) {
        Some(Op::Receive)
    } else if is_nullary(line, "SPAWN"@) {
        Some(Op::Ignore)
    } else {
        None
    }
}

/// The translation of one token line, given the two tables and the queue of
/// resolved slots: the instruction and the queue that is left, or the fault.
///
/// A line that refers to a variable takes the oldest slot off the queue. A
/// function declaration becomes a jump over the function's body, to its
/// return marker; a call goes to the declaration. A label marker has no
/// effect when it is reached, and neither has `SPAWN`: workers are spawned
/// by the send instruction.
pub open spec fn translate(
    line: Line,
    functions: FunctionMap,
    labels: LabelMap,
    queue: Seq<VariableAddress>,
) -> Result<(Op, Seq<VariableAddress>), ParseFault> {
    if is_unary(line, "LOAD_VAL"@) {
        match integer_literal(line[1]) {
            Some(v) => Ok((Op::LoadValue(v as isize), queue)),
            None => Err(ParseFault::InvalidInstruction(joined(line))),
        }
    } else if names_variable(line) {
        if queue.len() > 0 {
            Ok((variable_op(line, queue[0]), queue.drop_first()))
        } else {
            Err(ParseFault::VariableNotFound)
        }
    } else if is_unary(line, "LABEL"@) {
        Ok((Op::Ignore, queue))
    } else if is_unary(line, "FUNC"@) {
        if functions.contains_key(line[1]) {
            Ok((Op::Jump(functions[line[1]].1), queue))
        } else {
            Err(ParseFault::FunctionNotFound(line[1]))
        }
    } else if is_unary(line, "CALL"@) {
        if functions.contains_key(line[1]) {
            Ok((Op::CallFunction(functions[line[1]].0), queue))
        } else {
            Err(ParseFault::FunctionNotFound(line[1]))
        }
    } else if is_conditional_jump(line) {
        if labels.contains_key(line[1]) {
            Ok((conditional_jump(line, labels[line[1]]), queue))
        } else {
            Err(ParseFault::LabelNotFound(line[1]))
        }
    } else {
        match nullary_op(line) {
            Some(op) => Ok((op, queue)),
            None => Err(ParseFault::InvalidInstruction(joined(line))),
        }
    }
}

/// Whether `line` is the mnemonic `m` alone.
pub fn nullary(line: &[String], m: &str) -> (b: bool)
    ensures
        b == is_nullary(words_of(line@), m@),
{
    line.len() == 1 && same_text(line[0].as_str(), m)
}

/// Whether `line` is the mnemonic `m` with one operand.
pub fn unary(line: &[String], m: &str) -> (b: bool)
    ensures
        b == is_unary(words_of(line@), m@),
{
    line.len() == 2 && same_text(line[0].as_str(), m)
}

fn variable_line(line: &[String]) -> (b: bool)
    ensures
        b == names_variable(words_of(line@)),
{
    unary(line, "WRITE_VAR") || unary(line, "READ_VAR") || unary(line, "PRINT")
}

fn conditional_line(line: &[String]) -> (b: bool)
    ensures
        b == is_conditional_jump(words_of(line@)),
{
    unary(line, "JUMP_IF_EQ") || unary(line, "JUMP_IF_NQ") || unary(line, "JUMP_IF_GR") || unary(
        line,
        "JUMP_IF_SM",
    ) || unary(line, "JUMP_IF_GREQ") || unary(line, "JUMP_IF_SMEQ")
}

fn jump_to(line: &[String], target: Pointer) -> (i: Instruction)
    requires
        is_conditional_jump(words_of(line@)),
    ensures
        i@ == conditional_jump(words_of(line@), target),
{
    if unary(line, "JUMP_IF_EQ") {
        Instruction::JumpIfEqual(target)
    } else if unary(line, "JUMP_IF_NQ") {
        Instruction::JumpIfNotEqual(target)
    } else if unary(line, "JUMP_IF_GR") {
        Instruction::JumpIfGreater(target)
    } else if unary(line, "JUMP_IF_SM") {
        Instruction::JumpIfSmaller(target)
    } else if unary(line, "JUMP_IF_GREQ") {
        Instruction::JumpIfGreaterEqual(target)
    } else {
        Instruction::JumpIfSmallerEqual(target)
    }
}

fn with_slot(line: &[String], slot: VariableAddress) -> (i: Instruction)
    requires
        names_variable(words_of(line@)),
    ensures
        i@ == variable_op(words_of(line@), slot),
{
    if unary(line, "WRITE_VAR") {
        Instruction::WriteVariable(slot)
    } else if unary(line, "READ_VAR") {
        Instruction::ReadVariable(slot)
    } else {
        Instruction::PrintVariable(strip_quotes(line[1].as_str()), slot)
    }
}

fn without_operand(line: &[String]) -> (r: Option<Instruction>)
    ensures
        match nullary_op(words_of(line@)) {
            Some(op) => r is Some && r->Some_0@ == op,
            None => r is None,
        },
{
    if nullary(line, "ADD") {
        Some(Instruction::Add)
    } else if nullary(line, "SUB") {
        Some(Instruction::Sub)
    } else if nullary(line, "MULTIPLY") {
        Some(Instruction::Multiply)
    } else if nullary(line, "DIVIDE") {
        Some(Instruction::Divide)
    } else if nullary(line, "PRINT") {
        Some(Instruction::Print)
    } else if nullary(line, "RETURN") {
        Some(Instruction::Return)
    } else if nullary(line, "RETURN_VAL") {
        Some(Instruction::ReturnValue)
    } else if nullary(line, "SEND_CHANNEL") {
        Some(Instruction::Send)
    } else if nullary(line, "POP_CHANNEL") {
        Some(Instruction::Receive)
    } else if nullary(line, "SPAWN") {
        Some(Instruction::Ignore)
    } else {
        None
    }
}

impl Instruction {
    /// Translates one token line into an instruction. A line that refers to
    /// a variable takes the oldest slot off the queue of `variables`; on a
    /// fault `variables` stays as it was.
    pub fn from(
        instr_str: &[String],
        functions: &Functions,
        variables: &mut Variables,
        labels: &Labels,
    ) -> (r: Result<Instruction, ParseError>)
        ensures
            match translate(words_of(instr_str@), functions@, labels@, old(variables)@.queue) {
                Ok((op, queue)) => r is Ok && r->Ok_0@ == op && final(variables)@.queue == queue
                    && final(variables)@.locals == old(variables)@.locals,
                Err(fault) => r is Err && r->Err_0@ == fault && final(variables)@ == old(
                    variables,
                )@,
            },
    {
        if unary(instr_str, "LOAD_VAL") {
            match parse_integer(instr_str[1].as_str()) {
                Some(v) => Ok(Instruction::LoadValue(v)),
                None => Err(ParseError::InvalidInstruction(join_words(instr_str))),
            }
        } else if variable_line(instr_str) {
            match variables.queue_pop_front() {
                Ok(slot) => Ok(with_slot(instr_str, slot)),
                Err(e) => Err(e),
            }
        } else if unary(instr_str, "LABEL") {
            Ok(Instruction::Ignore)
        } else if unary(instr_str, "FUNC") {
            match functions.get(instr_str[1].as_str()) {
                Ok(span) => Ok(Instruction::Jump(span.1)),
                Err(e) => Err(e),
            }
        } else if unary(instr_str, "CALL") {
            match functions.get(instr_str[1].as_str()) {
                Ok(span) => Ok(Instruction::CallFunction(span.0)),
                Err(e) => Err(e),
            }
        } else if conditional_line(instr_str) {
            match labels.get(instr_str[1].as_str()) {
                Ok(target) => Ok(jump_to(instr_str, *target)),
                Err(e) => Err(e),
            }
        } else {
            match without_operand(instr_str) {
                Some(i) => Ok(i),
                None => Err(ParseError::InvalidInstruction(join_words(instr_str))),
            }
        }
    }
}

} // verus!
