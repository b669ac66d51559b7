//! The resolution pipeline: token lines are scanned for functions, variables
//! and labels, and then translated into resolved instructions.

use vstd::prelude::*;
use crate::errors::{ParseError, ParseFault};
use crate::frame::Pointer;
use crate::functions::{FunctionMap, Functions};
use crate::instruction::{
    is_return, is_unary, names_variable, nullary, ops_of, translate, unary, Instruction, Op,
};
use crate::labels::{label_pairs, labels_of, Label, LabelMap, Labels};
use crate::stack::Stack;
use crate::text::{digits, natural_text, words_of, Line};
use crate::tokens::{token_lines, tokenize};
use crate::variables::{VariableAddress, Variables, VariablesView};

verus! {

/// The token lines of a program: one `Vec` of tokens per instruction.
pub type Bytecode = Vec<Vec<String>>;

/// The token lines of a program, each token as the characters it holds.
pub type Program = Seq<Line>;

/// The resolver. It holds nothing: its functions are the passes of the pipeline.
pub struct Parser;

/// The token lines that `code` holds.
pub open spec fn lines_of(code: Seq<Vec<String>>) -> Program {
    Seq::new(code.len(), |i: int| words_of(code[i]@))
}

/// The function scan from line `ip` on. `open` is the declaration whose
/// return marker is still looked for, if there is one; lines up to that
/// marker declare nothing. A function is registered at its return marker,
/// with the pointers of its declaration and of that marker.
pub open spec fn scan_functions(program: Program, ip: int, open: Option<int>, table: FunctionMap)
    -> Result<FunctionMap, ParseFault>
    decreases program.len() - ip,
{
    if ip < 0 || ip >= program.len() {
        match open {
            Some(start) => Err(ParseFault::FunctionNeverReturned(program[start][1])),
            None => Ok(table),
        }
    } else {
        match open {
            Some(start) => {
                if is_return(program[ip]) {
                    if table.contains_key(program[start][1]) {
                        Err(ParseFault::DuplicatedFunction(program[start][1]))
                    } else {
                        scan_functions(
                            program,
                            ip + 1,
                            None,
                            table.insert(program[start][1], (start as Pointer, ip as Pointer)),
                        )
                    }
                } else {
                    scan_functions(program, ip + 1, open, table)
                }
            },
            None => {
                if is_unary(program[ip], "FUNC"@) {
                    scan_functions(program, ip + 1, Some(ip), table)
                } else {
                    scan_functions(program, ip + 1, None, table)
                }
            },
        }
    }
}

/// The function table of `program`, or the first fault of its function scan.
pub open spec fn declared_functions(program: Program) -> Result<FunctionMap, ParseFault> {
    scan_functions(program, 0, None, Map::empty())
}

/// The name of the implicit outermost scope.
pub open spec fn outermost_scope() -> Seq<char> {
    "MAIN"@
}

/// The variable scan from line `i` on. `scopes` is the stack of scope names,
/// the implicit outermost scope at its bottom: a function declaration pushes
/// a scope, a return marker pops one, and a line that refers to a variable
/// resolves it in the scope on top.
pub open spec fn scan_variables(
    program: Program,
    i: int,
    scopes: Seq<Seq<char>>,
    table: VariablesView,
) -> Result<VariablesView, ParseFault>
    decreases program.len() - i,
{
    if i < 0 || i >= program.len() {
        Ok(table)
    } else if names_variable(program[i]) {
        scan_variables(program, i + 1, scopes, table.with_local(scopes.last(), program[i][1]))
    } else if is_unary(program[i], "FUNC"@) {
        scan_variables(program, i + 1, scopes.push(program[i][1]), table)
    } else if is_return(program[i]) {
        if scopes.len() <= 1 {
            Err(ParseFault::ReturnOutsideFunction(digits(i as nat)))
        } else {
            scan_variables(program, i + 1, scopes.drop_last(), table)
        }
    } else {
        scan_variables(program, i + 1, scopes, table)
    }
}

/// The variable table of `program`, or the first fault of its variable scan.
pub open spec fn resolved_variables(program: Program) -> Result<VariablesView, ParseFault> {
    scan_variables(
        program,
        0,
        seq![outermost_scope()],
        VariablesView { locals: Map::empty(), queue: Seq::empty() },
    )
}

impl Parser {
    /// Builds the function table: each function's name with the pointers of
    /// its declaration and of the first return marker after it.
    pub fn parse_functions(bytecode: &Bytecode) -> (r: Result<Functions, ParseError>)
        ensures
            match declared_functions(lines_of(bytecode@)) {
                Ok(table) => r is Ok && r->Ok_0@ == table,
                Err(fault) => r is Err && r->Err_0@ == fault,
            },
    {
        let ghost program = lines_of(bytecode@);
        let mut functions = Functions::new();
        let mut open: Option<usize> = None;
        let mut ip: usize = 0;
        while ip < bytecode.len()
            invariant
                program == lines_of(bytecode@),
                ip <= bytecode@.len(),
                open matches Some(start) ==> start < ip && is_unary(program[start as int], "FUNC"@),
                declared_functions(program) == scan_functions(
                    program,
                    ip as int,
                    match open {
                        Some(start) => Some(start as int),
                        None => None,
                    },
                    functions@,
                ),
            decreases bytecode@.len() - ip,
        {
            let line = bytecode[ip].as_slice();
            assert(words_of(line@) == program[ip as int]);
            match open {
                Some(start) => {
                    if nullary(line, "RETURN") || nullary(line, "RETURN_VAL") {
                        assert(words_of(bytecode@[start as int]@) == program[start as int]);
                        assert(bytecode@[start as int]@[1]@ == program[start as int][1]);
                        match functions.insert(bytecode[start][1].as_str(), (start, ip)) {
                            Ok(()) => {},
                            Err(e) => {
                                return Err(e);
                            },
                        }
                        open = None;
                    }
                },
                None => {
                    if unary(line, "FUNC") {
                        open = Some(ip);
                    }
                },
            }
            ip = ip + 1;
        }
        match open {
            Some(start) => {
                assert(words_of(bytecode@[start as int]@) == program[start as int]);
                assert(bytecode@[start as int]@[1]@ == program[start as int][1]);
                Err(ParseError::FunctionNeverReturned(bytecode[start][1].clone()))
            },
            None => Ok(functions),
        }
    }
}

impl Parser {
    /// Builds the variable table: a slot for each variable of each scope, in
    /// the order of first use, and the queue of the slots in program order.
    pub fn parse_variables(bytecode: &Bytecode) -> (r: Result<Variables, ParseError>)
        ensures
            match resolved_variables(lines_of(bytecode@)) {
                Ok(table) => r is Ok && r->Ok_0@ == table,
                Err(fault) => r is Err && r->Err_0@ == fault,
            },
    {
        let ghost program = lines_of(bytecode@);
        let mut variables = Variables::new();
        let mut function_names: Stack<String> = Stack::new();
        function_names.push(String::from_str("MAIN"));
        assert(words_of(function_names@) =~= seq![outermost_scope()]);
        assert(variables@ == VariablesView { locals: Map::empty(), queue: Seq::empty() });
        let mut i: usize = 0;
        while i < bytecode.len()
            invariant
                program == lines_of(bytecode@),
                i <= bytecode@.len(),
                function_names@.len() >= 1,
                resolved_variables(program) == scan_variables(
                    program,
                    i as int,
                    words_of(function_names@),
                    variables@,
                ),
            decreases bytecode@.len() - i,
        {
            let line = bytecode[i].as_slice();
            assert(words_of(line@) == program[i as int]);
            let ghost scopes = words_of(function_names@);
            if unary(line, "WRITE_VAR") || unary(line, "READ_VAR") || unary(line, "PRINT") {
                match function_names.peek() {
                    Ok(scope) => {
                        assert(scope@ == scopes.last());
                        variables.insert_local(scope.as_str(), line[1].as_str());
                    },
                    Err(_) => {},
                }
            } else if unary(line, "FUNC") {
                function_names.push(line[1].clone());
                assert(words_of(function_names@) =~= scopes.push(program[i as int][1]));
            } else if nullary(line, "RETURN") || nullary(line, "RETURN_VAL") {
                if function_names.len() == 1 {
                    return Err(ParseError::ReturnOutsideFunction(natural_text(i)));
                }
                let _ = function_names.pop();
                assert(words_of(function_names@) =~= scopes.drop_last());
            }
            i = i + 1;
        }
        Ok(variables)
    }
}

/// The label markers of `program`, in program order: each name with the
/// pointer of its line.
pub open spec fn label_items(program: Program) -> Seq<(Seq<char>, Pointer)>
    decreases program.len(),
{
    if program.len() == 0 {
        Seq::empty()
    } else if is_unary(program.last(), "LABEL"@) {
        label_items(program.drop_last()).push(
            (program.last()[1], (program.len() - 1) as Pointer),
        )
    } else {
        label_items(program.drop_last())
    }
}

/// The label table of `program`, or the fault at its first repeated label.
pub open spec fn declared_labels(program: Program) -> Result<LabelMap, ParseFault> {
    labels_of(label_items(program))
}

impl Parser {
    /// The label that `line` declares at pointer `ip`, if it is a label marker.
    pub fn find_label(line: &[String], ip: Pointer) -> (r: Option<Label>)
        ensures
            match r {
                Some(label) => is_unary(words_of(line@), "LABEL"@) && label.0@ == line@[1]@
                    && label.1 == ip,
                None => !is_unary(words_of(line@), "LABEL"@),
            },
    {
        if unary(line, "LABEL") {
            Some((line[1].clone(), ip))
        } else {
            None
        }
    }

    /// Builds the label table: each label's name with the pointer of its marker.
    pub fn parse_labels(bytecode: &Bytecode) -> (r: Result<Labels, ParseError>)
        ensures
            match declared_labels(lines_of(bytecode@)) {
                Ok(table) => r is Ok && r->Ok_0@ == table,
                Err(fault) => r is Err && r->Err_0@ == fault,
            },
    {
        let ghost program = lines_of(bytecode@);
        let mut found: Vec<Label> = Vec::new();
        let mut ip: usize = 0;
        assert(program.take(0) =~= Seq::<Line>::empty());
        assert(label_pairs(found@) =~= label_items(program.take(0)));
        while ip < bytecode.len()
            invariant
                program == lines_of(bytecode@),
                ip <= bytecode@.len(),
                label_pairs(found@) == label_items(program.take(ip as int)),
            decreases bytecode@.len() - ip,
        {
            let line = bytecode[ip].as_slice();
            let ghost before = found@;
            proof {
                assert(words_of(line@) == program[ip as int]);
                let p = program.take(ip + 1);
                assert(p.drop_last() == program.take(ip as int));
                assert(p.last() == program[ip as int]);
            }
            match Parser::find_label(line, ip) {
                Some(label) => {
                    found.push(label);
                    assert(label_pairs(found@) =~= label_pairs(before).push(
                        (program[ip as int][1], ip),
                    ));
                },
                None => {},
            }
            ip = ip + 1;
        }
        assert(program.take(bytecode@.len() as int) == program);
        Labels::from_iter(found)
    }
}

/// How far a translation came: the instructions before the first fault,
/// the queue of resolved slots that is left, and the fault, if there was one.
pub struct Translation {
    pub ops: Seq<Op>,
    pub queue: Seq<VariableAddress>,
    pub fault: Option<ParseFault>,
}

/// The translation of `program`, line by line, up to its first fault.
pub open spec fn translate_all(
    program: Program,
    functions: FunctionMap,
    labels: LabelMap,
    queue: Seq<VariableAddress>,
) -> Translation
    decreases program.len(),
{
    if program.len() == 0 {
        Translation { ops: Seq::empty(), queue, fault: None }
    } else {
        let before = translate_all(program.drop_last(), functions, labels, queue);
        if before.fault is Some {
            before
        } else {
            match translate(program.last(), functions, labels, before.queue) {
                Ok((op, rest)) => Translation {
                    ops: before.ops.push(op),
                    queue: rest,
                    fault: None,
                },
                Err(fault) => Translation { fault: Some(fault), ..before },
            }
        }
    }
}

/// A fault among the first `k` lines is the fault of the whole translation.
pub proof fn lemma_translation_fault(
    program: Program,
    functions: FunctionMap,
    labels: LabelMap,
    queue: Seq<VariableAddress>,
    k: int,
)
    requires
        0 <= k <= program.len(),
        translate_all(program.take(k), functions, labels, queue).fault is Some,
    ensures
        translate_all(program, functions, labels, queue) == translate_all(
            program.take(k),
            functions,
            labels,
            queue,
        ),
    decreases program.len() - k,
{
    if k == program.len() {
        assert(program.take(k) == program);
    } else {
        assert(program.take(k + 1).drop_last() == program.take(k));
        lemma_translation_fault(program, functions, labels, queue, k + 1);
    }
}

impl Parser {
    /// Translates every token line into a resolved instruction, in order.
    /// Each line that refers to a variable takes the oldest slot off the
    /// queue of `variables`. The first fault ends the translation.
    pub fn parse_instructions(
        bytecode: &Bytecode,
        functions: &Functions,
        variables: &mut Variables,
        labels: &Labels,
    ) -> (r: Result<Vec<Instruction>, ParseError>)
        ensures
            ({
                let t = translate_all(
                    lines_of(bytecode@),
                    functions@,
                    labels@,
                    old(variables)@.queue,
                );
                &&& final(variables)@.queue == t.queue
                &&& final(variables)@.locals == old(variables)@.locals
                &&& match t.fault {
                    Some(fault) => r is Err && r->Err_0@ == fault,
                    None => r is Ok && ops_of(r->Ok_0@) == t.ops,
                }
            }),
    {
        let ghost program = lines_of(bytecode@);
        let ghost queue = variables@.queue;
        let mut instructions: Vec<Instruction> = Vec::new();
        let mut i: usize = 0;
        assert(program.take(0) =~= Seq::<Line>::empty());
        assert(ops_of(instructions@) =~= Seq::<Op>::empty());
        while i < bytecode.len()
            invariant
                program == lines_of(bytecode@),
                queue == old(variables)@.queue,
                i <= bytecode@.len(),
                variables@.locals == old(variables)@.locals,
                translate_all(program.take(i as int), functions@, labels@, queue) == (Translation {
                    ops: ops_of(instructions@),
                    queue: variables@.queue,
                    fault: None,
                }),
            decreases bytecode@.len() - i,
        {
            let line = bytecode[i].as_slice();
            let ghost before = instructions@;
            proof {
                assert(words_of(line@) == program[i as int]);
                let p = program.take(i + 1);
                assert(p.drop_last() == program.take(i as int));
                assert(p.last() == program[i as int]);
            }
            match Instruction::from(line, functions, variables, labels) {
                Ok(instruction) => {
                    instructions.push(instruction);
                    assert(ops_of(instructions@) =~= ops_of(before).push(instruction@));
                },
                Err(e) => {
                    proof {
                        lemma_translation_fault(program, functions@, labels@, queue, i + 1);
                    }
                    return Err(e);
                },
            }
            i = i + 1;
        }
        assert(program.take(bytecode@.len() as int) == program);
        Ok(instructions)
    }
}

/// The resolved instructions of `program`: the function scan, the variable
/// scan and the label scan are made in this order, then the translation;
/// the first fault of the first pass that fails is the result.
pub open spec fn resolved(program: Program) -> Result<Seq<Op>, ParseFault> {
    match declared_functions(program) {
        Err(fault) => Err(fault),
        Ok(functions) => match resolved_variables(program) {
            Err(fault) => Err(fault),
            Ok(variables) => match declared_labels(program) {
                Err(fault) => Err(fault),
                Ok(labels) => {
                    let t = translate_all(program, functions, labels, variables.queue);
                    match t.fault {
                        Some(fault) => Err(fault),
                        None => Ok(t.ops),
                    }
                },
            },
        },
    }
}

impl Parser {
    /// Splits program text into token lines: the lines are the pieces
    /// between newlines, the tokens of a line are its pieces between white
    /// space without their quote characters; empty tokens and empty lines
    /// are dropped.
    pub fn parse_code(buffer: &String) -> (code: Bytecode)
        ensures
            lines_of(code@) == token_lines(buffer@),
    {
        tokenize(buffer.as_str())
    }

    /// Resolves token lines into instructions: all four passes, in order.
    pub fn resolve_lines(bytecode: &Bytecode) -> (r: Result<Vec<Instruction>, ParseError>)
        ensures
            match resolved(lines_of(bytecode@)) {
                Ok(ops) => r is Ok && ops_of(r->Ok_0@) == ops,
                Err(fault) => r is Err && r->Err_0@ == fault,
            },
    {
        let functions = match Parser::parse_functions(bytecode) {
            Ok(functions) => functions,
            Err(e) => {
                return Err(e);
            },
        };
        let mut variables = match Parser::parse_variables(bytecode) {
            Ok(variables) => variables,
            Err(e) => {
                return Err(e);
            },
        };
        let labels = match Parser::parse_labels(bytecode) {
            Ok(labels) => labels,
            Err(e) => {
                return Err(e);
            },
        };
        Parser::parse_instructions(bytecode, &functions, &mut variables, &labels)
    }

    /// Resolves program text into instructions.
    pub fn resolve(buffer: &String) -> (r: Result<Vec<Instruction>, ParseError>)
        ensures
            match resolved(token_lines(buffer@)) {
                Ok(ops) => r is Ok && ops_of(r->Ok_0@) == ops,
                Err(fault) => r is Err && r->Err_0@ == fault,
            },
    {
        let bytecode = Parser::parse_code(buffer);
        Parser::resolve_lines(&bytecode)
    }
}

} // verus!
