//! What holds of every program: of the operand stack across plain
//! statements, of two runs of one text, and of return markers that are
//! missing or stand outside every function.

use vstd::prelude::*;
use crate::errors::{ParseFault, RuntimeError};
use crate::instruction::{is_conditional_jump, is_return, is_unary, names_variable, Op};
use crate::labels::{labels_of, LabelMap};
use crate::functions::FunctionMap;
use crate::machine::{Machine, Status, Step};
use crate::parser::{
    declared_functions, declared_labels, label_items, resolved, resolved_variables,
    scan_functions, scan_variables, translate_all, Program,
};
use crate::text::digits;
use crate::tokens::token_lines;
use crate::variables::VariablesView;

verus! {

/// Whether `op` is a plain statement: it works on the operands, the locals
/// and the output of the current frame, and the run goes on behind it.
pub open spec fn is_plain(op: Op) -> bool {
    match op {
        Op::LoadValue(_) | Op::WriteVariable(_) | Op::ReadVariable(_) | Op::Add | Op::Sub
        | Op::Multiply | Op::Divide | Op::Print | Op::PrintVariable(_, _) | Op::Ignore => true,
        _ => false,
    }
}

/// By how much a plain statement changes the number of operands.
pub open spec fn operand_change(op: Op) -> int {
    match op {
        Op::LoadValue(_) | Op::ReadVariable(_) => 1,
        Op::WriteVariable(_) | Op::Add | Op::Sub | Op::Multiply | Op::Divide => -1,
        _ => 0,
    }
}

/// By how much the statements of `code` change the number of operands, all
/// together. Statements are balanced where this is 0.
pub open spec fn net_change(code: Seq<Op>) -> int
    decreases code.len(),
{
    if code.len() == 0 {
        0
    } else {
        operand_change(code[0]) + net_change(code.drop_first())
    }
}

/// A plain statement never waits. Where it does not fault, it leaves the
/// instruction pointer, the channel and every frame but the current one as
/// they are, and changes the number of operands by its `operand_change`.
pub proof fn lemma_plain_statement(m: Machine, op: Op)
    requires
        is_plain(op),
        m.frames.len() > 0,
    ensures
        !(m.execute(op) is Blocked),
        m.execute(op) matches Step::Next(after) ==> {
            &&& after.ip == m.ip
            &&& after.channel == m.channel
            &&& after.frames.len() == m.frames.len()
            &&& after.frames.drop_last() == m.frames.drop_last()
            &&& after.top().operands.len() == m.top().operands.len() + operand_change(op)
        },
{
    match m.execute(op) {
        Step::Next(after) => {
            assert(after.frames.drop_last() =~= m.frames.drop_last());
        },
        _ => {},
    }
}

/// No instruction breaks the channel: where workers wait only while the
/// channel is taken, and no more of them than the pool has, this still holds
/// after any instruction.
pub proof fn lemma_channel_stays_well_formed_in_a_step(m: Machine, op: Op)
    requires
        m.channel.well_formed(),
    ensures
        m.execute(op) matches Step::Next(after) ==> after.channel.well_formed(),
{
}

/// Across a block of plain statements the number of operands changes by the
/// net change of the statements that were executed: a run of at most as many
/// instructions as the block has executes them in order, up to the first
/// that faults. After a block that is balanced and did not fault, the
/// current frame holds as many operands as before: none, if it held none.
pub proof fn lemma_balanced_statements(m: Machine, program: Seq<Op>, n: nat)
    requires
        m.frames.len() > 0,
        m.ip + n <= program.len() <= usize::MAX,
        forall|j: int| m.ip <= j < m.ip + n ==> is_plain(#[trigger] program[j]),
    ensures
        ({
            let (after, r) = m.run(program, n);
            &&& m.ip <= after.ip <= m.ip + n
            &&& after.frames.len() == m.frames.len()
            &&& after.frames.drop_last() == m.frames.drop_last()
            &&& after.top().operands.len() == m.top().operands.len() + net_change(
                program.subrange(m.ip as int, after.ip as int),
            )
            &&& (r is Ok || r == Err::<Status, RuntimeError>(RuntimeError::WorkerFailed))
                ==> after.ip == m.ip + n
        }),
    decreases n,
{
    let (after, r) = m.run(program, n);
    if m.halted(program) || n == 0 {
        assert(after == m);
        assert(program.subrange(m.ip as int, m.ip as int) =~= Seq::<Op>::empty());
    } else {
        let op = program[m.ip as int];
        lemma_plain_statement(m, op);
        match m.step(program) {
            Step::Next(next) => {
                assert(next.ip == m.ip + 1);
                lemma_balanced_statements(next, program, (n - 1) as nat);
                let executed = program.subrange(m.ip as int, after.ip as int);
                assert(executed[0] == op);
                assert(executed.drop_first() =~= program.subrange(next.ip as int, after.ip as int));
                assert(after.frames.drop_last() == next.frames.drop_last());
            },
            _ => {
                assert(after == m);
                assert(program.subrange(m.ip as int, m.ip as int) =~= Seq::<Op>::empty());
            },
        }
    }
}

/// Two runs of one program text from a fresh engine agree: they resolve to
/// the same instructions or to the same fault, and they end with the same
/// engine, so with the same output, and with the same status or fault.
pub proof fn lemma_runs_agree(
    text: Seq<char>,
    first_program: Result<Seq<Op>, ParseFault>,
    first: (Machine, Result<Status, RuntimeError>),
    second_program: Result<Seq<Op>, ParseFault>,
    second: (Machine, Result<Status, RuntimeError>),
)
    requires
        first_program == resolved(token_lines(text)),
        second_program == resolved(token_lines(text)),
        first_program matches Ok(ops) ==> first == Machine::fresh().started(ops).run(
            ops,
            usize::MAX as nat,
        ),
        second_program matches Ok(ops) ==> second == Machine::fresh().started(ops).run(
            ops,
            usize::MAX as nat,
        ),
    ensures
        first_program == second_program,
        first_program is Ok ==> first == second && first.0.output == second.0.output,
{
}

/// The function scan fails wherever it stands before a declaration that no
/// return marker follows, or behind it with a function still open.
proof fn lemma_scan_misses_return(
    program: Program,
    at: int,
    ip: int,
    open: Option<int>,
    table: FunctionMap,
)
    requires
        0 <= at < program.len(),
        is_unary(program[at], "FUNC"@),
        forall|j: int| at < j < program.len() ==> !is_return(#[trigger] program[j]),
        0 <= ip,
        ip <= at || open is Some,
        open matches Some(start) ==> 0 <= start < ip,
    ensures
        scan_functions(program, ip, open, table) matches Err(fault) && (fault
            is FunctionNeverReturned || fault is DuplicatedFunction),
    decreases program.len() - ip,
{
    if ip < program.len() {
        match open {
            Some(start) => {
                if is_return(program[ip]) {
                    if !table.contains_key(program[start][1]) {
                        lemma_scan_misses_return(
                            program,
                            at,
                            ip + 1,
                            None,
                            table.insert(program[start][1], (start as usize, ip as usize)),
                        );
                    }
                } else {
                    lemma_scan_misses_return(program, at, ip + 1, open, table);
                }
            },
            None => {
                if is_unary(program[ip], "FUNC"@) {
                    lemma_scan_misses_return(program, at, ip + 1, Some(ip), table);
                } else {
                    lemma_scan_misses_return(program, at, ip + 1, None, table);
                }
            },
        }
    }
}

/// A program with a function declaration that no return marker follows is
/// not resolved: the function scan, which is the first pass, fails. Its
/// fault is "function never returned", unless a function before that
/// declaration had been declared twice.
pub proof fn lemma_missing_return_fails(program: Program, at: int)
    requires
        0 <= at < program.len(),
        is_unary(program[at], "FUNC"@),
        forall|j: int| at < j < program.len() ==> !is_return(#[trigger] program[j]),
    ensures
        declared_functions(program) matches Err(fault) && (fault is FunctionNeverReturned || fault
            is DuplicatedFunction),
        resolved(program) == Err::<Seq<Op>, ParseFault>(declared_functions(program)->Err_0),
{
    lemma_scan_misses_return(program, at, 0, None, Map::empty());
}

/// The variable scan fails at a return marker that it reaches with only the
/// outermost scope on its stack.
proof fn lemma_scan_meets_return(program: Program, at: int, i: int, table: VariablesView)
    requires
        0 <= i <= at < program.len(),
        is_return(program[at]),
        forall|j: int|
            0 <= j < at ==> !is_return(#[trigger] program[j]) && !is_unary(program[j], "FUNC"@),
    ensures
        scan_variables(program, i, seq![crate::parser::outermost_scope()], table)
            == Err::<VariablesView, ParseFault>(
            ParseFault::ReturnOutsideFunction(digits(at as nat)),
        ),
    decreases at - i,
{
    if i < at {
        if names_variable(program[i]) {
            lemma_scan_meets_return(
                program,
                at,
                i + 1,
                table.with_local(crate::parser::outermost_scope(), program[i][1]),
            );
        } else {
            lemma_scan_meets_return(program, at, i + 1, table);
        }
    }
}

/// A program whose first return marker stands before every function
/// declaration is not resolved: the variable scan fails with "return outside
/// function" and names the line of that marker. The whole resolution has
/// that fault wherever its function scan succeeds.
pub proof fn lemma_return_outside_function_fails(program: Program, at: int)
    requires
        0 <= at < program.len(),
        is_return(program[at]),
        forall|j: int|
            0 <= j < at ==> !is_return(#[trigger] program[j]) && !is_unary(program[j], "FUNC"@),
    ensures
        resolved_variables(program) == Err::<VariablesView, ParseFault>(
            ParseFault::ReturnOutsideFunction(digits(at as nat)),
        ),
        resolved(program) is Err,
        declared_functions(program) is Ok ==> resolved(program) == Err::<Seq<Op>, ParseFault>(
            ParseFault::ReturnOutsideFunction(digits(at as nat)),
        ),
{
    lemma_scan_meets_return(
        program,
        at,
        0,
        VariablesView { locals: Map::empty(), queue: Seq::empty() },
    );
}

/// Whether `span` is a function named `name` in `program`: its first
/// pointer is the declaration, its second the first return marker after it.
pub open spec fn function_at(program: Program, name: Seq<char>, span: (usize, usize)) -> bool {
    &&& span.0 < span.1 < program.len()
    &&& is_unary(program[span.0 as int], "FUNC"@)
    &&& program[span.0 as int][1] == name
    &&& is_return(program[span.1 as int])
    &&& forall|j: int| span.0 < j < span.1 ==> !is_return(#[trigger] program[j])
}

/// Whether every entry of `table` is a function of `program`.
pub open spec fn functions_sound(program: Program, table: FunctionMap) -> bool {
    forall|name: Seq<char>| #[trigger]
        table.contains_key(name) ==> function_at(program, name, table[name])
}

proof fn lemma_scan_functions_sound(
    program: Program,
    ip: int,
    open: Option<int>,
    table: FunctionMap,
)
    requires
        program.len() <= usize::MAX,
        0 <= ip,
        functions_sound(program, table),
        open matches Some(start) ==> {
            &&& 0 <= start < ip
            &&& start < program.len()
            &&& is_unary(program[start], "FUNC"@)
            &&& forall|j: int| start < j < ip ==> !is_return(#[trigger] program[j])
        },
    ensures
        scan_functions(program, ip, open, table) matches Ok(result) ==> functions_sound(
            program,
            result,
        ),
    decreases program.len() - ip,
{
    if ip < program.len() {
        match open {
            Some(start) => {
                if is_return(program[ip]) {
                    let name = program[start][1];
                    if !table.contains_key(name) {
                        let grown = table.insert(name, (start as usize, ip as usize));
                        assert(function_at(program, name, (start as usize, ip as usize)));
                        lemma_scan_functions_sound(program, ip + 1, None, grown);
                    }
                } else {
                    lemma_scan_functions_sound(program, ip + 1, open, table);
                }
            },
            None => {
                if is_unary(program[ip], "FUNC"@) {
                    lemma_scan_functions_sound(program, ip + 1, Some(ip), table);
                } else {
                    lemma_scan_functions_sound(program, ip + 1, None, table);
                }
            },
        }
    }
}

/// Every entry of the function table is a function of the program: a
/// declaration of that name, with the first return marker after it.
pub proof fn lemma_declared_functions_sound(program: Program)
    requires
        program.len() <= usize::MAX,
    ensures
        declared_functions(program) matches Ok(table) ==> functions_sound(program, table),
{
    lemma_scan_functions_sound(program, 0, None, Map::empty());
}

/// Whether every entry of `table` is a label marker of `program`.
pub open spec fn labels_sound(program: Program, table: LabelMap) -> bool {
    forall|name: Seq<char>| #[trigger]
        table.contains_key(name) ==> {
            &&& table[name] < program.len()
            &&& is_unary(program[table[name] as int], "LABEL"@)
            &&& program[table[name] as int][1] == name
        }
}

proof fn lemma_label_items_are_markers(program: Program, k: int)
    requires
        program.len() <= usize::MAX,
        0 <= k < label_items(program).len(),
    ensures
        ({
            let (name, ip) = label_items(program)[k];
            &&& ip < program.len()
            &&& is_unary(program[ip as int], "LABEL"@)
            &&& program[ip as int][1] == name
        }),
    decreases program.len(),
{
    if program.len() > 0 {
        let before = label_items(program.drop_last());
        if k < before.len() {
            lemma_label_items_are_markers(program.drop_last(), k);
        }
    }
}

proof fn lemma_labels_come_from_items(items: Seq<(Seq<char>, usize)>, name: Seq<char>)
    requires
        labels_of(items) matches Ok(table) && table.contains_key(name),
    ensures
        exists|k: int| 0 <= k < items.len() && #[trigger] items[k] == (name, labels_of(items)->Ok_0[name]),
    decreases items.len(),
{
    if items.len() > 0 {
        let before = labels_of(items.drop_last())->Ok_0;
        if items.last().0 == name {
            assert(items[items.len() - 1] == (name, labels_of(items)->Ok_0[name]));
        } else {
            lemma_labels_come_from_items(items.drop_last(), name);
            let k = choose|k: int|
                0 <= k < items.drop_last().len() && #[trigger] items.drop_last()[k] == (
                    name,
                    before[name],
                );
            assert(items[k] == (name, labels_of(items)->Ok_0[name]));
        }
    }
}

/// Every entry of the label table is a label marker of the program.
pub proof fn lemma_declared_labels_sound(program: Program)
    requires
        program.len() <= usize::MAX,
    ensures
        declared_labels(program) matches Ok(table) ==> labels_sound(program, table),
{
    if declared_labels(program) is Ok {
        let table = declared_labels(program)->Ok_0;
        let items = label_items(program);
        assert forall|name: Seq<char>| #[trigger] table.contains_key(name) implies {
            &&& table[name] < program.len()
            &&& is_unary(program[table[name] as int], "LABEL"@)
            &&& program[table[name] as int][1] == name
        } by {
            lemma_labels_come_from_items(items, name);
            let k = choose|k: int| 0 <= k < items.len() && #[trigger] items[k] == (name, table[name]);
            lemma_label_items_are_markers(program, k);
        }
    }
}

/// The instruction that `op` transfers control to, if it is a transfer.
pub open spec fn target_of(op: Op) -> Option<usize> {
    match op {
        Op::Jump(t) | Op::JumpIfEqual(t) | Op::JumpIfNotEqual(t) | Op::JumpIfGreater(t)
        | Op::JumpIfSmaller(t) | Op::JumpIfGreaterEqual(t) | Op::JumpIfSmallerEqual(t)
        | Op::CallFunction(t) => Some(t),
        _ => None,
    }
}

proof fn lemma_translation_in_range(
    program: Program,
    all: Program,
    functions: FunctionMap,
    labels: LabelMap,
    queue: Seq<usize>,
)
    requires
        functions_sound(all, functions),
        labels_sound(all, labels),
    ensures
        ({
            let t = translate_all(program, functions, labels, queue);
            &&& t.fault is None ==> t.ops.len() == program.len()
            &&& forall|i: int|
                0 <= i < t.ops.len() ==> (target_of(#[trigger] t.ops[i]) matches Some(target)
                    ==> target < all.len())
        }),
    decreases program.len(),
{
    if program.len() > 0 {
        lemma_translation_in_range(program.drop_last(), all, functions, labels, queue);
        let before = translate_all(program.drop_last(), functions, labels, queue);
        let line = program.last();
        if before.fault is None {
            if is_unary(line, "FUNC"@) || is_unary(line, "CALL"@) {
                if functions.contains_key(line[1]) {
                    assert(function_at(all, line[1], functions[line[1]]));
                }
            }
            if is_conditional_jump(line) && labels.contains_key(line[1]) {
                assert(labels[line[1]] < all.len());
            }
        }
    }
}

/// A program that is resolved has one instruction for each of its lines,
/// and every jump and call in it goes to a line of the program.
pub proof fn lemma_resolved_addresses_in_range(program: Program)
    requires
        program.len() <= usize::MAX,
    ensures
        resolved(program) matches Ok(ops) ==> {
            &&& ops.len() == program.len()
            &&& forall|i: int|
                0 <= i < ops.len() ==> (target_of(#[trigger] ops[i]) matches Some(target)
                    ==> target < program.len())
        },
{
    if resolved(program) is Ok {
        lemma_declared_functions_sound(program);
        lemma_declared_labels_sound(program);
        lemma_translation_in_range(
            program,
            program,
            declared_functions(program)->Ok_0,
            declared_labels(program)->Ok_0,
            resolved_variables(program)->Ok_0.queue,
        );
    }
}

/// How many lines of `program` refer to a variable.
pub open spec fn variable_lines(program: Program) -> nat
    decreases program.len(),
{
    if program.len() == 0 {
        0
    } else if names_variable(program.last()) {
        variable_lines(program.drop_last()) + 1
    } else {
        variable_lines(program.drop_last())
    }
}

proof fn lemma_variable_lines_step(program: Program, i: int)
    requires
        0 <= i < program.len(),
    ensures
        variable_lines(program.take(i + 1)) == variable_lines(program.take(i)) + if names_variable(
            program[i],
        ) {
            1nat
        } else {
            0nat
        },
        variable_lines(program.take(i)) <= variable_lines(program.take(i + 1)),
{
    assert(program.take(i + 1).drop_last() == program.take(i));
    assert(program.take(i + 1).last() == program[i]);
}

proof fn lemma_scan_queues_every_variable(
    program: Program,
    i: int,
    scopes: Seq<Seq<char>>,
    table: VariablesView,
)
    requires
        0 <= i <= program.len(),
    ensures
        scan_variables(program, i, scopes, table) matches Ok(result) ==> result.queue.len()
            == table.queue.len() + variable_lines(program) - variable_lines(program.take(i)),
    decreases program.len() - i,
{
    if i >= program.len() {
        assert(program.take(i) == program);
    } else {
        lemma_variable_lines_step(program, i);
        if names_variable(program[i]) {
            lemma_scan_queues_every_variable(
                program,
                i + 1,
                scopes,
                table.with_local(scopes.last(), program[i][1]),
            );
        } else if is_unary(program[i], "FUNC"@) {
            lemma_scan_queues_every_variable(program, i + 1, scopes.push(program[i][1]), table);
        } else if is_return(program[i]) {
            if scopes.len() > 1 {
                lemma_scan_queues_every_variable(program, i + 1, scopes.drop_last(), table);
            }
        } else {
            lemma_scan_queues_every_variable(program, i + 1, scopes, table);
        }
    }
}

proof fn lemma_translation_takes_one_slot_per_variable(
    program: Program,
    functions: FunctionMap,
    labels: LabelMap,
    queue: Seq<usize>,
)
    requires
        variable_lines(program) <= queue.len(),
    ensures
        ({
            let t = translate_all(program, functions, labels, queue);
            &&& t.fault != Some(ParseFault::VariableNotFound)
            &&& t.fault is None ==> t.queue.len() == queue.len() - variable_lines(program)
        }),
    decreases program.len(),
{
    if program.len() > 0 {
        lemma_translation_takes_one_slot_per_variable(
            program.drop_last(),
            functions,
            labels,
            queue,
        );
        reveal_strlit("LOAD_VAL");
        reveal_strlit("WRITE_VAR");
        reveal_strlit("READ_VAR");
        reveal_strlit("PRINT");
        let line = program.last();
        if names_variable(line) {
            assert("LOAD_VAL"@[0] != line[0][0] || "LOAD_VAL"@.len() != line[0].len());
            assert(!is_unary(line, "LOAD_VAL"@));
        }
    }
}

/// The queue of resolved slots pairs with the lines that refer to a
/// variable: the variable scan queues one slot for each such line, and the
/// translation takes one for each. So the translation of a program never
/// misses a slot, and it uses the queue up.
pub proof fn lemma_every_variable_has_a_slot(
    program: Program,
    functions: FunctionMap,
    labels: LabelMap,
)
    ensures
        resolved_variables(program) matches Ok(table) ==> {
            let t = translate_all(program, functions, labels, table.queue);
            &&& table.queue.len() == variable_lines(program)
            &&& t.fault != Some(ParseFault::VariableNotFound)
            &&& t.fault is None ==> t.queue.len() == 0
        },
{
    assert(program.take(0) =~= Seq::<crate::text::Line>::empty());
    lemma_scan_queues_every_variable(
        program,
        0,
        seq![crate::parser::outermost_scope()],
        VariablesView { locals: Map::empty(), queue: Seq::empty() },
    );
    if resolved_variables(program) is Ok {
        lemma_translation_takes_one_slot_per_variable(
            program,
            functions,
            labels,
            resolved_variables(program)->Ok_0.queue,
        );
    }
}

/// A call whose function pushes one value and returns it leaves the engine
/// as the call found it, with that one value more on the caller's operand
/// stack; the run goes on behind the call.
pub proof fn lemma_call_returns_one_value(m: Machine, target: usize, value: isize)
    requires
        m.frames.len() > 0,
    ensures
        ({
            let inside = m.call_function(target).push_value(value);
            &&& inside is Ok
            &&& inside->Ok_0.return_value() == m.push_value(value)
            &&& m.ip < usize::MAX ==> m.push_value(value)->Ok_0.advanced().ip == m.ip + 1
        }),
{
    let called = m.call_function(target);
    let inside = called.push_value(value)->Ok_0;
    let back = inside.return_value()->Ok_0;
    assert(inside.frames.drop_last() =~= m.frames);
    assert(back.frames =~= m.push_value(value)->Ok_0.frames);
}

} // verus!
