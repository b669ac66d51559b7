use std::collections::VecDeque;

use bytecode::errors::ParseError;
use bytecode::functions::Functions;
use bytecode::instruction::Instruction;
use bytecode::labels::Labels;
use bytecode::parser::Parser;
use bytecode::variables::Variables;

fn code(lines: Vec<Vec<&str>>) -> Vec<Vec<String>> {
    lines
        .into_iter()
        .map(|line| line.into_iter().map(|token| token.to_string()).collect())
        .collect()
}

#[test]
fn parse_code() {
    let buffer = "LOAD_VAL 5\nWRITE_VAR 'x'\nREAD_VAR 'x'".to_string();

    let actual_bytecode = Parser::parse_code(&buffer);
    let expected_bytecode = vec![
        vec!["LOAD_VAL", "5"],
        vec!["WRITE_VAR", "x"],
        vec!["READ_VAR", "x"],
    ];

    assert_eq!(actual_bytecode, expected_bytecode);
    assert_eq!(Parser::parse_code(&"'x'".to_string()), vec![vec!["x"]]);
}

#[test]
fn parse_functions() {
    let bytecode = code(vec![
        vec!["LOAD_VAL", "5"],
        vec!["WRITE_VAR", "'x'"],
        vec!["READ_VAR", "'x'"],
        vec!["FUNC", "TEST1"],
        vec!["LOAD_VAL", "8"],
        vec!["PRINT"],
        vec!["RETURN"],
        vec!["FUNC", "TEST2"],
        vec!["LOAD_VAL", "10"],
        vec!["PRINT"],
        vec!["RETURN"],
    ]);

    let actual_functions = Parser::parse_functions(&bytecode).unwrap();

    let mut expected_functions = Functions::new();
    expected_functions.insert("TEST1", (3, 6)).unwrap();
    expected_functions.insert("TEST2", (7, 10)).unwrap();

    assert_eq!(actual_functions, expected_functions);
}

#[test]
fn parse_functions_should_return_error_for_duplicated_functions() {
    let bytecode = code(vec![
        vec!["FUNC", "TEST1"],
        vec!["LOAD_VAL", "8"],
        vec!["PRINT"],
        vec!["RETURN"],
        vec!["FUNC", "TEST1"],
        vec!["LOAD_VAL", "10"],
        vec!["PRINT"],
        vec!["RETURN"],
    ]);

    let functions = Parser::parse_functions(&bytecode);

    assert!(functions.is_err());
    assert_eq!(
        functions.err(),
        Some(ParseError::DuplicatedFunction("TEST1".to_string()))
    );
}

#[test]
fn parse_functions_should_return_error_when_function_is_never_returned() {
    let bytecode = code(vec![
        vec!["FUNC", "TEST1"],
        vec!["LOAD_VAL", "8"],
        vec!["PRINT"],
    ]);

    let functions = Parser::parse_functions(&bytecode);

    assert!(functions.is_err());
    assert_eq!(
        functions.err(),
        Some(ParseError::FunctionNeverReturned("TEST1".to_string()))
    );
}

#[test]
fn parse_variables() {
    let bytecode = code(vec![
        vec!["LOAD_VAL", "5"],
        vec!["WRITE_VAR", "'x'"],
        vec!["FUNC", "TEST1"],
        vec!["LOAD_VAL", "8"],
        vec!["WRITE_VAR", "'x'"],
        vec!["RETURN"],
        vec!["FUNC", "TEST2"],
        vec!["LOAD_VAL", "10"],
        vec!["WRITE_VAR", "'z'"],
        vec!["RETURN"],
        vec!["READ_VAR", "'x'"],
        vec!["WRITE_VAR", "'y'"],
    ]);

    let actual_variables = Parser::parse_variables(&bytecode).unwrap();

    let mut expected_variables = Variables::new();
    expected_variables.insert_local("MAIN", "'x'");
    expected_variables.insert_local("TEST1", "'x'");
    expected_variables.insert_local("TEST2", "'z'");
    expected_variables.insert_local("MAIN", "'x'");
    expected_variables.insert_local("MAIN", "'y'");

    assert_eq!(actual_variables, expected_variables);
    assert_eq!(*actual_variables.queue(), VecDeque::from([0, 0, 0, 0, 1]));
}

#[test]
fn parse_variables_should_return_error_when_return_from_non_existent_function() {
    let bytecode = code(vec![vec!["RETURN"]]);

    let variables = Parser::parse_variables(&bytecode);

    assert!(variables.is_err());
    assert_eq!(
        variables.err(),
        Some(ParseError::ReturnOutsideFunction("0".to_string()))
    );
}

#[test]
fn parse_labels() {
    let bytecode = code(vec![
        vec!["LOAD_VAL", "5"],
        vec!["WRITE_VAR", "'x'"],
        vec!["LABEL", "LOOP"],
        vec!["READ_VAR", "'x'"],
        vec!["LOAD_VAL", "1"],
        vec!["ADD"],
        vec!["WRITE_VAR", "'x'"],
        vec!["READ_VAR", "'x'"],
        vec!["LOAD_VAL", "10"],
        vec!["JUMP_IF_SM", "LOOP"],
    ]);

    let actual_labels = Parser::parse_labels(&bytecode).unwrap();

    let mut expected_labels = Labels::new();
    expected_labels.insert("LOOP".to_string(), 2).unwrap();

    assert_eq!(actual_labels, expected_labels);
}

#[test]
fn parse_labels_refuses_duplicated_labels() {
    let bytecode = code(vec![vec!["LABEL", "LOOP"], vec!["LABEL", "LOOP"]]);

    assert_eq!(
        Parser::parse_labels(&bytecode).err(),
        Some(ParseError::DuplicatedLabel("LOOP".to_string()))
    );
}

#[test]
fn parse_instructions() {
    let bytecode = code(vec![
        vec!["LOAD_VAL", "5"],
        vec!["WRITE_VAR", "'x'"],
        vec!["LABEL", "LOOP"],
        vec!["READ_VAR", "'x'"],
        vec!["LOAD_VAL", "1"],
        vec!["ADD"],
        vec!["WRITE_VAR", "'x'"],
        vec!["READ_VAR", "'x'"],
        vec!["LOAD_VAL", "10"],
        vec!["JUMP_IF_SM", "LOOP"],
    ]);

    let functions = Parser::parse_functions(&bytecode).unwrap();
    let mut variables = Parser::parse_variables(&bytecode).unwrap();
    let labels = Parser::parse_labels(&bytecode).unwrap();

    let actual_instructions =
        Parser::parse_instructions(&bytecode, &functions, &mut variables, &labels).unwrap();

    let expected_instructions = vec![
        Instruction::LoadValue(5),
        Instruction::WriteVariable(0),
        Instruction::Ignore,
        Instruction::ReadVariable(0),
        Instruction::LoadValue(1),
        Instruction::Add,
        Instruction::WriteVariable(0),
        Instruction::ReadVariable(0),
        Instruction::LoadValue(10),
        Instruction::JumpIfSmaller(2),
    ];

    assert_eq!(actual_instructions, expected_instructions);
    assert!(variables.queue().is_empty());
}

#[test]
fn parse_instructions_should_return_error_for_non_existent_instruction() {
    let bytecode = code(vec![vec!["TEST", "INSTRUCTION"]]);

    let functions = Parser::parse_functions(&bytecode).unwrap();
    let mut variables = Parser::parse_variables(&bytecode).unwrap();
    let labels = Parser::parse_labels(&bytecode).unwrap();

    let instructions = Parser::parse_instructions(&bytecode, &functions, &mut variables, &labels);

    assert!(instructions.is_err());
    assert_eq!(
        instructions.err(),
        Some(ParseError::InvalidInstruction("TEST INSTRUCTION".to_string()))
    );
}

#[test]
fn parse_code_drops_empty_tokens_and_empty_lines() {
    let buffer = "\n  LOAD_VAL   5 \n\n\t\nPRINT \"x\"\n ''\nADD\n".to_string();

    assert_eq!(
        Parser::parse_code(&buffer),
        vec![vec!["LOAD_VAL", "5"], vec!["PRINT", "x"], vec!["ADD"]]
    );
    assert!(Parser::parse_code(&"".to_string()).is_empty());
    assert!(Parser::parse_code(&" \n \n".to_string()).is_empty());
}

#[test]
fn find_label_reads_a_marker() {
    let marker = vec!["LABEL".to_string(), "LOOP".to_string()];
    let other = vec!["ADD".to_string()];

    assert_eq!(Parser::find_label(&marker, 7), Some(("LOOP".to_string(), 7)));
    assert_eq!(Parser::find_label(&other, 7), None);
}

#[test]
fn every_mnemonic_is_translated() {
    let bytecode = code(vec![
        vec!["FUNC", "F"],
        vec!["RETURN_VAL"],
        vec!["LABEL", "L"],
        vec!["LOAD_VAL", "-7"],
        vec!["LOAD_VAL", "+7"],
        vec!["WRITE_VAR", "a"],
        vec!["READ_VAR", "a"],
        vec!["PRINT"],
        vec!["PRINT", "'a'"],
        vec!["ADD"],
        vec!["SUB"],
        vec!["MULTIPLY"],
        vec!["DIVIDE"],
        vec!["JUMP_IF_EQ", "L"],
        vec!["JUMP_IF_NQ", "L"],
        vec!["JUMP_IF_GR", "L"],
        vec!["JUMP_IF_SM", "L"],
        vec!["JUMP_IF_GREQ", "L"],
        vec!["JUMP_IF_SMEQ", "L"],
        vec!["CALL", "F"],
        vec!["SEND_CHANNEL"],
        vec!["POP_CHANNEL"],
        vec!["SPAWN"],
        vec!["FUNC", "G"],
        vec!["RETURN"],
    ]);

    let expected = vec![
        Instruction::Jump(1),
        Instruction::ReturnValue,
        Instruction::Ignore,
        Instruction::LoadValue(-7),
        Instruction::LoadValue(7),
        Instruction::WriteVariable(0),
        Instruction::ReadVariable(0),
        Instruction::Print,
        Instruction::PrintVariable("a".to_string(), 1),
        Instruction::Add,
        Instruction::Sub,
        Instruction::Multiply,
        Instruction::Divide,
        Instruction::JumpIfEqual(2),
        Instruction::JumpIfNotEqual(2),
        Instruction::JumpIfGreater(2),
        Instruction::JumpIfSmaller(2),
        Instruction::JumpIfGreaterEqual(2),
        Instruction::JumpIfSmallerEqual(2),
        Instruction::CallFunction(0),
        Instruction::Send,
        Instruction::Receive,
        Instruction::Ignore,
        Instruction::Jump(24),
        Instruction::Return,
    ];

    assert_eq!(Parser::resolve_lines(&bytecode), Ok(expected));
}

#[test]
fn forward_references_resolve() {
    let text = "CALL LATER\nJUMP_IF_EQ END\nFUNC LATER\nRETURN\nLABEL END".to_string();

    assert_eq!(
        Parser::resolve(&text),
        Ok(vec![
            Instruction::CallFunction(2),
            Instruction::JumpIfEqual(4),
            Instruction::Jump(3),
            Instruction::Return,
            Instruction::Ignore,
        ])
    );
}

#[test]
fn unresolved_names_are_faults() {
    assert_eq!(
        Parser::resolve(&"CALL NOWHERE".to_string()),
        Err(ParseError::FunctionNotFound("NOWHERE".to_string()))
    );
    assert_eq!(
        Parser::resolve(&"JUMP_IF_EQ NOWHERE".to_string()),
        Err(ParseError::LabelNotFound("NOWHERE".to_string()))
    );
    assert_eq!(
        Parser::resolve(&"LOAD_VAL five".to_string()),
        Err(ParseError::InvalidInstruction("LOAD_VAL five".to_string()))
    );
    assert_eq!(
        Parser::resolve(&"LOAD_VAL".to_string()),
        Err(ParseError::InvalidInstruction("LOAD_VAL".to_string()))
    );
    assert_eq!(
        Parser::resolve(&"LOAD_VAL 99999999999999999999999999".to_string()),
        Err(ParseError::InvalidInstruction(
            "LOAD_VAL 99999999999999999999999999".to_string()
        ))
    );
}

#[test]
fn a_variable_line_without_a_resolved_slot_is_a_fault() {
    let line = vec!["READ_VAR".to_string(), "x".to_string()];
    let mut variables = Variables::new();

    assert_eq!(
        Instruction::from(&line, &Functions::new(), &mut variables, &Labels::new()),
        Err(ParseError::VariableNotFound)
    );
}

#[test]
fn the_first_failing_pass_decides() {
    let text = "RETURN\nFUNC F\nBOGUS".to_string();

    assert_eq!(
        Parser::resolve(&text),
        Err(ParseError::FunctionNeverReturned("F".to_string()))
    );

    let text = "RETURN\nLABEL A\nLABEL A\nBOGUS".to_string();

    assert_eq!(
        Parser::resolve(&text),
        Err(ParseError::ReturnOutsideFunction("0".to_string()))
    );

    let text = "LABEL A\nLABEL A\nBOGUS".to_string();

    assert_eq!(
        Parser::resolve(&text),
        Err(ParseError::DuplicatedLabel("A".to_string()))
    );
}

#[test]
fn variables_are_scoped_per_function() {
    let text = "WRITE_VAR x\nWRITE_VAR y\nFUNC F\nWRITE_VAR y\nREAD_VAR y\nRETURN\nREAD_VAR y"
        .to_string();

    assert_eq!(
        Parser::resolve(&text),
        Ok(vec![
            Instruction::WriteVariable(0),
            Instruction::WriteVariable(1),
            Instruction::Jump(5),
            Instruction::WriteVariable(0),
            Instruction::ReadVariable(0),
            Instruction::Return,
            Instruction::ReadVariable(1),
        ])
    );
}

#[test]
fn messages_name_the_offending_symbol() {
    assert_eq!(
        ParseError::DuplicatedFunction("F".to_string()).message(),
        "Function 'F' duplicate found during parsing"
    );
    assert_eq!(
        ParseError::FunctionNotFound("F".to_string()).message(),
        "Function 'F' has never been declared."
    );
    assert_eq!(
        ParseError::VariableNotFound.message(),
        "Variable has never been initialized."
    );
    assert_eq!(
        ParseError::DuplicatedLabel("L".to_string()).message(),
        "Label 'L' duplicate found during parsing."
    );
    assert_eq!(
        ParseError::LabelNotFound("L".to_string()).message(),
        "Jump to non-existant label 'L' found."
    );
    assert_eq!(
        ParseError::FunctionNeverReturned("F".to_string()).message(),
        "Missing return statement in the function 'F'."
    );
    assert_eq!(
        ParseError::ReturnOutsideFunction("12".to_string()).message(),
        "Return can only be used within a function (Line #12)."
    );
    assert_eq!(
        ParseError::InvalidInstruction("A B".to_string()).message(),
        "Unknown instruction 'A B'."
    );
}
