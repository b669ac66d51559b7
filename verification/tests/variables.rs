use std::collections::VecDeque;

use bytecode::errors::ParseError;
use bytecode::variables::Variables;

#[test]
fn variables_new() {
    let variables = Variables::new();

    assert!(variables.has_no_locals());
    assert!(variables.queue().is_empty());
}

#[test]
fn insert_local() {
    let mut variables = Variables::new();

    variables.insert_local("MAIN", "x");
    variables.insert_local("FUNC", "x");
    variables.insert_local("MAIN", "y");

    let expected_queue = VecDeque::from([0, 0, 1]);

    assert_eq!(variables.slot("MAIN", "x"), Some(0));
    assert_eq!(variables.slot("FUNC", "x"), Some(0));
    assert_eq!(variables.slot("MAIN", "y"), Some(1));
    assert_eq!(variables.slot("FUNC", "y"), None);
    assert_eq!(variables.slot("OTHER", "x"), None);
    assert_eq!(*variables.queue(), expected_queue);
}

#[test]
fn queue_pop_front() {
    let mut variables = Variables::new();

    variables.insert_local("MAIN", "x");
    variables.insert_local("FUNC", "x");
    variables.insert_local("MAIN", "y");

    let expected_queue = VecDeque::from([0, 1]);

    variables.queue_pop_front().unwrap();

    assert_eq!(*variables.queue(), expected_queue);
}

#[test]
fn queue_pop_front_should_return_error_when_queue_empty() {
    let mut variables = Variables::new();

    assert!(variables.queue_pop_front().is_err());
}

#[test]
fn a_variable_keeps_its_slot() {
    let mut variables = Variables::new();

    variables.insert_local("MAIN", "x");
    variables.insert_local("MAIN", "y");
    variables.insert_local("MAIN", "x");
    variables.insert_local("MAIN", "z");

    assert_eq!(*variables.queue(), VecDeque::from([0, 1, 0, 2]));
    assert_eq!(variables.queue_pop_front(), Ok(0));
    assert_eq!(variables.queue_pop_front(), Ok(1));
    assert_eq!(variables.queue_pop_front(), Ok(0));
    assert_eq!(variables.queue_pop_front(), Ok(2));
    assert_eq!(variables.queue_pop_front(), Err(ParseError::VariableNotFound));
    assert_eq!(variables.slot("MAIN", "z"), Some(2));
}

#[test]
fn variable_tables_compare_by_content() {
    let mut first = Variables::new();
    first.insert_local("MAIN", "x");
    first.insert_local("FUNC", "y");
    let mut second = Variables::new();
    second.insert_local("MAIN", "x");
    second.insert_local("FUNC", "y");
    let mut third = Variables::new();
    third.insert_local("FUNC", "y");
    third.insert_local("MAIN", "x");

    assert!(first == second);
    assert!(first == third);
    third.queue_pop_front().unwrap();
    assert!(first != third);
    assert!(first != Variables::new());
}
