use bytecode::errors::ParseError;
use bytecode::functions::Functions;

#[test]
fn functions_new() {
    let functions = Functions::new();

    assert!(functions.is_empty());
}

#[test]
fn functions_insert() {
    let mut functions = Functions::new();

    functions.insert("MAIN", (1, 5)).unwrap();

    assert!(functions.contains_key("MAIN"));
}

#[test]
fn insert_should_return_error_when_function_duplicated() {
    let mut functions = Functions::new();

    functions.insert("MAIN", (1, 5)).unwrap();

    assert!(functions.insert("MAIN", (1, 5)).is_err());
}

#[test]
fn functions_get() {
    let mut functions = Functions::new();

    functions.insert("MAIN", (1, 5)).unwrap();

    assert_eq!(functions.get("MAIN").unwrap(), &(1, 5));
}

#[test]
fn functions_get_should_return_error_when_key_not_presented() {
    let functions = Functions::new();

    assert!(functions.get("MAIN").is_err());
}

#[test]
fn second_insert_fails_whatever_came_between() {
    let mut functions = Functions::new();

    functions.insert("A", (1, 5)).unwrap();
    functions.insert("B", (6, 9)).unwrap();
    functions.insert("C", (10, 12)).unwrap();

    assert_eq!(
        functions.insert("A", (20, 30)),
        Err(ParseError::DuplicatedFunction("A".to_string()))
    );
    assert_eq!(functions.get("A").unwrap(), &(1, 5));
    assert_eq!(functions.get("B").unwrap(), &(6, 9));
    assert_eq!(
        functions.get("D").err(),
        Some(ParseError::FunctionNotFound("D".to_string()))
    );
}

#[test]
fn function_tables_compare_by_content() {
    let mut first = Functions::new();
    first.insert("A", (1, 5)).unwrap();
    first.insert("B", (6, 9)).unwrap();
    let mut second = Functions::new();
    second.insert("B", (6, 9)).unwrap();
    second.insert("A", (1, 5)).unwrap();
    let mut third = Functions::new();
    third.insert("A", (1, 5)).unwrap();
    third.insert("B", (6, 8)).unwrap();

    assert!(first == second);
    assert!(first != third);
    assert!(first != Functions::new());
}
