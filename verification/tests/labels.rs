use bytecode::errors::ParseError;
use bytecode::labels::Labels;

#[test]
fn labels_new() {
    let labels = Labels::new();

    assert!(labels.is_empty());
}

#[test]
fn labels_insert() {
    let mut labels = Labels::new();

    labels.insert("LOOP".to_string(), 5).unwrap();

    assert!(labels.contains_key("LOOP"));
}

#[test]
fn insert_should_return_error_when_label_duplicated() {
    let mut labels = Labels::new();

    labels.insert("LOOP".to_string(), 5).unwrap();

    assert!(labels.insert("LOOP".to_string(), 5).is_err());
}

#[test]
fn labels_get() {
    let mut labels = Labels::new();

    labels.insert("LOOP".to_string(), 5).unwrap();

    assert_eq!(labels.get("LOOP").unwrap(), &5);
}

#[test]
fn labels_get_should_return_error_when_key_not_presented() {
    let labels = Labels::new();

    assert!(labels.get("LOOP").is_err());
}

#[test]
fn from_iter() {
    let labels_vec: Vec<&str> = vec!["LOOP1", "LOOP2"];

    let labels = Labels::from_iter(
        labels_vec
            .iter()
            .enumerate()
            .map(move |(i, y)| (y.to_string(), i))
            .collect::<Vec<(String, usize)>>(),
    )
    .unwrap();

    println!("{:?}", labels);

    assert_eq!(labels.get("LOOP1").unwrap(), &0);
    assert_eq!(labels.get("LOOP2").unwrap(), &1);
}

#[test]
fn from_iter_refuses_duplicated_labels() {
    let labels_vec: Vec<&str> = vec!["LOOP1", "LOOP1"];

    let labels = Labels::from_iter(
        labels_vec
            .iter()
            .enumerate()
            .map(move |(i, y)| (y.to_string(), i))
            .collect::<Vec<(String, usize)>>(),
    );

    assert_eq!(
        labels.err(),
        Some(ParseError::DuplicatedLabel("LOOP1".to_string()))
    );
}

#[test]
fn second_label_insert_fails_whatever_came_between() {
    let mut labels = Labels::new();

    labels.insert("A".to_string(), 1).unwrap();
    labels.insert("B".to_string(), 2).unwrap();

    assert_eq!(
        labels.insert("A".to_string(), 3),
        Err(ParseError::DuplicatedLabel("A".to_string()))
    );
    assert_eq!(labels.get("A").unwrap(), &1);
    assert_eq!(
        labels.get("C").err(),
        Some(ParseError::LabelNotFound("C".to_string()))
    );
}

#[test]
fn label_tables_compare_by_content() {
    let mut first = Labels::new();
    first.insert("A".to_string(), 1).unwrap();
    first.insert("B".to_string(), 2).unwrap();
    let mut second = Labels::new();
    second.insert("B".to_string(), 2).unwrap();
    second.insert("A".to_string(), 1).unwrap();

    assert!(first == second);
    assert!(first != Labels::new());
}
