use bytecode::errors::RuntimeError;
use bytecode::frame::Frame;

#[test]
fn frame_new() {
    let frame: Frame<isize> = Frame::new(5);

    assert_eq!(frame.ip, 5);
    assert!(frame.get_operand_stack().is_empty());
    assert_eq!(frame.locals_len(), 0);
}

#[test]
fn frame_push_value() {
    let mut frame: Frame<isize> = Frame::new(5);

    frame.push_value(10);

    assert!(!frame.get_operand_stack().is_empty());
}

#[test]
fn frame_pop_value() {
    let mut frame: Frame<isize> = Frame::new(5);

    frame.push_value(10);

    assert_eq!(frame.pop_value().unwrap(), 10);
}

#[test]
fn frame_peek_value() {
    let mut frame: Frame<isize> = Frame::new(5);

    frame.push_value(10);

    assert_eq!(*frame.peek_value().unwrap(), 10);
}

#[test]
fn set_get_local() {
    let mut frame: Frame<isize> = Frame::new(5);

    frame.set_local(0, 10).unwrap();

    assert_eq!(frame.get_local(0).unwrap(), 10);
}

#[test]
fn set_local_beyond_the_next_slot_is_a_fault() {
    let mut frame: Frame<isize> = Frame::new(5);

    assert_eq!(frame.set_local(10, 10), Err(RuntimeError::WrongStackIndex));
    assert_eq!(frame.locals_len(), 0);
}

#[test]
fn get_operand_stack() {
    let frame: Frame<isize> = Frame::new(5);

    let operand_stack = frame.get_operand_stack();

    assert!(operand_stack.is_empty());
}

#[test]
fn get_operand_stack_mut() {
    let mut frame: Frame<isize> = Frame::new(5);

    let operand_stack = frame.get_operand_stack_mut();

    operand_stack.push(10);

    assert_eq!(operand_stack.pop().unwrap(), 10);
}

#[test]
fn locals_grow_by_one_and_can_be_overwritten() {
    let mut frame: Frame<isize> = Frame::new(0);

    assert_eq!(frame.get_local(0), Err(RuntimeError::WrongStackIndex));
    frame.set_local(0, 1).unwrap();
    frame.set_local(1, 2).unwrap();
    frame.set_local(0, 3).unwrap();

    assert_eq!(frame.get_local(0), Ok(3));
    assert_eq!(frame.get_local(1), Ok(2));
    assert_eq!(frame.locals_len(), 2);
    assert_eq!(frame.set_local(3, 4), Err(RuntimeError::WrongStackIndex));
    assert_eq!(frame.return_address(), 0);
}

#[test]
fn empty_operand_stack_is_a_fault() {
    let mut frame: Frame<isize> = Frame::new(0);

    assert_eq!(frame.pop_value(), Err(RuntimeError::EmptyStack));
    assert_eq!(frame.peek_value(), Err(RuntimeError::EmptyStack));
}
