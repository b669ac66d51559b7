use bytecode::channel::WORKER_POOL_CAPACITY;
use bytecode::errors::{ParseError, RuntimeError};
use bytecode::frame::Frame;
use bytecode::instruction::Instruction;
use bytecode::machine::Status;
use bytecode::parser::Parser;
use bytecode::vm::VirtualMachine;

const LOOP: &str = "LOAD_VAL 1\nWRITE_VAR x\nLABEL LOOP\nREAD_VAR x\nLOAD_VAL 1\nADD\nWRITE_VAR x\nREAD_VAR x\nLOAD_VAL 10\nJUMP_IF_SM LOOP";

#[test]
fn loop_reaches_its_jump_nine_times_and_leaves_ten() {
    let program = Parser::resolve(&LOOP.to_string()).unwrap();
    let mut vm = VirtualMachine::new();
    vm.push_frame(Frame::new(program.len()));

    // The jump stands at pointer 9; where it is taken, the run goes on
    // behind the label, at pointer 3.
    let mut reached = 0;
    let mut taken = 0;
    loop {
        let at = vm.ip();
        match vm.step(&program).unwrap() {
            Status::Running => {
                if at == 9 {
                    reached += 1;
                    if vm.ip() == 3 {
                        taken += 1;
                    }
                }
            }
            Status::Finished => break,
            Status::Blocked => panic!("nothing receives here"),
        }
    }

    assert_eq!(reached, 9);
    assert_eq!(taken, 8);
    assert_eq!(vm.call_stack().peek().unwrap().get_local(0), Ok(10));
    assert!(vm.call_stack().peek().unwrap().get_operand_stack().is_empty());
    assert_eq!(vm.join(), Ok(Status::Finished));
}

#[test]
fn a_call_leaves_one_value_and_resumes_after_the_call() {
    let text = "CALL F\nLOAD_VAL 7\nFUNC F\nLOAD_VAL 5\nLOAD_VAL 5\nDIVIDE\nRETURN_VAL".to_string();
    let program = Parser::resolve(&text).unwrap();
    let mut vm = VirtualMachine::new();
    vm.push_frame(Frame::new(program.len()));

    // The call, and the four instructions of the body.
    assert_eq!(vm.resume(&program, 5), Ok(Status::Running));

    assert_eq!(vm.ip(), 1);
    assert_eq!(vm.call_stack().len(), 1);
    assert_eq!(vm.call_stack().peek().unwrap().get_operand_stack().len(), 1);
    assert_eq!(vm.peek_value(), Ok(&1));
    assert_eq!(program[vm.ip()], Instruction::LoadValue(7));

    assert_eq!(vm.resume(&program, usize::MAX), Ok(Status::Finished));
    assert_eq!(vm.pop_value(), Ok(7));
    assert_eq!(vm.pop_value(), Ok(1));
    assert_eq!(vm.pop_value(), Err(RuntimeError::EmptyStack));
}

#[test]
fn a_function_without_return_fails_resolution() {
    let text = "LOAD_VAL 1\nFUNC F\nLOAD_VAL 2\nPRINT".to_string();

    assert_eq!(
        Parser::resolve(&text),
        Err(ParseError::FunctionNeverReturned("F".to_string()))
    );
    assert_eq!(
        Parser::resolve(&text).unwrap_err().message(),
        "Missing return statement in the function 'F'."
    );
}

#[test]
fn a_return_outside_any_function_fails_resolution() {
    let text = "LOAD_VAL 1\nFUNC F\nRETURN\nRETURN_VAL".to_string();

    assert_eq!(
        Parser::resolve(&text),
        Err(ParseError::ReturnOutsideFunction("3".to_string()))
    );
    assert_eq!(
        Parser::resolve(&text).unwrap_err().message(),
        "Return can only be used within a function (Line #3)."
    );
}

#[test]
fn a_receive_yields_the_value_sent() {
    let text = "LOAD_VAL 41\nSEND_CHANNEL\nLOAD_VAL 1\nPOP_CHANNEL\nADD\nPRINT".to_string();
    let program = Parser::resolve(&text).unwrap();
    let mut vm = VirtualMachine::new();

    assert_eq!(vm.run(program), Ok(Status::Finished));
    assert_eq!(*vm.output(), vec!["42".to_string()]);
}

#[test]
fn messages_are_received_in_the_order_sent() {
    let mut vm = VirtualMachine::new();
    vm.push_frame(Frame::new(0));
    for value in [1, 2, 3] {
        vm.push_value(value).unwrap();
        vm.send().unwrap();
    }

    assert_eq!(vm.channel().waiting(), 2);
    for value in [1, 2, 3] {
        assert_eq!(vm.receive(), Ok(true));
        assert_eq!(vm.pop_value(), Ok(value));
    }
    assert_eq!(vm.channel().waiting(), 0);
    assert_eq!(vm.receive(), Ok(false));
}

#[test]
fn sends_beyond_the_pool_are_a_fault() {
    let mut vm = VirtualMachine::new();
    vm.push_frame(Frame::new(0));

    // One message is in the channel, and each worker of the pool waits.
    for value in 0..=WORKER_POOL_CAPACITY {
        vm.push_value(value as isize).unwrap();
        assert_eq!(vm.send(), Ok(()));
    }
    assert_eq!(vm.channel().waiting(), WORKER_POOL_CAPACITY);

    vm.push_value(99).unwrap();
    assert_eq!(vm.send(), Err(RuntimeError::WorkerPoolExhausted));
    assert_eq!(vm.peek_value(), Ok(&99));
    assert_eq!(vm.channel().waiting(), WORKER_POOL_CAPACITY);

    assert_eq!(vm.receive(), Ok(true));
    assert_eq!(vm.pop_value(), Ok(0));
    assert_eq!(vm.send(), Ok(()));
}

#[test]
fn a_receive_without_a_message_waits() {
    let program = vec![Instruction::LoadValue(1), Instruction::Receive, Instruction::Print];
    let mut vm = VirtualMachine::new();

    assert_eq!(vm.run(vec![Instruction::LoadValue(1), Instruction::Receive, Instruction::Print]), Ok(Status::Blocked));
    assert_eq!(vm.ip(), 1);
    assert_eq!(vm.step(&program), Ok(Status::Blocked));
    assert!(vm.output().is_empty());
}

#[test]
fn a_worker_that_still_waits_at_the_end_is_a_fault() {
    let text = "LOAD_VAL 1\nSEND_CHANNEL\nLOAD_VAL 2\nSEND_CHANNEL".to_string();
    let program = Parser::resolve(&text).unwrap();
    let mut vm = VirtualMachine::new();

    assert_eq!(vm.run(program), Err(RuntimeError::WorkerFailed));

    let text = "LOAD_VAL 1\nSEND_CHANNEL".to_string();
    let program = Parser::resolve(&text).unwrap();
    let mut vm = VirtualMachine::new();

    assert_eq!(vm.run(program), Ok(Status::Finished));
}

#[test]
fn balanced_statements_leave_no_operand() {
    let text = "LOAD_VAL 2\nLOAD_VAL 3\nADD\nWRITE_VAR a\nREAD_VAR a\nLOAD_VAL 4\nMULTIPLY\nLOAD_VAL 5\nSUB\nWRITE_VAR b\nPRINT b".to_string();
    let program = Parser::resolve(&text).unwrap();
    let mut vm = VirtualMachine::new();
    vm.push_frame(Frame::new(program.len()));

    assert_eq!(vm.resume(&program, 4), Ok(Status::Running));
    assert!(vm.call_stack().peek().unwrap().get_operand_stack().is_empty());

    assert_eq!(vm.resume(&program, usize::MAX), Ok(Status::Finished));
    assert!(vm.call_stack().peek().unwrap().get_operand_stack().is_empty());
    assert_eq!(*vm.output(), vec!["b = 15".to_string()]);
}

#[test]
fn two_runs_print_the_same() {
    let text = format!("{}\nPRINT x\nREAD_VAR x\nPRINT", LOOP);

    let mut first = VirtualMachine::new();
    let first_status = first.run(Parser::resolve(&text).unwrap());
    let mut second = VirtualMachine::new();
    let second_status = second.run(Parser::resolve(&text).unwrap());

    assert_eq!(first_status, Ok(Status::Finished));
    assert_eq!(first_status, second_status);
    assert_eq!(first.output(), second.output());
    assert_eq!(*first.output(), vec!["x = 10".to_string(), "10".to_string()]);
    assert_eq!(first, second);
}
