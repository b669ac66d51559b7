use bytecode::errors::RuntimeError;
use bytecode::frame::Frame;
use bytecode::instruction::Instruction;
use bytecode::machine::Status;
use bytecode::stack::Stack;
use bytecode::vm::VirtualMachine;

#[test]
fn vm_new() {
    let vm = VirtualMachine::new();

    assert_eq!(vm.ip(), 0);
    assert!(vm.call_stack().is_empty());
}

#[test]
fn run() {
    let mut vm = VirtualMachine::new();
    let frame: Frame<isize> = Frame::new(0);
    vm.push_frame(frame);

    let program = vec![
        Instruction::LoadValue(1),      // LOAD_VAL 1
        Instruction::WriteVariable(0),  // WRITE_VAR 'x'
        Instruction::Ignore,            // LABEL LOOP
        Instruction::ReadVariable(0),   // READ_VAR 'x'
        Instruction::CallFunction(11),  // CALL TEST
        Instruction::Add,               // ADD
        Instruction::WriteVariable(0),  // WRITE_VAR 'x'
        Instruction::ReadVariable(0),   // READ_VAR 'x'
        Instruction::LoadValue(10),     // LOAD_VAL 10
        Instruction::JumpIfSmaller(2),  // JUMP_IF_SM LOOP
        Instruction::ReadVariable(0),   // READ_VAR 'x'
        Instruction::Jump(17),          // FUNC TEST
        Instruction::LoadValue(5),      // LOAD_VAL 5
        Instruction::WriteVariable(0),  // WRITE_VAR 'x'
        Instruction::ReadVariable(0),   // READ_VAR 'x'
        Instruction::LoadValue(5),      // LOAD_VAL 5
        Instruction::Divide,            // DIVIDE
        Instruction::ReturnValue,       // RETURN_VAL
    ];

    assert_eq!(vm.run(program), Ok(Status::Finished));

    let actual_frame = vm.call_stack_mut().peek_mut().unwrap();

    assert_eq!(actual_frame.pop_value().unwrap(), 10);
}

#[test]
fn vm_push_value() {
    let mut vm = VirtualMachine::new();
    let frame: Frame<isize> = Frame::new(0);
    vm.push_frame(frame);

    vm.push_value(10).unwrap();

    let mut expected_call_stack = Stack::new();
    let mut expected_frame = Frame::new(0);
    expected_frame.get_operand_stack_mut().push(10);
    expected_call_stack.push(expected_frame);

    assert_eq!(*vm.call_stack(), expected_call_stack);
}

#[test]
fn vm_pop_value() {
    let mut vm = VirtualMachine::new();
    let frame: Frame<isize> = Frame::new(0);
    vm.push_frame(frame);

    vm.push_value(10).unwrap();
    let val = vm.pop_value().unwrap();

    assert_eq!(val, 10);
}

#[test]
fn vm_peek_value() {
    let mut vm = VirtualMachine::new();
    let frame: Frame<isize> = Frame::new(0);
    vm.push_frame(frame);

    vm.push_value(10).unwrap();
    let val = vm.peek_value().unwrap();

    assert_eq!(val, &10);
}

#[test]
fn write_variable() {
    let mut vm = VirtualMachine::new();
    let frame: Frame<isize> = Frame::new(0);
    vm.push_frame(frame);

    vm.push_value(10).unwrap();
    vm.write_variable(0).unwrap();

    let actual_frame = vm.call_stack().peek().unwrap();

    assert_eq!(actual_frame.get_local(0).unwrap(), 10);
}

#[test]
fn read_variable() {
    let mut vm = VirtualMachine::new();
    let frame: Frame<isize> = Frame::new(0);
    vm.push_frame(frame);

    vm.push_value(10).unwrap();
    vm.write_variable(0).unwrap();
    vm.read_variable(0).unwrap();

    let actual_frame = vm.call_stack_mut().peek_mut().unwrap();

    assert_eq!(actual_frame.pop_value().unwrap(), 10);
}

#[test]
fn add() {
    let mut vm = VirtualMachine::new();
    let frame: Frame<isize> = Frame::new(0);
    vm.push_frame(frame);

    vm.push_value(5).unwrap();
    vm.push_value(10).unwrap();
    vm.add().unwrap();

    assert_eq!(vm.pop_value().unwrap(), 15);
}

#[test]
fn sub() {
    let mut vm = VirtualMachine::new();
    let frame: Frame<isize> = Frame::new(0);
    vm.push_frame(frame);

    vm.push_value(10).unwrap();
    vm.push_value(3).unwrap();
    vm.sub().unwrap();

    assert_eq!(vm.pop_value().unwrap(), 7);
}

#[test]
fn multiply() {
    let mut vm = VirtualMachine::new();
    let frame: Frame<isize> = Frame::new(0);
    vm.push_frame(frame);

    vm.push_value(5).unwrap();
    vm.push_value(10).unwrap();
    vm.multiply().unwrap();

    assert_eq!(vm.pop_value().unwrap(), 50);
}

#[test]
fn divide() {
    let mut vm = VirtualMachine::new();
    let frame: Frame<isize> = Frame::new(0);
    vm.push_frame(frame);

    vm.push_value(10).unwrap();
    vm.push_value(5).unwrap();
    vm.divide().unwrap();

    assert_eq!(vm.pop_value().unwrap(), 2);
}

#[test]
fn jump() {
    let mut vm = VirtualMachine::new();
    let frame: Frame<isize> = Frame::new(0);
    vm.push_frame(frame);

    vm.jump(10);

    assert_eq!(vm.ip(), 10);
}

#[test]
fn jie() {
    let mut vm = VirtualMachine::new();
    let frame: Frame<isize> = Frame::new(0);
    vm.push_frame(frame);

    vm.push_value(5).unwrap();
    vm.push_value(5).unwrap();
    vm.jie(10).unwrap();

    assert_eq!(vm.ip(), 10);
}

#[test]
fn jine() {
    let mut vm = VirtualMachine::new();
    let frame: Frame<isize> = Frame::new(0);
    vm.push_frame(frame);

    vm.push_value(10).unwrap();
    vm.push_value(5).unwrap();
    vm.jine(10).unwrap();

    assert_eq!(vm.ip(), 10);
}

#[test]
fn jilg() {
    let mut vm = VirtualMachine::new();
    let frame: Frame<isize> = Frame::new(0);
    vm.push_frame(frame);

    vm.push_value(10).unwrap();
    vm.push_value(5).unwrap();
    vm.jilg(10).unwrap();

    assert_eq!(vm.ip(), 10);
}

#[test]
fn jils() {
    let mut vm = VirtualMachine::new();
    let frame: Frame<isize> = Frame::new(0);
    vm.push_frame(frame);

    vm.push_value(5).unwrap();
    vm.push_value(10).unwrap();
    vm.jils(10).unwrap();

    assert_eq!(vm.ip(), 10);
}

#[test]
fn jilge() {
    let mut vm = VirtualMachine::new();
    let frame: Frame<isize> = Frame::new(0);
    vm.push_frame(frame);

    vm.push_value(10).unwrap();
    vm.push_value(5).unwrap();
    vm.jilge(5).unwrap();

    assert_eq!(vm.ip(), 5);

    vm.push_value(5).unwrap();
    vm.push_value(5).unwrap();
    vm.jilge(10).unwrap();

    assert_eq!(vm.ip(), 10);
}

#[test]
fn jilse() {
    let mut vm = VirtualMachine::new();
    let frame: Frame<isize> = Frame::new(0);
    vm.push_frame(frame);

    vm.push_value(5).unwrap();
    vm.push_value(10).unwrap();
    vm.jilse(5).unwrap();

    assert_eq!(vm.ip(), 5);

    vm.push_value(5).unwrap();
    vm.push_value(5).unwrap();
    vm.jilse(10).unwrap();

    assert_eq!(vm.ip(), 10);
}

#[test]
fn call_function() {
    let mut vm = VirtualMachine::new();
    let frame: Frame<isize> = Frame::new(5);
    vm.push_frame(frame);
    vm.jump(5);

    vm.call_function(10);

    let actual_frame = vm.call_stack().peek().unwrap();

    assert_eq!(actual_frame.ip, 5);
    assert_eq!(vm.ip(), 10);
}

#[test]
fn return_void() {
    let mut vm = VirtualMachine::new();
    let frame: Frame<isize> = Frame::new(0);
    vm.push_frame(frame);
    let frame: Frame<isize> = Frame::new(5);
    vm.push_frame(frame);

    vm.return_void().unwrap();

    assert_eq!(vm.ip(), 5);
}

#[test]
fn return_value() {
    let mut vm = VirtualMachine::new();
    let frame: Frame<isize> = Frame::new(0);
    vm.push_frame(frame);
    let frame: Frame<isize> = Frame::new(5);
    vm.push_frame(frame);

    vm.push_value(10).unwrap();
    vm.return_value().unwrap();

    let actual_frame = vm.call_stack_mut().peek_mut().unwrap();

    assert_eq!(actual_frame.pop_value().unwrap(), 10);
    assert_eq!(vm.ip(), 5);
}

fn with_operands(values: &[isize]) -> VirtualMachine {
    let mut vm = VirtualMachine::new();
    vm.push_frame(Frame::new(0));
    for value in values {
        vm.push_value(*value).unwrap();
    }
    vm
}

#[test]
fn operands_are_popped_right_first() {
    let mut vm = with_operands(&[10, 3]);
    vm.sub().unwrap();
    assert_eq!(vm.pop_value(), Ok(7));

    let mut vm = with_operands(&[3, 10]);
    vm.sub().unwrap();
    assert_eq!(vm.pop_value(), Ok(-7));

    let mut vm = with_operands(&[7, 2]);
    vm.divide().unwrap();
    assert_eq!(vm.pop_value(), Ok(3));
}

#[test]
fn division_rounds_towards_zero() {
    let mut vm = with_operands(&[-7, 2]);
    vm.divide().unwrap();
    assert_eq!(vm.pop_value(), Ok(-3));

    let mut vm = with_operands(&[7, -2]);
    vm.divide().unwrap();
    assert_eq!(vm.pop_value(), Ok(-3));

    let mut vm = with_operands(&[-7, -2]);
    vm.divide().unwrap();
    assert_eq!(vm.pop_value(), Ok(3));
}

#[test]
fn arithmetic_faults_leave_the_engine_unchanged() {
    let mut vm = with_operands(&[1, 0]);
    assert_eq!(vm.divide(), Err(RuntimeError::DivisionByZero));
    assert_eq!(vm.call_stack().peek().unwrap().get_operand_stack().len(), 2);

    let mut vm = with_operands(&[isize::MAX, 1]);
    assert_eq!(vm.add(), Err(RuntimeError::ArithmeticOverflow));
    assert_eq!(vm.peek_value(), Ok(&1));

    let mut vm = with_operands(&[isize::MIN, 1]);
    assert_eq!(vm.sub(), Err(RuntimeError::ArithmeticOverflow));

    let mut vm = with_operands(&[isize::MAX, 2]);
    assert_eq!(vm.multiply(), Err(RuntimeError::ArithmeticOverflow));

    let mut vm = with_operands(&[isize::MIN, -1]);
    assert_eq!(vm.divide(), Err(RuntimeError::ArithmeticOverflow));

    let mut vm = with_operands(&[1]);
    assert_eq!(vm.add(), Err(RuntimeError::EmptyStack));
    assert_eq!(vm.peek_value(), Ok(&1));

    let mut vm = VirtualMachine::new();
    assert_eq!(vm.add(), Err(RuntimeError::EmptyStack));
    assert_eq!(vm.push_value(1), Err(RuntimeError::EmptyStack));
    assert_eq!(vm.pop_value(), Err(RuntimeError::EmptyStack));
    assert_eq!(vm.peek_value(), Err(RuntimeError::EmptyStack));
    assert_eq!(vm.return_void(), Err(RuntimeError::EmptyStack));
    assert_eq!(vm.return_value(), Err(RuntimeError::EmptyStack));
    assert_eq!(vm.send(), Err(RuntimeError::EmptyStack));
    assert_eq!(vm.receive(), Err(RuntimeError::EmptyStack));
}

#[test]
fn addressing_faults() {
    let mut vm = with_operands(&[5]);
    assert_eq!(vm.write_variable(1), Err(RuntimeError::WrongStackIndex));
    assert_eq!(vm.peek_value(), Ok(&5));
    assert_eq!(vm.read_variable(0), Err(RuntimeError::WrongStackIndex));
    assert_eq!(vm.print_variable("x", 0), Err(RuntimeError::WrongStackIndex));
    assert_eq!(vm.write_variable(0), Ok(()));
    assert_eq!(vm.write_variable(0), Err(RuntimeError::EmptyStack));
    assert_eq!(vm.print(), Err(RuntimeError::EmptyStack));
    assert_eq!(vm.print_variable("x", 0), Ok("x = 5".to_string()));
}

#[test]
fn a_jump_that_does_not_hold_falls_through() {
    let mut vm = with_operands(&[5, 6]);
    vm.jie(10).unwrap();
    assert_eq!(vm.ip(), 0);
    assert!(vm.call_stack().peek().unwrap().get_operand_stack().is_empty());

    let mut vm = with_operands(&[5, 5]);
    vm.jine(10).unwrap();
    assert_eq!(vm.ip(), 0);

    let mut vm = with_operands(&[5, 5]);
    vm.jilg(10).unwrap();
    assert_eq!(vm.ip(), 0);

    let mut vm = with_operands(&[5, 5]);
    vm.jils(10).unwrap();
    assert_eq!(vm.ip(), 0);

    let mut vm = with_operands(&[4, 5]);
    vm.jilge(10).unwrap();
    assert_eq!(vm.ip(), 0);

    let mut vm = with_operands(&[6, 5]);
    vm.jilse(10).unwrap();
    assert_eq!(vm.ip(), 0);

    let mut vm = with_operands(&[6]);
    assert_eq!(vm.jie(10), Err(RuntimeError::EmptyStack));
}

#[test]
fn print_emits_one_line_and_changes_nothing_else() {
    let program = vec![
        Instruction::LoadValue(-12),
        Instruction::Print,
        Instruction::WriteVariable(0),
        Instruction::PrintVariable("x".to_string(), 0),
        Instruction::LoadValue(0),
        Instruction::Print,
    ];
    let mut vm = VirtualMachine::new();

    assert_eq!(vm.run(program), Ok(Status::Finished));
    assert_eq!(
        *vm.output(),
        vec!["-12".to_string(), "x = -12".to_string(), "0".to_string()]
    );
    assert_eq!(vm.peek_value(), Ok(&0));
    assert_eq!(vm.ip(), 6);
}

#[test]
fn an_outermost_return_ends_the_run() {
    let program = vec![
        Instruction::LoadValue(1),
        Instruction::ReturnValue,
        Instruction::LoadValue(2),
        Instruction::Print,
    ];
    let mut vm = VirtualMachine::new();

    assert_eq!(vm.run(program), Ok(Status::Finished));
    assert!(vm.call_stack().is_empty());
    assert!(vm.output().is_empty());

    let program = vec![Instruction::Return, Instruction::LoadValue(2)];
    let mut vm = VirtualMachine::new();

    assert_eq!(vm.run(program), Ok(Status::Finished));
    assert!(vm.call_stack().is_empty());
}

#[test]
fn a_fault_ends_the_run_at_the_faulting_instruction() {
    let program = vec![
        Instruction::LoadValue(1),
        Instruction::Print,
        Instruction::Add,
        Instruction::Print,
    ];
    let mut vm = VirtualMachine::new();

    assert_eq!(vm.run(program), Err(RuntimeError::EmptyStack));
    assert_eq!(vm.ip(), 2);
    assert_eq!(*vm.output(), vec!["1".to_string()]);
    assert_eq!(vm.peek_value(), Ok(&1));
}

#[test]
fn resume_stops_when_its_steps_are_used_up() {
    let program = vec![Instruction::Ignore, Instruction::Jump(0)];
    let mut vm = VirtualMachine::new();
    vm.push_frame(Frame::new(program.len()));

    assert_eq!(vm.resume(&program, 1001), Ok(Status::Running));
    assert_eq!(vm.ip(), 1);
    assert_eq!(vm.resume(&program, 0), Ok(Status::Running));
    assert_eq!(vm.step(&program), Ok(Status::Running));
    assert_eq!(vm.ip(), 1);
}

#[test]
fn a_pointer_that_cannot_grow_lies_past_the_end() {
    let program = vec![Instruction::Jump(usize::MAX), Instruction::Print];
    let mut vm = VirtualMachine::new();

    assert_eq!(vm.run(program), Ok(Status::Finished));
    assert_eq!(vm.ip(), usize::MAX);
}

#[test]
fn runtime_messages() {
    assert_eq!(
        RuntimeError::EmptyStack.message(),
        "Stack is empty, nothing to pop/peek."
    );
    assert_eq!(
        RuntimeError::WrongStackIndex.message(),
        "Element with provided index doesn't exist in the stack."
    );
    assert_eq!(RuntimeError::DivisionByZero.message(), "Division by zero.");
    assert_eq!(
        RuntimeError::ArithmeticOverflow.message(),
        "Arithmetic result doesn't fit the value type."
    );
    assert_eq!(
        RuntimeError::WorkerPoolExhausted.message(),
        "Worker pool is exhausted, nothing can be sent."
    );
    assert_eq!(
        RuntimeError::WorkerFailed.message(),
        "A worker could not transmit its value."
    );
}
