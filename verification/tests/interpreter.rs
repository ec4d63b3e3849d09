use loxvm::chunk::{Chunk, OpCode};
use loxvm::value::Value;
use loxvm::vm::{Fault, FaultKind, InterpretResult, VM};

fn number(x: f64) -> Value {
    Value::Number(x.to_bits())
}

#[test]
fn balanced_expression_yields_expected_number() {
    let mut chunk = Chunk::new();
    let c0 = chunk.add_constant(number(1.2));
    chunk.write_chunk(OpCode::OP_CONSTANT(c0), 123);
    let c1 = chunk.add_constant(number(3.4));
    chunk.write_chunk(OpCode::OP_CONSTANT(c1), 123);
    chunk.write_chunk(OpCode::OP_ADD, 123);
    chunk.write_chunk(OpCode::OP_NEGATE, 123);
    chunk.write_chunk(OpCode::OP_RETURN, 123);

    let mut vm = VM::new();
    let result = vm.interpret(&chunk);
    assert_eq!(result, InterpretResult::INTERPRET_OK(number(-4.6)));
    assert_eq!(result, InterpretResult::INTERPRET_OK(number(-(1.2 + 3.4))));
}

#[test]
fn run_executes_from_the_current_stack() {
    let mut chunk = Chunk::new();
    let c0 = chunk.add_constant(number(2.0));
    chunk.write_chunk(OpCode::OP_CONSTANT(c0), 1);
    chunk.write_chunk(OpCode::OP_RETURN, 1);
    let mut vm = VM::new();
    assert_eq!(vm.run(&chunk), InterpretResult::INTERPRET_OK(number(2.0)));
}

#[test]
fn subtract_pops_right_operand_first() {
    let mut chunk = Chunk::new();
    let left = chunk.add_constant(number(1.0));
    chunk.write_chunk(OpCode::OP_CONSTANT(left), 1);
    let right = chunk.add_constant(number(0.25));
    chunk.write_chunk(OpCode::OP_CONSTANT(right), 1);
    chunk.write_chunk(OpCode::OP_SUBTRACT, 1);
    chunk.write_chunk(OpCode::OP_RETURN, 1);

    let mut vm = VM::new();
    assert_eq!(vm.interpret(&chunk), InterpretResult::INTERPRET_OK(number(0.75)));
}

#[test]
fn multiply_and_divide_compute_their_own_operations() {
    let mut chunk = Chunk::new();
    let c0 = chunk.add_constant(number(2.5));
    chunk.write_chunk(OpCode::OP_CONSTANT(c0), 1);
    let c1 = chunk.add_constant(number(4.0));
    chunk.write_chunk(OpCode::OP_CONSTANT(c1), 1);
    chunk.write_chunk(OpCode::OP_MULTIPLY, 1);
    chunk.write_chunk(OpCode::OP_RETURN, 1);
    let mut vm = VM::new();
    assert_eq!(vm.interpret(&chunk), InterpretResult::INTERPRET_OK(number(10.0)));

    let mut chunk = Chunk::new();
    let c0 = chunk.add_constant(number(7.0));
    chunk.write_chunk(OpCode::OP_CONSTANT(c0), 1);
    let c1 = chunk.add_constant(number(2.0));
    chunk.write_chunk(OpCode::OP_CONSTANT(c1), 1);
    chunk.write_chunk(OpCode::OP_DIVIDE, 1);
    chunk.write_chunk(OpCode::OP_RETURN, 1);
    let mut vm = VM::new();
    // Division genuinely divides: a multiply here would yield 14.0.
    assert_eq!(vm.interpret(&chunk), InterpretResult::INTERPRET_OK(number(3.5)));
}

#[test]
fn division_by_zero_follows_ieee_semantics() {
    let mut chunk = Chunk::new();
    let c0 = chunk.add_constant(number(1.0));
    chunk.write_chunk(OpCode::OP_CONSTANT(c0), 9);
    let c1 = chunk.add_constant(number(0.0));
    chunk.write_chunk(OpCode::OP_CONSTANT(c1), 9);
    chunk.write_chunk(OpCode::OP_DIVIDE, 9);
    chunk.write_chunk(OpCode::OP_RETURN, 9);
    let mut vm = VM::new();
    assert_eq!(
        vm.interpret(&chunk),
        InterpretResult::INTERPRET_OK(number(f64::INFINITY))
    );

    let mut chunk = Chunk::new();
    let c0 = chunk.add_constant(number(0.0));
    chunk.write_chunk(OpCode::OP_CONSTANT(c0), 9);
    chunk.write_chunk(OpCode::OP_CONSTANT(c0), 9);
    chunk.write_chunk(OpCode::OP_DIVIDE, 9);
    chunk.write_chunk(OpCode::OP_RETURN, 9);
    let mut vm = VM::new();
    match vm.interpret(&chunk) {
        InterpretResult::INTERPRET_OK(Value::Number(bits)) => {
            assert!(f64::from_bits(bits).is_nan());
        }
        other => panic!("expected a NaN result, got {:?}", other),
    }
}

#[test]
fn negate_flips_only_the_sign() {
    let mut chunk = Chunk::new();
    let c0 = chunk.add_constant(number(1.2));
    chunk.write_chunk(OpCode::OP_CONSTANT(c0), 3);
    chunk.write_chunk(OpCode::OP_NEGATE, 3);
    chunk.write_chunk(OpCode::OP_RETURN, 3);
    let mut vm = VM::new();
    assert_eq!(vm.interpret(&chunk), InterpretResult::INTERPRET_OK(number(-1.2)));
}

#[test]
fn binary_op_on_empty_stack_underflows_at_offset_zero() {
    let mut chunk = Chunk::new();
    chunk.write_chunk(OpCode::OP_ADD, 1);
    chunk.write_chunk(OpCode::OP_RETURN, 1);
    let mut vm = VM::new();
    assert_eq!(
        vm.interpret(&chunk),
        InterpretResult::INTERPRET_RUNTIME_ERROR(Fault {
            kind: FaultKind::StackUnderflow,
            offset: 0,
            line: 1,
        })
    );
}

#[test]
fn binary_op_with_one_operand_underflows() {
    let mut chunk = Chunk::new();
    let c0 = chunk.add_constant(number(1.0));
    chunk.write_chunk(OpCode::OP_CONSTANT(c0), 4);
    chunk.write_chunk(OpCode::OP_MULTIPLY, 5);
    let mut vm = VM::new();
    assert_eq!(
        vm.interpret(&chunk),
        InterpretResult::INTERPRET_RUNTIME_ERROR(Fault {
            kind: FaultKind::StackUnderflow,
            offset: 1,
            line: 5,
        })
    );
}

#[test]
fn negate_and_return_on_empty_stack_underflow() {
    let mut chunk = Chunk::new();
    chunk.write_chunk(OpCode::OP_NEGATE, 2);
    let mut vm = VM::new();
    assert_eq!(
        vm.interpret(&chunk),
        InterpretResult::INTERPRET_RUNTIME_ERROR(Fault {
            kind: FaultKind::StackUnderflow,
            offset: 0,
            line: 2,
        })
    );

    let mut chunk = Chunk::new();
    chunk.write_chunk(OpCode::OP_RETURN, 3);
    let mut vm = VM::new();
    assert_eq!(
        vm.interpret(&chunk),
        InterpretResult::INTERPRET_RUNTIME_ERROR(Fault {
            kind: FaultKind::StackUnderflow,
            offset: 0,
            line: 3,
        })
    );
}

#[test]
fn out_of_range_constant_is_a_reported_fault_not_a_wrong_value() {
    let mut chunk = Chunk::new();
    chunk.write_chunk(OpCode::OP_CONSTANT(0), 7);
    chunk.write_chunk(OpCode::OP_RETURN, 7);
    let mut vm = VM::new();
    assert_eq!(
        vm.interpret(&chunk),
        InterpretResult::INTERPRET_RUNTIME_ERROR(Fault {
            kind: FaultKind::ConstantOutOfRange,
            offset: 0,
            line: 7,
        })
    );
}

#[test]
fn running_off_the_end_reports_a_missing_return() {
    let mut chunk = Chunk::new();
    let c0 = chunk.add_constant(number(1.0));
    chunk.write_chunk(OpCode::OP_CONSTANT(c0), 11);
    let mut vm = VM::new();
    assert_eq!(
        vm.interpret(&chunk),
        InterpretResult::INTERPRET_RUNTIME_ERROR(Fault {
            kind: FaultKind::MissingReturn,
            offset: 1,
            line: 0,
        })
    );
}

#[test]
fn interpret_resets_the_stack_between_executions() {
    // The first program leaves operands behind by returning early.
    let mut chunk = Chunk::new();
    let c0 = chunk.add_constant(number(8.0));
    chunk.write_chunk(OpCode::OP_CONSTANT(c0), 1);
    chunk.write_chunk(OpCode::OP_CONSTANT(c0), 1);
    chunk.write_chunk(OpCode::OP_CONSTANT(c0), 1);
    chunk.write_chunk(OpCode::OP_RETURN, 1);
    let mut vm = VM::new();
    assert_eq!(vm.interpret(&chunk), InterpretResult::INTERPRET_OK(number(8.0)));

    // A second execution starts from an empty stack: a lone add underflows.
    let mut second = Chunk::new();
    second.write_chunk(OpCode::OP_ADD, 2);
    second.write_chunk(OpCode::OP_RETURN, 2);
    assert_eq!(
        vm.interpret(&second),
        InterpretResult::INTERPRET_RUNTIME_ERROR(Fault {
            kind: FaultKind::StackUnderflow,
            offset: 0,
            line: 2,
        })
    );
}

#[test]
fn tracing_renders_each_dispatched_instruction_without_changing_the_result() {
    let mut chunk = Chunk::new();
    let c0 = chunk.add_constant(number(1.2));
    chunk.write_chunk(OpCode::OP_CONSTANT(c0), 123);
    let c1 = chunk.add_constant(number(3.4));
    chunk.write_chunk(OpCode::OP_CONSTANT(c1), 123);
    chunk.write_chunk(OpCode::OP_ADD, 123);
    chunk.write_chunk(OpCode::OP_NEGATE, 123);
    chunk.write_chunk(OpCode::OP_RETURN, 123);

    let mut vm = VM::new();
    let expected = vm.interpret(&chunk);
    let mut traced_vm = VM::new();
    let (result, trace) = traced_vm.run_traced(&chunk);
    assert_eq!(result, expected);
    // Every instruction was dispatched, so the trace is the whole
    // disassembly, in order.
    assert_eq!(trace, loxvm::debug::disassemble_chunk(&chunk));

    // A program that faults at once dispatches only its first instruction.
    let mut bad = Chunk::new();
    bad.write_chunk(OpCode::OP_ADD, 1);
    bad.write_chunk(OpCode::OP_RETURN, 1);
    let mut vm = VM::new();
    let (result, trace) = vm.run_traced(&bad);
    assert_eq!(
        result,
        InterpretResult::INTERPRET_RUNTIME_ERROR(Fault {
            kind: FaultKind::StackUnderflow,
            offset: 0,
            line: 1,
        })
    );
    assert_eq!(trace.len(), 1);
    assert_eq!(trace[0], "0000 0001 OP_ADD");
}

#[test]
fn an_empty_chunk_reports_a_missing_return_at_offset_zero() {
    let chunk = Chunk::new();
    let mut vm = VM::new();
    assert_eq!(
        vm.interpret(&chunk),
        InterpretResult::INTERPRET_RUNTIME_ERROR(Fault {
            kind: FaultKind::MissingReturn,
            offset: 0,
            line: 0,
        })
    );
}
