use clox::chunk::{Chunk, OpCode};
use clox::stack::StackFault;
use clox::vm::{status, InterpretResult, Outcome, Request, VmFault, VM};

fn apply(req: Request<f64>) -> f64 {
    match req {
        Request::Negate(a) => -a,
        Request::Add(a, b) => a + b,
        Request::Subtract(a, b) => a - b,
        Request::Multiply(a, b) => a * b,
        Request::Divide(a, b) => a / b,
    }
}

fn finish(vm: &mut VM<f64>) -> Outcome<f64> {
    let mut o = vm.interpret("");
    loop {
        match o {
            Outcome::Compute(req) => o = vm.resume(apply(req)),
            other => return other,
        }
    }
}

fn chunk_of(code: &[OpCode], constants: &[f64]) -> Chunk<f64> {
    let mut chunk = Chunk::new();
    for &c in constants {
        chunk.add_constant(c).unwrap();
    }
    for &op in code {
        chunk.add_chunk(op, 1).unwrap();
    }
    chunk
}

#[test]
fn constant_then_return_yields_the_constant() {
    let chunk = chunk_of(&[OpCode::OpConstant, OpCode::Reg(0), OpCode::OpReturn], &[3.0]);
    let mut vm = VM::new(chunk);
    let o = finish(&mut vm);
    assert_eq!(o, Outcome::Returned(3.0));
    assert_eq!(status(&o), Some(InterpretResult::InterpretOk));
}

#[test]
fn add_of_two_constants() {
    let chunk = chunk_of(
        &[
            OpCode::OpConstant,
            OpCode::Reg(0),
            OpCode::OpConstant,
            OpCode::Reg(1),
            OpCode::OpAdd,
            OpCode::OpReturn,
        ],
        &[2.0, 3.0],
    );
    let mut vm = VM::new(chunk);
    assert_eq!(vm.interpret(""), Outcome::Compute(Request::Add(3.0, 2.0)));
    assert_eq!(vm.stack(), &[] as &[f64]);
    assert_eq!(vm.resume(5.0), Outcome::Returned(5.0));
}

#[test]
fn negate_of_a_constant() {
    let chunk = chunk_of(&[OpCode::OpConstant, OpCode::Reg(0), OpCode::OpNegate, OpCode::OpReturn], &[5.0]);
    let mut vm = VM::new(chunk);
    assert_eq!(finish(&mut vm), Outcome::Returned(-5.0));
}

#[test]
fn binary_operators_take_the_top_of_stack_as_left_operand() {
    let chunk = chunk_of(
        &[
            OpCode::OpConstant,
            OpCode::Reg(0),
            OpCode::OpConstant,
            OpCode::Reg(1),
            OpCode::OpSubtract,
            OpCode::OpConstant,
            OpCode::Reg(2),
            OpCode::OpDivide,
            OpCode::OpConstant,
            OpCode::Reg(2),
            OpCode::OpMultiply,
            OpCode::OpReturn,
        ],
        &[2.0, 10.0, 4.0],
    );
    let mut vm = VM::new(chunk);
    // (10 - 2) = 8; 4 / 8 = 0.5; 4 * 0.5 = 2
    assert_eq!(finish(&mut vm), Outcome::Returned(2.0));
}

#[test]
fn division_by_zero_is_a_value() {
    let chunk = chunk_of(
        &[OpCode::OpConstant, OpCode::Reg(0), OpCode::OpConstant, OpCode::Reg(1), OpCode::OpDivide, OpCode::OpReturn],
        &[0.0, 1.0],
    );
    let mut vm = VM::new(chunk);
    assert_eq!(finish(&mut vm), Outcome::Returned(f64::INFINITY));
}

#[test]
fn constant_without_operand_is_a_decoding_fault() {
    let chunk = chunk_of(&[OpCode::OpConstant, OpCode::OpReturn], &[1.0]);
    let mut vm = VM::new(chunk);
    let o = finish(&mut vm);
    assert_eq!(o, Outcome::Fault(VmFault::OperandExpected));
    assert_eq!(status(&o), Some(InterpretResult::InterpretRuntimeError));
}

#[test]
fn constant_at_end_of_chunk_is_a_decoding_fault() {
    let chunk = chunk_of(&[OpCode::OpConstant], &[1.0]);
    let mut vm = VM::new(chunk);
    assert_eq!(finish(&mut vm), Outcome::Fault(VmFault::OperandExpected));
}

#[test]
fn unknown_constant_is_a_fault() {
    let chunk = chunk_of(&[OpCode::OpConstant, OpCode::Reg(1), OpCode::OpReturn], &[1.0]);
    let mut vm = VM::new(chunk);
    assert_eq!(finish(&mut vm), Outcome::Fault(VmFault::UnknownConstant));
}

#[test]
fn chunk_without_return_faults() {
    let chunk = chunk_of(&[OpCode::OpConstant, OpCode::Reg(0)], &[1.0]);
    let mut vm = VM::new(chunk);
    assert_eq!(finish(&mut vm), Outcome::Fault(VmFault::NoReturn));
    let mut empty = VM::new(Chunk::<f64>::new());
    assert_eq!(finish(&mut empty), Outcome::Fault(VmFault::NoReturn));
}

#[test]
fn return_on_empty_stack_underflows() {
    let chunk = chunk_of(&[OpCode::OpReturn], &[]);
    let mut vm = VM::new(chunk);
    assert_eq!(finish(&mut vm), Outcome::Fault(VmFault::Stack(StackFault::Underflow)));
}

#[test]
fn add_with_one_operand_underflows() {
    let chunk = chunk_of(&[OpCode::OpConstant, OpCode::Reg(0), OpCode::OpAdd, OpCode::OpReturn], &[1.0]);
    let mut vm = VM::new(chunk);
    assert_eq!(finish(&mut vm), Outcome::Fault(VmFault::Stack(StackFault::Underflow)));
}

#[test]
fn stray_operand_is_skipped() {
    let chunk = chunk_of(&[OpCode::Reg(9), OpCode::OpConstant, OpCode::Reg(0), OpCode::OpReturn], &[4.0]);
    let mut vm = VM::new(chunk);
    assert_eq!(finish(&mut vm), Outcome::Returned(4.0));
}

#[test]
fn pushing_past_the_machine_stack_overflows() {
    let mut code = Vec::new();
    for _ in 0..257 {
        code.push(OpCode::OpConstant);
        code.push(OpCode::Reg(0));
    }
    code.push(OpCode::OpReturn);
    let chunk = chunk_of(&code, &[1.0]);
    let mut vm = VM::new(chunk);
    assert_eq!(finish(&mut vm), Outcome::Fault(VmFault::Stack(StackFault::Overflow)));
    assert_eq!(vm.stack().len(), 256);
}

#[test]
fn stepping_moves_the_instruction_pointer() {
    let chunk = chunk_of(&[OpCode::OpConstant, OpCode::Reg(0), OpCode::OpReturn], &[8.0]);
    let mut vm = VM::new(chunk);
    assert_eq!(vm.ip(), 0);
    assert_eq!(vm.step(), None);
    assert_eq!(vm.ip(), 2);
    assert_eq!(vm.stack(), &[8.0]);
    assert_eq!(vm.step(), Some(Outcome::Returned(8.0)));
    assert_eq!(vm.ip(), 3);
}

#[test]
fn machine_keeps_its_chunk_and_trace_flag() {
    let mut chunk: Chunk<f64> = Chunk::new();
    chunk.add_constant(2.0).unwrap();
    chunk.add_chunk(OpCode::OpConstant, 3).unwrap();
    chunk.add_chunk(OpCode::Reg(0), 3).unwrap();
    chunk.add_chunk(OpCode::OpReturn, 5).unwrap();
    let mut vm = VM::with_trace(chunk, true);
    assert!(vm.trace());
    assert_eq!(finish(&mut vm), Outcome::Returned(2.0));
    assert!(vm.trace());
    assert_eq!(vm.chunk().code.len(), 3);
    assert_eq!(vm.chunk().lines.get_line(0), 3);
    assert_eq!(vm.chunk().lines.get_line(1), 3);
    assert_eq!(vm.chunk().lines.get_line(2), 5);
    assert!(!VM::new(Chunk::<f64>::new()).trace());
}
