use oma::compile::{Compiler, Environment, FloatLiteral};
use oma::executable::{Chunk, Constant};
use oma::gen::{GenerateError, Generator};
use oma::instruction::Instruction;
use oma::machine::{Deferred, Error, Machine, Step};
use oma::parse::Parser;
use oma::value::Value;

fn number(value: Value) -> f64 {
    match value {
        Value::Int(int) => int as f64,
        Value::Float(bits) => f64::from_bits(bits),
        _ => unreachable!(),
    }
}

/// The arithmetic of doubles, which the machine leaves to its caller.
fn compute(deferred: Deferred) -> Value {
    let right = number(deferred.right);
    let float = |value: f64| Value::Float(value.to_bits());
    match deferred.left {
        None => float(-right),
        Some(left) => {
            let left = number(left);
            match deferred.instruction {
                Instruction::Add => float(left + right),
                Instruction::Subtract => float(left - right),
                Instruction::Multiply => float(left * right),
                Instruction::Divide => float(left / right),
                Instruction::Greater => Value::Bool(left > right),
                Instruction::GreaterEqual => Value::Bool(left >= right),
                Instruction::Less => Value::Bool(left < right),
                Instruction::LessEqual => Value::Bool(left <= right),
                Instruction::Equal => Value::Bool(left == right),
                Instruction::NotEqual => Value::Bool(left != right),
                _ => unreachable!(),
            }
        }
    }
}

/// Runs a chunk to its end, for at most `limit` instructions at a time.
fn run(chunk: &Chunk) -> Result<Value, Error> {
    let mut machine = Machine::new();
    let mut step = machine.execute(chunk, 10_000)?;
    loop {
        match step {
            Step::Return(value) => return Ok(value),
            Step::Defer(deferred) => {
                machine.resume(compute(deferred));
                step = machine.proceed(chunk, 10_000)?;
            }
            Step::Continue => panic!("the chunk does not come to an end"),
        }
    }
}

fn push(chunk: &mut Chunk, constant: Constant) {
    let index = chunk.add_constant(constant);
    chunk.emit(Instruction::PushConstant);
    chunk.emit_bytes((index as u64).to_le_bytes());
}

fn binary(left: Constant, right: Constant, instruction: Instruction) -> Result<Value, Error> {
    let mut chunk = Chunk::new();
    push(&mut chunk, left);
    push(&mut chunk, right);
    chunk.emit(instruction);
    chunk.emit(Instruction::Return);
    run(&chunk)
}

fn unary(operand: Constant, instruction: Instruction) -> Result<Value, Error> {
    let mut chunk = Chunk::new();
    push(&mut chunk, operand);
    chunk.emit(instruction);
    chunk.emit(Instruction::Return);
    run(&chunk)
}

fn float(value: f64) -> Constant {
    Constant::Float(value.to_bits())
}

fn generate(text: &str) -> Result<Chunk, GenerateError> {
    let block = Parser::new(text).block().expect("the block parses");
    let mut environment = Environment::new();
    for spelling in ["1.5", "2.0", "0.5"] {
        environment.floats.push(FloatLiteral {
            text: spelling.as_bytes().to_vec(),
            bits: spelling.parse::<f64>().unwrap().to_bits(),
        });
    }
    let block = Compiler::new().block(&environment, &block).expect("the block resolves");
    Generator::new().generate(&block)
}

fn evaluate(text: &str) -> Result<Value, Error> {
    run(&generate(text).expect("the block has code"))
}

#[test]
fn machine_addition() {
    let mut chunk = Chunk::new();

    let constant = chunk.add_constant(Constant::Int(1));
    chunk.emit(Instruction::PushConstant);
    chunk.emit_bytes(constant.to_le_bytes());

    let constant = chunk.add_constant(Constant::Int(2));
    chunk.emit(Instruction::PushConstant);
    chunk.emit_bytes(constant.to_le_bytes());

    chunk.emit(Instruction::Add);

    let constant = chunk.add_constant(Constant::Float(3.0f64.to_bits()));
    chunk.emit(Instruction::PushConstant);
    chunk.emit_bytes(constant.to_le_bytes());

    chunk.emit(Instruction::Add);

    chunk.emit(Instruction::Return);

    assert_eq!(run(&chunk).unwrap(), Value::Float(6.0f64.to_bits()));
}

#[test]
fn gen_addition() {
    let block = Parser::new("{ 1 + 2 + 3; }").block().unwrap();
    let block = Compiler::new().block(&Environment::new(), &block).unwrap();
    let generator = Generator::new();

    let mut chunk = Chunk::new();

    let constant = chunk.add_constant(Constant::Int(1));
    chunk.emit(Instruction::PushConstant);
    chunk.emit_bytes(constant.to_le_bytes());

    let constant = chunk.add_constant(Constant::Int(2));
    chunk.emit(Instruction::PushConstant);
    chunk.emit_bytes(constant.to_le_bytes());

    chunk.emit(Instruction::Add);

    let constant = chunk.add_constant(Constant::Int(3));
    chunk.emit(Instruction::PushConstant);
    chunk.emit_bytes(constant.to_le_bytes());

    chunk.emit(Instruction::Add);

    chunk.emit(Instruction::Pop);

    chunk.emit(Instruction::PushUnit);

    chunk.emit(Instruction::Return);

    assert_eq!(generator.generate(&block), Ok(chunk));
}

#[test]
fn an_int_and_a_float_are_added_as_floats() {
    assert_eq!(
        binary(Constant::Int(1), float(2.0), Instruction::Add),
        Ok(Value::Float(3.0f64.to_bits()))
    );
    assert_eq!(
        binary(float(2.0), Constant::Int(1), Instruction::Subtract),
        Ok(Value::Float(1.0f64.to_bits()))
    );
    assert_eq!(
        binary(float(1.5), float(2.0), Instruction::Multiply),
        Ok(Value::Float(3.0f64.to_bits()))
    );
    assert_eq!(
        binary(Constant::Int(1), float(2.0), Instruction::Divide),
        Ok(Value::Float(0.5f64.to_bits()))
    );
}

#[test]
fn a_bool_cannot_be_added() {
    assert_eq!(
        binary(Constant::Bool(true), Constant::Int(1), Instruction::Add),
        Err(Error::InvalidType)
    );
    assert_eq!(
        binary(Constant::Bool(true), float(1.0), Instruction::Add),
        Err(Error::InvalidType)
    );
    assert_eq!(
        binary(Constant::Bool(true), Constant::Bool(true), Instruction::Add),
        Err(Error::InvalidType)
    );
}

#[test]
fn the_machine_defers_exactly_the_operands() {
    let mut chunk = Chunk::new();
    push(&mut chunk, Constant::Int(7));
    push(&mut chunk, Constant::Int(1));
    push(&mut chunk, float(2.0));
    chunk.emit(Instruction::Less);
    chunk.emit(Instruction::Return);
    let mut machine = Machine::new();
    assert_eq!(
        machine.execute(&chunk, 100),
        Ok(Step::Defer(Deferred {
            instruction: Instruction::Less,
            left: Some(Value::Int(1)),
            right: Value::Float(2.0f64.to_bits()),
        }))
    );
    assert_eq!(machine.stack(), &[Value::Int(7)][..]);
    assert_eq!(machine.current(), 28);
    machine.resume(Value::Bool(true));
    assert_eq!(machine.proceed(&chunk, 100), Ok(Step::Return(Value::Bool(true))));
    assert_eq!(machine.stack(), &[Value::Int(7)][..]);
}

#[test]
fn int_arithmetic() {
    let int = |left: i64, right: i64, instruction| {
        binary(Constant::Int(left), Constant::Int(right), instruction)
    };
    assert_eq!(int(7, 5, Instruction::Add), Ok(Value::Int(12)));
    assert_eq!(int(7, 5, Instruction::Subtract), Ok(Value::Int(2)));
    assert_eq!(int(7, 5, Instruction::Multiply), Ok(Value::Int(35)));
    assert_eq!(int(7, 5, Instruction::Divide), Ok(Value::Int(1)));
    assert_eq!(int(-7, 2, Instruction::Divide), Ok(Value::Int(-3)));
    assert_eq!(int(7, -2, Instruction::Divide), Ok(Value::Int(-3)));
    assert_eq!(int(7, 0, Instruction::Divide), Err(Error::DivisionByZero));
    assert_eq!(int(i64::MAX, 1, Instruction::Add), Ok(Value::Int(i64::MIN)));
    assert_eq!(int(i64::MIN, 1, Instruction::Subtract), Ok(Value::Int(i64::MAX)));
    assert_eq!(int(i64::MAX, 2, Instruction::Multiply), Ok(Value::Int(-2)));
    assert_eq!(int(i64::MIN, -1, Instruction::Divide), Ok(Value::Int(i64::MIN)));
    assert_eq!(unary(Constant::Int(5), Instruction::Negate), Ok(Value::Int(-5)));
    assert_eq!(unary(Constant::Int(i64::MIN), Instruction::Negate), Ok(Value::Int(i64::MIN)));
    assert_eq!(
        unary(float(1.5), Instruction::Negate),
        Ok(Value::Float((-1.5f64).to_bits()))
    );
    assert_eq!(unary(Constant::Bool(true), Instruction::Negate), Err(Error::InvalidType));
}

#[test]
fn comparisons_and_equality() {
    let int = |left: i64, right: i64, instruction| {
        binary(Constant::Int(left), Constant::Int(right), instruction)
    };
    assert_eq!(int(1, 2, Instruction::Greater), Ok(Value::Bool(false)));
    assert_eq!(int(2, 2, Instruction::GreaterEqual), Ok(Value::Bool(true)));
    assert_eq!(int(1, 2, Instruction::Less), Ok(Value::Bool(true)));
    assert_eq!(int(3, 2, Instruction::LessEqual), Ok(Value::Bool(false)));
    assert_eq!(int(2, 2, Instruction::Equal), Ok(Value::Bool(true)));
    assert_eq!(int(2, 2, Instruction::NotEqual), Ok(Value::Bool(false)));
    assert_eq!(
        binary(Constant::Int(2), float(2.0), Instruction::Equal),
        Ok(Value::Bool(true))
    );
    assert_eq!(
        binary(float(2.5), Constant::Int(2), Instruction::Greater),
        Ok(Value::Bool(true))
    );
    assert_eq!(
        binary(Constant::Bool(true), Constant::Bool(false), Instruction::Equal),
        Ok(Value::Bool(false))
    );
    assert_eq!(
        binary(Constant::Bool(true), Constant::Bool(false), Instruction::NotEqual),
        Ok(Value::Bool(true))
    );
    assert_eq!(
        binary(Constant::Bool(true), Constant::Bool(false), Instruction::Less),
        Err(Error::InvalidType)
    );
    assert_eq!(
        binary(Constant::Bool(true), Constant::Int(1), Instruction::Equal),
        Err(Error::InvalidType)
    );
}

#[test]
fn logic_takes_bools() {
    let logic = |left: bool, right: bool, instruction| {
        binary(Constant::Bool(left), Constant::Bool(right), instruction)
    };
    assert_eq!(logic(true, false, Instruction::And), Ok(Value::Bool(false)));
    assert_eq!(logic(true, true, Instruction::And), Ok(Value::Bool(true)));
    assert_eq!(logic(true, false, Instruction::Or), Ok(Value::Bool(true)));
    assert_eq!(logic(false, false, Instruction::Or), Ok(Value::Bool(false)));
    assert_eq!(unary(Constant::Bool(false), Instruction::Not), Ok(Value::Bool(true)));
    assert_eq!(unary(Constant::Int(0), Instruction::Not), Err(Error::InvalidType));
    assert_eq!(
        binary(Constant::Int(1), Constant::Int(1), Instruction::And),
        Err(Error::InvalidType)
    );
    assert_eq!(
        binary(float(1.0), Constant::Int(1), Instruction::Or),
        Err(Error::InvalidType)
    );
}

#[test]
fn every_error_of_the_machine() {
    let run_code = |code: &[u8]| {
        let mut chunk = Chunk::new();
        chunk.add_constant(Constant::Int(1));
        for byte in code {
            chunk.emit_byte(*byte);
        }
        run(&chunk)
    };
    assert_eq!(run_code(&[]), Err(Error::SegmentationFault(0)));
    assert_eq!(run_code(&[2]), Err(Error::SegmentationFault(1)));
    assert_eq!(run_code(&[0, 0, 0]), Err(Error::SegmentationFault(3)));
    assert_eq!(run_code(&[18, 50, 0, 0, 0, 0, 0, 0, 0]), Err(Error::SegmentationFault(50)));
    assert_eq!(run_code(&[21]), Err(Error::InvalidInstruction(21)));
    assert_eq!(run_code(&[0, 1, 0, 0, 0, 0, 0, 0, 0]), Err(Error::InvalidConstant(1)));
    assert_eq!(run_code(&[1, 0, 0, 0, 0, 0, 0, 0, 0]), Err(Error::InvalidLocal(0)));
    assert_eq!(run_code(&[2, 4]), Err(Error::EmptyStack));
    assert_eq!(run_code(&[3]), Err(Error::EmptyStack));
    assert_eq!(run_code(&[20]), Err(Error::EmptyStack));
    assert_eq!(run_code(&[2, 8]), Err(Error::InvalidType));
    assert_eq!(run_code(&[2, 19, 0, 0, 0, 0, 0, 0, 0, 0]), Err(Error::InvalidType));
    assert_eq!(run_code(&[19, 0, 0, 0, 0, 0, 0, 0, 0]), Err(Error::EmptyStack));
}

#[test]
fn an_error_leaves_the_machine_as_it_was() {
    let mut chunk = Chunk::new();
    chunk.emit(Instruction::PushUnit);
    chunk.emit(Instruction::PushUnit);
    chunk.emit(Instruction::Add);
    let mut machine = Machine::new();
    assert_eq!(machine.step(&chunk), Ok(Step::Continue));
    assert_eq!(machine.step(&chunk), Ok(Step::Continue));
    assert_eq!(machine.step(&chunk), Err(Error::InvalidType));
    assert_eq!(machine.current(), 2);
    assert_eq!(machine.stack(), &[Value::Unit, Value::Unit][..]);
}

#[test]
fn locals_are_slots_of_the_stack() {
    let mut chunk = Chunk::new();
    push(&mut chunk, Constant::Int(4));
    push(&mut chunk, Constant::Int(9));
    chunk.emit(Instruction::PushLocal);
    chunk.emit_bytes(0u64.to_le_bytes());
    chunk.emit(Instruction::Return);
    assert_eq!(run(&chunk), Ok(Value::Int(4)));
}

#[test]
fn the_limit_stops_a_loop_that_does_not_end() {
    let chunk = generate("{ while true { 1 } }").unwrap();
    let mut machine = Machine::new();
    assert_eq!(machine.execute(&chunk, 1000), Ok(Step::Continue));
    assert_eq!(machine.proceed(&chunk, 1000), Ok(Step::Continue));
    assert_eq!(machine.execute(&chunk, 0), Ok(Step::Continue));
    assert_eq!(machine.current(), 0);
}

#[test]
fn a_machine_runs_one_chunk_after_another() {
    let first = generate("{ 1 }").unwrap();
    let second = generate("{ 2; 3 }").unwrap();
    let mut machine = Machine::new();
    assert_eq!(machine.execute(&first, 100), Ok(Step::Return(Value::Int(1))));
    assert_eq!(machine.execute(&second, 100), Ok(Step::Return(Value::Int(3))));
    assert_eq!(machine.execute(&first, 100), Ok(Step::Return(Value::Int(1))));
}

#[test]
fn the_value_of_a_block() {
    assert_eq!(evaluate("{ 1; 2 }"), Ok(Value::Int(2)));
    assert_eq!(evaluate("{ 1; 2; }"), Ok(Value::Unit));
    assert_eq!(evaluate("{ }"), Ok(Value::Unit));
    assert_eq!(evaluate("{ let a = 1; }"), Ok(Value::Unit));
}

#[test]
fn if_takes_one_branch() {
    assert_eq!(evaluate("{ if true { 1 } else { 2 } }"), Ok(Value::Int(1)));
    assert_eq!(evaluate("{ if false { 1 } else { 2 } }"), Ok(Value::Int(2)));
    assert_eq!(
        evaluate("{ if false { 1 } else if false { 2 } else { 3 } }"),
        Ok(Value::Int(3))
    );
    assert_eq!(
        evaluate("{ if false { 1 } else if true { 2 } else { 3 } }"),
        Ok(Value::Int(2))
    );
    assert_eq!(evaluate("{ if 1 < 2 { 10 } else { 20 } }"), Ok(Value::Int(10)));
    assert_eq!(evaluate("{ if 1 { 10 } else { 20 } }"), Err(Error::InvalidType));
}

#[test]
fn an_if_without_else_leaves_nothing_when_it_is_not_taken() {
    assert_eq!(evaluate("{ if true { 1 } }"), Ok(Value::Int(1)));
    assert_eq!(evaluate("{ if false { 1 } }"), Err(Error::EmptyStack));
    assert_eq!(evaluate("{ 5; if false { 1 } }"), Err(Error::EmptyStack));
}

#[test]
fn locals_are_found_by_their_names() {
    assert_eq!(evaluate("{ let a = 1; let b = 2; a + b }"), Ok(Value::Int(3)));
    assert_eq!(evaluate("{ let a = 1; let b = a + a; b * b }"), Ok(Value::Int(4)));
}

#[test]
fn a_later_let_of_a_name_hides_the_earlier() {
    assert_eq!(evaluate("{ let a = 1; let a = 2; let b = 3; a * 10 + b }"), Ok(Value::Int(23)));
}

#[test]
fn a_local_cannot_be_used_before_its_let() {
    let block = Parser::new("{ a; let a = 1; }").block().unwrap();
    let mut compiler = Compiler::new();
    let name = compiler.add_identifier(b"a".to_vec());
    let block = compiler.block(&Environment::new(), &block).unwrap();
    assert_eq!(
        Generator::new().generate(&block),
        Err(GenerateError::UndefinedLocal(name))
    );
    assert_eq!(
        generate("{ let a = b; let b = 1; }"),
        Err(GenerateError::UndefinedLocal(1))
    );
}

#[test]
fn while_is_skipped_when_its_condition_is_false() {
    assert_eq!(evaluate("{ while false { 1 }; 7 }"), Ok(Value::Int(7)));
    assert_eq!(evaluate("{ while 1 > 2 { 1; } }"), Ok(Value::Unit));
    assert_eq!(evaluate("{ while 1 { } }"), Err(Error::InvalidType));
}

#[test]
fn while_jumps_back_to_its_condition() {
    let chunk = generate("{ 5; while false { 1 } }").unwrap();
    let mut code = vec![0, 0, 0, 0, 0, 0, 0, 0, 0, 3];
    code.extend([0, 1, 0, 0, 0, 0, 0, 0, 0]);
    code.extend([15]);
    code.extend([19, 48, 0, 0, 0, 0, 0, 0, 0]);
    code.extend([0, 2, 0, 0, 0, 0, 0, 0, 0]);
    code.extend([3]);
    code.extend([18, 10, 0, 0, 0, 0, 0, 0, 0]);
    code.extend([2, 20]);
    assert_eq!(chunk.code(), &code[..]);
    assert_eq!(code.len(), 50);
}

#[test]
fn if_is_laid_out_with_its_else_first() {
    let chunk = generate("{ if true { 1 } else { 2 } }").unwrap();
    let mut code = vec![0, 0, 0, 0, 0, 0, 0, 0, 0];
    code.extend([19, 36, 0, 0, 0, 0, 0, 0, 0]);
    code.extend([0, 1, 0, 0, 0, 0, 0, 0, 0]);
    code.extend([18, 45, 0, 0, 0, 0, 0, 0, 0]);
    code.extend([0, 2, 0, 0, 0, 0, 0, 0, 0]);
    code.extend([20]);
    assert_eq!(chunk.code(), &code[..]);
    assert_eq!(chunk.constant(0), Some(Constant::Bool(true)));
    assert_eq!(chunk.constant(1), Some(Constant::Int(2)));
    assert_eq!(chunk.constant(2), Some(Constant::Int(1)));
}

#[test]
fn constants_are_not_shared() {
    let chunk = generate("{ 1 + 1 }").unwrap();
    assert_eq!(chunk.constant(0), Some(Constant::Int(1)));
    assert_eq!(chunk.constant(1), Some(Constant::Int(1)));
    assert_eq!(chunk.constant(2), None);
}

#[test]
fn both_operands_of_a_logical_operator_are_evaluated() {
    // The right operand fails although the left decides the result.
    assert_eq!(evaluate("{ false && 1 / 0 == 1 }"), Err(Error::DivisionByZero));
    assert_eq!(evaluate("{ true || 1 / 0 == 1 }"), Err(Error::DivisionByZero));
    assert_eq!(evaluate("{ true || false }"), Ok(Value::Bool(true)));
}

#[test]
fn operators_in_source() {
    assert_eq!(evaluate("{ 1 + 2 * 3 - 4 / 5 }"), Ok(Value::Int(7)));
    assert_eq!(evaluate("{ -(1 + 2) }"), Ok(Value::Int(-3)));
    assert_eq!(evaluate("{ !(1 == 2) }"), Ok(Value::Bool(true)));
    assert_eq!(evaluate("{ 1 != 2 }"), Ok(Value::Bool(true)));
    assert_eq!(evaluate("{ 1.5 + 0.5 }"), Ok(Value::Float(2.0f64.to_bits())));
    assert_eq!(evaluate("{ 1 + 0.5 }"), Ok(Value::Float(1.5f64.to_bits())));
    assert_eq!(evaluate("{ 2.0 >= 2 }"), Ok(Value::Bool(true)));
}

#[test]
fn a_value_is_made_from_a_constant() {
    assert_eq!(Value::from(Constant::Int(3)), Value::Int(3));
    assert_eq!(Value::from(Constant::Float(9)), Value::Float(9));
    assert_eq!(Value::from(Constant::Bool(true)), Value::Bool(true));
}

fn meaning_of(text: &str, limit: u64) -> Result<Result<Step, Error>, GenerateError> {
    let block = Parser::new(text).block().expect("the block parses");
    let block = Compiler::new().block(&Environment::new(), &block).expect("the block resolves");
    oma::meaning::evaluate(&block, limit)
}

#[test]
fn a_body_of_bindings_and_expressions_has_its_value() {
    let value = |value| Ok(Ok(Step::Return(value)));
    assert_eq!(meaning_of("{ let a = 1; let b = 2; a + b }", 100), value(Value::Int(3)));
    assert_eq!(meaning_of("{ 1; 2 }", 100), value(Value::Int(2)));
    assert_eq!(meaning_of("{ 1; 2; }", 100), value(Value::Unit));
    assert_eq!(meaning_of("{ }", 100), value(Value::Unit));
    assert_eq!(
        meaning_of("{ let a = 4; let b = if a > 3 { a * 2 } else { 0 - a }; b - 1 }", 100),
        value(Value::Int(7))
    );
    assert_eq!(
        meaning_of("{ let a = 2; let b = if a > 3 { a * 2 } else { 0 - a }; b - 1 }", 100),
        value(Value::Int(-3))
    );
    assert_eq!(
        meaning_of("{ let t = true; if !t { 1 } else if t && 1 < 2 { 2 } else { 3 } }", 100),
        value(Value::Int(2))
    );
}

#[test]
fn a_body_fails_as_its_first_failing_statement_does() {
    assert_eq!(meaning_of("{ let a = 1 / 0; a }", 100), Ok(Err(Error::DivisionByZero)));
    assert_eq!(meaning_of("{ 1 + true; 2 / 0 }", 100), Ok(Err(Error::InvalidType)));
    assert_eq!(meaning_of("{ if 1 { 2 } else { 3 } }", 100), Ok(Err(Error::InvalidType)));
    assert_eq!(meaning_of("{ let a = 1; b }", 100), Err(GenerateError::UndefinedLocal(1)));
}

#[test]
fn a_body_takes_as_many_instructions_as_it_has_to_run() {
    // Two pushes, the addition and the return.
    assert_eq!(meaning_of("{ 1 + 2 }", 4), Ok(Ok(Step::Return(Value::Int(3)))));
    assert_eq!(meaning_of("{ 1 + 2 }", 3), Ok(Ok(Step::Continue)));
    // The condition, the jump, one branch, and the return; the branch
    // after `else` has a jump of its own.
    assert_eq!(meaning_of("{ if true { 1 } else { 2 } }", 4), Ok(Ok(Step::Return(Value::Int(1)))));
    assert_eq!(meaning_of("{ if false { 1 } else { 2 } }", 4), Ok(Ok(Step::Continue)));
    assert_eq!(meaning_of("{ if false { 1 } else { 2 } }", 5), Ok(Ok(Step::Return(Value::Int(2)))));
}
