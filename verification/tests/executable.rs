use oma::executable::{Chunk, Constant, ParseError};
use oma::instruction::Instruction;
use oma::listing::{listing, Line};

#[test]
fn constant() {
    let constant = Constant::Int(42);
    let bytes = constant.to_bytes();
    assert_eq!(
        constant,
        Constant::from_bytes(&bytes).expect("failed to parse constant")
    );
}

#[test]
fn chunk() {
    let mut chunk = Chunk::new();
    chunk.add_constant(Constant::Int(42));
    chunk.add_constant(Constant::Float(3.14159f64.to_bits()));
    chunk.add_constant(Constant::Bool(false));
    chunk.emit(Instruction::Add);
    chunk.emit(Instruction::Return);
    let bytes = chunk.to_bytes();
    assert_eq!(
        chunk,
        Chunk::from_bytes(&bytes).expect("failed to parse constant")
    );
}

#[test]
fn constants_have_their_documented_bytes() {
    assert_eq!(
        Constant::Int(-2).to_bytes(),
        vec![1, 0, 0, 0, 0, 0, 0, 0, 0xfe, 0xff, 0xff, 0xff, 0xff, 0xff, 0xff, 0xff]
    );
    assert_eq!(
        Constant::Float(1.0f64.to_bits()).to_bytes(),
        vec![2, 0, 0, 0, 0, 0, 0, 0, 0, 0, 0, 0, 0, 0, 0xf0, 0x3f]
    );
    assert_eq!(Constant::Bool(true).to_bytes(), vec![3, 0, 0, 0, 0, 0, 0, 0, 1]);
    assert_eq!(Constant::Bool(false).to_bytes(), vec![3, 0, 0, 0, 0, 0, 0, 0, 0]);
}

#[test]
fn chunk_has_its_documented_bytes() {
    let mut chunk = Chunk::new();
    chunk.add_constant(Constant::Bool(true));
    chunk.emit(Instruction::PushConstant);
    chunk.emit_bytes(0u64.to_le_bytes());
    chunk.emit(Instruction::Return);
    let mut expected = vec![1, 0, 0, 0, 0, 0, 0, 0];
    expected.extend([3, 0, 0, 0, 0, 0, 0, 0, 1]);
    expected.extend([10, 0, 0, 0, 0, 0, 0, 0]);
    expected.extend([0, 0, 0, 0, 0, 0, 0, 0, 0, 20]);
    assert_eq!(chunk.to_bytes(), expected);
}

#[test]
fn every_kind_of_constant_round_trips() {
    for constant in [
        Constant::Int(0),
        Constant::Int(i64::MIN),
        Constant::Int(i64::MAX),
        Constant::Float(0),
        Constant::Float(f64::NAN.to_bits()),
        Constant::Float((-0.5f64).to_bits()),
        Constant::Bool(true),
        Constant::Bool(false),
    ] {
        let mut bytes = constant.to_bytes();
        assert_eq!(Constant::from_bytes(&bytes), Ok(constant));
        bytes.push(0xaa);
        assert_eq!(Constant::from_bytes(&bytes), Ok(constant));
    }
}

#[test]
fn constant_errors() {
    assert_eq!(Constant::from_bytes(&[]), Err(ParseError::UnexpectedEof));
    assert_eq!(
        Constant::from_bytes(&[1, 0, 0, 0, 0, 0, 0]),
        Err(ParseError::UnexpectedEof)
    );
    assert_eq!(
        Constant::from_bytes(&[1, 0, 0, 0, 0, 0, 0, 0, 5]),
        Err(ParseError::UnexpectedEof)
    );
    assert_eq!(
        Constant::from_bytes(&[3, 0, 0, 0, 0, 0, 0, 0]),
        Err(ParseError::UnexpectedEof)
    );
    assert_eq!(
        Constant::from_bytes(&[3, 0, 0, 0, 0, 0, 0, 0, 2]),
        Err(ParseError::InvalidConstantValue(2))
    );
    assert_eq!(
        Constant::from_bytes(&[4, 0, 0, 0, 0, 0, 0, 0, 0]),
        Err(ParseError::InvalidConstantType(4))
    );
    assert_eq!(
        Constant::from_bytes(&[0, 0, 0, 0, 0, 0, 0, 0, 0]),
        Err(ParseError::InvalidConstantType(0))
    );
}

#[test]
fn chunk_errors() {
    assert_eq!(Chunk::from_bytes(&[]), Err(ParseError::UnexpectedEof));
    // One constant is announced and none follows.
    assert_eq!(
        Chunk::from_bytes(&[1, 0, 0, 0, 0, 0, 0, 0]),
        Err(ParseError::UnexpectedEof)
    );
    // No constants, and no length of the code.
    assert_eq!(
        Chunk::from_bytes(&[0, 0, 0, 0, 0, 0, 0, 0, 1, 0]),
        Err(ParseError::UnexpectedEof)
    );
    // Two bytes of code are announced and one follows.
    assert_eq!(
        Chunk::from_bytes(&[0, 0, 0, 0, 0, 0, 0, 0, 2, 0, 0, 0, 0, 0, 0, 0, 20]),
        Err(ParseError::UnexpectedEof)
    );
    let mut bad = vec![2, 0, 0, 0, 0, 0, 0, 0];
    bad.extend(Constant::Bool(true).to_bytes());
    bad.extend([9, 0, 0, 0, 0, 0, 0, 0, 1]);
    assert_eq!(Chunk::from_bytes(&bad), Err(ParseError::InvalidConstantType(9)));
}

#[test]
fn a_chunk_is_read_without_what_follows_it() {
    let mut chunk = Chunk::new();
    chunk.add_constant(Constant::Int(7));
    chunk.emit(Instruction::Return);
    let mut bytes = chunk.to_bytes();
    bytes.extend([1, 2, 3]);
    assert_eq!(Chunk::from_bytes(&bytes), Ok(chunk));
}

#[test]
fn locals_are_not_written() {
    let mut chunk = Chunk::new();
    chunk.add_local(5);
    chunk.emit(Instruction::Return);
    let read = Chunk::from_bytes(&chunk.to_bytes()).unwrap();
    assert_eq!(read.code(), chunk.code());
    assert_eq!(read.local(5), None);
    assert_ne!(read, chunk);
}

#[test]
fn emitting_returns_offsets_and_indices() {
    let mut chunk = Chunk::new();
    assert_eq!(chunk.add_constant(Constant::Int(1)), 0);
    assert_eq!(chunk.add_constant(Constant::Int(1)), 1);
    assert_eq!(chunk.constant(1), Some(Constant::Int(1)));
    assert_eq!(chunk.constant(2), None);
    assert_eq!(chunk.emit(Instruction::PushConstant), 0);
    assert_eq!(chunk.emit_bytes(1u64.to_le_bytes()), 1);
    assert_eq!(chunk.emit_byte(0xff), 9);
    assert_eq!(chunk.emit_operand(0x0102), 10);
    assert_eq!(
        chunk.code(),
        &[0, 1, 0, 0, 0, 0, 0, 0, 0, 0xff, 2, 1, 0, 0, 0, 0, 0, 0][..]
    );
}

#[test]
fn patching_overwrites_in_place() {
    let mut chunk = Chunk::new();
    chunk.emit(Instruction::Jump);
    let operand = chunk.emit_operand(0);
    chunk.emit(Instruction::Return);
    chunk.patch_operand(operand, 9);
    assert_eq!(chunk.code(), &[18, 9, 0, 0, 0, 0, 0, 0, 0, 20][..]);
    chunk.patch_bytes(operand, [7u8, 7]);
    assert_eq!(chunk.code(), &[18, 7, 7, 0, 0, 0, 0, 0, 0, 20][..]);
}

#[test]
fn the_latest_declaration_of_a_local_is_found() {
    let mut chunk = Chunk::new();
    assert_eq!(chunk.local(3), None);
    assert_eq!(chunk.add_local(3), 0);
    assert_eq!(chunk.add_local(4), 1);
    assert_eq!(chunk.add_local(3), 2);
    assert_eq!(chunk.local(3), Some(2));
    assert_eq!(chunk.local(4), Some(1));
    assert_eq!(chunk.local(5), None);
}

#[test]
fn opcodes_are_stable() {
    let all = [
        Instruction::PushConstant,
        Instruction::PushLocal,
        Instruction::PushUnit,
        Instruction::Pop,
        Instruction::Add,
        Instruction::Subtract,
        Instruction::Multiply,
        Instruction::Divide,
        Instruction::Negate,
        Instruction::Greater,
        Instruction::GreaterEqual,
        Instruction::Less,
        Instruction::LessEqual,
        Instruction::Equal,
        Instruction::NotEqual,
        Instruction::Not,
        Instruction::And,
        Instruction::Or,
        Instruction::Jump,
        Instruction::JumpIf,
        Instruction::Return,
    ];
    for (byte, instruction) in all.iter().enumerate() {
        assert_eq!(instruction.to_u8(), byte as u8);
        assert_eq!(Instruction::from_u8(byte as u8), Some(*instruction));
    }
    assert_eq!(Instruction::from_u8(21), None);
    assert_eq!(Instruction::from_u8(255), None);
    assert_eq!(Instruction::JumpIf.name(), "JumpIf");
}

#[test]
fn a_listing_has_a_line_for_each_instruction() {
    let mut chunk = Chunk::new();
    chunk.emit(Instruction::PushConstant);
    chunk.emit_operand(258);
    chunk.emit(Instruction::Add);
    chunk.emit_byte(200);
    chunk.emit(Instruction::JumpIf);
    chunk.emit_operand(7);
    chunk.emit(Instruction::Jump);
    chunk.emit_byte(1);
    let line = |offset, byte, instruction, operand| Line { offset, byte, instruction, operand };
    assert_eq!(
        listing(&chunk),
        vec![
            line(0, 0, Some(Instruction::PushConstant), Some(258)),
            line(9, 4, Some(Instruction::Add), None),
            line(10, 200, None, None),
            line(11, 19, Some(Instruction::JumpIf), Some(7)),
            line(20, 18, Some(Instruction::Jump), None),
            line(21, 1, Some(Instruction::PushLocal), None),
        ]
    );
    assert_eq!(listing(&Chunk::new()), vec![]);
}
