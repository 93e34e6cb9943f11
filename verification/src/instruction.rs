//! The opcode set and its one-byte encoding.

use vstd::prelude::*;

verus! {

/// One operation of the stack machine. `PushConstant`, `PushLocal`, `Jump`
/// and `JumpIf` are followed by an eight-byte little-endian operand; the
/// others stand alone.
#[derive(Clone, Copy, Debug, PartialEq, Eq, Structural)]
pub enum Instruction {
    PushConstant,
    PushLocal,
    PushUnit,
    Pop,
    Add,
    Subtract,
    Multiply,
    Divide,
    Negate,
    Greater,
    GreaterEqual,
    Less,
    LessEqual,
    Equal,
    NotEqual,
    Not,
    And,
    Or,
    Jump,
    JumpIf,
    Return,
}

/// Number of bytes in an operand.
pub const OPERAND_LEN: usize = 8;

impl Instruction {
    /// The byte that encodes this instruction.
    pub open spec fn opcode(self) -> u8 {
        match self {
            Instruction::PushConstant => 0,
            Instruction::PushLocal => 1,
            Instruction::PushUnit => 2,
            Instruction::Pop => 3,
            Instruction::Add => 4,
            Instruction::Subtract => 5,
            Instruction::Multiply => 6,
            Instruction::Divide => 7,
            Instruction::Negate => 8,
            Instruction::Greater => 9,
            Instruction::GreaterEqual => 10,
            Instruction::Less => 11,
            Instruction::LessEqual => 12,
            Instruction::Equal => 13,
            Instruction::NotEqual => 14,
            Instruction::Not => 15,
            Instruction::And => 16,
            Instruction::Or => 17,
            Instruction::Jump => 18,
            Instruction::JumpIf => 19,
            Instruction::Return => 20,
        }
    }

    /// The instruction that a byte encodes, if any.
    pub open spec fn decode(byte: u8) -> Option<Instruction> {
        match byte {
            0 => Some(Instruction::PushConstant),
            1 => Some(Instruction::PushLocal),
            2 => Some(Instruction::PushUnit),
            3 => Some(Instruction::Pop),
            4 => Some(Instruction::Add),
            5 => Some(Instruction::Subtract),
            6 => Some(Instruction::Multiply),
            7 => Some(Instruction::Divide),
            8 => Some(Instruction::Negate),
            9 => Some(Instruction::Greater),
            10 => Some(Instruction::GreaterEqual),
            11 => Some(Instruction::Less),
            12 => Some(Instruction::LessEqual),
            13 => Some(Instruction::Equal),
            14 => Some(Instruction::NotEqual),
            15 => Some(Instruction::Not),
            16 => Some(Instruction::And),
            17 => Some(Instruction::Or),
            18 => Some(Instruction::Jump),
            19 => Some(Instruction::JumpIf),
            20 => Some(Instruction::Return),
            _ => None,
        }
    }

    /// Whether an eight-byte operand follows the opcode.
    pub open spec fn has_operand(self) -> bool {
        self is PushConstant || self is PushLocal || self is Jump || self is JumpIf
    }

    /// Encodes the instruction as its opcode byte.
    pub fn to_u8(self) -> (byte: u8)
        ensures
            byte == self.opcode(),
            Instruction::decode(byte) == Some(self),
    {
        match self {
            Instruction::PushConstant => 0,
            Instruction::PushLocal => 1,
            Instruction::PushUnit => 2,
            Instruction::Pop => 3,
            Instruction::Add => 4,
            Instruction::Subtract => 5,
            Instruction::Multiply => 6,
            Instruction::Divide => 7,
            Instruction::Negate => 8,
            Instruction::Greater => 9,
            Instruction::GreaterEqual => 10,
            Instruction::Less => 11,
            Instruction::LessEqual => 12,
            Instruction::Equal => 13,
            Instruction::NotEqual => 14,
            Instruction::Not => 15,
            Instruction::And => 16,
            Instruction::Or => 17,
            Instruction::Jump => 18,
            Instruction::JumpIf => 19,
            Instruction::Return => 20,
        }
    }

    /// Decodes an opcode byte; `None` for a byte that encodes nothing.
    pub fn from_u8(byte: u8) -> (instruction: Option<Instruction>)
        ensures
            instruction == Instruction::decode(byte),
            instruction matches Some(i) ==> i.opcode() == byte,
            instruction is Some <==> byte <= 20,
    {
        match byte {
            0 => Some(Instruction::PushConstant),
            1 => Some(Instruction::PushLocal),
            2 => Some(Instruction::PushUnit),
            3 => Some(Instruction::Pop),
            4 => Some(Instruction::Add),
            5 => Some(Instruction::Subtract),
            6 => Some(Instruction::Multiply),
            7 => Some(Instruction::Divide),
            8 => Some(Instruction::Negate),
            9 => Some(Instruction::Greater),
            10 => Some(Instruction::GreaterEqual),
            11 => Some(Instruction::Less),
            12 => Some(Instruction::LessEqual),
            13 => Some(Instruction::Equal),
            14 => Some(Instruction::NotEqual),
            15 => Some(Instruction::Not),
            16 => Some(Instruction::And),
            17 => Some(Instruction::Or),
            18 => Some(Instruction::Jump),
            19 => Some(Instruction::JumpIf),
            20 => Some(Instruction::Return),
            _ => None,
        }
    }

    /// The instruction's name, as a disassembly prints it.
    pub fn name(self) -> (name: &'static str)
        ensures
            name@ == self.name_spec()@,
    {
        match self {
            Instruction::PushConstant => "PushConstant",
            Instruction::PushLocal => "PushLocal",
            Instruction::PushUnit => "PushUnit",
            Instruction::Pop => "Pop",
            Instruction::Add => "Add",
            Instruction::Subtract => "Subtract",
            Instruction::Multiply => "Multiply",
            Instruction::Divide => "Divide",
            Instruction::Negate => "Negate",
            Instruction::Greater => "Greater",
            Instruction::GreaterEqual => "GreaterEqual",
            Instruction::Less => "Less",
            Instruction::LessEqual => "LessEqual",
            Instruction::Equal => "Equal",
            Instruction::NotEqual => "NotEqual",
            Instruction::Not => "Not",
            Instruction::And => "And",
            Instruction::Or => "Or",
            Instruction::Jump => "Jump",
            Instruction::JumpIf => "JumpIf",
            Instruction::Return => "Return",
        }
    }

    /// The name of each instruction.
    pub open spec fn name_spec(self) -> &'static str {
        match self {
            Instruction::PushConstant => "PushConstant",
            Instruction::PushLocal => "PushLocal",
            Instruction::PushUnit => "PushUnit",
            Instruction::Pop => "Pop",
            Instruction::Add => "Add",
            Instruction::Subtract => "Subtract",
            Instruction::Multiply => "Multiply",
            Instruction::Divide => "Divide",
            Instruction::Negate => "Negate",
            Instruction::Greater => "Greater",
            Instruction::GreaterEqual => "GreaterEqual",
            Instruction::Less => "Less",
            Instruction::LessEqual => "LessEqual",
            Instruction::Equal => "Equal",
            Instruction::NotEqual => "NotEqual",
            Instruction::Not => "Not",
            Instruction::And => "And",
            Instruction::Or => "Or",
            Instruction::Jump => "Jump",
            Instruction::JumpIf => "JumpIf",
            Instruction::Return => "Return",
        }
    }
}

/// Every instruction survives encoding and decoding, and every byte that
/// decodes encodes back to itself.
pub proof fn opcode_round_trip(instruction: Instruction, byte: u8)
    ensures
        Instruction::decode(instruction.opcode()) == Some(instruction),
        Instruction::decode(byte) matches Some(i) ==> i.opcode() == byte,
{
}

} // verus!
