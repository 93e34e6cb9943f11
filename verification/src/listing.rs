//! A listing of a chunk's code: what stands at each offset, one
//! instruction after another.

use crate::executable::Chunk;
use crate::instruction::Instruction;
use vstd::bytes::{spec_u64_from_le_bytes, u64_from_le_bytes};
use vstd::prelude::*;
use vstd::slice::slice_subrange;

verus! {

/// What stands at an offset of the code.
#[derive(Clone, Copy, Debug, PartialEq, Eq, Structural)]
pub struct Line {
    /// The offset of the opcode.
    pub offset: usize,
    /// The byte at the offset.
    pub byte: u8,
    /// The instruction that the byte encodes, if it encodes one.
    pub instruction: Option<Instruction>,
    /// The operand, for an instruction that has one. It is missing where
    /// the code ends before the operand does.
    pub operand: Option<u64>,
}

/// The line that begins at `offset`.
pub open spec fn line_at(code: Seq<u8>, offset: int) -> Line
    recommends
        0 <= offset < code.len(),
{
    let instruction = Instruction::decode(code[offset]);
    Line {
        offset: offset as usize,
        byte: code[offset],
        instruction,
        operand: match instruction {
            Some(decoded) => if decoded.has_operand() && offset + 9 <= code.len() {
                Some(spec_u64_from_le_bytes(code.subrange(offset + 1, offset + 9)))
            } else {
                None
            },
            None => None,
        },
    }
}

/// How many bytes a line covers: nine with an operand, else one.
pub open spec fn width(line: Line) -> int {
    if line.operand is Some {
        9
    } else {
        1
    }
}

/// The lines from `offset` to the end of the code: each begins where the
/// one before it ends.
pub open spec fn lines_from(code: Seq<u8>, offset: int) -> Seq<Line>
    decreases code.len() - offset,
{
    if offset < 0 || offset >= code.len() {
        Seq::empty()
    } else {
        seq![line_at(code, offset)] + lines_from(code, offset + width(line_at(code, offset)))
    }
}

/// Tells whether an operand follows the opcode of an instruction.
pub fn takes_operand(instruction: Instruction) -> (takes: bool)
    ensures
        takes == instruction.has_operand(),
{
    match instruction {
        Instruction::PushConstant
        | Instruction::PushLocal
        | Instruction::Jump
        | Instruction::JumpIf => true,
        _ => false,
    }
}

/// Lists the code of a chunk from its first byte to its last.
pub fn listing(chunk: &Chunk) -> (lines: Vec<Line>)
    ensures
        lines@ == lines_from(chunk@.code, 0),
{
    let code = chunk.code();
    let mut lines: Vec<Line> = Vec::new();
    let mut offset: usize = 0;
    assert(lines@ + lines_from(code@, 0) =~= lines_from(code@, 0));
    while offset < code.len()
        invariant
            offset <= code@.len(),
            lines_from(code@, 0) == lines@ + lines_from(code@, offset as int),
        decreases code@.len() - offset,
    {
        let byte = code[offset];
        let instruction = Instruction::from_u8(byte);
        let operand = match instruction {
            Some(decoded) => if takes_operand(decoded) && code.len() - offset >= 9 {
                Some(u64_from_le_bytes(slice_subrange(code, offset + 1, offset + 9)))
            } else {
                None
            },
            None => None,
        };
        let line = Line { offset, byte, instruction, operand };
        let ghost before = lines@;
        lines.push(line);
        assert(before + (seq![line] + lines_from(code@, offset + width(line))) =~= lines@
            + lines_from(code@, offset + width(line)));
        offset = match operand {
            Some(_) => offset + 9,
            None => offset + 1,
        };
    }
    assert(lines@ + lines_from(code@, offset as int) =~= lines@);
    lines
}

} // verus!
