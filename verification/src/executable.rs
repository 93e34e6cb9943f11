//! Chunks of bytecode: the constant pool, the instruction stream, the table
//! of locals that code generation keeps, and the binary form of a chunk.
//!
//! The binary form is little-endian throughout:
//!
//! ```text
//! constants_len: u64
//! constants:     tag: u64 (1 = Int, 2 = Float, 3 = Bool), then the payload
//!                Int and Float: 8 bytes; Bool: 1 byte, 0 or 1
//! code_len:      u64
//! code:          the instruction bytes
//! ```

use crate::instruction::Instruction;
use vstd::bytes::{
    lemma_auto_spec_u64_to_from_le_bytes, spec_u64_from_le_bytes, spec_u64_to_le_bytes,
    u64_from_le_bytes, u64_to_le_bytes,
};
use vstd::prelude::*;
use vstd::slice::{slice_subrange, slice_to_vec};

verus! {

/// An entry of a chunk's constant pool. A `Float` holds the bit pattern of
/// an IEEE 754 double, which is also what its payload is on the wire.
#[derive(Clone, Copy, Debug, PartialEq, Eq, Structural)]
pub enum Constant {
    Int(i64),
    Float(u64),
    Bool(bool),
}

/// Why a byte string is not the binary form of a constant or a chunk.
#[derive(Clone, Copy, Debug, PartialEq, Eq, Structural)]
pub enum ParseError {
    /// A constant's tag is none of 1, 2 and 3.
    InvalidConstantType(u64),
    /// A boolean's payload is neither 0 nor 1.
    InvalidConstantValue(u64),
    /// The bytes end before the value does.
    UnexpectedEof,
}

/// The eight bytes of `value`, least significant first.
pub open spec fn le_bytes(value: u64) -> Seq<u8> {
    spec_u64_to_le_bytes(value)
}

/// The number that the first eight bytes of `bytes` spell, least significant
/// byte first; an error if there are fewer than eight.
pub open spec fn le_value(bytes: Seq<u8>) -> Result<u64, ParseError> {
    if bytes.len() < 8 {
        Err(ParseError::UnexpectedEof)
    } else {
        Ok(spec_u64_from_le_bytes(bytes.subrange(0, 8)))
    }
}

impl Constant {
    /// The tag that announces this kind of constant.
    pub open spec fn tag(self) -> u64 {
        match self {
            Constant::Int(_) => 1,
            Constant::Float(_) => 2,
            Constant::Bool(_) => 3,
        }
    }

    /// The binary form of the constant.
    pub open spec fn encoding(self) -> Seq<u8> {
        match self {
            Constant::Int(value) => le_bytes(1) + le_bytes(value as u64),
            Constant::Float(bits) => le_bytes(2) + le_bytes(bits),
            Constant::Bool(flag) => le_bytes(3) + seq![if flag { 1u8 } else { 0u8 }],
        }
    }

    /// How many bytes the binary form takes.
    pub open spec fn encoded_len(self) -> int {
        match self {
            Constant::Bool(_) => 9,
            _ => 16,
        }
    }

    /// The constant that `bytes` begins with. Bytes after it are ignored.
    pub open spec fn decoding(bytes: Seq<u8>) -> Result<Constant, ParseError> {
        match le_value(bytes) {
            Err(error) => Err(error),
            Ok(tag) => {
                let payload = bytes.skip(8);
                if tag == 1 {
                    match le_value(payload) {
                        Err(error) => Err(error),
                        Ok(value) => Ok(Constant::Int(value as i64)),
                    }
                } else if tag == 2 {
                    match le_value(payload) {
                        Err(error) => Err(error),
                        Ok(value) => Ok(Constant::Float(value)),
                    }
                } else if tag == 3 {
                    if payload.len() < 1 {
                        Err(ParseError::UnexpectedEof)
                    } else if payload[0] == 0 {
                        Ok(Constant::Bool(false))
                    } else if payload[0] == 1 {
                        Ok(Constant::Bool(true))
                    } else {
                        Err(ParseError::InvalidConstantValue(payload[0] as u64))
                    }
                } else {
                    Err(ParseError::InvalidConstantType(tag))
                }
            },
        }
    }

    /// Writes the constant in its binary form.
    pub fn to_bytes(&self) -> (bytes: Vec<u8>)
        ensures
            bytes@ == self.encoding(),
            bytes@.len() == self.encoded_len(),
    {
        proof {
            lemma_auto_spec_u64_to_from_le_bytes();
        }
        match self {
            Constant::Int(value) => {
                let mut bytes = u64_to_le_bytes(1);
                let mut payload = u64_to_le_bytes(#[verifier::truncate] (*value as u64));
                bytes.append(&mut payload);
                bytes
            },
            Constant::Float(bits) => {
                let mut bytes = u64_to_le_bytes(2);
                let mut payload = u64_to_le_bytes(*bits);
                bytes.append(&mut payload);
                bytes
            },
            Constant::Bool(flag) => {
                let mut bytes = u64_to_le_bytes(3);
                if *flag {
                    bytes.push(1);
                } else {
                    bytes.push(0);
                }
                bytes
            },
        }
    }

    /// Reads the constant that `bytes` begins with.
    pub fn from_bytes(bytes: &[u8]) -> (result: Result<Constant, ParseError>)
        ensures
            result == Constant::decoding(bytes@),
    {
        assert(bytes@.skip(0) == bytes@);
        let tag = match read_u64(bytes, 0) {
            Ok(tag) => tag,
            Err(error) => return Err(error),
        };
        if tag == 1 {
            match read_u64(bytes, 8) {
                Ok(value) => Ok(Constant::Int(#[verifier::truncate] (value as i64))),
                Err(error) => Err(error),
            }
        } else if tag == 2 {
            match read_u64(bytes, 8) {
                Ok(value) => Ok(Constant::Float(value)),
                Err(error) => Err(error),
            }
        } else if tag == 3 {
            match read_u8(bytes, 8) {
                Ok(byte) => if byte == 0 {
                    Ok(Constant::Bool(false))
                } else if byte == 1 {
                    Ok(Constant::Bool(true))
                } else {
                    Err(ParseError::InvalidConstantValue(byte as u64))
                },
                Err(error) => Err(error),
            }
        } else {
            Err(ParseError::InvalidConstantType(tag))
        }
    }
}

/// Reads the byte at `offset`.
pub fn read_u8(bytes: &[u8], offset: usize) -> (result: Result<u8, ParseError>)
    ensures
        result == if offset < bytes@.len() {
            Ok::<u8, ParseError>(bytes@[offset as int])
        } else {
            Err(ParseError::UnexpectedEof)
        },
{
    if offset < bytes.len() {
        Ok(bytes[offset])
    } else {
        Err(ParseError::UnexpectedEof)
    }
}

/// Reads the eight bytes at `offset` as a little-endian number.
pub fn read_u64(bytes: &[u8], offset: usize) -> (result: Result<u64, ParseError>)
    ensures
        offset <= bytes@.len() ==> result == le_value(bytes@.skip(offset as int)),
        offset > bytes@.len() ==> result == Err::<u64, ParseError>(ParseError::UnexpectedEof),
{
    if offset > bytes.len() || bytes.len() - offset < 8 {
        Err(ParseError::UnexpectedEof)
    } else {
        let window = slice_subrange(bytes, offset, offset + 8);
        assert(window@ == bytes@.skip(offset as int).subrange(0, 8));
        Ok(u64_from_le_bytes(window))
    }
}

/// What a chunk holds, as mathematical sequences.
pub struct ChunkView {
    /// The names bound so far, in the order of their declaration. A name's
    /// position is its slot.
    pub locals: Seq<usize>,
    /// The constant pool.
    pub constants: Seq<Constant>,
    /// The instruction stream.
    pub code: Seq<u8>,
}

/// The slot of the latest declaration of `name`, if it was declared.
pub open spec fn latest_slot(locals: Seq<usize>, name: usize) -> Option<usize>
    decreases locals.len(),
{
    if locals.len() == 0 {
        None
    } else if locals.last() == name {
        Some((locals.len() - 1) as usize)
    } else {
        latest_slot(locals.drop_last(), name)
    }
}

/// The binary forms of the constants, one after another.
pub open spec fn constants_encoding(constants: Seq<Constant>) -> Seq<u8>
    decreases constants.len(),
{
    if constants.len() == 0 {
        Seq::empty()
    } else {
        constants_encoding(constants.drop_last()) + constants.last().encoding()
    }
}

/// The first `count` constants that `bytes` holds one after another, and the
/// number of bytes they take; the error of the first that cannot be read.
pub open spec fn constants_decoding(bytes: Seq<u8>, count: nat) -> Result<
    (Seq<Constant>, int),
    ParseError,
>
    decreases count,
{
    if count == 0 {
        Ok((Seq::empty(), 0))
    } else {
        match constants_decoding(bytes, (count - 1) as nat) {
            Err(error) => Err(error),
            Ok((constants, taken)) => match Constant::decoding(bytes.skip(taken)) {
                Err(error) => Err(error),
                Ok(constant) => Ok((constants.push(constant), taken + constant.encoded_len())),
            },
        }
    }
}

impl ChunkView {
    /// The binary form of the chunk. The table of locals is no part of it.
    pub open spec fn encoding(self) -> Seq<u8> {
        le_bytes(self.constants.len() as u64) + constants_encoding(self.constants) + le_bytes(
            self.code.len() as u64,
        ) + self.code
    }

    /// The chunk that `bytes` begins with. Bytes after it are ignored.
    pub open spec fn decoding(bytes: Seq<u8>) -> Result<ChunkView, ParseError> {
        match le_value(bytes) {
            Err(error) => Err(error),
            Ok(count) => match constants_decoding(bytes.skip(8), count as nat) {
                Err(error) => Err(error),
                Ok((constants, taken)) => {
                    let rest = bytes.skip(8 + taken);
                    match le_value(rest) {
                        Err(error) => Err(error),
                        Ok(code_len) => if rest.len() - 8 < code_len {
                            Err(ParseError::UnexpectedEof)
                        } else {
                            Ok(
                                ChunkView {
                                    locals: Seq::empty(),
                                    constants,
                                    code: rest.subrange(8, 8 + code_len),
                                },
                            )
                        },
                    }
                },
            },
        }
    }
}

/// One function's bytecode: a constant pool and an instruction stream,
/// together with the locals that were declared while it was generated.
#[derive(Debug, PartialEq)]
pub struct Chunk {
    locals: Vec<usize>,
    constants: Vec<Constant>,
    code: Vec<u8>,
}

impl View for Chunk {
    type V = ChunkView;

    closed spec fn view(&self) -> ChunkView {
        ChunkView { locals: self.locals@, constants: self.constants@, code: self.code@ }
    }
}

impl Chunk {
    /// A chunk with no locals, no constants and no code.
    pub fn new() -> (chunk: Chunk)
        ensures
            chunk@.locals.len() == 0,
            chunk@.constants.len() == 0,
            chunk@.code.len() == 0,
    {
        Chunk { locals: Vec::new(), constants: Vec::new(), code: Vec::new() }
    }

    /// Appends a constant to the pool and returns its index. Equal constants
    /// are not shared.
    pub fn add_constant(&mut self, constant: Constant) -> (index: usize)
        ensures
            index == old(self)@.constants.len(),
            final(self)@ == (ChunkView {
                constants: old(self)@.constants.push(constant),
                ..old(self)@
            }),
    {
        self.constants.push(constant);
        self.constants.len() - 1
    }

    /// Declares a local and returns its slot: the number of locals declared
    /// before it.
    pub fn add_local(&mut self, name: usize) -> (slot: usize)
        ensures
            slot == old(self)@.locals.len(),
            final(self)@ == (ChunkView { locals: old(self)@.locals.push(name), ..old(self)@ }),
            latest_slot(final(self)@.locals, name) == Some(slot),
    {
        let slot = self.locals.len();
        self.locals.push(name);
        assert(self.locals@.last() == name);
        slot
    }

    /// Appends an instruction's opcode and returns its offset.
    pub fn emit(&mut self, instruction: Instruction) -> (offset: usize)
        ensures
            offset == old(self)@.code.len(),
            final(self)@ == (ChunkView {
                code: old(self)@.code.push(instruction.opcode()),
                ..old(self)@
            }),
    {
        self.emit_byte(instruction.to_u8())
    }

    /// Appends one byte and returns its offset.
    pub fn emit_byte(&mut self, byte: u8) -> (offset: usize)
        ensures
            offset == old(self)@.code.len(),
            final(self)@ == (ChunkView { code: old(self)@.code.push(byte), ..old(self)@ }),
    {
        self.code.push(byte);
        self.code.len() - 1
    }

    /// Appends the bytes and returns the offset of the first.
    pub fn emit_bytes<const N: usize>(&mut self, bytes: [u8; N]) -> (offset: usize)
        ensures
            offset == old(self)@.code.len(),
            final(self)@ == (ChunkView { code: old(self)@.code + bytes@, ..old(self)@ }),
    {
        let offset = self.code.len();
        let mut index: usize = 0;
        while index < N
            invariant
                index <= N,
                bytes@.len() == N,
                self.locals == old(self).locals,
                self.constants == old(self).constants,
                self.code@ == old(self).code@ + bytes@.subrange(0, index as int),
                offset == old(self).code@.len(),
            decreases N - index,
        {
            self.code.push(bytes[index]);
            index += 1;
            assert(self.code@ == old(self).code@ + bytes@.subrange(0, index as int));
        }
        assert(bytes@.subrange(0, N as int) == bytes@);
        offset
    }

    /// Overwrites the bytes at `offset`: the way a jump's operand, emitted
    /// as a placeholder, gets its target once the target is known.
    pub fn patch_bytes<const N: usize>(&mut self, offset: usize, bytes: [u8; N])
        requires
            offset + N <= old(self)@.code.len(),
        ensures
            final(self)@ == (ChunkView {
                code: old(self)@.code.subrange(0, offset as int) + bytes@ + old(
                    self,
                )@.code.subrange(offset + N, old(self)@.code.len() as int),
                ..old(self)@
            }),
    {
        let len = self.code.len();
        let mut index: usize = 0;
        while index < N
            invariant
                index <= N,
                bytes@.len() == N,
                offset + N <= len,
                len == old(self).code@.len(),
                self.code@.len() == len,
                self.locals == old(self).locals,
                self.constants == old(self).constants,
                self.code@ == old(self).code@.subrange(0, offset as int) + bytes@.subrange(
                    0,
                    index as int,
                ) + old(self).code@.subrange(offset + index, old(self).code@.len() as int),
            decreases N - index,
        {
            self.code.set(offset + index, bytes[index]);
            index += 1;
            assert(self.code@ == old(self).code@.subrange(0, offset as int) + bytes@.subrange(
                0,
                index as int,
            ) + old(self).code@.subrange(offset + index, old(self).code@.len() as int));
        }
        assert(bytes@.subrange(0, N as int) == bytes@);
    }

    /// Appends an operand, least significant byte first, and returns the
    /// offset of its first byte.
    pub fn emit_operand(&mut self, operand: u64) -> (offset: usize)
        ensures
            offset == old(self)@.code.len(),
            final(self)@ == (ChunkView { code: old(self)@.code + le_bytes(operand), ..old(self)@ }),
    {
        let offset = self.code.len();
        let mut bytes = u64_to_le_bytes(operand);
        self.code.append(&mut bytes);
        offset
    }

    /// Overwrites the operand at `offset`.
    pub fn patch_operand(&mut self, offset: usize, operand: u64)
        requires
            offset + 8 <= old(self)@.code.len(),
        ensures
            final(self)@ == (ChunkView {
                code: old(self)@.code.subrange(0, offset as int) + le_bytes(operand) + old(
                    self,
                )@.code.subrange(offset + 8, old(self)@.code.len() as int),
                ..old(self)@
            }),
    {
        let bytes = u64_to_le_bytes(operand);
        let len = self.code.len();
        let mut index: usize = 0;
        while index < 8
            invariant
                index <= 8,
                bytes@.len() == 8,
                offset + 8 <= len,
                len == old(self).code@.len(),
                self.code@.len() == len,
                self.locals == old(self).locals,
                self.constants == old(self).constants,
                self.code@ == old(self).code@.subrange(0, offset as int) + bytes@.subrange(
                    0,
                    index as int,
                ) + old(self).code@.subrange(offset + index, old(self).code@.len() as int),
            decreases 8 - index,
        {
            self.code.set(offset + index, bytes[index]);
            index += 1;
            assert(self.code@ == old(self).code@.subrange(0, offset as int) + bytes@.subrange(
                0,
                index as int,
            ) + old(self).code@.subrange(offset + index, old(self).code@.len() as int));
        }
        assert(bytes@.subrange(0, 8) == bytes@);
    }

    /// The slot of the latest declaration of `name`.
    pub fn local(&self, name: usize) -> (slot: Option<usize>)
        ensures
            slot == latest_slot(self@.locals, name),
            slot matches Some(index) ==> index < self@.locals.len() && self@.locals[index as int]
                == name,
    {
        let mut index = self.locals.len();
        assert(self.locals@.subrange(0, index as int) == self.locals@);
        while index > 0
            invariant
                index <= self.locals@.len(),
                latest_slot(self.locals@, name) == latest_slot(
                    self.locals@.subrange(0, index as int),
                    name,
                ),
            decreases index,
        {
            index -= 1;
            if self.locals[index] == name {
                assert(self.locals@.subrange(0, index + 1).last() == name);
                return Some(index);
            }
            assert(self.locals@.subrange(0, index + 1).drop_last() == self.locals@.subrange(
                0,
                index as int,
            ));
        }
        None
    }

    /// The constant at `index` of the pool.
    pub fn constant(&self, index: usize) -> (constant: Option<Constant>)
        ensures
            constant == if index < self@.constants.len() {
                Some(self@.constants[index as int])
            } else {
                None
            },
    {
        if index < self.constants.len() {
            Some(self.constants[index])
        } else {
            None
        }
    }

    /// The lengths of a chunk are lengths of vectors: they fit the
    /// operands and the length fields that speak of them.
    pub proof fn is_of_size(&self)
        ensures
            self@.code.len() <= usize::MAX,
            self@.constants.len() <= usize::MAX,
            self@.locals.len() <= usize::MAX,
    {
        assert(self.code@.len() == self.code.len());
        assert(self.constants@.len() == self.constants.len());
        assert(self.locals@.len() == self.locals.len());
    }

    /// The constant pool.
    pub fn constants(&self) -> (constants: &[Constant])
        ensures
            constants@ == self@.constants,
    {
        self.constants.as_slice()
    }

    /// The instruction stream.
    pub fn code(&self) -> (code: &[u8])
        ensures
            code@ == self@.code,
    {
        self.code.as_slice()
    }

    /// Writes the chunk in its binary form.
    pub fn to_bytes(&self) -> (bytes: Vec<u8>)
        ensures
            bytes@ == self@.encoding(),
    {
        let mut bytes = u64_to_le_bytes(self.constants.len() as u64);
        let mut index: usize = 0;
        while index < self.constants.len()
            invariant
                index <= self.constants@.len(),
                bytes@ == le_bytes(self.constants@.len() as u64) + constants_encoding(
                    self.constants@.subrange(0, index as int),
                ),
            decreases self.constants@.len() - index,
        {
            let mut encoded = self.constants[index].to_bytes();
            bytes.append(&mut encoded);
            index += 1;
            assert(self.constants@.subrange(0, index as int).drop_last()
                == self.constants@.subrange(0, index - 1));
        }
        assert(self.constants@.subrange(0, index as int) == self.constants@);
        let mut code_len = u64_to_le_bytes(self.code.len() as u64);
        bytes.append(&mut code_len);
        let mut code = self.code.clone();
        bytes.append(&mut code);
        bytes
    }

    /// Reads the chunk that `bytes` begins with. Its table of locals is
    /// empty: the binary form does not carry one.
    pub fn from_bytes(bytes: &[u8]) -> (result: Result<Chunk, ParseError>)
        ensures
            match result {
                Ok(chunk) => ChunkView::decoding(bytes@) == Ok::<ChunkView, ParseError>(chunk@),
                Err(error) => ChunkView::decoding(bytes@) == Err::<ChunkView, ParseError>(error),
            },
    {
        assert(bytes@.skip(0) == bytes@);
        let count = match read_u64(bytes, 0) {
            Ok(count) => count,
            Err(error) => return Err(error),
        };
        let ghost pool = bytes@.skip(8);
        let mut chunk = Chunk::new();
        assert(chunk.constants@ =~= Seq::empty());
        let mut offset: usize = 8;
        let mut index: u64 = 0;
        while index < count
            invariant
                index <= count,
                8 <= offset <= bytes@.len(),
                pool == bytes@.skip(8),
                le_value(bytes@) == Ok::<u64, ParseError>(count),
                chunk.locals@.len() == 0,
                chunk.code@.len() == 0,
                constants_decoding(pool, index as nat) == Ok::<(Seq<Constant>, int), ParseError>(
                    (chunk.constants@, offset - 8),
                ),
            decreases count - index,
        {
            let rest = slice_subrange(bytes, offset, bytes.len());
            assert(rest@ == pool.skip(offset - 8));
            match Constant::from_bytes(rest) {
                Ok(constant) => {
                    offset += match constant {
                        Constant::Bool(_) => 9,
                        _ => 16,
                    };
                    chunk.constants.push(constant);
                    index += 1;
                },
                Err(error) => {
                    proof {
                        assert(constants_decoding(pool, (index + 1) as nat) == Err::<
                            (Seq<Constant>, int),
                            ParseError,
                        >(error));
                        decoding_fails_on(pool, (index + 1) as nat, count as nat);
                    }
                    return Err(error);
                },
            }
        }
        let code_len = match read_u64(bytes, offset) {
            Ok(code_len) => code_len,
            Err(error) => return Err(error),
        };
        if ((bytes.len() - offset - 8) as u64) < code_len {
            return Err(ParseError::UnexpectedEof);
        }
        let code = slice_subrange(bytes, offset + 8, offset + 8 + code_len as usize);
        assert(code@ == bytes@.skip(offset as int).subrange(8, 8 + code_len));
        chunk.code = slice_to_vec(code);
        assert(bytes@.skip(8 + (offset - 8)) == bytes@.skip(offset as int));
        assert(chunk.locals@ =~= Seq::empty());
        Ok(chunk)
    }
}

/// Once a constant cannot be read, no longer run of constants can.
pub proof fn decoding_fails_on(bytes: Seq<u8>, failing: nat, count: nat)
    requires
        constants_decoding(bytes, failing) is Err,
        failing <= count,
    ensures
        constants_decoding(bytes, count) == constants_decoding(bytes, failing),
    decreases count,
{
    if failing < count {
        decoding_fails_on(bytes, failing, (count - 1) as nat);
    }
}

/// A constant that was written is read back, whatever bytes follow it.
pub proof fn constant_round_trip(constant: Constant, rest: Seq<u8>)
    ensures
        Constant::decoding(constant.encoding() + rest) == Ok::<Constant, ParseError>(constant),
        constant.encoding().len() == constant.encoded_len(),
{
    lemma_auto_spec_u64_to_from_le_bytes();
    let bytes = constant.encoding() + rest;
    assert(bytes.subrange(0, 8) == le_bytes(constant.tag()));
    let payload = bytes.skip(8);
    match constant {
        Constant::Int(value) => {
            assert(payload.subrange(0, 8) == le_bytes(value as u64));
            assert((value as u64) as i64 == value) by (bit_vector);
        },
        Constant::Float(bits) => {
            assert(payload.subrange(0, 8) == le_bytes(bits));
        },
        Constant::Bool(flag) => {
            assert(payload[0] == if flag { 1u8 } else { 0u8 });
        },
    }
}

/// Constants that were written one after another are read back, whatever
/// bytes follow them.
pub proof fn constants_round_trip(constants: Seq<Constant>, rest: Seq<u8>)
    ensures
        constants_decoding(constants_encoding(constants) + rest, constants.len()) == Ok::<
            (Seq<Constant>, int),
            ParseError,
        >((constants, constants_encoding(constants).len() as int)),
    decreases constants.len(),
{
    if constants.len() == 0 {
        assert(constants =~= Seq::empty());
    } else {
        let front = constants.drop_last();
        let last = constants.last();
        let tail = last.encoding() + rest;
        constants_round_trip(front, tail);
        constant_round_trip(last, rest);
        let bytes = constants_encoding(constants) + rest;
        assert(bytes == constants_encoding(front) + tail);
        assert(bytes.skip(constants_encoding(front).len() as int) == tail);
        assert(front.push(last) == constants);
    }
}

/// Reading the binary form of a chunk gives back its constants and its
/// code, with an empty table of locals, whatever bytes follow the chunk.
pub proof fn chunk_round_trip(chunk: Chunk, rest: Seq<u8>)
    ensures
        ChunkView::decoding(chunk@.encoding() + rest) == Ok::<ChunkView, ParseError>(
            ChunkView { locals: Seq::empty(), ..chunk@ },
        ),
        chunk@.locals.len() == 0 ==> ChunkView::decoding(chunk@.encoding()) == Ok::<
            ChunkView,
            ParseError,
        >(chunk@),
{
    assert(chunk.constants@.len() == chunk.constants.len());
    assert(chunk.code@.len() == chunk.code.len());
    view_round_trip(chunk@, rest);
    view_round_trip(chunk@, Seq::empty());
    assert(chunk@.encoding() + Seq::<u8>::empty() == chunk@.encoding());
    if chunk@.locals.len() == 0 {
        assert(chunk@.locals =~= Seq::empty());
    }
}

/// The same, of any constants and code whose lengths fit the format's
/// length fields.
pub proof fn view_round_trip(chunk: ChunkView, rest: Seq<u8>)
    requires
        chunk.constants.len() <= u64::MAX,
        chunk.code.len() <= u64::MAX,
    ensures
        ChunkView::decoding(chunk.encoding() + rest) == Ok::<ChunkView, ParseError>(
            ChunkView { locals: Seq::empty(), ..chunk },
        ),
{
    lemma_auto_spec_u64_to_from_le_bytes();
    let count = chunk.constants.len() as u64;
    let code_len = chunk.code.len() as u64;
    let pool = constants_encoding(chunk.constants);
    let bytes = chunk.encoding() + rest;
    let after_pool = le_bytes(code_len) + chunk.code + rest;
    assert(bytes.subrange(0, 8) == le_bytes(count));
    assert(bytes.skip(8) == pool + after_pool);
    constants_round_trip(chunk.constants, after_pool);
    assert(bytes.skip(8 + pool.len() as int) == after_pool);
    assert(after_pool.subrange(0, 8) == le_bytes(code_len));
    assert(after_pool.subrange(8, 8 + code_len) == chunk.code);
}

} // verus!
