//! The stack machine: one instruction pointer into a chunk's code and one
//! operand stack.
//!
//! The machine decides everything but the arithmetic of doubles. An
//! instruction that has a `Float` among its numeric operands pops them and
//! hands them to the caller as a [`Deferred`] operation; the caller computes
//! the result and gives it back with [`Machine::resume`].

use crate::executable::{Chunk, ChunkView};
use crate::instruction::Instruction;
use crate::value::Value;
use vstd::bytes::{spec_u64_from_le_bytes, u64_from_le_bytes};
use vstd::prelude::*;
use vstd::slice::slice_subrange;

verus! {

/// Why a run ended without a value.
#[derive(Clone, Copy, Debug, PartialEq, Eq, Structural)]
pub enum Error {
    /// The code ends at this offset, where a byte was to be read.
    SegmentationFault(u64),
    /// The byte is no opcode.
    InvalidInstruction(u8),
    /// The pool has no constant at this index.
    InvalidConstant(u64),
    /// The stack has no slot at this index.
    InvalidLocal(u64),
    /// An operand has a type that the instruction does not take.
    InvalidType,
    /// The stack holds fewer values than the instruction pops.
    EmptyStack,
    /// An `Int` was divided by zero.
    DivisionByZero,
}

/// An operation on doubles that the machine leaves to its caller. For
/// `Negate` there is no left operand.
#[derive(Clone, Copy, Debug, PartialEq, Eq, Structural)]
pub struct Deferred {
    pub instruction: Instruction,
    pub left: Option<Value>,
    pub right: Value,
}

/// What one instruction, or a run of them, came to.
#[derive(Clone, Copy, Debug, PartialEq, Eq, Structural)]
pub enum Step {
    /// The machine is ready for the next instruction.
    Continue,
    /// `Return` ran: the run is over, with this value.
    Return(Value),
    /// The operands are popped and the caller owes the result.
    Defer(Deferred),
}

/// A machine's state: the offset of the next instruction and the operand
/// stack, bottom first.
pub struct MachineView {
    pub current: u64,
    pub stack: Seq<Value>,
}

/// What an operator makes of its operands.
pub enum Verdict {
    /// The result.
    Done(Value),
    /// A double is among the operands: the caller computes.
    Host,
    /// The operands do not fit the operator.
    Fault(Error),
}

/// The quotient of two `Int`s, rounded towards zero and wrapped into range.
pub open spec fn quotient(left: i64, right: i64) -> i64
    recommends
        right != 0,
{
    match left.checked_div(right) {
        Some(value) => value,
        None => i64::MIN,
    }
}

/// `Negate` and `Not`.
pub open spec fn unary(instruction: Instruction, operand: Value) -> Verdict {
    match (instruction, operand) {
        (Instruction::Negate, Value::Int(value)) => Verdict::Done(
            Value::Int(0i64.wrapping_sub(value)),
        ),
        (Instruction::Negate, Value::Float(_)) => Verdict::Host,
        (Instruction::Not, Value::Bool(flag)) => Verdict::Done(Value::Bool(!flag)),
        _ => Verdict::Fault(Error::InvalidType),
    }
}

/// The operators on two `Int`s. Sums, differences and products wrap.
pub open spec fn on_ints(instruction: Instruction, left: i64, right: i64) -> Verdict {
    match instruction {
        Instruction::Add => Verdict::Done(Value::Int(left.wrapping_add(right))),
        Instruction::Subtract => Verdict::Done(Value::Int(left.wrapping_sub(right))),
        Instruction::Multiply => Verdict::Done(Value::Int(left.wrapping_mul(right))),
        Instruction::Divide => if right == 0 {
            Verdict::Fault(Error::DivisionByZero)
        } else {
            Verdict::Done(Value::Int(quotient(left, right)))
        },
        Instruction::Greater => Verdict::Done(Value::Bool(left > right)),
        Instruction::GreaterEqual => Verdict::Done(Value::Bool(left >= right)),
        Instruction::Less => Verdict::Done(Value::Bool(left < right)),
        Instruction::LessEqual => Verdict::Done(Value::Bool(left <= right)),
        Instruction::Equal => Verdict::Done(Value::Bool(left == right)),
        Instruction::NotEqual => Verdict::Done(Value::Bool(left != right)),
        _ => Verdict::Fault(Error::InvalidType),
    }
}

/// The operators on two `Bool`s.
pub open spec fn on_bools(instruction: Instruction, left: bool, right: bool) -> Verdict {
    match instruction {
        Instruction::Equal => Verdict::Done(Value::Bool(left == right)),
        Instruction::NotEqual => Verdict::Done(Value::Bool(left != right)),
        Instruction::And => Verdict::Done(Value::Bool(left && right)),
        Instruction::Or => Verdict::Done(Value::Bool(left || right)),
        _ => Verdict::Fault(Error::InvalidType),
    }
}

/// Whether the instruction takes two numbers.
pub open spec fn is_numeric(instruction: Instruction) -> bool {
    instruction is Add || instruction is Subtract || instruction is Multiply
        || instruction is Divide || instruction is Greater || instruction is GreaterEqual
        || instruction is Less || instruction is LessEqual || instruction is Equal
        || instruction is NotEqual
}

/// Whether the instruction pops two operands and pushes one result.
pub open spec fn is_binary(instruction: Instruction) -> bool {
    is_numeric(instruction) || instruction is And || instruction is Or
}

/// The binary operators: two `Int`s are computed here, two numbers of
/// which one is a `Float` go to the caller, two `Bool`s are compared or
/// combined, and anything else is a type error.
pub open spec fn binary(instruction: Instruction, left: Value, right: Value) -> Verdict {
    match (left, right) {
        (Value::Int(l), Value::Int(r)) => on_ints(instruction, l, r),
        (Value::Bool(l), Value::Bool(r)) => on_bools(instruction, l, r),
        _ => if left.is_number() && right.is_number() && is_numeric(instruction) {
            Verdict::Host
        } else {
            Verdict::Fault(Error::InvalidType)
        },
    }
}

/// The operand of the instruction at `current`: the eight bytes after the
/// opcode. Where the code ends before them, the fault is at its end.
pub open spec fn operand(code: Seq<u8>, current: u64) -> Result<u64, Error> {
    if current + 9 <= code.len() {
        Ok(spec_u64_from_le_bytes(code.subrange(current + 1, current + 9)))
    } else {
        Err(Error::SegmentationFault(code.len() as u64))
    }
}

impl MachineView {
    /// The state after an instruction of `width` bytes left `stack`.
    pub open spec fn advance(self, width: int, stack: Seq<Value>) -> MachineView {
        MachineView { current: (self.current + width) as u64, stack }
    }

    /// What a verdict on popped operands means for the machine: the result
    /// is pushed, or the operation goes to the caller, or the run fails.
    pub open spec fn settle(
        self,
        instruction: Instruction,
        verdict: Verdict,
        left: Option<Value>,
        right: Value,
        rest: Seq<Value>,
    ) -> Result<(MachineView, Step), Error> {
        match verdict {
            Verdict::Done(value) => Ok((self.advance(1, rest.push(value)), Step::Continue)),
            Verdict::Host => Ok(
                (self.advance(1, rest), Step::Defer(Deferred { instruction, left, right })),
            ),
            Verdict::Fault(error) => Err(error),
        }
    }

    /// The effect of `instruction`, which stands at `self.current`.
    pub open spec fn perform(self, chunk: ChunkView, instruction: Instruction) -> Result<
        (MachineView, Step),
        Error,
    > {
        let depth = self.stack.len() as int;
        match instruction {
            Instruction::PushConstant => match operand(chunk.code, self.current) {
                Err(error) => Err(error),
                Ok(index) => if index < chunk.constants.len() {
                    let value = Value::of(chunk.constants[index as int]);
                    Ok((self.advance(9, self.stack.push(value)), Step::Continue))
                } else {
                    Err(Error::InvalidConstant(index))
                },
            },
            Instruction::PushLocal => match operand(chunk.code, self.current) {
                Err(error) => Err(error),
                Ok(index) => if index < depth {
                    Ok(
                        (
                            self.advance(9, self.stack.push(self.stack[index as int])),
                            Step::Continue,
                        ),
                    )
                } else {
                    Err(Error::InvalidLocal(index))
                },
            },
            Instruction::PushUnit => Ok(
                (self.advance(1, self.stack.push(Value::Unit)), Step::Continue),
            ),
            Instruction::Pop => if depth < 1 {
                Err(Error::EmptyStack)
            } else {
                Ok((self.advance(1, self.stack.drop_last()), Step::Continue))
            },
            Instruction::Negate | Instruction::Not => if depth < 1 {
                Err(Error::EmptyStack)
            } else {
                let value = self.stack.last();
                self.settle(
                    instruction,
                    unary(instruction, value),
                    None,
                    value,
                    self.stack.drop_last(),
                )
            },
            Instruction::Jump => match operand(chunk.code, self.current) {
                Err(error) => Err(error),
                Ok(target) => Ok(
                    (MachineView { current: target, stack: self.stack }, Step::Continue),
                ),
            },
            Instruction::JumpIf => match operand(chunk.code, self.current) {
                Err(error) => Err(error),
                Ok(target) => if depth < 1 {
                    Err(Error::EmptyStack)
                } else {
                    match self.stack.last() {
                        Value::Bool(true) => Ok(
                            (
                                MachineView { current: target, stack: self.stack.drop_last() },
                                Step::Continue,
                            ),
                        ),
                        Value::Bool(false) => Ok(
                            (self.advance(9, self.stack.drop_last()), Step::Continue),
                        ),
                        _ => Err(Error::InvalidType),
                    }
                },
            },
            Instruction::Return => if depth < 1 {
                Err(Error::EmptyStack)
            } else {
                Ok((self.advance(1, self.stack.drop_last()), Step::Return(self.stack.last())))
            },
            _ => if depth < 2 {
                Err(Error::EmptyStack)
            } else {
                let right = self.stack[depth - 1];
                let left = self.stack[depth - 2];
                self.settle(
                    instruction,
                    binary(instruction, left, right),
                    Some(left),
                    right,
                    self.stack.subrange(0, depth - 2),
                )
            },
        }
    }

    /// One instruction: the byte at `self.current` is decoded and performed.
    pub open spec fn step(self, chunk: ChunkView) -> Result<(MachineView, Step), Error> {
        if self.current >= chunk.code.len() {
            Err(Error::SegmentationFault(self.current))
        } else {
            let byte = chunk.code[self.current as int];
            match Instruction::decode(byte) {
                None => Err(Error::InvalidInstruction(byte)),
                Some(instruction) => self.perform(chunk, instruction),
            }
        }
    }

    /// At most `limit` instructions, one after another, until one of them
    /// returns, defers or fails.
    pub open spec fn run(self, chunk: ChunkView, limit: nat) -> Result<(MachineView, Step), Error>
        decreases limit,
    {
        if limit == 0 {
            Ok((self, Step::Continue))
        } else {
            match self.step(chunk) {
                Ok((next, Step::Continue)) => next.run(chunk, (limit - 1) as nat),
                other => other,
            }
        }
    }

    /// The state in which every run begins.
    pub open spec fn initial() -> MachineView {
        MachineView { current: 0, stack: Seq::empty() }
    }
}

/// Whether the instruction is one of the four operations of arithmetic.
pub open spec fn is_arithmetic(instruction: Instruction) -> bool {
    instruction is Add || instruction is Subtract || instruction is Multiply
        || instruction is Divide
}

/// Whether the instruction compares or tests for equality.
pub open spec fn is_test(instruction: Instruction) -> bool {
    is_numeric(instruction) && !is_arithmetic(instruction)
}

/// The table of operand types. Two whole numbers are computed by the
/// machine, with a whole number for arithmetic and a truth value for a
/// test; two numbers of which one is a double go to the caller, whatever
/// the other is; truth values are taken by `==`, `!=`, `&&`, `||` and
/// `!` alone, whose results are truth values; and every other operand is
/// an error of type.
pub proof fn operators_follow_the_table(instruction: Instruction, left: Value, right: Value)
    ensures
        is_arithmetic(instruction) && left is Int && right is Int ==> (binary(
            instruction,
            left,
            right,
        ) matches Verdict::Done(value) ==> value is Int),
        is_arithmetic(instruction) && left is Int && right is Int && !(instruction is Divide)
            ==> binary(instruction, left, right) is Done,
        is_test(instruction) && left is Int && right is Int ==> (binary(
            instruction,
            left,
            right,
        ) matches Verdict::Done(value) && value is Bool),
        is_numeric(instruction) && left.is_number() && right.is_number() && (left is Float
            || right is Float) ==> binary(instruction, left, right) is Host,
        is_numeric(instruction) && !(instruction is Equal || instruction is NotEqual) && (
        !left.is_number() || !right.is_number()) ==> binary(instruction, left, right)
            == Verdict::Fault(Error::InvalidType),
        (instruction is Equal || instruction is NotEqual) && left is Bool && right is Bool ==> (
        binary(instruction, left, right) matches Verdict::Done(value) && value is Bool),
        (instruction is Equal || instruction is NotEqual) && (left.is_number() != right.is_number()
            || left is Unit || right is Unit) ==> binary(instruction, left, right)
            == Verdict::Fault(Error::InvalidType),
        (instruction is And || instruction is Or) && left is Bool && right is Bool ==> (binary(
            instruction,
            left,
            right,
        ) matches Verdict::Done(value) && value is Bool),
        (instruction is And || instruction is Or) && !(left is Bool && right is Bool) ==> binary(
            instruction,
            left,
            right,
        ) == Verdict::Fault(Error::InvalidType),
        unary(Instruction::Negate, left) == match left {
            Value::Int(value) => Verdict::Done(Value::Int(0i64.wrapping_sub(value))),
            Value::Float(_) => Verdict::Host,
            _ => Verdict::Fault(Error::InvalidType),
        },
        unary(Instruction::Not, left) == match left {
            Value::Bool(flag) => Verdict::Done(Value::Bool(!flag)),
            _ => Verdict::Fault(Error::InvalidType),
        },
{
}

/// The stack machine. It may run any number of chunks, one after another.
#[derive(Debug)]
pub struct Machine {
    current: u64,
    stack: Vec<Value>,
}

impl View for Machine {
    type V = MachineView;

    closed spec fn view(&self) -> MachineView {
        MachineView { current: self.current, stack: self.stack@ }
    }
}

/// Decides `Negate` and `Not` on an operand.
fn apply_unary(instruction: Instruction, operand: Value) -> (verdict: Verdict)
    ensures
        verdict == unary(instruction, operand),
{
    match (instruction, operand) {
        (Instruction::Negate, Value::Int(value)) => Verdict::Done(
            Value::Int(0i64.wrapping_sub(value)),
        ),
        (Instruction::Negate, Value::Float(_)) => Verdict::Host,
        (Instruction::Not, Value::Bool(flag)) => Verdict::Done(Value::Bool(!flag)),
        _ => Verdict::Fault(Error::InvalidType),
    }
}

/// Decides a binary operator on two `Int`s.
fn apply_on_ints(instruction: Instruction, left: i64, right: i64) -> (verdict: Verdict)
    ensures
        verdict == on_ints(instruction, left, right),
{
    match instruction {
        Instruction::Add => Verdict::Done(Value::Int(left.wrapping_add(right))),
        Instruction::Subtract => Verdict::Done(Value::Int(left.wrapping_sub(right))),
        Instruction::Multiply => Verdict::Done(Value::Int(left.wrapping_mul(right))),
        Instruction::Divide => if right == 0 {
            Verdict::Fault(Error::DivisionByZero)
        } else {
            match left.checked_div(right) {
                Some(value) => Verdict::Done(Value::Int(value)),
                None => Verdict::Done(Value::Int(i64::MIN)),
            }
        },
        Instruction::Greater => Verdict::Done(Value::Bool(left > right)),
        Instruction::GreaterEqual => Verdict::Done(Value::Bool(left >= right)),
        Instruction::Less => Verdict::Done(Value::Bool(left < right)),
        Instruction::LessEqual => Verdict::Done(Value::Bool(left <= right)),
        Instruction::Equal => Verdict::Done(Value::Bool(left == right)),
        Instruction::NotEqual => Verdict::Done(Value::Bool(left != right)),
        _ => Verdict::Fault(Error::InvalidType),
    }
}

/// Decides a binary operator on two `Bool`s.
fn apply_on_bools(instruction: Instruction, left: bool, right: bool) -> (verdict: Verdict)
    ensures
        verdict == on_bools(instruction, left, right),
{
    match instruction {
        Instruction::Equal => Verdict::Done(Value::Bool(left == right)),
        Instruction::NotEqual => Verdict::Done(Value::Bool(left != right)),
        Instruction::And => Verdict::Done(Value::Bool(left && right)),
        Instruction::Or => Verdict::Done(Value::Bool(left || right)),
        _ => Verdict::Fault(Error::InvalidType),
    }
}

/// Tells whether the instruction takes two numbers.
fn takes_numbers(instruction: Instruction) -> (numeric: bool)
    ensures
        numeric == is_numeric(instruction),
{
    match instruction {
        Instruction::Add
        | Instruction::Subtract
        | Instruction::Multiply
        | Instruction::Divide
        | Instruction::Greater
        | Instruction::GreaterEqual
        | Instruction::Less
        | Instruction::LessEqual
        | Instruction::Equal
        | Instruction::NotEqual => true,
        _ => false,
    }
}

/// Decides a binary operator on its operands.
fn apply_binary(instruction: Instruction, left: Value, right: Value) -> (verdict: Verdict)
    ensures
        verdict == binary(instruction, left, right),
{
    match (left, right) {
        (Value::Int(l), Value::Int(r)) => apply_on_ints(instruction, l, r),
        (Value::Bool(l), Value::Bool(r)) => apply_on_bools(instruction, l, r),
        (Value::Int(_), Value::Float(_))
        | (Value::Float(_), Value::Int(_))
        | (Value::Float(_), Value::Float(_)) => if takes_numbers(instruction) {
            Verdict::Host
        } else {
            Verdict::Fault(Error::InvalidType)
        },
        _ => Verdict::Fault(Error::InvalidType),
    }
}

/// Reads the operand of the instruction at `current`.
fn read_operand(code: &[u8], current: u64) -> (result: Result<u64, Error>)
    requires
        current < code@.len(),
    ensures
        result == operand(code@, current),
{
    let at = current as usize;
    if code.len() - at < 9 {
        Err(Error::SegmentationFault(code.len() as u64))
    } else {
        Ok(u64_from_le_bytes(slice_subrange(code, at + 1, at + 9)))
    }
}

impl Machine {
    /// A machine at the start of a run: at offset 0, with an empty stack.
    pub fn new() -> (machine: Machine)
        ensures
            machine@ == MachineView::initial(),
    {
        let machine = Machine { current: 0, stack: Vec::new() };
        assert(machine.stack@ =~= Seq::empty());
        machine
    }

    /// The offset of the next instruction.
    pub fn current(&self) -> (current: u64)
        ensures
            current == self@.current,
    {
        self.current
    }

    /// The operand stack, bottom first.
    pub fn stack(&self) -> (stack: &[Value])
        ensures
            stack@ == self@.stack,
    {
        self.stack.as_slice()
    }

    /// Takes the result of a deferred operation: it is pushed, as the
    /// machine would have pushed what it computes itself.
    pub fn resume(&mut self, value: Value)
        ensures
            final(self)@ == (MachineView { stack: old(self)@.stack.push(value), ..old(self)@ }),
    {
        self.stack.push(value);
    }

    /// Leaves `rest` of the stack, pushes what the verdict gives, and moves
    /// past the one-byte instruction.
    fn settle(
        &mut self,
        instruction: Instruction,
        verdict: Verdict,
        left: Option<Value>,
        right: Value,
        rest: usize,
    ) -> (result: Result<Step, Error>)
        requires
            rest <= old(self)@.stack.len(),
            old(self)@.current < u64::MAX,
        ensures
            match result {
                Ok(step) => old(self)@.settle(
                    instruction,
                    verdict,
                    left,
                    right,
                    old(self)@.stack.subrange(0, rest as int),
                ) == Ok::<(MachineView, Step), Error>((final(self)@, step)),
                Err(error) => old(self)@.settle(
                    instruction,
                    verdict,
                    left,
                    right,
                    old(self)@.stack.subrange(0, rest as int),
                ) == Err::<(MachineView, Step), Error>(error) && final(self)@ == old(self)@,
            },
    {
        match verdict {
            Verdict::Done(value) => {
                self.stack.truncate(rest);
                self.stack.push(value);
                self.current = self.current + 1;
                Ok(Step::Continue)
            },
            Verdict::Host => {
                self.stack.truncate(rest);
                self.current = self.current + 1;
                Ok(Step::Defer(Deferred { instruction, left, right }))
            },
            Verdict::Fault(error) => Err(error),
        }
    }

    /// Runs the instruction at the current offset. On an error the machine
    /// is left as it was.
    pub fn step(&mut self, chunk: &Chunk) -> (result: Result<Step, Error>)
        ensures
            match result {
                Ok(step) => old(self)@.step(chunk@) == Ok::<(MachineView, Step), Error>(
                    (final(self)@, step),
                ),
                Err(error) => old(self)@.step(chunk@) == Err::<(MachineView, Step), Error>(error)
                    && final(self)@ == old(self)@,
            },
    {
        let code = chunk.code();
        if self.current >= code.len() as u64 {
            return Err(Error::SegmentationFault(self.current));
        }
        let byte = code[self.current as usize];
        let instruction = match Instruction::from_u8(byte) {
            Some(instruction) => instruction,
            None => return Err(Error::InvalidInstruction(byte)),
        };
        let depth = self.stack.len();
        proof {
            assert(self.stack@.subrange(0, depth as int) == self.stack@);
            if depth >= 1 {
                assert(self.stack@.subrange(0, depth - 1) == self.stack@.drop_last());
            }
        }
        match instruction {
            Instruction::PushConstant => {
                let index = match read_operand(code, self.current) {
                    Ok(index) => index,
                    Err(error) => return Err(error),
                };
                let constants = chunk.constants();
                if index >= constants.len() as u64 {
                    return Err(Error::InvalidConstant(index));
                }
                self.stack.push(Value::from(constants[index as usize]));
                self.current = self.current + 9;
                Ok(Step::Continue)
            },
            Instruction::PushLocal => {
                let index = match read_operand(code, self.current) {
                    Ok(index) => index,
                    Err(error) => return Err(error),
                };
                if index >= depth as u64 {
                    return Err(Error::InvalidLocal(index));
                }
                let value = self.stack[index as usize];
                self.stack.push(value);
                self.current = self.current + 9;
                Ok(Step::Continue)
            },
            Instruction::PushUnit => {
                self.stack.push(Value::Unit);
                self.current = self.current + 1;
                Ok(Step::Continue)
            },
            Instruction::Pop => {
                if depth < 1 {
                    return Err(Error::EmptyStack);
                }
                self.stack.truncate(depth - 1);
                self.current = self.current + 1;
                Ok(Step::Continue)
            },
            Instruction::Negate | Instruction::Not => {
                if depth < 1 {
                    return Err(Error::EmptyStack);
                }
                let value = self.stack[depth - 1];
                let verdict = apply_unary(instruction, value);
                self.settle(instruction, verdict, None, value, depth - 1)
            },
            Instruction::Jump => {
                let target = match read_operand(code, self.current) {
                    Ok(target) => target,
                    Err(error) => return Err(error),
                };
                self.current = target;
                Ok(Step::Continue)
            },
            Instruction::JumpIf => {
                let target = match read_operand(code, self.current) {
                    Ok(target) => target,
                    Err(error) => return Err(error),
                };
                if depth < 1 {
                    return Err(Error::EmptyStack);
                }
                match self.stack[depth - 1] {
                    Value::Bool(true) => {
                        self.stack.truncate(depth - 1);
                        self.current = target;
                        Ok(Step::Continue)
                    },
                    Value::Bool(false) => {
                        self.stack.truncate(depth - 1);
                        self.current = self.current + 9;
                        Ok(Step::Continue)
                    },
                    _ => Err(Error::InvalidType),
                }
            },
            Instruction::Return => {
                if depth < 1 {
                    return Err(Error::EmptyStack);
                }
                let value = self.stack[depth - 1];
                self.stack.truncate(depth - 1);
                self.current = self.current + 1;
                Ok(Step::Return(value))
            },
            _ => {
                if depth < 2 {
                    return Err(Error::EmptyStack);
                }
                let right = self.stack[depth - 1];
                let left = self.stack[depth - 2];
                let verdict = apply_binary(instruction, left, right);
                self.settle(instruction, verdict, Some(left), right, depth - 2)
            },
        }
    }

    /// Goes on from the current state for at most `limit` instructions. It
    /// stops early where an instruction returns, defers or fails; where the
    /// limit is reached, the answer is `Continue`.
    pub fn proceed(&mut self, chunk: &Chunk, limit: u64) -> (result: Result<Step, Error>)
        ensures
            match result {
                Ok(step) => old(self)@.run(chunk@, limit as nat) == Ok::<
                    (MachineView, Step),
                    Error,
                >((final(self)@, step)),
                Err(error) => old(self)@.run(chunk@, limit as nat) == Err::<
                    (MachineView, Step),
                    Error,
                >(error),
            },
    {
        let mut left = limit;
        while left > 0
            invariant
                old(self)@.run(chunk@, limit as nat) == self@.run(chunk@, left as nat),
            decreases left,
        {
            match self.step(chunk) {
                Ok(Step::Continue) => {
                    left -= 1;
                },
                Ok(step) => {
                    return Ok(step);
                },
                Err(error) => {
                    return Err(error);
                },
            }
        }
        Ok(Step::Continue)
    }

    /// Runs `chunk` from its first instruction on an empty stack, for at
    /// most `limit` instructions.
    pub fn execute(&mut self, chunk: &Chunk, limit: u64) -> (result: Result<Step, Error>)
        ensures
            match result {
                Ok(step) => MachineView::initial().run(chunk@, limit as nat) == Ok::<
                    (MachineView, Step),
                    Error,
                >((final(self)@, step)),
                Err(error) => MachineView::initial().run(chunk@, limit as nat) == Err::<
                    (MachineView, Step),
                    Error,
                >(error),
            },
    {
        self.current = 0;
        self.stack.clear();
        assert(self.stack@ =~= Seq::empty());
        self.proceed(chunk, limit)
    }
}

} // verus!
