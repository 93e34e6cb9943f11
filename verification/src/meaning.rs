//! What generated code computes.
//!
//! The meaning of a function's body is stated here without reference to
//! code, for bodies that are a sequence of bindings and expressions of
//! whole numbers, truth values and names (literals, names that are bound,
//! operators, and `if` with an `else`, each branch one expression). The
//! theorem, [`code_computes_meaning`], is that the machine that runs the
//! chunk generated for such a body returns the body's value, or fails as
//! the body does. [`evaluate`] generates and runs, and has the theorem as
//! its contract.
//!
//! Doubles, loops, calls, and blocks that bind names within an `if` are
//! given no meaning here.

use crate::executable::{latest_slot, le_bytes, ChunkView, Constant};
use crate::gen::{
    binary_instruction, block_layout, chunk_layout, expression_layout, if_layout, needs_unit,
    plain, statement_layout, statements_layout, unary_instruction, with_operand, Emitted,
    GenerateError, Tables,
};
use crate::gen::Generator;
use crate::instruction::Instruction;
use crate::ir::{Block, ElseView, ExpressionView, IfView, LiteralExpression, StatementView};
use crate::machine::{binary, unary, Error, Machine, MachineView, Step, Verdict};
use crate::value::Value;
use vstd::bytes::lemma_auto_spec_u64_to_from_le_bytes;
use vstd::prelude::*;

verus! {

/// Whether a block is one expression without a semicolon, of the kind
/// that [`is_plain`] describes.
pub open spec fn is_plain_block(statements: Seq<StatementView>, locals: Seq<usize>) -> bool
    decreases statements, 1nat,
{
    statements.len() == 1 && match statements[0] {
        StatementView::Expression { expression, has_semicolon } => !has_semicolon && is_plain(
            expression,
            locals,
        ),
        StatementView::Bind { .. } => false,
    }
}

/// Whether an `if` has an `else`, and its condition and branches are of
/// the kind that [`is_plain`] describes.
pub open spec fn is_plain_if(if_expression: IfView, locals: Seq<usize>) -> bool
    decreases if_expression, 0nat,
{
    &&& is_plain(*if_expression.condition, locals)
    &&& is_plain_block(if_expression.body, locals)
    &&& match if_expression.else_body {
        Some(ElseView::Else(block)) => is_plain_block(block, locals),
        Some(ElseView::If(nested)) => is_plain_if(*nested, locals),
        None => false,
    }
}

/// Whether an expression is made of whole numbers, truth values, names
/// that `locals` binds, operators, and `if` with `else`.
pub open spec fn is_plain(expression: ExpressionView, locals: Seq<usize>) -> bool
    decreases expression, 0nat,
{
    match expression {
        ExpressionView::Literal(LiteralExpression::Int(_)) => true,
        ExpressionView::Literal(LiteralExpression::Bool(_)) => true,
        ExpressionView::Literal(LiteralExpression::Identifier(name)) => latest_slot(locals, name)
            is Some,
        ExpressionView::Unary { operand, .. } => is_plain(*operand, locals),
        ExpressionView::Binary { left_operand, right_operand, .. } => is_plain(
            *left_operand,
            locals,
        ) && is_plain(*right_operand, locals),
        ExpressionView::If(if_expression) => is_plain_if(if_expression, locals),
        _ => false,
    }
}

/// The expression that a plain block is.
pub open spec fn only(statements: Seq<StatementView>) -> ExpressionView
    recommends
        statements.len() == 1,
        statements[0] is Expression,
{
    statements[0]->Expression_expression
}

/// What evaluating comes to: the value or the error, and the number of
/// instructions that it takes.
pub struct Evaluated {
    pub result: Result<Value, Error>,
    pub steps: nat,
}

/// What an operator makes of values that are no doubles.
pub open spec fn applied(verdict: Verdict) -> Result<Value, Error> {
    match verdict {
        Verdict::Done(value) => Ok(value),
        Verdict::Fault(error) => Err(error),
        Verdict::Host => Err(Error::InvalidType),
    }
}

/// The names that are bound, with the values that they are bound to: the
/// value of the local in slot `i` is `values[i]`.
pub struct Frame {
    pub locals: Seq<usize>,
    pub values: Seq<Value>,
}

/// The value of a plain block.
pub open spec fn block_meaning(statements: Seq<StatementView>, frame: Frame) -> Evaluated
    decreases statements, 1nat,
{
    if is_plain_block(statements, frame.locals) {
        meaning(only(statements), frame)
    } else {
        Evaluated { result: Err(Error::InvalidType), steps: 0 }
    }
}

/// The value of a plain `if`: that of the body if the condition is true,
/// that of what follows `else` if it is false. A condition that is no
/// truth value is an error of type.
pub open spec fn if_meaning(if_expression: IfView, frame: Frame) -> Evaluated
    decreases if_expression, 0nat,
{
    let test = meaning(*if_expression.condition, frame);
    match test.result {
        Err(error) => test,
        Ok(Value::Bool(true)) => {
            let body = block_meaning(if_expression.body, frame);
            Evaluated { result: body.result, steps: test.steps + 1 + body.steps }
        },
        Ok(Value::Bool(false)) => {
            let other = match if_expression.else_body {
                Some(ElseView::Else(block)) => block_meaning(block, frame),
                Some(ElseView::If(nested)) => if_meaning(*nested, frame),
                None => Evaluated { result: Err(Error::InvalidType), steps: 0 },
            };
            match other.result {
                Err(error) => Evaluated { result: other.result, steps: test.steps + 1 + other.steps },
                Ok(_) => Evaluated { result: other.result, steps: test.steps + 1 + other.steps + 1 },
            }
        },
        Ok(_) => Evaluated { result: Err(Error::InvalidType), steps: test.steps + 1 },
    }
}

/// The value of a plain expression. A name has the value that its latest
/// binding gave it. The operands of an operator are evaluated from left
/// to right, both of them always; whole numbers wrap, and dividing by
/// zero is an error.
pub open spec fn meaning(expression: ExpressionView, frame: Frame) -> Evaluated
    decreases expression, 0nat,
{
    match expression {
        ExpressionView::Literal(LiteralExpression::Identifier(name)) => match latest_slot(
            frame.locals,
            name,
        ) {
            Some(slot) => Evaluated { result: Ok(frame.values[slot as int]), steps: 1 },
            None => Evaluated { result: Err(Error::InvalidType), steps: 0 },
        },
        ExpressionView::Literal(LiteralExpression::Int(value)) => Evaluated {
            result: Ok(Value::Int(value)),
            steps: 1,
        },
        ExpressionView::Literal(LiteralExpression::Bool(flag)) => Evaluated {
            result: Ok(Value::Bool(flag)),
            steps: 1,
        },
        ExpressionView::Unary { operator, operand } => {
            let inner = meaning(*operand, frame);
            match inner.result {
                Err(error) => inner,
                Ok(value) => Evaluated {
                    result: applied(unary(unary_instruction(operator), value)),
                    steps: inner.steps + 1,
                },
            }
        },
        ExpressionView::Binary { left_operand, operator, right_operand } => {
            let left = meaning(*left_operand, frame);
            match left.result {
                Err(error) => left,
                Ok(first) => {
                    let right = meaning(*right_operand, frame);
                    match right.result {
                        Err(error) => Evaluated {
                            result: right.result,
                            steps: left.steps + right.steps,
                        },
                        Ok(second) => Evaluated {
                            result: applied(binary(binary_instruction(operator), first, second)),
                            steps: left.steps + right.steps + 1,
                        },
                    }
                },
            }
        },
        ExpressionView::If(if_expression) => if_meaning(if_expression, frame),
        _ => Evaluated { result: Err(Error::InvalidType), steps: 0 },
    }
}

/// Whether `code` stands in `whole` at offset `base`.
pub open spec fn stands_at(whole: Seq<u8>, base: int, code: Seq<u8>) -> bool {
    &&& 0 <= base
    &&& base + code.len() <= whole.len()
    &&& whole.subrange(base, base + code.len()) == code
}

/// Whether `prefix` is how `whole` begins.
pub open spec fn begins_with<T>(whole: Seq<T>, prefix: Seq<T>) -> bool {
    prefix.len() <= whole.len() && whole.subrange(0, prefix.len() as int) == prefix
}

/// Where two stretches of code stand one after the other, each stands.
pub proof fn stands_in_parts(whole: Seq<u8>, base: int, first: Seq<u8>, second: Seq<u8>)
    requires
        stands_at(whole, base, first + second),
    ensures
        stands_at(whole, base, first),
        stands_at(whole, base + first.len(), second),
{
    let both = first + second;
    assert(whole.subrange(base, base + first.len()) =~= both.subrange(0, first.len() as int));
    assert(both.subrange(0, first.len() as int) =~= first);
    assert(whole.subrange(base + first.len(), base + first.len() + second.len())
        =~= both.subrange(first.len() as int, both.len() as int));
    assert(both.subrange(first.len() as int, both.len() as int) =~= second);
}

/// Running for `first + second` instructions is running for `first` and,
/// if that neither returned nor deferred nor failed, for `second` more.
pub proof fn run_in_parts(state: MachineView, chunk: ChunkView, first: nat, second: nat)
    ensures
        state.run(chunk, first + second) == match state.run(chunk, first) {
            Ok((next, Step::Continue)) => next.run(chunk, second),
            other => other,
        },
    decreases first,
{
    if first > 0 {
        match state.step(chunk) {
            Ok((next, Step::Continue)) => {
                run_in_parts(next, chunk, (first - 1) as nat, second);
                assert(state.run(chunk, first + second) == next.run(
                    chunk,
                    (first + second - 1) as nat,
                ));
            },
            _ => {},
        }
    }
}

/// Whether the lengths of a chunk fit the operands that speak of them.
pub open spec fn fits(chunk: ChunkView) -> bool {
    chunk.code.len() <= u64::MAX && chunk.constants.len() <= u64::MAX
}

/// Whether a value is a whole number or a truth value.
pub open spec fn is_simple(value: Value) -> bool {
    value is Int || value is Bool
}

/// The machine after it ran code of `width` bytes that left `stack`.
pub open spec fn past(state: MachineView, width: int, stack: Seq<Value>) -> MachineView {
    MachineView { current: (state.current + width) as u64, stack }
}

/// An instruction that stands in the code is the one that is decoded
/// there, with its operand.
pub proof fn instruction_is_decoded(
    chunk: ChunkView,
    state: MachineView,
    instruction: Instruction,
    operand: int,
)
    requires
        fits(chunk),
        0 <= operand <= u64::MAX,
        instruction.has_operand(),
        stands_at(chunk.code, state.current as int, with_operand(instruction, operand)),
    ensures
        state.current + 9 <= chunk.code.len(),
        Instruction::decode(chunk.code[state.current as int]) == Some(instruction),
        crate::machine::operand(chunk.code, state.current) == Ok::<u64, Error>(operand as u64),
        state.step(chunk) == state.perform(chunk, instruction),
{
    lemma_auto_spec_u64_to_from_le_bytes();
    let code = with_operand(instruction, operand);
    let base = state.current as int;
    assert(code.len() == 9);
    assert(chunk.code[base] == chunk.code.subrange(base, base + 9)[0]);
    assert(code[0] == instruction.opcode());
    assert(chunk.code.subrange(base + 1, base + 9) =~= code.subrange(1, 9));
    assert(code.subrange(1, 9) =~= le_bytes(operand as u64));
}

/// An instruction without an operand that stands in the code is the one
/// that is decoded there.
pub proof fn plain_is_decoded(chunk: ChunkView, state: MachineView, instruction: Instruction)
    requires
        fits(chunk),
        stands_at(chunk.code, state.current as int, plain(instruction)),
    ensures
        state.current + 1 <= chunk.code.len(),
        Instruction::decode(chunk.code[state.current as int]) == Some(instruction),
        state.step(chunk) == state.perform(chunk, instruction),
{
    let base = state.current as int;
    assert(chunk.code[base] == chunk.code.subrange(base, base + 1)[0]);
}

/// A plain block is laid out as its one expression is.
pub proof fn plain_block_is_its_expression(
    statements: Seq<StatementView>,
    base: int,
    tables: Tables,
)
    requires
        statements.len() == 1,
        statements[0] matches StatementView::Expression { has_semicolon, .. } && !has_semicolon,
    ensures
        match expression_layout(only(statements), base, tables) {
            Ok(emitted) => block_layout(statements, base, tables) == Ok::<Emitted, GenerateError>(
                emitted,
            ),
            Err(error) => block_layout(statements, base, tables) == Err::<Emitted, GenerateError>(
                error,
            ),
        },
{
    let first = statements_layout(statements, 0, base, tables);
    assert(first == Ok::<Emitted, GenerateError>(Emitted { code: Seq::empty(), tables }));
    let all = statements_layout(statements, 1, base, tables);
    match expression_layout(only(statements), base, tables) {
        Ok(emitted) => {
            assert(statement_layout(statements[0], base, tables) == Ok::<Emitted, GenerateError>(
                emitted,
            ));
            assert(Seq::<u8>::empty() + emitted.code =~= emitted.code);
            assert(all == Ok::<Emitted, GenerateError>(emitted));
        },
        Err(error) => {
            assert(statement_layout(statements[0], base, tables) == Err::<Emitted, GenerateError>(
                error,
            ));
        },
    }
}

/// Running for one instruction is one step.
pub proof fn run_of_one(state: MachineView, chunk: ChunkView)
    ensures
        state.run(chunk, 1) == state.step(chunk),
{
    reveal_with_fuel(MachineView::run, 2);
}

/// The step of a `PushConstant` that stands at the machine's offset.
pub proof fn constant_is_pushed(chunk: ChunkView, state: MachineView, index: int)
    requires
        fits(chunk),
        0 <= index < chunk.constants.len(),
        stands_at(
            chunk.code,
            state.current as int,
            with_operand(Instruction::PushConstant, index),
        ),
    ensures
        state.run(chunk, 1) == Ok::<(MachineView, Step), Error>(
            (past(state, 9, state.stack.push(Value::of(chunk.constants[index]))), Step::Continue),
        ),
{
    run_of_one(state, chunk);
    instruction_is_decoded(chunk, state, Instruction::PushConstant, index);
}

/// The step of a unary operator that stands at the machine's offset,
/// on a stack whose top is no double.
pub proof fn unary_is_applied(
    chunk: ChunkView,
    state: MachineView,
    instruction: Instruction,
    rest: Seq<Value>,
    operand: Value,
)
    requires
        fits(chunk),
        instruction is Negate || instruction is Not,
        is_simple(operand),
        state.stack == rest.push(operand),
        stands_at(chunk.code, state.current as int, plain(instruction)),
    ensures
        state.run(chunk, 1) == match applied(unary(instruction, operand)) {
            Ok(value) => Ok::<(MachineView, Step), Error>(
                (past(state, 1, rest.push(value)), Step::Continue),
            ),
            Err(error) => Err(error),
        },
        applied(unary(instruction, operand)) matches Ok(value) ==> is_simple(value),
{
    run_of_one(state, chunk);
    plain_is_decoded(chunk, state, instruction);
    assert(state.stack.drop_last() =~= rest);
    assert(state.stack.last() == operand);
}

/// The step of a binary operator that stands at the machine's offset,
/// on a stack whose two topmost values are no doubles.
pub proof fn binary_is_applied(
    chunk: ChunkView,
    state: MachineView,
    instruction: Instruction,
    rest: Seq<Value>,
    left: Value,
    right: Value,
)
    requires
        fits(chunk),
        crate::machine::is_binary(instruction),
        is_simple(left),
        is_simple(right),
        state.stack == rest.push(left).push(right),
        stands_at(chunk.code, state.current as int, plain(instruction)),
    ensures
        state.run(chunk, 1) == match applied(binary(instruction, left, right)) {
            Ok(value) => Ok::<(MachineView, Step), Error>(
                (past(state, 1, rest.push(value)), Step::Continue),
            ),
            Err(error) => Err(error),
        },
        applied(binary(instruction, left, right)) matches Ok(value) ==> is_simple(value),
{
    run_of_one(state, chunk);
    plain_is_decoded(chunk, state, instruction);
    let depth = state.stack.len() as int;
    assert(state.stack.subrange(0, depth - 2) =~= rest);
    assert(state.stack[depth - 1] == right);
    assert(state.stack[depth - 2] == left);
}

/// The step of a `JumpIf` that stands at the machine's offset, on a stack
/// whose top is no double.
pub proof fn jump_is_taken_if(
    chunk: ChunkView,
    state: MachineView,
    target: int,
    rest: Seq<Value>,
    condition: Value,
)
    requires
        fits(chunk),
        0 <= target <= u64::MAX,
        state.stack == rest.push(condition),
        stands_at(chunk.code, state.current as int, with_operand(Instruction::JumpIf, target)),
    ensures
        state.run(chunk, 1) == match condition {
            Value::Bool(true) => Ok::<(MachineView, Step), Error>(
                (MachineView { current: target as u64, stack: rest }, Step::Continue),
            ),
            Value::Bool(false) => Ok((past(state, 9, rest), Step::Continue)),
            _ => Err(Error::InvalidType),
        },
{
    run_of_one(state, chunk);
    instruction_is_decoded(chunk, state, Instruction::JumpIf, target);
    assert(state.stack.drop_last() =~= rest);
    assert(state.stack.last() == condition);
}

/// The step of a `Jump` that stands at the machine's offset.
pub proof fn jump_is_taken(chunk: ChunkView, state: MachineView, target: int)
    requires
        fits(chunk),
        0 <= target <= u64::MAX,
        stands_at(chunk.code, state.current as int, with_operand(Instruction::Jump, target)),
    ensures
        state.run(chunk, 1) == Ok::<(MachineView, Step), Error>(
            (MachineView { current: target as u64, stack: state.stack }, Step::Continue),
        ),
{
    run_of_one(state, chunk);
    instruction_is_decoded(chunk, state, Instruction::Jump, target);
}

/// The step of a `Return` that stands at the machine's offset.
pub proof fn top_is_returned(chunk: ChunkView, state: MachineView, rest: Seq<Value>, value: Value)
    requires
        fits(chunk),
        state.stack == rest.push(value),
        stands_at(chunk.code, state.current as int, plain(Instruction::Return)),
    ensures
        state.run(chunk, 1) == Ok::<(MachineView, Step), Error>(
            (past(state, 1, rest), Step::Return(value)),
        ),
{
    run_of_one(state, chunk);
    plain_is_decoded(chunk, state, Instruction::Return);
    assert(state.stack.drop_last() =~= rest);
    assert(state.stack.last() == value);
}

/// The step of a `PushLocal` that stands at the machine's offset.
pub proof fn local_is_pushed(chunk: ChunkView, state: MachineView, slot: int)
    requires
        fits(chunk),
        0 <= slot < state.stack.len(),
        slot <= u64::MAX,
        stands_at(chunk.code, state.current as int, with_operand(Instruction::PushLocal, slot)),
    ensures
        state.run(chunk, 1) == Ok::<(MachineView, Step), Error>(
            (past(state, 9, state.stack.push(state.stack[slot])), Step::Continue),
        ),
{
    run_of_one(state, chunk);
    instruction_is_decoded(chunk, state, Instruction::PushLocal, slot);
}

/// The step of a `Pop` that stands at the machine's offset.
pub proof fn top_is_popped(chunk: ChunkView, state: MachineView, rest: Seq<Value>, value: Value)
    requires
        fits(chunk),
        state.stack == rest.push(value),
        stands_at(chunk.code, state.current as int, plain(Instruction::Pop)),
    ensures
        state.run(chunk, 1) == Ok::<(MachineView, Step), Error>(
            (past(state, 1, rest), Step::Continue),
        ),
{
    run_of_one(state, chunk);
    plain_is_decoded(chunk, state, Instruction::Pop);
    assert(state.stack.drop_last() =~= rest);
}

/// The step of a `PushUnit` that stands at the machine's offset.
pub proof fn unit_is_pushed(chunk: ChunkView, state: MachineView)
    requires
        fits(chunk),
        stands_at(chunk.code, state.current as int, plain(Instruction::PushUnit)),
    ensures
        state.run(chunk, 1) == Ok::<(MachineView, Step), Error>(
            (past(state, 1, state.stack.push(Value::Unit)), Step::Continue),
        ),
{
    run_of_one(state, chunk);
    plain_is_decoded(chunk, state, Instruction::PushUnit);
}

/// The outcome of running code of `width` bytes that evaluates to
/// `evaluated`: the value is pushed and the machine is past the code, or
/// the run fails with the error.
pub open spec fn lands(state: MachineView, width: int, evaluated: Evaluated) -> Result<
    (MachineView, Step),
    Error,
> {
    match evaluated.result {
        Ok(value) => Ok((past(state, width, state.stack.push(value)), Step::Continue)),
        Err(error) => Err(error),
    }
}

/// Whether the locals of a frame are the lowest slots of a stack, each
/// with a value that is no double.
pub open spec fn holds(stack: Seq<Value>, frame: Frame) -> bool {
    &&& frame.values.len() == frame.locals.len()
    &&& begins_with(stack, frame.values)
    &&& forall|slot: int| 0 <= slot < frame.values.len() ==> is_simple(#[trigger] frame.values[slot])
}

/// A stack that holds a frame holds it with one value more on top.
pub proof fn holds_under(stack: Seq<Value>, value: Value, frame: Frame)
    requires
        holds(stack, frame),
    ensures
        holds(stack.push(value), frame),
{
    assert(stack.push(value).subrange(0, frame.values.len() as int) =~= stack.subrange(
        0,
        frame.values.len() as int,
    ));
}

/// The slot of a name that is bound is a slot of the frame.
pub proof fn slot_is_bound(locals: Seq<usize>, name: usize)
    ensures
        latest_slot(locals, name) matches Some(slot) ==> slot < locals.len(),
    decreases locals.len(),
{
    if locals.len() > 0 && locals.last() != name {
        slot_is_bound(locals.drop_last(), name);
    }
}

/// What begins with a sequence begins with what that sequence begins with.
pub proof fn begins_with_what_begins<T>(whole: Seq<T>, middle: Seq<T>, prefix: Seq<T>)
    requires
        begins_with(whole, middle),
        begins_with(middle, prefix),
    ensures
        begins_with(whole, prefix),
{
    assert(whole.subrange(0, prefix.len() as int) =~= middle.subrange(0, prefix.len() as int));
}

/// A plain expression has a layout, which binds no local and leaves the
/// constants that were there where they were.
pub proof fn plain_has_layout(expression: ExpressionView, base: int, tables: Tables)
    requires
        is_plain(expression, tables.locals),
    ensures
        expression_layout(expression, base, tables) is Ok,
        expression_layout(expression, base, tables)->Ok_0.tables.locals == tables.locals,
        begins_with(
            expression_layout(expression, base, tables)->Ok_0.tables.constants,
            tables.constants,
        ),
    decreases expression, 0nat,
{
    match expression {
        ExpressionView::Literal(literal) => {
            let grown = expression_layout(expression, base, tables)->Ok_0.tables.constants;
            assert(grown.subrange(0, tables.constants.len() as int) =~= tables.constants);
        },
        ExpressionView::Unary { operator, operand } => {
            plain_has_layout(*operand, base, tables);
        },
        ExpressionView::Binary { left_operand, operator, right_operand } => {
            plain_has_layout(*left_operand, base, tables);
            let left = expression_layout(*left_operand, base, tables)->Ok_0;
            plain_has_layout(*right_operand, base + left.code.len(), left.tables);
            let right = expression_layout(
                *right_operand,
                base + left.code.len(),
                left.tables,
            )->Ok_0;
            begins_with_what_begins(
                right.tables.constants,
                left.tables.constants,
                tables.constants,
            );
        },
        ExpressionView::If(if_expression) => {
            plain_if_has_layout(if_expression, base, tables);
        },
        _ => {},
    }
}

/// The same, of a plain block.
pub proof fn plain_block_has_layout(statements: Seq<StatementView>, base: int, tables: Tables)
    requires
        is_plain_block(statements, tables.locals),
    ensures
        block_layout(statements, base, tables) == expression_layout(
            only(statements),
            base,
            tables,
        ),
        block_layout(statements, base, tables) is Ok,
        block_layout(statements, base, tables)->Ok_0.tables.locals == tables.locals,
        begins_with(
            block_layout(statements, base, tables)->Ok_0.tables.constants,
            tables.constants,
        ),
    decreases statements, 1nat,
{
    plain_has_layout(only(statements), base, tables);
    plain_block_is_its_expression(statements, base, tables);
}

/// The same, of a plain `if`.
pub proof fn plain_if_has_layout(if_expression: IfView, base: int, tables: Tables)
    requires
        is_plain_if(if_expression, tables.locals),
    ensures
        if_layout(if_expression, base, tables) is Ok,
        if_layout(if_expression, base, tables)->Ok_0.tables.locals == tables.locals,
        begins_with(if_layout(if_expression, base, tables)->Ok_0.tables.constants, tables.constants),
    decreases if_expression, 0nat,
{
    plain_has_layout(*if_expression.condition, base, tables);
    let test = expression_layout(*if_expression.condition, base, tables)->Ok_0;
    let otherwise = base + test.code.len() + 9;
    let alternative = match if_expression.else_body {
        Some(ElseView::Else(block)) => {
            plain_block_has_layout(block, otherwise, test.tables);
            block_layout(block, otherwise, test.tables)->Ok_0
        },
        Some(ElseView::If(nested)) => {
            plain_if_has_layout(*nested, otherwise, test.tables);
            if_layout(*nested, otherwise, test.tables)->Ok_0
        },
        None => test,
    };
    let start = otherwise + alternative.code.len() + 9;
    plain_block_has_layout(if_expression.body, start, alternative.tables);
    let body = block_layout(if_expression.body, start, alternative.tables)->Ok_0;
    begins_with_what_begins(alternative.tables.constants, test.tables.constants, tables.constants);
    begins_with_what_begins(
        body.tables.constants,
        alternative.tables.constants,
        tables.constants,
    );
}

/// The machine that stands at the code of a plain expression, with the
/// frame at the bottom of its stack, and runs for as many instructions as
/// the evaluation takes pushes the expression's value and stands past the
/// code, or fails with the expression's error.
pub proof fn expression_runs(
    expression: ExpressionView,
    tables: Tables,
    frame: Frame,
    chunk: ChunkView,
    state: MachineView,
)
    requires
        fits(chunk),
        is_plain(expression, tables.locals),
        frame.locals == tables.locals,
        holds(state.stack, frame),
        stands_at(
            chunk.code,
            state.current as int,
            expression_layout(expression, state.current as int, tables)->Ok_0.code,
        ),
        begins_with(
            chunk.constants,
            expression_layout(expression, state.current as int, tables)->Ok_0.tables.constants,
        ),
    ensures
        state.run(chunk, meaning(expression, frame).steps) == lands(
            state,
            expression_layout(expression, state.current as int, tables)->Ok_0.code.len() as int,
            meaning(expression, frame),
        ),
        meaning(expression, frame).result matches Ok(value) ==> is_simple(value),
    decreases expression, 0nat,
{
    let base = state.current as int;
    plain_has_layout(expression, base, tables);
    let emitted = expression_layout(expression, base, tables)->Ok_0;
    match expression {
        ExpressionView::Literal(LiteralExpression::Identifier(name)) => {
            lemma_auto_spec_u64_to_from_le_bytes();
            slot_is_bound(tables.locals, name);
            let slot = latest_slot(tables.locals, name)->0 as int;
            assert(state.stack.subrange(0, frame.values.len() as int)[slot] == state.stack[slot]);
            local_is_pushed(chunk, state, slot);
        },
        ExpressionView::Literal(literal) => {
            let index = tables.constants.len() as int;
            let constant = match literal {
                LiteralExpression::Int(value) => Constant::Int(value),
                _ => Constant::Bool(literal->Bool_0),
            };
            lemma_auto_spec_u64_to_from_le_bytes();
            assert(emitted.tables.constants[index] == constant);
            assert(chunk.constants.subrange(0, index + 1)[index] == chunk.constants[index]);
            constant_is_pushed(chunk, state, index);
        },
        ExpressionView::Unary { operator, operand } => {
            let instruction = unary_instruction(operator);
            plain_has_layout(*operand, base, tables);
            let inner = expression_layout(*operand, base, tables)->Ok_0;
            stands_in_parts(chunk.code, base, inner.code, plain(instruction));
            expression_runs(*operand, tables, frame, chunk, state);
            let evaluated = meaning(*operand, frame);
            match evaluated.result {
                Err(_) => {},
                Ok(value) => {
                    let next = past(state, inner.code.len() as int, state.stack.push(value));
                    unary_is_applied(chunk, next, instruction, state.stack, value);
                    run_in_parts(state, chunk, evaluated.steps, 1);
                },
            }
        },
        ExpressionView::Binary { left_operand, operator, right_operand } => {
            let instruction = binary_instruction(operator);
            plain_has_layout(*left_operand, base, tables);
            let left = expression_layout(*left_operand, base, tables)->Ok_0;
            let middle = base + left.code.len();
            plain_has_layout(*right_operand, middle, left.tables);
            let right = expression_layout(*right_operand, middle, left.tables)->Ok_0;
            stands_in_parts(chunk.code, base, left.code + right.code, plain(instruction));
            stands_in_parts(chunk.code, base, left.code, right.code);
            begins_with_what_begins(
                chunk.constants,
                right.tables.constants,
                left.tables.constants,
            );
            expression_runs(*left_operand, tables, frame, chunk, state);
            let first = meaning(*left_operand, frame);
            match first.result {
                Err(_) => {},
                Ok(one) => {
                    let next = past(state, left.code.len() as int, state.stack.push(one));
                    holds_under(state.stack, one, frame);
                    expression_runs(*right_operand, left.tables, frame, chunk, next);
                    let second = meaning(*right_operand, frame);
                    run_in_parts(state, chunk, first.steps, second.steps);
                    match second.result {
                        Err(_) => {},
                        Ok(two) => {
                            let last = past(next, right.code.len() as int, next.stack.push(two));
                            binary_is_applied(chunk, last, instruction, state.stack, one, two);
                            run_in_parts(state, chunk, first.steps + second.steps, 1);
                        },
                    }
                },
            }
        },
        ExpressionView::If(if_expression) => {
            if_runs(if_expression, tables, frame, chunk, state);
        },
        _ => {},
    }
}

/// The same, of a plain block.
pub proof fn block_runs(
    statements: Seq<StatementView>,
    tables: Tables,
    frame: Frame,
    chunk: ChunkView,
    state: MachineView,
)
    requires
        fits(chunk),
        is_plain_block(statements, tables.locals),
        frame.locals == tables.locals,
        holds(state.stack, frame),
        stands_at(
            chunk.code,
            state.current as int,
            block_layout(statements, state.current as int, tables)->Ok_0.code,
        ),
        begins_with(
            chunk.constants,
            block_layout(statements, state.current as int, tables)->Ok_0.tables.constants,
        ),
    ensures
        state.run(chunk, block_meaning(statements, frame).steps) == lands(
            state,
            block_layout(statements, state.current as int, tables)->Ok_0.code.len() as int,
            block_meaning(statements, frame),
        ),
        block_meaning(statements, frame).result matches Ok(value) ==> is_simple(value),
    decreases statements, 1nat,
{
    plain_block_has_layout(statements, state.current as int, tables);
    expression_runs(only(statements), tables, frame, chunk, state);
}

/// The same, of a plain `if`: one branch runs, and the machine stands
/// past the whole of the code whichever it was.
pub proof fn if_runs(
    if_expression: IfView,
    tables: Tables,
    frame: Frame,
    chunk: ChunkView,
    state: MachineView,
)
    requires
        fits(chunk),
        is_plain_if(if_expression, tables.locals),
        frame.locals == tables.locals,
        holds(state.stack, frame),
        stands_at(
            chunk.code,
            state.current as int,
            if_layout(if_expression, state.current as int, tables)->Ok_0.code,
        ),
        begins_with(
            chunk.constants,
            if_layout(if_expression, state.current as int, tables)->Ok_0.tables.constants,
        ),
    ensures
        state.run(chunk, if_meaning(if_expression, frame).steps) == lands(
            state,
            if_layout(if_expression, state.current as int, tables)->Ok_0.code.len() as int,
            if_meaning(if_expression, frame),
        ),
        if_meaning(if_expression, frame).result matches Ok(value) ==> is_simple(value),
    decreases if_expression, 0nat,
{
    let base = state.current as int;
    plain_if_has_layout(if_expression, base, tables);
    plain_has_layout(*if_expression.condition, base, tables);
    let test = expression_layout(*if_expression.condition, base, tables)->Ok_0;
    let otherwise = base + test.code.len() + 9;
    let alternative = match if_expression.else_body {
        Some(ElseView::Else(block)) => {
            plain_block_has_layout(block, otherwise, test.tables);
            block_layout(block, otherwise, test.tables)->Ok_0
        },
        Some(ElseView::If(nested)) => {
            plain_if_has_layout(*nested, otherwise, test.tables);
            if_layout(*nested, otherwise, test.tables)->Ok_0
        },
        None => test,
    };
    let start = otherwise + alternative.code.len() + 9;
    plain_block_has_layout(if_expression.body, start, alternative.tables);
    let body = block_layout(if_expression.body, start, alternative.tables)->Ok_0;
    let end = start + body.code.len();
    let jump_if = with_operand(Instruction::JumpIf, start);
    let jump = with_operand(Instruction::Jump, end);
    let whole = if_layout(if_expression, base, tables)->Ok_0;
    assert(whole.code == test.code + jump_if + alternative.code + jump + body.code);
    lemma_auto_spec_u64_to_from_le_bytes();
    stands_in_parts(chunk.code, base, test.code + jump_if + alternative.code + jump, body.code);
    stands_in_parts(chunk.code, base, test.code + jump_if + alternative.code, jump);
    stands_in_parts(chunk.code, base, test.code + jump_if, alternative.code);
    stands_in_parts(chunk.code, base, test.code, jump_if);
    begins_with_what_begins(chunk.constants, body.tables.constants, alternative.tables.constants);
    begins_with_what_begins(chunk.constants, alternative.tables.constants, test.tables.constants);
    expression_runs(*if_expression.condition, tables, frame, chunk, state);
    let tested = meaning(*if_expression.condition, frame);
    match tested.result {
        Err(_) => {},
        Ok(condition) => {
            let at_jump = past(state, test.code.len() as int, state.stack.push(condition));
            jump_is_taken_if(chunk, at_jump, start, state.stack, condition);
            run_in_parts(state, chunk, tested.steps, 1);
            match condition {
                Value::Bool(true) => {
                    let at_body = MachineView { current: start as u64, stack: state.stack };
                    block_runs(if_expression.body, alternative.tables, frame, chunk, at_body);
                    let taken = block_meaning(if_expression.body, frame);
                    run_in_parts(state, chunk, tested.steps + 1, taken.steps);
                },
                Value::Bool(false) => {
                    let at_else = past(at_jump, 9, state.stack);
                    let other = match if_expression.else_body {
                        Some(ElseView::Else(block)) => {
                            block_runs(block, test.tables, frame, chunk, at_else);
                            block_meaning(block, frame)
                        },
                        Some(ElseView::If(nested)) => {
                            if_runs(*nested, test.tables, frame, chunk, at_else);
                            if_meaning(*nested, frame)
                        },
                        None => tested,
                    };
                    run_in_parts(state, chunk, tested.steps + 1, other.steps);
                    match other.result {
                        Err(_) => {},
                        Ok(value) => {
                            let at_end = past(
                                at_else,
                                alternative.code.len() as int,
                                at_else.stack.push(value),
                            );
                            jump_is_taken(chunk, at_end, end);
                            run_in_parts(state, chunk, tested.steps + 1 + other.steps, 1);
                        },
                    }
                },
                _ => {},
            }
        },
    }
}

/// The names that the first `count` statements of a body bind, in their
/// order.
pub open spec fn bound_after(statements: Seq<StatementView>, count: int) -> Seq<usize>
    decreases count,
{
    if count <= 0 || count > statements.len() {
        Seq::empty()
    } else {
        let before = bound_after(statements, count - 1);
        match statements[count - 1] {
            StatementView::Bind { name, .. } => before.push(name),
            StatementView::Expression { .. } => before,
        }
    }
}

/// Whether the first `count` statements of a body are such as this module
/// gives a meaning: bindings and expressions, each plain with the names
/// that are bound before it, and each expression but the last of the body
/// with a semicolon.
pub open spec fn is_straight(statements: Seq<StatementView>, count: int) -> bool
    decreases count,
{
    count <= 0 || (count <= statements.len() && is_straight(statements, count - 1) && match statements[count
        - 1] {
        StatementView::Bind { expression, .. } => is_plain(
            expression,
            bound_after(statements, count - 1),
        ),
        StatementView::Expression { expression, has_semicolon } => is_plain(
            expression,
            bound_after(statements, count - 1),
        ) && (has_semicolon || count == statements.len()),
    })
}

/// What statements come to: the values that they leave, oldest first, or
/// the error of the first that fails; and the number of instructions that
/// it takes.
pub struct Effect {
    pub result: Result<Seq<Value>, Error>,
    pub steps: nat,
}

/// What the first `count` statements of a body come to. A binding leaves
/// the value of its expression, which is the value of its name from then
/// on; an expression with a semicolon leaves nothing; the last expression
/// of a body, if it has no semicolon, leaves its value.
pub open spec fn effect(statements: Seq<StatementView>, count: int) -> Effect
    decreases count,
{
    if count <= 0 || count > statements.len() {
        Effect { result: Ok(Seq::empty()), steps: 0 }
    } else {
        let before = effect(statements, count - 1);
        match before.result {
            Err(_) => before,
            Ok(values) => {
                let frame = Frame { locals: bound_after(statements, count - 1), values };
                let (expression, kept, popped): (ExpressionView, bool, nat) = match statements[count
                    - 1] {
                    StatementView::Bind { expression, .. } => (expression, true, 0),
                    StatementView::Expression { expression, has_semicolon } => (
                        expression,
                        !has_semicolon,
                        if has_semicolon {
                            1
                        } else {
                            0
                        },
                    ),
                };
                let evaluated = meaning(expression, frame);
                match evaluated.result {
                    Err(error) => Effect {
                        result: Err(error),
                        steps: before.steps + evaluated.steps,
                    },
                    Ok(value) => Effect {
                        result: Ok(
                            if kept {
                                values.push(value)
                            } else {
                                values
                            },
                        ),
                        steps: before.steps + evaluated.steps + popped,
                    },
                }
            },
        }
    }
}

/// The value of a body: that of its last statement if that is an
/// expression without a semicolon, else the unit; or the error of the
/// first statement that fails. The steps are those of the statements and
/// of the return.
pub open spec fn body_meaning(statements: Seq<StatementView>) -> Evaluated {
    let all = effect(statements, statements.len() as int);
    match all.result {
        Err(error) => Evaluated { result: Err(error), steps: all.steps },
        Ok(values) => if needs_unit(statements) {
            Evaluated { result: Ok(Value::Unit), steps: all.steps + 2 }
        } else {
            Evaluated { result: Ok(values.last()), steps: all.steps + 1 }
        },
    }
}

/// Whether the last of the first `count` statements is an expression
/// without a semicolon, whose value stays.
pub open spec fn leaves_value(statements: Seq<StatementView>, count: int) -> bool {
    0 < count <= statements.len() && match statements[count - 1] {
        StatementView::Expression { has_semicolon, .. } => !has_semicolon,
        StatementView::Bind { .. } => false,
    }
}

/// The tables that the code of a body begins with.
pub open spec fn no_tables() -> Tables {
    Tables { locals: Seq::empty(), constants: Seq::empty() }
}

/// The expression of a statement.
pub open spec fn expression_of(statement: StatementView) -> ExpressionView {
    match statement {
        StatementView::Bind { expression, .. } => expression,
        StatementView::Expression { expression, .. } => expression,
    }
}

/// A statement whose expression is plain has a layout: the code of the
/// expression, and a `Pop` after it for a semicolon. A binding binds its
/// name.
pub proof fn statement_has_layout(statement: StatementView, base: int, tables: Tables)
    requires
        is_plain(expression_of(statement), tables.locals),
    ensures
        statement_layout(statement, base, tables) is Ok,
        statement_layout(statement, base, tables)->Ok_0.tables.locals == match statement {
            StatementView::Bind { name, .. } => tables.locals.push(name),
            StatementView::Expression { .. } => tables.locals,
        },
        statement_layout(statement, base, tables)->Ok_0.tables.constants == expression_layout(
            expression_of(statement),
            base,
            tables,
        )->Ok_0.tables.constants,
        statement_layout(statement, base, tables)->Ok_0.code == match statement {
            StatementView::Expression { has_semicolon, .. } if has_semicolon => expression_layout(
                expression_of(statement),
                base,
                tables,
            )->Ok_0.code + plain(Instruction::Pop),
            _ => expression_layout(expression_of(statement), base, tables)->Ok_0.code,
        },
{
    plain_has_layout(expression_of(statement), base, tables);
}

/// Straight statements have a layout, which binds their names.
pub proof fn straight_has_layout(statements: Seq<StatementView>, count: int)
    requires
        0 <= count <= statements.len(),
        is_straight(statements, count),
    ensures
        statements_layout(statements, count, 0, no_tables()) is Ok,
        statements_layout(statements, count, 0, no_tables())->Ok_0.tables.locals == bound_after(
            statements,
            count,
        ),
        count > 0 ==> begins_with(
            statements_layout(statements, count, 0, no_tables())->Ok_0.tables.constants,
            statements_layout(statements, count - 1, 0, no_tables())->Ok_0.tables.constants,
        ),
    decreases count,
{
    if count > 0 {
        straight_has_layout(statements, count - 1);
        let before = statements_layout(statements, count - 1, 0, no_tables())->Ok_0;
        let statement = statements[count - 1];
        assert(is_plain(expression_of(statement), bound_after(statements, count - 1)));
        statement_has_layout(statement, before.code.len() as int, before.tables);
        plain_has_layout(expression_of(statement), before.code.len() as int, before.tables);
    } else {
        assert(bound_after(statements, 0) =~= Seq::empty());
    }
}

/// Whether a statement leaves the value of its expression on the stack.
pub open spec fn keeps(statement: StatementView) -> bool {
    match statement {
        StatementView::Bind { .. } => true,
        StatementView::Expression { has_semicolon, .. } => !has_semicolon,
    }
}

/// The machine whose stack is a frame and that runs the code of a
/// statement is left past the code, with the value of the statement's
/// expression on its stack if the statement keeps it, or fails with the
/// expression's error.
pub proof fn statement_runs(
    statement: StatementView,
    tables: Tables,
    frame: Frame,
    chunk: ChunkView,
    state: MachineView,
)
    requires
        fits(chunk),
        is_plain(expression_of(statement), tables.locals),
        frame.locals == tables.locals,
        state.stack == frame.values,
        holds(state.stack, frame),
        stands_at(
            chunk.code,
            state.current as int,
            statement_layout(statement, state.current as int, tables)->Ok_0.code,
        ),
        begins_with(
            chunk.constants,
            statement_layout(statement, state.current as int, tables)->Ok_0.tables.constants,
        ),
    ensures
        match meaning(expression_of(statement), frame).result {
            Ok(value) => is_simple(value) && state.run(
                chunk,
                meaning(expression_of(statement), frame).steps + if keeps(statement) {
                    0nat
                } else {
                    1nat
                },
            ) == Ok::<(MachineView, Step), Error>(
                (
                    past(
                        state,
                        statement_layout(
                            statement,
                            state.current as int,
                            tables,
                        )->Ok_0.code.len() as int,
                        if keeps(statement) {
                            state.stack.push(value)
                        } else {
                            state.stack
                        },
                    ),
                    Step::Continue,
                ),
            ),
            Err(error) => state.run(chunk, meaning(expression_of(statement), frame).steps)
                == Err::<(MachineView, Step), Error>(error),
        },
{
    let base = state.current as int;
    let expression = expression_of(statement);
    statement_has_layout(statement, base, tables);
    plain_has_layout(expression, base, tables);
    let code = expression_layout(expression, base, tables)->Ok_0;
    if !keeps(statement) {
        stands_in_parts(chunk.code, base, code.code, plain(Instruction::Pop));
    }
    expression_runs(expression, tables, frame, chunk, state);
    let evaluated = meaning(expression, frame);
    match evaluated.result {
        Err(_) => {},
        Ok(value) => {
            if !keeps(statement) {
                let pushed = past(state, code.code.len() as int, state.stack.push(value));
                top_is_popped(chunk, pushed, state.stack, value);
                run_in_parts(state, chunk, evaluated.steps, 1);
            }
        },
    }
}

/// The machine that runs the code of straight statements from the start
/// is left past the code with the values that the statements leave as its
/// stack, or fails with their error.
pub proof fn statements_run(statements: Seq<StatementView>, count: int, chunk: ChunkView)
    requires
        fits(chunk),
        0 <= count <= statements.len(),
        is_straight(statements, count),
        stands_at(
            chunk.code,
            0,
            statements_layout(statements, count, 0, no_tables())->Ok_0.code,
        ),
        begins_with(
            chunk.constants,
            statements_layout(statements, count, 0, no_tables())->Ok_0.tables.constants,
        ),
    ensures
        MachineView::initial().run(chunk, effect(statements, count).steps) == match effect(
            statements,
            count,
        ).result {
            Ok(values) => Ok::<(MachineView, Step), Error>(
                (
                    MachineView {
                        current: statements_layout(
                            statements,
                            count,
                            0,
                            no_tables(),
                        )->Ok_0.code.len() as u64,
                        stack: values,
                    },
                    Step::Continue,
                ),
            ),
            Err(error) => Err(error),
        },
        effect(statements, count).result matches Ok(values) ==> {
            &&& forall|slot: int| 0 <= slot < values.len() ==> is_simple(#[trigger] values[slot])
            &&& values.len() == bound_after(statements, count).len() + if leaves_value(
                statements,
                count,
            ) {
                1int
            } else {
                0int
            }
        },
    decreases count,
{
    let start = MachineView::initial();
    straight_has_layout(statements, count);
    if count == 0 {
        reveal_with_fuel(MachineView::run, 1);
        assert(bound_after(statements, 0) =~= Seq::empty());
    } else {
        assert(is_straight(statements, count - 1));
        assert(!leaves_value(statements, count - 1));
        straight_has_layout(statements, count - 1);
        let before = statements_layout(statements, count - 1, 0, no_tables())->Ok_0;
        let all = statements_layout(statements, count, 0, no_tables())->Ok_0;
        let base = before.code.len() as int;
        let statement = statements[count - 1];
        statement_has_layout(statement, base, before.tables);
        let last = statement_layout(statement, base, before.tables)->Ok_0;
        assert(all.code == before.code + last.code);
        assert(all.tables == last.tables);
        stands_in_parts(chunk.code, 0, before.code, last.code);
        begins_with_what_begins(chunk.constants, all.tables.constants, before.tables.constants);
        statements_run(statements, count - 1, chunk);
        let done = effect(statements, count - 1);
        match done.result {
            Err(_) => {},
            Ok(values) => {
                let state = MachineView { current: base as u64, stack: values };
                let frame = Frame { locals: bound_after(statements, count - 1), values };
                assert(values.subrange(0, values.len() as int) =~= values);
                statement_runs(statement, before.tables, frame, chunk, state);
                let evaluated = meaning(expression_of(statement), frame);
                let extra: nat = if keeps(statement) {
                    0
                } else {
                    1
                };
                match evaluated.result {
                    Err(_) => {
                        run_in_parts(start, chunk, done.steps, evaluated.steps);
                    },
                    Ok(value) => {
                        run_in_parts(start, chunk, done.steps, evaluated.steps + extra);
                    },
                }
            },
        }
    }
}

/// A run that returned, deferred or failed is the same run under every
/// greater limit.
pub proof fn run_has_ended(state: MachineView, chunk: ChunkView, steps: nat, limit: nat)
    requires
        steps <= limit,
        !(state.run(chunk, steps) matches Ok((_, Step::Continue))),
    ensures
        state.run(chunk, limit) == state.run(chunk, steps),
{
    run_in_parts(state, chunk, steps, (limit - steps) as nat);
}

/// Generated code computes what the source means: the machine that runs
/// the chunk of a body of straight statements returns the body's value,
/// or fails with the body's error, under every limit that is no less than
/// the number of instructions that the body takes.
pub proof fn code_computes_meaning(statements: Seq<StatementView>, chunk: ChunkView, limit: nat)
    requires
        is_straight(statements, statements.len() as int),
        chunk_layout(statements) == Ok::<ChunkView, GenerateError>(chunk),
        fits(chunk),
        body_meaning(statements).steps <= limit,
    ensures
        match body_meaning(statements).result {
            Ok(value) => exists|last: MachineView|
                MachineView::initial().run(chunk, limit) == Ok::<(MachineView, Step), Error>(
                    (last, Step::Return(value)),
                ),
            Err(error) => MachineView::initial().run(chunk, limit) == Err::<
                (MachineView, Step),
                Error,
            >(error),
        },
{
    let start = MachineView::initial();
    let count = statements.len() as int;
    let steps = body_meaning(statements).steps;
    straight_has_layout(statements, count);
    let all = statements_layout(statements, count, 0, no_tables())->Ok_0;
    let unit = if needs_unit(statements) {
        plain(Instruction::PushUnit)
    } else {
        Seq::empty()
    };
    assert(chunk.code =~= all.code + unit + plain(Instruction::Return));
    assert(chunk.code.subrange(0, chunk.code.len() as int) =~= chunk.code);
    stands_in_parts(chunk.code, 0, all.code + unit, plain(Instruction::Return));
    stands_in_parts(chunk.code, 0, all.code, unit);
    assert(chunk.constants.subrange(0, chunk.constants.len() as int) =~= chunk.constants);
    statements_run(statements, count, chunk);
    let done = effect(statements, count);
    match done.result {
        Err(_) => {},
        Ok(values) => {
            let after = MachineView { current: all.code.len() as u64, stack: values };
            if needs_unit(statements) {
                unit_is_pushed(chunk, after);
                run_in_parts(start, chunk, done.steps, 1);
                let at_return = past(after, 1, values.push(Value::Unit));
                top_is_returned(chunk, at_return, values, Value::Unit);
                run_in_parts(start, chunk, done.steps + 1, 1);
                assert(start.run(chunk, done.steps + 2) == Ok::<(MachineView, Step), Error>(
                    (past(at_return, 1, values), Step::Return(Value::Unit)),
                ));
            } else {
                let rest = values.drop_last();
                assert(values =~= rest.push(values.last()));
                top_is_returned(chunk, after, rest, values.last());
                run_in_parts(start, chunk, done.steps, 1);
                assert(start.run(chunk, done.steps + 1) == Ok::<(MachineView, Step), Error>(
                    (past(after, 1, rest), Step::Return(values.last())),
                ));
            }
        },
    }
    run_has_ended(start, chunk, steps, limit);
}

/// What running a body comes to, for a body that has a meaning: the
/// machine returns the body's value, or fails with the body's error.
pub open spec fn outcome(statements: Seq<StatementView>) -> Result<Step, Error> {
    match body_meaning(statements).result {
        Ok(value) => Ok(Step::Return(value)),
        Err(error) => Err(error),
    }
}

/// Generates the chunk of a function's body and runs it on a new machine
/// for at most `limit` instructions. The result is the error of the
/// generator, or else what the machine's run came to; for a body of
/// straight statements that takes no more than `limit` instructions, that
/// is the body's meaning.
pub fn evaluate(block: &Block, limit: u64) -> (result: Result<Result<Step, Error>, GenerateError>)
    ensures
        match result {
            Ok(ran) => chunk_layout(block@) is Ok && match ran {
                Ok(step) => exists|last: MachineView|
                    MachineView::initial().run(chunk_layout(block@)->Ok_0, limit as nat) == Ok::<
                        (MachineView, Step),
                        Error,
                    >((last, step)),
                Err(error) => MachineView::initial().run(
                    chunk_layout(block@)->Ok_0,
                    limit as nat,
                ) == Err::<(MachineView, Step), Error>(error),
            },
            Err(error) => chunk_layout(block@) == Err::<ChunkView, GenerateError>(error),
        },
        is_straight(block@, block@.len() as int) && body_meaning(block@).steps <= limit
            ==> result == Ok::<Result<Step, Error>, GenerateError>(outcome(block@)),
{
    let chunk = match Generator::new().generate(block) {
        Ok(chunk) => chunk,
        Err(error) => {
            proof {
                if is_straight(block@, block@.len() as int) {
                    straight_has_layout(block@, block@.len() as int);
                }
            }
            return Err(error);
        },
    };
    proof {
        chunk.is_of_size();
        if is_straight(block@, block@.len() as int) && body_meaning(block@).steps <= limit {
            code_computes_meaning(block@, chunk@, limit as nat);
        }
    }
    let mut machine = Machine::new();
    Ok(machine.execute(&chunk, limit))
}

} // verus!
