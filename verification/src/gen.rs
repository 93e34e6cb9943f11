//! The generator: from a resolved block to a chunk of bytecode, in one
//! pass.
//!
//! What is generated is stated by layout: the code of a construct is a
//! function of the construct, of the offset at which the code begins, and
//! of the constants and locals before it; the target of every jump is a
//! sum of lengths. The generator emits a jump before it knows the target,
//! and writes the target in once the code is there; that the outcome is
//! the layout is what its contract says.

use crate::executable::{latest_slot, le_bytes, Chunk, ChunkView, Constant};
use crate::instruction::Instruction;
use crate::ir::{
    BinaryOperator, Block, ElseBody, ElseView, Expression, ExpressionView, IfExpression, IfView,
    LiteralExpression, Statement, StatementView, UnaryOperator,
};
use vstd::bytes::lemma_auto_spec_u64_to_from_le_bytes;
use vstd::prelude::*;

verus! {

/// Why no code was generated.
#[derive(Clone, Copy, Debug, PartialEq, Eq, Structural)]
pub enum GenerateError {
    /// The name of this index is used where no `let` has bound it.
    UndefinedLocal(usize),
}

/// What code is generated against: the locals bound so far, in the order
/// of their declaration, and the constant pool.
pub struct Tables {
    pub locals: Seq<usize>,
    pub constants: Seq<Constant>,
}

/// A stretch of code, with the tables as they are after it.
pub struct Emitted {
    pub code: Seq<u8>,
    pub tables: Tables,
}

/// A stretch of code, or the error.
pub type Generated = Result<Emitted, GenerateError>;

/// An instruction without an operand.
pub open spec fn plain(instruction: Instruction) -> Seq<u8> {
    seq![instruction.opcode()]
}

/// An instruction with its operand.
pub open spec fn with_operand(instruction: Instruction, operand: int) -> Seq<u8> {
    seq![instruction.opcode()] + le_bytes(operand as u64)
}

/// The instruction of a unary operator.
pub open spec fn unary_instruction(operator: UnaryOperator) -> Instruction {
    match operator {
        UnaryOperator::Negate => Instruction::Negate,
        UnaryOperator::Not => Instruction::Not,
    }
}

/// The instruction of a binary operator.
pub open spec fn binary_instruction(operator: BinaryOperator) -> Instruction {
    match operator {
        BinaryOperator::And => Instruction::And,
        BinaryOperator::Or => Instruction::Or,
        BinaryOperator::Greater => Instruction::Greater,
        BinaryOperator::GreaterEqual => Instruction::GreaterEqual,
        BinaryOperator::Less => Instruction::Less,
        BinaryOperator::LessEqual => Instruction::LessEqual,
        BinaryOperator::Equal => Instruction::Equal,
        BinaryOperator::NotEqual => Instruction::NotEqual,
        BinaryOperator::Add => Instruction::Add,
        BinaryOperator::Subtract => Instruction::Subtract,
        BinaryOperator::Multiply => Instruction::Multiply,
        BinaryOperator::Divide => Instruction::Divide,
    }
}

/// Whether a block has to push a unit for its value: it has, unless its
/// last statement is an expression without a semicolon.
pub open spec fn needs_unit(statements: Seq<StatementView>) -> bool {
    statements.len() == 0 || match statements.last() {
        StatementView::Expression { has_semicolon, .. } => has_semicolon,
        StatementView::Bind { .. } => true,
    }
}

/// The tables with one constant more.
pub open spec fn with_constant(tables: Tables, constant: Constant) -> Tables {
    Tables { constants: tables.constants.push(constant), ..tables }
}

/// The code that pushes a constant, which is added to the pool. Equal
/// constants are not shared.
pub open spec fn constant_layout(tables: Tables, constant: Constant) -> Emitted {
    Emitted {
        code: with_operand(Instruction::PushConstant, tables.constants.len() as int),
        tables: with_constant(tables, constant),
    }
}

/// The code of a literal: a constant is pushed, or for a name the local
/// that the latest `let` of the name bound.
pub open spec fn literal_layout(literal: LiteralExpression, tables: Tables) -> Generated {
    match literal {
        LiteralExpression::Int(value) => Ok(constant_layout(tables, Constant::Int(value))),
        LiteralExpression::Float(bits) => Ok(constant_layout(tables, Constant::Float(bits))),
        LiteralExpression::Bool(flag) => Ok(constant_layout(tables, Constant::Bool(flag))),
        LiteralExpression::Identifier(name) => match latest_slot(tables.locals, name) {
            Some(slot) => Ok(
                Emitted { code: with_operand(Instruction::PushLocal, slot as int), tables },
            ),
            None => Err(GenerateError::UndefinedLocal(name)),
        },
    }
}

/// The code of an expression that begins at offset `base`. Operands come
/// before their operator, the left before the right, and both are always
/// evaluated. Paths, accesses and calls have no code.
pub open spec fn expression_layout(expression: ExpressionView, base: int, tables: Tables)
    -> Generated
    decreases expression, 0nat,
{
    match expression {
        ExpressionView::Literal(literal) => literal_layout(literal, tables),
        ExpressionView::Path { .. } => Ok(Emitted { code: Seq::empty(), tables }),
        ExpressionView::Access { .. } => Ok(Emitted { code: Seq::empty(), tables }),
        ExpressionView::Call { .. } => Ok(Emitted { code: Seq::empty(), tables }),
        ExpressionView::Unary { operator, operand } => match expression_layout(
            *operand,
            base,
            tables,
        ) {
            Err(error) => Err(error),
            Ok(inner) => Ok(
                Emitted {
                    code: inner.code + plain(unary_instruction(operator)),
                    tables: inner.tables,
                },
            ),
        },
        ExpressionView::Binary {
            left_operand,
            operator,
            right_operand,
        } => match expression_layout(*left_operand, base, tables) {
            Err(error) => Err(error),
            Ok(left) => match expression_layout(
                *right_operand,
                base + left.code.len(),
                left.tables,
            ) {
                Err(error) => Err(error),
                Ok(right) => Ok(
                    Emitted {
                        code: left.code + right.code + plain(binary_instruction(operator)),
                        tables: right.tables,
                    },
                ),
            },
        },
        ExpressionView::If(if_expression) => if_layout(if_expression, base, tables),
        ExpressionView::While { condition, body } => match expression_layout(
            *condition,
            base,
            tables,
        ) {
            Err(error) => Err(error),
            Ok(test) => {
                let start = base + test.code.len() + 10;
                match block_layout(body, start, test.tables) {
                    Err(error) => Err(error),
                    Ok(block) => {
                        let exit = start + block.code.len() + 10;
                        Ok(
                            Emitted {
                                code: test.code + plain(Instruction::Not) + with_operand(
                                    Instruction::JumpIf,
                                    exit,
                                ) + block.code + plain(Instruction::Pop) + with_operand(
                                    Instruction::Jump,
                                    base,
                                ) + plain(Instruction::PushUnit),
                                tables: block.tables,
                            },
                        )
                    },
                }
            },
        },
    }
}

/// The code of an `if` that begins at offset `base`: the condition; a
/// `JumpIf` to the body; what follows `else`, if anything does; a `Jump`
/// past the body; and the body.
pub open spec fn if_layout(if_expression: IfView, base: int, tables: Tables) -> Generated
    decreases if_expression, 0nat,
{
    match expression_layout(*if_expression.condition, base, tables) {
        Err(error) => Err(error),
        Ok(test) => {
            let otherwise = base + test.code.len() + 9;
            let other = match if_expression.else_body {
                None => Ok(Emitted { code: Seq::empty(), tables: test.tables }),
                Some(ElseView::Else(block)) => block_layout(block, otherwise, test.tables),
                Some(ElseView::If(nested)) => if_layout(*nested, otherwise, test.tables),
            };
            match other {
                Err(error) => Err(error),
                Ok(alternative) => {
                    let start = otherwise + alternative.code.len() + 9;
                    match block_layout(if_expression.body, start, alternative.tables) {
                        Err(error) => Err(error),
                        Ok(body) => Ok(
                            Emitted {
                                code: test.code + with_operand(Instruction::JumpIf, start)
                                    + alternative.code + with_operand(
                                    Instruction::Jump,
                                    start + body.code.len(),
                                ) + body.code,
                                tables: body.tables,
                            },
                        ),
                    }
                },
            }
        },
    }
}

/// The code of a statement that begins at offset `base`. A binding is
/// the code of its expression: the value that it leaves is the local,
/// whose slot is the number of locals bound before it.
pub open spec fn statement_layout(statement: StatementView, base: int, tables: Tables)
    -> Generated
    decreases statement, 0nat,
{
    match statement {
        StatementView::Bind { is_mut, name, expression } => match expression_layout(
            expression,
            base,
            tables,
        ) {
            Err(error) => Err(error),
            Ok(value) => Ok(
                Emitted {
                    code: value.code,
                    tables: Tables { locals: value.tables.locals.push(name), ..value.tables },
                },
            ),
        },
        StatementView::Expression { expression, has_semicolon } => match expression_layout(
            expression,
            base,
            tables,
        ) {
            Err(error) => Err(error),
            Ok(value) => Ok(
                Emitted {
                    code: if has_semicolon {
                        value.code + plain(Instruction::Pop)
                    } else {
                        value.code
                    },
                    tables: value.tables,
                },
            ),
        },
    }
}

/// The code of the first `count` statements, which begins at `base`.
pub open spec fn statements_layout(
    statements: Seq<StatementView>,
    count: int,
    base: int,
    tables: Tables,
) -> Generated
    decreases statements, count,
{
    if count <= 0 || count > statements.len() {
        Ok(Emitted { code: Seq::empty(), tables })
    } else {
        match statements_layout(statements, count - 1, base, tables) {
            Err(error) => Err(error),
            Ok(before) => match statement_layout(
                statements[count - 1],
                base + before.code.len(),
                before.tables,
            ) {
                Err(error) => Err(error),
                Ok(last) => Ok(Emitted { code: before.code + last.code, tables: last.tables }),
            },
        }
    }
}

/// The code of a block that begins at offset `base`: its statements in
/// order, and a `PushUnit` where the block has no value of its own.
pub open spec fn block_layout(statements: Seq<StatementView>, base: int, tables: Tables)
    -> Generated
    decreases statements, statements.len() + 1,
{
    match statements_layout(statements, statements.len() as int, base, tables) {
        Err(error) => Err(error),
        Ok(all) => Ok(
            Emitted {
                code: if needs_unit(statements) {
                    all.code + plain(Instruction::PushUnit)
                } else {
                    all.code
                },
                tables: all.tables,
            },
        ),
    }
}

/// The chunk of a function's body: the block's code from offset 0 against
/// empty tables, and a `Return`.
pub open spec fn chunk_layout(statements: Seq<StatementView>) -> Result<ChunkView, GenerateError> {
    match block_layout(
        statements,
        0,
        Tables { locals: Seq::empty(), constants: Seq::empty() },
    ) {
        Err(error) => Err(error),
        Ok(body) => Ok(
            ChunkView {
                locals: body.tables.locals,
                constants: body.tables.constants,
                code: body.code + plain(Instruction::Return),
            },
        ),
    }
}

/// The tables of a chunk.
pub open spec fn tables_of(chunk: ChunkView) -> Tables {
    Tables { locals: chunk.locals, constants: chunk.constants }
}

/// Whether a chunk is what it was with `emitted` after it.
pub open spec fn extends(before: ChunkView, after: ChunkView, emitted: Emitted) -> bool {
    &&& after.code == before.code + emitted.code
    &&& tables_of(after) == emitted.tables
}

/// Whether a method added to a chunk what the layout says, or failed with
/// the error that the layout says.
pub open spec fn generates(
    result: Result<(), GenerateError>,
    before: ChunkView,
    after: ChunkView,
    layout: Generated,
) -> bool {
    match result {
        Ok(_) => layout is Ok && extends(before, after, layout->Ok_0),
        Err(error) => layout == Err::<Emitted, GenerateError>(error),
    }
}

/// Gives the instruction of a unary operator.
pub fn unary_instruction_of(operator: UnaryOperator) -> (instruction: Instruction)
    ensures
        instruction == unary_instruction(operator),
{
    match operator {
        UnaryOperator::Negate => Instruction::Negate,
        UnaryOperator::Not => Instruction::Not,
    }
}

/// Gives the instruction of a binary operator.
pub fn binary_instruction_of(operator: BinaryOperator) -> (instruction: Instruction)
    ensures
        instruction == binary_instruction(operator),
{
    match operator {
        BinaryOperator::And => Instruction::And,
        BinaryOperator::Or => Instruction::Or,
        BinaryOperator::Greater => Instruction::Greater,
        BinaryOperator::GreaterEqual => Instruction::GreaterEqual,
        BinaryOperator::Less => Instruction::Less,
        BinaryOperator::LessEqual => Instruction::LessEqual,
        BinaryOperator::Equal => Instruction::Equal,
        BinaryOperator::NotEqual => Instruction::NotEqual,
        BinaryOperator::Add => Instruction::Add,
        BinaryOperator::Subtract => Instruction::Subtract,
        BinaryOperator::Multiply => Instruction::Multiply,
        BinaryOperator::Divide => Instruction::Divide,
    }
}

/// The generator of a function's chunk.
#[derive(Debug)]
pub struct Generator {}

impl Generator {
    /// A generator.
    pub fn new() -> Generator {
        Generator {  }
    }

    /// Generates the chunk of a function's body: the chunk that
    /// [`chunk_layout`] gives, or its error.
    pub fn generate(self, block: &Block) -> (result: Result<Chunk, GenerateError>)
        ensures
            match result {
                Ok(chunk) => chunk_layout(block@) == Ok::<ChunkView, GenerateError>(chunk@),
                Err(error) => chunk_layout(block@) == Err::<ChunkView, GenerateError>(error),
            },
    {
        let mut generator = self;
        let mut chunk = Chunk::new();
        proof {
            assert(chunk@.code =~= Seq::empty());
            assert(chunk@.locals =~= Seq::empty());
            assert(chunk@.constants =~= Seq::empty());
        }
        match generator.block(&mut chunk, block) {
            Ok(_) => {},
            Err(error) => {
                return Err(error);
            },
        }
        let ghost body = block_layout(
            block@,
            0,
            Tables { locals: Seq::empty(), constants: Seq::empty() },
        )->Ok_0;
        chunk.emit(Instruction::Return);
        assert(chunk@.code =~= body.code + plain(Instruction::Return));
        Ok(chunk)
    }

    /// Emits an instruction and its operand.
    fn emit_with(chunk: &mut Chunk, instruction: Instruction, operand: u64) -> (offset: usize)
        ensures
            offset == old(chunk)@.code.len() + 1,
            final(chunk)@ == (ChunkView {
                code: old(chunk)@.code + with_operand(instruction, operand as int),
                ..old(chunk)@
            }),
    {
        chunk.emit(instruction);
        let offset = chunk.emit_operand(operand);
        assert(chunk@.code =~= old(chunk)@.code + with_operand(instruction, operand as int));
        offset
    }

    /// Generates a block.
    fn block(&mut self, chunk: &mut Chunk, block: &Block) -> (result: Result<(), GenerateError>)
        ensures
            generates(
                result,
                old(chunk)@,
                final(chunk)@,
                block_layout(block@, old(chunk)@.code.len() as int, tables_of(old(chunk)@)),
            ),
        decreases block,
    {
        let ghost before = chunk@;
        let ghost base = chunk@.code.len() as int;
        let mut index: usize = 0;
        assert(chunk@.code =~= before.code + Seq::<u8>::empty());
        while index < block.statements.len()
            invariant
                index <= block.statements.len(),
                before == old(chunk)@,
                base == before.code.len(),
                statements_layout(block@, index as int, base, tables_of(before)) is Ok,
                extends(
                    before,
                    chunk@,
                    statements_layout(block@, index as int, base, tables_of(before))->Ok_0,
                ),
            decreases block.statements.len() - index,
        {
            let ghost done = statements_layout(block@, index as int, base, tables_of(before))->Ok_0;
            proof {
                assert(block@[index as int] == block.statements[index as int]@);
                layout_fails_on(block@, index + 1, block@.len() as int, base, tables_of(before));
            }
            match self.statement(chunk, &block.statements[index]) {
                Ok(_) => {},
                Err(error) => {
                    return Err(error);
                },
            }
            proof {
                let last = statement_layout(
                    block@[index as int],
                    base + done.code.len(),
                    done.tables,
                )->Ok_0;
                assert(chunk@.code =~= before.code + (done.code + last.code));
            }
            index += 1;
        }
        let requires_unit = if block.statements.len() == 0 {
            true
        } else {
            match &block.statements[block.statements.len() - 1] {
                Statement::Expression(statement) => statement.has_semicolon,
                Statement::Bind(_) => true,
            }
        };
        proof {
            if block.statements.len() > 0 {
                assert(block@.last() == block.statements[block.statements.len() - 1]@);
            }
        }
        if requires_unit {
            let ghost all = statements_layout(block@, index as int, base, tables_of(before))->Ok_0;
            chunk.emit(Instruction::PushUnit);
            assert(chunk@.code =~= before.code + (all.code + plain(Instruction::PushUnit)));
        }
        Ok(())
    }

    /// Generates a statement.
    fn statement(&mut self, chunk: &mut Chunk, statement: &Statement) -> (result: Result<
        (),
        GenerateError,
    >)
        ensures
            generates(
                result,
                old(chunk)@,
                final(chunk)@,
                statement_layout(statement@, old(chunk)@.code.len() as int, tables_of(old(chunk)@)),
            ),
        decreases statement,
    {
        let ghost base = chunk@.code.len() as int;
        match statement {
            Statement::Bind(bind) => {
                match self.expression(chunk, &bind.expression) {
                    Ok(_) => {},
                    Err(error) => {
                        return Err(error);
                    },
                }
                chunk.add_local(bind.name);
                Ok(())
            },
            Statement::Expression(statement) => {
                match self.expression(chunk, &statement.expression) {
                    Ok(_) => {},
                    Err(error) => {
                        return Err(error);
                    },
                }
                if statement.has_semicolon {
                    let ghost value = expression_layout(
                        statement.expression@,
                        base,
                        tables_of(old(chunk)@),
                    )->Ok_0;
                    chunk.emit(Instruction::Pop);
                    assert(chunk@.code =~= old(chunk)@.code + (value.code + plain(
                        Instruction::Pop,
                    )));
                }
                Ok(())
            },
        }
    }

    /// Generates a literal.
    fn literal_expression(&mut self, chunk: &mut Chunk, literal: &LiteralExpression) -> (result:
        Result<(), GenerateError>)
        ensures
            generates(
                result,
                old(chunk)@,
                final(chunk)@,
                literal_layout(*literal, tables_of(old(chunk)@)),
            ),
    {
        let constant = match literal {
            LiteralExpression::Int(value) => Constant::Int(*value),
            LiteralExpression::Float(bits) => Constant::Float(*bits),
            LiteralExpression::Bool(flag) => Constant::Bool(*flag),
            LiteralExpression::Identifier(name) => {
                return match chunk.local(*name) {
                    Some(slot) => {
                        Generator::emit_with(chunk, Instruction::PushLocal, slot as u64);
                        Ok(())
                    },
                    None => Err(GenerateError::UndefinedLocal(*name)),
                };
            },
        };
        let index = chunk.add_constant(constant);
        Generator::emit_with(chunk, Instruction::PushConstant, index as u64);
        Ok(())
    }

    /// Generates an expression.
    fn expression(&mut self, chunk: &mut Chunk, expression: &Expression) -> (result: Result<
        (),
        GenerateError,
    >)
        ensures
            generates(
                result,
                old(chunk)@,
                final(chunk)@,
                expression_layout(
                    expression@,
                    old(chunk)@.code.len() as int,
                    tables_of(old(chunk)@),
                ),
            ),
        decreases expression,
    {
        let ghost before = chunk@;
        let ghost base = chunk@.code.len() as int;
        match expression {
            Expression::Literal(literal) => self.literal_expression(chunk, literal),
            Expression::Path(_) => {
                assert(chunk@.code =~= before.code + Seq::<u8>::empty());
                Ok(())
            },
            Expression::Access(_) => {
                assert(chunk@.code =~= before.code + Seq::<u8>::empty());
                Ok(())
            },
            Expression::Call(_) => {
                assert(chunk@.code =~= before.code + Seq::<u8>::empty());
                Ok(())
            },
            Expression::Unary(unary) => {
                match self.expression(chunk, &unary.operand) {
                    Ok(_) => {},
                    Err(error) => {
                        return Err(error);
                    },
                }
                let ghost inner = expression_layout(unary.operand@, base, tables_of(before))->Ok_0;
                chunk.emit(unary_instruction_of(unary.operator));
                assert(chunk@.code =~= before.code + (inner.code + plain(
                    unary_instruction(unary.operator),
                )));
                Ok(())
            },
            Expression::Binary(binary) => {
                match self.expression(chunk, &binary.left_operand) {
                    Ok(_) => {},
                    Err(error) => {
                        return Err(error);
                    },
                }
                let ghost left = expression_layout(
                    binary.left_operand@,
                    base,
                    tables_of(before),
                )->Ok_0;
                match self.expression(chunk, &binary.right_operand) {
                    Ok(_) => {},
                    Err(error) => {
                        return Err(error);
                    },
                }
                let ghost right = expression_layout(
                    binary.right_operand@,
                    base + left.code.len(),
                    left.tables,
                )->Ok_0;
                chunk.emit(binary_instruction_of(binary.operator));
                assert(chunk@.code =~= before.code + (left.code + right.code + plain(
                    binary_instruction(binary.operator),
                )));
                Ok(())
            },
            Expression::If(if_expression) => self.if_expression(chunk, if_expression),
            Expression::While(while_expression) => {
                let loop_start = chunk.code().len();
                match self.expression(chunk, &while_expression.condition) {
                    Ok(_) => {},
                    Err(error) => {
                        return Err(error);
                    },
                }
                let ghost test = expression_layout(
                    while_expression.condition@,
                    base,
                    tables_of(before),
                )->Ok_0;
                chunk.emit(Instruction::Not);
                let exit_offset = Generator::emit_with(chunk, Instruction::JumpIf, 0);
                let ghost start = base + test.code.len() + 10;
                proof {
                    lemma_auto_spec_u64_to_from_le_bytes();
                }
                match self.block(chunk, &while_expression.body) {
                    Ok(_) => {},
                    Err(error) => {
                        return Err(error);
                    },
                }
                let ghost body = block_layout(while_expression.body@, start, test.tables)->Ok_0;
                chunk.emit(Instruction::Pop);
                Generator::emit_with(chunk, Instruction::Jump, loop_start as u64);
                let exit = chunk.code().len();
                chunk.patch_operand(exit_offset, exit as u64);
                chunk.emit(Instruction::PushUnit);
                assert(chunk@.code =~= before.code + (test.code + plain(Instruction::Not)
                    + with_operand(Instruction::JumpIf, exit as int) + body.code + plain(
                    Instruction::Pop,
                ) + with_operand(Instruction::Jump, base) + plain(Instruction::PushUnit)));
                Ok(())
            },
        }
    }

    /// Generates an `if`.
    fn if_expression(&mut self, chunk: &mut Chunk, if_expression: &IfExpression) -> (result:
        Result<(), GenerateError>)
        ensures
            generates(
                result,
                old(chunk)@,
                final(chunk)@,
                if_layout(if_expression@, old(chunk)@.code.len() as int, tables_of(old(chunk)@)),
            ),
        decreases if_expression,
    {
        let ghost before = chunk@;
        let ghost base = chunk@.code.len() as int;
        match self.expression(chunk, &if_expression.condition) {
            Ok(_) => {},
            Err(error) => {
                return Err(error);
            },
        }
        let ghost test = expression_layout(if_expression.condition@, base, tables_of(before))->Ok_0;
        let jump_if_offset = Generator::emit_with(chunk, Instruction::JumpIf, 0);
        let ghost otherwise = base + test.code.len() + 9;
        let ghost middle = chunk@;
        proof {
            lemma_auto_spec_u64_to_from_le_bytes();
            assert(middle.code.len() == otherwise);
        }
        let ghost other: Generated = match if_expression@.else_body {
            None => Ok(Emitted { code: Seq::empty(), tables: test.tables }),
            Some(ElseView::Else(block)) => block_layout(block, otherwise, test.tables),
            Some(ElseView::If(nested)) => if_layout(*nested, otherwise, test.tables),
        };
        match &if_expression.else_body {
            None => {
                assert(chunk@.code =~= middle.code + Seq::<u8>::empty());
            },
            Some(ElseBody::Else(block)) => {
                match self.block(chunk, block) {
                    Ok(_) => {},
                    Err(error) => {
                        return Err(error);
                    },
                }
            },
            Some(ElseBody::If(nested)) => {
                match self.if_expression(chunk, nested) {
                    Ok(_) => {},
                    Err(error) => {
                        return Err(error);
                    },
                }
            },
        }
        let ghost alternative = other->Ok_0;
        assert(other is Ok && extends(middle, chunk@, alternative));
        let jump_offset = Generator::emit_with(chunk, Instruction::Jump, 0);
        let ghost start = otherwise + alternative.code.len() + 9;
        assert(chunk@.code.len() == start);
        match self.block(chunk, &if_expression.body) {
            Ok(_) => {},
            Err(error) => {
                return Err(error);
            },
        }
        let ghost body = block_layout(if_expression.body@, start, alternative.tables)->Ok_0;
        let ghost unpatched = chunk@.code;
        let end = chunk.code().len();
        chunk.patch_operand(jump_if_offset, (jump_offset + 8) as u64);
        chunk.patch_operand(jump_offset, end as u64);
        proof {
            assert(unpatched =~= before.code + test.code + with_operand(Instruction::JumpIf, 0)
                + alternative.code + with_operand(Instruction::Jump, 0) + body.code);
            jumps_patched(
                before.code,
                test.code,
                alternative.code,
                body.code,
                start,
                start + body.code.len(),
            );
        }
        Ok(())
    }
}

/// Writing the two targets of an `if` over their placeholders gives the
/// code that had the targets from the start.
pub proof fn jumps_patched(
    prefix: Seq<u8>,
    test: Seq<u8>,
    alternative: Seq<u8>,
    body: Seq<u8>,
    start: int,
    end: int,
)
    ensures
        ({
            let first: int = (prefix.len() + test.len() + 1) as int;
            let second: int = first + 8 + alternative.len() + 1;
            let unpatched = prefix + test + with_operand(Instruction::JumpIf, 0) + alternative
                + with_operand(Instruction::Jump, 0) + body;
            let once = unpatched.subrange(0, first) + le_bytes(start as u64) + unpatched.subrange(
                first + 8,
                unpatched.len() as int,
            );
            let twice = once.subrange(0, second) + le_bytes(end as u64) + once.subrange(
                second + 8,
                once.len() as int,
            );
            twice == prefix + (test + with_operand(Instruction::JumpIf, start) + alternative
                + with_operand(Instruction::Jump, end) + body)
        }),
{
    lemma_auto_spec_u64_to_from_le_bytes();
    let first: int = (prefix.len() + test.len() + 1) as int;
    let second: int = first + 8 + alternative.len() + 1;
    let unpatched = prefix + test + with_operand(Instruction::JumpIf, 0) + alternative
        + with_operand(Instruction::Jump, 0) + body;
    let once = unpatched.subrange(0, first) + le_bytes(start as u64) + unpatched.subrange(
        first + 8,
        unpatched.len() as int,
    );
    let twice = once.subrange(0, second) + le_bytes(end as u64) + once.subrange(
        second + 8,
        once.len() as int,
    );
    assert(twice =~= prefix + (test + with_operand(Instruction::JumpIf, start) + alternative
        + with_operand(Instruction::Jump, end) + body));
}

/// Once a statement has no layout, no longer run of statements has.
pub proof fn layout_fails_on(
    statements: Seq<StatementView>,
    failing: int,
    count: int,
    base: int,
    tables: Tables,
)
    requires
        0 <= failing <= count <= statements.len(),
    ensures
        statements_layout(statements, failing, base, tables) is Err ==> statements_layout(
            statements,
            count,
            base,
            tables,
        ) == statements_layout(statements, failing, base, tables),
    decreases count - failing,
{
    if failing < count {
        layout_fails_on(statements, failing, count - 1, base, tables);
    }
}

/// Whether `chunks` are the chunks of the first `count` functions.
pub open spec fn assembled(functions: Seq<crate::ir::ChunkView>, chunks: Seq<Chunk>, count: int)
    -> bool {
    &&& chunks.len() == count
    &&& forall|index: int|
        0 <= index < count ==> chunk_layout(functions[index].body) == Ok::<
            ChunkView,
            GenerateError,
        >((#[trigger] chunks[index])@)
}

/// Generates the chunk of every function of a program, in their order.
/// Where one has no code, the error is that of the first such.
pub fn assemble(functions: &Vec<crate::ir::Chunk>) -> (result: Result<Vec<Chunk>, GenerateError>)
    ensures
        match result {
            Ok(chunks) => assembled(
                crate::ir::chunks_view(functions@),
                chunks@,
                functions@.len() as int,
            ),
            Err(error) => exists|failing: int|
                0 <= failing < functions@.len() && chunk_layout(functions@[failing]@.body)
                    == Err::<ChunkView, GenerateError>(error) && forall|index: int|
                    0 <= index < failing ==> (#[trigger] chunk_layout(
                        functions@[index]@.body,
                    )) is Ok,
        },
{
    let mut chunks: Vec<Chunk> = Vec::new();
    let mut index: usize = 0;
    while index < functions.len()
        invariant
            index <= functions@.len(),
            assembled(crate::ir::chunks_view(functions@), chunks@, index as int),
        decreases functions@.len() - index,
    {
        match Generator::new().generate(&functions[index].body) {
            Ok(chunk) => {
                chunks.push(chunk);
            },
            Err(error) => {
                assert forall|other: int| 0 <= other < index implies (#[trigger] chunk_layout(
                    functions@[other]@.body,
                )) is Ok by {
                    assert(chunk_layout(crate::ir::chunks_view(functions@)[other].body) == Ok::<
                        ChunkView,
                        GenerateError,
                    >(chunks@[other]@));
                }
                return Err(error);
            },
        }
        index += 1;
    }
    Ok(chunks)
}

} // verus!
