//! The resolved program: the shape of the syntax tree with every name
//! replaced by its index in one table of identifiers, literals replaced by
//! their values, and the modules and functions gathered into headers.

use std::collections::HashMap;
use vstd::prelude::*;

verus! {

/// What a compilation comes to.
#[derive(Debug, PartialEq)]
pub struct Executable {
    /// The declarations of the file that was compiled.
    pub package_header: PackageHeader,
    /// The spelling of every identifier, at its index.
    pub identifiers: Vec<Vec<u8>>,
    /// The body of every function, in the order in which they were met.
    pub chunks: Vec<Chunk>,
}

/// The declarations of a package.
#[derive(Debug, PartialEq)]
pub struct PackageHeader {
    pub package_headers: HashMap<usize, PackageHeader>,
    pub use_declarations: Vec<Path>,
    pub mod_headers: HashMap<usize, ModHeader>,
    pub fn_headers: HashMap<usize, usize>,
}

/// The declarations of a module: what it uses, its modules by name, and
/// for each function's name the index of the function's chunk.
#[derive(Debug, PartialEq)]
pub struct ModHeader {
    pub use_declarations: Vec<Path>,
    pub mod_headers: HashMap<usize, ModHeader>,
    pub fn_headers: HashMap<usize, usize>,
}

/// A function: the names of its parameters, and its body.
#[derive(Debug, PartialEq)]
pub struct Chunk {
    pub parameters: Vec<usize>,
    pub body: Block,
}

/// The statements of a block.
#[derive(Debug, PartialEq)]
pub struct Block {
    pub statements: Vec<Statement>,
}

/// A statement of a block.
#[derive(Debug, PartialEq)]
pub enum Statement {
    Bind(BindStatement),
    Expression(ExpressionStatement),
}

/// `let name = expression;`, with the index of the name.
#[derive(Debug, PartialEq)]
pub struct BindStatement {
    pub is_mut: bool,
    pub name: usize,
    pub expression: Expression,
}

/// An expression that stands as a statement, with or without `;`.
#[derive(Debug, PartialEq)]
pub struct ExpressionStatement {
    pub expression: Expression,
    pub has_semicolon: bool,
}

/// An expression.
#[derive(Debug, PartialEq)]
pub enum Expression {
    Literal(LiteralExpression),
    Path(Path),
    Access(AccessExpression),
    Call(CallExpression),
    Unary(UnaryExpression),
    Binary(BinaryExpression),
    If(IfExpression),
    While(WhileExpression),
}

/// A literal's value, or a name. A `Float` holds the bit pattern of an
/// IEEE 754 double.
#[derive(Clone, Copy, Debug, PartialEq, Eq, Structural)]
pub enum LiteralExpression {
    Int(i64),
    Float(u64),
    Bool(bool),
    Identifier(usize),
}

/// `receiver.field`, with the index of the field's name.
#[derive(Debug, PartialEq)]
pub struct AccessExpression {
    pub receiver: Box<Expression>,
    pub field: usize,
}

/// `receiver(arguments)`
#[derive(Debug, PartialEq)]
pub struct CallExpression {
    pub receiver: Box<Expression>,
    pub arguments: Vec<Expression>,
}

/// An operator before its operand.
#[derive(Debug, PartialEq)]
pub struct UnaryExpression {
    pub operator: UnaryOperator,
    pub operand: Box<Expression>,
}

/// The operators that stand before an operand.
#[derive(Clone, Copy, Debug, PartialEq, Eq, Structural)]
pub enum UnaryOperator {
    Negate,
    Not,
}

/// An operator between its operands.
#[derive(Debug, PartialEq)]
pub struct BinaryExpression {
    pub left_operand: Box<Expression>,
    pub operator: BinaryOperator,
    pub right_operand: Box<Expression>,
}

/// The operators that stand between two operands.
#[derive(Clone, Copy, Debug, PartialEq, Eq, Structural)]
pub enum BinaryOperator {
    And,
    Or,
    Greater,
    GreaterEqual,
    Less,
    LessEqual,
    Equal,
    NotEqual,
    Add,
    Subtract,
    Multiply,
    Divide,
}

/// `if condition { .. }`, with what follows `else` if anything does.
#[derive(Debug, PartialEq)]
pub struct IfExpression {
    pub condition: Box<Expression>,
    pub body: Block,
    pub else_body: Option<ElseBody>,
}

/// What follows `else`: a block, or another `if`.
#[derive(Debug, PartialEq)]
pub enum ElseBody {
    Else(Block),
    If(Box<IfExpression>),
}

/// `while condition { .. }`
#[derive(Debug, PartialEq)]
pub struct WhileExpression {
    pub condition: Box<Expression>,
    pub body: Block,
}

/// Names joined by `::`.
#[derive(Debug, PartialEq)]
pub struct Path {
    pub components: Vec<usize>,
}

/// The model of a [`Statement`]. A block is the sequence of its statements.
pub enum StatementView {
    Bind { is_mut: bool, name: usize, expression: ExpressionView },
    Expression { expression: ExpressionView, has_semicolon: bool },
}

/// The model of an [`Expression`].
#[allow(inconsistent_fields)]
pub enum ExpressionView {
    Literal(LiteralExpression),
    Path { components: Seq<usize> },
    Access { receiver: Box<ExpressionView>, field: usize },
    Call { receiver: Box<ExpressionView>, arguments: Seq<ExpressionView> },
    Unary { operator: UnaryOperator, operand: Box<ExpressionView> },
    Binary {
        left_operand: Box<ExpressionView>,
        operator: BinaryOperator,
        right_operand: Box<ExpressionView>,
    },
    If(IfView),
    While { condition: Box<ExpressionView>, body: Seq<StatementView> },
}

/// The model of an [`IfExpression`].
pub struct IfView {
    pub condition: Box<ExpressionView>,
    pub body: Seq<StatementView>,
    pub else_body: Option<ElseView>,
}

/// The model of an [`ElseBody`].
pub enum ElseView {
    Else(Seq<StatementView>),
    If(Box<IfView>),
}

/// The model of a [`Chunk`].
pub struct ChunkView {
    pub parameters: Seq<usize>,
    pub body: Seq<StatementView>,
}

/// The model of a [`ModHeader`], and of a [`PackageHeader`], which holds
/// no packages.
pub struct HeaderView {
    pub use_declarations: Seq<Seq<usize>>,
    pub mod_headers: Map<usize, HeaderView>,
    pub fn_headers: Map<usize, usize>,
}

/// The model of an [`Executable`].
pub struct ExecutableView {
    pub package_header: HeaderView,
    pub identifiers: Seq<Seq<u8>>,
    pub chunks: Seq<ChunkView>,
}

/// The models of the statements.
pub open spec fn statements_view(statements: &Vec<Statement>) -> Seq<StatementView>
    decreases statements, 0nat,
{
    Seq::new(
        statements.len() as nat,
        |index: int|
            if 0 <= index < statements.len() {
                statements[index].model()
            } else {
                arbitrary()
            },
    )
}

/// The models of the expressions.
pub open spec fn expressions_view(expressions: &Vec<Expression>) -> Seq<ExpressionView>
    decreases expressions, 0nat,
{
    Seq::new(
        expressions.len() as nat,
        |index: int|
            if 0 <= index < expressions.len() {
                expressions[index].model()
            } else {
                arbitrary()
            },
    )
}

/// The components of each path.
pub open spec fn paths_view(paths: Seq<Path>) -> Seq<Seq<usize>> {
    paths.map_values(|path: Path| path.components@)
}

/// The models of the chunks.
pub open spec fn chunks_view(chunks: Seq<Chunk>) -> Seq<ChunkView> {
    chunks.map_values(|chunk: Chunk| chunk@)
}

/// The spellings as sequences.
pub open spec fn spellings(identifiers: Seq<Vec<u8>>) -> Seq<Seq<u8>> {
    identifiers.map_values(|identifier: Vec<u8>| identifier@)
}

/// The models of the headers, by name.
pub open spec fn headers_view(headers: &HashMap<usize, ModHeader>) -> Map<usize, HeaderView>
    decreases headers, 0nat,
{
    Map::new(
        |name: usize| headers@.contains_key(name),
        |name: usize|
            if headers@.dom().finite() && headers@.contains_key(name) {
                headers@[name].model()
            } else {
                arbitrary()
            },
    )
}

impl ModHeader {
    /// The model of the header.
    pub open spec fn model(&self) -> HeaderView
        decreases self, 0nat,
    {
        HeaderView {
            use_declarations: paths_view(self.use_declarations@),
            mod_headers: headers_view(&self.mod_headers),
            fn_headers: self.fn_headers@,
        }
    }
}

impl PackageHeader {
    /// The model of the header.
    pub open spec fn model(&self) -> HeaderView {
        HeaderView {
            use_declarations: paths_view(self.use_declarations@),
            mod_headers: headers_view(&self.mod_headers),
            fn_headers: self.fn_headers@,
        }
    }
}

impl Block {
    /// The model of the block: the models of its statements.
    pub open spec fn model(&self) -> Seq<StatementView>
        decreases self, 0nat,
    {
        statements_view(&self.statements)
    }
}

impl Statement {
    /// The model of the statement.
    pub open spec fn model(&self) -> StatementView
        decreases self, 0nat,
    {
        match self {
            Statement::Bind(statement) => StatementView::Bind {
                is_mut: statement.is_mut,
                name: statement.name,
                expression: statement.expression.model(),
            },
            Statement::Expression(statement) => StatementView::Expression {
                expression: statement.expression.model(),
                has_semicolon: statement.has_semicolon,
            },
        }
    }
}

impl Expression {
    /// The model of the expression.
    pub open spec fn model(&self) -> ExpressionView
        decreases self, 0nat,
    {
        match self {
            Expression::Literal(literal) => ExpressionView::Literal(*literal),
            Expression::Path(path) => ExpressionView::Path { components: path.components@ },
            Expression::Access(access) => ExpressionView::Access {
                receiver: Box::new(access.receiver.model()),
                field: access.field,
            },
            Expression::Call(call) => ExpressionView::Call {
                receiver: Box::new(call.receiver.model()),
                arguments: expressions_view(&call.arguments),
            },
            Expression::Unary(unary) => ExpressionView::Unary {
                operator: unary.operator,
                operand: Box::new(unary.operand.model()),
            },
            Expression::Binary(binary) => ExpressionView::Binary {
                left_operand: Box::new(binary.left_operand.model()),
                operator: binary.operator,
                right_operand: Box::new(binary.right_operand.model()),
            },
            Expression::If(if_expression) => ExpressionView::If(if_expression.model()),
            Expression::While(while_expression) => ExpressionView::While {
                condition: Box::new(while_expression.condition.model()),
                body: while_expression.body.model(),
            },
        }
    }
}

impl IfExpression {
    /// The model of the `if`.
    pub open spec fn model(&self) -> IfView
        decreases self, 0nat,
    {
        IfView {
            condition: Box::new(self.condition.model()),
            body: self.body.model(),
            else_body: match self.else_body {
                Some(else_body) => Some(else_body.model()),
                None => None,
            },
        }
    }
}

impl ElseBody {
    /// The model of what follows `else`.
    pub open spec fn model(&self) -> ElseView
        decreases self, 0nat,
    {
        match self {
            ElseBody::Else(block) => ElseView::Else(block.model()),
            ElseBody::If(if_expression) => ElseView::If(Box::new(if_expression.model())),
        }
    }
}

impl View for ModHeader {
    type V = HeaderView;

    open spec fn view(&self) -> HeaderView {
        self.model()
    }
}

impl View for PackageHeader {
    type V = HeaderView;

    open spec fn view(&self) -> HeaderView {
        self.model()
    }
}

impl View for Chunk {
    type V = ChunkView;

    open spec fn view(&self) -> ChunkView {
        ChunkView { parameters: self.parameters@, body: self.body.model() }
    }
}

impl View for Block {
    type V = Seq<StatementView>;

    open spec fn view(&self) -> Seq<StatementView> {
        self.model()
    }
}

impl View for Statement {
    type V = StatementView;

    open spec fn view(&self) -> StatementView {
        self.model()
    }
}

impl View for Expression {
    type V = ExpressionView;

    open spec fn view(&self) -> ExpressionView {
        self.model()
    }
}

impl View for IfExpression {
    type V = IfView;

    open spec fn view(&self) -> IfView {
        self.model()
    }
}

impl View for ElseBody {
    type V = ElseView;

    open spec fn view(&self) -> ElseView {
        self.model()
    }
}

impl View for Executable {
    type V = ExecutableView;

    open spec fn view(&self) -> ExecutableView {
        ExecutableView {
            package_header: self.package_header.model(),
            identifiers: spellings(self.identifiers@),
            chunks: chunks_view(self.chunks@),
        }
    }
}

} // verus!
