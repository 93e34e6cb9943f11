//! The syntax tree that the parser builds, and its mathematical model.
//!
//! Every node type has a model in which vectors are sequences and a token
//! is its kind with the range that it covers. The parser's contract speaks
//! of models; `@` gives the model of a node.

use crate::span::{Spanned, SpannedView};
use crate::token::Token;
use vstd::prelude::*;

verus! {

/// A file: the declarations of a module.
#[derive(Debug, PartialEq)]
pub struct File {
    pub declarations: Vec<Declaration>,
}

/// What a file declares.
#[derive(Debug, PartialEq)]
pub enum Declaration {
    Use(UseDeclaration),
    Mod(ModDeclaration),
    Fn(FnDeclaration),
}

/// `use` and the trees of paths that it names.
#[derive(Debug, PartialEq)]
pub struct UseDeclaration {
    pub trees: Vec<UseTree>,
}

/// A tree of the paths that a `use` names.
#[derive(Debug, PartialEq)]
pub enum UseTree {
    Branch(UseTreeBranch),
    Leaf(Spanned<Token>),
}

/// A path component and what follows it after `::`.
#[derive(Debug, PartialEq)]
pub struct UseTreeBranch {
    pub component: Spanned<Token>,
    pub subtrees: Vec<UseTree>,
}

/// `mod name { .. }`, or `mod name;` whose body is found elsewhere.
#[derive(Debug, PartialEq)]
pub struct ModDeclaration {
    pub name: Spanned<Token>,
    pub body: Option<File>,
}

/// `fn name(parameters) { .. }`
#[derive(Debug, PartialEq)]
pub struct FnDeclaration {
    pub name: Spanned<Token>,
    pub parameters: Vec<Spanned<Token>>,
    pub body: Block,
}

/// The statements between two braces. The block's value is that of its
/// last statement if that is an expression without a semicolon.
#[derive(Debug, PartialEq)]
pub struct Block {
    pub statements: Vec<Statement>,
}

/// A statement of a block.
#[derive(Debug, PartialEq)]
pub enum Statement {
    Bind(BindStatement),
    Expression(ExpressionStatement),
}

/// `let pattern = expression;`
#[derive(Debug, PartialEq)]
pub struct BindStatement {
    pub is_mut: bool,
    pub pattern: Pattern,
    pub expression: Expression,
}

/// An expression that stands as a statement, with or without `;`.
#[derive(Debug, PartialEq)]
pub struct ExpressionStatement {
    pub expression: Expression,
    pub has_semicolon: bool,
}

/// An expression.
#[derive(Debug, PartialEq)]
pub enum Expression {
    Literal(Spanned<Token>),
    Path(Path),
    Access(AccessExpression),
    Call(CallExpression),
    Unary(UnaryExpression),
    Binary(BinaryExpression),
    Assign(AssignExpression),
    If(IfExpression),
    While(WhileExpression),
}

/// `receiver.field`
#[derive(Debug, PartialEq)]
pub struct AccessExpression {
    pub receiver: Box<Expression>,
    pub field: Spanned<Token>,
}

/// `receiver(arguments)`
#[derive(Debug, PartialEq)]
pub struct CallExpression {
    pub receiver: Box<Expression>,
    pub arguments: Vec<Expression>,
}

/// An operator before its operand.
#[derive(Debug, PartialEq)]
pub struct UnaryExpression {
    pub operator: Spanned<Token>,
    pub operand: Box<Expression>,
}

/// An operator between its operands.
#[derive(Debug, PartialEq)]
pub struct BinaryExpression {
    pub left_operand: Box<Expression>,
    pub operator: Spanned<Token>,
    pub right_operand: Box<Expression>,
}

/// `pattern = operand`
#[derive(Debug, PartialEq)]
pub struct AssignExpression {
    pub pattern: Pattern,
    pub operand: Box<Expression>,
}

/// `if condition { .. }`, with what follows `else` if anything does.
#[derive(Debug, PartialEq)]
pub struct IfExpression {
    pub condition: Box<Expression>,
    pub body: Block,
    pub else_body: Option<ElseBody>,
}

/// What follows `else`: a block, or another `if`.
#[derive(Debug, PartialEq)]
pub enum ElseBody {
    Else(Block),
    If(Box<IfExpression>),
}

/// `while condition { .. }`
#[derive(Debug, PartialEq)]
pub struct WhileExpression {
    pub condition: Box<Expression>,
    pub body: Block,
}

/// Names joined by `::`.
#[derive(Debug, PartialEq)]
pub struct Path {
    pub components: Vec<Spanned<Token>>,
}

/// What a `let` binds to.
#[derive(Debug, PartialEq)]
pub enum Pattern {
    Literal(Spanned<Token>),
}

/// The model of a token with its span.
pub type TokenView = SpannedView<Token>;

/// The model of a [`UseTree`].
pub enum UseTreeView {
    Branch { component: TokenView, subtrees: Seq<UseTreeView> },
    Leaf(TokenView),
}

/// The model of a [`Declaration`]. A file is the sequence of its
/// declarations.
pub enum DeclarationView {
    Use { trees: Seq<UseTreeView> },
    Mod { name: TokenView, body: Option<Seq<DeclarationView>> },
    Fn { name: TokenView, parameters: Seq<TokenView>, block: Seq<StatementView> },
}

/// The model of a [`Statement`]. A block is the sequence of its statements.
pub enum StatementView {
    Bind { is_mut: bool, pattern: TokenView, expression: ExpressionView },
    Expression { expression: ExpressionView, has_semicolon: bool },
}

/// The model of an [`Expression`].
pub enum ExpressionView {
    Literal(TokenView),
    Path { components: Seq<TokenView> },
    Access { receiver: Box<ExpressionView>, field: TokenView },
    Call { receiver: Box<ExpressionView>, arguments: Seq<ExpressionView> },
    Unary { operator: TokenView, operand: Box<ExpressionView> },
    Binary { left_operand: Box<ExpressionView>, operator: TokenView, right_operand: Box<ExpressionView> },
    Assign { pattern: TokenView, operand: Box<ExpressionView> },
    If(IfView),
    While { condition: Box<ExpressionView>, body: Seq<StatementView> },
}

/// The model of an [`IfExpression`].
pub struct IfView {
    pub condition: Box<ExpressionView>,
    pub body: Seq<StatementView>,
    pub else_body: Option<ElseView>,
}

/// The model of an [`ElseBody`].
pub enum ElseView {
    Else(Seq<StatementView>),
    If(Box<IfView>),
}

/// The models of the tokens.
pub open spec fn tokens_view(tokens: Seq<Spanned<Token>>) -> Seq<TokenView> {
    tokens.map_values(|token: Spanned<Token>| token@)
}

/// The models of the trees.
pub open spec fn use_trees_view(trees: &Vec<UseTree>) -> Seq<UseTreeView>
    decreases trees, 0nat,
{
    Seq::new(
        trees.len() as nat,
        |index: int|
            if 0 <= index < trees.len() {
                trees[index].model()
            } else {
                arbitrary()
            },
    )
}

/// The models of the declarations.
pub open spec fn declarations_view(declarations: &Vec<Declaration>) -> Seq<DeclarationView>
    decreases declarations, 0nat,
{
    Seq::new(
        declarations.len() as nat,
        |index: int|
            if 0 <= index < declarations.len() {
                declarations[index].model()
            } else {
                arbitrary()
            },
    )
}

/// The models of the statements.
pub open spec fn statements_view(statements: &Vec<Statement>) -> Seq<StatementView>
    decreases statements, 0nat,
{
    Seq::new(
        statements.len() as nat,
        |index: int|
            if 0 <= index < statements.len() {
                statements[index].model()
            } else {
                arbitrary()
            },
    )
}

/// The models of the expressions.
pub open spec fn expressions_view(expressions: &Vec<Expression>) -> Seq<ExpressionView>
    decreases expressions, 0nat,
{
    Seq::new(
        expressions.len() as nat,
        |index: int|
            if 0 <= index < expressions.len() {
                expressions[index].model()
            } else {
                arbitrary()
            },
    )
}

impl UseTree {
    /// The model of the tree.
    pub open spec fn model(&self) -> UseTreeView
        decreases self, 0nat,
    {
        match self {
            UseTree::Branch(branch) => UseTreeView::Branch {
                component: branch.component@,
                subtrees: use_trees_view(&branch.subtrees),
            },
            UseTree::Leaf(token) => UseTreeView::Leaf(token@),
        }
    }
}

impl File {
    /// The model of the file: the models of its declarations.
    pub open spec fn model(&self) -> Seq<DeclarationView>
        decreases self, 0nat,
    {
        declarations_view(&self.declarations)
    }
}

impl Declaration {
    /// The model of the declaration.
    pub open spec fn model(&self) -> DeclarationView
        decreases self, 0nat,
    {
        match self {
            Declaration::Use(declaration) => DeclarationView::Use {
                trees: use_trees_view(&declaration.trees),
            },
            Declaration::Mod(declaration) => DeclarationView::Mod {
                name: declaration.name@,
                body: match declaration.body {
                    Some(file) => Some(file.model()),
                    None => None,
                },
            },
            Declaration::Fn(declaration) => DeclarationView::Fn {
                name: declaration.name@,
                parameters: tokens_view(declaration.parameters@),
                block: declaration.body.model(),
            },
        }
    }
}

impl Block {
    /// The model of the block: the models of its statements.
    pub open spec fn model(&self) -> Seq<StatementView>
        decreases self, 0nat,
    {
        statements_view(&self.statements)
    }
}

impl Pattern {
    /// The model of the pattern: the token that it is.
    pub open spec fn model(&self) -> TokenView {
        match self {
            Pattern::Literal(token) => token@,
        }
    }
}

impl Statement {
    /// The model of the statement.
    pub open spec fn model(&self) -> StatementView
        decreases self, 0nat,
    {
        match self {
            Statement::Bind(statement) => StatementView::Bind {
                is_mut: statement.is_mut,
                pattern: statement.pattern.model(),
                expression: statement.expression.model(),
            },
            Statement::Expression(statement) => StatementView::Expression {
                expression: statement.expression.model(),
                has_semicolon: statement.has_semicolon,
            },
        }
    }
}

impl Expression {
    /// The model of the expression.
    pub open spec fn model(&self) -> ExpressionView
        decreases self, 0nat,
    {
        match self {
            Expression::Literal(token) => ExpressionView::Literal(token@),
            Expression::Path(path) => ExpressionView::Path {
                components: tokens_view(path.components@),
            },
            Expression::Access(access) => ExpressionView::Access {
                receiver: Box::new(access.receiver.model()),
                field: access.field@,
            },
            Expression::Call(call) => ExpressionView::Call {
                receiver: Box::new(call.receiver.model()),
                arguments: expressions_view(&call.arguments),
            },
            Expression::Unary(unary) => ExpressionView::Unary {
                operator: unary.operator@,
                operand: Box::new(unary.operand.model()),
            },
            Expression::Binary(binary) => ExpressionView::Binary {
                left_operand: Box::new(binary.left_operand.model()),
                operator: binary.operator@,
                right_operand: Box::new(binary.right_operand.model()),
            },
            Expression::Assign(assign) => ExpressionView::Assign {
                pattern: assign.pattern.model(),
                operand: Box::new(assign.operand.model()),
            },
            Expression::If(if_expression) => ExpressionView::If(if_expression.model()),
            Expression::While(while_expression) => ExpressionView::While {
                condition: Box::new(while_expression.condition.model()),
                body: while_expression.body.model(),
            },
        }
    }
}

impl IfExpression {
    /// The model of the `if`.
    pub open spec fn model(&self) -> IfView
        decreases self, 0nat,
    {
        IfView {
            condition: Box::new(self.condition.model()),
            body: self.body.model(),
            else_body: match self.else_body {
                Some(else_body) => Some(else_body.model()),
                None => None,
            },
        }
    }
}

impl ElseBody {
    /// The model of what follows `else`.
    pub open spec fn model(&self) -> ElseView
        decreases self, 0nat,
    {
        match self {
            ElseBody::Else(block) => ElseView::Else(block.model()),
            ElseBody::If(if_expression) => ElseView::If(Box::new(if_expression.model())),
        }
    }
}

impl View for UseTree {
    type V = UseTreeView;

    open spec fn view(&self) -> UseTreeView {
        self.model()
    }
}

impl View for File {
    type V = Seq<DeclarationView>;

    open spec fn view(&self) -> Seq<DeclarationView> {
        self.model()
    }
}

impl View for Declaration {
    type V = DeclarationView;

    open spec fn view(&self) -> DeclarationView {
        self.model()
    }
}

impl View for Block {
    type V = Seq<StatementView>;

    open spec fn view(&self) -> Seq<StatementView> {
        self.model()
    }
}

impl View for Pattern {
    type V = TokenView;

    open spec fn view(&self) -> TokenView {
        self.model()
    }
}

impl View for Statement {
    type V = StatementView;

    open spec fn view(&self) -> StatementView {
        self.model()
    }
}

impl View for Expression {
    type V = ExpressionView;

    open spec fn view(&self) -> ExpressionView {
        self.model()
    }
}

impl View for IfExpression {
    type V = IfView;

    open spec fn view(&self) -> IfView {
        self.model()
    }
}

impl View for ElseBody {
    type V = ElseView;

    open spec fn view(&self) -> ElseView {
        self.model()
    }
}

} // verus!
