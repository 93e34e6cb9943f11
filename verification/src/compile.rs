//! The compiler: it parses a text and resolves the tree, interning every
//! name and gathering the functions into one list of chunks.
//!
//! What the compiler cannot get for itself, the caller supplies in an
//! [`Environment`]: the texts of the modules that are declared without a
//! body, and the values of the numbers that are written with a fraction.

use crate::ast;
use crate::ast::tokens_view;
use crate::cursor::ParseError;
use crate::ir::{
    chunks_view, expressions_view, headers_view, paths_view, spellings, statements_view,
    AccessExpression, BinaryExpression, BinaryOperator, BindStatement, Block, CallExpression,
    Chunk, ElseBody, Executable, Expression, ExpressionStatement, HeaderView, IfExpression,
    LiteralExpression, ModHeader, PackageHeader, Path, Statement, UnaryExpression,
    UnaryOperator, WhileExpression,
};
use crate::interning::header_grows;
use crate::parse::{diagnostics, Parser};
use crate::resolve::{
    all_digits, binary_operator, decimal_value, empty_header, extended, float_bits,
    int_value, module_declarations, module_source, position, start_of, unary_operator,
    EnvironmentView, Fault, FloatView, ModuleView, Resolved, ResolverView,
};
use crate::span::Spanned;
use crate::token::Token;
use std::collections::HashMap;
use vstd::prelude::*;
use vstd::string::StringSliceAdditionalSpecFns;

verus! {

/// The text of a module, as the caller found it under the module's name.
#[derive(Debug)]
pub struct Module {
    pub name: Vec<u8>,
    pub source: String,
}

/// The value of a number that is written with a fraction: the spelling,
/// and the bit pattern of the double that it denotes.
#[derive(Debug)]
pub struct FloatLiteral {
    pub text: Vec<u8>,
    pub bits: u64,
}

/// What the caller supplies to a compilation.
#[derive(Debug)]
pub struct Environment {
    pub modules: Vec<Module>,
    pub floats: Vec<FloatLiteral>,
}

impl View for Module {
    type V = ModuleView;

    open spec fn view(&self) -> ModuleView {
        ModuleView { name: self.name@, source: vstd::utf8::encode_utf8(self.source@) }
    }
}

impl View for FloatLiteral {
    type V = FloatView;

    open spec fn view(&self) -> FloatView {
        FloatView { text: self.text@, bits: self.bits }
    }
}

impl View for Environment {
    type V = EnvironmentView;

    open spec fn view(&self) -> EnvironmentView {
        EnvironmentView {
            modules: self.modules@.map_values(|module: Module| module@),
            floats: self.floats@.map_values(|float: FloatLiteral| float@),
        }
    }
}

/// Why a text was not compiled. A compilation that fails gives nothing
/// else.
#[derive(Debug, PartialEq)]
pub enum CompileError {
    /// The text, or the text of a module, does not parse.
    Parse(Vec<Spanned<ParseError>>),
    /// The environment has no text for the module of this name.
    FileNotFound(Vec<u8>),
    /// The module of this name is declared within itself.
    ModuleCycle(Vec<u8>),
    /// The environment has no value for the number of this spelling.
    UnknownFloat(Vec<u8>),
    /// A `let` binds to something that is no name.
    InvalidPattern(Spanned<Token>),
    /// A literal is no literal token, or a whole number that is too large.
    InvalidLiteral(Spanned<Token>),
    /// An operator is no operator token of its kind.
    InvalidOperator(Spanned<Token>),
    /// An assignment, which the language does not have yet.
    Assignment(Spanned<Token>),
}

impl View for CompileError {
    type V = Fault;

    open spec fn view(&self) -> Fault {
        match self {
            CompileError::Parse(errors) => Fault::Parse(diagnostics(errors@)),
            CompileError::FileNotFound(name) => Fault::FileNotFound(name@),
            CompileError::ModuleCycle(name) => Fault::ModuleCycle(name@),
            CompileError::UnknownFloat(text) => Fault::UnknownFloat(text@),
            CompileError::InvalidPattern(token) => Fault::InvalidPattern(token@),
            CompileError::InvalidLiteral(token) => Fault::InvalidLiteral(token@),
            CompileError::InvalidOperator(token) => Fault::InvalidOperator(token@),
            CompileError::Assignment(token) => Fault::Assignment(token@),
        }
    }
}

/// Whether a method gave the value and left the state that `model` says,
/// or failed with the fault that `model` says.
pub open spec fn resolves<T: View>(
    result: Result<T, CompileError>,
    after: ResolverView,
    model: Resolved<T::V>,
) -> bool {
    match result {
        Ok(value) => model == Ok::<(T::V, ResolverView), Fault>((value@, after)),
        Err(error) => model == Err::<(T::V, ResolverView), Fault>(error@),
    }
}

/// The components of each path.
pub open spec fn path_views(paths: Seq<Vec<usize>>) -> Seq<Seq<usize>> {
    paths.map_values(|path: Vec<usize>| path@)
}

/// A prefix of digits spells no more than the whole.
pub proof fn decimal_value_grows(digits: Seq<u8>, count: int)
    requires
        0 <= count <= digits.len(),
    ensures
        decimal_value(digits.subrange(0, count)) <= decimal_value(digits),
    decreases digits.len() - count,
{
    if count < digits.len() {
        decimal_value_grows(digits, count + 1);
        assert(digits.subrange(0, count + 1).drop_last() == digits.subrange(0, count));
    } else {
        assert(digits.subrange(0, count) == digits);
    }
}

/// Tells whether two byte strings are the same.
fn same_bytes(left: &Vec<u8>, right: &Vec<u8>) -> (same: bool)
    ensures
        same == (left@ == right@),
{
    if left.len() != right.len() {
        return false;
    }
    let mut index: usize = 0;
    while index < left.len()
        invariant
            left@.len() == right@.len(),
            index <= left@.len(),
            forall|other: int| 0 <= other < index ==> left@[other] == right@[other],
        decreases left@.len() - index,
    {
        if left[index] != right[index] {
            return false;
        }
        index += 1;
    }
    assert(left@ =~= right@);
    true
}

/// Copies a path.
fn copy_indices(bytes: &Vec<usize>) -> (copy: Vec<usize>)
    ensures
        copy@ == bytes@,
{
    let mut copy: Vec<usize> = Vec::new();
    let mut index: usize = 0;
    while index < bytes.len()
        invariant
            index <= bytes@.len(),
            copy@ == bytes@.subrange(0, index as int),
        decreases bytes@.len() - index,
    {
        copy.push(bytes[index]);
        index += 1;
    }
    assert(bytes@.subrange(0, bytes@.len() as int) == bytes@);
    copy
}

/// Reads decimal digits as a whole number.
pub fn parse_int(digits: &Vec<u8>) -> (value: Option<i64>)
    ensures
        value == int_value(digits@),
{
    if digits.len() == 0 {
        return None;
    }
    let mut value: i64 = 0;
    let mut index: usize = 0;
    while index < digits.len()
        invariant
            index <= digits@.len(),
            all_digits(digits@.subrange(0, index as int)),
            0 <= value,
            value == decimal_value(digits@.subrange(0, index as int)),
        decreases digits@.len() - index,
    {
        let byte = digits[index];
        if byte < 48 || byte > 57 {
            return None;
        }
        let digit = (byte - 48) as i64;
        proof {
            assert(digits@.subrange(0, index + 1).drop_last() == digits@.subrange(0, index as int));
            decimal_value_grows(digits@, index + 1);
        }
        if value > (i64::MAX - digit) / 10 {
            return None;
        }
        value = value * 10 + digit;
        index += 1;
    }
    assert(digits@.subrange(0, index as int) == digits@);
    Some(value)
}

/// Maps a token before an operand to its operator.
pub fn unary_operator_of(token: Token) -> (operator: Option<UnaryOperator>)
    ensures
        operator == unary_operator(token),
{
    match token {
        Token::Dash => Some(UnaryOperator::Negate),
        Token::Bang => Some(UnaryOperator::Not),
        _ => None,
    }
}

/// Maps a token between two operands to its operator.
pub fn binary_operator_of(token: Token) -> (operator: Option<BinaryOperator>)
    ensures
        operator == binary_operator(token),
{
    match token {
        Token::AmpAmp => Some(BinaryOperator::And),
        Token::PipePipe => Some(BinaryOperator::Or),
        Token::Greater => Some(BinaryOperator::Greater),
        Token::GreaterEqual => Some(BinaryOperator::GreaterEqual),
        Token::Less => Some(BinaryOperator::Less),
        Token::LessEqual => Some(BinaryOperator::LessEqual),
        Token::EqualEqual => Some(BinaryOperator::Equal),
        Token::BangEqual => Some(BinaryOperator::NotEqual),
        Token::Plus => Some(BinaryOperator::Add),
        Token::Dash => Some(BinaryOperator::Subtract),
        Token::Star => Some(BinaryOperator::Multiply),
        Token::Slash => Some(BinaryOperator::Divide),
        _ => None,
    }
}

impl Environment {
    /// An environment that supplies nothing.
    pub fn new() -> (environment: Environment)
        ensures
            environment@.modules.len() == 0,
            environment@.floats.len() == 0,
    {
        Environment { modules: Vec::new(), floats: Vec::new() }
    }

    /// The text of the first module of the name.
    pub fn module(&self, name: &Vec<u8>) -> (source: Option<&String>)
        ensures
            match source {
                Some(text) => module_source(self@.modules, name@, 0) == Some(
                    vstd::utf8::encode_utf8(text@),
                ),
                None => module_source(self@.modules, name@, 0) is None,
            },
    {
        let mut index: usize = 0;
        while index < self.modules.len()
            invariant
                index <= self.modules@.len(),
                module_source(self@.modules, name@, 0) == module_source(
                    self@.modules,
                    name@,
                    index as int,
                ),
            decreases self.modules@.len() - index,
        {
            if same_bytes(&self.modules[index].name, name) {
                return Some(&self.modules[index].source);
            }
            index += 1;
        }
        None
    }

    /// The value of the first number of the spelling.
    pub fn float(&self, text: &Vec<u8>) -> (bits: Option<u64>)
        ensures
            bits == float_bits(self@.floats, text@, 0),
    {
        let mut index: usize = 0;
        while index < self.floats.len()
            invariant
                index <= self.floats@.len(),
                float_bits(self@.floats, text@, 0) == float_bits(
                    self@.floats,
                    text@,
                    index as int,
                ),
            decreases self.floats@.len() - index,
        {
            if same_bytes(&self.floats[index].text, text) {
                return Some(self.floats[index].bits);
            }
            index += 1;
        }
        None
    }
}

/// A compiler: the table of identifiers and the chunks of one compilation.
#[derive(Debug)]
pub struct Compiler {
    identifiers: Vec<Vec<u8>>,
    chunks: Vec<Chunk>,
}

impl View for Compiler {
    type V = ResolverView;

    closed spec fn view(&self) -> ResolverView {
        ResolverView { identifiers: spellings(self.identifiers@), chunks: chunks_view(self.chunks@) }
    }
}

impl Compiler {
    /// A compiler that has met no identifier and no function yet.
    pub fn new() -> (compiler: Compiler)
        ensures
            compiler@ == ResolverView::initial(),
    {
        let compiler = Compiler { identifiers: Vec::new(), chunks: Vec::new() };
        assert(compiler@.identifiers =~= Seq::empty());
        assert(compiler@.chunks =~= Seq::empty());
        compiler
    }

    /// Adds a function to the chunks and returns its index.
    fn add_chunk(&mut self, chunk: Chunk) -> (index: usize)
        ensures
            index == old(self)@.chunks.len(),
            final(self)@ == (ResolverView {
                chunks: old(self)@.chunks.push(chunk@),
                ..old(self)@
            }),
    {
        assert(chunks_view(self.chunks@.push(chunk)) =~= chunks_view(self.chunks@).push(chunk@));
        self.chunks.push(chunk);
        self.chunks.len() - 1
    }

    /// Interns a spelling: the index at which it stands in the table,
    /// where it is added if it is new.
    pub fn add_identifier(&mut self, identifier: Vec<u8>) -> (index: usize)
        ensures
            (index, final(self)@) == old(self)@.intern(identifier@),
    {
        let mut index: usize = 0;
        while index < self.identifiers.len()
            invariant
                self.identifiers == old(self).identifiers,
                self.chunks == old(self).chunks,
                index <= self.identifiers@.len(),
                position(self@.identifiers, identifier@, 0) == position(
                    self@.identifiers,
                    identifier@,
                    index as int,
                ),
            decreases self.identifiers@.len() - index,
        {
            if same_bytes(&self.identifiers[index], &identifier) {
                return index;
            }
            index += 1;
        }
        assert(spellings(self.identifiers@.push(identifier)) =~= spellings(
            self.identifiers@,
        ).push(identifier@));
        self.identifiers.push(identifier);
        index
    }

    /// Interns the spelling of a token.
    fn add_name(&mut self, token: &Spanned<Token>) -> (index: usize)
        ensures
            (index, final(self)@) == old(self)@.intern(token@.span.bytes()),
    {
        self.add_identifier(token.span.to_bytes())
    }

    /// Interns the spellings of the tokens, in their order.
    fn names(&mut self, tokens: &Vec<Spanned<Token>>) -> (indices: Vec<usize>)
        ensures
            (indices@, final(self)@) == old(self)@.names(tokens_view(tokens@), 0, Seq::empty()),
    {
        let mut indices: Vec<usize> = Vec::new();
        let mut index: usize = 0;
        while index < tokens.len()
            invariant
                index <= tokens@.len(),
                old(self)@.names(tokens_view(tokens@), 0, Seq::empty()) == self@.names(
                    tokens_view(tokens@),
                    index as int,
                    indices@,
                ),
            decreases tokens@.len() - index,
        {
            let name = self.add_name(&tokens[index]);
            indices.push(name);
            index += 1;
        }
        indices
    }

    /// Resolves a literal or a name.
    fn literal_expression(&mut self, environment: &Environment, token: &Spanned<Token>) -> (result:
        Result<LiteralExpression, CompileError>)
        ensures
            match result {
                Ok(literal) => old(self)@.literal(environment@, token@) == Ok::<
                    (LiteralExpression, ResolverView),
                    Fault,
                >((literal, final(self)@)),
                Err(error) => old(self)@.literal(environment@, token@) == Err::<
                    (LiteralExpression, ResolverView),
                    Fault,
                >(error@),
            },
    {
        match token.base {
            Token::Int => match parse_int(&token.span.to_bytes()) {
                Some(value) => Ok(LiteralExpression::Int(value)),
                None => Err(CompileError::InvalidLiteral(token.clone())),
            },
            Token::Float => {
                let text = token.span.to_bytes();
                match environment.float(&text) {
                    Some(bits) => Ok(LiteralExpression::Float(bits)),
                    None => Err(CompileError::UnknownFloat(text)),
                }
            },
            Token::True => Ok(LiteralExpression::Bool(true)),
            Token::False => Ok(LiteralExpression::Bool(false)),
            Token::Identifier => Ok(LiteralExpression::Identifier(self.add_name(token))),
            _ => Err(CompileError::InvalidLiteral(token.clone())),
        }
    }

    /// Resolves an expression: the tree that [`ResolverView::expression`]
    /// gives, or its fault.
    pub fn expression(&mut self, environment: &Environment, expression: &ast::Expression) -> (result:
        Result<Expression, CompileError>)
        ensures
            resolves(result, final(self)@, old(self)@.expression(environment@, expression@)),
        decreases expression,
    {
        match expression {
            ast::Expression::Literal(token) => match self.literal_expression(environment, token) {
                Ok(literal) => Ok(Expression::Literal(literal)),
                Err(error) => Err(error),
            },
            ast::Expression::Path(path) => Ok(
                Expression::Path(Path { components: self.names(&path.components) }),
            ),
            ast::Expression::Access(access) => {
                let receiver = match self.expression(environment, &access.receiver) {
                    Ok(receiver) => receiver,
                    Err(error) => {
                        return Err(error);
                    },
                };
                let field = self.add_name(&access.field);
                Ok(Expression::Access(AccessExpression { receiver: Box::new(receiver), field }))
            },
            ast::Expression::Call(call) => {
                let receiver = match self.expression(environment, &call.receiver) {
                    Ok(receiver) => receiver,
                    Err(error) => {
                        return Err(error);
                    },
                };
                let ghost before = self@;
                let mut arguments: Vec<Expression> = Vec::new();
                let mut index: usize = 0;
                assert(expressions_view(&arguments) =~= Seq::empty());
                while index < call.arguments.len()
                    invariant
                        index <= call.arguments.len(),
                        expression == ast::Expression::Call(*call),
                        old(self)@.expression(environment@, call.receiver.model()) == Ok::<
                            (crate::ir::ExpressionView, ResolverView),
                            Fault,
                        >((receiver@, before)),
                        before.expressions(
                            environment@,
                            ast::expressions_view(&call.arguments),
                            0,
                            Seq::empty(),
                        ) == self@.expressions(
                            environment@,
                            ast::expressions_view(&call.arguments),
                            index as int,
                            expressions_view(&arguments),
                        ),
                    decreases call.arguments.len() - index,
                {
                    let argument = match self.expression(environment, &call.arguments[index]) {
                        Ok(argument) => argument,
                        Err(error) => {
                            return Err(error);
                        },
                    };
                    let ghost prior = expressions_view(&arguments);
                    arguments.push(argument);
                    assert(expressions_view(&arguments) =~= prior.push(argument@));
                    index += 1;
                }
                Ok(Expression::Call(CallExpression { receiver: Box::new(receiver), arguments }))
            },
            ast::Expression::Unary(unary) => {
                let operator = match unary_operator_of(unary.operator.base) {
                    Some(operator) => operator,
                    None => {
                        return Err(CompileError::InvalidOperator(unary.operator.clone()));
                    },
                };
                match self.expression(environment, &unary.operand) {
                    Ok(operand) => Ok(
                        Expression::Unary(UnaryExpression { operator, operand: Box::new(operand) }),
                    ),
                    Err(error) => Err(error),
                }
            },
            ast::Expression::Binary(binary) => {
                let left = match self.expression(environment, &binary.left_operand) {
                    Ok(left) => left,
                    Err(error) => {
                        return Err(error);
                    },
                };
                let operator = match binary_operator_of(binary.operator.base) {
                    Some(operator) => operator,
                    None => {
                        return Err(CompileError::InvalidOperator(binary.operator.clone()));
                    },
                };
                match self.expression(environment, &binary.right_operand) {
                    Ok(right) => Ok(
                        Expression::Binary(
                            BinaryExpression {
                                left_operand: Box::new(left),
                                operator,
                                right_operand: Box::new(right),
                            },
                        ),
                    ),
                    Err(error) => Err(error),
                }
            },
            ast::Expression::Assign(assign) => match &assign.pattern {
                ast::Pattern::Literal(token) => Err(CompileError::Assignment(token.clone())),
            },
            ast::Expression::If(if_expression) => match self.if_expression(
                environment,
                if_expression,
            ) {
                Ok(resolved) => Ok(Expression::If(resolved)),
                Err(error) => Err(error),
            },
            ast::Expression::While(while_expression) => {
                let condition = match self.expression(environment, &while_expression.condition) {
                    Ok(condition) => condition,
                    Err(error) => {
                        return Err(error);
                    },
                };
                match self.block(environment, &while_expression.body) {
                    Ok(body) => Ok(
                        Expression::While(
                            WhileExpression { condition: Box::new(condition), body },
                        ),
                    ),
                    Err(error) => Err(error),
                }
            },
        }
    }

    /// Resolves an `if`.
    fn if_expression(&mut self, environment: &Environment, if_expression: &ast::IfExpression) -> (result:
        Result<IfExpression, CompileError>)
        ensures
            resolves(
                result,
                final(self)@,
                old(self)@.if_expression(environment@, if_expression@),
            ),
        decreases if_expression,
    {
        let condition = match self.expression(environment, &if_expression.condition) {
            Ok(condition) => condition,
            Err(error) => {
                return Err(error);
            },
        };
        let body = match self.block(environment, &if_expression.body) {
            Ok(body) => body,
            Err(error) => {
                return Err(error);
            },
        };
        let else_body = match &if_expression.else_body {
            None => None,
            Some(ast::ElseBody::Else(block)) => match self.block(environment, block) {
                Ok(block) => Some(ElseBody::Else(block)),
                Err(error) => {
                    return Err(error);
                },
            },
            Some(ast::ElseBody::If(nested)) => match self.if_expression(environment, nested) {
                Ok(nested) => Some(ElseBody::If(Box::new(nested))),
                Err(error) => {
                    return Err(error);
                },
            },
        };
        Ok(IfExpression { condition: Box::new(condition), body, else_body })
    }

    /// Resolves a statement.
    fn statement(&mut self, environment: &Environment, statement: &ast::Statement) -> (result:
        Result<Statement, CompileError>)
        ensures
            resolves(result, final(self)@, old(self)@.statement(environment@, statement@)),
        decreases statement,
    {
        match statement {
            ast::Statement::Bind(bind) => match &bind.pattern {
                ast::Pattern::Literal(token) => {
                    if token.base != Token::Identifier {
                        return Err(CompileError::InvalidPattern(token.clone()));
                    }
                    let name = self.add_name(token);
                    match self.expression(environment, &bind.expression) {
                        Ok(expression) => Ok(
                            Statement::Bind(
                                BindStatement { is_mut: bind.is_mut, name, expression },
                            ),
                        ),
                        Err(error) => Err(error),
                    }
                },
            },
            ast::Statement::Expression(statement) => match self.expression(
                environment,
                &statement.expression,
            ) {
                Ok(expression) => Ok(
                    Statement::Expression(
                        ExpressionStatement { expression, has_semicolon: statement.has_semicolon },
                    ),
                ),
                Err(error) => Err(error),
            },
        }
    }

    /// Resolves a block: the statements that [`ResolverView::block`]
    /// gives, or its fault.
    pub fn block(&mut self, environment: &Environment, block: &ast::Block) -> (result: Result<
        Block,
        CompileError,
    >)
        ensures
            resolves(
                result,
                final(self)@,
                old(self)@.block(environment@, block@, 0, Seq::empty()),
            ),
        decreases block,
    {
        let ghost before = self@;
        let mut statements: Vec<Statement> = Vec::new();
        let mut index: usize = 0;
        assert(statements_view(&statements) =~= Seq::empty());
        while index < block.statements.len()
            invariant
                index <= block.statements.len(),
                before == old(self)@,
                before.block(environment@, block@, 0, Seq::empty()) == self@.block(
                    environment@,
                    block@,
                    index as int,
                    statements_view(&statements),
                ),
            decreases block.statements.len() - index,
        {
            let statement = match self.statement(environment, &block.statements[index]) {
                Ok(statement) => statement,
                Err(error) => {
                    return Err(error);
                },
            };
            let ghost prior = statements_view(&statements);
            statements.push(statement);
            assert(statements_view(&statements) =~= prior.push(statement@));
            index += 1;
        }
        Ok(Block { statements })
    }

    /// Resolves a tree of a `use` into the paths that it names.
    fn use_tree(&mut self, tree: &ast::UseTree) -> (paths: Vec<Vec<usize>>)
        ensures
            (path_views(paths@), final(self)@) == old(self)@.use_tree(tree@),
        decreases tree,
    {
        match tree {
            ast::UseTree::Leaf(token) => {
                let index = self.add_name(token);
                let mut path: Vec<usize> = Vec::new();
                path.push(index);
                let mut paths: Vec<Vec<usize>> = Vec::new();
                paths.push(path);
                assert(path@ =~= seq![index]);
                assert(path_views(paths@) =~= seq![seq![index]]);
                paths
            },
            ast::UseTree::Branch(branch) => {
                let component = self.add_name(&branch.component);
                let ghost before = self@;
                let mut paths: Vec<Vec<usize>> = Vec::new();
                let mut index: usize = 0;
                assert(path_views(paths@) =~= Seq::empty());
                while index < branch.subtrees.len()
                    invariant
                        index <= branch.subtrees.len(),
                        decreases_to!(tree => branch.subtrees),
                        before.use_trees(ast::use_trees_view(&branch.subtrees), 0, Seq::empty())
                            == self@.use_trees(
                            ast::use_trees_view(&branch.subtrees),
                            index as int,
                            path_views(paths@),
                        ),
                    decreases branch.subtrees.len() - index,
                {
                    let mut more = self.use_tree(&branch.subtrees[index]);
                    assert(path_views(paths@ + more@) =~= path_views(paths@) + path_views(more@));
                    paths.append(&mut more);
                    index += 1;
                }
                let mut longer: Vec<Vec<usize>> = Vec::new();
                let mut index: usize = 0;
                while index < paths.len()
                    invariant
                        index <= paths@.len(),
                        longer@.len() == index,
                        forall|other: int|
                            0 <= other < index ==> (#[trigger] longer@[other])@
                                == paths@[other]@.push(component),
                    decreases paths@.len() - index,
                {
                    let mut path = copy_indices(&paths[index]);
                    path.push(component);
                    longer.push(path);
                    index += 1;
                }
                assert(path_views(longer@) =~= extended(path_views(paths@), component));
                longer
            },
        }
    }

    /// Resolves the trees of a `use` into paths.
    fn use_declaration(&mut self, declaration: &ast::UseDeclaration) -> (paths: Vec<Path>)
        ensures
            (paths_view(paths@), final(self)@) == old(self)@.use_trees(
                ast::use_trees_view(&declaration.trees),
                0,
                Seq::empty(),
            ),
    {
        let ghost before = self@;
        let mut paths: Vec<Path> = Vec::new();
        let mut index: usize = 0;
        assert(paths_view(paths@) =~= Seq::empty());
        while index < declaration.trees.len()
            invariant
                index <= declaration.trees.len(),
                before.use_trees(ast::use_trees_view(&declaration.trees), 0, Seq::empty())
                    == self@.use_trees(
                    ast::use_trees_view(&declaration.trees),
                    index as int,
                    paths_view(paths@),
                ),
            decreases declaration.trees.len() - index,
        {
            let more = self.use_tree(&declaration.trees[index]);
            let ghost prior = paths@;
            let mut taken: usize = 0;
            while taken < more.len()
                invariant
                    taken <= more@.len(),
                    paths@.len() == prior.len() + taken,
                    forall|other: int| 0 <= other < prior.len() ==> paths@[other] == prior[other],
                    forall|other: int|
                        prior.len() <= other < prior.len() + taken ==> (
                        #[trigger] paths@[other]).components@ == more@[other - prior.len()]@,
                decreases more@.len() - taken,
            {
                paths.push(Path { components: copy_indices(&more[taken]) });
                taken += 1;
            }
            assert(paths_view(paths@) =~= paths_view(prior) + path_views(more@));
            index += 1;
        }
        paths
    }

    /// Resolves a function and adds it to the chunks.
    fn fn_header(&mut self, environment: &Environment, declaration: &ast::FnDeclaration) -> (result:
        Result<usize, CompileError>)
        ensures
            match result {
                Ok(chunk) => old(self)@.fn_header(
                    environment@,
                    tokens_view(declaration.parameters@),
                    declaration.body@,
                ) == Ok::<(usize, ResolverView), Fault>((chunk, final(self)@)),
                Err(error) => old(self)@.fn_header(
                    environment@,
                    tokens_view(declaration.parameters@),
                    declaration.body@,
                ) == Err::<(usize, ResolverView), Fault>(error@),
            },
    {
        let parameters = self.names(&declaration.parameters);
        let body = match self.block(environment, &declaration.body) {
            Ok(body) => body,
            Err(error) => {
                return Err(error);
            },
        };
        Ok(self.add_chunk(Chunk { parameters, body }))
    }

    /// Parses the text that the environment has for a module.
    fn module(environment: &Environment, depth: usize, name: &Spanned<Token>) -> (result: Result<
        ast::File,
        CompileError,
    >)
        ensures
            match result {
                Ok(file) => depth > 0 && module_declarations(
                    environment@,
                    depth as nat,
                    name@.span.bytes(),
                ) == Ok::<Seq<ast::DeclarationView>, Fault>(file@),
                Err(error) => module_declarations(environment@, depth as nat, name@.span.bytes())
                    == Err::<Seq<ast::DeclarationView>, Fault>(error@),
            },
    {
        let spelling = name.span.to_bytes();
        let source = match environment.module(&spelling) {
            Some(source) => source,
            None => {
                return Err(CompileError::FileNotFound(spelling));
            },
        };
        if depth == 0 {
            return Err(CompileError::ModuleCycle(spelling));
        }
        match Parser::new(source.as_str()).parse() {
            Ok(file) => Ok(file),
            Err(errors) => Err(CompileError::Parse(errors)),
        }
    }

    /// Resolves the declarations of a module, or of the package: the
    /// header that [`ResolverView::header`] gives, or its fault.
    pub fn mod_header(&mut self, environment: &Environment, depth: usize, file: &ast::File) -> (result:
        Result<ModHeader, CompileError>)
        ensures
            resolves(
                result,
                final(self)@,
                old(self)@.header(environment@, depth as nat, file@, 0, empty_header()),
            ),
        decreases depth, file,
    {
        let ghost before = self@;
        let mut use_declarations: Vec<Path> = Vec::new();
        let mut mod_headers: HashMap<usize, ModHeader> = HashMap::new();
        let mut fn_headers: HashMap<usize, usize> = HashMap::new();
        let mut index: usize = 0;
        assert(paths_view(use_declarations@) =~= Seq::empty());
        assert(headers_view(&mod_headers) =~= Map::empty());
        while index < file.declarations.len()
            invariant
                index <= file.declarations.len(),
                before == old(self)@,
                before.header(environment@, depth as nat, file@, 0, empty_header())
                    == self@.header(
                    environment@,
                    depth as nat,
                    file@,
                    index as int,
                    HeaderView {
                        use_declarations: paths_view(use_declarations@),
                        mod_headers: headers_view(&mod_headers),
                        fn_headers: fn_headers@,
                    },
                ),
            decreases file.declarations.len() - index,
        {
            match &file.declarations[index] {
                ast::Declaration::Use(declaration) => {
                    let mut paths = self.use_declaration(declaration);
                    assert(paths_view(use_declarations@ + paths@) =~= paths_view(
                        use_declarations@,
                    ) + paths_view(paths@));
                    use_declarations.append(&mut paths);
                },
                ast::Declaration::Mod(declaration) => {
                    let name = self.add_name(&declaration.name);
                    let nested = match &declaration.body {
                        Some(body) => self.mod_header(environment, depth, body),
                        None => match Compiler::module(environment, depth, &declaration.name) {
                            Ok(body) => self.mod_header(environment, depth - 1, &body),
                            Err(error) => Err(error),
                        },
                    };
                    let header = match nested {
                        Ok(header) => header,
                        Err(error) => {
                            return Err(error);
                        },
                    };
                    let ghost prior = headers_view(&mod_headers);
                    mod_headers.insert(name, header);
                    assert(headers_view(&mod_headers) =~= prior.insert(name, header@));
                },
                ast::Declaration::Fn(declaration) => {
                    let name = self.add_name(&declaration.name);
                    let chunk = match self.fn_header(environment, declaration) {
                        Ok(chunk) => chunk,
                        Err(error) => {
                            return Err(error);
                        },
                    };
                    fn_headers.insert(name, chunk);
                },
            }
            index += 1;
        }
        Ok(ModHeader { use_declarations, mod_headers, fn_headers })
    }

    /// Resolves the declarations of the file that is compiled.
    fn package_header(&mut self, environment: &Environment, depth: usize, file: &ast::File) -> (result:
        Result<PackageHeader, CompileError>)
        ensures
            resolves(
                result,
                final(self)@,
                old(self)@.header(environment@, depth as nat, file@, 0, empty_header()),
            ),
            result matches Ok(header) ==> header.package_headers@ == Map::<
                usize,
                PackageHeader,
            >::empty(),
    {
        match self.mod_header(environment, depth, file) {
            Ok(header) => Ok(
                PackageHeader {
                    package_headers: HashMap::new(),
                    use_declarations: header.use_declarations,
                    mod_headers: header.mod_headers,
                    fn_headers: header.fn_headers,
                },
            ),
            Err(error) => Err(error),
        }
    }

    /// Compiles a text: it is parsed, and its declarations are resolved.
    /// The result is what [`ResolverView::compile`] gives for the text and
    /// the environment: the program, or the fault that ended the
    /// compilation.
    pub fn compile(self, source: &str, environment: &Environment) -> (result: Result<
        Executable,
        CompileError,
    >)
        ensures
            match result {
                Ok(executable) => self@.compile(source.spec_bytes(), environment@) == Ok::<
                    crate::ir::ExecutableView,
                    Fault,
                >(executable@),
                Err(error) => self@.compile(source.spec_bytes(), environment@) == Err::<
                    crate::ir::ExecutableView,
                    Fault,
                >(error@),
            },
            self@.identifiers.no_duplicates() ==> (result matches Ok(executable)
                ==> executable@.identifiers.no_duplicates()),
    {
        proof {
            match start_of(source.spec_bytes()).file(false).result {
                Ok(declarations) => {
                    header_grows(
                        self@,
                        environment@,
                        environment@.modules.len(),
                        declarations,
                        0,
                        empty_header(),
                    );
                },
                Err(_) => {},
            }
        }
        let file = match Parser::new(source).parse() {
            Ok(file) => file,
            Err(errors) => {
                return Err(CompileError::Parse(errors));
            },
        };
        let mut compiler = self;
        let depth = environment.modules.len();
        match compiler.package_header(environment, depth, &file) {
            Ok(package_header) => Ok(
                Executable {
                    package_header,
                    identifiers: compiler.identifiers,
                    chunks: compiler.chunks,
                },
            ),
            Err(error) => Err(error),
        }
    }
}

/// The chunk of the function that a program declares at its top under a
/// name: the index that the name's header gives, if the name was met and
/// heads a function.
pub open spec fn function_named(executable: crate::ir::ExecutableView, name: Seq<u8>) -> Option<
    usize,
> {
    match position(executable.identifiers, name, 0) {
        Some(index) => if executable.package_header.fn_headers.contains_key(index as usize) {
            Some(executable.package_header.fn_headers[index as usize])
        } else {
            None
        },
        None => None,
    }
}

/// Finds the chunk of a function that a program declares at its top.
pub fn function(executable: &Executable, name: &Vec<u8>) -> (chunk: Option<usize>)
    ensures
        chunk == function_named(executable@, name@),
{
    let mut index: usize = 0;
    while index < executable.identifiers.len()
        invariant
            index <= executable.identifiers@.len(),
            position(executable@.identifiers, name@, 0) == position(
                executable@.identifiers,
                name@,
                index as int,
            ),
        decreases executable.identifiers@.len() - index,
    {
        if same_bytes(&executable.identifiers[index], name) {
            return match executable.package_header.fn_headers.get(&index) {
                Some(chunk) => Some(*chunk),
                None => None,
            };
        }
        index += 1;
    }
    None
}

} // verus!
