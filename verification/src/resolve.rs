//! What resolving a syntax tree comes to: functions from the model of a
//! tree and the compiler's state to the model of the resolved tree and the
//! state afterwards, or to the fault that ends the compilation.
//!
//! The state is the table of identifiers and the chunks gathered so far.
//! Names are interned in the order in which the walk meets them, depth
//! first and left to right; a name that is in the table keeps its index.

use crate::ast;
use crate::ast::TokenView;
use crate::cursor::{Diagnostic, ParserView};
use crate::ir::{
    BinaryOperator, ChunkView, ElseView, ExecutableView, ExpressionView, HeaderView, IfView,
    LiteralExpression, StatementView, UnaryOperator,
};
use crate::token::Token;
use vstd::prelude::*;

verus! {

/// The model of a fault.
pub enum Fault {
    /// The text, or the text of a module, does not parse.
    Parse(Seq<Diagnostic>),
    /// No text was supplied for the module of this name.
    FileNotFound(Seq<u8>),
    /// The module of this name is declared within itself.
    ModuleCycle(Seq<u8>),
    /// No value was supplied for the number of this spelling.
    UnknownFloat(Seq<u8>),
    /// A `let` binds to something that is no name.
    InvalidPattern(TokenView),
    /// A literal is no literal token, or a whole number that is too large.
    InvalidLiteral(TokenView),
    /// An operator is no operator token of its kind.
    InvalidOperator(TokenView),
    /// An assignment, which the language does not have yet.
    Assignment(TokenView),
}

/// The model of a module's text as it was supplied.
pub struct ModuleView {
    pub name: Seq<u8>,
    pub source: Seq<u8>,
}

/// The model of a number with a fraction as it was supplied: its spelling
/// and the bit pattern of the double that the spelling denotes.
pub struct FloatView {
    pub text: Seq<u8>,
    pub bits: u64,
}

/// The model of what the caller supplies.
pub struct EnvironmentView {
    pub modules: Seq<ModuleView>,
    pub floats: Seq<FloatView>,
}

/// The model of a compiler's state.
pub struct ResolverView {
    /// The spelling of every identifier met so far, at its index.
    pub identifiers: Seq<Seq<u8>>,
    /// The functions met so far.
    pub chunks: Seq<ChunkView>,
}

/// A resolved value with the state afterwards, or the fault.
pub type Resolved<T> = Result<(T, ResolverView), Fault>;

/// The first index at or after `from` at which `name` stands in `table`.
pub open spec fn position(table: Seq<Seq<u8>>, name: Seq<u8>, from: int) -> Option<int>
    decreases table.len() - from,
{
    if from < 0 || from >= table.len() {
        None
    } else if table[from] == name {
        Some(from)
    } else {
        position(table, name, from + 1)
    }
}

/// The text of the first module of the name.
pub open spec fn module_source(modules: Seq<ModuleView>, name: Seq<u8>, from: int) -> Option<
    Seq<u8>,
>
    decreases modules.len() - from,
{
    if from < 0 || from >= modules.len() {
        None
    } else if modules[from].name == name {
        Some(modules[from].source)
    } else {
        module_source(modules, name, from + 1)
    }
}

/// The value of the first number of the spelling.
pub open spec fn float_bits(floats: Seq<FloatView>, text: Seq<u8>, from: int) -> Option<u64>
    decreases floats.len() - from,
{
    if from < 0 || from >= floats.len() {
        None
    } else if floats[from].text == text {
        Some(floats[from].bits)
    } else {
        float_bits(floats, text, from + 1)
    }
}

/// The number that decimal digits spell.
pub open spec fn decimal_value(digits: Seq<u8>) -> nat
    decreases digits.len(),
{
    if digits.len() == 0 {
        0
    } else {
        decimal_value(digits.drop_last()) * 10 + (digits.last() - 48) as nat
    }
}

/// Whether every byte is a decimal digit.
pub open spec fn all_digits(digits: Seq<u8>) -> bool {
    forall|index: int| 0 <= index < digits.len() ==> 48 <= #[trigger] digits[index] <= 57
}

/// The whole number that a literal spells: its digits read in base ten,
/// if there are digits and nothing else and the number fits.
pub open spec fn int_value(digits: Seq<u8>) -> Option<i64> {
    if digits.len() > 0 && all_digits(digits) && decimal_value(digits) <= i64::MAX {
        Some(decimal_value(digits) as i64)
    } else {
        None
    }
}

/// The operator that a token before an operand is.
pub open spec fn unary_operator(token: Token) -> Option<UnaryOperator> {
    match token {
        Token::Dash => Some(UnaryOperator::Negate),
        Token::Bang => Some(UnaryOperator::Not),
        _ => None,
    }
}

/// The operator that a token between two operands is.
pub open spec fn binary_operator(token: Token) -> Option<BinaryOperator> {
    match token {
        Token::AmpAmp => Some(BinaryOperator::And),
        Token::PipePipe => Some(BinaryOperator::Or),
        Token::Greater => Some(BinaryOperator::Greater),
        Token::GreaterEqual => Some(BinaryOperator::GreaterEqual),
        Token::Less => Some(BinaryOperator::Less),
        Token::LessEqual => Some(BinaryOperator::LessEqual),
        Token::EqualEqual => Some(BinaryOperator::Equal),
        Token::BangEqual => Some(BinaryOperator::NotEqual),
        Token::Plus => Some(BinaryOperator::Add),
        Token::Dash => Some(BinaryOperator::Subtract),
        Token::Star => Some(BinaryOperator::Multiply),
        Token::Slash => Some(BinaryOperator::Divide),
        _ => None,
    }
}

/// A header with nothing in it.
pub open spec fn empty_header() -> HeaderView {
    HeaderView { use_declarations: Seq::empty(), mod_headers: Map::empty(), fn_headers: Map::empty() }
}

/// Each path with `component` added at its end.
pub open spec fn extended(paths: Seq<Seq<usize>>, component: usize) -> Seq<Seq<usize>> {
    paths.map_values(|path: Seq<usize>| path.push(component))
}

/// A parser's state at the start of a text.
pub open spec fn start_of(source: Seq<u8>) -> ParserView {
    ParserView { source, offset: 0, current: None }
}

/// The declarations of a module that is declared without a body: the text
/// that was supplied under its name, parsed. `depth` is the number of such
/// modules that may still be entered, one within the other; where it is
/// used up, a module is declared within itself.
pub open spec fn module_declarations(environment: EnvironmentView, depth: nat, name: Seq<u8>)
    -> Result<Seq<ast::DeclarationView>, Fault> {
    match module_source(environment.modules, name, 0) {
        None => Err(Fault::FileNotFound(name)),
        Some(source) => if depth == 0 {
            Err(Fault::ModuleCycle(name))
        } else {
            match start_of(source).file(false).result {
                Err(errors) => Err(Fault::Parse(errors)),
                Ok(declarations) => Ok(declarations),
            }
        },
    }
}

impl ResolverView {
    /// The state in which a compilation begins.
    pub open spec fn initial() -> ResolverView {
        ResolverView { identifiers: Seq::empty(), chunks: Seq::empty() }
    }

    /// The index of a spelling: where it stands in the table, or, for one
    /// that is new, the end of the table, where it is added.
    pub open spec fn intern(self, name: Seq<u8>) -> (usize, ResolverView) {
        match position(self.identifiers, name, 0) {
            Some(index) => (index as usize, self),
            None => (
                self.identifiers.len() as usize,
                ResolverView { identifiers: self.identifiers.push(name), ..self },
            ),
        }
    }

    /// The indices of the names from `from` on, after `indices`.
    pub open spec fn names(self, tokens: Seq<TokenView>, from: int, indices: Seq<usize>) -> (
        Seq<usize>,
        ResolverView,
    )
        decreases tokens.len() - from,
    {
        if from < 0 || from >= tokens.len() {
            (indices, self)
        } else {
            let (index, next) = self.intern(tokens[from].span.bytes());
            next.names(tokens, from + 1, indices.push(index))
        }
    }

    /// A literal's value, or a name's index.
    pub open spec fn literal(self, environment: EnvironmentView, token: TokenView) -> Resolved<
        LiteralExpression,
    > {
        let text = token.span.bytes();
        match token.base {
            Token::Int => match int_value(text) {
                Some(value) => Ok((LiteralExpression::Int(value), self)),
                None => Err(Fault::InvalidLiteral(token)),
            },
            Token::Float => match float_bits(environment.floats, text, 0) {
                Some(bits) => Ok((LiteralExpression::Float(bits), self)),
                None => Err(Fault::UnknownFloat(text)),
            },
            Token::True => Ok((LiteralExpression::Bool(true), self)),
            Token::False => Ok((LiteralExpression::Bool(false), self)),
            Token::Identifier => {
                let (index, next) = self.intern(text);
                Ok((LiteralExpression::Identifier(index), next))
            },
            _ => Err(Fault::InvalidLiteral(token)),
        }
    }

    /// An expression. Its parts are resolved in the order in which they
    /// are written; the name of a field after its receiver.
    pub open spec fn expression(
        self,
        environment: EnvironmentView,
        expression: ast::ExpressionView,
    ) -> Resolved<ExpressionView>
        decreases expression, 0nat,
    {
        match expression {
            ast::ExpressionView::Literal(token) => match self.literal(environment, token) {
                Err(fault) => Err(fault),
                Ok((literal, next)) => Ok((ExpressionView::Literal(literal), next)),
            },
            ast::ExpressionView::Path { components } => {
                let (indices, next) = self.names(components, 0, Seq::empty());
                Ok((ExpressionView::Path { components: indices }, next))
            },
            ast::ExpressionView::Access { receiver, field } => match self.expression(
                environment,
                *receiver,
            ) {
                Err(fault) => Err(fault),
                Ok((resolved, next)) => {
                    let (index, last) = next.intern(field.span.bytes());
                    Ok((ExpressionView::Access { receiver: Box::new(resolved), field: index }, last))
                },
            },
            ast::ExpressionView::Call { receiver, arguments } => match self.expression(
                environment,
                *receiver,
            ) {
                Err(fault) => Err(fault),
                Ok((resolved, next)) => match next.expressions(
                    environment,
                    arguments,
                    0,
                    Seq::empty(),
                ) {
                    Err(fault) => Err(fault),
                    Ok((list, last)) => Ok(
                        (
                            ExpressionView::Call { receiver: Box::new(resolved), arguments: list },
                            last,
                        ),
                    ),
                },
            },
            ast::ExpressionView::Unary { operator, operand } => match unary_operator(
                operator.base,
            ) {
                None => Err(Fault::InvalidOperator(operator)),
                Some(resolved) => match self.expression(environment, *operand) {
                    Err(fault) => Err(fault),
                    Ok((inner, next)) => Ok(
                        (
                            ExpressionView::Unary { operator: resolved, operand: Box::new(inner) },
                            next,
                        ),
                    ),
                },
            },
            ast::ExpressionView::Binary {
                left_operand,
                operator,
                right_operand,
            } => match self.expression(environment, *left_operand) {
                Err(fault) => Err(fault),
                Ok((left, next)) => match binary_operator(operator.base) {
                    None => Err(Fault::InvalidOperator(operator)),
                    Some(resolved) => match next.expression(environment, *right_operand) {
                        Err(fault) => Err(fault),
                        Ok((right, last)) => Ok(
                            (
                                ExpressionView::Binary {
                                    left_operand: Box::new(left),
                                    operator: resolved,
                                    right_operand: Box::new(right),
                                },
                                last,
                            ),
                        ),
                    },
                },
            },
            ast::ExpressionView::Assign { pattern, operand } => Err(Fault::Assignment(pattern)),
            ast::ExpressionView::If(if_expression) => match self.if_expression(
                environment,
                if_expression,
            ) {
                Err(fault) => Err(fault),
                Ok((resolved, next)) => Ok((ExpressionView::If(resolved), next)),
            },
            ast::ExpressionView::While { condition, body } => match self.expression(
                environment,
                *condition,
            ) {
                Err(fault) => Err(fault),
                Ok((resolved, next)) => match next.block(environment, body, 0, Seq::empty()) {
                    Err(fault) => Err(fault),
                    Ok((block, last)) => Ok(
                        (
                            ExpressionView::While { condition: Box::new(resolved), body: block },
                            last,
                        ),
                    ),
                },
            },
        }
    }

    /// The expressions from `from` on, after `resolved`.
    pub open spec fn expressions(
        self,
        environment: EnvironmentView,
        expressions: Seq<ast::ExpressionView>,
        from: int,
        resolved: Seq<ExpressionView>,
    ) -> Resolved<Seq<ExpressionView>>
        decreases expressions, expressions.len() - from,
    {
        if from < 0 || from >= expressions.len() {
            Ok((resolved, self))
        } else {
            match self.expression(environment, expressions[from]) {
                Err(fault) => Err(fault),
                Ok((expression, next)) => next.expressions(
                    environment,
                    expressions,
                    from + 1,
                    resolved.push(expression),
                ),
            }
        }
    }

    /// An `if`: its condition, its body, and what follows `else`.
    pub open spec fn if_expression(
        self,
        environment: EnvironmentView,
        if_expression: ast::IfView,
    ) -> Resolved<IfView>
        decreases if_expression, 0nat,
    {
        match self.expression(environment, *if_expression.condition) {
            Err(fault) => Err(fault),
            Ok((condition, next)) => match next.block(
                environment,
                if_expression.body,
                0,
                Seq::empty(),
            ) {
                Err(fault) => Err(fault),
                Ok((body, last)) => match if_expression.else_body {
                    None => Ok(
                        (IfView { condition: Box::new(condition), body, else_body: None }, last),
                    ),
                    Some(ast::ElseView::Else(block)) => match last.block(
                        environment,
                        block,
                        0,
                        Seq::empty(),
                    ) {
                        Err(fault) => Err(fault),
                        Ok((other, end)) => Ok(
                            (
                                IfView {
                                    condition: Box::new(condition),
                                    body,
                                    else_body: Some(ElseView::Else(other)),
                                },
                                end,
                            ),
                        ),
                    },
                    Some(ast::ElseView::If(nested)) => match last.if_expression(
                        environment,
                        *nested,
                    ) {
                        Err(fault) => Err(fault),
                        Ok((other, end)) => Ok(
                            (
                                IfView {
                                    condition: Box::new(condition),
                                    body,
                                    else_body: Some(ElseView::If(Box::new(other))),
                                },
                                end,
                            ),
                        ),
                    },
                },
            },
        }
    }

    /// A statement. The name that a `let` binds is interned before the
    /// expression is resolved.
    pub open spec fn statement(self, environment: EnvironmentView, statement: ast::StatementView)
        -> Resolved<StatementView>
        decreases statement, 0nat,
    {
        match statement {
            ast::StatementView::Bind { is_mut, pattern, expression } => if pattern.base
                != Token::Identifier {
                Err(Fault::InvalidPattern(pattern))
            } else {
                let (name, next) = self.intern(pattern.span.bytes());
                match next.expression(environment, expression) {
                    Err(fault) => Err(fault),
                    Ok((resolved, last)) => Ok(
                        (StatementView::Bind { is_mut, name, expression: resolved }, last),
                    ),
                }
            },
            ast::StatementView::Expression { expression, has_semicolon } => match self.expression(
                environment,
                expression,
            ) {
                Err(fault) => Err(fault),
                Ok((resolved, next)) => Ok(
                    (StatementView::Expression { expression: resolved, has_semicolon }, next),
                ),
            },
        }
    }

    /// The statements of a block from `from` on, after `resolved`.
    pub open spec fn block(
        self,
        environment: EnvironmentView,
        statements: Seq<ast::StatementView>,
        from: int,
        resolved: Seq<StatementView>,
    ) -> Resolved<Seq<StatementView>>
        decreases statements, statements.len() - from,
    {
        if from < 0 || from >= statements.len() {
            Ok((resolved, self))
        } else {
            match self.statement(environment, statements[from]) {
                Err(fault) => Err(fault),
                Ok((statement, next)) => next.block(
                    environment,
                    statements,
                    from + 1,
                    resolved.push(statement),
                ),
            }
        }
    }

    /// The paths that a tree of a `use` names, each from its innermost
    /// name outwards.
    pub open spec fn use_tree(self, tree: ast::UseTreeView) -> (Seq<Seq<usize>>, ResolverView)
        decreases tree, 0nat,
    {
        match tree {
            ast::UseTreeView::Leaf(token) => {
                let (index, next) = self.intern(token.span.bytes());
                (seq![seq![index]], next)
            },
            ast::UseTreeView::Branch { component, subtrees } => {
                let (index, next) = self.intern(component.span.bytes());
                let (paths, last) = next.use_trees(subtrees, 0, Seq::empty());
                (extended(paths, index), last)
            },
        }
    }

    /// The paths of the trees from `from` on, after `paths`.
    pub open spec fn use_trees(
        self,
        trees: Seq<ast::UseTreeView>,
        from: int,
        paths: Seq<Seq<usize>>,
    ) -> (Seq<Seq<usize>>, ResolverView)
        decreases trees, trees.len() - from,
    {
        if from < 0 || from >= trees.len() {
            (paths, self)
        } else {
            let (more, next) = self.use_tree(trees[from]);
            next.use_trees(trees, from + 1, paths + more)
        }
    }

    /// A function: its parameters are interned, its body is resolved, and
    /// the two are added to the chunks. The result is the chunk's index.
    pub open spec fn fn_header(
        self,
        environment: EnvironmentView,
        parameters: Seq<TokenView>,
        block: Seq<ast::StatementView>,
    ) -> Resolved<usize> {
        let (indices, next) = self.names(parameters, 0, Seq::empty());
        match next.block(environment, block, 0, Seq::empty()) {
            Err(fault) => Err(fault),
            Ok((body, last)) => Ok(
                (
                    last.chunks.len() as usize,
                    ResolverView {
                        chunks: last.chunks.push(ChunkView { parameters: indices, body }),
                        ..last
                    },
                ),
            ),
        }
    }

    /// The header of the declarations from `from` on, added to `header`.
    /// A module or a function that is declared again under one name
    /// takes the place of the earlier one.
    pub open spec fn header(
        self,
        environment: EnvironmentView,
        depth: nat,
        declarations: Seq<ast::DeclarationView>,
        from: int,
        header: HeaderView,
    ) -> Resolved<HeaderView>
        decreases depth, declarations, declarations.len() - from,
    {
        if from < 0 || from >= declarations.len() {
            Ok((header, self))
        } else {
            match declarations[from] {
                ast::DeclarationView::Use { trees } => {
                    let (paths, next) = self.use_trees(trees, 0, Seq::empty());
                    next.header(
                        environment,
                        depth,
                        declarations,
                        from + 1,
                        HeaderView {
                            use_declarations: header.use_declarations + paths,
                            ..header
                        },
                    )
                },
                ast::DeclarationView::Mod { name, body } => {
                    let (index, next) = self.intern(name.span.bytes());
                    let nested = match body {
                        Some(inner) => next.header(environment, depth, inner, 0, empty_header()),
                        None => match module_declarations(environment, depth, name.span.bytes()) {
                            Err(fault) => Err(fault),
                            Ok(inner) => next.header(
                                environment,
                                (depth - 1) as nat,
                                inner,
                                0,
                                empty_header(),
                            ),
                        },
                    };
                    match nested {
                        Err(fault) => Err(fault),
                        Ok((module, last)) => last.header(
                            environment,
                            depth,
                            declarations,
                            from + 1,
                            HeaderView {
                                mod_headers: header.mod_headers.insert(index, module),
                                ..header
                            },
                        ),
                    }
                },
                ast::DeclarationView::Fn { name, parameters, block } => {
                    let (index, next) = self.intern(name.span.bytes());
                    match next.fn_header(environment, parameters, block) {
                        Err(fault) => Err(fault),
                        Ok((chunk, last)) => last.header(
                            environment,
                            depth,
                            declarations,
                            from + 1,
                            HeaderView {
                                fn_headers: header.fn_headers.insert(index, chunk),
                                ..header
                            },
                        ),
                    }
                },
            }
        }
    }
}

impl ResolverView {
    /// What compiling a text comes to: the text is parsed, and its
    /// declarations are resolved. Modules without a body may be entered as
    /// deep as there are modules supplied.
    pub open spec fn compile(self, source: Seq<u8>, environment: EnvironmentView) -> Result<
        ExecutableView,
        Fault,
    > {
        match start_of(source).file(false).result {
            Err(errors) => Err(Fault::Parse(errors)),
            Ok(declarations) => match self.header(
                environment,
                environment.modules.len(),
                declarations,
                0,
                empty_header(),
            ) {
                Err(fault) => Err(fault),
                Ok((header, state)) => Ok(
                    ExecutableView {
                        package_header: header,
                        identifiers: state.identifiers,
                        chunks: state.chunks,
                    },
                ),
            },
        }
    }
}

/// Where a spelling is found is where it first stands, and it is found if
/// it stands anywhere.
pub proof fn position_is_first(table: Seq<Seq<u8>>, name: Seq<u8>, from: int)
    requires
        0 <= from,
    ensures
        match position(table, name, from) {
            Some(index) => from <= index < table.len() && table[index] == name && forall|
                other: int,
            | from <= other < index ==> table[other] != name,
            None => forall|other: int| from <= other < table.len() ==> table[other] != name,
        },
    decreases table.len() - from,
{
    if from < table.len() && table[from] != name {
        position_is_first(table, name, from + 1);
    }
}

/// Interning is stable: a spelling that is interned stands in the table at
/// its index, it has the same index whenever it is interned again, and the
/// spellings that were in the table keep their indices.
pub proof fn interning_is_stable(state: ResolverView, name: Seq<u8>, other: Seq<u8>)
    requires
        state.identifiers.len() < usize::MAX,
    ensures
        state.intern(name).0 < state.intern(name).1.identifiers.len(),
        state.intern(name).1.identifiers[state.intern(name).0 as int] == name,
        state.intern(name).1.intern(name) == state.intern(name),
        state.intern(name).1.chunks == state.chunks,
        position(state.identifiers, other, 0) is Some ==> state.intern(name).1.intern(other)
            == (state.intern(other).0, state.intern(name).1),
{
    let table = state.identifiers;
    let next = state.intern(name).1;
    position_is_first(table, name, 0);
    position_is_first(next.identifiers, name, 0);
    position_is_first(table, other, 0);
    position_is_first(next.identifiers, other, 0);
    if position(table, name, 0) is None {
        let end = table.len() as int;
        assert(next.identifiers == table.push(name));
        assert(next.identifiers[end] == name);
        assert(forall|index: int| 0 <= index < end ==> next.identifiers[index] == table[index]);
        match position(next.identifiers, name, 0) {
            Some(found) => {
                if found < end {
                    assert(table[found] == name);
                }
            },
            None => {},
        }
        if position(table, other, 0) is Some {
            let index = position(table, other, 0)->0;
            assert(next.identifiers[index] == other);
            match position(next.identifiers, other, 0) {
                Some(found) => {
                    if found < index {
                        assert(table[found] == other);
                    }
                },
                None => {},
            }
        }
    }
}

/// Interning is injective: two spellings that are interned one after the
/// other have the same index if and only if they are the same spelling.
pub proof fn interning_is_injective(state: ResolverView, first: Seq<u8>, second: Seq<u8>)
    requires
        state.identifiers.len() + 1 < usize::MAX,
    ensures
        state.intern(first).0 == state.intern(first).1.intern(second).0 <==> first == second,
{
    let next = state.intern(first).1;
    interning_is_stable(state, first, second);
    position_is_first(state.identifiers, first, 0);
    position_is_first(next.identifiers, first, 0);
    position_is_first(next.identifiers, second, 0);
}

} // verus!
