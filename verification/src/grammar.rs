//! The grammar, as functions on a parser's state.
//!
//! Each function gives what is parsed from a state, or the diagnostic, and
//! the state afterwards. From loosest to tightest, an expression is `if`
//! or `while`, or else a ladder of binary operators (logical, equality,
//! comparison, additive, multiplicative) over unary operators over calls
//! over field accesses over paths and literals:
//!
//! ```text
//! file           = declaration* Eof
//! declaration    = "use" group ";"
//!                | "mod" name ("{" declaration* "}" | ";")
//!                | "fn" name "(" (name ","?)* ")" block
//! group          = tree | "{" (tree ","?)+ "}"
//! tree           = name ("::" group)?
//! block          = "{" statement* "}"
//! statement      = "let" "mut"? literal "=" expression ";" | expression ";"?
//! expression     = if | while | logical
//! if             = "if" expression block ("else" (if | block))?
//! while          = "while" expression block
//! logical        = equality (("&&" | "||") equality)*
//! equality       = comparison (("==" | "!=") comparison)?
//! comparison     = addition ((">" | ">=" | "<" | "<=") addition)?
//! addition       = multiplication (("+" | "-") multiplication)*
//! multiplication = unary (("*" | "/") unary)*
//! unary          = ("-" | "!") unary | "(" expression ")" | call
//! call           = access ("(" (expression ","?)* ")")*
//! access         = path ("." (name | int))*
//! path           = literal | name ("::" name)+
//! literal        = int | number with a fraction | "true" | "false" | name
//! ```
//!
//! After an equality or a comparison, another operator of its tier is an
//! error. A comment is a token, and the grammar has no place for it.
//!
//! A parse that succeeds consumes a token. [`Parsed::after`] says so where
//! one parse goes on from the state that another left, which is what makes
//! these definitions well-founded; that it holds of every parse is proved
//! in the module `progress`.

use crate::ast::{
    DeclarationView, ElseView, ExpressionView, IfView, StatementView, TokenView, UseTreeView,
};
use crate::cursor::{
    at, done, expect_bounds, failed, peek_bounds, synchronize_bounds, Diagnostic,
    ParseError, Parsed, ParserView,
};
use crate::span::SpanView;
use crate::token::Token;
use vstd::prelude::*;

verus! {

/// The tiers of binary operators.
#[derive(Clone, Copy, Debug, PartialEq, Eq, Structural)]
pub enum Tier {
    /// `*` and `/`, which associate to the left.
    Multiplication,
    /// `+` and `-`, which associate to the left.
    Addition,
    /// `>`, `>=`, `<` and `<=`, which do not associate.
    Comparison,
    /// `==` and `!=`, which do not associate.
    Equality,
    /// `&&` and `||`, which associate to the left.
    Logical,
}

impl Tier {
    /// The tier's place on the ladder, tightest first.
    pub open spec fn index(self) -> nat {
        match self {
            Tier::Multiplication => 0,
            Tier::Addition => 1,
            Tier::Comparison => 2,
            Tier::Equality => 3,
            Tier::Logical => 4,
        }
    }

    /// Whether `token` is an operator of the tier.
    pub open spec fn takes(self, token: Token) -> bool {
        match self {
            Tier::Multiplication => token == Token::Star || token == Token::Slash,
            Tier::Addition => token == Token::Plus || token == Token::Dash,
            Tier::Comparison => token == Token::Greater || token == Token::GreaterEqual || token
                == Token::Less || token == Token::LessEqual,
            Tier::Equality => token == Token::EqualEqual || token == Token::BangEqual,
            Tier::Logical => token == Token::AmpAmp || token == Token::PipePipe,
        }
    }

    /// Whether operators of the tier may follow one another: `a + b + c`
    /// is `(a + b) + c`, but `a == b == c` is an error.
    pub open spec fn chains(self) -> bool {
        !(self is Comparison || self is Equality)
    }

    /// The tier of the operands; none for the tightest, whose operands are
    /// unary expressions.
    pub open spec fn below(self) -> Option<Tier> {
        match self {
            Tier::Multiplication => None,
            Tier::Addition => Some(Tier::Multiplication),
            Tier::Comparison => Some(Tier::Addition),
            Tier::Equality => Some(Tier::Comparison),
            Tier::Logical => Some(Tier::Equality),
        }
    }

    /// Tells whether `token` is an operator of the tier.
    pub fn accepts(self, token: Token) -> (accepted: bool)
        ensures
            accepted == self.takes(token),
    {
        match self {
            Tier::Multiplication => token == Token::Star || token == Token::Slash,
            Tier::Addition => token == Token::Plus || token == Token::Dash,
            Tier::Comparison => token == Token::Greater || token == Token::GreaterEqual || token
                == Token::Less || token == Token::LessEqual,
            Tier::Equality => token == Token::EqualEqual || token == Token::BangEqual,
            Tier::Logical => token == Token::AmpAmp || token == Token::PipePipe,
        }
    }

    /// Tells whether operators of the tier may follow one another.
    pub fn associates(self) -> (chains: bool)
        ensures
            chains == self.chains(),
    {
        match self {
            Tier::Comparison | Tier::Equality => false,
            _ => true,
        }
    }

    /// Gives the tier of the operands.
    pub fn operands(self) -> (below: Option<Tier>)
        ensures
            below == self.below(),
    {
        match self {
            Tier::Multiplication => None,
            Tier::Addition => Some(Tier::Multiplication),
            Tier::Comparison => Some(Tier::Addition),
            Tier::Equality => Some(Tier::Comparison),
            Tier::Logical => Some(Tier::Equality),
        }
    }
}

/// Whether a token may stand as a literal or a pattern.
pub open spec fn is_literal(token: Token) -> bool {
    token == Token::Int || token == Token::Float || token == Token::True || token == Token::False
        || token == Token::Identifier
}

/// The error of a parse that succeeded without consuming anything. No
/// parse is such: see `progress::parsing_moves_on`.
pub open spec fn stalled() -> Diagnostic {
    at(
        ParseError::UnexpectedToken(Token::Eof),
        SpanView { source: Seq::empty(), start: 0, end: 0 },
    )
}

/// The binary expression of two operands and the operator between them.
pub open spec fn binary_of(
    left: ExpressionView,
    operator: TokenView,
    right: ExpressionView,
) -> ExpressionView {
    ExpressionView::Binary {
        left_operand: Box::new(left),
        operator,
        right_operand: Box::new(right),
    }
}

/// What the declarations of a file came to: those that parsed, the
/// diagnostics of those that did not, and the state afterwards.
pub struct Gathered {
    pub declarations: Seq<DeclarationView>,
    pub errors: Seq<Diagnostic>,
    pub state: ParserView,
}

impl<T> Parsed<T, Diagnostic> {
    /// The outcome itself, given that it is an error or left less to parse
    /// than `before` had.
    pub open spec fn after(self, before: ParserView) -> Parsed<T, Diagnostic> {
        if self.result is Ok && self.state.remaining() >= before.remaining() {
            failed(stalled(), self.state)
        } else {
            self
        }
    }

    /// The same outcome, with the one error as a list of errors.
    pub open spec fn listed(self) -> Parsed<T, Seq<Diagnostic>> {
        match self.result {
            Ok(value) => done(value, self.state),
            Err(error) => failed(seq![error], self.state),
        }
    }
}

impl ParserView {
    /// A literal or a name: one token.
    pub open spec fn literal(self) -> Parsed<TokenView, Diagnostic> {
        let peeked = self.peek();
        match peeked.result {
            Err(error) => failed(error, peeked.state),
            Ok(token) => if is_literal(token.base) {
                peeked.state.advance()
            } else {
                peeked.state.reject()
            },
        }
    }

    /// A literal, or names joined by `::`.
    pub open spec fn path(self) -> Parsed<ExpressionView, Diagnostic> {
        let first = self.literal();
        match first.result {
            Err(error) => failed(error, first.state),
            Ok(token) => {
                let peeked = first.state.peek();
                match peeked.result {
                    Err(error) => failed(error, peeked.state),
                    Ok(next) => if token.base == Token::Identifier && next.base
                        == Token::ColonColon {
                        peeked.state.consumed().components(seq![token])
                    } else {
                        done(ExpressionView::Literal(token), peeked.state)
                    },
                }
            },
        }
    }

    /// The names of a path after `components` and a `::`.
    pub open spec fn components(self, components: Seq<TokenView>) -> Parsed<
        ExpressionView,
        Diagnostic,
    >
        decreases self.remaining(),
    {
        let component = self.expect(Token::Identifier);
        proof {
            expect_bounds(self, Token::Identifier);
            peek_bounds(component.state);
        }
        match component.result {
            Err(error) => failed(error, component.state),
            Ok(token) => {
                let peeked = component.state.peek();
                match peeked.result {
                    Err(error) => failed(error, peeked.state),
                    Ok(next) => if next.base == Token::ColonColon {
                        peeked.state.consumed().components(components.push(token))
                    } else {
                        done(
                            ExpressionView::Path { components: components.push(token) },
                            peeked.state,
                        )
                    },
                }
            },
        }
    }

    /// A path and the fields that are taken of it.
    pub open spec fn access(self) -> Parsed<ExpressionView, Diagnostic> {
        let receiver = self.path();
        match receiver.result {
            Err(error) => failed(error, receiver.state),
            Ok(path) => receiver.state.fields(path),
        }
    }

    /// The accesses `.field` that follow `receiver`. A field is a name or
    /// a number.
    pub open spec fn fields(self, receiver: ExpressionView) -> Parsed<ExpressionView, Diagnostic>
        decreases self.remaining(),
    {
        let peeked = self.peek();
        proof {
            peek_bounds(self);
            peek_bounds(peeked.state.consumed());
        }
        match peeked.result {
            Err(error) => failed(error, peeked.state),
            Ok(token) => if token.base != Token::Period {
                done(receiver, peeked.state)
            } else {
                let named = peeked.state.consumed().peek();
                match named.result {
                    Err(error) => failed(error, named.state),
                    Ok(field) => if field.base == Token::Identifier || field.base == Token::Int {
                        named.state.consumed().fields(
                            ExpressionView::Access { receiver: Box::new(receiver), field },
                        )
                    } else {
                        named.state.reject()
                    },
                }
            },
        }
    }

    /// An access and the calls that are made of it.
    pub open spec fn call(self) -> Parsed<ExpressionView, Diagnostic>
        decreases self.remaining(), 1nat,
    {
        let receiver = self.access().after(self);
        match receiver.result {
            Err(error) => failed(error, receiver.state),
            Ok(access) => receiver.state.calls(access),
        }
    }

    /// The calls `(arguments)` that follow `receiver`.
    pub open spec fn calls(self, receiver: ExpressionView) -> Parsed<ExpressionView, Diagnostic>
        decreases self.remaining(), 0nat,
    {
        let peeked = self.peek();
        proof {
            peek_bounds(self);
        }
        match peeked.result {
            Err(error) => failed(error, peeked.state),
            Ok(token) => if token.base != Token::OpenParen {
                done(receiver, peeked.state)
            } else {
                let arguments = peeked.state.consumed().arguments(Seq::empty());
                match arguments.result {
                    Err(error) => failed(error, arguments.state),
                    Ok(list) => if arguments.state.remaining() < self.remaining() {
                        arguments.state.calls(
                            ExpressionView::Call { receiver: Box::new(receiver), arguments: list },
                        )
                    } else {
                        failed(stalled(), arguments.state)
                    },
                }
            },
        }
    }

    /// The arguments of a call after `arguments`, up to and with the
    /// closing parenthesis. A comma may follow each.
    pub open spec fn arguments(self, arguments: Seq<ExpressionView>) -> Parsed<
        Seq<ExpressionView>,
        Diagnostic,
    >
        decreases self.remaining(), 40nat,
    {
        let peeked = self.peek();
        proof {
            peek_bounds(self);
        }
        match peeked.result {
            Err(error) => failed(error, peeked.state),
            Ok(token) => if token.base == Token::CloseParen {
                done(arguments, peeked.state.consumed())
            } else {
                let argument = peeked.state.expression().after(peeked.state);
                match argument.result {
                    Err(error) => failed(error, argument.state),
                    Ok(expression) => {
                        let comma = argument.state.peek();
                        proof {
                            peek_bounds(argument.state);
                        }
                        match comma.result {
                            Err(error) => failed(error, comma.state),
                            Ok(next) => if next.base == Token::Comma {
                                comma.state.consumed().arguments(arguments.push(expression))
                            } else {
                                comma.state.arguments(arguments.push(expression))
                            },
                        }
                    },
                }
            },
        }
    }

    /// A unary expression: `-` or `!` before one, an expression in
    /// parentheses, or a call.
    pub open spec fn unary(self) -> Parsed<ExpressionView, Diagnostic>
        decreases self.remaining(), 2nat,
    {
        let peeked = self.peek();
        proof {
            peek_bounds(self);
        }
        match peeked.result {
            Err(error) => failed(error, peeked.state),
            Ok(token) => if token.base == Token::Dash || token.base == Token::Bang {
                let operand = peeked.state.consumed().unary();
                match operand.result {
                    Err(error) => failed(error, operand.state),
                    Ok(expression) => done(
                        ExpressionView::Unary { operator: token, operand: Box::new(expression) },
                        operand.state,
                    ),
                }
            } else if token.base == Token::OpenParen {
                let inner = peeked.state.consumed().expression();
                match inner.result {
                    Err(error) => failed(error, inner.state),
                    Ok(expression) => {
                        let close = inner.state.expect(Token::CloseParen);
                        match close.result {
                            Err(error) => failed(error, close.state),
                            Ok(_) => done(expression, close.state),
                        }
                    },
                }
            } else {
                peeked.state.call()
            },
        }
    }

    /// An operand of `tier`: an expression of the tier below.
    pub open spec fn operand(self, tier: Tier) -> Parsed<ExpressionView, Diagnostic>
        decreases self.remaining(), 3 + 2 * tier.index(),
    {
        match tier.below() {
            None => self.unary(),
            Some(below) => self.binary(below),
        }
    }

    /// An expression of `tier`: an operand, and what follows it.
    pub open spec fn binary(self, tier: Tier) -> Parsed<ExpressionView, Diagnostic>
        decreases self.remaining(), 4 + 2 * tier.index(),
    {
        let left = self.operand(tier).after(self);
        match left.result {
            Err(error) => failed(error, left.state),
            Ok(expression) => if tier.chains() {
                left.state.chain(tier, expression)
            } else {
                left.state.pair(tier, expression)
            },
        }
    }

    /// The operators of `tier` and their right operands that follow
    /// `left`, each taking all before it as its left operand.
    pub open spec fn chain(self, tier: Tier, left: ExpressionView) -> Parsed<
        ExpressionView,
        Diagnostic,
    >
        decreases self.remaining(), 3 + 2 * tier.index(),
    {
        let peeked = self.peek();
        proof {
            peek_bounds(self);
        }
        match peeked.result {
            Err(error) => failed(error, peeked.state),
            Ok(operator) => if !tier.takes(operator.base) {
                done(left, peeked.state)
            } else {
                let right = peeked.state.consumed().operand(tier);
                match right.result {
                    Err(error) => failed(error, right.state),
                    Ok(expression) => if right.state.remaining() < self.remaining() {
                        right.state.chain(tier, binary_of(left, operator, expression))
                    } else {
                        failed(stalled(), right.state)
                    },
                }
            },
        }
    }

    /// At most one operator of `tier` with its right operand after `left`.
    /// A second operator of the tier is an error; it is not consumed.
    pub open spec fn pair(self, tier: Tier, left: ExpressionView) -> Parsed<
        ExpressionView,
        Diagnostic,
    >
        decreases self.remaining(), 3 + 2 * tier.index(),
    {
        let peeked = self.peek();
        proof {
            peek_bounds(self);
        }
        match peeked.result {
            Err(error) => failed(error, peeked.state),
            Ok(operator) => if !tier.takes(operator.base) {
                done(left, peeked.state)
            } else {
                let right = peeked.state.consumed().operand(tier);
                match right.result {
                    Err(error) => failed(error, right.state),
                    Ok(expression) => {
                        let next = right.state.peek();
                        match next.result {
                            Err(error) => failed(error, next.state),
                            Ok(token) => if tier.takes(token.base) {
                                failed(crate::cursor::unexpected(token), next.state)
                            } else {
                                done(binary_of(left, operator, expression), next.state)
                            },
                        }
                    },
                }
            },
        }
    }

    /// `if condition { .. }` and what may follow it.
    pub open spec fn if_expression(self) -> Parsed<IfView, Diagnostic>
        decreases self.remaining(), 20nat,
    {
        let keyword = self.expect(Token::If);
        proof {
            expect_bounds(self, Token::If);
        }
        match keyword.result {
            Err(error) => failed(error, keyword.state),
            Ok(_) => {
                let condition = keyword.state.expression().after(keyword.state);
                match condition.result {
                    Err(error) => failed(error, condition.state),
                    Ok(expression) => {
                        let body = condition.state.block().after(condition.state);
                        match body.result {
                            Err(error) => failed(error, body.state),
                            Ok(block) => {
                                let else_body = body.state.else_body();
                                match else_body.result {
                                    Err(error) => failed(error, else_body.state),
                                    Ok(other) => done(
                                        IfView {
                                            condition: Box::new(expression),
                                            body: block,
                                            else_body: other,
                                        },
                                        else_body.state,
                                    ),
                                }
                            },
                        }
                    },
                }
            },
        }
    }

    /// Nothing, or `else` with a block or with another `if`.
    pub open spec fn else_body(self) -> Parsed<Option<ElseView>, Diagnostic>
        decreases self.remaining(), 20nat,
    {
        let peeked = self.peek();
        proof {
            peek_bounds(self);
            peek_bounds(peeked.state.consumed());
        }
        match peeked.result {
            Err(error) => failed(error, peeked.state),
            Ok(token) => if token.base != Token::Else {
                done(None, peeked.state)
            } else {
                let next = peeked.state.consumed().peek();
                match next.result {
                    Err(error) => failed(error, next.state),
                    Ok(follower) => if follower.base == Token::If {
                        let nested = next.state.if_expression();
                        match nested.result {
                            Err(error) => failed(error, nested.state),
                            Ok(if_expression) => done(
                                Some(ElseView::If(Box::new(if_expression))),
                                nested.state,
                            ),
                        }
                    } else {
                        let block = next.state.block();
                        match block.result {
                            Err(error) => failed(error, block.state),
                            Ok(statements) => done(Some(ElseView::Else(statements)), block.state),
                        }
                    },
                }
            },
        }
    }

    /// `while condition { .. }`
    pub open spec fn while_expression(self) -> Parsed<ExpressionView, Diagnostic>
        decreases self.remaining(), 20nat,
    {
        let keyword = self.expect(Token::While);
        proof {
            expect_bounds(self, Token::While);
        }
        match keyword.result {
            Err(error) => failed(error, keyword.state),
            Ok(_) => {
                let condition = keyword.state.expression().after(keyword.state);
                match condition.result {
                    Err(error) => failed(error, condition.state),
                    Ok(expression) => {
                        let body = condition.state.block();
                        match body.result {
                            Err(error) => failed(error, body.state),
                            Ok(block) => done(
                                ExpressionView::While {
                                    condition: Box::new(expression),
                                    body: block,
                                },
                                body.state,
                            ),
                        }
                    },
                }
            },
        }
    }

    /// An expression: `if`, `while`, or the ladder of binary operators.
    pub open spec fn expression(self) -> Parsed<ExpressionView, Diagnostic>
        decreases self.remaining(), 30nat,
    {
        let peeked = self.peek();
        proof {
            peek_bounds(self);
        }
        match peeked.result {
            Err(error) => failed(error, peeked.state),
            Ok(token) => if token.base == Token::If {
                let parsed = peeked.state.if_expression();
                match parsed.result {
                    Err(error) => failed(error, parsed.state),
                    Ok(if_expression) => done(ExpressionView::If(if_expression), parsed.state),
                }
            } else if token.base == Token::While {
                peeked.state.while_expression()
            } else {
                peeked.state.binary(Tier::Logical)
            },
        }
    }

    /// `let`, `mut` if it is there, a pattern, `=`, an expression and `;`.
    pub open spec fn bind_statement(self) -> Parsed<StatementView, Diagnostic>
        decreases self.remaining(), 44nat,
    {
        let keyword = self.expect(Token::Let);
        proof {
            expect_bounds(self, Token::Let);
            peek_bounds(keyword.state);
        }
        match keyword.result {
            Err(error) => failed(error, keyword.state),
            Ok(_) => {
                let peeked = keyword.state.peek();
                match peeked.result {
                    Err(error) => failed(error, peeked.state),
                    Ok(token) => {
                        let is_mut = token.base == Token::Mut;
                        let start = if is_mut {
                            peeked.state.consumed()
                        } else {
                            peeked.state
                        };
                        let pattern = start.literal();
                        match pattern.result {
                            Err(error) => failed(error, pattern.state),
                            Ok(name) => {
                                let equal = pattern.state.expect(Token::Equal);
                                match equal.result {
                                    Err(error) => failed(error, equal.state),
                                    Ok(_) => if equal.state.remaining() < self.remaining() {
                                        let value = equal.state.expression();
                                        match value.result {
                                            Err(error) => failed(error, value.state),
                                            Ok(expression) => {
                                                let end = value.state.expect(Token::Semicolon);
                                                match end.result {
                                                    Err(error) => failed(error, end.state),
                                                    Ok(_) => done(
                                                        StatementView::Bind {
                                                            is_mut,
                                                            pattern: name,
                                                            expression,
                                                        },
                                                        end.state,
                                                    ),
                                                }
                                            },
                                        }
                                    } else {
                                        failed(stalled(), equal.state)
                                    },
                                }
                            },
                        }
                    },
                }
            },
        }
    }

    /// An expression, and `;` if it is there.
    pub open spec fn expression_statement(self) -> Parsed<StatementView, Diagnostic>
        decreases self.remaining(), 44nat,
    {
        let value = self.expression();
        match value.result {
            Err(error) => failed(error, value.state),
            Ok(expression) => {
                let peeked = value.state.peek();
                match peeked.result {
                    Err(error) => failed(error, peeked.state),
                    Ok(token) => if token.base == Token::Semicolon {
                        done(
                            StatementView::Expression { expression, has_semicolon: true },
                            peeked.state.consumed(),
                        )
                    } else {
                        done(
                            StatementView::Expression { expression, has_semicolon: false },
                            peeked.state,
                        )
                    },
                }
            },
        }
    }

    /// A statement: a binding where `let` stands, else an expression.
    pub open spec fn statement(self) -> Parsed<StatementView, Diagnostic>
        decreases self.remaining(), 45nat,
    {
        let peeked = self.peek();
        proof {
            peek_bounds(self);
        }
        match peeked.result {
            Err(error) => failed(error, peeked.state),
            Ok(token) => if token.base == Token::Let {
                peeked.state.bind_statement()
            } else {
                peeked.state.expression_statement()
            },
        }
    }

    /// The statements of a block after `statements`, up to and with the
    /// closing brace.
    pub open spec fn statements(self, statements: Seq<StatementView>) -> Parsed<
        Seq<StatementView>,
        Diagnostic,
    >
        decreases self.remaining(), 50nat,
    {
        let peeked = self.peek();
        proof {
            peek_bounds(self);
        }
        match peeked.result {
            Err(error) => failed(error, peeked.state),
            Ok(token) => if token.base == Token::CloseBrace {
                done(statements, peeked.state.consumed())
            } else {
                let next = peeked.state.statement().after(peeked.state);
                match next.result {
                    Err(error) => failed(error, next.state),
                    Ok(statement) => next.state.statements(statements.push(statement)),
                }
            },
        }
    }

    /// `{`, statements and `}`.
    pub open spec fn block(self) -> Parsed<Seq<StatementView>, Diagnostic>
        decreases self.remaining(), 51nat,
    {
        let open = self.expect(Token::OpenBrace);
        proof {
            expect_bounds(self, Token::OpenBrace);
        }
        match open.result {
            Err(error) => failed(error, open.state),
            Ok(_) => open.state.statements(Seq::empty()),
        }
    }

    /// What may follow `use` or `::`: one tree, or trees in braces.
    pub open spec fn use_group(self) -> Parsed<Seq<UseTreeView>, Diagnostic>
        decreases self.remaining(), 4nat,
    {
        let peeked = self.peek();
        proof {
            peek_bounds(self);
        }
        match peeked.result {
            Err(error) => failed(error, peeked.state),
            Ok(token) => if token.base == Token::Identifier {
                let tree = peeked.state.use_tree();
                match tree.result {
                    Err(error) => failed(error, tree.state),
                    Ok(only) => done(seq![only], tree.state),
                }
            } else if token.base == Token::OpenBrace {
                peeked.state.use_trees()
            } else {
                peeked.state.reject()
            },
        }
    }

    /// A name, and after `::` what the name leads to.
    pub open spec fn use_tree(self) -> Parsed<UseTreeView, Diagnostic>
        decreases self.remaining(), 1nat,
    {
        let component = self.expect(Token::Identifier);
        proof {
            expect_bounds(self, Token::Identifier);
            peek_bounds(component.state);
        }
        match component.result {
            Err(error) => failed(error, component.state),
            Ok(name) => {
                let peeked = component.state.peek();
                match peeked.result {
                    Err(error) => failed(error, peeked.state),
                    Ok(token) => if token.base != Token::ColonColon {
                        done(UseTreeView::Leaf(name), peeked.state)
                    } else {
                        let subtrees = peeked.state.consumed().use_group();
                        match subtrees.result {
                            Err(error) => failed(error, subtrees.state),
                            Ok(trees) => done(
                                UseTreeView::Branch { component: name, subtrees: trees },
                                subtrees.state,
                            ),
                        }
                    },
                }
            },
        }
    }

    /// `{`, one tree or more, and `}`.
    pub open spec fn use_trees(self) -> Parsed<Seq<UseTreeView>, Diagnostic>
        decreases self.remaining(), 3nat,
    {
        let open = self.expect(Token::OpenBrace);
        proof {
            expect_bounds(self, Token::OpenBrace);
        }
        match open.result {
            Err(error) => failed(error, open.state),
            Ok(_) => open.state.use_list(Seq::empty()),
        }
    }

    /// The trees between braces after `trees`, up to and with the closing
    /// brace. A comma may follow each.
    pub open spec fn use_list(self, trees: Seq<UseTreeView>) -> Parsed<
        Seq<UseTreeView>,
        Diagnostic,
    >
        decreases self.remaining(), 2nat,
    {
        let tree = self.use_tree().after(self);
        match tree.result {
            Err(error) => failed(error, tree.state),
            Ok(next) => {
                let comma = tree.state.peek();
                proof {
                    peek_bounds(tree.state);
                }
                match comma.result {
                    Err(error) => failed(error, comma.state),
                    Ok(token) => {
                        let start = if token.base == Token::Comma {
                            comma.state.consumed()
                        } else {
                            comma.state
                        };
                        let close = start.peek();
                        proof {
                            peek_bounds(start);
                        }
                        match close.result {
                            Err(error) => failed(error, close.state),
                            Ok(end) => if end.base == Token::CloseBrace {
                                done(trees.push(next), close.state.consumed())
                            } else {
                                close.state.use_list(trees.push(next))
                            },
                        }
                    },
                }
            },
        }
    }

    /// `use`, what it names, and `;`.
    pub open spec fn use_declaration(self) -> Parsed<DeclarationView, Diagnostic> {
        let keyword = self.expect(Token::Use);
        match keyword.result {
            Err(error) => failed(error, keyword.state),
            Ok(_) => {
                let trees = keyword.state.use_group();
                match trees.result {
                    Err(error) => failed(error, trees.state),
                    Ok(list) => {
                        let end = trees.state.expect(Token::Semicolon);
                        match end.result {
                            Err(error) => failed(error, end.state),
                            Ok(_) => done(DeclarationView::Use { trees: list }, end.state),
                        }
                    },
                }
            },
        }
    }

    /// The parameters of a function after `parameters`, up to and with
    /// the closing parenthesis. A comma may follow each.
    pub open spec fn parameters(self, parameters: Seq<TokenView>) -> Parsed<
        Seq<TokenView>,
        Diagnostic,
    >
        decreases self.remaining(),
    {
        let peeked = self.peek();
        proof {
            peek_bounds(self);
            expect_bounds(peeked.state, Token::Identifier);
        }
        match peeked.result {
            Err(error) => failed(error, peeked.state),
            Ok(token) => if token.base == Token::CloseParen {
                done(parameters, peeked.state.consumed())
            } else {
                let parameter = peeked.state.expect(Token::Identifier);
                match parameter.result {
                    Err(error) => failed(error, parameter.state),
                    Ok(name) => {
                        let comma = parameter.state.peek();
                        proof {
                            peek_bounds(parameter.state);
                        }
                        match comma.result {
                            Err(error) => failed(error, comma.state),
                            Ok(next) => if next.base == Token::Comma {
                                comma.state.consumed().parameters(parameters.push(name))
                            } else {
                                comma.state.parameters(parameters.push(name))
                            },
                        }
                    },
                }
            },
        }
    }

    /// `fn`, a name, the parameters in parentheses, and a block.
    pub open spec fn fn_declaration(self) -> Parsed<DeclarationView, Diagnostic> {
        let keyword = self.expect(Token::Fn);
        match keyword.result {
            Err(error) => failed(error, keyword.state),
            Ok(_) => {
                let name = keyword.state.expect(Token::Identifier);
                match name.result {
                    Err(error) => failed(error, name.state),
                    Ok(token) => {
                        let open = name.state.expect(Token::OpenParen);
                        match open.result {
                            Err(error) => failed(error, open.state),
                            Ok(_) => {
                                let parameters = open.state.parameters(Seq::empty());
                                match parameters.result {
                                    Err(error) => failed(error, parameters.state),
                                    Ok(list) => {
                                        let body = parameters.state.block();
                                        match body.result {
                                            Err(error) => failed(error, body.state),
                                            Ok(block) => done(
                                                DeclarationView::Fn {
                                                    name: token,
                                                    parameters: list,
                                                    block,
                                                },
                                                body.state,
                                            ),
                                        }
                                    },
                                }
                            },
                        }
                    },
                }
            },
        }
    }

    /// `mod`, a name, and the module's declarations in braces or `;`.
    pub open spec fn mod_declaration(self) -> Parsed<DeclarationView, Seq<Diagnostic>>
        decreases self.remaining(), 3nat,
    {
        let keyword = self.expect(Token::Mod);
        proof {
            expect_bounds(self, Token::Mod);
            expect_bounds(keyword.state, Token::Identifier);
        }
        match keyword.result {
            Err(error) => failed(seq![error], keyword.state),
            Ok(_) => {
                let name = keyword.state.expect(Token::Identifier);
                match name.result {
                    Err(error) => failed(seq![error], name.state),
                    Ok(token) => {
                        let peeked = name.state.peek();
                        proof {
                            peek_bounds(name.state);
                        }
                        match peeked.result {
                            Err(error) => failed(seq![error], peeked.state),
                            Ok(next) => if next.base == Token::OpenBrace {
                                let body = peeked.state.consumed().file(true);
                                match body.result {
                                    Err(errors) => failed(errors, body.state),
                                    Ok(declarations) => {
                                        let close = body.state.expect(Token::CloseBrace);
                                        match close.result {
                                            Err(error) => failed(seq![error], close.state),
                                            Ok(_) => done(
                                                DeclarationView::Mod {
                                                    name: token,
                                                    body: Some(declarations),
                                                },
                                                close.state,
                                            ),
                                        }
                                    },
                                }
                            } else if next.base == Token::Semicolon {
                                done(
                                    DeclarationView::Mod { name: token, body: None },
                                    peeked.state.consumed(),
                                )
                            } else {
                                peeked.state.reject::<DeclarationView>().listed()
                            },
                        }
                    },
                }
            },
        }
    }

    /// A declaration: `use`, `mod` or `fn`. Another token is consumed and
    /// is the error.
    pub open spec fn declaration(self) -> Parsed<DeclarationView, Seq<Diagnostic>>
        decreases self.remaining(), 4nat,
    {
        let peeked = self.peek();
        proof {
            peek_bounds(self);
        }
        match peeked.result {
            Err(error) => failed(seq![error], peeked.state),
            Ok(token) => if token.base == Token::Use {
                peeked.state.use_declaration().listed()
            } else if token.base == Token::Mod {
                peeked.state.mod_declaration()
            } else if token.base == Token::Fn {
                peeked.state.fn_declaration().listed()
            } else {
                peeked.state.reject::<DeclarationView>().listed()
            },
        }
    }

    /// The declarations after `declarations`, up to the end of the text
    /// or, within a module, to the closing brace, which stays. After each
    /// failure the parser synchronizes and goes on, with the failure's
    /// diagnostics added to `errors`.
    pub open spec fn declarations(
        self,
        within_module: bool,
        declarations: Seq<DeclarationView>,
        errors: Seq<Diagnostic>,
    ) -> Gathered
        decreases self.remaining(), 5nat,
    {
        let peeked = self.peek();
        proof {
            peek_bounds(self);
            synchronize_bounds(peeked.state);
        }
        match peeked.result {
            Err(error) => peeked.state.synchronize().declarations(
                within_module,
                declarations,
                errors.push(error),
            ),
            Ok(token) => if token.base == Token::Eof || (token.base == Token::CloseBrace
                && within_module) {
                Gathered { declarations, errors, state: peeked.state }
            } else {
                let next = peeked.state.declaration();
                proof {
                    synchronize_bounds(next.state);
                }
                if next.state.remaining() < self.remaining() {
                    match next.result {
                        Ok(declaration) => next.state.declarations(
                            within_module,
                            declarations.push(declaration),
                            errors,
                        ),
                        Err(more) => next.state.synchronize().declarations(
                            within_module,
                            declarations,
                            errors + more,
                        ),
                    }
                } else {
                    Gathered { declarations, errors: errors.push(stalled()), state: next.state }
                }
            },
        }
    }

    /// The declarations of a file, or of a module's body: all of them, or
    /// the diagnostics of all that failed. A file ends with the text; a
    /// module's body ends before its closing brace.
    pub open spec fn file(self, within_module: bool) -> Parsed<
        Seq<DeclarationView>,
        Seq<Diagnostic>,
    >
        decreases self.remaining(), 6nat,
    {
        let gathered = self.declarations(within_module, Seq::empty(), Seq::empty());
        let end = gathered.state.expect(Token::Eof);
        let errors = if within_module || end.result is Ok {
            gathered.errors
        } else {
            gathered.errors.push(end.result->Err_0)
        };
        let state = if within_module {
            gathered.state
        } else {
            end.state
        };
        if errors.len() == 0 {
            done(gathered.declarations, state)
        } else {
            failed(errors, state)
        }
    }
}

} // verus!
