//! The parser: recursive descent with one token of lookahead.
//!
//! What each method is to do is stated by the function of the same name on
//! the parser's model, [`ParserView`]; the methods compute exactly these.

use crate::ast::{
    AccessExpression, BinaryExpression, BindStatement, Block, CallExpression, Declaration,
    ElseBody, Expression, ExpressionStatement, File, FnDeclaration, IfExpression,
    ModDeclaration, Path, Pattern, Statement, TokenView, UnaryExpression, UseDeclaration,
    UseTree, UseTreeBranch, WhileExpression,
};
use crate::ast::{declarations_view, expressions_view, statements_view, tokens_view, use_trees_view};
use crate::ast::{ElseView, ExpressionView, UseTreeView};
use crate::cursor::{
    advance_bounds, at, expect_bounds, peek_bounds, token_after, token_of,
    Diagnostic, Parsed, ParserView,
};
use crate::grammar::{is_literal, Tier};
pub use crate::cursor::ParseError;
use crate::lex::{lexeme_at, lexeme_bounds, Lexer};
use crate::span::{Source, SpanView, Spanned};
use crate::token::Token;
use vstd::prelude::*;
use vstd::string::StringSliceAdditionalSpecFns;

verus! {

/// Whether a result is the value or the error that a model of it is.
pub open spec fn agrees<T: View, E: View>(result: Result<T, E>, model: Result<T::V, E::V>) -> bool {
    match result {
        Ok(value) => model == Ok::<T::V, E::V>(value@),
        Err(error) => model == Err::<T::V, E::V>(error@),
    }
}

/// Whether what a method did is what the grammar says: it left the parser
/// in the state `model.state` with the value or the error of
/// `model.result`, and it left no more to parse than there was.
pub open spec fn follows<T: View, E: View>(
    before: ParserView,
    after: ParserView,
    result: Result<T, E>,
    model: Parsed<T::V, E::V>,
) -> bool {
    &&& after == model.state
    &&& agrees(result, model.result)
    &&& after.remaining() <= before.remaining()
}

/// The same, of a method that consumes a token whenever it succeeds: where
/// it succeeded, it left less to parse than there was.
pub open spec fn conforms<T: View, E: View>(
    before: ParserView,
    after: ParserView,
    result: Result<T, E>,
    model: Parsed<T::V, E::V>,
) -> bool {
    &&& follows(before, after, result, model)
    &&& result is Ok ==> after.remaining() < before.remaining()
}

/// The same, of a method that hands out a vector of trees.
pub open spec fn conforms_trees(
    before: ParserView,
    after: ParserView,
    result: Result<Vec<UseTree>, Spanned<ParseError>>,
    model: Parsed<Seq<UseTreeView>, Diagnostic>,
) -> bool {
    &&& after == model.state
    &&& match result {
        Ok(trees) => model.result == Ok::<Seq<UseTreeView>, Diagnostic>(use_trees_view(&trees)),
        Err(error) => model.result == Err::<Seq<UseTreeView>, Diagnostic>(error@),
    }
    &&& after.remaining() <= before.remaining()
    &&& result is Ok ==> after.remaining() < before.remaining()
}

/// The same, of a method that hands out a tree or a list of errors.
pub open spec fn conforms_listed<T: View>(
    before: ParserView,
    after: ParserView,
    result: Result<T, Vec<Spanned<ParseError>>>,
    model: Parsed<T::V, Seq<Diagnostic>>,
) -> bool {
    &&& after == model.state
    &&& match result {
        Ok(value) => model.result == Ok::<T::V, Seq<Diagnostic>>(value@),
        Err(errors) => model.result == Err::<T::V, Seq<Diagnostic>>(diagnostics(errors@)),
    }
    &&& after.remaining() <= before.remaining()
}

/// The models of the errors.
pub open spec fn diagnostics(errors: Seq<Spanned<ParseError>>) -> Seq<Diagnostic> {
    errors.map_values(|error: Spanned<ParseError>| error@)
}

/// A parser of one source.
#[derive(Debug)]
pub struct Parser {
    lexer: Lexer,
    current: Option<Spanned<Token>>,
}

impl View for Parser {
    type V = ParserView;

    closed spec fn view(&self) -> ParserView {
        ParserView {
            source: self.lexer@.source,
            offset: self.lexer@.offset,
            current: match self.current {
                Some(token) => Some(token@),
                None => None,
            },
        }
    }
}

impl Parser {
    /// A parser at the start of a copy of `source`.
    pub fn new(source: &str) -> (parser: Parser)
        ensures
            parser@ == (ParserView { source: source.spec_bytes(), offset: 0, current: None }),
    {
        Parser { lexer: Lexer::new(source), current: None }
    }

    /// The text that is parsed.
    pub fn source(&self) -> (source: &Source)
        ensures
            source@ == self@.source,
    {
        self.lexer.source()
    }

    /// Looks at the next token.
    fn peek(&mut self) -> (result: Result<Spanned<Token>, Spanned<ParseError>>)
        ensures
            final(self)@ == old(self)@.peek().state,
            match result {
                Ok(token) => old(self)@.peek().result == Ok::<TokenView, Diagnostic>(token@),
                Err(error) => old(self)@.peek().result == Err::<TokenView, Diagnostic>(error@),
            },
            final(self)@.within_source(),
            final(self)@.remaining() <= old(self)@.remaining(),
    {
        proof {
            use_type_invariant(&self.lexer);
            peek_bounds(self@);
        }
        if let Some(token) = &self.current {
            return Ok(token.clone());
        }
        let ghost source = self@.source;
        let ghost from = self@.offset;
        let mut error: Option<Spanned<ParseError>> = None;
        let mut found: Option<Spanned<Token>> = None;
        while found.is_none()
            invariant
                self.current is None,
                self.lexer@.source == source,
                0 <= from <= self.lexer@.offset <= source.len(),
                match found {
                    Some(token) => token@ == token_of(source, token_after(source, from))
                        && self.lexer@.offset == token@.span.end,
                    None => token_after(source, from) == token_after(source, self.lexer@.offset),
                },
                match error {
                    Some(error) => lexeme_at(source, from).item matches Err(lex_error) && error@
                        == at(
                        ParseError::Lex(lex_error),
                        SpanView {
                            source,
                            start: lexeme_at(source, from).start,
                            end: lexeme_at(source, from).end,
                        },
                    ),
                    None => found is None ==> from == self.lexer@.offset,
                },
                error is None && found is Some ==> lexeme_at(source, from).item is Ok,
            decreases source.len() - self.lexer@.offset, if found is None { 1nat } else { 0nat },
        {
            proof {
                lexeme_bounds(source, self.lexer@.offset);
            }
            match self.lexer.next() {
                Ok(token) => {
                    found = Some(token);
                },
                Err(lex_error) => {
                    if error.is_none() {
                        error = Some(Spanned::new(ParseError::Lex(lex_error.base), lex_error.span));
                    }
                },
            }
        }
        let token = found.unwrap();
        self.current = Some(token.clone());
        match error {
            Some(error) => Err(error),
            None => Ok(token),
        }
    }

    /// Consumes the next token.
    fn advance(&mut self) -> (result: Result<Spanned<Token>, Spanned<ParseError>>)
        ensures
            final(self)@ == old(self)@.advance().state,
            match result {
                Ok(token) => old(self)@.advance().result == Ok::<TokenView, Diagnostic>(token@),
                Err(error) => old(self)@.advance().result == Err::<TokenView, Diagnostic>(error@),
            },
            final(self)@.within_source(),
            final(self)@.remaining() <= old(self)@.remaining(),
            result matches Ok(token) ==> token.base != Token::Eof ==> final(self)@.remaining()
                < old(self)@.remaining(),
    {
        proof {
            use_type_invariant(&self.lexer);
            advance_bounds(self@);
        }
        match self.peek() {
            Ok(_) => {},
            Err(error) => {
                return Err(error);
            },
        }
        match self.current.take() {
            Some(token) => Ok(token),
            None => unreached(),
        }
    }

    /// Consumes the next token, which is to be `token`.
    fn expect(&mut self, token: Token) -> (result: Result<Spanned<Token>, Spanned<ParseError>>)
        ensures
            final(self)@ == old(self)@.expect(token).state,
            match result {
                Ok(found) => old(self)@.expect(token).result == Ok::<TokenView, Diagnostic>(
                    found@,
                ),
                Err(error) => old(self)@.expect(token).result == Err::<TokenView, Diagnostic>(
                    error@,
                ),
            },
            final(self)@.within_source(),
            final(self)@.remaining() <= old(self)@.remaining(),
            token != Token::Eof ==> result is Ok
                ==> final(self)@.remaining() < old(self)@.remaining(),
    {
        let found = match self.advance() {
            Ok(found) => found,
            Err(error) => {
                return Err(error);
            },
        };
        if found.base == token {
            Ok(found)
        } else {
            Err(Spanned::new(ParseError::UnexpectedToken(found.base), found.span))
        }
    }

    /// Consumes the next token and blames it.
    fn reject(&mut self) -> (error: Spanned<ParseError>)
        ensures
            final(self)@ == old(self)@.advance().state,
            old(self)@.reject::<TokenView>().result == Err::<TokenView, Diagnostic>(error@),
            final(self)@.within_source(),
            final(self)@.remaining() <= old(self)@.remaining(),
    {
        match self.advance() {
            Ok(found) => Spanned::new(ParseError::UnexpectedToken(found.base), found.span),
            Err(error) => error,
        }
    }

    /// Discards tokens up to the next `fn`, `mod` or `Eof`.
    fn synchronize(&mut self)
        ensures
            final(self)@ == old(self)@.synchronize(),
            final(self)@.within_source(),
            final(self)@.remaining() <= old(self)@.remaining(),
    {
        proof {
            use_type_invariant(&self.lexer);
        }
        loop
            invariant
                self@.within_source(),
                self@.synchronize() == old(self)@.synchronize(),
                self@.remaining() <= old(self)@.remaining(),
            ensures
                self@ == old(self)@.synchronize(),
                self@.within_source(),
                self@.remaining() <= old(self)@.remaining(),
            decreases self@.remaining(),
        {
            proof {
                peek_bounds(self@);
                advance_bounds(self@);
            }
            let ghost before = self@;
            match self.peek() {
                Ok(token) => {
                    if token.base == Token::Fn || token.base == Token::Mod || token.base
                        == Token::Eof {
                        break ;
                    }
                },
                Err(_) => {},
            }
            proof {
                advance_bounds(self@);
                assert(self@.advance().state == before.peek().state.consumed());
            }
            let _ = self.advance();
        }
    }

    /// Tells whether a token may stand as a literal or a pattern.
    fn starts_literal(token: Token) -> (literal: bool)
        ensures
            literal == is_literal(token),
    {
        token == Token::Int || token == Token::Float || token == Token::True || token
            == Token::False || token == Token::Identifier
    }

    /// Parses a literal or a name.
    fn literal_expression(&mut self) -> (result: Result<Spanned<Token>, Spanned<ParseError>>)
        ensures
            conforms(old(self)@, final(self)@, result, old(self)@.literal()),
    {
        proof {
            peek_bounds(self@);
        }
        let token = match self.peek() {
            Ok(token) => token,
            Err(error) => {
                return Err(error);
            },
        };
        proof {
            advance_bounds(self@);
        }
        if Parser::starts_literal(token.base) {
            self.advance()
        } else {
            Err(self.reject())
        }
    }

    /// Parses what a `let` binds to.
    fn pattern(&mut self) -> (result: Result<Pattern, Spanned<ParseError>>)
        ensures
            conforms(old(self)@, final(self)@, result, old(self)@.literal()),
    {
        match self.literal_expression() {
            Ok(token) => Ok(Pattern::Literal(token)),
            Err(error) => Err(error),
        }
    }

    /// Parses a literal, or names joined by `::`.
    fn path_expression(&mut self) -> (result: Result<Expression, Spanned<ParseError>>)
        ensures
            conforms(old(self)@, final(self)@, result, old(self)@.path()),
    {
        let ghost before = self@;
        let token = match self.literal_expression() {
            Ok(token) => token,
            Err(error) => {
                return Err(error);
            },
        };
        let next = match self.peek() {
            Ok(next) => next,
            Err(error) => {
                return Err(error);
            },
        };
        if !(token.base == Token::Identifier && next.base == Token::ColonColon) {
            return Ok(Expression::Literal(token));
        }
        let _ = self.advance();
        let mut components: Vec<Spanned<Token>> = Vec::new();
        assert(tokens_view(components@.push(token)) =~= seq![token@]);
        components.push(token);
        loop
            invariant
                before == old(self)@,
                before.path() == self@.components(tokens_view(components@)),
                self@.remaining() < before.remaining(),
            decreases self@.remaining(),
        {
            proof {
                expect_bounds(self@, Token::Identifier);
            }
            let component = match self.expect(Token::Identifier) {
                Ok(component) => component,
                Err(error) => {
                    return Err(error);
                },
            };
            assert(tokens_view(components@.push(component)) =~= tokens_view(components@).push(
                component@,
            ));
            components.push(component);
            let next = match self.peek() {
                Ok(next) => next,
                Err(error) => {
                    return Err(error);
                },
            };
            if next.base == Token::ColonColon {
                let _ = self.advance();
            } else {
                return Ok(Expression::Path(Path { components }));
            }
        }
    }

    /// Parses a path and the fields that are taken of it.
    fn access_expression(&mut self) -> (result: Result<Expression, Spanned<ParseError>>)
        ensures
            conforms(old(self)@, final(self)@, result, old(self)@.access()),
    {
        let ghost before = self@;
        let mut receiver = match self.path_expression() {
            Ok(receiver) => receiver,
            Err(error) => {
                return Err(error);
            },
        };
        loop
            invariant
                before == old(self)@,
                before.access() == self@.fields(receiver@),
                self@.remaining() < before.remaining(),
            decreases self@.remaining(),
        {
            proof {
                peek_bounds(self@);
            }
            let token = match self.peek() {
                Ok(token) => token,
                Err(error) => {
                    return Err(error);
                },
            };
            if token.base != Token::Period {
                return Ok(receiver);
            }
            proof {
                advance_bounds(self@);
            }
            let _ = self.advance();
            let named = match self.peek() {
                Ok(named) => named,
                Err(error) => {
                    return Err(error);
                },
            };
            if named.base == Token::Identifier || named.base == Token::Int {
                let _ = self.advance();
                receiver = Expression::Access(
                    AccessExpression { receiver: Box::new(receiver), field: named },
                );
            } else {
                return Err(self.reject());
            }
        }
    }

    /// Parses the arguments of a call, after its opening parenthesis.
    fn arguments(&mut self) -> (result: Result<Vec<Expression>, Spanned<ParseError>>)
        ensures
            final(self)@ == old(self)@.arguments(Seq::empty()).state,
            match result {
                Ok(arguments) => old(self)@.arguments(Seq::empty()).result == Ok::<
                    Seq<ExpressionView>,
                    Diagnostic,
                >(expressions_view(&arguments)),
                Err(error) => old(self)@.arguments(Seq::empty()).result == Err::<
                    Seq<ExpressionView>,
                    Diagnostic,
                >(error@),
            },
            final(self)@.remaining() <= old(self)@.remaining(),
        decreases old(self)@.remaining(), 90nat,
    {
        let ghost before = self@;
        let mut arguments: Vec<Expression> = Vec::new();
        assert(expressions_view(&arguments) =~= Seq::empty());
        loop
            invariant
                before == old(self)@,
                before.arguments(Seq::empty()) == self@.arguments(expressions_view(&arguments)),
                self@.remaining() <= before.remaining(),
            decreases self@.remaining(),
        {
            proof {
                peek_bounds(self@);
            }
            let token = match self.peek() {
                Ok(token) => token,
                Err(error) => {
                    return Err(error);
                },
            };
            if token.base == Token::CloseParen {
                let _ = self.advance();
                return Ok(arguments);
            }
            let argument = match self.expression() {
                Ok(argument) => argument,
                Err(error) => {
                    return Err(error);
                },
            };
            let ghost prior = expressions_view(&arguments);
            arguments.push(argument);
            assert(expressions_view(&arguments) =~= prior.push(argument@));
            proof {
                peek_bounds(self@);
            }
            let next = match self.peek() {
                Ok(next) => next,
                Err(error) => {
                    return Err(error);
                },
            };
            if next.base == Token::Comma {
                let _ = self.advance();
            }
        }
    }

    /// Parses an access and the calls that are made of it.
    fn call_expression(&mut self) -> (result: Result<Expression, Spanned<ParseError>>)
        ensures
            conforms(old(self)@, final(self)@, result, old(self)@.call()),
        decreases old(self)@.remaining(), 1nat,
    {
        let ghost before = self@;
        let mut receiver = match self.access_expression() {
            Ok(receiver) => receiver,
            Err(error) => {
                return Err(error);
            },
        };
        loop
            invariant
                before == old(self)@,
                before.call() == self@.calls(receiver@),
                self@.remaining() < before.remaining(),
            decreases self@.remaining(),
        {
            proof {
                peek_bounds(self@);
            }
            let token = match self.peek() {
                Ok(token) => token,
                Err(error) => {
                    return Err(error);
                },
            };
            if token.base != Token::OpenParen {
                return Ok(receiver);
            }
            proof {
                advance_bounds(self@);
            }
            let _ = self.advance();
            let arguments = match self.arguments() {
                Ok(arguments) => arguments,
                Err(error) => {
                    return Err(error);
                },
            };
            receiver = Expression::Call(
                CallExpression { receiver: Box::new(receiver), arguments },
            );
        }
    }

    /// Parses a unary expression.
    fn unary_expression(&mut self) -> (result: Result<Expression, Spanned<ParseError>>)
        ensures
            conforms(old(self)@, final(self)@, result, old(self)@.unary()),
        decreases old(self)@.remaining(), 2nat,
    {
        proof {
            peek_bounds(self@);
        }
        let token = match self.peek() {
            Ok(token) => token,
            Err(error) => {
                return Err(error);
            },
        };
        proof {
            advance_bounds(self@);
        }
        if token.base == Token::Dash || token.base == Token::Bang {
            let _ = self.advance();
            match self.unary_expression() {
                Ok(operand) => Ok(
                    Expression::Unary(
                        UnaryExpression { operator: token, operand: Box::new(operand) },
                    ),
                ),
                Err(error) => Err(error),
            }
        } else if token.base == Token::OpenParen {
            let _ = self.advance();
            let expression = match self.expression() {
                Ok(expression) => expression,
                Err(error) => {
                    return Err(error);
                },
            };
            match self.expect(Token::CloseParen) {
                Ok(_) => Ok(expression),
                Err(error) => Err(error),
            }
        } else {
            self.call_expression()
        }
    }

    /// Parses an operand of a tier: an expression of the tier below.
    fn operand(&mut self, tier: Tier) -> (result: Result<Expression, Spanned<ParseError>>)
        ensures
            conforms(old(self)@, final(self)@, result, old(self)@.operand(tier)),
        decreases old(self)@.remaining(), 10 * tier.index() + 11,
    {
        match tier {
            Tier::Multiplication => self.unary_expression(),
            Tier::Addition => self.multiplication_expression(),
            Tier::Comparison => self.addition_expression(),
            Tier::Equality => self.comparison_expression(),
            Tier::Logical => self.equality_expression(),
        }
    }

    /// Parses operands joined by `*` and `/`.
    fn multiplication_expression(&mut self) -> (result: Result<Expression, Spanned<ParseError>>)
        ensures
            conforms(old(self)@, final(self)@, result, old(self)@.binary(Tier::Multiplication)),
        decreases old(self)@.remaining(), 19nat,
    {
        self.binary_expression(Tier::Multiplication)
    }

    /// Parses operands joined by `+` and `-`.
    fn addition_expression(&mut self) -> (result: Result<Expression, Spanned<ParseError>>)
        ensures
            conforms(old(self)@, final(self)@, result, old(self)@.binary(Tier::Addition)),
        decreases old(self)@.remaining(), 29nat,
    {
        self.binary_expression(Tier::Addition)
    }

    /// Parses one comparison, or an operand of one.
    fn comparison_expression(&mut self) -> (result: Result<Expression, Spanned<ParseError>>)
        ensures
            conforms(old(self)@, final(self)@, result, old(self)@.binary(Tier::Comparison)),
        decreases old(self)@.remaining(), 39nat,
    {
        self.binary_expression(Tier::Comparison)
    }

    /// Parses one test of equality, or an operand of one.
    fn equality_expression(&mut self) -> (result: Result<Expression, Spanned<ParseError>>)
        ensures
            conforms(old(self)@, final(self)@, result, old(self)@.binary(Tier::Equality)),
        decreases old(self)@.remaining(), 49nat,
    {
        self.binary_expression(Tier::Equality)
    }

    /// Parses operands joined by `&&` and `||`.
    fn logical_expression(&mut self) -> (result: Result<Expression, Spanned<ParseError>>)
        ensures
            conforms(old(self)@, final(self)@, result, old(self)@.binary(Tier::Logical)),
        decreases old(self)@.remaining(), 59nat,
    {
        self.binary_expression(Tier::Logical)
    }

    /// Parses an expression of a tier of binary operators.
    fn binary_expression(&mut self, tier: Tier) -> (result: Result<
        Expression,
        Spanned<ParseError>,
    >)
        ensures
            conforms(old(self)@, final(self)@, result, old(self)@.binary(tier)),
        decreases old(self)@.remaining(), 10 * tier.index() + 18,
    {
        let ghost before = self@;
        let mut left = match self.operand(tier) {
            Ok(left) => left,
            Err(error) => {
                return Err(error);
            },
        };
        if tier.associates() {
            loop
                invariant
                    before == old(self)@,
                    tier.chains(),
                    before.binary(tier) == self@.chain(tier, left@),
                    self@.remaining() < before.remaining(),
                decreases self@.remaining(),
            {
                proof {
                    peek_bounds(self@);
                }
                let operator = match self.peek() {
                    Ok(operator) => operator,
                    Err(error) => {
                        return Err(error);
                    },
                };
                if !tier.accepts(operator.base) {
                    return Ok(left);
                }
                proof {
                    advance_bounds(self@);
                }
                let _ = self.advance();
                let right = match self.operand(tier) {
                    Ok(right) => right,
                    Err(error) => {
                        return Err(error);
                    },
                };
                left = Expression::Binary(
                    BinaryExpression {
                        left_operand: Box::new(left),
                        operator,
                        right_operand: Box::new(right),
                    },
                );
            }
        } else {
            proof {
                peek_bounds(self@);
            }
            let operator = match self.peek() {
                Ok(operator) => operator,
                Err(error) => {
                    return Err(error);
                },
            };
            if !tier.accepts(operator.base) {
                return Ok(left);
            }
            proof {
                advance_bounds(self@);
            }
            let _ = self.advance();
            let right = match self.operand(tier) {
                Ok(right) => right,
                Err(error) => {
                    return Err(error);
                },
            };
            proof {
                peek_bounds(self@);
            }
            let next = match self.peek() {
                Ok(next) => next,
                Err(error) => {
                    return Err(error);
                },
            };
            if tier.accepts(next.base) {
                return Err(Spanned::new(ParseError::UnexpectedToken(next.base), next.span));
            }
            Ok(
                Expression::Binary(
                    BinaryExpression {
                        left_operand: Box::new(left),
                        operator,
                        right_operand: Box::new(right),
                    },
                ),
            )
        }
    }

    /// Parses `if condition { .. }` and what may follow it.
    fn if_expression(&mut self) -> (result: Result<IfExpression, Spanned<ParseError>>)
        ensures
            conforms(old(self)@, final(self)@, result, old(self)@.if_expression()),
        decreases old(self)@.remaining(), 70nat,
    {
        proof {
            expect_bounds(self@, Token::If);
        }
        match self.expect(Token::If) {
            Ok(_) => {},
            Err(error) => {
                return Err(error);
            },
        }
        let condition = match self.expression() {
            Ok(condition) => condition,
            Err(error) => {
                return Err(error);
            },
        };
        let body = match self.block() {
            Ok(body) => body,
            Err(error) => {
                return Err(error);
            },
        };
        let else_body = match self.else_body() {
            Ok(else_body) => else_body,
            Err(error) => {
                return Err(error);
            },
        };
        Ok(IfExpression { condition: Box::new(condition), body, else_body })
    }

    /// Parses what may follow the block of an `if`.
    fn else_body(&mut self) -> (result: Result<Option<ElseBody>, Spanned<ParseError>>)
        ensures
            final(self)@ == old(self)@.else_body().state,
            match result {
                Ok(Some(else_body)) => old(self)@.else_body().result == Ok::<
                    Option<ElseView>,
                    Diagnostic,
                >(Some(else_body@)),
                Ok(None) => old(self)@.else_body().result == Ok::<Option<ElseView>, Diagnostic>(
                    None,
                ),
                Err(error) => old(self)@.else_body().result == Err::<
                    Option<ElseView>,
                    Diagnostic,
                >(error@),
            },
            final(self)@.remaining() <= old(self)@.remaining(),
        decreases old(self)@.remaining(), 70nat,
    {
        proof {
            peek_bounds(self@);
        }
        let token = match self.peek() {
            Ok(token) => token,
            Err(error) => {
                return Err(error);
            },
        };
        if token.base != Token::Else {
            return Ok(None);
        }
        proof {
            advance_bounds(self@);
        }
        let _ = self.advance();
        proof {
            peek_bounds(self@);
        }
        let next = match self.peek() {
            Ok(next) => next,
            Err(error) => {
                return Err(error);
            },
        };
        if next.base == Token::If {
            match self.if_expression() {
                Ok(if_expression) => Ok(Some(ElseBody::If(Box::new(if_expression)))),
                Err(error) => Err(error),
            }
        } else {
            match self.block() {
                Ok(block) => Ok(Some(ElseBody::Else(block))),
                Err(error) => Err(error),
            }
        }
    }

    /// Parses `while condition { .. }`.
    fn while_expression(&mut self) -> (result: Result<Expression, Spanned<ParseError>>)
        ensures
            conforms(old(self)@, final(self)@, result, old(self)@.while_expression()),
        decreases old(self)@.remaining(), 70nat,
    {
        proof {
            expect_bounds(self@, Token::While);
        }
        match self.expect(Token::While) {
            Ok(_) => {},
            Err(error) => {
                return Err(error);
            },
        }
        let condition = match self.expression() {
            Ok(condition) => condition,
            Err(error) => {
                return Err(error);
            },
        };
        match self.block() {
            Ok(body) => Ok(
                Expression::While(WhileExpression { condition: Box::new(condition), body }),
            ),
            Err(error) => Err(error),
        }
    }

    /// Parses an expression: the tree that [`ParserView::expression`]
    /// gives, or its diagnostic.
    pub fn expression(&mut self) -> (result: Result<Expression, Spanned<ParseError>>)
        ensures
            conforms(old(self)@, final(self)@, result, old(self)@.expression()),
        decreases old(self)@.remaining(), 80nat,
    {
        proof {
            peek_bounds(self@);
        }
        let token = match self.peek() {
            Ok(token) => token,
            Err(error) => {
                return Err(error);
            },
        };
        if token.base == Token::If {
            match self.if_expression() {
                Ok(if_expression) => Ok(Expression::If(if_expression)),
                Err(error) => Err(error),
            }
        } else if token.base == Token::While {
            self.while_expression()
        } else {
            self.logical_expression()
        }
    }

    /// Parses a binding.
    fn bind_statement(&mut self) -> (result: Result<Statement, Spanned<ParseError>>)
        ensures
            conforms(old(self)@, final(self)@, result, old(self)@.bind_statement()),
        decreases old(self)@.remaining(), 94nat,
    {
        proof {
            expect_bounds(self@, Token::Let);
        }
        match self.expect(Token::Let) {
            Ok(_) => {},
            Err(error) => {
                return Err(error);
            },
        }
        proof {
            peek_bounds(self@);
        }
        let token = match self.peek() {
            Ok(token) => token,
            Err(error) => {
                return Err(error);
            },
        };
        let is_mut = token.base == Token::Mut;
        if is_mut {
            let _ = self.advance();
        }
        let pattern = match self.pattern() {
            Ok(pattern) => pattern,
            Err(error) => {
                return Err(error);
            },
        };
        match self.expect(Token::Equal) {
            Ok(_) => {},
            Err(error) => {
                return Err(error);
            },
        }
        let expression = match self.expression() {
            Ok(expression) => expression,
            Err(error) => {
                return Err(error);
            },
        };
        match self.expect(Token::Semicolon) {
            Ok(_) => Ok(Statement::Bind(BindStatement { is_mut, pattern, expression })),
            Err(error) => Err(error),
        }
    }

    /// Parses an expression that stands as a statement.
    fn expression_statement(&mut self) -> (result: Result<Statement, Spanned<ParseError>>)
        ensures
            conforms(old(self)@, final(self)@, result, old(self)@.expression_statement()),
        decreases old(self)@.remaining(), 94nat,
    {
        let expression = match self.expression() {
            Ok(expression) => expression,
            Err(error) => {
                return Err(error);
            },
        };
        proof {
            peek_bounds(self@);
        }
        let token = match self.peek() {
            Ok(token) => token,
            Err(error) => {
                return Err(error);
            },
        };
        let has_semicolon = token.base == Token::Semicolon;
        if has_semicolon {
            let _ = self.advance();
        }
        Ok(Statement::Expression(ExpressionStatement { expression, has_semicolon }))
    }

    /// Parses a statement.
    fn statement(&mut self) -> (result: Result<Statement, Spanned<ParseError>>)
        ensures
            conforms(old(self)@, final(self)@, result, old(self)@.statement()),
        decreases old(self)@.remaining(), 95nat,
    {
        proof {
            peek_bounds(self@);
        }
        let token = match self.peek() {
            Ok(token) => token,
            Err(error) => {
                return Err(error);
            },
        };
        if token.base == Token::Let {
            self.bind_statement()
        } else {
            self.expression_statement()
        }
    }

    /// Parses a block: the statements that [`ParserView::block`] gives, or
    /// its diagnostic.
    pub fn block(&mut self) -> (result: Result<Block, Spanned<ParseError>>)
        ensures
            conforms(old(self)@, final(self)@, result, old(self)@.block()),
        decreases old(self)@.remaining(), 101nat,
    {
        let ghost before = self@;
        proof {
            expect_bounds(self@, Token::OpenBrace);
        }
        match self.expect(Token::OpenBrace) {
            Ok(_) => {},
            Err(error) => {
                return Err(error);
            },
        }
        let mut statements: Vec<Statement> = Vec::new();
        assert(statements_view(&statements) =~= Seq::empty());
        loop
            invariant
                before == old(self)@,
                before.block() == self@.statements(statements_view(&statements)),
                self@.remaining() < before.remaining(),
            decreases self@.remaining(),
        {
            proof {
                peek_bounds(self@);
            }
            let token = match self.peek() {
                Ok(token) => token,
                Err(error) => {
                    return Err(error);
                },
            };
            if token.base == Token::CloseBrace {
                let _ = self.advance();
                return Ok(Block { statements });
            }
            let statement = match self.statement() {
                Ok(statement) => statement,
                Err(error) => {
                    return Err(error);
                },
            };
            let ghost prior = statements_view(&statements);
            statements.push(statement);
            assert(statements_view(&statements) =~= prior.push(statement@));
        }
    }

    /// Parses what may follow `use` or `::`.
    fn use_group(&mut self) -> (result: Result<Vec<UseTree>, Spanned<ParseError>>)
        ensures
            conforms_trees(old(self)@, final(self)@, result, old(self)@.use_group()),
        decreases old(self)@.remaining(), 4nat,
    {
        proof {
            peek_bounds(self@);
        }
        let token = match self.peek() {
            Ok(token) => token,
            Err(error) => {
                return Err(error);
            },
        };
        if token.base == Token::Identifier {
            match self.use_tree() {
                Ok(tree) => {
                    let mut trees: Vec<UseTree> = Vec::new();
                    trees.push(tree);
                    assert(use_trees_view(&trees) =~= seq![tree@]);
                    Ok(trees)
                },
                Err(error) => Err(error),
            }
        } else if token.base == Token::OpenBrace {
            self.use_trees()
        } else {
            proof {
                advance_bounds(self@);
            }
            Err(self.reject())
        }
    }

    /// Parses a name and what it leads to.
    fn use_tree(&mut self) -> (result: Result<UseTree, Spanned<ParseError>>)
        ensures
            conforms(old(self)@, final(self)@, result, old(self)@.use_tree()),
        decreases old(self)@.remaining(), 1nat,
    {
        proof {
            expect_bounds(self@, Token::Identifier);
        }
        let component = match self.expect(Token::Identifier) {
            Ok(component) => component,
            Err(error) => {
                return Err(error);
            },
        };
        proof {
            peek_bounds(self@);
        }
        let token = match self.peek() {
            Ok(token) => token,
            Err(error) => {
                return Err(error);
            },
        };
        if token.base != Token::ColonColon {
            return Ok(UseTree::Leaf(component));
        }
        proof {
            advance_bounds(self@);
        }
        let _ = self.advance();
        match self.use_group() {
            Ok(subtrees) => Ok(UseTree::Branch(UseTreeBranch { component, subtrees })),
            Err(error) => Err(error),
        }
    }

    /// Parses trees in braces.
    fn use_trees(&mut self) -> (result: Result<Vec<UseTree>, Spanned<ParseError>>)
        ensures
            conforms_trees(old(self)@, final(self)@, result, old(self)@.use_trees()),
        decreases old(self)@.remaining(), 3nat,
    {
        let ghost before = self@;
        proof {
            expect_bounds(self@, Token::OpenBrace);
        }
        match self.expect(Token::OpenBrace) {
            Ok(_) => {},
            Err(error) => {
                return Err(error);
            },
        }
        let mut trees: Vec<UseTree> = Vec::new();
        assert(use_trees_view(&trees) =~= Seq::empty());
        loop
            invariant
                before == old(self)@,
                before.use_trees() == self@.use_list(use_trees_view(&trees)),
                self@.remaining() < before.remaining(),
            decreases self@.remaining(),
        {
            let tree = match self.use_tree() {
                Ok(tree) => tree,
                Err(error) => {
                    return Err(error);
                },
            };
            let ghost prior = use_trees_view(&trees);
            trees.push(tree);
            assert(use_trees_view(&trees) =~= prior.push(tree@));
            proof {
                peek_bounds(self@);
            }
            let token = match self.peek() {
                Ok(token) => token,
                Err(error) => {
                    return Err(error);
                },
            };
            if token.base == Token::Comma {
                let _ = self.advance();
            }
            proof {
                peek_bounds(self@);
            }
            let end = match self.peek() {
                Ok(end) => end,
                Err(error) => {
                    return Err(error);
                },
            };
            if end.base == Token::CloseBrace {
                let _ = self.advance();
                return Ok(trees);
            }
        }
    }

    /// Parses a `use` declaration.
    fn use_declaration(&mut self) -> (result: Result<Declaration, Spanned<ParseError>>)
        ensures
            conforms(old(self)@, final(self)@, result, old(self)@.use_declaration()),
            final(self)@.remaining() <= old(self)@.advance().state.remaining(),
    {
        match self.expect(Token::Use) {
            Ok(_) => {},
            Err(error) => {
                return Err(error);
            },
        }
        let trees = match self.use_group() {
            Ok(trees) => trees,
            Err(error) => {
                return Err(error);
            },
        };
        match self.expect(Token::Semicolon) {
            Ok(_) => Ok(Declaration::Use(UseDeclaration { trees })),
            Err(error) => Err(error),
        }
    }

    /// Parses the parameters of a function, after the opening parenthesis.
    fn parameters(&mut self) -> (result: Result<Vec<Spanned<Token>>, Spanned<ParseError>>)
        ensures
            final(self)@ == old(self)@.parameters(Seq::empty()).state,
            match result {
                Ok(parameters) => old(self)@.parameters(Seq::empty()).result == Ok::<
                    Seq<TokenView>,
                    Diagnostic,
                >(tokens_view(parameters@)),
                Err(error) => old(self)@.parameters(Seq::empty()).result == Err::<
                    Seq<TokenView>,
                    Diagnostic,
                >(error@),
            },
            final(self)@.remaining() <= old(self)@.remaining(),
    {
        let ghost before = self@;
        let mut parameters: Vec<Spanned<Token>> = Vec::new();
        assert(tokens_view(parameters@) =~= Seq::empty());
        loop
            invariant
                before == old(self)@,
                before.parameters(Seq::empty()) == self@.parameters(tokens_view(parameters@)),
                self@.remaining() <= before.remaining(),
            decreases self@.remaining(),
        {
            proof {
                peek_bounds(self@);
            }
            let token = match self.peek() {
                Ok(token) => token,
                Err(error) => {
                    return Err(error);
                },
            };
            if token.base == Token::CloseParen {
                let _ = self.advance();
                return Ok(parameters);
            }
            proof {
                expect_bounds(self@, Token::Identifier);
            }
            let parameter = match self.expect(Token::Identifier) {
                Ok(parameter) => parameter,
                Err(error) => {
                    return Err(error);
                },
            };
            assert(tokens_view(parameters@.push(parameter)) =~= tokens_view(parameters@).push(
                parameter@,
            ));
            parameters.push(parameter);
            proof {
                peek_bounds(self@);
            }
            let next = match self.peek() {
                Ok(next) => next,
                Err(error) => {
                    return Err(error);
                },
            };
            if next.base == Token::Comma {
                let _ = self.advance();
            }
        }
    }

    /// Parses a function.
    fn fn_declaration(&mut self) -> (result: Result<Declaration, Spanned<ParseError>>)
        ensures
            conforms(old(self)@, final(self)@, result, old(self)@.fn_declaration()),
            final(self)@.remaining() <= old(self)@.advance().state.remaining(),
    {
        match self.expect(Token::Fn) {
            Ok(_) => {},
            Err(error) => {
                return Err(error);
            },
        }
        let name = match self.expect(Token::Identifier) {
            Ok(name) => name,
            Err(error) => {
                return Err(error);
            },
        };
        match self.expect(Token::OpenParen) {
            Ok(_) => {},
            Err(error) => {
                return Err(error);
            },
        }
        let parameters = match self.parameters() {
            Ok(parameters) => parameters,
            Err(error) => {
                return Err(error);
            },
        };
        match self.block() {
            Ok(body) => Ok(Declaration::Fn(FnDeclaration { name, parameters, body })),
            Err(error) => Err(error),
        }
    }

    /// Wraps one error as a list.
    fn only(error: Spanned<ParseError>) -> (errors: Vec<Spanned<ParseError>>)
        ensures
            diagnostics(errors@) == seq![error@],
    {
        let mut errors: Vec<Spanned<ParseError>> = Vec::new();
        errors.push(error);
        assert(diagnostics(errors@) =~= seq![error@]);
        errors
    }

    /// Parses a module.
    fn mod_declaration(&mut self) -> (result: Result<Declaration, Vec<Spanned<ParseError>>>)
        ensures
            conforms_listed(old(self)@, final(self)@, result, old(self)@.mod_declaration()),
            final(self)@.remaining() <= old(self)@.advance().state.remaining(),
        decreases old(self)@.remaining(), 3nat,
    {
        proof {
            expect_bounds(self@, Token::Mod);
        }
        match self.expect(Token::Mod) {
            Ok(_) => {},
            Err(error) => {
                return Err(Parser::only(error));
            },
        }
        let name = match self.expect(Token::Identifier) {
            Ok(name) => name,
            Err(error) => {
                return Err(Parser::only(error));
            },
        };
        proof {
            peek_bounds(self@);
        }
        let token = match self.peek() {
            Ok(token) => token,
            Err(error) => {
                return Err(Parser::only(error));
            },
        };
        proof {
            advance_bounds(self@);
        }
        if token.base == Token::OpenBrace {
            let _ = self.advance();
            let file = match self.file(true) {
                Ok(file) => file,
                Err(errors) => {
                    return Err(errors);
                },
            };
            match self.expect(Token::CloseBrace) {
                Ok(_) => Ok(Declaration::Mod(ModDeclaration { name, body: Some(file) })),
                Err(error) => Err(Parser::only(error)),
            }
        } else if token.base == Token::Semicolon {
            let _ = self.advance();
            Ok(Declaration::Mod(ModDeclaration { name, body: None }))
        } else {
            Err(Parser::only(self.reject()))
        }
    }

    /// Parses a declaration.
    fn declaration(&mut self) -> (result: Result<Declaration, Vec<Spanned<ParseError>>>)
        ensures
            conforms_listed(old(self)@, final(self)@, result, old(self)@.declaration()),
            old(self)@.current matches Some(token) && token.base != Token::Eof
                ==> final(self)@.remaining() < old(self)@.remaining(),
        decreases old(self)@.remaining(), 4nat,
    {
        proof {
            peek_bounds(self@);
            advance_bounds(self@);
        }
        let token = match self.peek() {
            Ok(token) => token,
            Err(error) => {
                return Err(Parser::only(error));
            },
        };
        proof {
            advance_bounds(self@);
        }
        if token.base == Token::Use {
            match self.use_declaration() {
                Ok(declaration) => Ok(declaration),
                Err(error) => Err(Parser::only(error)),
            }
        } else if token.base == Token::Mod {
            self.mod_declaration()
        } else if token.base == Token::Fn {
            match self.fn_declaration() {
                Ok(declaration) => Ok(declaration),
                Err(error) => Err(Parser::only(error)),
            }
        } else {
            Err(Parser::only(self.reject()))
        }
    }

    /// Parses the declarations of a file or of a module's body.
    fn file(&mut self, within_module: bool) -> (result: Result<File, Vec<Spanned<ParseError>>>)
        ensures
            conforms_listed(old(self)@, final(self)@, result, old(self)@.file(within_module)),
        decreases old(self)@.remaining(), 6nat,
    {
        let ghost before = self@;
        let mut declarations: Vec<Declaration> = Vec::new();
        let mut errors: Vec<Spanned<ParseError>> = Vec::new();
        assert(declarations_view(&declarations) =~= Seq::empty());
        assert(diagnostics(errors@) =~= Seq::empty());
        loop
            invariant_except_break
                before.declarations(within_module, Seq::empty(), Seq::empty())
                    == self@.declarations(
                    within_module,
                    declarations_view(&declarations),
                    diagnostics(errors@),
                ),
            invariant
                before == old(self)@,
                self@.remaining() <= before.remaining(),
            ensures
                before.declarations(within_module, Seq::empty(), Seq::empty()) == (
                crate::grammar::Gathered {
                    declarations: declarations_view(&declarations),
                    errors: diagnostics(errors@),
                    state: self@,
                }),
            decreases self@.remaining(),
        {
            proof {
                peek_bounds(self@);
            }
            let token = match self.peek() {
                Ok(token) => token,
                Err(error) => {
                    assert(diagnostics(errors@.push(error)) =~= diagnostics(errors@).push(error@));
                    errors.push(error);
                    self.synchronize();
                    continue ;
                },
            };
            if token.base == Token::Eof || (token.base == Token::CloseBrace && within_module) {
                break ;
            }
            match self.declaration() {
                Ok(declaration) => {
                    let ghost prior = declarations_view(&declarations);
                    declarations.push(declaration);
                    assert(declarations_view(&declarations) =~= prior.push(declaration@));
                },
                Err(more) => {
                    let mut more = more;
                    assert(diagnostics(errors@ + more@) =~= diagnostics(errors@) + diagnostics(
                        more@,
                    ));
                    errors.append(&mut more);
                    self.synchronize();
                },
            }
        }
        if !within_module {
            match self.expect(Token::Eof) {
                Ok(_) => {},
                Err(error) => {
                    assert(diagnostics(errors@.push(error)) =~= diagnostics(errors@).push(error@));
                    errors.push(error);
                },
            }
        }
        if errors.len() == 0 {
            Ok(File { declarations })
        } else {
            Err(errors)
        }
    }

    /// Parses the whole text as a file: its declarations, or the
    /// diagnostics of every declaration that failed.
    pub fn parse(self) -> (result: Result<File, Vec<Spanned<ParseError>>>)
        ensures
            match result {
                Ok(file) => self@.file(false).result == Ok::<
                    Seq<crate::ast::DeclarationView>,
                    Seq<Diagnostic>,
                >(file@),
                Err(errors) => self@.file(false).result == Err::<
                    Seq<crate::ast::DeclarationView>,
                    Seq<Diagnostic>,
                >(diagnostics(errors@)),
            },
    {
        let mut parser = self;
        parser.file(false)
    }
}

} // verus!
