//! The state of a parser and its steps over tokens: looking at the next
//! token, consuming it, and finding the place to go on from after an error.

use crate::ast::TokenView;
use crate::lex::{lexeme_at, lexeme_bounds, LexError, Lexeme};
use crate::span::{SpanView, SpannedView};
use crate::token::Token;
use vstd::prelude::*;

verus! {

/// What is wrong with a text, at a span of it.
#[derive(Clone, Copy, Debug, PartialEq, Eq, Structural)]
pub enum ParseError {
    /// No token could be read.
    Lex(LexError),
    /// A token stands where the grammar has no place for it.
    UnexpectedToken(Token),
}

/// The model of a diagnostic: the error and the range that it is about.
pub type Diagnostic = SpannedView<ParseError>;

/// A parser's state: the text, the position that its lexer has come to,
/// and the token that was read ahead, if one was.
pub struct ParserView {
    pub source: Seq<u8>,
    pub offset: int,
    pub current: Option<TokenView>,
}

/// What a step of parsing comes to: a value or an error, and the state
/// that the parser is left in.
pub struct Parsed<T, E> {
    pub result: Result<T, E>,
    pub state: ParserView,
}

/// The first token at or after `from`: lexemes that are errors are passed
/// over.
pub open spec fn token_after(bytes: Seq<u8>, from: int) -> Lexeme
    decreases bytes.len() - from,
{
    let lexeme = lexeme_at(bytes, from);
    if 0 <= from <= bytes.len() && lexeme.item is Err {
        proof {
            lexeme_bounds(bytes, from);
        }
        token_after(bytes, lexeme.end)
    } else {
        lexeme
    }
}

/// The token after `from` ends at or after `from` and within the text. It
/// ends after `from` unless it is the `Eof`, and also where an error is
/// passed over.
pub proof fn token_after_bounds(bytes: Seq<u8>, from: int)
    requires
        0 <= from <= bytes.len(),
    ensures
        token_after(bytes, from).item is Ok,
        from <= token_after(bytes, from).end <= bytes.len(),
        token_after(bytes, from).item != Ok::<Token, LexError>(Token::Eof) ==> from < token_after(
            bytes,
            from,
        ).end,
        lexeme_at(bytes, from).item is Err ==> from < token_after(bytes, from).end,
    decreases bytes.len() - from,
{
    lexeme_bounds(bytes, from);
    if lexeme_at(bytes, from).item is Err {
        token_after_bounds(bytes, lexeme_at(bytes, from).end);
    }
}

/// The model of the token that a lexeme is, as a token of `source`.
pub open spec fn token_of(source: Seq<u8>, lexeme: Lexeme) -> TokenView
    recommends
        lexeme.item is Ok,
{
    SpannedView {
        base: lexeme.item->Ok_0,
        span: SpanView { source, start: lexeme.start, end: lexeme.end },
    }
}

/// The diagnostic that an error covering `span` is.
pub open spec fn at(error: ParseError, span: SpanView) -> Diagnostic {
    SpannedView { base: error, span }
}

/// The diagnostic for a token that has no place where it stands.
pub open spec fn unexpected(token: TokenView) -> Diagnostic {
    at(ParseError::UnexpectedToken(token.base), token.span)
}

impl ParserView {
    /// A measure of what is left to parse. It never grows, and it shrinks
    /// whenever a token other than `Eof` is consumed.
    pub open spec fn remaining(self) -> nat {
        let unread = if 0 <= self.offset <= self.source.len() {
            2 * (self.source.len() - self.offset)
        } else {
            0
        };
        let ahead: int = match self.current {
            Some(token) => if token.base == Token::Eof {
                0
            } else {
                1
            },
            None => 0,
        };
        (unread + ahead) as nat
    }

    /// The state after the token that was read ahead is taken.
    pub open spec fn consumed(self) -> ParserView {
        ParserView { current: None, ..self }
    }

    /// Looks at the next token without consuming it. Where none was read
    /// ahead, the lexer is asked until it hands out a token, which is kept
    /// as read ahead; if the lexer's first answer was an error, that error
    /// is the result, and the token is what the next look finds.
    pub open spec fn peek(self) -> Parsed<TokenView, Diagnostic> {
        match self.current {
            Some(token) => Parsed { result: Ok(token), state: self },
            None => {
                let first = lexeme_at(self.source, self.offset);
                let token = token_of(self.source, token_after(self.source, self.offset));
                let state = ParserView { offset: token.span.end, current: Some(token), ..self };
                match first.item {
                    Ok(_) => Parsed { result: Ok(token), state },
                    Err(error) => Parsed {
                        result: Err(
                            at(
                                ParseError::Lex(error),
                                SpanView {
                                    source: self.source,
                                    start: first.start,
                                    end: first.end,
                                },
                            ),
                        ),
                        state,
                    },
                }
            },
        }
    }

    /// Consumes the next token.
    pub open spec fn advance(self) -> Parsed<TokenView, Diagnostic> {
        let peeked = self.peek();
        match peeked.result {
            Ok(token) => Parsed { result: Ok(token), state: peeked.state.consumed() },
            Err(_) => peeked,
        }
    }

    /// Consumes the next token, which is to be `token`. Another token is
    /// consumed as well, and is the error.
    pub open spec fn expect(self, token: Token) -> Parsed<TokenView, Diagnostic> {
        let advanced = self.advance();
        match advanced.result {
            Ok(found) => if found.base == token {
                advanced
            } else {
                Parsed { result: Err(unexpected(found)), state: advanced.state }
            },
            Err(_) => advanced,
        }
    }

    /// Consumes the next token and blames it.
    pub open spec fn reject<T>(self) -> Parsed<T, Diagnostic> {
        let advanced = self.advance();
        match advanced.result {
            Ok(found) => Parsed { result: Err(unexpected(found)), state: advanced.state },
            Err(error) => Parsed { result: Err(error), state: advanced.state },
        }
    }

    /// Whether the lexer's position is one of the text.
    pub open spec fn within_source(self) -> bool {
        0 <= self.offset <= self.source.len()
    }

    /// Discards tokens up to the next `fn`, `mod` or `Eof`, which stays.
    /// A look that finds an error discards the error and the token after
    /// it, whatever that token is.
    pub open spec fn synchronize(self) -> ParserView
        decreases self.remaining(),
    {
        let peeked = self.peek();
        proof {
            peek_bounds(self);
        }
        match peeked.result {
            Ok(token) => if token.base == Token::Fn || token.base == Token::Mod || token.base
                == Token::Eof {
                peeked.state
            } else {
                peeked.state.consumed().synchronize()
            },
            Err(_) => peeked.state.consumed().synchronize(),
        }
    }
}

/// A look leaves no more to parse than there was, and less where it finds
/// an error. It leaves a token read ahead: the one that it found, and the
/// one that was read ahead before if one was.
pub proof fn peek_bounds(state: ParserView)
    ensures
        state.within_source() ==> state.peek().state.within_source(),
        state.peek().state.source == state.source,
        state.peek().state.current is Some,
        state.peek().state.remaining() <= state.remaining(),
        state.peek().result is Err ==> state.peek().state.remaining() < state.remaining(),
        state.peek().result matches Ok(token) ==> state.peek().state.current == Some(token),
        state.current is Some ==> state.peek().state == state,
{
    if state.current is None && state.within_source() {
        token_after_bounds(state.source, state.offset);
    }
}

/// Consuming leaves no more to parse than there was, and less where the
/// token is not `Eof` or where an error is found.
pub proof fn advance_bounds(state: ParserView)
    ensures
        state.within_source() ==> state.advance().state.within_source(),
        state.advance().state.source == state.source,
        state.advance().state.remaining() <= state.remaining(),
        state.advance().result is Err ==> state.advance().state.remaining() < state.remaining(),
        state.advance().result matches Ok(token) ==> token.base != Token::Eof
            ==> state.advance().state.remaining() < state.remaining(),
        state.advance().result is Ok ==> state.advance().state.current is None,
        state.current is Some ==> state.advance().result == Ok::<TokenView, Diagnostic>(
            state.current->0,
        ),
{
    peek_bounds(state);
}

/// What holds of `advance` holds of `expect` and of `reject`, which
/// consume the same.
pub proof fn expect_bounds(state: ParserView, token: Token)
    ensures
        state.expect(token).state == state.advance().state,
        state.reject::<TokenView>().state == state.advance().state,
        state.expect(token).result matches Ok(found) ==> found.base == token
            && state.advance().result == Ok::<TokenView, Diagnostic>(found),
        token != Token::Eof && state.expect(token).result is Ok ==> state.expect(
            token,
        ).state.remaining() < state.remaining(),
{
    advance_bounds(state);
}

/// Synchronizing leaves no more to parse than there was.
pub proof fn synchronize_bounds(state: ParserView)
    ensures
        state.within_source() ==> state.synchronize().within_source(),
        state.synchronize().source == state.source,
        state.synchronize().remaining() <= state.remaining(),
    decreases state.remaining(),
{
    peek_bounds(state);
    let peeked = state.peek();
    match peeked.result {
        Ok(token) => {
            if !(token.base == Token::Fn || token.base == Token::Mod || token.base == Token::Eof) {
                synchronize_bounds(peeked.state.consumed());
            }
        },
        Err(_) => {
            synchronize_bounds(peeked.state.consumed());
        },
    }
}

/// The outcome that is `value`, with the parser left in `state`.
pub open spec fn done<T, E>(value: T, state: ParserView) -> Parsed<T, E> {
    Parsed { result: Ok(value), state }
}

/// The outcome that is `error`, with the parser left in `state`.
pub open spec fn failed<T, E>(error: E, state: ParserView) -> Parsed<T, E> {
    Parsed { result: Err(error), state }
}

} // verus!
