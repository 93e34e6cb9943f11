//! The lexer: from a position in a source to the token that stands there.
//!
//! What the lexer finds is stated by [`lexeme_at`], a function of the
//! source's bytes and the position alone; [`Lexer::next`] computes it.

use crate::span::{boundaries_around_ascii, Source, Span, Spanned};
use crate::token::Token;
use vstd::prelude::*;
use vstd::string::StringSliceAdditionalSpecFns;
use vstd::utf8::{is_char_boundary, is_char_boundary_start_end_of_seq, valid_utf8};

verus! {

/// Why no token stands at a position.
#[derive(Clone, Copy, Debug, PartialEq, Eq, Structural)]
pub enum LexError {
    /// A byte that begins no token, or that cannot follow the byte before.
    UnexpectedChar(u8),
    /// The text ends within a token.
    UnexpectedEof,
}

/// Horizontal tab.
pub const TAB: u8 = 9;

/// Line feed.
pub const NEWLINE: u8 = 10;

/// Carriage return.
pub const RETURN: u8 = 13;

/// Space.
pub const SPACE: u8 = 32;

/// `!`
pub const BANG: u8 = 33;

/// `"`
pub const QUOTE: u8 = 34;

/// `&`
pub const AMPERSAND: u8 = 38;

/// `(`
pub const OPEN_PAREN: u8 = 40;

/// `)`
pub const CLOSE_PAREN: u8 = 41;

/// `*`
pub const STAR: u8 = 42;

/// `+`
pub const PLUS: u8 = 43;

/// `,`
pub const COMMA: u8 = 44;

/// `-`
pub const DASH: u8 = 45;

/// `.`
pub const PERIOD: u8 = 46;

/// `/`
pub const SLASH: u8 = 47;

/// `:`
pub const COLON: u8 = 58;

/// `;`
pub const SEMICOLON: u8 = 59;

/// `<`
pub const LESS: u8 = 60;

/// `=`
pub const EQUALS: u8 = 61;

/// `>`
pub const GREATER: u8 = 62;

/// `[`
pub const OPEN_BRACKET: u8 = 91;

/// `]`
pub const CLOSE_BRACKET: u8 = 93;

/// `{`
pub const OPEN_BRACE: u8 = 123;

/// `|`
pub const PIPE: u8 = 124;

/// `}`
pub const CLOSE_BRACE: u8 = 125;

/// `0` to `9`.
pub open spec fn digit(byte: u8) -> bool {
    48 <= byte <= 57
}

/// Space, tab, line feed and carriage return.
pub open spec fn whitespace(byte: u8) -> bool {
    byte == RETURN || byte == SPACE || byte == TAB || byte == NEWLINE
}

/// `a` to `z` and `A` to `Z`.
pub open spec fn alphabetic(byte: u8) -> bool {
    97 <= byte <= 122 || 65 <= byte <= 90
}

/// Tells whether the byte is a decimal digit.
pub fn is_digit(byte: u8) -> (result: bool)
    ensures
        result == digit(byte),
{
    byte >= 48 && byte <= 57
}

/// Tells whether the byte is white space.
pub fn is_whitespace(byte: u8) -> (result: bool)
    ensures
        result == whitespace(byte),
{
    byte == RETURN || byte == SPACE || byte == TAB || byte == NEWLINE
}

/// Tells whether the byte is a letter.
pub fn is_alphabetic(byte: u8) -> (result: bool)
    ensures
        result == alphabetic(byte),
{
    byte >= 97 && byte <= 122 || byte >= 65 && byte <= 90
}

/// The kinds of byte that the lexer reads a run of.
#[derive(Clone, Copy, Debug, PartialEq, Eq, Structural)]
pub enum Class {
    /// White space between tokens.
    Whitespace,
    /// The digits of a number.
    Digit,
    /// The letters and digits of a name.
    Alphanumeric,
    /// What a comment holds: everything up to the end of the line.
    SameLine,
    /// What a string holds: everything up to the closing quote.
    Unquoted,
}

impl Class {
    /// Whether a byte is of the class.
    pub open spec fn holds(self, byte: u8) -> bool {
        match self {
            Class::Whitespace => whitespace(byte),
            Class::Digit => digit(byte),
            Class::Alphanumeric => digit(byte) || alphabetic(byte),
            Class::SameLine => byte != NEWLINE,
            Class::Unquoted => byte != QUOTE,
        }
    }

    /// Tells whether a byte is of the class.
    pub fn admits(self, byte: u8) -> (result: bool)
        ensures
            result == self.holds(byte),
    {
        match self {
            Class::Whitespace => is_whitespace(byte),
            Class::Digit => is_digit(byte),
            Class::Alphanumeric => is_digit(byte) || is_alphabetic(byte),
            Class::SameLine => byte != NEWLINE,
            Class::Unquoted => byte != QUOTE,
        }
    }
}

/// Where the longest run of bytes of `class` that begins at `from` ends:
/// the first position at or after `from` whose byte is not of the class,
/// or the end of the text.
pub open spec fn run_end(bytes: Seq<u8>, from: int, class: Class) -> int
    decreases bytes.len() - from,
{
    if 0 <= from < bytes.len() && class.holds(bytes[from]) {
        run_end(bytes, from + 1, class)
    } else {
        from
    }
}

/// How each word that is no name is spelled; empty for the other tokens.
pub open spec fn spelled(token: Token) -> Seq<u8> {
    match token {
        Token::Use => seq![117u8, 115, 101],
        Token::Mod => seq![109u8, 111, 100],
        Token::Fn => seq![102u8, 110],
        Token::Impl => seq![105u8, 109, 112, 108],
        Token::Let => seq![108u8, 101, 116],
        Token::Mut => seq![109u8, 117, 116],
        Token::If => seq![105u8, 102],
        Token::Else => seq![101u8, 108, 115, 101],
        Token::While => seq![119u8, 104, 105, 108, 101],
        Token::True => seq![116u8, 114, 117, 101],
        Token::False => seq![102u8, 97, 108, 115, 101],
        _ => Seq::empty(),
    }
}

/// The token that a run of letters and digits is: one of the words of
/// [`spelled`], or else a name.
pub open spec fn classify(word: Seq<u8>) -> Token {
    if word == spelled(Token::Use) {
        Token::Use
    } else if word == spelled(Token::Mod) {
        Token::Mod
    } else if word == spelled(Token::Fn) {
        Token::Fn
    } else if word == spelled(Token::Impl) {
        Token::Impl
    } else if word == spelled(Token::Let) {
        Token::Let
    } else if word == spelled(Token::Mut) {
        Token::Mut
    } else if word == spelled(Token::If) {
        Token::If
    } else if word == spelled(Token::Else) {
        Token::Else
    } else if word == spelled(Token::While) {
        Token::While
    } else if word == spelled(Token::True) {
        Token::True
    } else if word == spelled(Token::False) {
        Token::False
    } else {
        Token::Identifier
    }
}

/// The token that one byte is, where no other byte has a say.
pub open spec fn single(byte: u8) -> Option<Token> {
    if byte == PLUS {
        Some(Token::Plus)
    } else if byte == DASH {
        Some(Token::Dash)
    } else if byte == STAR {
        Some(Token::Star)
    } else if byte == COMMA {
        Some(Token::Comma)
    } else if byte == PERIOD {
        Some(Token::Period)
    } else if byte == SEMICOLON {
        Some(Token::Semicolon)
    } else if byte == OPEN_PAREN {
        Some(Token::OpenParen)
    } else if byte == CLOSE_PAREN {
        Some(Token::CloseParen)
    } else if byte == OPEN_BRACE {
        Some(Token::OpenBrace)
    } else if byte == CLOSE_BRACE {
        Some(Token::CloseBrace)
    } else if byte == OPEN_BRACKET {
        Some(Token::OpenBracket)
    } else if byte == CLOSE_BRACKET {
        Some(Token::CloseBracket)
    } else {
        None
    }
}

/// The token that `>`, `<`, `=` or `!` begins: the second of the two
/// tokens if `=` follows, else the first. No token for another byte.
pub open spec fn with_equals(byte: u8) -> Option<(Token, Token)> {
    if byte == GREATER {
        Some((Token::Greater, Token::GreaterEqual))
    } else if byte == LESS {
        Some((Token::Less, Token::LessEqual))
    } else if byte == EQUALS {
        Some((Token::Equal, Token::EqualEqual))
    } else if byte == BANG {
        Some((Token::Bang, Token::BangEqual))
    } else {
        None
    }
}

/// The token that `&`, `|` or `:` is when it stands twice. No token for
/// another byte.
pub open spec fn doubled(byte: u8) -> Option<Token> {
    if byte == AMPERSAND {
        Some(Token::AmpAmp)
    } else if byte == PIPE {
        Some(Token::PipePipe)
    } else if byte == COLON {
        Some(Token::ColonColon)
    } else {
        None
    }
}

/// What stands at a position: a token or an error, and the bytes that it
/// covers, from `start` up to `end`.
pub struct Lexeme {
    pub item: Result<Token, LexError>,
    pub start: int,
    pub end: int,
}

/// What begins at `start`, where a byte stands that is no white space.
pub open spec fn lexeme_from(bytes: Seq<u8>, start: int) -> Lexeme
    recommends
        0 <= start < bytes.len(),
{
    let first = bytes[start];
    let second = if start + 1 < bytes.len() {
        Some(bytes[start + 1])
    } else {
        None
    };
    if first == QUOTE {
        let close = run_end(bytes, start + 1, Class::Unquoted);
        if close < bytes.len() {
            Lexeme { item: Ok(Token::String), start, end: close + 1 }
        } else {
            Lexeme { item: Err(LexError::UnexpectedEof), start, end: close }
        }
    } else if first == SLASH {
        if second == Some(SLASH) {
            Lexeme {
                item: Ok(Token::Comment),
                start,
                end: run_end(bytes, start + 2, Class::SameLine),
            }
        } else {
            Lexeme { item: Ok(Token::Slash), start, end: start + 1 }
        }
    } else if let Some((alone, followed)) = with_equals(first) {
        if second == Some(EQUALS) {
            Lexeme { item: Ok(followed), start, end: start + 2 }
        } else {
            Lexeme { item: Ok(alone), start, end: start + 1 }
        }
    } else if doubled(first) is Some {
        match second {
            Some(byte) => if byte == first {
                Lexeme { item: Ok(doubled(first)->0), start, end: start + 2 }
            } else {
                Lexeme { item: Err(LexError::UnexpectedChar(byte)), start, end: start + 1 }
            },
            None => Lexeme { item: Err(LexError::UnexpectedEof), start, end: start + 1 },
        }
    } else if digit(first) {
        let whole = run_end(bytes, start + 1, Class::Digit);
        if whole < bytes.len() && bytes[whole] == PERIOD {
            Lexeme {
                item: Ok(Token::Float),
                start,
                end: run_end(bytes, whole + 1, Class::Digit),
            }
        } else {
            Lexeme { item: Ok(Token::Int), start, end: whole }
        }
    } else if alphabetic(first) {
        let end = run_end(bytes, start + 1, Class::Alphanumeric);
        Lexeme { item: Ok(classify(bytes.subrange(start, end))), start, end }
    } else {
        match single(first) {
            Some(token) => Lexeme { item: Ok(token), start, end: start + 1 },
            None => Lexeme { item: Err(LexError::UnexpectedChar(first)), start, end: start + 1 },
        }
    }
}

/// What the lexer finds when it is asked at `from`: white space is passed
/// over, and what begins after it is the lexeme; at the end of the text
/// that is `Eof`, which covers nothing.
pub open spec fn lexeme_at(bytes: Seq<u8>, from: int) -> Lexeme {
    let start = run_end(bytes, from, Class::Whitespace);
    if 0 <= start < bytes.len() {
        lexeme_from(bytes, start)
    } else {
        Lexeme { item: Ok(Token::Eof), start, end: start }
    }
}

/// A run ends at or after its start and within the text.
pub proof fn run_end_bounds(bytes: Seq<u8>, from: int, class: Class)
    requires
        0 <= from <= bytes.len(),
    ensures
        from <= run_end(bytes, from, class) <= bytes.len(),
        run_end(bytes, from, class) < bytes.len() ==> !class.holds(
            bytes[run_end(bytes, from, class)],
        ),
    decreases bytes.len() - from,
{
    if from < bytes.len() && class.holds(bytes[from]) {
        run_end_bounds(bytes, from + 1, class);
    }
}

/// A lexeme lies at or after the position asked at and within the text,
/// and it is empty if and only if it is `Eof`, which stands at the end of
/// the text alone.
pub proof fn lexeme_bounds(bytes: Seq<u8>, from: int)
    requires
        0 <= from <= bytes.len(),
    ensures
        from <= lexeme_at(bytes, from).start <= lexeme_at(bytes, from).end <= bytes.len(),
        lexeme_at(bytes, from).item == Ok::<Token, LexError>(Token::Eof) <==> lexeme_at(
            bytes,
            from,
        ).start == lexeme_at(bytes, from).end,
        lexeme_at(bytes, from).item == Ok::<Token, LexError>(Token::Eof) ==> lexeme_at(
            bytes,
            from,
        ).end == bytes.len(),
{
    run_end_bounds(bytes, from, Class::Whitespace);
    let start = run_end(bytes, from, Class::Whitespace);
    if start < bytes.len() {
        run_end_bounds(bytes, start + 1, Class::Unquoted);
        run_end_bounds(bytes, start + 1, Class::Digit);
        run_end_bounds(bytes, start + 1, Class::Alphanumeric);
        let whole = run_end(bytes, start + 1, Class::Digit);
        if whole < bytes.len() {
            run_end_bounds(bytes, whole + 1, Class::Digit);
        }
        if start + 2 <= bytes.len() {
            run_end_bounds(bytes, start + 2, Class::SameLine);
        }
        let end = run_end(bytes, start + 1, Class::Alphanumeric);
        assert(classify(bytes.subrange(start, end)) != Token::Eof);
    }
}

/// Every byte of a run is of the run's class.
pub proof fn run_holds(bytes: Seq<u8>, from: int, class: Class, index: int)
    requires
        0 <= from <= index < run_end(bytes, from, class),
    ensures
        index < bytes.len(),
        class.holds(bytes[index]),
    decreases index - from,
{
    if from < index {
        run_holds(bytes, from + 1, class, index);
    }
}

/// In a text, every token begins and ends between characters, so that the
/// span of a token can be read as text. (An error may cover a part of a
/// character.)
pub proof fn tokens_lie_between_characters(bytes: Seq<u8>, from: int)
    requires
        valid_utf8(bytes),
        0 <= from <= bytes.len(),
    ensures
        lexeme_at(bytes, from).item is Ok ==> is_char_boundary(bytes, lexeme_at(bytes, from).start)
            && is_char_boundary(bytes, lexeme_at(bytes, from).end),
{
    let lexeme = lexeme_at(bytes, from);
    lexeme_bounds(bytes, from);
    run_end_bounds(bytes, from, Class::Whitespace);
    let start = lexeme.start;
    if lexeme.item is Ok {
        if start >= bytes.len() {
            is_char_boundary_start_end_of_seq(bytes);
        } else {
            let first = bytes[start];
            assert(first < 128);
            boundaries_around_ascii(bytes, start);
            let end = lexeme.end;
            if end == bytes.len() {
                is_char_boundary_start_end_of_seq(bytes);
            } else if first == QUOTE {
                run_end_bounds(bytes, start + 1, Class::Unquoted);
                boundaries_around_ascii(bytes, end - 1);
            } else if first == SLASH && start + 1 < bytes.len() && bytes[start + 1] == SLASH {
                run_end_bounds(bytes, start + 2, Class::SameLine);
                boundaries_around_ascii(bytes, end);
            } else if digit(first) {
                let whole = run_end(bytes, start + 1, Class::Digit);
                run_end_bounds(bytes, start + 1, Class::Digit);
                if whole < bytes.len() && bytes[whole] == PERIOD {
                    run_end_bounds(bytes, whole + 1, Class::Digit);
                    if end > whole + 1 {
                        run_holds(bytes, whole + 1, Class::Digit, end - 1);
                    }
                    boundaries_around_ascii(bytes, end - 1);
                } else {
                    if end > start + 1 {
                        run_holds(bytes, start + 1, Class::Digit, end - 1);
                    }
                    boundaries_around_ascii(bytes, end - 1);
                }
            } else if alphabetic(first) && with_equals(first) is None && doubled(first) is None {
                run_end_bounds(bytes, start + 1, Class::Alphanumeric);
                if end > start + 1 {
                    run_holds(bytes, start + 1, Class::Alphanumeric, end - 1);
                }
                boundaries_around_ascii(bytes, end - 1);
            } else {
                boundaries_around_ascii(bytes, end - 1);
            }
        }
    }
}

/// Every lexeme from `from` to the end of the text, in order. The last
/// is `Eof`.
pub open spec fn lexemes(bytes: Seq<u8>, from: int) -> Seq<Lexeme>
    decreases bytes.len() - from,
{
    let lexeme = lexeme_at(bytes, from);
    if 0 <= from <= bytes.len() && lexeme.item != Ok::<Token, LexError>(Token::Eof) {
        proof {
            lexeme_bounds(bytes, from);
        }
        seq![lexeme] + lexemes(bytes, lexeme.end)
    } else {
        seq![lexeme]
    }
}

/// Lexing a text comes to an end, and it ends in exactly one `Eof`:
/// whatever the bytes, the lexemes from a position of the text are a
/// sequence whose last is `Eof` and none of whose others is.
pub proof fn lexing_ends_in_one_eof(bytes: Seq<u8>, from: int)
    requires
        0 <= from <= bytes.len(),
    ensures
        lexemes(bytes, from).len() >= 1,
        lexemes(bytes, from).last().item == Ok::<Token, LexError>(Token::Eof),
        forall|index: int|
            0 <= index < lexemes(bytes, from).len() - 1 ==> (#[trigger] lexemes(
                bytes,
                from,
            )[index]).item != Ok::<Token, LexError>(Token::Eof),
    decreases bytes.len() - from,
{
    let lexeme = lexeme_at(bytes, from);
    if lexeme.item != Ok::<Token, LexError>(Token::Eof) {
        lexeme_bounds(bytes, from);
        lexing_ends_in_one_eof(bytes, lexeme.end);
        let rest = lexemes(bytes, lexeme.end);
        assert(lexemes(bytes, from) == seq![lexeme] + rest);
        assert forall|index: int| 0 <= index < lexemes(bytes, from).len() - 1 implies (
        #[trigger] lexemes(bytes, from)[index]).item != Ok::<Token, LexError>(Token::Eof) by {
            if index > 0 {
                assert(lexemes(bytes, from)[index] == rest[index - 1]);
            }
        }
    }
}

/// What `next` hands out: a token with its span, or an error with the span
/// of what caused it.
pub type Scanned = Result<Spanned<Token>, Spanned<LexError>>;

/// The lexeme that a result of `next` stands for.
pub open spec fn lexeme_of(scanned: Scanned) -> Lexeme {
    match scanned {
        Ok(token) => Lexeme { item: Ok(token.base), start: token.span@.start, end: token.span@.end },
        Err(error) => Lexeme {
            item: Err(error.base),
            start: error.span@.start,
            end: error.span@.end,
        },
    }
}

/// The text that the span of a result of `next` is a span of.
pub open spec fn source_of(scanned: Scanned) -> Seq<u8> {
    match scanned {
        Ok(token) => token.span@.source,
        Err(error) => error.span@.source,
    }
}

/// A lexer's text and the position that it has come to.
pub struct LexerView {
    pub source: Seq<u8>,
    pub offset: int,
}

/// A cursor into a source that hands out one token after another.
#[derive(Debug)]
pub struct Lexer {
    source: Source,
    end: usize,
}

impl View for Lexer {
    type V = LexerView;

    closed spec fn view(&self) -> LexerView {
        LexerView { source: self.source@, offset: self.end as int }
    }
}

/// Writes out how a word is spelled.
fn spelling(token: Token) -> (word: Vec<u8>)
    ensures
        word@ == spelled(token),
{
    let word = match token {
        Token::Use => vec![117u8, 115, 101],
        Token::Mod => vec![109u8, 111, 100],
        Token::Fn => vec![102u8, 110],
        Token::Impl => vec![105u8, 109, 112, 108],
        Token::Let => vec![108u8, 101, 116],
        Token::Mut => vec![109u8, 117, 116],
        Token::If => vec![105u8, 102],
        Token::Else => vec![101u8, 108, 115, 101],
        Token::While => vec![119u8, 104, 105, 108, 101],
        Token::True => vec![116u8, 114, 117, 101],
        Token::False => vec![102u8, 97, 108, 115, 101],
        _ => Vec::new(),
    };
    assert(word@ =~= spelled(token));
    word
}

/// Looks up the token that one byte is by itself.
fn single_token(byte: u8) -> (token: Option<Token>)
    ensures
        token == single(byte),
{
    if byte == PLUS {
        Some(Token::Plus)
    } else if byte == DASH {
        Some(Token::Dash)
    } else if byte == STAR {
        Some(Token::Star)
    } else if byte == COMMA {
        Some(Token::Comma)
    } else if byte == PERIOD {
        Some(Token::Period)
    } else if byte == SEMICOLON {
        Some(Token::Semicolon)
    } else if byte == OPEN_PAREN {
        Some(Token::OpenParen)
    } else if byte == CLOSE_PAREN {
        Some(Token::CloseParen)
    } else if byte == OPEN_BRACE {
        Some(Token::OpenBrace)
    } else if byte == CLOSE_BRACE {
        Some(Token::CloseBrace)
    } else if byte == OPEN_BRACKET {
        Some(Token::OpenBracket)
    } else if byte == CLOSE_BRACKET {
        Some(Token::CloseBracket)
    } else {
        None
    }
}

/// Looks up the two tokens that a byte begins, alone and before `=`.
fn equals_tokens(byte: u8) -> (tokens: Option<(Token, Token)>)
    ensures
        tokens == with_equals(byte),
{
    if byte == GREATER {
        Some((Token::Greater, Token::GreaterEqual))
    } else if byte == LESS {
        Some((Token::Less, Token::LessEqual))
    } else if byte == EQUALS {
        Some((Token::Equal, Token::EqualEqual))
    } else if byte == BANG {
        Some((Token::Bang, Token::BangEqual))
    } else {
        None
    }
}

/// Looks up the token that a byte is when it stands twice.
fn doubled_token(byte: u8) -> (token: Option<Token>)
    ensures
        token == doubled(byte),
{
    if byte == AMPERSAND {
        Some(Token::AmpAmp)
    } else if byte == PIPE {
        Some(Token::PipePipe)
    } else if byte == COLON {
        Some(Token::ColonColon)
    } else {
        None
    }
}

/// Tells whether a byte is there and is `byte`.
fn is_byte(found: Option<u8>, byte: u8) -> (same: bool)
    ensures
        same == (found == Some(byte)),
{
    match found {
        Some(other) => other == byte,
        None => false,
    }
}

impl Lexer {
    /// The position never leaves the text.
    #[verifier::type_invariant]
    pub open spec fn within_source(self) -> bool {
        0 <= self@.offset <= self@.source.len()
    }

    /// A lexer at the start of a copy of `source`.
    pub fn new(source: &str) -> (lexer: Lexer)
        ensures
            lexer@ == (LexerView { source: source.spec_bytes(), offset: 0 }),
    {
        Lexer { source: Source::new(source), end: 0 }
    }

    /// The text that is lexed.
    pub fn source(&self) -> (source: &Source)
        ensures
            source@ == self@.source,
    {
        &self.source
    }

    /// The position that the lexer has come to.
    pub fn offset(&self) -> (offset: usize)
        ensures
            offset == self@.offset,
            offset <= self@.source.len(),
    {
        proof {
            use_type_invariant(self);
        }
        self.end
    }

    /// Moves to the end of the run of `class` that begins here.
    fn scan(&mut self, class: Class)
        ensures
            final(self)@ == (LexerView {
                offset: run_end(old(self)@.source, old(self)@.offset, class),
                ..old(self)@
            }),
    {
        proof {
            use_type_invariant(&*self);
        }
        let len = self.source.len();
        while self.end < len
            invariant
                self.source == old(self).source,
                len == self.source@.len(),
                self.end <= len,
                run_end(self.source@, self.end as int, class) == run_end(
                    old(self).source@,
                    old(self).end as int,
                    class,
                ),
            ensures
                self.end == run_end(old(self).source@, old(self).end as int, class),
            decreases len - self.end,
        {
            match self.source.get(self.end) {
                Some(byte) => {
                    if class.admits(byte) {
                        self.end = self.end + 1;
                    } else {
                        break ;
                    }
                },
                None => {
                    break ;
                },
            }
        }
    }

    /// Tells whether the bytes from `start` to `end` spell `word`.
    fn spells(&self, start: usize, end: usize, word: &Vec<u8>) -> (same: bool)
        requires
            start <= end <= self@.source.len(),
        ensures
            same == (self@.source.subrange(start as int, end as int) == word@),
    {
        let ghost found = self.source@.subrange(start as int, end as int);
        if end - start != word.len() {
            return false;
        }
        let mut index: usize = 0;
        while index < word.len()
            invariant
                start <= end <= self.source@.len(),
                end - start == word@.len(),
                index <= word@.len(),
                found == self.source@.subrange(start as int, end as int),
                forall|other: int| 0 <= other < index ==> found[other] == word@[other],
            decreases word@.len() - index,
        {
            match self.source.get(start + index) {
                Some(byte) => {
                    if byte != word[index] {
                        assert(found[index as int] != word@[index as int]);
                        return false;
                    }
                },
                None => {},
            }
            index += 1;
        }
        assert(found =~= word@);
        true
    }

    /// Tells which word the bytes from `start` to `end` are.
    fn word(&self, start: usize, end: usize) -> (token: Token)
        requires
            start <= end <= self@.source.len(),
        ensures
            token == classify(self@.source.subrange(start as int, end as int)),
    {
        if self.spells(start, end, &spelling(Token::Use)) {
            Token::Use
        } else if self.spells(start, end, &spelling(Token::Mod)) {
            Token::Mod
        } else if self.spells(start, end, &spelling(Token::Fn)) {
            Token::Fn
        } else if self.spells(start, end, &spelling(Token::Impl)) {
            Token::Impl
        } else if self.spells(start, end, &spelling(Token::Let)) {
            Token::Let
        } else if self.spells(start, end, &spelling(Token::Mut)) {
            Token::Mut
        } else if self.spells(start, end, &spelling(Token::If)) {
            Token::If
        } else if self.spells(start, end, &spelling(Token::Else)) {
            Token::Else
        } else if self.spells(start, end, &spelling(Token::While)) {
            Token::While
        } else if self.spells(start, end, &spelling(Token::True)) {
            Token::True
        } else if self.spells(start, end, &spelling(Token::False)) {
            Token::False
        } else {
            Token::Identifier
        }
    }

    /// A token or an error that covers the bytes from `start` to here.
    fn build(&self, start: usize, item: Result<Token, LexError>) -> (scanned: Scanned)
        requires
            start <= self@.offset,
        ensures
            lexeme_of(scanned) == (Lexeme { item, start: start as int, end: self@.offset }),
            source_of(scanned) == self@.source,
    {
        proof {
            use_type_invariant(self);
        }
        let span = Span::new(self.source.clone(), start, self.end);
        match item {
            Ok(token) => Ok(Spanned::new(token, span)),
            Err(error) => Err(Spanned::new(error, span)),
        }
    }

    /// Passes over white space and reads the token that follows: the
    /// lexeme at the position that the lexer was at, with a span of the
    /// lexer's source. The lexer is then at the lexeme's end. At the end
    /// of the text the answer is `Eof`, each time it is asked for.
    pub fn next(&mut self) -> (scanned: Scanned)
        ensures
            lexeme_of(scanned) == lexeme_at(old(self)@.source, old(self)@.offset),
            source_of(scanned) == old(self)@.source,
            final(self)@ == (LexerView { offset: lexeme_of(scanned).end, ..old(self)@ }),
            scanned matches Ok(token) ==> is_char_boundary(token.span@.source, token.span@.start)
                && is_char_boundary(token.span@.source, token.span@.end),
    {
        proof {
            use_type_invariant(&*self);
            run_end_bounds(self@.source, self@.offset, Class::Whitespace);
            self.source.is_text();
            tokens_lie_between_characters(self@.source, self@.offset);
        }
        self.scan(Class::Whitespace);
        let start = self.end;
        let len = self.source.len();
        let first = match self.source.get(start) {
            Some(first) => first,
            None => {
                return self.build(start, Ok(Token::Eof));
            },
        };
        let second = if len - start > 1 {
            self.source.get(start + 1)
        } else {
            None
        };
        proof {
            run_end_bounds(self@.source, start + 1, Class::Unquoted);
            run_end_bounds(self@.source, start + 1, Class::Digit);
            run_end_bounds(self@.source, start + 1, Class::Alphanumeric);
            if start + 2 <= len {
                run_end_bounds(self@.source, start + 2, Class::SameLine);
            }
        }
        self.end = start + 1;
        if first == QUOTE {
            self.scan(Class::Unquoted);
            if self.end < len {
                self.end = self.end + 1;
                self.build(start, Ok(Token::String))
            } else {
                self.build(start, Err(LexError::UnexpectedEof))
            }
        } else if first == SLASH {
            if is_byte(second, SLASH) {
                self.end = start + 2;
                self.scan(Class::SameLine);
                self.build(start, Ok(Token::Comment))
            } else {
                self.build(start, Ok(Token::Slash))
            }
        } else if let Some((alone, followed)) = equals_tokens(first) {
            if is_byte(second, EQUALS) {
                self.end = start + 2;
                self.build(start, Ok(followed))
            } else {
                self.build(start, Ok(alone))
            }
        } else if let Some(token) = doubled_token(first) {
            match second {
                Some(byte) => {
                    if byte == first {
                        self.end = start + 2;
                        self.build(start, Ok(token))
                    } else {
                        self.build(start, Err(LexError::UnexpectedChar(byte)))
                    }
                },
                None => self.build(start, Err(LexError::UnexpectedEof)),
            }
        } else if is_digit(first) {
            self.scan(Class::Digit);
            if is_byte(self.source.get(self.end), PERIOD) {
                proof {
                    run_end_bounds(self@.source, self.end + 1, Class::Digit);
                }
                self.end = self.end + 1;
                self.scan(Class::Digit);
                self.build(start, Ok(Token::Float))
            } else {
                self.build(start, Ok(Token::Int))
            }
        } else if is_alphabetic(first) {
            self.scan(Class::Alphanumeric);
            let token = self.word(start, self.end);
            self.build(start, Ok(token))
        } else {
            match single_token(first) {
                Some(token) => self.build(start, Ok(token)),
                None => self.build(start, Err(LexError::UnexpectedChar(first))),
            }
        }
    }

    /// Reads the text to its end: every lexeme from the lexer's position
    /// on, the errors among them, up to and with the `Eof`.
    pub fn collect(self) -> (tokens: Vec<Scanned>)
        ensures
            tokens@.map_values(|scanned: Scanned| lexeme_of(scanned)) == lexemes(
                self@.source,
                self@.offset,
            ),
            forall|index: int|
                0 <= index < tokens@.len() ==> source_of(#[trigger] tokens@[index])
                    == self@.source,
            forall|index: int|
                0 <= index < tokens@.len() ==> (#[trigger] tokens@[index] matches Ok(token)
                    ==> is_char_boundary(token.span@.source, token.span@.start)
                    && is_char_boundary(token.span@.source, token.span@.end)),
    {
        let ghost source = self@.source;
        let ghost from = self@.offset;
        proof {
            use_type_invariant(&self);
        }
        let mut lexer = self;
        let mut tokens: Vec<Scanned> = Vec::new();
        let len = lexer.source.len();
        assert(tokens@.map_values(|scanned: Scanned| lexeme_of(scanned)) + lexemes(source, from)
            =~= lexemes(source, from));
        loop
            invariant_except_break
                lexemes(source, from) == tokens@.map_values(|scanned: Scanned| lexeme_of(scanned))
                    + lexemes(source, lexer@.offset),
            invariant
                lexer@.source == source,
                len == source.len(),
                0 <= lexer@.offset <= len,
                forall|index: int|
                    0 <= index < tokens@.len() ==> source_of(#[trigger] tokens@[index]) == source,
                forall|index: int|
                    0 <= index < tokens@.len() ==> (#[trigger] tokens@[index] matches Ok(token)
                        ==> is_char_boundary(token.span@.source, token.span@.start)
                        && is_char_boundary(token.span@.source, token.span@.end)),
            ensures
                tokens@.map_values(|scanned: Scanned| lexeme_of(scanned)) == lexemes(source, from),
                forall|index: int|
                    0 <= index < tokens@.len() ==> source_of(#[trigger] tokens@[index]) == source,
                forall|index: int|
                    0 <= index < tokens@.len() ==> (#[trigger] tokens@[index] matches Ok(token)
                        ==> is_char_boundary(token.span@.source, token.span@.start)
                        && is_char_boundary(token.span@.source, token.span@.end)),
            decreases len - lexer@.offset,
        {
            let ghost before = tokens@.map_values(|scanned: Scanned| lexeme_of(scanned));
            let ghost offset = lexer@.offset;
            proof {
                lexeme_bounds(source, offset);
            }
            let scanned = lexer.next();
            let done = match &scanned {
                Ok(token) => token.base == Token::Eof,
                Err(_) => false,
            };
            tokens.push(scanned);
            proof {
                let after = tokens@.map_values(|scanned: Scanned| lexeme_of(scanned));
                assert(after =~= before + seq![lexeme_at(source, offset)]);
                if done {
                    assert(lexemes(source, offset) == seq![lexeme_at(source, offset)]);
                } else {
                    assert(lexemes(source, offset) == seq![lexeme_at(source, offset)] + lexemes(
                        source,
                        lexer@.offset,
                    ));
                    assert(before + (seq![lexeme_at(source, offset)] + lexemes(
                        source,
                        lexer@.offset,
                    )) =~= after + lexemes(source, lexer@.offset));
                }
            }
            if done {
                break ;
            }
        }
        tokens
    }
}

} // verus!
