use oma::lex::{LexError, Lexer};
use oma::span::{Span, Spanned};
use oma::token::Token;

#[test]
fn lex_int() {
    let lexer = Lexer::new("42");
    let source = lexer.source().clone();
    let tokens = lexer.collect();

    assert_eq!(
        tokens,
        vec![
            Ok(Spanned::new(Token::Int, Span::new(source.clone(), 0, 2))),
            Ok(Spanned::new(Token::Eof, Span::new(source.clone(), 2, 2))),
        ]
    );
}

#[test]
fn lex_float() {
    let lexer = Lexer::new("3.14");
    let source = lexer.source().clone();
    let tokens = lexer.collect();

    assert_eq!(
        tokens,
        vec![
            Ok(Spanned::new(Token::Float, Span::new(source.clone(), 0, 4))),
            Ok(Spanned::new(Token::Eof, Span::new(source.clone(), 4, 4))),
        ]
    );
}

#[test]
fn lex_comment() {
    let lexer = Lexer::new("// This is a comment");
    let source = lexer.source().clone();
    let tokens = lexer.collect();

    assert_eq!(
        tokens,
        vec![
            Ok(Spanned::new(Token::Comment, Span::new(source.clone(), 0, 20))),
            Ok(Spanned::new(Token::Eof, Span::new(source.clone(), 20, 20))),
        ]
    );
}

#[test]
fn punctuation() {
    let lexer = Lexer::new("+ - * / > >= < <= = == ! != && ||");
    let source = lexer.source().clone();
    let tokens = lexer.collect();

    assert_eq!(
        tokens,
        vec![
            Ok(Spanned::new(Token::Plus, Span::new(source.clone(), 0, 1))),
            Ok(Spanned::new(Token::Dash, Span::new(source.clone(), 2, 3))),
            Ok(Spanned::new(Token::Star, Span::new(source.clone(), 4, 5))),
            Ok(Spanned::new(Token::Slash, Span::new(source.clone(), 6, 7))),
            Ok(Spanned::new(Token::Greater, Span::new(source.clone(), 8, 9))),
            Ok(Spanned::new(Token::GreaterEqual, Span::new(source.clone(), 10, 12))),
            Ok(Spanned::new(Token::Less, Span::new(source.clone(), 13, 14))),
            Ok(Spanned::new(Token::LessEqual, Span::new(source.clone(), 15, 17))),
            Ok(Spanned::new(Token::Equal, Span::new(source.clone(), 18, 19))),
            Ok(Spanned::new(Token::EqualEqual, Span::new(source.clone(), 20, 22))),
            Ok(Spanned::new(Token::Bang, Span::new(source.clone(), 23, 24))),
            Ok(Spanned::new(Token::BangEqual, Span::new(source.clone(), 25, 27))),
            Ok(Spanned::new(Token::AmpAmp, Span::new(source.clone(), 28, 30))),
            Ok(Spanned::new(Token::PipePipe, Span::new(source.clone(), 31, 33))),
            Ok(Spanned::new(Token::Eof, Span::new(source.clone(), 33, 33))),
        ]
    );
}

#[test]
fn string() {
    let lexer = Lexer::new("\"foo\"");
    let source = lexer.source().clone();
    let tokens = lexer.collect();

    assert_eq!(
        tokens,
        vec![
            Ok(Spanned::new(Token::String, Span::new(source.clone(), 0, 5))),
            Ok(Spanned::new(Token::Eof, Span::new(source.clone(), 5, 5))),
        ]
    );
}

#[test]
fn keywords() {
    let lexer = Lexer::new("true false fn mod impl let mut if else while");
    let source = lexer.source().clone();
    let tokens = lexer.collect();

    assert_eq!(
        tokens,
        vec![
            Ok(Spanned::new(Token::True, Span::new(source.clone(), 0, 4))),
            Ok(Spanned::new(Token::False, Span::new(source.clone(), 5, 10))),
            Ok(Spanned::new(Token::Fn, Span::new(source.clone(), 11, 13))),
            Ok(Spanned::new(Token::Mod, Span::new(source.clone(), 14, 17))),
            Ok(Spanned::new(Token::Impl, Span::new(source.clone(), 18, 22))),
            Ok(Spanned::new(Token::Let, Span::new(source.clone(), 23, 26))),
            Ok(Spanned::new(Token::Mut, Span::new(source.clone(), 27, 30))),
            Ok(Spanned::new(Token::If, Span::new(source.clone(), 31, 33))),
            Ok(Spanned::new(Token::Else, Span::new(source.clone(), 34, 38))),
            Ok(Spanned::new(Token::While, Span::new(source.clone(), 39, 44))),
            Ok(Spanned::new(Token::Eof, Span::new(source.clone(), 44, 44))),
        ]
    );
}

#[test]
fn identifier() {
    let lexer = Lexer::new("foo");
    let source = lexer.source().clone();
    let tokens = lexer.collect();

    assert_eq!(
        tokens,
        vec![
            Ok(Spanned::new(Token::Identifier, Span::new(source.clone(), 0, 3))),
            Ok(Spanned::new(Token::Eof, Span::new(source.clone(), 3, 3))),
        ]
    );
}

fn kinds(text: &str) -> Vec<(Result<Token, LexError>, usize, usize)> {
    let mut kinds = Vec::new();
    for scanned in Lexer::new(text).collect() {
        kinds.push(match scanned {
            Ok(token) => (Ok(*token.base()), token.span().start(), token.span().end()),
            Err(error) => (Err(*error.base()), error.span().start(), error.span().end()),
        });
    }
    kinds
}

#[test]
fn use_and_path_separator() {
    assert_eq!(
        kinds("use a::b;"),
        vec![
            (Ok(Token::Use), 0, 3),
            (Ok(Token::Identifier), 4, 5),
            (Ok(Token::ColonColon), 5, 7),
            (Ok(Token::Identifier), 7, 8),
            (Ok(Token::Semicolon), 8, 9),
            (Ok(Token::Eof), 9, 9),
        ]
    );
}

#[test]
fn brackets_and_separators() {
    assert_eq!(
        kinds("(){}[],."),
        vec![
            (Ok(Token::OpenParen), 0, 1),
            (Ok(Token::CloseParen), 1, 2),
            (Ok(Token::OpenBrace), 2, 3),
            (Ok(Token::CloseBrace), 3, 4),
            (Ok(Token::OpenBracket), 4, 5),
            (Ok(Token::CloseBracket), 5, 6),
            (Ok(Token::Comma), 6, 7),
            (Ok(Token::Period), 7, 8),
            (Ok(Token::Eof), 8, 8),
        ]
    );
}

#[test]
fn half_operators_are_errors() {
    assert_eq!(
        kinds("&x"),
        vec![
            (Err(LexError::UnexpectedChar(b'x')), 0, 1),
            (Ok(Token::Identifier), 1, 2),
            (Ok(Token::Eof), 2, 2),
        ]
    );
    assert_eq!(
        kinds("|"),
        vec![(Err(LexError::UnexpectedEof), 0, 1), (Ok(Token::Eof), 1, 1)]
    );
    assert_eq!(
        kinds(": :"),
        vec![
            (Err(LexError::UnexpectedChar(b' ')), 0, 1),
            (Err(LexError::UnexpectedEof), 2, 3),
            (Ok(Token::Eof), 3, 3),
        ]
    );
}

#[test]
fn unknown_byte_is_an_error_of_one_byte() {
    assert_eq!(
        kinds("1 # 2"),
        vec![
            (Ok(Token::Int), 0, 1),
            (Err(LexError::UnexpectedChar(b'#')), 2, 3),
            (Ok(Token::Int), 4, 5),
            (Ok(Token::Eof), 5, 5),
        ]
    );
}

#[test]
fn unterminated_string_is_an_error_to_the_end() {
    assert_eq!(
        kinds("\"abc"),
        vec![(Err(LexError::UnexpectedEof), 0, 4), (Ok(Token::Eof), 4, 4)]
    );
}

#[test]
fn a_second_period_ends_a_number() {
    assert_eq!(
        kinds("1.2.3"),
        vec![
            (Ok(Token::Float), 0, 3),
            (Ok(Token::Period), 3, 4),
            (Ok(Token::Int), 4, 5),
            (Ok(Token::Eof), 5, 5),
        ]
    );
    assert_eq!(kinds("7."), vec![(Ok(Token::Float), 0, 2), (Ok(Token::Eof), 2, 2)]);
}

#[test]
fn comment_ends_before_the_line_feed() {
    assert_eq!(
        kinds("1 // one\n/ 2"),
        vec![
            (Ok(Token::Int), 0, 1),
            (Ok(Token::Comment), 2, 8),
            (Ok(Token::Slash), 9, 10),
            (Ok(Token::Int), 11, 12),
            (Ok(Token::Eof), 12, 12),
        ]
    );
}

#[test]
fn names_hold_letters_and_digits() {
    assert_eq!(
        kinds("a1b2 iff fnx elsewhere _"),
        vec![
            (Ok(Token::Identifier), 0, 4),
            (Ok(Token::Identifier), 5, 8),
            (Ok(Token::Identifier), 9, 12),
            (Ok(Token::Identifier), 13, 22),
            (Err(LexError::UnexpectedChar(b'_')), 23, 24),
            (Ok(Token::Eof), 24, 24),
        ]
    );
}

#[test]
fn lexing_ends_in_exactly_one_eof() {
    for text in ["", "   ", "a + b", "\"open", "& | : #", "fn f() { 1 }", "é"] {
        let tokens = kinds(text);
        let eofs = tokens.iter().filter(|token| token.0 == Ok(Token::Eof)).count();
        assert_eq!(eofs, 1);
        assert_eq!(tokens.last().unwrap().0, Ok(Token::Eof));
        assert_eq!(tokens.last().unwrap().1, text.len());
    }
}

#[test]
fn next_keeps_answering_eof_at_the_end() {
    let mut lexer = Lexer::new("x ");
    assert_eq!(*lexer.next().unwrap().base(), Token::Identifier);
    for _ in 0..3 {
        let token = lexer.next().unwrap();
        assert_eq!(*token.base(), Token::Eof);
        assert_eq!((token.span().start(), token.span().end()), (2, 2));
    }
}

#[test]
fn whitespace_is_space_tab_and_line_ends() {
    assert_eq!(
        kinds(" \t\r\n1"),
        vec![(Ok(Token::Int), 4, 5), (Ok(Token::Eof), 5, 5)]
    );
}

#[test]
fn the_span_of_a_token_reads_as_text() {
    let text = "let s\u{e9} = \"h\u{e9}llo \u{20ac}\"; // caf\u{e9}\nx1";
    let mut texts = Vec::new();
    for scanned in Lexer::new(text).collect() {
        if let Ok(token) = scanned {
            texts.push((*token.base(), token.span().as_str().to_string()));
        }
    }
    assert_eq!(
        texts,
        vec![
            (Token::Let, "let".to_string()),
            (Token::Identifier, "s".to_string()),
            (Token::Equal, "=".to_string()),
            (Token::String, "\"h\u{e9}llo \u{20ac}\"".to_string()),
            (Token::Semicolon, ";".to_string()),
            (Token::Comment, "// caf\u{e9}".to_string()),
            (Token::Identifier, "x1".to_string()),
            (Token::Eof, "".to_string()),
        ]
    );
}

#[test]
fn a_character_that_begins_no_token_is_an_error_for_each_of_its_bytes() {
    assert_eq!(
        kinds("\u{e9}"),
        vec![
            (Err(LexError::UnexpectedChar(0xc3)), 0, 1),
            (Err(LexError::UnexpectedChar(0xa9)), 1, 2),
            (Ok(Token::Eof), 2, 2),
        ]
    );
}
