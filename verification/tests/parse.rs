use oma::ast::{
    AccessExpression, BinaryExpression, BindStatement, Block, CallExpression, Declaration,
    ElseBody, Expression, ExpressionStatement, File, FnDeclaration, IfExpression,
    ModDeclaration, Path, Pattern, Statement, UnaryExpression, UseDeclaration, UseTree,
    UseTreeBranch, WhileExpression,
};
use oma::cursor::ParseError;
use oma::lex::LexError;
use oma::parse::Parser;
use oma::span::{Source, Span, Spanned};
use oma::token::Token;

fn token(source: &Source, token: Token, start: usize, end: usize) -> Spanned<Token> {
    Spanned::new(token, Span::new(source.clone(), start, end))
}

fn literal(source: &Source, kind: Token, start: usize, end: usize) -> Expression {
    Expression::Literal(token(source, kind, start, end))
}

fn binary(left: Expression, operator: Spanned<Token>, right: Expression) -> Expression {
    Expression::Binary(BinaryExpression {
        left_operand: Box::new(left),
        operator,
        right_operand: Box::new(right),
    })
}

fn errors_of(text: &str) -> Vec<(ParseError, usize, usize)> {
    match Parser::new(text).parse() {
        Ok(_) => Vec::new(),
        Err(errors) => errors
            .iter()
            .map(|error| (*error.base(), error.span().start(), error.span().end()))
            .collect(),
    }
}

fn expression_error(text: &str) -> (ParseError, usize, usize) {
    let error = Parser::new(text).expression().unwrap_err();
    (*error.base(), error.span().start(), error.span().end())
}

#[test]
fn precedence_of_the_four_operations() {
    let mut parser = Parser::new("1 + 2 * 3 - 4 / 5");
    let source = parser.source().clone();
    let s = &source;
    let expected = binary(
        binary(
            literal(s, Token::Int, 0, 1),
            token(s, Token::Plus, 2, 3),
            binary(
                literal(s, Token::Int, 4, 5),
                token(s, Token::Star, 6, 7),
                literal(s, Token::Int, 8, 9),
            ),
        ),
        token(s, Token::Dash, 10, 11),
        binary(
            literal(s, Token::Int, 12, 13),
            token(s, Token::Slash, 14, 15),
            literal(s, Token::Int, 16, 17),
        ),
    );
    assert_eq!(parser.expression(), Ok(expected));
}

#[test]
fn equality_does_not_associate() {
    assert_eq!(
        expression_error("1 == 2 == 3"),
        (ParseError::UnexpectedToken(Token::EqualEqual), 7, 9)
    );
    assert_eq!(
        expression_error("1 != 2 == 3"),
        (ParseError::UnexpectedToken(Token::EqualEqual), 7, 9)
    );
}

#[test]
fn comparison_does_not_associate() {
    assert_eq!(
        expression_error("1 < 2 < 3"),
        (ParseError::UnexpectedToken(Token::Less), 6, 7)
    );
    assert_eq!(
        expression_error("1 >= 2 <= 3"),
        (ParseError::UnexpectedToken(Token::LessEqual), 7, 9)
    );
}

#[test]
fn tiers_nest_from_logical_down_to_comparison() {
    let mut parser = Parser::new("a < b == c > d && e");
    let source = parser.source().clone();
    let s = &source;
    let expected = binary(
        binary(
            binary(
                literal(s, Token::Identifier, 0, 1),
                token(s, Token::Less, 2, 3),
                literal(s, Token::Identifier, 4, 5),
            ),
            token(s, Token::EqualEqual, 6, 8),
            binary(
                literal(s, Token::Identifier, 9, 10),
                token(s, Token::Greater, 11, 12),
                literal(s, Token::Identifier, 13, 14),
            ),
        ),
        token(s, Token::AmpAmp, 15, 17),
        literal(s, Token::Identifier, 18, 19),
    );
    assert_eq!(parser.expression(), Ok(expected));
}

#[test]
fn logical_operators_share_a_tier_and_lean_left() {
    let mut parser = Parser::new("a || b && c");
    let source = parser.source().clone();
    let s = &source;
    let expected = binary(
        binary(
            literal(s, Token::Identifier, 0, 1),
            token(s, Token::PipePipe, 2, 4),
            literal(s, Token::Identifier, 5, 6),
        ),
        token(s, Token::AmpAmp, 7, 9),
        literal(s, Token::Identifier, 10, 11),
    );
    assert_eq!(parser.expression(), Ok(expected));
}

#[test]
fn unary_operators_and_parentheses() {
    let mut parser = Parser::new("-!(1 + 2) * 3");
    let source = parser.source().clone();
    let s = &source;
    let inner = binary(
        literal(s, Token::Int, 3, 4),
        token(s, Token::Plus, 5, 6),
        literal(s, Token::Int, 7, 8),
    );
    let negated = Expression::Unary(UnaryExpression {
        operator: token(s, Token::Dash, 0, 1),
        operand: Box::new(Expression::Unary(UnaryExpression {
            operator: token(s, Token::Bang, 1, 2),
            operand: Box::new(inner),
        })),
    });
    let expected = binary(negated, token(s, Token::Star, 10, 11), literal(s, Token::Int, 12, 13));
    assert_eq!(parser.expression(), Ok(expected));
}

#[test]
fn calls_accesses_and_paths() {
    let mut parser = Parser::new("a::b.c.0(1, x)()");
    let source = parser.source().clone();
    let s = &source;
    let path = Expression::Path(Path {
        components: vec![token(s, Token::Identifier, 0, 1), token(s, Token::Identifier, 3, 4)],
    });
    let access = Expression::Access(AccessExpression {
        receiver: Box::new(Expression::Access(AccessExpression {
            receiver: Box::new(path),
            field: token(s, Token::Identifier, 5, 6),
        })),
        field: token(s, Token::Int, 7, 8),
    });
    let first = Expression::Call(CallExpression {
        receiver: Box::new(access),
        arguments: vec![literal(s, Token::Int, 9, 10), literal(s, Token::Identifier, 12, 13)],
    });
    let expected = Expression::Call(CallExpression { receiver: Box::new(first), arguments: vec![] });
    assert_eq!(parser.expression(), Ok(expected));
}

#[test]
fn a_path_needs_a_name_after_each_separator() {
    assert_eq!(
        expression_error("a::1"),
        (ParseError::UnexpectedToken(Token::Int), 3, 4)
    );
    assert_eq!(
        expression_error("a.+"),
        (ParseError::UnexpectedToken(Token::Plus), 2, 3)
    );
}

#[test]
fn block_keeps_whether_a_semicolon_follows() {
    let mut parser = Parser::new("{ 1; 2 }");
    let source = parser.source().clone();
    let s = &source;
    let expected = Block {
        statements: vec![
            Statement::Expression(ExpressionStatement {
                expression: literal(s, Token::Int, 2, 3),
                has_semicolon: true,
            }),
            Statement::Expression(ExpressionStatement {
                expression: literal(s, Token::Int, 5, 6),
                has_semicolon: false,
            }),
        ],
    };
    assert_eq!(parser.block(), Ok(expected));
}

#[test]
fn let_with_and_without_mut() {
    let mut parser = Parser::new("{ let a = 1; let mut b = a; }");
    let source = parser.source().clone();
    let s = &source;
    let expected = Block {
        statements: vec![
            Statement::Bind(BindStatement {
                is_mut: false,
                pattern: Pattern::Literal(token(s, Token::Identifier, 6, 7)),
                expression: literal(s, Token::Int, 10, 11),
            }),
            Statement::Bind(BindStatement {
                is_mut: true,
                pattern: Pattern::Literal(token(s, Token::Identifier, 21, 22)),
                expression: literal(s, Token::Identifier, 25, 26),
            }),
        ],
    };
    assert_eq!(parser.block(), Ok(expected));
}

#[test]
fn let_needs_its_semicolon() {
    let error = Parser::new("{ let a = 1 }").block().unwrap_err();
    assert_eq!(*error.base(), ParseError::UnexpectedToken(Token::CloseBrace));
    assert_eq!((error.span().start(), error.span().end()), (12, 13));
}

#[test]
fn if_else_if_else() {
    let mut parser = Parser::new("if a { 1 } else if b { 2 } else { 3 }");
    let source = parser.source().clone();
    let s = &source;
    let value = |start: usize| Block {
        statements: vec![Statement::Expression(ExpressionStatement {
            expression: literal(s, Token::Int, start, start + 1),
            has_semicolon: false,
        })],
    };
    let expected = Expression::If(IfExpression {
        condition: Box::new(literal(s, Token::Identifier, 3, 4)),
        body: value(7),
        else_body: Some(ElseBody::If(Box::new(IfExpression {
            condition: Box::new(literal(s, Token::Identifier, 19, 20)),
            body: value(23),
            else_body: Some(ElseBody::Else(value(34))),
        }))),
    });
    assert_eq!(parser.expression(), Ok(expected));
}

#[test]
fn while_with_a_body() {
    let mut parser = Parser::new("while a < 3 { a; }");
    let source = parser.source().clone();
    let s = &source;
    let expected = Expression::While(WhileExpression {
        condition: Box::new(binary(
            literal(s, Token::Identifier, 6, 7),
            token(s, Token::Less, 8, 9),
            literal(s, Token::Int, 10, 11),
        )),
        body: Block {
            statements: vec![Statement::Expression(ExpressionStatement {
                expression: literal(s, Token::Identifier, 14, 15),
                has_semicolon: true,
            })],
        },
    });
    assert_eq!(parser.expression(), Ok(expected));
}

#[test]
fn file_of_use_mod_and_fn() {
    let parser = Parser::new("use a::{b, c::d};\nmod m { fn f(x, y) { x } }\nmod n;");
    let source = parser.source().clone();
    let s = &source;
    let expected = File {
        declarations: vec![
            Declaration::Use(UseDeclaration {
                trees: vec![UseTree::Branch(UseTreeBranch {
                    component: token(s, Token::Identifier, 4, 5),
                    subtrees: vec![
                        UseTree::Leaf(token(s, Token::Identifier, 8, 9)),
                        UseTree::Branch(UseTreeBranch {
                            component: token(s, Token::Identifier, 11, 12),
                            subtrees: vec![UseTree::Leaf(token(s, Token::Identifier, 14, 15))],
                        }),
                    ],
                })],
            }),
            Declaration::Mod(ModDeclaration {
                name: token(s, Token::Identifier, 22, 23),
                body: Some(File {
                    declarations: vec![Declaration::Fn(FnDeclaration {
                        name: token(s, Token::Identifier, 29, 30),
                        parameters: vec![
                            token(s, Token::Identifier, 31, 32),
                            token(s, Token::Identifier, 34, 35),
                        ],
                        body: Block {
                            statements: vec![Statement::Expression(ExpressionStatement {
                                expression: literal(s, Token::Identifier, 39, 40),
                                has_semicolon: false,
                            })],
                        },
                    })],
                }),
            }),
            Declaration::Mod(ModDeclaration {
                name: token(s, Token::Identifier, 49, 50),
                body: None,
            }),
        ],
    };
    assert_eq!(parser.parse(), Ok(expected));
}

#[test]
fn empty_text_is_an_empty_file() {
    assert_eq!(Parser::new("").parse(), Ok(File { declarations: vec![] }));
    assert_eq!(Parser::new(" \n ").parse(), Ok(File { declarations: vec![] }));
}

#[test]
fn two_malformed_declarations_give_two_diagnostics() {
    assert_eq!(
        errors_of("fn 1() { }\nfn 2() { }"),
        vec![
            (ParseError::UnexpectedToken(Token::Int), 3, 4),
            (ParseError::UnexpectedToken(Token::Int), 14, 15),
        ]
    );
}

#[test]
fn a_good_declaration_between_two_bad_ones_does_not_hide_them() {
    assert_eq!(
        errors_of("fn f( { }\nfn g() { 1 }\nmod 3;"),
        vec![
            (ParseError::UnexpectedToken(Token::OpenBrace), 6, 7),
            (ParseError::UnexpectedToken(Token::Int), 27, 28),
        ]
    );
}

#[test]
fn a_token_that_begins_no_declaration_is_consumed_and_reported() {
    assert_eq!(
        errors_of("1 fn f() { }"),
        vec![(ParseError::UnexpectedToken(Token::Int), 0, 1)]
    );
    assert_eq!(
        errors_of("}"),
        vec![(ParseError::UnexpectedToken(Token::CloseBrace), 0, 1)]
    );
}

#[test]
fn a_lex_error_is_a_diagnostic_and_lexing_goes_on() {
    assert_eq!(
        errors_of("fn f() { # }"),
        vec![(ParseError::Lex(LexError::UnexpectedChar(b'#')), 9, 10)]
    );
    assert_eq!(
        errors_of("# fn f() { 1 }"),
        vec![(ParseError::Lex(LexError::UnexpectedChar(b'#')), 0, 1)]
    );
}

#[test]
fn a_module_left_open_is_reported_at_the_end() {
    assert_eq!(
        errors_of("mod m { fn f() { } "),
        vec![(ParseError::UnexpectedToken(Token::Eof), 19, 19)]
    );
}

#[test]
fn errors_within_a_module_are_the_module_s_errors() {
    assert_eq!(
        errors_of("mod m { fn 1() { } fn g() { } }"),
        vec![(ParseError::UnexpectedToken(Token::Int), 11, 12)]
    );
}

#[test]
fn use_needs_a_tree() {
    assert_eq!(
        errors_of("use ;"),
        vec![(ParseError::UnexpectedToken(Token::Semicolon), 4, 5)]
    );
    assert_eq!(
        errors_of("use a::{};"),
        vec![(ParseError::UnexpectedToken(Token::CloseBrace), 8, 9)]
    );
}

#[test]
fn a_comment_is_a_token_that_the_grammar_has_no_place_for() {
    assert_eq!(
        errors_of("// note\nfn f() { }"),
        vec![(ParseError::UnexpectedToken(Token::Comment), 0, 7)]
    );
}

#[test]
fn an_expression_cannot_begin_at_the_end() {
    assert_eq!(
        expression_error("1 +"),
        (ParseError::UnexpectedToken(Token::Eof), 3, 3)
    );
    assert_eq!(
        expression_error("(1"),
        (ParseError::UnexpectedToken(Token::Eof), 2, 2)
    );
}
