use oma::compile::{
    function, parse_int, CompileError, Compiler, Environment, FloatLiteral, Module,
};
use oma::gen::{assemble, GenerateError};
use oma::cursor::ParseError;
use oma::ir::{
    BinaryExpression, BinaryOperator, BindStatement, Block, Chunk, Expression,
    ExpressionStatement, LiteralExpression, Path, Statement, UnaryExpression, UnaryOperator,
};
use oma::parse::Parser;
use oma::token::Token;

fn compile(text: &str, environment: &Environment) -> Result<oma::ir::Executable, CompileError> {
    Compiler::new().compile(text, environment)
}

fn with_modules(modules: &[(&str, &str)]) -> Environment {
    let mut environment = Environment::new();
    for (name, source) in modules {
        environment.modules.push(Module {
            name: name.as_bytes().to_vec(),
            source: source.to_string(),
        });
    }
    environment
}

fn names(executable: &oma::ir::Executable) -> Vec<String> {
    executable
        .identifiers
        .iter()
        .map(|name| String::from_utf8(name.clone()).unwrap())
        .collect()
}

fn value(expression: Expression) -> Statement {
    Statement::Expression(ExpressionStatement { expression, has_semicolon: false })
}

#[test]
fn names_are_interned_in_the_order_of_the_walk() {
    let executable = compile(
        "fn f(x, y) { let z = y; x.w } fn g(x) { f }",
        &Environment::new(),
    )
    .unwrap();
    assert_eq!(names(&executable), ["f", "x", "y", "z", "w", "g"]);
    assert_eq!(executable.package_header.fn_headers.get(&0), Some(&0));
    assert_eq!(executable.package_header.fn_headers.get(&5), Some(&1));
    assert_eq!(executable.package_header.fn_headers.len(), 2);
    assert_eq!(
        executable.chunks,
        vec![
            Chunk {
                parameters: vec![1, 2],
                body: Block {
                    statements: vec![
                        Statement::Bind(BindStatement {
                            is_mut: false,
                            name: 3,
                            expression: Expression::Literal(LiteralExpression::Identifier(2)),
                        }),
                        value(Expression::Access(oma::ir::AccessExpression {
                            receiver: Box::new(Expression::Literal(
                                LiteralExpression::Identifier(1)
                            )),
                            field: 4,
                        })),
                    ],
                },
            },
            Chunk {
                parameters: vec![1],
                body: Block {
                    statements: vec![value(Expression::Literal(LiteralExpression::Identifier(
                        0
                    )))],
                },
            },
        ]
    );
}

#[test]
fn the_same_spelling_has_the_same_index() {
    let mut compiler = Compiler::new();
    assert_eq!(compiler.add_identifier(b"a".to_vec()), 0);
    assert_eq!(compiler.add_identifier(b"b".to_vec()), 1);
    assert_eq!(compiler.add_identifier(b"a".to_vec()), 0);
    assert_eq!(compiler.add_identifier(b"ab".to_vec()), 2);
    assert_eq!(compiler.add_identifier(b"b".to_vec()), 1);
    assert_eq!(compiler.add_identifier(Vec::new()), 3);
}

#[test]
fn literals_and_operators_are_resolved() {
    let block = Parser::new("{ -1 + 2 * 3 != 7 && !true }").block().unwrap();
    let block = Compiler::new().block(&Environment::new(), &block).unwrap();
    let int = |value: i64| Box::new(Expression::Literal(LiteralExpression::Int(value)));
    let binary = |left, operator, right| {
        Box::new(Expression::Binary(BinaryExpression {
            left_operand: left,
            operator,
            right_operand: right,
        }))
    };
    let negated = Box::new(Expression::Unary(UnaryExpression {
        operator: UnaryOperator::Negate,
        operand: int(1),
    }));
    let product = binary(int(2), BinaryOperator::Multiply, int(3));
    let sum = binary(negated, BinaryOperator::Add, product);
    let unequal = binary(sum, BinaryOperator::NotEqual, int(7));
    let not = Box::new(Expression::Unary(UnaryExpression {
        operator: UnaryOperator::Not,
        operand: Box::new(Expression::Literal(LiteralExpression::Bool(true))),
    }));
    assert_eq!(
        block,
        Block { statements: vec![value(*binary(unequal, BinaryOperator::And, not))] }
    );
}

#[test]
fn whole_numbers_are_read_in_base_ten() {
    assert_eq!(parse_int(&b"0".to_vec()), Some(0));
    assert_eq!(parse_int(&b"007".to_vec()), Some(7));
    assert_eq!(parse_int(&b"1234567890".to_vec()), Some(1234567890));
    assert_eq!(parse_int(&b"9223372036854775807".to_vec()), Some(i64::MAX));
    assert_eq!(parse_int(&b"9223372036854775808".to_vec()), None);
    assert_eq!(parse_int(&b"99999999999999999999999".to_vec()), None);
    assert_eq!(parse_int(&b"".to_vec()), None);
    assert_eq!(parse_int(&b"12a".to_vec()), None);
    assert_eq!(parse_int(&b"-1".to_vec()), None);
}

#[test]
fn a_whole_number_that_is_too_large_is_an_error() {
    let error = compile("fn f() { 9223372036854775808 }", &Environment::new()).unwrap_err();
    match error {
        CompileError::InvalidLiteral(token) => {
            assert_eq!(*token.base(), Token::Int);
            assert_eq!((token.span().start(), token.span().end()), (9, 28));
        }
        other => panic!("{:?}", other),
    }
}

#[test]
fn a_number_with_a_fraction_takes_its_value_from_the_environment() {
    let mut environment = Environment::new();
    assert_eq!(
        compile("fn f() { 2.5 }", &environment),
        Err(CompileError::UnknownFloat(b"2.5".to_vec()))
    );
    environment.floats.push(FloatLiteral { text: b"2.5".to_vec(), bits: 2.5f64.to_bits() });
    let executable = compile("fn f() { 2.5 }", &environment).unwrap();
    assert_eq!(
        executable.chunks[0].body.statements,
        vec![value(Expression::Literal(LiteralExpression::Float(2.5f64.to_bits())))]
    );
}

#[test]
fn a_let_binds_a_name_only() {
    let error = compile("fn f() { let 1 = 2; }", &Environment::new()).unwrap_err();
    match error {
        CompileError::InvalidPattern(token) => {
            assert_eq!(*token.base(), Token::Int);
            assert_eq!((token.span().start(), token.span().end()), (13, 14));
        }
        other => panic!("{:?}", other),
    }
}

#[test]
fn the_name_of_a_let_is_interned_before_its_expression() {
    let executable = compile("fn f() { let a = b; }", &Environment::new()).unwrap();
    assert_eq!(names(&executable), ["f", "a", "b"]);
}

#[test]
fn two_malformed_declarations_give_one_error_of_two_diagnostics() {
    match compile("fn 1() { }\nfn 2() { }", &Environment::new()) {
        Err(CompileError::Parse(errors)) => {
            assert_eq!(errors.len(), 2);
            assert_eq!(*errors[0].base(), ParseError::UnexpectedToken(Token::Int));
            assert_eq!(errors[0].span().start(), 3);
            assert_eq!(*errors[1].base(), ParseError::UnexpectedToken(Token::Int));
            assert_eq!(errors[1].span().start(), 14);
        }
        other => panic!("{:?}", other),
    }
}

#[test]
fn use_paths_run_from_the_innermost_name_outwards() {
    let executable = compile("use a::{b, c::d}; use e;", &Environment::new()).unwrap();
    assert_eq!(names(&executable), ["a", "b", "c", "d", "e"]);
    assert_eq!(
        executable.package_header.use_declarations,
        vec![
            Path { components: vec![1, 0] },
            Path { components: vec![3, 2, 0] },
            Path { components: vec![4] },
        ]
    );
}

#[test]
fn modules_nest_in_headers_and_functions_share_one_list() {
    let executable = compile(
        "fn a() { 1 } mod m { fn b() { 2 } mod n { fn a() { 3 } } } fn c() { 4 }",
        &Environment::new(),
    )
    .unwrap();
    assert_eq!(names(&executable), ["a", "m", "b", "n", "c"]);
    let package = &executable.package_header;
    assert!(package.package_headers.is_empty());
    assert_eq!(package.fn_headers.get(&0), Some(&0));
    assert_eq!(package.fn_headers.get(&4), Some(&3));
    let m = &package.mod_headers[&1];
    assert_eq!(m.fn_headers.get(&2), Some(&1));
    let n = &m.mod_headers[&3];
    assert_eq!(n.fn_headers.get(&0), Some(&2));
    assert_eq!(executable.chunks.len(), 4);
    for (index, chunk) in executable.chunks.iter().enumerate() {
        assert_eq!(
            chunk.body.statements,
            vec![value(Expression::Literal(LiteralExpression::Int(index as i64 + 1)))]
        );
    }
}

#[test]
fn a_function_declared_again_takes_the_place_of_the_earlier() {
    let executable = compile("fn f() { 1 } fn f() { 2 }", &Environment::new()).unwrap();
    assert_eq!(executable.chunks.len(), 2);
    assert_eq!(executable.package_header.fn_headers.len(), 1);
    assert_eq!(executable.package_header.fn_headers.get(&0), Some(&1));
}

#[test]
fn a_module_without_a_body_is_read_from_the_environment() {
    let environment = with_modules(&[("m", "fn g() { x } mod n;"), ("n", "fn h() { }")]);
    let executable = compile("fn f() { } mod m;", &environment).unwrap();
    assert_eq!(names(&executable), ["f", "m", "g", "x", "n", "h"]);
    let m = &executable.package_header.mod_headers[&1];
    assert_eq!(m.fn_headers.get(&2), Some(&1));
    assert_eq!(m.mod_headers[&4].fn_headers.get(&5), Some(&2));
    assert_eq!(executable.chunks.len(), 3);
}

#[test]
fn a_module_that_the_environment_lacks_is_not_found() {
    assert_eq!(
        compile("mod m;", &Environment::new()),
        Err(CompileError::FileNotFound(b"m".to_vec()))
    );
    let environment = with_modules(&[("m", "mod other;")]);
    assert_eq!(
        compile("mod m;", &environment),
        Err(CompileError::FileNotFound(b"other".to_vec()))
    );
}

#[test]
fn a_module_within_itself_is_an_error() {
    let environment = with_modules(&[("m", "mod m;")]);
    assert_eq!(
        compile("mod m;", &environment),
        Err(CompileError::ModuleCycle(b"m".to_vec()))
    );
    let environment = with_modules(&[("a", "mod b;"), ("b", "mod a;")]);
    assert_eq!(
        compile("mod a;", &environment),
        Err(CompileError::ModuleCycle(b"a".to_vec()))
    );
}

#[test]
fn one_module_may_be_declared_in_two_places() {
    let environment = with_modules(&[("m", "fn f() { }")]);
    let executable = compile("mod m; mod k { mod m; }", &environment).unwrap();
    assert_eq!(executable.chunks.len(), 2);
}

#[test]
fn a_module_that_does_not_parse_ends_the_compilation() {
    let environment = with_modules(&[("m", "fn {")]);
    match compile("fn f() { } mod m;", &environment) {
        Err(CompileError::Parse(errors)) => {
            assert_eq!(errors.len(), 1);
            assert_eq!(*errors[0].base(), ParseError::UnexpectedToken(Token::OpenBrace));
        }
        other => panic!("{:?}", other),
    }
}

#[test]
fn the_first_module_of_a_name_is_the_one() {
    let environment = with_modules(&[("m", "fn first() { }"), ("m", "fn second() { }")]);
    let executable = compile("mod m;", &environment).unwrap();
    assert_eq!(names(&executable), ["m", "first"]);
    assert_eq!(environment.module(&b"m".to_vec()).map(|text| text.as_str()), Some("fn first() { }"));
    assert_eq!(environment.module(&b"k".to_vec()), None);
}

#[test]
fn a_function_of_the_package_is_found_by_its_name() {
    let executable = compile(
        "fn a() { 1 } mod m { fn inner() { 2 } } fn main() { 3 }",
        &Environment::new(),
    )
    .unwrap();
    assert_eq!(function(&executable, &b"a".to_vec()), Some(0));
    assert_eq!(function(&executable, &b"main".to_vec()), Some(2));
    assert_eq!(function(&executable, &b"inner".to_vec()), None);
    assert_eq!(function(&executable, &b"m".to_vec()), None);
    assert_eq!(function(&executable, &b"absent".to_vec()), None);
}

#[test]
fn a_program_is_assembled_function_by_function() {
    let executable = compile("fn a() { 1 } fn b() { let x = 2; x }", &Environment::new()).unwrap();
    let chunks = assemble(&executable.chunks).unwrap();
    assert_eq!(chunks.len(), 2);
    assert_eq!(chunks[0].code(), &[0, 0, 0, 0, 0, 0, 0, 0, 0, 20][..]);
    assert_eq!(
        chunks[1].code(),
        &[0, 0, 0, 0, 0, 0, 0, 0, 0, 1, 0, 0, 0, 0, 0, 0, 0, 0, 20][..]
    );
    let executable = compile("fn a() { 1 } fn b() { y } fn c() { z }", &Environment::new()).unwrap();
    assert_eq!(assemble(&executable.chunks), Err(GenerateError::UndefinedLocal(2)));
}

#[test]
fn scrambled_texts_compile_or_fail_with_an_error() {
    let pieces = [
        "fn", "mod", "use", "let", "mut", "if", "else", "while", "true", "false", "a", "b", "f",
        "1", "2.5", "(", ")", "{", "}", ";", ",", ".", "::", "+", "-", "*", "/", "==", "!=", "<",
        ">=", "&&", "||", "!", "=", "&", "#", "\"s\"", "// c\n", " ",
    ];
    let mut seed: u64 = 0x2545_f491_4f6c_dd1d;
    let mut compiled = 0;
    for round in 0..3000 {
        let mut text = String::new();
        for _ in 0..(round % 12 + 1) {
            seed ^= seed << 13;
            seed ^= seed >> 7;
            seed ^= seed << 17;
            text.push_str(pieces[(seed % pieces.len() as u64) as usize]);
            text.push(' ');
        }
        let framed = format!("fn f() {{ {} }}", text);
        for source in [text.as_str(), framed.as_str()] {
            let parsed = Parser::new(source).parse();
            let outcome = compile(source, &Environment::new());
            match (&parsed, &outcome) {
                (Err(diagnostics), Err(CompileError::Parse(errors))) => {
                    let places = |list: &Vec<oma::span::Spanned<ParseError>>| {
                        list.iter()
                            .map(|error| (*error.base(), error.span().start(), error.span().end()))
                            .collect::<Vec<_>>()
                    };
                    assert_eq!(places(diagnostics), places(errors));
                    assert!(!errors.is_empty());
                }
                (Err(_), _) => panic!("{:?}", source),
                (Ok(_), Err(CompileError::Parse(_))) => panic!("{:?}", source),
                (Ok(_), Ok(executable)) => {
                    compiled += 1;
                    let _ = assemble(&executable.chunks);
                }
                (Ok(_), Err(_)) => {}
            }
        }
    }
    assert!(compiled > 0);
}
