//! Parsing moves on: no step of the grammar leaves more to parse than
//! there was, and a step that succeeds by consuming leaves less.
//!
//! This is what makes the grammar's definitions well-founded, and it is
//! why [`Parsed::after`] gives back every outcome of the grammar as it is.

use crate::ast::{ExpressionView, StatementView, TokenView, UseTreeView};
use crate::cursor::{
    advance_bounds, expect_bounds, peek_bounds, synchronize_bounds, Diagnostic, Parsed,
    ParserView,
};
use crate::grammar::Tier;
use crate::token::Token;
use vstd::prelude::*;

verus! {

/// Whether an outcome left no more to parse than there was before.
pub open spec fn stays<T, E>(before: ParserView, outcome: Parsed<T, E>) -> bool {
    outcome.state.remaining() <= before.remaining()
}

/// Whether an outcome left no more to parse than there was before, and
/// less if it is a success.
pub open spec fn moves<T, E>(before: ParserView, outcome: Parsed<T, E>) -> bool {
    &&& stays(before, outcome)
    &&& outcome.result is Ok ==> outcome.state.remaining() < before.remaining()
}

/// A literal moves on: it leaves no more to parse, and less where it succeeds.
pub proof fn literal_moves(state: ParserView)
    ensures
        moves(state, state.literal()),
{
    peek_bounds(state);
    advance_bounds(state.peek().state);
}

/// The names of a path moves on: it leaves no more to parse, and less where it succeeds.
pub proof fn components_moves(state: ParserView, components: Seq<TokenView>)
    ensures
        moves(state, state.components(components)),
    decreases state.remaining(),
{
    expect_bounds(state, Token::Identifier);
    advance_bounds(state);
    let component = state.expect(Token::Identifier);
    if component.result is Ok {
        peek_bounds(component.state);
        let peeked = component.state.peek();
        if peeked.result is Ok && peeked.result->Ok_0.base == Token::ColonColon {
            components_moves(
                peeked.state.consumed(),
                components.push(component.result->Ok_0),
            );
        }
    }
}

/// A path moves on: it leaves no more to parse, and less where it succeeds.
pub proof fn path_moves(state: ParserView)
    ensures
        moves(state, state.path()),
{
    literal_moves(state);
    let first = state.literal();
    if first.result is Ok {
        peek_bounds(first.state);
        let peeked = first.state.peek();
        if peeked.result is Ok {
            components_moves(peeked.state.consumed(), seq![first.result->Ok_0]);
        }
    }
}

/// The accesses after a receiver stays within what was left to parse.
pub proof fn fields_stays(state: ParserView, receiver: ExpressionView)
    ensures
        stays(state, state.fields(receiver)),
    decreases state.remaining(),
{
    peek_bounds(state);
    let peeked = state.peek();
    if peeked.result is Ok && peeked.result->Ok_0.base == Token::Period {
        peek_bounds(peeked.state.consumed());
        let named = peeked.state.consumed().peek();
        if named.result is Ok {
            let field = named.result->Ok_0;
            advance_bounds(named.state);
            if field.base == Token::Identifier || field.base == Token::Int {
                fields_stays(
                    named.state.consumed(),
                    ExpressionView::Access { receiver: Box::new(receiver), field },
                );
            }
        }
    }
}

/// An access moves on: it leaves no more to parse, and less where it succeeds.
pub proof fn access_moves(state: ParserView)
    ensures
        moves(state, state.access()),
{
    path_moves(state);
    let receiver = state.path();
    if receiver.result is Ok {
        fields_stays(receiver.state, receiver.result->Ok_0);
    }
}

/// A call moves on; the access that it begins with is given back by [`Parsed::after`] as it is.
pub proof fn call_moves(state: ParserView)
    ensures
        moves(state, state.call()),
        state.access().after(state) == state.access(),
    decreases state.remaining(), 1nat,
{
    access_moves(state);
    let receiver = state.access();
    if receiver.result is Ok {
        calls_stays(receiver.state, receiver.result->Ok_0);
    }
}

/// The calls after a receiver stays within what was left to parse.
pub proof fn calls_stays(state: ParserView, receiver: ExpressionView)
    ensures
        stays(state, state.calls(receiver)),
    decreases state.remaining(), 0nat,
{
    peek_bounds(state);
    let peeked = state.peek();
    if peeked.result is Ok && peeked.result->Ok_0.base == Token::OpenParen {
        arguments_moves(peeked.state.consumed(), Seq::empty());
        let arguments = peeked.state.consumed().arguments(Seq::empty());
        if arguments.result is Ok {
            calls_stays(
                arguments.state,
                ExpressionView::Call {
                    receiver: Box::new(receiver),
                    arguments: arguments.result->Ok_0,
                },
            );
        }
    }
}

/// The arguments of a call moves on: it leaves no more to parse, and less where it succeeds.
pub proof fn arguments_moves(state: ParserView, arguments: Seq<ExpressionView>)
    ensures
        moves(state, state.arguments(arguments)),
    decreases state.remaining(), 40nat,
{
    peek_bounds(state);
    let peeked = state.peek();
    if peeked.result is Ok && peeked.result->Ok_0.base != Token::CloseParen {
        expression_moves(peeked.state);
        let argument = peeked.state.expression();
        if argument.result is Ok {
            peek_bounds(argument.state);
            let comma = argument.state.peek();
            if comma.result is Ok {
                let next = if comma.result->Ok_0.base == Token::Comma {
                    comma.state.consumed()
                } else {
                    comma.state
                };
                arguments_moves(next, arguments.push(argument.result->Ok_0));
            }
        }
    }
}

/// A unary expression moves on: it leaves no more to parse, and less where it succeeds.
pub proof fn unary_moves(state: ParserView)
    ensures
        moves(state, state.unary()),
    decreases state.remaining(), 2nat,
{
    peek_bounds(state);
    let peeked = state.peek();
    if peeked.result is Ok {
        let token = peeked.result->Ok_0;
        if token.base == Token::Dash || token.base == Token::Bang {
            unary_moves(peeked.state.consumed());
        } else if token.base == Token::OpenParen {
            expression_moves(peeked.state.consumed());
            let inner = peeked.state.consumed().expression();
            expect_bounds(inner.state, Token::CloseParen);
            advance_bounds(inner.state);
        } else {
            call_moves(peeked.state);
        }
    }
}

/// An operand of a tier moves on: it leaves no more to parse, and less where it succeeds.
pub proof fn operand_moves(state: ParserView, tier: Tier)
    ensures
        moves(state, state.operand(tier)),
    decreases state.remaining(), 3 + 2 * tier.index(),
{
    match tier.below() {
        None => unary_moves(state),
        Some(below) => binary_moves(state, below),
    }
}

/// An expression of a tier moves on: it leaves no more to parse, and less where it succeeds.
pub proof fn binary_moves(state: ParserView, tier: Tier)
    ensures
        moves(state, state.binary(tier)),
    decreases state.remaining(), 4 + 2 * tier.index(),
{
    operand_moves(state, tier);
    let left = state.operand(tier);
    if left.result is Ok {
        if tier.chains() {
            chain_stays(left.state, tier, left.result->Ok_0);
        } else {
            pair_stays(left.state, tier, left.result->Ok_0);
        }
    }
}

/// The operators after a left operand stays within what was left to parse.
pub proof fn chain_stays(state: ParserView, tier: Tier, left: ExpressionView)
    ensures
        stays(state, state.chain(tier, left)),
    decreases state.remaining(), 3 + 2 * tier.index(),
{
    peek_bounds(state);
    let peeked = state.peek();
    if peeked.result is Ok && tier.takes(peeked.result->Ok_0.base) {
        operand_moves(peeked.state.consumed(), tier);
        let right = peeked.state.consumed().operand(tier);
        if right.result is Ok {
            chain_stays(
                right.state,
                tier,
                crate::grammar::binary_of(left, peeked.result->Ok_0, right.result->Ok_0),
            );
        }
    }
}

/// The one operator after a left operand stays within what was left to parse.
pub proof fn pair_stays(state: ParserView, tier: Tier, left: ExpressionView)
    ensures
        stays(state, state.pair(tier, left)),
    decreases state.remaining(), 3 + 2 * tier.index(),
{
    peek_bounds(state);
    let peeked = state.peek();
    if peeked.result is Ok && tier.takes(peeked.result->Ok_0.base) {
        operand_moves(peeked.state.consumed(), tier);
        let right = peeked.state.consumed().operand(tier);
        peek_bounds(right.state);
    }
}

/// An `if` moves on: it leaves no more to parse, and less where it succeeds.
pub proof fn if_expression_moves(state: ParserView)
    ensures
        moves(state, state.if_expression()),
    decreases state.remaining(), 20nat,
{
    expect_bounds(state, Token::If);
    advance_bounds(state);
    let keyword = state.expect(Token::If);
    if keyword.result is Ok {
        expression_moves(keyword.state);
        let condition = keyword.state.expression();
        if condition.result is Ok {
            block_moves(condition.state);
            let body = condition.state.block();
            if body.result is Ok {
                else_body_stays(body.state);
            }
        }
    }
}

/// What follows the block of an `if` stays within what was left to parse.
pub proof fn else_body_stays(state: ParserView)
    ensures
        stays(state, state.else_body()),
    decreases state.remaining(), 20nat,
{
    peek_bounds(state);
    let peeked = state.peek();
    if peeked.result is Ok && peeked.result->Ok_0.base == Token::Else {
        peek_bounds(peeked.state.consumed());
        let next = peeked.state.consumed().peek();
        if next.result is Ok {
            if next.result->Ok_0.base == Token::If {
                if_expression_moves(next.state);
            } else {
                block_moves(next.state);
            }
        }
    }
}

/// A `while` moves on: it leaves no more to parse, and less where it succeeds.
pub proof fn while_expression_moves(state: ParserView)
    ensures
        moves(state, state.while_expression()),
    decreases state.remaining(), 20nat,
{
    expect_bounds(state, Token::While);
    advance_bounds(state);
    let keyword = state.expect(Token::While);
    if keyword.result is Ok {
        expression_moves(keyword.state);
        let condition = keyword.state.expression();
        if condition.result is Ok {
            block_moves(condition.state);
        }
    }
}

/// An expression moves on: it leaves no more to parse, and less where it succeeds.
pub proof fn expression_moves(state: ParserView)
    ensures
        moves(state, state.expression()),
    decreases state.remaining(), 30nat,
{
    peek_bounds(state);
    let peeked = state.peek();
    if peeked.result is Ok {
        let token = peeked.result->Ok_0;
        if token.base == Token::If {
            if_expression_moves(peeked.state);
        } else if token.base == Token::While {
            while_expression_moves(peeked.state);
        } else {
            binary_moves(peeked.state, Tier::Logical);
        }
    }
}

/// A binding moves on: it leaves no more to parse, and less where it succeeds.
pub proof fn bind_statement_moves(state: ParserView)
    ensures
        moves(state, state.bind_statement()),
    decreases state.remaining(), 44nat,
{
    expect_bounds(state, Token::Let);
    advance_bounds(state);
    let keyword = state.expect(Token::Let);
    if keyword.result is Ok {
        peek_bounds(keyword.state);
        let peeked = keyword.state.peek();
        if peeked.result is Ok {
            let start = if peeked.result->Ok_0.base == Token::Mut {
                peeked.state.consumed()
            } else {
                peeked.state
            };
            literal_moves(start);
            let pattern = start.literal();
            if pattern.result is Ok {
                expect_bounds(pattern.state, Token::Equal);
                advance_bounds(pattern.state);
                let equal = pattern.state.expect(Token::Equal);
                if equal.result is Ok {
                    expression_moves(equal.state);
                    let value = equal.state.expression();
                    expect_bounds(value.state, Token::Semicolon);
                    advance_bounds(value.state);
                }
            }
        }
    }
}

/// An expression that stands as a statement moves on: it leaves no more to parse, and less where it succeeds.
pub proof fn expression_statement_moves(state: ParserView)
    ensures
        moves(state, state.expression_statement()),
    decreases state.remaining(), 44nat,
{
    expression_moves(state);
    let value = state.expression();
    if value.result is Ok {
        peek_bounds(value.state);
    }
}

/// A statement moves on: it leaves no more to parse, and less where it succeeds.
pub proof fn statement_moves(state: ParserView)
    ensures
        moves(state, state.statement()),
    decreases state.remaining(), 45nat,
{
    peek_bounds(state);
    let peeked = state.peek();
    if peeked.result is Ok {
        if peeked.result->Ok_0.base == Token::Let {
            bind_statement_moves(peeked.state);
        } else {
            expression_statement_moves(peeked.state);
        }
    }
}

/// The statements of a block moves on: it leaves no more to parse, and less where it succeeds.
pub proof fn statements_moves(state: ParserView, statements: Seq<StatementView>)
    ensures
        moves(state, state.statements(statements)),
    decreases state.remaining(), 50nat,
{
    peek_bounds(state);
    let peeked = state.peek();
    if peeked.result is Ok && peeked.result->Ok_0.base != Token::CloseBrace {
        statement_moves(peeked.state);
        let next = peeked.state.statement();
        if next.result is Ok {
            statements_moves(next.state, statements.push(next.result->Ok_0));
        }
    }
}

/// A block moves on: it leaves no more to parse, and less where it succeeds.
pub proof fn block_moves(state: ParserView)
    ensures
        moves(state, state.block()),
    decreases state.remaining(), 51nat,
{
    expect_bounds(state, Token::OpenBrace);
    advance_bounds(state);
    let open = state.expect(Token::OpenBrace);
    if open.result is Ok {
        statements_moves(open.state, Seq::empty());
    }
}

/// What follows `use` or `::` moves on: it leaves no more to parse, and less where it succeeds.
pub proof fn use_group_moves(state: ParserView)
    ensures
        moves(state, state.use_group()),
    decreases state.remaining(), 4nat,
{
    peek_bounds(state);
    let peeked = state.peek();
    if peeked.result is Ok {
        let token = peeked.result->Ok_0;
        advance_bounds(peeked.state);
        if token.base == Token::Identifier {
            use_tree_moves(peeked.state);
        } else if token.base == Token::OpenBrace {
            use_trees_moves(peeked.state);
        }
    }
}

/// A tree of a `use` moves on: it leaves no more to parse, and less where it succeeds.
pub proof fn use_tree_moves(state: ParserView)
    ensures
        moves(state, state.use_tree()),
    decreases state.remaining(), 1nat,
{
    expect_bounds(state, Token::Identifier);
    advance_bounds(state);
    let component = state.expect(Token::Identifier);
    if component.result is Ok {
        peek_bounds(component.state);
        let peeked = component.state.peek();
        if peeked.result is Ok && peeked.result->Ok_0.base == Token::ColonColon {
            use_group_moves(peeked.state.consumed());
        }
    }
}

/// Trees in braces moves on: it leaves no more to parse, and less where it succeeds.
pub proof fn use_trees_moves(state: ParserView)
    ensures
        moves(state, state.use_trees()),
    decreases state.remaining(), 3nat,
{
    expect_bounds(state, Token::OpenBrace);
    advance_bounds(state);
    let open = state.expect(Token::OpenBrace);
    if open.result is Ok {
        use_list_moves(open.state, Seq::empty());
    }
}

/// The trees between braces moves on: it leaves no more to parse, and less where it succeeds.
pub proof fn use_list_moves(state: ParserView, trees: Seq<UseTreeView>)
    ensures
        moves(state, state.use_list(trees)),
    decreases state.remaining(), 2nat,
{
    use_tree_moves(state);
    let tree = state.use_tree();
    if tree.result is Ok {
        peek_bounds(tree.state);
        let comma = tree.state.peek();
        if comma.result is Ok {
            let start = if comma.result->Ok_0.base == Token::Comma {
                comma.state.consumed()
            } else {
                comma.state
            };
            peek_bounds(start);
            let close = start.peek();
            if close.result is Ok && close.result->Ok_0.base != Token::CloseBrace {
                use_list_moves(close.state, trees.push(tree.result->Ok_0));
            }
        }
    }
}

/// A `use` moves on, and stays within what is left after its first token.
pub proof fn use_declaration_moves(state: ParserView)
    ensures
        moves(state, state.use_declaration()),
        state.use_declaration().state.remaining() <= state.advance().state.remaining(),
{
    expect_bounds(state, Token::Use);
    advance_bounds(state);
    let keyword = state.expect(Token::Use);
    if keyword.result is Ok {
        use_group_moves(keyword.state);
        let trees = keyword.state.use_group();
        expect_bounds(trees.state, Token::Semicolon);
        advance_bounds(trees.state);
    }
}

/// The parameters of a function moves on: it leaves no more to parse, and less where it succeeds.
pub proof fn parameters_moves(state: ParserView, parameters: Seq<TokenView>)
    ensures
        moves(state, state.parameters(parameters)),
    decreases state.remaining(),
{
    peek_bounds(state);
    let peeked = state.peek();
    if peeked.result is Ok && peeked.result->Ok_0.base != Token::CloseParen {
        expect_bounds(peeked.state, Token::Identifier);
        advance_bounds(peeked.state);
        let parameter = peeked.state.expect(Token::Identifier);
        if parameter.result is Ok {
            peek_bounds(parameter.state);
            let comma = parameter.state.peek();
            if comma.result is Ok {
                let next = if comma.result->Ok_0.base == Token::Comma {
                    comma.state.consumed()
                } else {
                    comma.state
                };
                parameters_moves(next, parameters.push(parameter.result->Ok_0));
            }
        }
    }
}

/// A function moves on, and stays within what is left after its first token.
pub proof fn fn_declaration_moves(state: ParserView)
    ensures
        moves(state, state.fn_declaration()),
        state.fn_declaration().state.remaining() <= state.advance().state.remaining(),
{
    expect_bounds(state, Token::Fn);
    advance_bounds(state);
    let keyword = state.expect(Token::Fn);
    if keyword.result is Ok {
        expect_bounds(keyword.state, Token::Identifier);
        advance_bounds(keyword.state);
        let name = keyword.state.expect(Token::Identifier);
        if name.result is Ok {
            expect_bounds(name.state, Token::OpenParen);
            advance_bounds(name.state);
            let open = name.state.expect(Token::OpenParen);
            if open.result is Ok {
                parameters_moves(open.state, Seq::empty());
                let parameters = open.state.parameters(Seq::empty());
                if parameters.result is Ok {
                    block_moves(parameters.state);
                }
            }
        }
    }
}

/// A module stays within what was left to parse, and within what is left after its first token.
pub proof fn mod_declaration_moves(state: ParserView)
    ensures
        stays(state, state.mod_declaration()),
        state.mod_declaration().state.remaining() <= state.advance().state.remaining(),
    decreases state.remaining(), 3nat,
{
    expect_bounds(state, Token::Mod);
    advance_bounds(state);
    let keyword = state.expect(Token::Mod);
    if keyword.result is Ok {
        expect_bounds(keyword.state, Token::Identifier);
        advance_bounds(keyword.state);
        let name = keyword.state.expect(Token::Identifier);
        if name.result is Ok {
            peek_bounds(name.state);
            let peeked = name.state.peek();
            if peeked.result is Ok {
                advance_bounds(peeked.state);
                if peeked.result->Ok_0.base == Token::OpenBrace {
                    file_stays(peeked.state.consumed(), true);
                    let body = peeked.state.consumed().file(true);
                    expect_bounds(body.state, Token::CloseBrace);
                    advance_bounds(body.state);
                }
            }
        }
    }
}

/// A declaration stays within what was left to parse, and leaves less where it begins at a token other than `Eof`.
pub proof fn declaration_moves(state: ParserView)
    ensures
        stays(state, state.declaration()),
        state.current matches Some(token) && token.base != Token::Eof
            ==> state.declaration().state.remaining() < state.remaining(),
    decreases state.remaining(), 4nat,
{
    peek_bounds(state);
    advance_bounds(state);
    let peeked = state.peek();
    if peeked.result is Ok {
        let token = peeked.result->Ok_0;
        advance_bounds(peeked.state);
        if token.base == Token::Use {
            use_declaration_moves(peeked.state);
        } else if token.base == Token::Mod {
            mod_declaration_moves(peeked.state);
        } else if token.base == Token::Fn {
            fn_declaration_moves(peeked.state);
        }
    }
}

/// The declarations of a file stay within what was left to parse.
pub proof fn declarations_stay(
    state: ParserView,
    within_module: bool,
    declarations: Seq<crate::ast::DeclarationView>,
    errors: Seq<Diagnostic>,
)
    ensures
        state.declarations(within_module, declarations, errors).state.remaining()
            <= state.remaining(),
    decreases state.remaining(), 5nat,
{
    peek_bounds(state);
    let peeked = state.peek();
    synchronize_bounds(peeked.state);
    match peeked.result {
        Err(error) => {
            declarations_stay(
                peeked.state.synchronize(),
                within_module,
                declarations,
                errors.push(error),
            );
        },
        Ok(token) => {
            if !(token.base == Token::Eof || (token.base == Token::CloseBrace && within_module)) {
                declaration_moves(peeked.state);
                let next = peeked.state.declaration();
                synchronize_bounds(next.state);
                match next.result {
                    Ok(declaration) => {
                        declarations_stay(
                            next.state,
                            within_module,
                            declarations.push(declaration),
                            errors,
                        );
                    },
                    Err(more) => {
                        declarations_stay(
                            next.state.synchronize(),
                            within_module,
                            declarations,
                            errors + more,
                        );
                    },
                }
            }
        },
    }
}

/// A file stays within what was left to parse.
pub proof fn file_stays(state: ParserView, within_module: bool)
    ensures
        stays(state, state.file(within_module)),
    decreases state.remaining(), 6nat,
{
    declarations_stay(state, within_module, Seq::empty(), Seq::empty());
    let gathered = state.declarations(within_module, Seq::empty(), Seq::empty());
    expect_bounds(gathered.state, Token::Eof);
    advance_bounds(gathered.state);
}

/// No parse stalls: an expression, a statement or a block that parses
/// leaves less to parse than there was, and so does a declaration that
/// begins at a token; [`Parsed::after`] changes none of their outcomes.
pub proof fn parsing_moves_on(state: ParserView)
    ensures
        moves(state, state.expression()),
        moves(state, state.statement()),
        moves(state, state.block()),
        stays(state, state.file(false)),
        state.expression().after(state) == state.expression(),
        state.statement().after(state) == state.statement(),
        state.block().after(state) == state.block(),
        state.access().after(state) == state.access(),
        state.use_tree().after(state) == state.use_tree(),
        forall|tier: Tier| #[trigger] state.operand(tier).after(state) == state.operand(tier),
{
    expression_moves(state);
    statement_moves(state);
    block_moves(state);
    file_stays(state, false);
    access_moves(state);
    use_tree_moves(state);
    assert forall|tier: Tier| #[trigger] state.operand(tier).after(state) == state.operand(
        tier,
    ) by {
        operand_moves(state, tier);
    }
}

} // verus!
