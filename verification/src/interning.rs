//! The table of identifiers through a compilation: it only grows, at its
//! end, and no spelling comes to stand in it twice. So the index that a
//! name is given stays the index of that name, and of no other, for the
//! whole of the compilation.

use crate::ast;
use crate::ast::TokenView;
use crate::resolve::{
    module_declarations, position, position_is_first, EnvironmentView, ResolverView,
};
use crate::ir::HeaderView;
use vstd::prelude::*;

verus! {

/// Whether what a step of the compilation left is what it found, grown:
/// the identifiers and the chunks that were there are where they were,
/// and if no spelling stood twice in the table, none does.
pub open spec fn grown(before: ResolverView, after: ResolverView) -> bool {
    &&& before.identifiers.len() <= after.identifiers.len()
    &&& after.identifiers.subrange(0, before.identifiers.len() as int) == before.identifiers
    &&& before.chunks.len() <= after.chunks.len()
    &&& after.chunks.subrange(0, before.chunks.len() as int) == before.chunks
    &&& before.identifiers.no_duplicates() ==> after.identifiers.no_duplicates()
}

/// A state is itself grown.
pub proof fn grown_from_itself(state: ResolverView)
    ensures
        grown(state, state),
{
    assert(state.identifiers.subrange(0, state.identifiers.len() as int) =~= state.identifiers);
    assert(state.chunks.subrange(0, state.chunks.len() as int) =~= state.chunks);
}

/// What is grown from what is grown is grown.
pub proof fn grown_twice(first: ResolverView, second: ResolverView, third: ResolverView)
    requires
        grown(first, second),
        grown(second, third),
    ensures
        grown(first, third),
{
    assert(third.identifiers.subrange(0, first.identifiers.len() as int)
        =~= second.identifiers.subrange(0, first.identifiers.len() as int));
    assert(third.chunks.subrange(0, first.chunks.len() as int) =~= second.chunks.subrange(
        0,
        first.chunks.len() as int,
    ));
}

/// Interning grows the table by the spelling if it is new, and not at all
/// if it is not.
pub proof fn intern_grows(state: ResolverView, name: Seq<u8>)
    ensures
        grown(state, state.intern(name).1),
{
    let next = state.intern(name).1;
    position_is_first(state.identifiers, name, 0);
    if position(state.identifiers, name, 0) is None {
        let table = state.identifiers;
        assert(next.identifiers.subrange(0, table.len() as int) =~= table);
        assert(next.chunks.subrange(0, state.chunks.len() as int) =~= state.chunks);
        if table.no_duplicates() {
            assert forall|i: int, j: int|
                0 <= i < next.identifiers.len() && 0 <= j < next.identifiers.len() && i
                    != j implies next.identifiers[i] != next.identifiers[j] by {
                if i < table.len() && j < table.len() {
                    assert(table[i] != table[j]);
                } else if i < table.len() {
                    assert(table[i] != name);
                } else {
                    assert(table[j] != name);
                }
            }
        }
    } else {
        grown_from_itself(state);
    }
}

/// Interning names grows the table.
pub proof fn names_grow(state: ResolverView, tokens: Seq<TokenView>, from: int, indices: Seq<usize>)
    ensures
        grown(state, state.names(tokens, from, indices).1),
    decreases tokens.len() - from,
{
    if from < 0 || from >= tokens.len() {
        grown_from_itself(state);
    } else {
        let next = state.intern(tokens[from].span.bytes()).1;
        let index = state.intern(tokens[from].span.bytes()).0;
        intern_grows(state, tokens[from].span.bytes());
        names_grow(next, tokens, from + 1, indices.push(index));
        grown_twice(state, next, next.names(tokens, from + 1, indices.push(index)).1);
    }
}

/// Resolving an expression grows the table.
pub proof fn expression_grows(
    state: ResolverView,
    environment: EnvironmentView,
    expression: ast::ExpressionView,
)
    ensures
        state.expression(environment, expression) matches Ok((_, next)) ==> grown(state, next),
    decreases expression, 0nat,
{
    match expression {
        ast::ExpressionView::Literal(token) => {
            intern_grows(state, token.span.bytes());
            grown_from_itself(state);
        },
        ast::ExpressionView::Path { components } => {
            names_grow(state, components, 0, Seq::empty());
        },
        ast::ExpressionView::Access { receiver, field } => {
            expression_grows(state, environment, *receiver);
            match state.expression(environment, *receiver) {
                Ok((_, next)) => {
                    intern_grows(next, field.span.bytes());
                    grown_twice(state, next, next.intern(field.span.bytes()).1);
                },
                _ => {},
            }
        },
        ast::ExpressionView::Call { receiver, arguments } => {
            expression_grows(state, environment, *receiver);
            match state.expression(environment, *receiver) {
                Ok((_, next)) => {
                    expressions_grow(next, environment, arguments, 0, Seq::empty());
                    match next.expressions(environment, arguments, 0, Seq::empty()) {
                        Ok((_, last)) => {
                            grown_twice(state, next, last);
                        },
                        _ => {},
                    }
                },
                _ => {},
            }
        },
        ast::ExpressionView::Unary { operator, operand } => {
            expression_grows(state, environment, *operand);
        },
        ast::ExpressionView::Binary { left_operand, operator, right_operand } => {
            expression_grows(state, environment, *left_operand);
            match state.expression(environment, *left_operand) {
                Ok((_, next)) => {
                    expression_grows(next, environment, *right_operand);
                    match next.expression(environment, *right_operand) {
                        Ok((_, last)) => {
                            grown_twice(state, next, last);
                        },
                        _ => {},
                    }
                },
                _ => {},
            }
        },
        ast::ExpressionView::Assign { .. } => {},
        ast::ExpressionView::If(if_expression) => {
            if_grows(state, environment, if_expression);
        },
        ast::ExpressionView::While { condition, body } => {
            expression_grows(state, environment, *condition);
            match state.expression(environment, *condition) {
                Ok((_, next)) => {
                    block_grows(next, environment, body, 0, Seq::empty());
                    match next.block(environment, body, 0, Seq::empty()) {
                        Ok((_, last)) => {
                            grown_twice(state, next, last);
                        },
                        _ => {},
                    }
                },
                _ => {},
            }
        },
    }
}

/// Resolving expressions grows the table.
pub proof fn expressions_grow(
    state: ResolverView,
    environment: EnvironmentView,
    expressions: Seq<ast::ExpressionView>,
    from: int,
    resolved: Seq<crate::ir::ExpressionView>,
)
    ensures
        state.expressions(environment, expressions, from, resolved) matches Ok((_, next))
            ==> grown(state, next),
    decreases expressions, expressions.len() - from,
{
    if from < 0 || from >= expressions.len() {
        grown_from_itself(state);
    } else {
        expression_grows(state, environment, expressions[from]);
        match state.expression(environment, expressions[from]) {
            Ok((expression, next)) => {
                expressions_grow(next, environment, expressions, from + 1, resolved.push(expression));
                match next.expressions(environment, expressions, from + 1, resolved.push(expression)) {
                    Ok((_, last)) => {
                        grown_twice(state, next, last);
                    },
                    _ => {},
                }
            },
            _ => {},
        }
    }
}

/// Resolving an `if` grows the table.
pub proof fn if_grows(state: ResolverView, environment: EnvironmentView, if_expression: ast::IfView)
    ensures
        state.if_expression(environment, if_expression) matches Ok((_, next)) ==> grown(
            state,
            next,
        ),
    decreases if_expression, 0nat,
{
    expression_grows(state, environment, *if_expression.condition);
    match state.expression(environment, *if_expression.condition) {
        Ok((_, next)) => {
            block_grows(next, environment, if_expression.body, 0, Seq::empty());
            match next.block(environment, if_expression.body, 0, Seq::empty()) {
                Ok((_, last)) => {
                    grown_twice(state, next, last);
                    match if_expression.else_body {
                        None => {},
                        Some(ast::ElseView::Else(block)) => {
                            block_grows(last, environment, block, 0, Seq::empty());
                            match last.block(environment, block, 0, Seq::empty()) {
                                Ok((_, end)) => {
                                    grown_twice(state, last, end);
                                },
                                _ => {},
                            }
                        },
                        Some(ast::ElseView::If(nested)) => {
                            if_grows(last, environment, *nested);
                            match last.if_expression(environment, *nested) {
                                Ok((_, end)) => {
                                    grown_twice(state, last, end);
                                },
                                _ => {},
                            }
                        },
                    }
                },
                _ => {},
            }
        },
        _ => {},
    }
}

/// Resolving a statement grows the table.
pub proof fn statement_grows(
    state: ResolverView,
    environment: EnvironmentView,
    statement: ast::StatementView,
)
    ensures
        state.statement(environment, statement) matches Ok((_, next)) ==> grown(state, next),
    decreases statement, 0nat,
{
    match statement {
        ast::StatementView::Bind { is_mut, pattern, expression } => {
            let next = state.intern(pattern.span.bytes()).1;
            intern_grows(state, pattern.span.bytes());
            expression_grows(next, environment, expression);
            match next.expression(environment, expression) {
                Ok((_, last)) => {
                    grown_twice(state, next, last);
                },
                _ => {},
            }
        },
        ast::StatementView::Expression { expression, has_semicolon } => {
            expression_grows(state, environment, expression);
        },
    }
}

/// Resolving a block grows the table.
pub proof fn block_grows(
    state: ResolverView,
    environment: EnvironmentView,
    statements: Seq<ast::StatementView>,
    from: int,
    resolved: Seq<crate::ir::StatementView>,
)
    ensures
        state.block(environment, statements, from, resolved) matches Ok((_, next)) ==> grown(
            state,
            next,
        ),
    decreases statements, statements.len() - from,
{
    if from < 0 || from >= statements.len() {
        grown_from_itself(state);
    } else {
        statement_grows(state, environment, statements[from]);
        match state.statement(environment, statements[from]) {
            Ok((statement, next)) => {
                block_grows(next, environment, statements, from + 1, resolved.push(statement));
                match next.block(environment, statements, from + 1, resolved.push(statement)) {
                    Ok((_, last)) => {
                        grown_twice(state, next, last);
                    },
                    _ => {},
                }
            },
            _ => {},
        }
    }
}

/// Resolving a tree of a `use` grows the table.
pub proof fn use_tree_grows(state: ResolverView, tree: ast::UseTreeView)
    ensures
        grown(state, state.use_tree(tree).1),
    decreases tree, 0nat,
{
    match tree {
        ast::UseTreeView::Leaf(token) => {
            intern_grows(state, token.span.bytes());
        },
        ast::UseTreeView::Branch { component, subtrees } => {
            let next = state.intern(component.span.bytes()).1;
            intern_grows(state, component.span.bytes());
            use_trees_grow(next, subtrees, 0, Seq::empty());
            grown_twice(state, next, next.use_trees(subtrees, 0, Seq::empty()).1);
        },
    }
}

/// Resolving the trees of a `use` grows the table.
pub proof fn use_trees_grow(
    state: ResolverView,
    trees: Seq<ast::UseTreeView>,
    from: int,
    paths: Seq<Seq<usize>>,
)
    ensures
        grown(state, state.use_trees(trees, from, paths).1),
    decreases trees, trees.len() - from,
{
    if from < 0 || from >= trees.len() {
        grown_from_itself(state);
    } else {
        let (more, next) = state.use_tree(trees[from]);
        use_tree_grows(state, trees[from]);
        use_trees_grow(next, trees, from + 1, paths + more);
        grown_twice(state, next, next.use_trees(trees, from + 1, paths + more).1);
    }
}

/// Resolving a function grows the table, and the chunks by one.
pub proof fn fn_header_grows(
    state: ResolverView,
    environment: EnvironmentView,
    parameters: Seq<TokenView>,
    block: Seq<ast::StatementView>,
)
    ensures
        state.fn_header(environment, parameters, block) matches Ok((_, next)) ==> grown(
            state,
            next,
        ),
{
    let next = state.names(parameters, 0, Seq::empty()).1;
    names_grow(state, parameters, 0, Seq::empty());
    block_grows(next, environment, block, 0, Seq::empty());
    match next.block(environment, block, 0, Seq::empty()) {
        Ok((body, last)) => {
            grown_twice(state, next, last);
            let end = state.fn_header(environment, parameters, block)->Ok_0.1;
            assert(end.chunks.subrange(0, last.chunks.len() as int) =~= last.chunks);
            assert(end.identifiers.subrange(0, last.identifiers.len() as int) =~= last.identifiers);
            grown_twice(state, last, end);
        },
        _ => {},
    }
}

/// Resolving declarations grows the table.
pub proof fn header_grows(
    state: ResolverView,
    environment: EnvironmentView,
    depth: nat,
    declarations: Seq<ast::DeclarationView>,
    from: int,
    header: HeaderView,
)
    ensures
        state.header(environment, depth, declarations, from, header) matches Ok((_, next))
            ==> grown(state, next),
    decreases depth, declarations, declarations.len() - from,
{
    if from < 0 || from >= declarations.len() {
        grown_from_itself(state);
    } else {
        match declarations[from] {
            ast::DeclarationView::Use { trees } => {
                let (paths, next) = state.use_trees(trees, 0, Seq::empty());
                use_trees_grow(state, trees, 0, Seq::empty());
                let added = HeaderView {
                    use_declarations: header.use_declarations + paths,
                    ..header
                };
                header_grows(next, environment, depth, declarations, from + 1, added);
                match next.header(environment, depth, declarations, from + 1, added) {
                    Ok((_, last)) => {
                        grown_twice(state, next, last);
                    },
                    _ => {},
                }
            },
            ast::DeclarationView::Mod { name, body } => {
                let (index, next) = state.intern(name.span.bytes());
                intern_grows(state, name.span.bytes());
                let nested = match body {
                    Some(inner) => {
                        header_grows(
                            next,
                            environment,
                            depth,
                            inner,
                            0,
                            crate::resolve::empty_header(),
                        );
                        next.header(environment, depth, inner, 0, crate::resolve::empty_header())
                    },
                    None => match module_declarations(environment, depth, name.span.bytes()) {
                        Err(fault) => Err(fault),
                        Ok(inner) => {
                            header_grows(
                                next,
                                environment,
                                (depth - 1) as nat,
                                inner,
                                0,
                                crate::resolve::empty_header(),
                            );
                            next.header(
                                environment,
                                (depth - 1) as nat,
                                inner,
                                0,
                                crate::resolve::empty_header(),
                            )
                        },
                    },
                };
                match nested {
                    Ok((module, last)) => {
                        grown_twice(state, next, last);
                        let added = HeaderView {
                            mod_headers: header.mod_headers.insert(index, module),
                            ..header
                        };
                        header_grows(last, environment, depth, declarations, from + 1, added);
                        match last.header(environment, depth, declarations, from + 1, added) {
                            Ok((_, end)) => {
                                grown_twice(state, last, end);
                            },
                            _ => {},
                        }
                    },
                    _ => {},
                }
            },
            ast::DeclarationView::Fn { name, parameters, block } => {
                let (index, next) = state.intern(name.span.bytes());
                intern_grows(state, name.span.bytes());
                fn_header_grows(next, environment, parameters, block);
                match next.fn_header(environment, parameters, block) {
                    Ok((chunk, last)) => {
                        grown_twice(state, next, last);
                        let added = HeaderView {
                            fn_headers: header.fn_headers.insert(index, chunk),
                            ..header
                        };
                        header_grows(last, environment, depth, declarations, from + 1, added);
                        match last.header(environment, depth, declarations, from + 1, added) {
                            Ok((_, end)) => {
                                grown_twice(state, last, end);
                            },
                            _ => {},
                        }
                    },
                    _ => {},
                }
            },
        }
    }
}

/// In the table of a program that was compiled from nothing, no spelling
/// stands twice: each identifier has one index, and each index one
/// identifier.
pub proof fn identifiers_are_distinct(source: Seq<u8>, environment: EnvironmentView)
    ensures
        ResolverView::initial().compile(source, environment) matches Ok(executable)
            ==> executable.identifiers.no_duplicates(),
{
    let state = ResolverView::initial();
    match crate::resolve::start_of(source).file(false).result {
        Ok(declarations) => {
            header_grows(
                state,
                environment,
                environment.modules.len(),
                declarations,
                0,
                crate::resolve::empty_header(),
            );
        },
        _ => {},
    }
}

} // verus!
