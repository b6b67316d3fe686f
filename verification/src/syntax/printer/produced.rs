//! What holds of every production of the grammar, wherever it is applied: the
//! tree that it gives is well-formed, so that it comes back from its printed
//! form; a production that gives a node consumes a token; and no production
//! consumes a terminal token, so that neither the end of the text nor a
//! lexing failure is ever read past.

use vstd::prelude::*;

use crate::syntax::ast::node::{DeclarationV, FormalParameterV, NodeV};
use crate::syntax::lexer::token::{Keyword, Punctuator, TokenKind, TokenV};
use crate::syntax::ast::node::ClassMethodV;
use crate::syntax::parser::class::{
    class_body, class_declaration, class_elements, method_context, static_at,
};
use crate::syntax::parser::cursor::{kind_at, left, newline_at, text_at};
use crate::syntax::parser::expression::{
    assignment, binary, binary_rest, comma_rest, conditional, exponentiation, expression,
    expression_list, function_at, left_hand_side, new_arguments, new_expression, primary,
    spec_ends_yield, spec_prefix_update, tail, unary, update, yield_expression,
};
use crate::syntax::parser::function::{
    arrow_function, formal_parameters, function, function_body, has_duplicate_names,
    is_arrow_head,
};
use crate::syntax::parser::grammar::{
    is_assignable, keyword_at, punctuator_at, spec_assignment_operator, spec_binary_operator,
    spec_unary_operator, GrammarContext, Parsed,
};
use crate::syntax::parser::hoist::{
    function_declarations, hoisted, hoisted_order, other_statements,
};
use crate::syntax::parser::laws::lemma_hoisting_keeps_source_order;
use crate::syntax::parser::statement::{
    binding_at, declaration, declarations, do_while_statement, for_init, for_part, for_statement,
    if_statement, parenthesized, return_statement, statement, statement_list, terminator,
    throw_statement, while_statement, Binding,
};
use crate::syntax::printer::form::is_declaration;
use crate::syntax::printer::shape::{
    open_if, well_formed_binding, well_formed_method, well_formed_methods, well_formed_bindings, well_formed_body, well_formed_declaration,
    well_formed_expression, well_formed_expressions, well_formed_optional, well_formed_parameter,
    well_formed_parameters, well_formed_statement, well_formed_statements,
};

verus! {

/// Whether `e` is a well-formed expression in the context `ctx`.
pub open spec fn we(e: NodeV, ctx: GrammarContext) -> bool {
    well_formed_expression(e, ctx.allow_yield, ctx.allow_await)
}

/// Whether the expression that a production gave, if it gave one, is
/// well-formed and made of at least one token.
pub open spec fn good(t: Seq<TokenV>, pos: int, r: Parsed<NodeV>, ctx: GrammarContext) -> bool {
    r matches Ok((e, n)) ==> we(e, ctx) && n >= 1 && passes(t, pos, n)
}

/// Whether every token before `pos` is a token of the stream that does not
/// end it: the place `pos` can be reached without reading past the end of
/// the text or past a lexing failure.
pub open spec fn reached(t: Seq<TokenV>, pos: int) -> bool {
    forall|i: int| 0 <= i < pos ==> i < t.len() && !(#[trigger] t[i]).kind.spec_is_terminal()
}

/// Whether a production that consumes `n` tokens at `pos` consumes no
/// terminal token: where `pos` can be reached, so can the place behind the
/// tokens.
pub open spec fn passes(t: Seq<TokenV>, pos: int, n: nat) -> bool {
    reached(t, pos) ==> reached(t, pos + n)
}

/// Whether the expression that the rest of a production gave, if it gave
/// one, is well-formed.
pub open spec fn good_rest(t: Seq<TokenV>, pos: int, r: Parsed<NodeV>, ctx: GrammarContext) -> bool {
    r matches Ok((e, n)) ==> we(e, ctx) && passes(t, pos, n)
}

/// Whether the expressions that a production gave, if it gave any, are
/// well-formed.
pub open spec fn good_list(
    t: Seq<TokenV>,
    pos: int,
    r: Parsed<Seq<NodeV>>,
    ctx: GrammarContext,
) -> bool {
    r matches Ok((items, n)) ==> well_formed_expressions(items, ctx.allow_yield, ctx.allow_await)
        && passes(t, pos, n)
}

/// Whether `s` is a well-formed statement in the context `ctx`.
pub open spec fn ws(s: NodeV, ctx: GrammarContext) -> bool {
    well_formed_statement(s, ctx.allow_yield, ctx.allow_await, ctx.allow_return)
}

/// Whether the statement that a production gave at `pos`, if it gave one,
/// is well-formed, and no `else` follows it where it ends with an `if`
/// that has none.
pub open spec fn good_statement(
    t: Seq<TokenV>,
    pos: int,
    r: Parsed<NodeV>,
    ctx: GrammarContext,
) -> bool {
    r matches Ok((s, n)) ==> ws(s, ctx) && n >= 1 && passes(t, pos, n) && (open_if(s)
        ==> !keyword_at(t, pos + n, Keyword::Else))
}

/// Whether the statements that a production gave, if it gave any, are
/// well-formed.
pub open spec fn good_statements(
    t: Seq<TokenV>,
    pos: int,
    r: Parsed<Seq<NodeV>>,
    ctx: GrammarContext,
    in_block: bool,
) -> bool {
    r matches Ok((items, n)) ==> well_formed_statements(
        items,
        ctx.allow_yield,
        ctx.allow_await,
        ctx.allow_return,
    ) && passes(t, pos, n) && (!in_block ==> kind_at(t, pos + n) == TokenKind::EndOfInput)
}

/// Whether what a function production gave, if it gave a function, is
/// well-formed.
pub open spec fn good_function(
    t: Seq<TokenV>,
    pos: int,
    r: Parsed<NodeV>,
    declaration: bool,
) -> bool {
    r matches Ok((e, n)) ==> n >= 1 && passes(t, pos, n) && (match e {
        NodeV::FunctionDecl(kind, _, params, body) => declaration && well_formed_parameters(
            params,
            kind.spec_is_generator(),
            kind.spec_is_async(),
        ) && well_formed_body(body, kind.spec_is_generator(), kind.spec_is_async()),
        NodeV::FunctionExpr(kind, _, params, body) => !declaration && well_formed_parameters(
            params,
            kind.spec_is_generator(),
            kind.spec_is_async(),
        ) && well_formed_body(body, kind.spec_is_generator(), kind.spec_is_async()),
        _ => false,
    })
}

/// Whether no one of `params` is a rest parameter, and all are
/// well-formed.
pub open spec fn plain_parameters(params: Seq<FormalParameterV>, ctx: GrammarContext) -> bool {
    forall|i: int|
        0 <= i < params.len() ==> well_formed_parameter(
            #[trigger] params[i],
            ctx.allow_yield,
            ctx.allow_await,
        ) && !params[i].is_rest
}

/// The statements of a hoisted list are the statements of the list.
pub proof fn lemma_hoisted_statements(items: Seq<NodeV>, y: bool, a: bool, r: bool)
    requires
        well_formed_statements(items, y, a, r),
    ensures
        well_formed_statements(function_declarations(items), y, a, r),
        well_formed_statements(other_statements(items), y, a, r),
        well_formed_statements(hoisted_order(items), y, a, r),
    decreases items.len(),
{
    if items.len() > 0 {
        let rest = items.drop_last();
        assert forall|i: int| 0 <= i < rest.len() implies well_formed_statement(
            #[trigger] rest[i],
            y,
            a,
            r,
        ) by {
            assert(rest[i] == items[i]);
        }
        lemma_hoisted_statements(rest, y, a, r);
        assert(well_formed_statement(items[items.len() - 1], y, a, r));
    }
}

/// The hoisted form of well-formed statements is a well-formed body.
pub proof fn lemma_hoisted_body(items: Seq<NodeV>, y: bool, a: bool)
    requires
        well_formed_statements(items, y, a, true),
    ensures
        well_formed_body(hoisted(items), y, a),
{
    lemma_hoisted_statements(items, y, a, true);
    lemma_hoisting_keeps_source_order(items);
}

/// A primary expression that the parser builds is well-formed.
#[verifier::spinoff_prover]
pub proof fn lemma_primary(t: Seq<TokenV>, pos: int, ctx: GrammarContext)
    ensures
        good(t, pos, primary(t, pos, ctx), ctx),
    decreases left(t, pos), 21nat,
{
    reveal(primary);
    reveal(function);
    reveal(expression);
    reveal(expression_list);
    if function_at(t, pos) {
        lemma_function(t, pos, ctx, false);
    } else if punctuator_at(t, pos, Punctuator::OpenParen) {
        lemma_expression(t, pos + 1, ctx.spec_with_in(true));
    } else if punctuator_at(t, pos, Punctuator::OpenBracket) {
        lemma_expression_list(t, pos + 1, ctx, Punctuator::CloseBracket, Seq::empty());
    }
}

/// The expressions of a list that the parser builds are well-formed.
#[verifier::spinoff_prover]
pub proof fn lemma_expression_list(
    t: Seq<TokenV>,
    pos: int,
    ctx: GrammarContext,
    close: Punctuator,
    done: Seq<NodeV>,
)
    requires
        well_formed_expressions(done, ctx.allow_yield, ctx.allow_await),
    ensures
        good_list(t, pos, expression_list(t, pos, ctx, close, done), ctx),
    decreases left(t, pos), 39nat,
{
    reveal(expression_list);
    reveal(assignment);
    if !punctuator_at(t, pos, close) {
        lemma_assignment(t, pos, ctx.spec_with_in(true));
        match assignment(t, pos, ctx.spec_with_in(true)) {
            Ok((e, n)) => {
                let all = done.push(e);
                assert forall|i: int| 0 <= i < all.len() implies well_formed_expression(
                    #[trigger] all[i],
                    ctx.allow_yield,
                    ctx.allow_await,
                ) by {
                    if i < done.len() {
                        assert(all[i] == done[i]);
                    }
                }
                if punctuator_at(t, pos + n, Punctuator::Comma) {
                    lemma_expression_list(t, pos + n + 1, ctx, close, all);
                }
            },
            Err(_) => {},
        }
    }
}

/// What follows a well-formed expression and belongs to it makes a
/// well-formed expression.
#[verifier::spinoff_prover]
pub proof fn lemma_tail(t: Seq<TokenV>, pos: int, ctx: GrammarContext, node: NodeV, calls: bool)
    requires
        we(node, ctx),
    ensures
        good_rest(t, pos, tail(t, pos, ctx, node, calls), ctx),
    decreases left(t, pos), 10nat,
{
    reveal(tail);
    reveal(expression);
    reveal(expression_list);
    if punctuator_at(t, pos, Punctuator::Dot) {
        if kind_at(t, pos + 1) == TokenKind::Identifier {
            lemma_tail(
                t,
                pos + 2,
                ctx,
                NodeV::GetConstField(Box::new(node), text_at(t, pos + 1)),
                calls,
            );
        }
    } else if punctuator_at(t, pos, Punctuator::OpenBracket) {
        lemma_expression(t, pos + 1, ctx.spec_with_in(true));
        match expression(t, pos + 1, ctx.spec_with_in(true)) {
            Ok((key, n)) => {
                if punctuator_at(t, pos + 1 + n, Punctuator::CloseBracket) {
                    lemma_tail(
                        t,
                        pos + n + 2,
                        ctx,
                        NodeV::GetField(Box::new(node), Box::new(key)),
                        calls,
                    );
                }
            },
            Err(_) => {},
        }
    } else if calls && punctuator_at(t, pos, Punctuator::OpenParen) {
        lemma_expression_list(t, pos + 1, ctx, Punctuator::CloseParen, Seq::empty());
        match expression_list(t, pos + 1, ctx, Punctuator::CloseParen, Seq::empty()) {
            Ok((args, n)) => {
                lemma_tail(t, pos + n + 1, ctx, NodeV::Call(Box::new(node), args), calls);
            },
            Err(_) => {},
        }
    }
}

/// A `new` expression that the parser builds is well-formed.
#[verifier::spinoff_prover]
pub proof fn lemma_new_arguments(t: Seq<TokenV>, pos: int, ctx: GrammarContext, callee: NodeV)
    requires
        we(callee, ctx),
    ensures
        good_rest(t, pos, new_arguments(t, pos, ctx, callee), ctx),
    decreases left(t, pos), 9nat,
{
    reveal(new_arguments);
    reveal(expression_list);
    assert(well_formed_expressions(Seq::<NodeV>::empty(), ctx.allow_yield, ctx.allow_await));
    if punctuator_at(t, pos, Punctuator::OpenParen) {
        lemma_expression_list(t, pos + 1, ctx, Punctuator::CloseParen, Seq::empty());
    }
}

/// A `new` expression that the parser builds is well-formed.
#[verifier::spinoff_prover]
pub proof fn lemma_new_expression(t: Seq<TokenV>, pos: int, ctx: GrammarContext)
    ensures
        good(t, pos, new_expression(t, pos, ctx), ctx),
    decreases left(t, pos), 22nat,
{
    reveal(new_expression);
    reveal(primary);
    reveal(tail);
    reveal(new_arguments);
    if keyword_at(t, pos, Keyword::New) {
        let head = if keyword_at(t, pos + 1, Keyword::New) {
            lemma_new_expression(t, pos + 1, ctx);
            new_expression(t, pos + 1, ctx)
        } else {
            lemma_primary(t, pos + 1, ctx);
            primary(t, pos + 1, ctx)
        };
        match head {
            Ok((h, n)) => {
                lemma_tail(t, pos + n + 1, ctx, h, false);
                match tail(t, pos + n + 1, ctx, h, false) {
                    Ok((callee, m)) => {
                        lemma_new_arguments(t, pos + n + m + 1, ctx, callee);
                    },
                    Err(_) => {},
                }
            },
            Err(_) => {},
        }
    }
}

/// A left-hand-side expression that the parser builds is well-formed.
#[verifier::spinoff_prover]
pub proof fn lemma_left_hand_side(t: Seq<TokenV>, pos: int, ctx: GrammarContext)
    ensures
        good(t, pos, left_hand_side(t, pos, ctx), ctx),
    decreases left(t, pos), 23nat,
{
    reveal(left_hand_side);
    reveal(new_expression);
    reveal(primary);
    reveal(tail);
    let head = if keyword_at(t, pos, Keyword::New) {
        lemma_new_expression(t, pos, ctx);
        new_expression(t, pos, ctx)
    } else {
        lemma_primary(t, pos, ctx);
        primary(t, pos, ctx)
    };
    match head {
        Ok((h, n)) => {
            lemma_tail(t, pos + n, ctx, h, true);
        },
        Err(_) => {},
    }
}

/// An update expression that the parser builds is well-formed.
#[verifier::spinoff_prover]
pub proof fn lemma_update(t: Seq<TokenV>, pos: int, ctx: GrammarContext)
    ensures
        good(t, pos, update(t, pos, ctx), ctx),
    decreases left(t, pos), 24nat,
{
    reveal(update);
    reveal(unary);
    reveal(left_hand_side);
    if spec_prefix_update(kind_at(t, pos)) is Some {
        lemma_unary(t, pos + 1, ctx);
    } else {
        lemma_left_hand_side(t, pos, ctx);
    }
}

/// A unary expression that the parser builds is well-formed.
#[verifier::spinoff_prover]
pub proof fn lemma_unary(t: Seq<TokenV>, pos: int, ctx: GrammarContext)
    ensures
        good(t, pos, unary(t, pos, ctx), ctx),
    decreases left(t, pos), 25nat,
{
    reveal(unary);
    reveal(update);
    if spec_unary_operator(kind_at(t, pos)) is Some {
        lemma_unary(t, pos + 1, ctx);
    } else if keyword_at(t, pos, Keyword::Await) {
        if ctx.allow_await {
            lemma_unary(t, pos + 1, ctx);
        }
    } else {
        lemma_update(t, pos, ctx);
    }
}

/// An exponentiation that the parser builds is well-formed.
#[verifier::spinoff_prover]
pub proof fn lemma_exponentiation(t: Seq<TokenV>, pos: int, ctx: GrammarContext)
    ensures
        good(t, pos, exponentiation(t, pos, ctx), ctx),
    decreases left(t, pos), 26nat,
{
    reveal(exponentiation);
    reveal(unary);
    reveal(update);
    if spec_unary_operator(kind_at(t, pos)) is Some || keyword_at(t, pos, Keyword::Await) {
        lemma_unary(t, pos, ctx);
    } else {
        lemma_update(t, pos, ctx);
        match update(t, pos, ctx) {
            Ok((base, n)) => {
                if punctuator_at(t, pos + n, Punctuator::Exp) {
                    lemma_exponentiation(t, pos + n + 1, ctx);
                }
            },
            Err(_) => {},
        }
    }
}

/// A binary chain that the parser builds is well-formed.
#[verifier::spinoff_prover]
pub proof fn lemma_binary(t: Seq<TokenV>, pos: int, ctx: GrammarContext, min: u8)
    ensures
        good(t, pos, binary(t, pos, ctx, min), ctx),
    decreases left(t, pos), 27nat,
{
    reveal(binary);
    reveal(exponentiation);
    reveal(binary_rest);
    lemma_exponentiation(t, pos, ctx);
    match exponentiation(t, pos, ctx) {
        Ok((first, n)) => {
            lemma_binary_rest(t, pos + n, ctx, min, first);
        },
        Err(_) => {},
    }
}

/// The rest of a binary chain behind well-formed operands is well-formed.
#[verifier::spinoff_prover]
pub proof fn lemma_binary_rest(
    t: Seq<TokenV>,
    pos: int,
    ctx: GrammarContext,
    min: u8,
    operand: NodeV,
)
    requires
        we(operand, ctx),
    ensures
        good_rest(t, pos, binary_rest(t, pos, ctx, min, operand), ctx),
    decreases left(t, pos), 10nat,
{
    reveal(binary_rest);
    reveal(binary);
    match spec_binary_operator(kind_at(t, pos), ctx) {
        Some((op, prec)) => {
            if prec >= min {
                lemma_binary(t, pos + 1, ctx, (prec + 1) as u8);
                match binary(t, pos + 1, ctx, (prec + 1) as u8) {
                    Ok((right, n)) => {
                        lemma_binary_rest(
                            t,
                            pos + n + 1,
                            ctx,
                            min,
                            NodeV::BinOp(op, Box::new(operand), Box::new(right)),
                        );
                    },
                    Err(_) => {},
                }
            }
        },
        None => {},
    }
}

/// A conditional expression that the parser builds is well-formed.
#[verifier::spinoff_prover]
pub proof fn lemma_conditional(t: Seq<TokenV>, pos: int, ctx: GrammarContext)
    ensures
        good(t, pos, conditional(t, pos, ctx), ctx),
    decreases left(t, pos), 28nat,
{
    reveal(conditional);
    reveal(binary);
    reveal(assignment);
    lemma_binary(t, pos, ctx, 1);
    match binary(t, pos, ctx, 1) {
        Ok((c, n)) => {
            if punctuator_at(t, pos + n, Punctuator::Question) {
                lemma_assignment(t, pos + n + 1, ctx.spec_with_in(true));
                match assignment(t, pos + n + 1, ctx.spec_with_in(true)) {
                    Ok((a, m)) => {
                        if punctuator_at(t, pos + n + m + 1, Punctuator::Colon) {
                            lemma_assignment(t, pos + n + m + 2, ctx);
                        }
                    },
                    Err(_) => {},
                }
            }
        },
        Err(_) => {},
    }
}

/// A `yield` expression that the parser builds where `yield` is an
/// operator is well-formed.
#[verifier::spinoff_prover]
pub proof fn lemma_yield_expression(t: Seq<TokenV>, pos: int, ctx: GrammarContext)
    requires
        ctx.allow_yield,
    ensures
        good(t, pos, yield_expression(t, pos, ctx), ctx),
    decreases left(t, pos), 29nat,
{
    reveal(yield_expression);
    reveal(assignment);
    if keyword_at(t, pos, Keyword::Yield) && !(newline_at(t, pos + 1) || spec_ends_yield(
        kind_at(t, pos + 1),
    )) {
        if punctuator_at(t, pos + 1, Punctuator::Mul) {
            lemma_assignment(t, pos + 2, ctx);
        } else {
            lemma_assignment(t, pos + 1, ctx);
        }
    }
}

/// An assignment expression that the parser builds is well-formed.
#[verifier::spinoff_prover]
pub proof fn lemma_assignment(t: Seq<TokenV>, pos: int, ctx: GrammarContext)
    ensures
        good(t, pos, assignment(t, pos, ctx), ctx),
    decreases left(t, pos), 30nat,
{
    reveal(assignment);
    reveal(yield_expression);
    reveal(arrow_function);
    reveal(conditional);
    if keyword_at(t, pos, Keyword::Yield) {
        if ctx.allow_yield {
            lemma_yield_expression(t, pos, ctx);
        }
    } else if is_arrow_head(t, pos) {
        lemma_arrow_function(t, pos, ctx);
    } else {
        lemma_conditional(t, pos, ctx);
        match conditional(t, pos, ctx) {
            Ok((target, n)) => {
                if spec_assignment_operator(kind_at(t, pos + n)) is Some && is_assignable(target) {
                    lemma_assignment(t, pos + n + 1, ctx);
                }
            },
            Err(_) => {},
        }
    }
}

/// An expression that the parser builds is well-formed.
#[verifier::spinoff_prover]
pub proof fn lemma_expression(t: Seq<TokenV>, pos: int, ctx: GrammarContext)
    ensures
        good(t, pos, expression(t, pos, ctx), ctx),
    decreases left(t, pos), 40nat,
{
    reveal(expression);
    reveal(assignment);
    reveal(comma_rest);
    lemma_assignment(t, pos, ctx);
    match assignment(t, pos, ctx) {
        Ok((first, n)) => {
            lemma_comma_rest(t, pos + n, ctx, first);
        },
        Err(_) => {},
    }
}

/// The rest of an expression behind well-formed operands is well-formed.
#[verifier::spinoff_prover]
pub proof fn lemma_comma_rest(t: Seq<TokenV>, pos: int, ctx: GrammarContext, operand: NodeV)
    requires
        we(operand, ctx),
    ensures
        good_rest(t, pos, comma_rest(t, pos, ctx, operand), ctx),
    decreases left(t, pos), 10nat,
{
    reveal(comma_rest);
    reveal(assignment);
    if punctuator_at(t, pos, Punctuator::Comma) {
        lemma_assignment(t, pos + 1, ctx);
        match assignment(t, pos + 1, ctx) {
            Ok((right, n)) => {
                lemma_comma_rest(
                    t,
                    pos + n + 1,
                    ctx,
                    NodeV::BinOp(
                        crate::syntax::ast::op::BinOp::Comma,
                        Box::new(operand),
                        Box::new(right),
                    ),
                );
            },
            Err(_) => {},
        }
    }
}

/// The parameters that the parser builds are a well-formed parameter list.
#[verifier::spinoff_prover]
pub proof fn lemma_formal_parameters(
    t: Seq<TokenV>,
    pos: int,
    ctx: GrammarContext,
    done: Seq<FormalParameterV>,
)
    requires
        plain_parameters(done, ctx),
    ensures
        formal_parameters(t, pos, ctx, done) matches Ok((params, n)) ==> well_formed_parameters(
            params,
            ctx.allow_yield,
            ctx.allow_await,
        ) && passes(t, pos, n),
    decreases left(t, pos), 39nat,
{
    reveal(formal_parameters);
    reveal(assignment);
    if punctuator_at(t, pos, Punctuator::CloseParen) {
    } else if punctuator_at(t, pos, Punctuator::Spread) {
        let p = FormalParameterV { name: text_at(t, pos + 1), init: None, is_rest: true };
        let all = done.push(p);
        assert forall|i: int| 0 <= i < all.len() implies well_formed_parameter(
            #[trigger] all[i],
            ctx.allow_yield,
            ctx.allow_await,
        ) && (all[i].is_rest ==> i == all.len() - 1) by {
            if i < done.len() {
                assert(all[i] == done[i]);
            }
        }
    } else if kind_at(t, pos) == TokenKind::Identifier {
        let init: Parsed<Option<NodeV>> = if punctuator_at(t, pos + 1, Punctuator::Assign) {
            lemma_assignment(t, pos + 2, ctx.spec_with_in(true));
            match assignment(t, pos + 2, ctx.spec_with_in(true)) {
                Ok((e, n)) => Ok((Some(e), n + 2)),
                Err(e) => Err(e),
            }
        } else {
            Ok((None, 1nat))
        };
        match init {
            Ok((init, n)) => {
                let p = FormalParameterV { name: text_at(t, pos), init, is_rest: false };
                let all = done.push(p);
                assert forall|i: int| 0 <= i < all.len() implies well_formed_parameter(
                    #[trigger] all[i],
                    ctx.allow_yield,
                    ctx.allow_await,
                ) && !all[i].is_rest by {
                    if i < done.len() {
                        assert(all[i] == done[i]);
                    }
                }
                if punctuator_at(t, pos + n, Punctuator::Comma) {
                    lemma_formal_parameters(t, pos + n + 1, ctx, all);
                }
            },
            Err(_) => {},
        }
    }
}

/// A function body that the parser builds is well-formed.
#[verifier::spinoff_prover]
pub proof fn lemma_function_body(t: Seq<TokenV>, pos: int, ctx: GrammarContext)
    requires
        ctx.allow_return,
    ensures
        function_body(t, pos, ctx) matches Ok((body, n)) ==> well_formed_body(
            body,
            ctx.allow_yield,
            ctx.allow_await,
        ) && passes(t, pos, n),
    decreases left(t, pos), 19nat,
{
    reveal(function_body);
    reveal(statement_list);
    if punctuator_at(t, pos, Punctuator::OpenBlock) {
        lemma_statement_list(t, pos + 1, ctx, true, Seq::empty());
        match statement_list(t, pos + 1, ctx, true, Seq::empty()) {
            Ok((items, _)) => {
                lemma_hoisted_body(items, ctx.allow_yield, ctx.allow_await);
            },
            Err(_) => {},
        }
    }
}

/// A function that the parser builds is well-formed.
#[verifier::spinoff_prover]
pub proof fn lemma_function(t: Seq<TokenV>, pos: int, ctx: GrammarContext, declaration: bool)
    ensures
        good_function(t, pos, function(t, pos, ctx, declaration), declaration),
    decreases left(t, pos), 20nat,
{
    reveal(function);
    reveal(formal_parameters);
    reveal(function_body);
    let a: nat = if keyword_at(t, pos, Keyword::Async) {
        1
    } else {
        0
    };
    let g: nat = if punctuator_at(t, pos + a + 1, Punctuator::Mul) {
        1
    } else {
        0
    };
    let kind = crate::syntax::ast::op::FunctionKind::spec_from_flags(a == 1, g == 1);
    let named = kind_at(t, pos + a + g + 1) == TokenKind::Identifier;
    let head: nat = if named {
        a + g + 2
    } else {
        a + g + 1
    };
    let inner = GrammarContext::spec_function(kind);
    if keyword_at(t, pos + a, Keyword::Function) && punctuator_at(
        t,
        pos + head,
        Punctuator::OpenParen,
    ) {
        lemma_formal_parameters(t, pos + head + 1, inner, Seq::empty());
        match formal_parameters(t, pos + head + 1, inner, Seq::empty()) {
            Ok((params, n)) => {
                lemma_function_body(t, pos + head + n + 1, inner);
            },
            Err(_) => {},
        }
    }
}

/// An arrow function that the parser builds is well-formed.
#[verifier::spinoff_prover]
pub proof fn lemma_arrow_function(t: Seq<TokenV>, pos: int, ctx: GrammarContext)
    ensures
        good(t, pos, arrow_function(t, pos, ctx), ctx),
    decreases left(t, pos), 29nat,
{
    reveal(arrow_function);
    reveal(formal_parameters);
    reveal(function_body);
    reveal(assignment);
    let inner = ctx.spec_arrow();
    let head: Parsed<Seq<FormalParameterV>> = if kind_at(t, pos) == TokenKind::Identifier {
        let p = FormalParameterV { name: text_at(t, pos), init: None, is_rest: false };
        assert(well_formed_parameter(p, ctx.allow_yield, ctx.allow_await));
        assert forall|i: int| 0 <= i < seq![p].len() implies well_formed_parameter(
            #[trigger] seq![p][i],
            ctx.allow_yield,
            ctx.allow_await,
        ) && (seq![p][i].is_rest ==> i == seq![p].len() - 1) by {
            assert(seq![p][i] == p);
        }
        assert(well_formed_parameters(seq![p], ctx.allow_yield, ctx.allow_await));
        Ok((seq![p], 1nat))
    } else if punctuator_at(t, pos, Punctuator::OpenParen) {
        lemma_formal_parameters(t, pos + 1, inner, Seq::empty());
        crate::syntax::parser::grammar::shift(
            formal_parameters(t, pos + 1, inner, Seq::empty()),
            1,
        )
    } else {
        Err(
            crate::syntax::parser::grammar::unexpected(
                t,
                pos,
                crate::syntax::parser::error::Expected::Either(
                    Punctuator::OpenParen,
                    Punctuator::Arrow,
                ),
            ),
        )
    };
    match head {
        Ok((params, n)) => {
            if punctuator_at(t, pos + n, Punctuator::Arrow) && !has_duplicate_names(params) {
                if punctuator_at(t, pos + n + 1, Punctuator::OpenBlock) {
                    lemma_function_body(t, pos + n + 1, inner);
                } else {
                    lemma_assignment(t, pos + n + 1, inner.spec_with_in(ctx.allow_in));
                    match assignment(t, pos + n + 1, inner.spec_with_in(ctx.allow_in)) {
                        Ok((e, m)) => {
                            let items = seq![NodeV::Return(Some(Box::new(e)))];
                            assert(well_formed_optional(
                                Some(Box::new(e)),
                                ctx.allow_yield,
                                ctx.allow_await,
                            ));
                            assert(well_formed_statement(
                                items[0],
                                ctx.allow_yield,
                                ctx.allow_await,
                                true,
                            ));
                            assert forall|i: int| 0 <= i < items.len() implies
                                well_formed_statement(
                                #[trigger] items[i],
                                ctx.allow_yield,
                                ctx.allow_await,
                                true,
                            ) by {
                                assert(items[i] == items[0]);
                            }
                            lemma_hoisted_body(items, ctx.allow_yield, ctx.allow_await);
                        },
                        Err(_) => {},
                    }
                }
            }
        },
        Err(_) => {},
    }
}

/// The bindings that the parser builds are well-formed.
#[verifier::spinoff_prover]
pub proof fn lemma_declarations(
    t: Seq<TokenV>,
    pos: int,
    ctx: GrammarContext,
    binding: Binding,
    done: Seq<DeclarationV>,
)
    requires
        forall|i: int|
            0 <= i < done.len() ==> well_formed_binding(
                #[trigger] done[i],
                ctx.allow_yield,
                ctx.allow_await,
                binding == Binding::Const,
            ),
    ensures
        declarations(t, pos, ctx, binding, done) matches Ok((decls, n)) ==> well_formed_bindings(
            decls,
            ctx.allow_yield,
            ctx.allow_await,
            binding == Binding::Const,
        ) && passes(t, pos, n),
    decreases left(t, pos), 44nat,
{
    reveal(declarations);
    reveal(assignment);
    if kind_at(t, pos) == TokenKind::Identifier {
        let init: Parsed<Option<NodeV>> = if punctuator_at(t, pos + 1, Punctuator::Assign) {
            lemma_assignment(t, pos + 2, ctx);
            match assignment(t, pos + 2, ctx) {
                Ok((e, n)) => Ok((Some(e), n + 2)),
                Err(e) => Err(e),
            }
        } else if binding == Binding::Const {
            Err(
                crate::syntax::parser::error::ParseError::General {
                    rule: crate::syntax::parser::error::Rule::ConstInitializer,
                    position: crate::syntax::parser::cursor::position_at(t, pos),
                },
            )
        } else {
            Ok((None, 1nat))
        };
        match init {
            Ok((init, n)) => {
                let d = DeclarationV { name: text_at(t, pos), init };
                let all = done.push(d);
                assert forall|i: int| 0 <= i < all.len() implies well_formed_binding(
                    #[trigger] all[i],
                    ctx.allow_yield,
                    ctx.allow_await,
                    binding == Binding::Const,
                ) by {
                    if i < done.len() {
                        assert(all[i] == done[i]);
                    }
                }
                if punctuator_at(t, pos + n, Punctuator::Comma) {
                    lemma_declarations(t, pos + n + 1, ctx, binding, all);
                }
            },
            Err(_) => {},
        }
    }
}

/// A declaration that the parser builds is well-formed.
#[verifier::spinoff_prover]
pub proof fn lemma_declaration(t: Seq<TokenV>, pos: int, ctx: GrammarContext)
    ensures
        declaration(t, pos, ctx) matches Ok((d, n)) ==> is_declaration(d) && n >= 1 && passes(
            t,
            pos,
            n,
        ) && well_formed_declaration(d, ctx.allow_yield, ctx.allow_await),
    decreases left(t, pos), 45nat,
{
    reveal(declaration);
    reveal(declarations);
    match binding_at(t, pos) {
        Some(binding) => {
            lemma_declarations(t, pos + 1, ctx, binding, Seq::empty());
        },
        None => {},
    }
}

/// An expression in parentheses that the parser builds is well-formed.
#[verifier::spinoff_prover]
pub proof fn lemma_parenthesized(t: Seq<TokenV>, pos: int, ctx: GrammarContext)
    ensures
        good(t, pos, parenthesized(t, pos, ctx), ctx),
    decreases left(t, pos), 45nat,
{
    reveal(parenthesized);
    reveal(expression);
    if punctuator_at(t, pos, Punctuator::OpenParen) {
        lemma_expression(t, pos + 1, ctx.spec_with_in(true));
    }
}

/// A well-formed expression is an expression: as a statement, it is
/// well-formed, and ends with no `if`.
pub proof fn lemma_expression_is_statement(e: NodeV, y: bool, a: bool, r: bool)
    requires
        well_formed_expression(e, y, a),
    ensures
        well_formed_statement(e, y, a, r),
        !open_if(e),
        !is_declaration(e),
{
}

/// An `if` statement that the parser builds is well-formed.
#[verifier::spinoff_prover]
pub proof fn lemma_if_statement(t: Seq<TokenV>, pos: int, ctx: GrammarContext)
    ensures
        good_statement(t, pos, if_statement(t, pos, ctx), ctx),
    decreases left(t, pos), 46nat,
{
    reveal(if_statement);
    reveal(parenthesized);
    reveal(statement);
    if keyword_at(t, pos, Keyword::If) {
        lemma_parenthesized(t, pos + 1, ctx);
        match parenthesized(t, pos + 1, ctx) {
            Ok((c, n)) => {
                lemma_statement(t, pos + n + 1, ctx);
                match statement(t, pos + n + 1, ctx) {
                    Ok((a, m)) => {
                        if keyword_at(t, pos + n + m + 1, Keyword::Else) {
                            lemma_statement(t, pos + n + m + 2, ctx);
                        }
                    },
                    Err(_) => {},
                }
            },
            Err(_) => {},
        }
    }
}

/// A `while` statement that the parser builds is well-formed.
#[verifier::spinoff_prover]
pub proof fn lemma_while_statement(t: Seq<TokenV>, pos: int, ctx: GrammarContext)
    ensures
        good_statement(t, pos, while_statement(t, pos, ctx), ctx),
    decreases left(t, pos), 46nat,
{
    reveal(while_statement);
    reveal(parenthesized);
    reveal(statement);
    if keyword_at(t, pos, Keyword::While) {
        lemma_parenthesized(t, pos + 1, ctx);
        match parenthesized(t, pos + 1, ctx) {
            Ok((c, n)) => {
                lemma_statement(t, pos + n + 1, ctx);
            },
            Err(_) => {},
        }
    }
}

/// A `do` statement that the parser builds is well-formed.
#[verifier::spinoff_prover]
pub proof fn lemma_do_while_statement(t: Seq<TokenV>, pos: int, ctx: GrammarContext)
    ensures
        good_statement(t, pos, do_while_statement(t, pos, ctx), ctx),
    decreases left(t, pos), 46nat,
{
    reveal(do_while_statement);
    reveal(parenthesized);
    reveal(statement);
    if keyword_at(t, pos, Keyword::Do) {
        lemma_statement(t, pos + 1, ctx);
        match statement(t, pos + 1, ctx) {
            Ok((b, n)) => {
                if keyword_at(t, pos + n + 1, Keyword::While) {
                    lemma_parenthesized(t, pos + n + 2, ctx);
                }
            },
            Err(_) => {},
        }
    }
}

/// Whether the first part of the head of a `for` statement is well-formed.
pub open spec fn good_init(init: Option<NodeV>, ctx: GrammarContext) -> bool {
    match init {
        Some(i) => if is_declaration(i) {
            well_formed_declaration(i, ctx.allow_yield, ctx.allow_await)
        } else {
            we(i, ctx)
        },
        None => true,
    }
}

/// The first part of the head of a `for` statement is well-formed.
#[verifier::spinoff_prover]
pub proof fn lemma_for_init(t: Seq<TokenV>, pos: int, ctx: GrammarContext)
    ensures
        for_init(t, pos, ctx) matches Ok((init, n)) ==> good_init(init, ctx) && passes(t, pos, n),
    decreases left(t, pos), 46nat,
{
    reveal(for_init);
    reveal(declaration);
    reveal(expression);
    if punctuator_at(t, pos, Punctuator::Semicolon) {
    } else if binding_at(t, pos) is Some {
        lemma_declaration(t, pos, ctx.spec_with_in(false));
    } else {
        lemma_expression(t, pos, ctx.spec_with_in(false));
        match expression(t, pos, ctx.spec_with_in(false)) {
            Ok((e, _)) => {
                lemma_expression_is_statement(e, ctx.allow_yield, ctx.allow_await, false);
            },
            Err(_) => {},
        }
    }
}

/// A later part of the head of a `for` statement is well-formed.
#[verifier::spinoff_prover]
pub proof fn lemma_for_part(t: Seq<TokenV>, pos: int, ctx: GrammarContext, close: Punctuator)
    ensures
        for_part(t, pos, ctx, close) matches Ok((Some(e), _)) ==> we(e, ctx),
        for_part(t, pos, ctx, close) matches Ok((_, n)) ==> n >= 1 && passes(t, pos, n),
    decreases left(t, pos), 46nat,
{
    reveal(for_part);
    reveal(expression);
    if !punctuator_at(t, pos, close) {
        lemma_expression(t, pos, ctx.spec_with_in(true));
    }
}

/// A `for` statement that the parser builds is well-formed.
#[verifier::spinoff_prover]
pub proof fn lemma_for_statement(t: Seq<TokenV>, pos: int, ctx: GrammarContext)
    ensures
        good_statement(t, pos, for_statement(t, pos, ctx), ctx),
    decreases left(t, pos), 47nat,
{
    reveal(for_statement);
    reveal(for_init);
    reveal(for_part);
    reveal(statement);
    if keyword_at(t, pos, Keyword::For) && punctuator_at(t, pos + 1, Punctuator::OpenParen) {
        lemma_for_init(t, pos + 2, ctx);
        match for_init(t, pos + 2, ctx) {
            Ok((init, n)) => {
                if punctuator_at(t, pos + n + 2, Punctuator::Semicolon) {
                    lemma_for_part(t, pos + n + 3, ctx, Punctuator::Semicolon);
                    match for_part(t, pos + n + 3, ctx, Punctuator::Semicolon) {
                        Ok((condition, m)) => {
                            lemma_for_part(t, pos + n + m + 3, ctx, Punctuator::CloseParen);
                            match for_part(t, pos + n + m + 3, ctx, Punctuator::CloseParen) {
                                Ok((step, k)) => {
                                    lemma_statement(t, pos + n + m + k + 3, ctx);
                                    assert(well_formed_optional(
                                        crate::syntax::ast::node::boxed_option(condition),
                                        ctx.allow_yield,
                                        ctx.allow_await,
                                    ));
                                    assert(well_formed_optional(
                                        crate::syntax::ast::node::boxed_option(step),
                                        ctx.allow_yield,
                                        ctx.allow_await,
                                    ));
                                },
                                Err(_) => {},
                            }
                        },
                        Err(_) => {},
                    }
                }
            },
            Err(_) => {},
        }
    }
}

/// A `return` statement that the parser builds is well-formed.
#[verifier::spinoff_prover]
pub proof fn lemma_return_statement(t: Seq<TokenV>, pos: int, ctx: GrammarContext)
    ensures
        good_statement(t, pos, return_statement(t, pos, ctx), ctx),
    decreases left(t, pos), 46nat,
{
    reveal(return_statement);
    reveal(expression);
    assert(well_formed_optional(None, ctx.allow_yield, ctx.allow_await));
    if keyword_at(t, pos, Keyword::Return) && ctx.allow_return && terminator(t, pos + 1) is Err {
        lemma_expression(t, pos + 1, ctx.spec_with_in(true));
        match expression(t, pos + 1, ctx.spec_with_in(true)) {
            Ok((e, _)) => {
                assert(well_formed_optional(
                    Some(Box::new(e)),
                    ctx.allow_yield,
                    ctx.allow_await,
                ));
            },
            Err(_) => {},
        }
    }
}

/// A `throw` statement that the parser builds is well-formed.
#[verifier::spinoff_prover]
pub proof fn lemma_throw_statement(t: Seq<TokenV>, pos: int, ctx: GrammarContext)
    ensures
        good_statement(t, pos, throw_statement(t, pos, ctx), ctx),
    decreases left(t, pos), 46nat,
{
    reveal(throw_statement);
    reveal(expression);
    if keyword_at(t, pos, Keyword::Throw) && !newline_at(t, pos + 1) {
        lemma_expression(t, pos + 1, ctx.spec_with_in(true));
    }
}

/// The methods that the parser builds are well-formed.
#[verifier::spinoff_prover]
pub proof fn lemma_class_elements(t: Seq<TokenV>, pos: int, done: Seq<ClassMethodV>)
    requires
        well_formed_methods(done),
    ensures
        class_elements(t, pos, done) matches Ok((ms, n)) ==> well_formed_methods(ms) && n >= 1
            && passes(t, pos, n),
    decreases left(t, pos), 45nat,
{
    reveal(class_elements);
    reveal(formal_parameters);
    reveal(function_body);
    let inner = method_context();
    if punctuator_at(t, pos, Punctuator::CloseBlock) {
    } else if punctuator_at(t, pos, Punctuator::Semicolon) {
        lemma_class_elements(t, pos + 1, done);
    } else if kind_at(t, pos) == TokenKind::Identifier {
        let is_static = static_at(t, pos);
        let s: nat = if is_static {
            1
        } else {
            0
        };
        if punctuator_at(t, pos + s + 1, Punctuator::OpenParen) {
            lemma_formal_parameters(t, pos + s + 2, inner, Seq::empty());
            match formal_parameters(t, pos + s + 2, inner, Seq::empty()) {
                Ok((params, n)) => {
                    lemma_function_body(t, pos + s + n + 2, inner);
                    match function_body(t, pos + s + n + 2, inner) {
                        Ok((body, m)) => {
                            let method = ClassMethodV {
                                name: text_at(t, pos + s),
                                is_static,
                                params,
                                body,
                            };
                            let all = done.push(method);
                            assert(well_formed_method(method));
                            assert forall|i: int| 0 <= i < all.len() implies well_formed_method(
                                #[trigger] all[i],
                            ) by {
                                if i < done.len() {
                                    assert(all[i] == done[i]);
                                }
                            }
                            lemma_class_elements(t, pos + s + n + m + 2, all);
                        },
                        Err(_) => {},
                    }
                },
                Err(_) => {},
            }
        }
    }
}

/// The body of a class that the parser builds makes a well-formed class
/// declaration.
#[verifier::spinoff_prover]
pub proof fn lemma_class_body(
    t: Seq<TokenV>,
    pos: int,
    ctx: GrammarContext,
    name: Seq<u8>,
    heritage: Option<NodeV>,
)
    requires
        heritage matches Some(h) ==> we(h, ctx),
    ensures
        class_body(t, pos, name, heritage) matches Ok((s, n)) ==> ws(s, ctx) && n >= 1 && passes(
            t,
            pos,
            n,
        ) && !open_if(s),
    decreases left(t, pos), 46nat,
{
    reveal(class_body);
    reveal(class_elements);
    assert(well_formed_methods(Seq::<ClassMethodV>::empty()));
    assert(well_formed_optional(
        crate::syntax::ast::node::boxed_option(heritage),
        ctx.allow_yield,
        ctx.allow_await,
    ));
    if punctuator_at(t, pos, Punctuator::OpenBlock) {
        lemma_class_elements(t, pos + 1, Seq::empty());
    }
}

/// A class declaration that the parser builds is well-formed.
#[verifier::spinoff_prover]
pub proof fn lemma_class_declaration(t: Seq<TokenV>, pos: int, ctx: GrammarContext)
    ensures
        good_statement(t, pos, class_declaration(t, pos, ctx), ctx),
    decreases left(t, pos), 47nat,
{
    reveal(class_declaration);
    reveal(class_body);
    reveal(left_hand_side);
    if keyword_at(t, pos, Keyword::Class) && kind_at(t, pos + 1) == TokenKind::Identifier {
        if keyword_at(t, pos + 2, Keyword::Extends) {
            lemma_left_hand_side(t, pos + 3, ctx);
            match left_hand_side(t, pos + 3, ctx) {
                Ok((h, n)) => {
                    lemma_class_body(t, pos + n + 3, ctx, text_at(t, pos + 1), Some(h));
                },
                Err(_) => {},
            }
        } else {
            lemma_class_body(t, pos + 2, ctx, text_at(t, pos + 1), None);
        }
    }
}

/// A statement that the parser builds is well-formed, and no `else`
/// follows it where it ends with an `if` that has none.
#[verifier::spinoff_prover]
pub proof fn lemma_statement(t: Seq<TokenV>, pos: int, ctx: GrammarContext)
    ensures
        good_statement(t, pos, statement(t, pos, ctx), ctx),
    decreases left(t, pos), 50nat,
{
    reveal(statement);
    reveal(function);
    reveal(declaration);
    reveal(statement_list);
    reveal(if_statement);
    reveal(while_statement);
    reveal(do_while_statement);
    reveal(for_statement);
    reveal(return_statement);
    reveal(throw_statement);
    reveal(class_declaration);
    reveal(expression);
    if function_at(t, pos) {
        lemma_function(t, pos, ctx, true);
    } else if binding_at(t, pos) is Some {
        lemma_declaration(t, pos, ctx.spec_with_in(true));
    } else {
        match kind_at(t, pos) {
            TokenKind::Punctuator(Punctuator::OpenBlock) => {
                lemma_statement_list(t, pos + 1, ctx, true, Seq::empty());
            },
            TokenKind::Punctuator(Punctuator::Semicolon) => {},
            TokenKind::Keyword(Keyword::If) => lemma_if_statement(t, pos, ctx),
            TokenKind::Keyword(Keyword::While) => lemma_while_statement(t, pos, ctx),
            TokenKind::Keyword(Keyword::Do) => lemma_do_while_statement(t, pos, ctx),
            TokenKind::Keyword(Keyword::For) => lemma_for_statement(t, pos, ctx),
            TokenKind::Keyword(Keyword::Return) => lemma_return_statement(t, pos, ctx),
            TokenKind::Keyword(Keyword::Throw) => lemma_throw_statement(t, pos, ctx),
            TokenKind::Keyword(Keyword::Class) => lemma_class_declaration(t, pos, ctx),
            TokenKind::Keyword(Keyword::Break) => {},
            TokenKind::Keyword(Keyword::Continue) => {},
            _ => {
                lemma_expression(t, pos, ctx.spec_with_in(true));
                match expression(t, pos, ctx.spec_with_in(true)) {
                    Ok((e, _)) => {
                        lemma_expression_is_statement(
                            e,
                            ctx.allow_yield,
                            ctx.allow_await,
                            ctx.allow_return,
                        );
                    },
                    Err(_) => {},
                }
            },
        }
    }
}

/// The statements that the parser builds are well-formed.
#[verifier::spinoff_prover]
pub proof fn lemma_statement_list(
    t: Seq<TokenV>,
    pos: int,
    ctx: GrammarContext,
    in_block: bool,
    done: Seq<NodeV>,
)
    requires
        well_formed_statements(done, ctx.allow_yield, ctx.allow_await, ctx.allow_return),
    ensures
        good_statements(t, pos, statement_list(t, pos, ctx, in_block, done), ctx, in_block),
    decreases left(t, pos), 60nat,
{
    reveal(statement_list);
    reveal(statement);
    if in_block && punctuator_at(t, pos, Punctuator::CloseBlock) {
    } else if kind_at(t, pos) == TokenKind::EndOfInput {
    } else {
        lemma_statement(t, pos, ctx);
        match statement(t, pos, ctx) {
            Ok((s, n)) => {
                if n > 0 {
                    let all = done.push(s);
                    assert forall|i: int| 0 <= i < all.len() implies well_formed_statement(
                        #[trigger] all[i],
                        ctx.allow_yield,
                        ctx.allow_await,
                        ctx.allow_return,
                    ) by {
                        if i < done.len() {
                            assert(all[i] == done[i]);
                        }
                    }
                    lemma_statement_list(t, pos + n, ctx, in_block, all);
                }
            },
            Err(_) => {},
        }
    }
}

} // verus!
