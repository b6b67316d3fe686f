//! From a primary expression up through the levels of the expression
//! grammar: where the token behind an expression belongs to no level, every
//! level hands the expression on as it is.

use vstd::prelude::*;
use crate::syntax::ast::node::NodeV;
use crate::syntax::lexer::token::{Keyword, Punctuator, TokenKind, TokenV};
use crate::syntax::parser::cursor::kind_at;
use crate::syntax::parser::error::ParseError;
use crate::syntax::parser::expression::{
    assignment, binary, binary_rest, comma_rest, conditional, exponentiation, expression,
    expression_list, left_hand_side, new_arguments, new_expression, primary, spec_postfix_update,
    spec_prefix_update, tail, unary, update,
};
use crate::syntax::parser::function::is_arrow_head;
use crate::syntax::parser::grammar::{
    keyword_at, punctuator_at, spec_assignment_operator, spec_binary_operator,
    spec_unary_operator, GrammarContext, Parsed,
};

verus! {

/// The result of a production that built `e` from `n` tokens.
pub open spec fn built(e: NodeV, n: nat) -> Parsed<NodeV> {
    Ok((e, n))
}

/// Whether a printed expression can start with a token of this kind.
pub open spec fn starts_operand(k: TokenKind) -> bool {
    k is Identifier || k is BooleanLiteral || k is NullLiteral || k is NumericLiteral
        || k is StringLiteral || k is PatternLiteral || k == TokenKind::Keyword(Keyword::This)
        || k == TokenKind::Keyword(Keyword::Function) || k == TokenKind::Keyword(Keyword::Async)
        || k == TokenKind::Punctuator(Punctuator::OpenParen) || k == TokenKind::Punctuator(
        Punctuator::OpenBracket,
    )
}

/// Whether a token of this kind ends the expression before it at every
/// level: `)`, `]`, `;`, `,` and `:`.
pub open spec fn closes(k: TokenKind) -> bool {
    k == TokenKind::Punctuator(Punctuator::CloseParen) || k == TokenKind::Punctuator(
        Punctuator::CloseBracket,
    ) || k == TokenKind::Punctuator(Punctuator::Semicolon) || k == TokenKind::Punctuator(
        Punctuator::Comma,
    ) || k == TokenKind::Punctuator(Punctuator::Colon)
}

/// Whether a token of this kind goes on with the left-hand-side expression
/// before it.
pub open spec fn continues_tail(k: TokenKind) -> bool {
    k == TokenKind::Punctuator(Punctuator::Dot) || k == TokenKind::Punctuator(
        Punctuator::OpenBracket,
    ) || k == TokenKind::Punctuator(Punctuator::OpenParen)
}

/// Nothing that belongs to the expression follows it.
#[verifier::spinoff_prover]
pub proof fn lemma_tail_stops(
    t: Seq<TokenV>,
    pos: int,
    ctx: GrammarContext,
    node: NodeV,
    calls: bool,
)
    requires
        !punctuator_at(t, pos, Punctuator::Dot),
        !punctuator_at(t, pos, Punctuator::OpenBracket),
        calls ==> !punctuator_at(t, pos, Punctuator::OpenParen),
    ensures
        tail(t, pos, ctx, node, calls) == built(node, 0),
{
    reveal(tail);
}

/// A primary expression that nothing follows is a left-hand-side
/// expression.
#[verifier::spinoff_prover]
pub proof fn lemma_left_hand_side_of(t: Seq<TokenV>, pos: int, ctx: GrammarContext, e: NodeV, n: nat)
    requires
        primary(t, pos, ctx) == built(e, n),
        !keyword_at(t, pos, Keyword::New),
        !continues_tail(kind_at(t, pos + n)),
    ensures
        left_hand_side(t, pos, ctx) == built(e, n),
{
    reveal(left_hand_side);
    reveal(primary);
    reveal(tail);
    lemma_tail_stops(t, pos + n, ctx, e, true);
}

/// A left-hand-side expression without an update operator before or behind
/// it is an update expression.
#[verifier::spinoff_prover]
pub proof fn lemma_update_of(t: Seq<TokenV>, pos: int, ctx: GrammarContext, e: NodeV, n: nat)
    requires
        left_hand_side(t, pos, ctx) == built(e, n),
        spec_prefix_update(kind_at(t, pos)) is None,
        spec_postfix_update(kind_at(t, pos + n)) is None,
    ensures
        update(t, pos, ctx) == built(e, n),
{
    reveal(update);
    reveal(left_hand_side);
}

/// An update expression without a prefix operator is a unary expression.
#[verifier::spinoff_prover]
pub proof fn lemma_unary_of(t: Seq<TokenV>, pos: int, ctx: GrammarContext, e: NodeV, n: nat)
    requires
        update(t, pos, ctx) == built(e, n),
        spec_unary_operator(kind_at(t, pos)) is None,
        !keyword_at(t, pos, Keyword::Await),
    ensures
        unary(t, pos, ctx) == built(e, n),
{
    reveal(unary);
    reveal(update);
}

/// An update expression that no `**` follows is an exponentiation.
#[verifier::spinoff_prover]
pub proof fn lemma_exponentiation_of(t: Seq<TokenV>, pos: int, ctx: GrammarContext, e: NodeV, n: nat)
    requires
        update(t, pos, ctx) == built(e, n),
        spec_unary_operator(kind_at(t, pos)) is None,
        !keyword_at(t, pos, Keyword::Await),
        !punctuator_at(t, pos + n, Punctuator::Exp),
    ensures
        exponentiation(t, pos, ctx) == built(e, n),
{
    reveal(exponentiation);
    reveal(update);
}

/// A unary expression with its operator is an exponentiation.
#[verifier::spinoff_prover]
pub proof fn lemma_exponentiation_of_unary(
    t: Seq<TokenV>,
    pos: int,
    ctx: GrammarContext,
    e: NodeV,
    n: nat,
)
    requires
        unary(t, pos, ctx) == built(e, n),
        spec_unary_operator(kind_at(t, pos)) is Some || keyword_at(t, pos, Keyword::Await),
    ensures
        exponentiation(t, pos, ctx) == built(e, n),
{
    reveal(exponentiation);
    reveal(unary);
}

/// No binary operator goes on with the chain.
#[verifier::spinoff_prover]
pub proof fn lemma_binary_rest_stops(
    t: Seq<TokenV>,
    pos: int,
    ctx: GrammarContext,
    min: u8,
    e: NodeV,
)
    requires
        match spec_binary_operator(kind_at(t, pos), ctx) {
            Some((_, prec)) => prec < min,
            None => true,
        },
    ensures
        binary_rest(t, pos, ctx, min, e) == built(e, 0),
{
    reveal(binary_rest);
}

/// An exponentiation that no binary operator of the chain follows is the
/// chain.
#[verifier::spinoff_prover]
pub proof fn lemma_binary_of(
    t: Seq<TokenV>,
    pos: int,
    ctx: GrammarContext,
    min: u8,
    e: NodeV,
    n: nat,
)
    requires
        exponentiation(t, pos, ctx) == built(e, n),
        match spec_binary_operator(kind_at(t, pos + n), ctx) {
            Some((_, prec)) => prec < min,
            None => true,
        },
    ensures
        binary(t, pos, ctx, min) == built(e, n),
{
    reveal(binary);
    reveal(exponentiation);
    reveal(binary_rest);
    lemma_binary_rest_stops(t, pos + n, ctx, min, e);
}

/// A binary chain that no `?` follows is a conditional expression.
#[verifier::spinoff_prover]
pub proof fn lemma_conditional_of(t: Seq<TokenV>, pos: int, ctx: GrammarContext, e: NodeV, n: nat)
    requires
        binary(t, pos, ctx, 1) == built(e, n),
        !punctuator_at(t, pos + n, Punctuator::Question),
    ensures
        conditional(t, pos, ctx) == built(e, n),
{
    reveal(conditional);
    reveal(binary);
}

/// A conditional expression that no assignment operator follows is an
/// assignment expression.
#[verifier::spinoff_prover]
pub proof fn lemma_assignment_of(t: Seq<TokenV>, pos: int, ctx: GrammarContext, e: NodeV, n: nat)
    requires
        conditional(t, pos, ctx) == built(e, n),
        !keyword_at(t, pos, Keyword::Yield),
        !is_arrow_head(t, pos),
        spec_assignment_operator(kind_at(t, pos + n)) is None,
    ensures
        assignment(t, pos, ctx) == built(e, n),
{
    reveal(assignment);
    reveal(conditional);
}

/// No comma goes on with the expression.
#[verifier::spinoff_prover]
pub proof fn lemma_comma_rest_stops(t: Seq<TokenV>, pos: int, ctx: GrammarContext, e: NodeV)
    requires
        !punctuator_at(t, pos, Punctuator::Comma),
    ensures
        comma_rest(t, pos, ctx, e) == built(e, 0),
{
    reveal(comma_rest);
}

/// An assignment expression that no comma follows is an expression.
#[verifier::spinoff_prover]
pub proof fn lemma_expression_of(t: Seq<TokenV>, pos: int, ctx: GrammarContext, e: NodeV, n: nat)
    requires
        assignment(t, pos, ctx) == built(e, n),
        !punctuator_at(t, pos + n, Punctuator::Comma),
    ensures
        expression(t, pos, ctx) == built(e, n),
{
    reveal(expression);
    reveal(assignment);
    reveal(comma_rest);
    lemma_comma_rest_stops(t, pos + n, ctx, e);
}

/// A primary expression is an update expression, where the token behind it
/// does not go on with it.
#[verifier::spinoff_prover]
pub proof fn lemma_primary_to_update(t: Seq<TokenV>, pos: int, ctx: GrammarContext, e: NodeV, n: nat)
    requires
        primary(t, pos, ctx) == built(e, n),
        starts_operand(kind_at(t, pos)),
        !continues_tail(kind_at(t, pos + n)),
        spec_postfix_update(kind_at(t, pos + n)) is None,
    ensures
        left_hand_side(t, pos, ctx) == built(e, n),
        update(t, pos, ctx) == built(e, n),
        unary(t, pos, ctx) == built(e, n),
{
    lemma_left_hand_side_of(t, pos, ctx, e, n);
    lemma_update_of(t, pos, ctx, e, n);
    lemma_unary_of(t, pos, ctx, e, n);
}

/// An exponentiation is an assignment expression, and where no comma
/// follows an expression, where the token behind it ends it.
#[verifier::spinoff_prover]
pub proof fn lemma_exponentiation_to_expression(
    t: Seq<TokenV>,
    pos: int,
    ctx: GrammarContext,
    e: NodeV,
    n: nat,
)
    requires
        exponentiation(t, pos, ctx) == built(e, n),
        closes(kind_at(t, pos + n)),
        !keyword_at(t, pos, Keyword::Yield),
        !is_arrow_head(t, pos),
    ensures
        forall|min: u8| #[trigger] binary(t, pos, ctx, min) == built(e, n),
        conditional(t, pos, ctx) == built(e, n),
        assignment(t, pos, ctx) == built(e, n),
        !punctuator_at(t, pos + n, Punctuator::Comma) ==> expression(t, pos, ctx) == built(e, n),
{
    assert forall|min: u8| #[trigger] binary(t, pos, ctx, min) == built(e, n) by {
        lemma_binary_of(t, pos, ctx, min, e, n);
    }
    lemma_binary_of(t, pos, ctx, 1, e, n);
    lemma_conditional_of(t, pos, ctx, e, n);
    lemma_assignment_of(t, pos, ctx, e, n);
    if !punctuator_at(t, pos + n, Punctuator::Comma) {
        lemma_expression_of(t, pos, ctx, e, n);
    }
}

/// A primary expression is an expression of every level, where the token
/// behind it ends it.
#[verifier::spinoff_prover]
pub proof fn lemma_primary_to_expression(
    t: Seq<TokenV>,
    pos: int,
    ctx: GrammarContext,
    e: NodeV,
    n: nat,
)
    requires
        primary(t, pos, ctx) == built(e, n),
        starts_operand(kind_at(t, pos)),
        closes(kind_at(t, pos + n)),
        !is_arrow_head(t, pos),
    ensures
        left_hand_side(t, pos, ctx) == built(e, n),
        update(t, pos, ctx) == built(e, n),
        unary(t, pos, ctx) == built(e, n),
        exponentiation(t, pos, ctx) == built(e, n),
        forall|min: u8| #[trigger] binary(t, pos, ctx, min) == built(e, n),
        conditional(t, pos, ctx) == built(e, n),
        assignment(t, pos, ctx) == built(e, n),
        !punctuator_at(t, pos + n, Punctuator::Comma) ==> expression(t, pos, ctx) == built(e, n),
{
    lemma_primary_to_update(t, pos, ctx, e, n);
    lemma_exponentiation_of(t, pos, ctx, e, n);
    lemma_exponentiation_to_expression(t, pos, ctx, e, n);
}

/// The rule of a binary chain: its first operand, and the rest.
#[verifier::spinoff_prover]
pub proof fn lemma_binary_rule(
    t: Seq<TokenV>,
    pos: int,
    ctx: GrammarContext,
    min: u8,
    first: NodeV,
    n: nat,
)
    requires
        exponentiation(t, pos, ctx) == built(first, n),
    ensures
        binary(t, pos, ctx, min) == crate::syntax::parser::grammar::shift(
            binary_rest(t, pos + n, ctx, min, first),
            n,
        ),
{
    reveal(binary);
    reveal(exponentiation);
    reveal(binary_rest);
}

/// The rule of the rest of a binary chain: an operator of the chain, its
/// right operand, and the rest.
#[verifier::spinoff_prover]
pub proof fn lemma_binary_rest_rule(
    t: Seq<TokenV>,
    pos: int,
    ctx: GrammarContext,
    min: u8,
    operand: NodeV,
    right: NodeV,
    n: nat,
)
    requires
        spec_binary_operator(kind_at(t, pos), ctx) matches Some((_, prec)) && prec >= min
            && binary(t, pos + 1, ctx, (prec + 1) as u8) == built(right, n),
    ensures
        binary_rest(t, pos, ctx, min, operand) == crate::syntax::parser::grammar::shift(
            binary_rest(
                t,
                pos + n + 1,
                ctx,
                min,
                NodeV::BinOp(
                    spec_binary_operator(kind_at(t, pos), ctx).unwrap().0,
                    Box::new(operand),
                    Box::new(right),
                ),
            ),
            n + 1,
        ),
{
    reveal(binary_rest);
    reveal(binary);
}

/// The rule of the arguments of a `new` expression that are written.
#[verifier::spinoff_prover]
pub proof fn lemma_new_arguments_rule(
    t: Seq<TokenV>,
    pos: int,
    ctx: GrammarContext,
    callee: NodeV,
    args: Seq<NodeV>,
    n: nat,
)
    requires
        punctuator_at(t, pos, Punctuator::OpenParen),
        expression_list(t, pos + 1, ctx, Punctuator::CloseParen, Seq::empty()) == Ok::<
            (Seq<NodeV>, nat),
            ParseError,
        >((args, n)),
    ensures
        new_arguments(t, pos, ctx, callee) == built(NodeV::New(Box::new(callee), args), n + 1),
{
    reveal(new_arguments);
    reveal(expression_list);
}

/// The rule of a `new` expression whose constructor is a primary
/// expression without member accesses.
#[verifier::spinoff_prover]
pub proof fn lemma_new_rule(
    t: Seq<TokenV>,
    pos: int,
    ctx: GrammarContext,
    callee: NodeV,
    n: nat,
    e: NodeV,
    m: nat,
)
    requires
        keyword_at(t, pos, Keyword::New),
        !keyword_at(t, pos + 1, Keyword::New),
        primary(t, pos + 1, ctx) == built(callee, n),
        tail(t, pos + n + 1, ctx, callee, false) == built(callee, 0),
        new_arguments(t, pos + n + 1, ctx, callee) == built(e, m),
    ensures
        new_expression(t, pos, ctx) == built(e, n + m + 1),
{
    reveal(new_expression);
    reveal(primary);
    reveal(tail);
    reveal(new_arguments);
}

/// The rule of a left-hand-side expression that starts with `new`.
#[verifier::spinoff_prover]
pub proof fn lemma_left_hand_side_new_rule(
    t: Seq<TokenV>,
    pos: int,
    ctx: GrammarContext,
    head: NodeV,
    n: nat,
)
    requires
        keyword_at(t, pos, Keyword::New),
        new_expression(t, pos, ctx) == built(head, n),
        tail(t, pos + n, ctx, head, true) == built(head, 0),
    ensures
        left_hand_side(t, pos, ctx) == built(head, n),
{
    reveal(left_hand_side);
    reveal(new_expression);
    reveal(tail);
}

} // verus!
