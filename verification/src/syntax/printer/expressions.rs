//! Parsing the printed form of an expression gives the expression back.

use vstd::prelude::*;
use crate::syntax::ast::constant::{all_digits, decimal_value, ConstV};
use crate::syntax::ast::node::NodeV;
use crate::syntax::ast::op::{AssignOp, BinOp, NumOp, UnaryOp};
use crate::syntax::lexer::token::{Keyword, Punctuator, TokenKind, TokenV};
use crate::syntax::parser::cursor::kind_at;
use crate::syntax::parser::error::ParseError;
use crate::syntax::parser::expression::{
    assignment, binary, comma_rest, conditional, exponentiation, expression_list, left_hand_side,
    primary, spec_postfix_update, tail, unary, update, yield_expression,
};
use crate::syntax::parser::function::is_arrow_head;
use crate::syntax::parser::grammar::{
    keyword_at, punctuator_at, spec_assignment_operator, spec_binary_operator, spec_unary_operator,
    Assignment, GrammarContext,
};
use crate::syntax::printer::climb::{
    built, closes, continues_tail, lemma_assignment_of, lemma_binary_of, lemma_binary_rest_rule,
    lemma_binary_rest_stops, lemma_binary_rule, lemma_left_hand_side_new_rule,
    lemma_new_arguments_rule, lemma_new_rule, lemma_comma_rest_stops, lemma_conditional_of,
    lemma_exponentiation_of, lemma_exponentiation_of_unary, lemma_exponentiation_to_expression,
    lemma_expression_of, lemma_left_hand_side_of, lemma_primary_to_expression,
    lemma_primary_to_update, lemma_tail_stops, lemma_unary_of, lemma_update_of, starts_operand,
};
use crate::syntax::printer::form::{
    arguments, digits, group, inside, is_grouped, keyword, name, printed, punct, spec_assign_token,
    spec_binary_token, spec_unary_token, token,
};
use crate::syntax::printer::shape::{is_update, well_formed_expression, well_formed_expressions};
use crate::syntax::printer::window::{
    balanced, holds, lemma_balanced_append, lemma_balanced_empty, lemma_balanced_group,
    lemma_balanced_one, lemma_closing_paren_of_group, lemma_holds_at, lemma_holds_split,
};

verus! {

/// The printed form of an expression.
pub open spec fn printed_expression(e: NodeV) -> Seq<TokenV> {
    crate::syntax::printer::form::expression(e)
}

/// The expression of the grammar.
pub open spec fn parsed_expression(t: Seq<TokenV>, pos: int, ctx: GrammarContext) -> crate::syntax::parser::grammar::Parsed<
    NodeV,
> {
    crate::syntax::parser::expression::expression(t, pos, ctx)
}

/// The digits of a number write the number.
pub proof fn lemma_digits(n: nat)
    ensures
        all_digits(digits(n)),
        decimal_value(digits(n)) == n,
        digits(n).len() >= 1,
    decreases n,
{
    if n < 10 {
        reveal_with_fuel(decimal_value, 2);
        assert(digits(n).drop_last().len() == 0);
    } else {
        lemma_digits(n / 10);
        let s = digits(n / 10);
        let d = (48 + n % 10) as u8;
        assert(s.push(d).drop_last() =~= s);
        assert(s.push(d).last() == d);
    }
}

/// The token of a binary operator is that operator, where `in` is allowed.
pub proof fn lemma_binary_token(op: BinOp, ctx: GrammarContext)
    requires
        !(op is Assign),
        op != BinOp::Comma,
        op != BinOp::Num(NumOp::Exp),
        ctx.allow_in,
    ensures
        spec_binary_operator(spec_binary_token(op), ctx) matches Some((o, prec)) && o == op && 1
            <= prec <= 10,
        !spec_binary_token(op).spec_is_terminal(),
        !continues_tail(spec_binary_token(op)),
        spec_postfix_update(spec_binary_token(op)) is None,
        spec_binary_token(op) != TokenKind::Punctuator(Punctuator::Exp),
        spec_binary_token(op) != TokenKind::Punctuator(Punctuator::Arrow),
        spec_binary_token(op) != TokenKind::Punctuator(Punctuator::CloseParen),
{
}

/// The token of a compound assignment operator is that operator.
pub proof fn lemma_assign_token(op: AssignOp)
    ensures
        spec_assignment_operator(spec_assign_token(op)) == Some(Assignment::Compound(op)),
        forall|ctx: GrammarContext| #[trigger]
            spec_binary_operator(spec_assign_token(op), ctx) is None,
        !spec_assign_token(op).spec_is_terminal(),
        !continues_tail(spec_assign_token(op)),
        spec_postfix_update(spec_assign_token(op)) is None,
        spec_assign_token(op) != TokenKind::Punctuator(Punctuator::Exp),
        spec_assign_token(op) != TokenKind::Punctuator(Punctuator::Arrow),
        spec_assign_token(op) != TokenKind::Punctuator(Punctuator::Question),
        spec_assign_token(op) != TokenKind::Punctuator(Punctuator::CloseParen),
        spec_assign_token(op) != TokenKind::Punctuator(Punctuator::OpenParen),
{
}

/// The token of a prefix operator is that operator.
pub proof fn lemma_unary_token(op: UnaryOp)
    requires
        !is_update(op),
    ensures
        spec_unary_token(op) matches Some(k) && spec_unary_operator(k) == Some(op)
            && !k.spec_is_terminal() && k != TokenKind::Punctuator(Punctuator::OpenParen) && k
            != TokenKind::Punctuator(Punctuator::CloseParen) && k != TokenKind::Keyword(
            Keyword::Yield,
        ) && k != TokenKind::Identifier,
{
}

/// What parsing the printed form of the expression `e`, which stands in
/// `t` at `pos`, gives as a primary expression: `e` itself.
pub open spec fn comes_back(t: Seq<TokenV>, pos: int, ctx: GrammarContext, e: NodeV) -> bool {
    &&& primary(t, pos, ctx) == built(e, printed_expression(e).len())
    &&& starts_operand(kind_at(t, pos))
    &&& printed_expression(e).len() >= 1
    &&& balanced(printed_expression(e))
    &&& is_grouped(e) ==> balanced(inside(e))
    &&& kind_at(t, pos) is Identifier ==> printed_expression(e).len() == 1
    &&& kind_at(t, pos) == TokenKind::Punctuator(Punctuator::OpenParen) ==> is_grouped(e)
}

/// An expression whose printed form stands before a token that is no `=>`
/// is not the head of an arrow function.
pub proof fn lemma_not_arrow(t: Seq<TokenV>, pos: int, ctx: GrammarContext, e: NodeV)
    requires
        holds(t, pos, printed_expression(e)),
        comes_back(t, pos, ctx, e),
        !punctuator_at(t, pos + printed_expression(e).len(), Punctuator::Arrow),
    ensures
        !is_arrow_head(t, pos),
{
    if kind_at(t, pos) == TokenKind::Punctuator(Punctuator::OpenParen) {
        lemma_closing_paren_of_group(t, pos, inside(e));
    }
}

/// A name, `this`, a literal: one token.
pub proof fn lemma_atom(t: Seq<TokenV>, pos: int, ctx: GrammarContext, e: NodeV)
    requires
        e is Identifier || e is This || e is Const || e is Pattern,
        well_formed_expression(e, ctx.allow_yield, ctx.allow_await),
        holds(t, pos, printed_expression(e)),
    ensures
        comes_back(t, pos, ctx, e),
{
    reveal(primary);
    let w = printed_expression(e);
    lemma_holds_at(t, pos, w, 0);
    lemma_balanced_one(w);
    match e {
        NodeV::Const(ConstV::Int(i)) => {
            lemma_digits(i as nat);
        },
        _ => {},
    }
}

/// The inside of an expression in parentheses, closed by its `)`, comes
/// back as the expression.
#[verifier::spinoff_prover]
pub proof fn lemma_group(t: Seq<TokenV>, pos: int, ctx: GrammarContext, e: NodeV)
    requires
        is_grouped(e),
        holds(t, pos, printed_expression(e)),
        parsed_expression(t, pos + 1, ctx.spec_with_in(true)) == built(e, inside(e).len()),
        balanced(inside(e)),
    ensures
        comes_back(t, pos, ctx, e),
{
    reveal(primary);
    reveal(crate::syntax::parser::expression::expression);
    let w = printed_expression(e);
    let open = punct(Punctuator::OpenParen);
    let close = punct(Punctuator::CloseParen);
    lemma_holds_split(t, pos, open + inside(e), close);
    lemma_holds_split(t, pos, open, inside(e));
    lemma_holds_at(t, pos, open, 0);
    lemma_holds_at(t, pos + 1 + inside(e).len(), close, 0);
    lemma_balanced_group(inside(e));
}

/// What holds of an expression whose printed form stands before a token
/// that ends it: it comes back at every level of the grammar.
pub open spec fn comes_back_closed(t: Seq<TokenV>, pos: int, ctx: GrammarContext, e: NodeV) -> bool {
    let n = printed_expression(e).len();
    &&& comes_back(t, pos, ctx, e)
    &&& !is_arrow_head(t, pos)
    &&& left_hand_side(t, pos, ctx) == built(e, n)
    &&& update(t, pos, ctx) == built(e, n)
    &&& unary(t, pos, ctx) == built(e, n)
    &&& exponentiation(t, pos, ctx) == built(e, n)
    &&& forall|min: u8| #[trigger] binary(t, pos, ctx, min) == built(e, n)
    &&& conditional(t, pos, ctx) == built(e, n)
    &&& assignment(t, pos, ctx) == built(e, n)
    &&& !punctuator_at(t, pos + n, Punctuator::Comma) ==> parsed_expression(t, pos, ctx) == built(
        e,
        n,
    )
}

/// What holds of an expression whose printed form stands before an operator:
/// it comes back as an operand.
pub open spec fn comes_back_operand(t: Seq<TokenV>, pos: int, ctx: GrammarContext, e: NodeV) -> bool {
    let n = printed_expression(e).len();
    &&& comes_back(t, pos, ctx, e)
    &&& left_hand_side(t, pos, ctx) == built(e, n)
    &&& update(t, pos, ctx) == built(e, n)
    &&& unary(t, pos, ctx) == built(e, n)
    &&& !punctuator_at(t, pos + n, Punctuator::Exp) ==> exponentiation(t, pos, ctx) == built(e, n)
    &&& !punctuator_at(t, pos + n, Punctuator::Arrow) ==> !is_arrow_head(t, pos)
}

/// The printed form of a well-formed expression comes back as a primary
/// expression.
#[verifier::spinoff_prover]
pub proof fn lemma_expression(t: Seq<TokenV>, pos: int, ctx: GrammarContext, e: NodeV)
    requires
        well_formed_expression(e, ctx.allow_yield, ctx.allow_await),
        holds(t, pos, printed_expression(e)),
    ensures
        comes_back(t, pos, ctx, e),
    decreases e, 5nat,
{
    if is_grouped(e) {
        let open = punct(Punctuator::OpenParen);
        let close = punct(Punctuator::CloseParen);
        lemma_holds_split(t, pos, open + inside(e), close);
        lemma_holds_split(t, pos, open, inside(e));
        lemma_holds_at(t, pos + 1 + inside(e).len(), close, 0);
        lemma_inside(t, pos + 1, ctx.spec_with_in(true), e);
        lemma_group(t, pos, ctx, e);
    } else if e is ArrayDecl {
        lemma_array(t, pos, ctx, e);
    } else if e is FunctionExpr {
        crate::syntax::printer::functions::lemma_function_expression(t, pos, ctx, e);
    } else {
        lemma_atom(t, pos, ctx, e);
    }
}

/// The printed form of a well-formed expression before a token that ends
/// it comes back at every level.
#[verifier::spinoff_prover]
pub proof fn lemma_closed(t: Seq<TokenV>, pos: int, ctx: GrammarContext, e: NodeV)
    requires
        well_formed_expression(e, ctx.allow_yield, ctx.allow_await),
        holds(t, pos, printed_expression(e)),
        closes(kind_at(t, pos + printed_expression(e).len())),
    ensures
        comes_back_closed(t, pos, ctx, e),
    decreases e, 7nat,
{
    lemma_expression(t, pos, ctx, e);
    lemma_not_arrow(t, pos, ctx, e);
    lemma_primary_to_expression(t, pos, ctx, e, printed_expression(e).len());
}

/// The printed form of a well-formed expression before an operator comes
/// back as an operand.
#[verifier::spinoff_prover]
pub proof fn lemma_operand(t: Seq<TokenV>, pos: int, ctx: GrammarContext, e: NodeV)
    requires
        well_formed_expression(e, ctx.allow_yield, ctx.allow_await),
        holds(t, pos, printed_expression(e)),
        !continues_tail(kind_at(t, pos + printed_expression(e).len())),
        spec_postfix_update(kind_at(t, pos + printed_expression(e).len())) is None,
    ensures
        comes_back_operand(t, pos, ctx, e),
    decreases e, 7nat,
{
    let n = printed_expression(e).len();
    lemma_expression(t, pos, ctx, e);
    lemma_primary_to_update(t, pos, ctx, e, n);
    if !punctuator_at(t, pos + n, Punctuator::Exp) {
        lemma_exponentiation_of(t, pos, ctx, e, n);
    }
    if !punctuator_at(t, pos + n, Punctuator::Arrow) {
        lemma_not_arrow(t, pos, ctx, e);
    }
}

/// From a binary chain before a `)` to the expression.
pub proof fn lemma_binary_to_expression(t: Seq<TokenV>, pos: int, ctx: GrammarContext, e: NodeV, n: nat)
    requires
        binary(t, pos, ctx, 1) == built(e, n),
        punctuator_at(t, pos + n, Punctuator::CloseParen),
        !keyword_at(t, pos, Keyword::Yield),
        !is_arrow_head(t, pos),
    ensures
        parsed_expression(t, pos, ctx) == built(e, n),
{
    lemma_conditional_of(t, pos, ctx, e, n);
    lemma_assignment_of(t, pos, ctx, e, n);
    lemma_expression_of(t, pos, ctx, e, n);
}

/// What is asked of the inside of an expression in parentheses.
pub open spec fn inside_stands(t: Seq<TokenV>, pos: int, ctx: GrammarContext, e: NodeV) -> bool {
    &&& well_formed_expression(e, ctx.allow_yield, ctx.allow_await)
    &&& ctx.allow_in
    &&& holds(t, pos, inside(e))
    &&& punctuator_at(t, pos + inside(e).len(), Punctuator::CloseParen)
}

/// What is shown of the inside of an expression in parentheses.
pub open spec fn inside_comes_back(t: Seq<TokenV>, pos: int, ctx: GrammarContext, e: NodeV) -> bool {
    &&& parsed_expression(t, pos, ctx) == built(e, inside(e).len())
    &&& balanced(inside(e))
}

/// The inside of a well-formed expression in parentheses comes back as the
/// expression.
#[verifier::spinoff_prover]
pub proof fn lemma_inside(t: Seq<TokenV>, pos: int, ctx: GrammarContext, e: NodeV)
    requires
        is_grouped(e),
        inside_stands(t, pos, ctx, e),
    ensures
        inside_comes_back(t, pos, ctx, e),
    decreases e, 4nat,
{
    match e {
        NodeV::UnaryOp(op, _) => {
            if op == UnaryOp::IncrementPre || op == UnaryOp::DecrementPre {
                lemma_inside_prefix_update(t, pos, ctx, e);
            } else if op == UnaryOp::IncrementPost || op == UnaryOp::DecrementPost {
                lemma_inside_postfix_update(t, pos, ctx, e);
            } else {
                lemma_inside_unary(t, pos, ctx, e);
            }
        },
        NodeV::BinOp(op, _, _) => {
            if op is Assign {
                lemma_inside_assign(t, pos, ctx, e);
            } else if op == BinOp::Comma {
                lemma_inside_comma(t, pos, ctx, e);
            } else if op == BinOp::Num(NumOp::Exp) {
                lemma_inside_power(t, pos, ctx, e);
            } else {
                lemma_inside_binary(t, pos, ctx, e);
            }
        },
        NodeV::Assign(_, _) => lemma_inside_assign(t, pos, ctx, e),
        NodeV::ConditionalOp(_, _, _) => lemma_inside_conditional(t, pos, ctx, e),
        NodeV::Call(_, _) => lemma_inside_call(t, pos, ctx, e),
        NodeV::New(_, _) => lemma_inside_new(t, pos, ctx, e),
        NodeV::GetConstField(_, _) => lemma_inside_member(t, pos, ctx, e),
        NodeV::GetField(_, _) => lemma_inside_index(t, pos, ctx, e),
        NodeV::Await(_) => lemma_inside_await(t, pos, ctx, e),
        NodeV::Yield(_, _) => lemma_inside_yield(t, pos, ctx, e),
        NodeV::ArrowFunctionDecl(_, _) => crate::syntax::printer::functions::lemma_inside_arrow(
            t,
            pos,
            ctx,
            e,
        ),
        _ => {},
    }
}

/// A prefix operator and its operand.
#[verifier::spinoff_prover]
pub proof fn lemma_inside_unary(t: Seq<TokenV>, pos: int, ctx: GrammarContext, e: NodeV)
    requires
        e is UnaryOp,
        !is_update(e->UnaryOp_0),
        inside_stands(t, pos, ctx, e),
    ensures
        inside_comes_back(t, pos, ctx, e),
    decreases e, 3nat,
{
    match e {
        NodeV::UnaryOp(op, x) => {
            let x = *x;
            let k = spec_unary_token(op).unwrap();
            let nx = printed_expression(x).len();
            lemma_unary_token(op);
            lemma_holds_split(t, pos, token(k), printed_expression(x));
            lemma_holds_at(t, pos, token(k), 0);
            lemma_closed(t, pos + 1, ctx, x);
            assert(unary(t, pos, ctx) == built(e, nx + 1)) by {
                reveal(unary);
            }
            lemma_exponentiation_of_unary(t, pos, ctx, e, nx + 1);
            lemma_exponentiation_to_expression(t, pos, ctx, e, nx + 1);
            lemma_balanced_one(token(k));
            lemma_balanced_append(token(k), printed_expression(x));
        },
        _ => {},
    }
}

/// `await` and its operand.
#[verifier::spinoff_prover]
pub proof fn lemma_inside_await(t: Seq<TokenV>, pos: int, ctx: GrammarContext, e: NodeV)
    requires
        e is Await,
        inside_stands(t, pos, ctx, e),
    ensures
        inside_comes_back(t, pos, ctx, e),
    decreases e, 3nat,
{
    match e {
        NodeV::Await(x) => {
            let x = *x;
            let k = keyword(Keyword::Await);
            let nx = printed_expression(x).len();
            lemma_holds_split(t, pos, k, printed_expression(x));
            lemma_holds_at(t, pos, k, 0);
            lemma_closed(t, pos + 1, ctx, x);
            assert(unary(t, pos, ctx) == built(e, nx + 1)) by {
                reveal(unary);
            }
            lemma_exponentiation_of_unary(t, pos, ctx, e, nx + 1);
            lemma_exponentiation_to_expression(t, pos, ctx, e, nx + 1);
            lemma_balanced_one(k);
            lemma_balanced_append(k, printed_expression(x));
        },
        _ => {},
    }
}

/// `++` or `--` before its operand.
#[verifier::spinoff_prover]
pub proof fn lemma_inside_prefix_update(t: Seq<TokenV>, pos: int, ctx: GrammarContext, e: NodeV)
    requires
        e is UnaryOp,
        e->UnaryOp_0 == UnaryOp::IncrementPre || e->UnaryOp_0 == UnaryOp::DecrementPre,
        inside_stands(t, pos, ctx, e),
    ensures
        inside_comes_back(t, pos, ctx, e),
    decreases e, 3nat,
{
    match e {
        NodeV::UnaryOp(op, x) => {
            let x = *x;
            let k = punct(
                if op == UnaryOp::IncrementPre {
                    Punctuator::Inc
                } else {
                    Punctuator::Dec
                },
            );
            let nx = printed_expression(x).len();
            lemma_holds_split(t, pos, k, printed_expression(x));
            lemma_holds_at(t, pos, k, 0);
            lemma_closed(t, pos + 1, ctx, x);
            assert(update(t, pos, ctx) == built(e, nx + 1)) by {
                reveal(update);
                reveal(unary);
            }
            lemma_unary_of(t, pos, ctx, e, nx + 1);
            lemma_exponentiation_of(t, pos, ctx, e, nx + 1);
            lemma_exponentiation_to_expression(t, pos, ctx, e, nx + 1);
            lemma_balanced_one(k);
            lemma_balanced_append(k, printed_expression(x));
        },
        _ => {},
    }
}

/// `++` or `--` behind its operand.
#[verifier::spinoff_prover]
pub proof fn lemma_inside_postfix_update(t: Seq<TokenV>, pos: int, ctx: GrammarContext, e: NodeV)
    requires
        e is UnaryOp,
        e->UnaryOp_0 == UnaryOp::IncrementPost || e->UnaryOp_0 == UnaryOp::DecrementPost,
        inside_stands(t, pos, ctx, e),
    ensures
        inside_comes_back(t, pos, ctx, e),
    decreases e, 3nat,
{
    match e {
        NodeV::UnaryOp(op, x) => {
            let x = *x;
            let k = punct(
                if op == UnaryOp::IncrementPost {
                    Punctuator::Inc
                } else {
                    Punctuator::Dec
                },
            );
            let nx = printed_expression(x).len();
            lemma_holds_split(t, pos, printed_expression(x), k);
            lemma_holds_at(t, pos + nx, k, 0);
            lemma_expression(t, pos, ctx, x);
            lemma_left_hand_side_of(t, pos, ctx, x, nx);
            lemma_not_arrow(t, pos, ctx, x);
            assert(update(t, pos, ctx) == built(e, nx + 1)) by {
                reveal(update);
                reveal(left_hand_side);
            }
            lemma_unary_of(t, pos, ctx, e, nx + 1);
            lemma_exponentiation_of(t, pos, ctx, e, nx + 1);
            lemma_exponentiation_to_expression(t, pos, ctx, e, nx + 1);
            lemma_balanced_one(k);
            lemma_balanced_append(printed_expression(x), k);
        },
        _ => {},
    }
}

/// A left-associative binary operator between its operands.
#[verifier::spinoff_prover]
pub proof fn lemma_inside_binary(t: Seq<TokenV>, pos: int, ctx: GrammarContext, e: NodeV)
    requires
        e is BinOp,
        !(e->BinOp_0 is Assign),
        e->BinOp_0 != BinOp::Comma,
        e->BinOp_0 != BinOp::Num(NumOp::Exp),
        inside_stands(t, pos, ctx, e),
    ensures
        inside_comes_back(t, pos, ctx, e),
    decreases e, 3nat,
{
    match e {
        NodeV::BinOp(op, l, r) => {
            let l = *l;
            let r = *r;
            let k = token(spec_binary_token(op));
            let nl = printed_expression(l).len();
            let nr = printed_expression(r).len();
            lemma_binary_token(op, ctx);
            lemma_holds_split(t, pos, printed_expression(l) + k, printed_expression(r));
            lemma_holds_split(t, pos, printed_expression(l), k);
            lemma_holds_at(t, pos + nl, k, 0);
            lemma_operand(t, pos, ctx, l);
            lemma_closed(t, pos + nl + 1, ctx, r);
            let prec = spec_binary_operator(spec_binary_token(op), ctx).unwrap().1;
            assert(binary(t, pos + nl + 1, ctx, (prec + 1) as u8) == built(r, nr));
            lemma_binary_rest_rule(t, pos + nl, ctx, 1, l, r, nr);
            lemma_binary_rest_stops(t, pos + nl + nr + 1, ctx, 1, e);
            lemma_binary_rule(t, pos, ctx, 1, l, nl);
            assert(binary(t, pos, ctx, 1) == built(e, nl + nr + 1));
            lemma_binary_to_expression(t, pos, ctx, e, nl + nr + 1);
            lemma_balanced_one(k);
            lemma_balanced_append(printed_expression(l), k);
            lemma_balanced_append(printed_expression(l) + k, printed_expression(r));
        },
        _ => {},
    }
}

/// `**` between its operands.
#[verifier::spinoff_prover]
pub proof fn lemma_inside_power(t: Seq<TokenV>, pos: int, ctx: GrammarContext, e: NodeV)
    requires
        e is BinOp,
        e->BinOp_0 == BinOp::Num(NumOp::Exp),
        inside_stands(t, pos, ctx, e),
    ensures
        inside_comes_back(t, pos, ctx, e),
    decreases e, 3nat,
{
    match e {
        NodeV::BinOp(op, l, r) => {
            let l = *l;
            let r = *r;
            let k = token(spec_binary_token(op));
            let nl = printed_expression(l).len();
            let nr = printed_expression(r).len();
            lemma_holds_split(t, pos, printed_expression(l) + k, printed_expression(r));
            lemma_holds_split(t, pos, printed_expression(l), k);
            lemma_holds_at(t, pos + nl, k, 0);
            lemma_operand(t, pos, ctx, l);
            lemma_closed(t, pos + nl + 1, ctx, r);
            assert(exponentiation(t, pos, ctx) == built(e, nl + nr + 1)) by {
                reveal(exponentiation);
                reveal(update);
            }
            lemma_exponentiation_to_expression(t, pos, ctx, e, nl + nr + 1);
            lemma_balanced_one(k);
            lemma_balanced_append(printed_expression(l), k);
            lemma_balanced_append(printed_expression(l) + k, printed_expression(r));
        },
        _ => {},
    }
}

/// An assignment operator between the target and the value.
#[verifier::spinoff_prover]
pub proof fn lemma_inside_assign(t: Seq<TokenV>, pos: int, ctx: GrammarContext, e: NodeV)
    requires
        e is Assign || (e is BinOp && e->BinOp_0 is Assign),
        inside_stands(t, pos, ctx, e),
    ensures
        inside_comes_back(t, pos, ctx, e),
    decreases e, 3nat,
{
    let (l, r, kind, op) = match e {
        NodeV::BinOp(BinOp::Assign(o), l, r) => (
            *l,
            *r,
            spec_assign_token(o),
            Assignment::Compound(o),
        ),
        NodeV::Assign(l, r) => (
            *l,
            *r,
            TokenKind::Punctuator(Punctuator::Assign),
            Assignment::Plain,
        ),
        _ => arbitrary(),
    };
    let k = token(kind);
    let nl = printed_expression(l).len();
    let nr = printed_expression(r).len();
    match op {
        Assignment::Compound(o) => {
            lemma_assign_token(o);
            assert(spec_binary_operator(spec_assign_token(o), ctx) is None);
        },
        _ => {},
    }
    assert(inside(e) == printed_expression(l) + k + printed_expression(r));
    lemma_holds_split(t, pos, printed_expression(l) + k, printed_expression(r));
    lemma_holds_split(t, pos, printed_expression(l), k);
    lemma_holds_at(t, pos + nl, k, 0);
    lemma_operand(t, pos, ctx, l);
    lemma_binary_of(t, pos, ctx, 1, l, nl);
    lemma_conditional_of(t, pos, ctx, l, nl);
    lemma_closed(t, pos + nl + 1, ctx, r);
    assert(assignment(t, pos, ctx) == built(e, nl + nr + 1)) by {
        reveal(assignment);
        reveal(conditional);
    }
    lemma_expression_of(t, pos, ctx, e, nl + nr + 1);
    lemma_balanced_one(k);
    lemma_balanced_append(printed_expression(l), k);
    lemma_balanced_append(printed_expression(l) + k, printed_expression(r));
}

/// A comma between two expressions.
#[verifier::spinoff_prover]
pub proof fn lemma_inside_comma(t: Seq<TokenV>, pos: int, ctx: GrammarContext, e: NodeV)
    requires
        e is BinOp,
        e->BinOp_0 == BinOp::Comma,
        inside_stands(t, pos, ctx, e),
    ensures
        inside_comes_back(t, pos, ctx, e),
    decreases e, 3nat,
{
    match e {
        NodeV::BinOp(op, l, r) => {
            let l = *l;
            let r = *r;
            let k = token(spec_binary_token(op));
            let nl = printed_expression(l).len();
            let nr = printed_expression(r).len();
            lemma_holds_split(t, pos, printed_expression(l) + k, printed_expression(r));
            lemma_holds_split(t, pos, printed_expression(l), k);
            lemma_holds_at(t, pos + nl, k, 0);
            lemma_closed(t, pos, ctx, l);
            lemma_closed(t, pos + nl + 1, ctx, r);
            lemma_comma_rest_stops(t, pos + nl + nr + 1, ctx, e);
            assert(comma_rest(t, pos + nl, ctx, l) == built(e, nr + 1)) by {
                reveal(comma_rest);
                reveal(assignment);
            }
            assert(parsed_expression(t, pos, ctx) == built(e, nl + nr + 1)) by {
                reveal(crate::syntax::parser::expression::expression);
                reveal(assignment);
                reveal(comma_rest);
            }
            lemma_balanced_one(k);
            lemma_balanced_append(printed_expression(l), k);
            lemma_balanced_append(printed_expression(l) + k, printed_expression(r));
        },
        _ => {},
    }
}

/// A condition with its two branches.
#[verifier::spinoff_prover]
pub proof fn lemma_inside_conditional(t: Seq<TokenV>, pos: int, ctx: GrammarContext, e: NodeV)
    requires
        e is ConditionalOp,
        inside_stands(t, pos, ctx, e),
    ensures
        inside_comes_back(t, pos, ctx, e),
    decreases e, 3nat,
{
    match e {
        NodeV::ConditionalOp(c, a, b) => {
            let c = *c;
            let a = *a;
            let b = *b;
            let pc = printed_expression(c);
            let pa = printed_expression(a);
            let pb = printed_expression(b);
            let q = punct(Punctuator::Question);
            let colon = punct(Punctuator::Colon);
            lemma_holds_split(t, pos, pc + q + pa + colon, pb);
            lemma_holds_split(t, pos, pc + q + pa, colon);
            lemma_holds_split(t, pos, pc + q, pa);
            lemma_holds_split(t, pos, pc, q);
            lemma_holds_at(t, pos + pc.len(), q, 0);
            lemma_holds_at(t, pos + pc.len() + 1 + pa.len(), colon, 0);
            lemma_operand(t, pos, ctx, c);
            lemma_binary_of(t, pos, ctx, 1, c, pc.len());
            lemma_closed(t, pos + pc.len() + 1, ctx.spec_with_in(true), a);
            lemma_closed(t, pos + pc.len() + pa.len() + 2, ctx, b);
            let n = pc.len() + pa.len() + pb.len() + 2;
            assert(conditional(t, pos, ctx) == built(e, n)) by {
                reveal(conditional);
                reveal(binary);
                reveal(assignment);
            }
            lemma_assignment_of(t, pos, ctx, e, n);
            lemma_expression_of(t, pos, ctx, e, n);
            lemma_balanced_one(q);
            lemma_balanced_one(colon);
            lemma_balanced_append(pc, q);
            lemma_balanced_append(pc + q, pa);
            lemma_balanced_append(pc + q + pa, colon);
            lemma_balanced_append(pc + q + pa + colon, pb);
        },
        _ => {},
    }
}

/// From a left-hand-side expression before a `)` to the expression.
pub proof fn lemma_left_hand_side_to_expression(
    t: Seq<TokenV>,
    pos: int,
    ctx: GrammarContext,
    e: NodeV,
    n: nat,
)
    requires
        left_hand_side(t, pos, ctx) == built(e, n),
        punctuator_at(t, pos + n, Punctuator::CloseParen),
        starts_operand(kind_at(t, pos)) || keyword_at(t, pos, Keyword::New),
        !is_arrow_head(t, pos),
    ensures
        parsed_expression(t, pos, ctx) == built(e, n),
{
    lemma_update_of(t, pos, ctx, e, n);
    lemma_exponentiation_of(t, pos, ctx, e, n);
    lemma_exponentiation_to_expression(t, pos, ctx, e, n);
}

/// A list of well-formed expressions, closed by `close`, comes back behind
/// the expressions that were parsed before it.
#[verifier::spinoff_prover]
pub proof fn lemma_arguments(
    t: Seq<TokenV>,
    pos: int,
    ctx: GrammarContext,
    items: Seq<NodeV>,
    close: Punctuator,
    done: Seq<NodeV>,
)
    requires
        well_formed_expressions(items, ctx.allow_yield, ctx.allow_await),
        holds(t, pos, arguments(items)),
        punctuator_at(t, pos + arguments(items).len(), close),
        close == Punctuator::CloseParen || close == Punctuator::CloseBracket,
    ensures
        expression_list(t, pos, ctx, close, done) == Ok::<(Seq<NodeV>, nat), ParseError>(
            (done + items, (arguments(items).len() + 1) as nat),
        ),
        balanced(arguments(items)),
    decreases items, 8nat,
{
    let inner = ctx.spec_with_in(true);
    if items.len() == 0 {
        reveal(expression_list);
        assert(done + items =~= done);
        lemma_balanced_empty();
    } else {
        let first = items[0];
        let n0 = printed_expression(first).len();
        if items.len() == 1 {
            lemma_closed(t, pos, inner, first);
            assert(done.push(first) =~= done + items);
            assert(expression_list(t, pos, ctx, close, done) == Ok::<(Seq<NodeV>, nat), ParseError>(
                (done + items, (n0 + 1) as nat),
            )) by {
                reveal(expression_list);
                reveal(assignment);
            }
        } else {
            let rest = items.subrange(1, items.len() as int);
            let comma = punct(Punctuator::Comma);
            lemma_holds_split(t, pos, printed_expression(first) + comma, arguments(rest));
            lemma_holds_split(t, pos, printed_expression(first), comma);
            lemma_holds_at(t, pos + n0, comma, 0);
            lemma_closed(t, pos, inner, first);
            assert forall|i: int| 0 <= i < rest.len() implies well_formed_expression(
                #[trigger] rest[i],
                ctx.allow_yield,
                ctx.allow_await,
            ) by {
                assert(rest[i] == items[i + 1]);
            }
            lemma_arguments(t, pos + n0 + 1, ctx, rest, close, done.push(first));
            assert(done.push(first) + rest =~= done + items);
            assert(expression_list(t, pos, ctx, close, done) == Ok::<(Seq<NodeV>, nat), ParseError>(
                (done + items, (arguments(items).len() + 1) as nat),
            )) by {
                reveal(expression_list);
                reveal(assignment);
            }
            lemma_balanced_one(comma);
            lemma_balanced_append(printed_expression(first), comma);
            lemma_balanced_append(printed_expression(first) + comma, arguments(rest));
        }
    }
}

/// An array literal.
#[verifier::spinoff_prover]
pub proof fn lemma_array(t: Seq<TokenV>, pos: int, ctx: GrammarContext, e: NodeV)
    requires
        e is ArrayDecl,
        well_formed_expression(e, ctx.allow_yield, ctx.allow_await),
        holds(t, pos, printed_expression(e)),
    ensures
        comes_back(t, pos, ctx, e),
    decreases e, 3nat,
{
    match e {
        NodeV::ArrayDecl(items) => {
            let open = punct(Punctuator::OpenBracket);
            let close = punct(Punctuator::CloseBracket);
            let args = arguments(items);
            lemma_holds_split(t, pos, open + args, close);
            lemma_holds_split(t, pos, open, args);
            lemma_holds_at(t, pos, open, 0);
            lemma_holds_at(t, pos + 1 + args.len(), close, 0);
            lemma_arguments(t, pos + 1, ctx, items, Punctuator::CloseBracket, Seq::empty());
            assert(Seq::<NodeV>::empty() + items =~= items);
            assert(primary(t, pos, ctx) == built(e, args.len() + 2)) by {
                reveal(primary);
                reveal(expression_list);
            }
            lemma_balanced_one(open);
            lemma_balanced_one(close);
            lemma_balanced_append(open, args);
            lemma_balanced_append(open + args, close);
        },
        _ => {},
    }
}

/// A call: the callee and its arguments.
#[verifier::spinoff_prover]
pub proof fn lemma_inside_call(t: Seq<TokenV>, pos: int, ctx: GrammarContext, e: NodeV)
    requires
        e is Call,
        inside_stands(t, pos, ctx, e),
    ensures
        inside_comes_back(t, pos, ctx, e),
    decreases e, 3nat,
{
    match e {
        NodeV::Call(f, items) => {
            let f = *f;
            let pf = printed_expression(f);
            let open = punct(Punctuator::OpenParen);
            let close = punct(Punctuator::CloseParen);
            let args = arguments(items);
            lemma_holds_split(t, pos, pf + open + args, close);
            lemma_holds_split(t, pos, pf + open, args);
            lemma_holds_split(t, pos, pf, open);
            lemma_holds_at(t, pos + pf.len(), open, 0);
            lemma_holds_at(t, pos + pf.len() + 1 + args.len(), close, 0);
            lemma_expression(t, pos, ctx, f);
            lemma_not_arrow(t, pos, ctx, f);
            lemma_arguments(
                t,
                pos + pf.len() + 1,
                ctx,
                items,
                Punctuator::CloseParen,
                Seq::empty(),
            );
            assert(Seq::<NodeV>::empty() + items =~= items);
            let n = pf.len() + args.len() + 2;
            lemma_tail_stops(t, pos + n, ctx, e, true);
            assert(tail(t, pos + pf.len(), ctx, f, true) == built(e, args.len() + 2)) by {
                reveal(tail);
                reveal(expression_list);
            }
            assert(left_hand_side(t, pos, ctx) == built(e, n)) by {
                reveal(left_hand_side);
                reveal(primary);
                reveal(tail);
            }
            lemma_left_hand_side_to_expression(t, pos, ctx, e, n);
            lemma_balanced_group(args);
            assert(group(args) =~= open + args + close);
            lemma_balanced_append(pf, open + args + close);
            assert(pf + (open + args + close) =~= inside(e));
        },
        _ => {},
    }
}

/// A member access by name.
#[verifier::spinoff_prover]
pub proof fn lemma_inside_member(t: Seq<TokenV>, pos: int, ctx: GrammarContext, e: NodeV)
    requires
        e is GetConstField,
        inside_stands(t, pos, ctx, e),
    ensures
        inside_comes_back(t, pos, ctx, e),
    decreases e, 3nat,
{
    match e {
        NodeV::GetConstField(o, field) => {
            let o = *o;
            let po = printed_expression(o);
            let dot = punct(Punctuator::Dot);
            lemma_holds_split(t, pos, po + dot, name(field));
            lemma_holds_split(t, pos, po, dot);
            lemma_holds_at(t, pos + po.len(), dot, 0);
            lemma_holds_at(t, pos + po.len() + 1, name(field), 0);
            lemma_expression(t, pos, ctx, o);
            lemma_not_arrow(t, pos, ctx, o);
            let n = po.len() + 2;
            lemma_tail_stops(t, pos + n, ctx, e, true);
            assert(tail(t, pos + po.len(), ctx, o, true) == built(e, 2)) by {
                reveal(tail);
            }
            assert(left_hand_side(t, pos, ctx) == built(e, n)) by {
                reveal(left_hand_side);
                reveal(primary);
                reveal(tail);
            }
            lemma_left_hand_side_to_expression(t, pos, ctx, e, n);
            lemma_balanced_one(dot);
            lemma_balanced_one(name(field));
            lemma_balanced_append(po, dot);
            lemma_balanced_append(po + dot, name(field));
        },
        _ => {},
    }
}

/// A member access by key.
#[verifier::spinoff_prover]
pub proof fn lemma_inside_index(t: Seq<TokenV>, pos: int, ctx: GrammarContext, e: NodeV)
    requires
        e is GetField,
        inside_stands(t, pos, ctx, e),
    ensures
        inside_comes_back(t, pos, ctx, e),
    decreases e, 3nat,
{
    match e {
        NodeV::GetField(o, k) => {
            let o = *o;
            let k = *k;
            let po = printed_expression(o);
            let pk = printed_expression(k);
            let open = punct(Punctuator::OpenBracket);
            let close = punct(Punctuator::CloseBracket);
            lemma_holds_split(t, pos, po + open + pk, close);
            lemma_holds_split(t, pos, po + open, pk);
            lemma_holds_split(t, pos, po, open);
            lemma_holds_at(t, pos + po.len(), open, 0);
            lemma_holds_at(t, pos + po.len() + 1 + pk.len(), close, 0);
            lemma_expression(t, pos, ctx, o);
            lemma_not_arrow(t, pos, ctx, o);
            lemma_closed(t, pos + po.len() + 1, ctx.spec_with_in(true), k);
            let n = po.len() + pk.len() + 2;
            lemma_tail_stops(t, pos + n, ctx, e, true);
            assert(tail(t, pos + po.len(), ctx, o, true) == built(e, pk.len() + 2)) by {
                reveal(tail);
                reveal(crate::syntax::parser::expression::expression);
            }
            assert(left_hand_side(t, pos, ctx) == built(e, n)) by {
                reveal(left_hand_side);
                reveal(primary);
                reveal(tail);
            }
            lemma_left_hand_side_to_expression(t, pos, ctx, e, n);
            lemma_balanced_one(open);
            lemma_balanced_one(close);
            lemma_balanced_append(po, open);
            lemma_balanced_append(po + open, pk);
            lemma_balanced_append(po + open + pk, close);
        },
        _ => {},
    }
}

/// A `new` expression: the constructor and its arguments.
#[verifier::spinoff_prover]
pub proof fn lemma_inside_new(t: Seq<TokenV>, pos: int, ctx: GrammarContext, e: NodeV)
    requires
        e is New,
        inside_stands(t, pos, ctx, e),
    ensures
        inside_comes_back(t, pos, ctx, e),
    decreases e, 3nat,
{
    match e {
        NodeV::New(f, items) => {
            let f = *f;
            let kw = keyword(Keyword::New);
            let pf = printed_expression(f);
            let open = punct(Punctuator::OpenParen);
            let close = punct(Punctuator::CloseParen);
            let args = arguments(items);
            lemma_holds_split(t, pos, kw + pf + open + args, close);
            lemma_holds_split(t, pos, kw + pf + open, args);
            lemma_holds_split(t, pos, kw + pf, open);
            lemma_holds_split(t, pos, kw, pf);
            lemma_holds_at(t, pos, kw, 0);
            lemma_holds_at(t, pos + 1 + pf.len(), open, 0);
            lemma_holds_at(t, pos + pf.len() + 2 + args.len(), close, 0);
            lemma_expression(t, pos + 1, ctx, f);
            lemma_arguments(
                t,
                pos + pf.len() + 2,
                ctx,
                items,
                Punctuator::CloseParen,
                Seq::empty(),
            );
            assert(Seq::<NodeV>::empty() + items =~= items);
            let n = pf.len() + args.len() + 3;
            lemma_tail_stops(t, pos + 1 + pf.len(), ctx, f, false);
            lemma_tail_stops(t, pos + n, ctx, e, true);
            lemma_new_arguments_rule(t, pos + 1 + pf.len(), ctx, f, items, args.len() + 1);
            lemma_new_rule(t, pos, ctx, f, pf.len(), e, args.len() + 2);
            lemma_left_hand_side_new_rule(t, pos, ctx, e, n);
            lemma_left_hand_side_to_expression(t, pos, ctx, e, n);
            lemma_balanced_one(kw);
            lemma_balanced_group(args);
            assert(group(args) =~= open + args + close);
            lemma_balanced_append(kw, pf);
            lemma_balanced_append(kw + pf, open + args + close);
            assert((kw + pf) + (open + args + close) =~= inside(e));
        },
        _ => {},
    }
}

/// A `yield` expression.
#[verifier::spinoff_prover]
pub proof fn lemma_inside_yield(t: Seq<TokenV>, pos: int, ctx: GrammarContext, e: NodeV)
    requires
        e is Yield,
        inside_stands(t, pos, ctx, e),
    ensures
        inside_comes_back(t, pos, ctx, e),
    decreases e, 3nat,
{
    match e {
        NodeV::Yield(x, delegate) => {
            let kw = keyword(Keyword::Yield);
            let star = punct(Punctuator::Mul);
            lemma_balanced_one(kw);
            lemma_balanced_one(star);
            lemma_balanced_empty();
            match x {
                None => {
                    assert(inside(e) =~= kw);
                    lemma_holds_at(t, pos, kw, 0);
                    assert(yield_expression(t, pos, ctx) == built(e, 1)) by {
                        reveal(yield_expression);
                    }
                    assert(assignment(t, pos, ctx) == built(e, 1)) by {
                        reveal(assignment);
                        reveal(yield_expression);
                    }
                    lemma_expression_of(t, pos, ctx, e, 1);
                },
                Some(bx) => {
                    let x = *bx;
                    let px = printed_expression(x);
                    if delegate {
                        lemma_holds_split(t, pos, kw + star, px);
                        lemma_holds_split(t, pos, kw, star);
                        lemma_holds_at(t, pos, kw, 0);
                        lemma_holds_at(t, pos + 1, star, 0);
                        lemma_closed(t, pos + 2, ctx, x);
                        assert(yield_expression(t, pos, ctx) == built(e, px.len() + 2)) by {
                            reveal(yield_expression);
                            reveal(assignment);
                        }
                        assert(assignment(t, pos, ctx) == built(e, px.len() + 2)) by {
                            reveal(assignment);
                            reveal(yield_expression);
                        }
                        lemma_expression_of(t, pos, ctx, e, px.len() + 2);
                        lemma_balanced_append(kw, star);
                        lemma_balanced_append(kw + star, px);
                    } else {
                        assert(inside(e) =~= kw + px);
                        lemma_holds_split(t, pos, kw, px);
                        lemma_holds_at(t, pos, kw, 0);
                        lemma_closed(t, pos + 1, ctx, x);
                        lemma_holds_at(t, pos + 1, px, 0);
                        assert(yield_expression(t, pos, ctx) == built(e, px.len() + 1)) by {
                            reveal(yield_expression);
                            reveal(assignment);
                        }
                        assert(assignment(t, pos, ctx) == built(e, px.len() + 1)) by {
                            reveal(assignment);
                            reveal(yield_expression);
                        }
                        lemma_expression_of(t, pos, ctx, e, px.len() + 1);
                        lemma_balanced_append(kw, px);
                    }
                },
            }
        },
        _ => {},
    }
}

} // verus!
