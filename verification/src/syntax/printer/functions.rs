//! Parsing the printed form of a function gives the function back.

use vstd::prelude::*;
use crate::syntax::ast::node::{FormalParameterV, NodeV, StatementListV};
use crate::syntax::ast::op::FunctionKind;
use crate::syntax::lexer::token::{Keyword, Punctuator, TokenKind, TokenV};
use crate::syntax::parser::cursor::{kind_at, text_at};
use crate::syntax::parser::error::ParseError;
use crate::syntax::parser::expression::{assignment, function_at, primary};
use crate::syntax::parser::function::{
    arrow_function, formal_parameters, function, function_body, function_node, is_arrow_head,
};
use crate::syntax::parser::grammar::{punctuator_at, GrammarContext};

use crate::syntax::parser::statement::statement_list;
use crate::syntax::printer::climb::{built, lemma_expression_of};
use crate::syntax::printer::expressions::{
    comes_back, inside_comes_back, inside_stands, lemma_closed, printed_expression,
};
use crate::syntax::printer::form::{
    function_head, group, inside, keyword, name, parameter, parameters, punct, statements,
};
use crate::syntax::printer::shape::{
    well_formed_body, well_formed_expression, well_formed_parameter, well_formed_parameters,
};
use crate::syntax::printer::statements::lemma_statements;
use crate::syntax::printer::window::{
    balanced, holds, lemma_balanced_append, lemma_balanced_empty, lemma_balanced_group,
    lemma_balanced_one, lemma_closing_paren_of_group, lemma_holds_at, lemma_holds_split,
};

verus! {

/// A kind is the kind of its two properties.
pub proof fn lemma_kind(kind: FunctionKind)
    ensures
        FunctionKind::spec_from_flags(kind.spec_is_async(), kind.spec_is_generator()) == kind,
{
}

/// A well-formed parameter list, closed by its `)`, comes back behind the
/// parameters that were parsed before it.
#[verifier::spinoff_prover]
pub proof fn lemma_parameters(
    t: Seq<TokenV>,
    pos: int,
    ctx: GrammarContext,
    params: Seq<FormalParameterV>,
    done: Seq<FormalParameterV>,
)
    requires
        well_formed_parameters(params, ctx.allow_yield, ctx.allow_await),
        holds(t, pos, parameters(params)),
        punctuator_at(t, pos + parameters(params).len(), Punctuator::CloseParen),
    ensures
        formal_parameters(t, pos, ctx, done) == Ok::<(Seq<FormalParameterV>, nat), ParseError>(
            (done + params, (parameters(params).len() + 1) as nat),
        ),
        balanced(parameters(params)),
    decreases params, 8nat,
{
    let inner = ctx.spec_with_in(true);
    if params.len() == 0 {
        reveal(formal_parameters);
        assert(done + params =~= done);
        lemma_balanced_empty();
    } else {
        let p = params[0];
        let pp = parameter(p);
        let rest = params.subrange(1, params.len() as int);
        let comma = punct(Punctuator::Comma);
        assert(well_formed_parameter(p, ctx.allow_yield, ctx.allow_await));
        assert forall|i: int| 0 <= i < rest.len() implies well_formed_parameter(
            #[trigger] rest[i],
            ctx.allow_yield,
            ctx.allow_await,
        ) && (rest[i].is_rest ==> i == rest.len() - 1) by {
            assert(rest[i] == params[i + 1]);
        }
        if params.len() > 1 {
            lemma_holds_split(t, pos, pp + comma, parameters(rest));
            lemma_holds_split(t, pos, pp, comma);
            lemma_holds_at(t, pos + pp.len(), comma, 0);
        }
        // The token behind the parameter is a `,` or the `)`.
        assert(holds(t, pos, pp));
        lemma_parameter(t, pos, ctx, p);
        if params.len() == 1 {
            assert(done.push(p) =~= done + params);
            assert(formal_parameters(t, pos, ctx, done) == Ok::<
                (Seq<FormalParameterV>, nat),
                ParseError,
            >((done + params, (pp.len() + 1) as nat))) by {
                reveal(formal_parameters);
                reveal(assignment);
            }
        } else {
            lemma_parameters(t, pos + pp.len() + 1, ctx, rest, done.push(p));
            assert(done.push(p) + rest =~= done + params);
            assert(formal_parameters(t, pos, ctx, done) == Ok::<
                (Seq<FormalParameterV>, nat),
                ParseError,
            >((done + params, (parameters(params).len() + 1) as nat))) by {
                reveal(formal_parameters);
                reveal(assignment);
            }
            lemma_balanced_one(comma);
            lemma_balanced_append(pp, comma);
            lemma_balanced_append(pp + comma, parameters(rest));
        }
    }
}

/// What one printed parameter shows: its tokens, and its default value as
/// an assignment expression.
pub open spec fn parameter_stands(
    t: Seq<TokenV>,
    pos: int,
    ctx: GrammarContext,
    p: FormalParameterV,
) -> bool {
    let inner = ctx.spec_with_in(true);
    &&& balanced(parameter(p))
    &&& parameter(p).len() >= 1
    &&& if p.is_rest {
        &&& punctuator_at(t, pos, Punctuator::Spread)
        &&& kind_at(t, pos + 1) == TokenKind::Identifier
        &&& text_at(t, pos + 1) == p.name
        &&& parameter(p).len() == 2
        &&& p.init is None
    } else {
        &&& kind_at(t, pos) == TokenKind::Identifier
        &&& text_at(t, pos) == p.name
        &&& match p.init {
            Some(e) => punctuator_at(t, pos + 1, Punctuator::Assign) && assignment(
                t,
                pos + 2,
                inner,
            ) == built(e, (parameter(p).len() - 2) as nat) && parameter(p).len() >= 3,
            None => parameter(p).len() == 1,
        }
    }
}

/// One well-formed parameter before a `,` or a `)`.
#[verifier::spinoff_prover]
pub proof fn lemma_parameter(t: Seq<TokenV>, pos: int, ctx: GrammarContext, p: FormalParameterV)
    requires
        well_formed_parameter(p, ctx.allow_yield, ctx.allow_await),
        holds(t, pos, parameter(p)),
        punctuator_at(t, pos + parameter(p).len(), Punctuator::Comma) || punctuator_at(
            t,
            pos + parameter(p).len(),
            Punctuator::CloseParen,
        ),
    ensures
        parameter_stands(t, pos, ctx, p),
    decreases p, 9nat,
{
    if p.is_rest {
        let dots = punct(Punctuator::Spread);
        lemma_holds_split(t, pos, dots, name(p.name));
        lemma_holds_at(t, pos, dots, 0);
        lemma_holds_at(t, pos + 1, name(p.name), 0);
        lemma_balanced_one(dots);
        lemma_balanced_one(name(p.name));
        lemma_balanced_append(dots, name(p.name));
    } else {
        lemma_balanced_one(name(p.name));
        match p.init {
            Some(e) => {
                let eq = punct(Punctuator::Assign);
                let pe = printed_expression(e);
                assert(parameter(p) =~= name(p.name) + eq + pe);
                lemma_holds_split(t, pos, name(p.name) + eq, pe);
                lemma_holds_split(t, pos, name(p.name), eq);
                lemma_holds_at(t, pos, name(p.name), 0);
                lemma_holds_at(t, pos + 1, eq, 0);
                lemma_closed(t, pos + 2, ctx.spec_with_in(true), e);
                lemma_balanced_one(eq);
                lemma_balanced_append(name(p.name), eq);
                lemma_balanced_append(name(p.name) + eq, pe);
            },
            None => {
                assert(parameter(p) =~= name(p.name));
                lemma_holds_at(t, pos, name(p.name), 0);
            },
        }
    }
}

/// A well-formed function body in its braces.
#[verifier::spinoff_prover]
pub proof fn lemma_body(t: Seq<TokenV>, pos: int, ctx: GrammarContext, body: StatementListV)
    requires
        well_formed_body(body, ctx.allow_yield, ctx.allow_await),
        ctx.allow_return,
        holds(
            t,
            pos,
            punct(Punctuator::OpenBlock) + statements(body.items) + punct(Punctuator::CloseBlock),
        ),
    ensures
        function_body(t, pos, ctx) == Ok::<(StatementListV, nat), ParseError>(
            (body, (statements(body.items).len() + 2) as nat),
        ),
        balanced(
            punct(Punctuator::OpenBlock) + statements(body.items) + punct(Punctuator::CloseBlock),
        ),
    decreases body, 9nat,
{
    let open = punct(Punctuator::OpenBlock);
    let close = punct(Punctuator::CloseBlock);
    let s = statements(body.items);
    lemma_holds_split(t, pos, open + s, close);
    lemma_holds_split(t, pos, open, s);
    lemma_holds_at(t, pos, open, 0);
    lemma_holds_at(t, pos + 1 + s.len(), close, 0);
    lemma_statements(t, pos + 1, ctx, body.items, true, Seq::empty());
    assert(Seq::<NodeV>::empty() + body.items =~= body.items);
    assert(function_body(t, pos, ctx) == Ok::<(StatementListV, nat), ParseError>(
        (body, (s.len() + 2) as nat),
    )) by {
        reveal(function_body);
        reveal(statement_list);
    }
    lemma_balanced_one(open);
    lemma_balanced_one(close);
    lemma_balanced_append(open, s);
    lemma_balanced_append(open + s, close);
}

/// The printed form of a function: a declaration or an expression.
pub open spec fn printed_function(
    kind: FunctionKind,
    n: Option<Seq<u8>>,
    params: Seq<FormalParameterV>,
    body: StatementListV,
) -> Seq<TokenV> {
    function_head(kind) + (match n {
        Some(n) => name(n),
        None => Seq::empty(),
    }) + punct(Punctuator::OpenParen) + parameters(params) + punct(Punctuator::CloseParen) + punct(
        Punctuator::OpenBlock,
    ) + statements(body.items) + punct(Punctuator::CloseBlock)
}

/// The parts of a function declaration or expression: whether it is a
/// declaration, its kind, its name, its parameters and its body.
pub open spec fn function_parts(e: NodeV) -> (
    bool,
    FunctionKind,
    Option<Seq<u8>>,
    Seq<FormalParameterV>,
    StatementListV,
) {
    match e {
        NodeV::FunctionDecl(kind, n, params, body) => (true, kind, Some(n), params, body),
        NodeV::FunctionExpr(kind, n, params, body) => (false, kind, n, params, body),
        _ => arbitrary(),
    }
}

/// The printed form of a function declaration or expression.
pub open spec fn printed_function_of(e: NodeV) -> Seq<TokenV> {
    let (_, kind, n, params, body) = function_parts(e);
    printed_function(kind, n, params, body)
}

/// The printed form of a well-formed function comes back as the function:
/// as a declaration, which has a name, or as an expression.
#[verifier::spinoff_prover]
pub proof fn lemma_function(t: Seq<TokenV>, pos: int, ctx: GrammarContext, e: NodeV)
    requires
        e is FunctionDecl || e is FunctionExpr,
        well_formed_parameters(
            function_parts(e).3,
            function_parts(e).1.spec_is_generator(),
            function_parts(e).1.spec_is_async(),
        ),
        well_formed_body(
            function_parts(e).4,
            function_parts(e).1.spec_is_generator(),
            function_parts(e).1.spec_is_async(),
        ),
        holds(t, pos, printed_function_of(e)),
    ensures
        function(t, pos, ctx, e is FunctionDecl) == built(e, printed_function_of(e).len()),
        function_at(t, pos),
        balanced(printed_function_of(e)),
        printed_function_of(e).len() >= 1,
    decreases e, 2nat,
{
    let (declaration, kind, n, params, body) = function_parts(e);
    let head = function_head(kind);
    let nm = match n {
        Some(n) => name(n),
        None => Seq::empty(),
    };
    let open = punct(Punctuator::OpenParen);
    let close = punct(Punctuator::CloseParen);
    let ps = parameters(params);
    let block = punct(Punctuator::OpenBlock) + statements(body.items) + punct(
        Punctuator::CloseBlock,
    );
    let inner = GrammarContext::spec_function(kind);
    let whole = printed_function(kind, n, params, body);
    assert(whole =~= head + nm + open + ps + close + block);
    lemma_holds_split(t, pos, head + nm + open + ps + close, block);
    lemma_holds_split(t, pos, head + nm + open + ps, close);
    lemma_holds_split(t, pos, head + nm + open, ps);
    lemma_holds_split(t, pos, head + nm, open);
    lemma_holds_split(t, pos, head, nm);
    let a: nat = if kind.spec_is_async() {
        1
    } else {
        0
    };
    let g: nat = if kind.spec_is_generator() {
        1
    } else {
        0
    };
    assert(head.len() == a + g + 1);
    lemma_holds_at(t, pos, head, 0);
    lemma_holds_at(t, pos, head, a as int);
    if g == 1 {
        lemma_holds_at(t, pos, head, (a + 1) as int);
    }
    if n is Some {
        lemma_holds_at(t, pos + head.len(), nm, 0);
    }
    let at = pos + head.len() + nm.len();
    lemma_holds_at(t, at, open, 0);
    lemma_holds_at(t, at + 1 + ps.len(), close, 0);
    lemma_parameters(t, at + 1, inner, params, Seq::empty());
    assert(Seq::<FormalParameterV>::empty() + params =~= params);
    lemma_body(t, at + ps.len() + 2, inner, body);
    lemma_kind(kind);
    assert(function_node(declaration, kind, n, params, body) == e);
    assert(function(t, pos, ctx, declaration) == built(e, whole.len())) by {
        reveal(function);
        reveal(formal_parameters);
        reveal(function_body);
    }
    lemma_balanced_group(ps);
    assert(group(ps) =~= open + ps + close);
    lemma_balanced_one(keyword(Keyword::Function));
    lemma_balanced_one(keyword(Keyword::Async));
    lemma_balanced_one(punct(Punctuator::Mul));
    lemma_balanced_empty();
    let first = (if a == 1 {
        keyword(Keyword::Async)
    } else {
        Seq::empty()
    }) + keyword(Keyword::Function);
    if a == 1 {
        lemma_balanced_append(keyword(Keyword::Async), keyword(Keyword::Function));
    } else {
        assert(first =~= keyword(Keyword::Function));
    }
    if g == 1 {
        lemma_balanced_append(first, punct(Punctuator::Mul));
    } else {
        assert(head =~= first);
    }
    if n is Some {
        lemma_balanced_one(nm);
    }
    lemma_balanced_append(head, nm);
    lemma_balanced_append(head + nm, open + ps + close);
    lemma_balanced_append(head + nm + (open + ps + close), block);
    assert(head + nm + (open + ps + close) + block =~= whole);
}

/// A function expression.
#[verifier::spinoff_prover]
pub proof fn lemma_function_expression(t: Seq<TokenV>, pos: int, ctx: GrammarContext, e: NodeV)
    requires
        e is FunctionExpr,
        well_formed_expression(e, ctx.allow_yield, ctx.allow_await),
        holds(t, pos, printed_expression(e)),
    ensures
        comes_back(t, pos, ctx, e),
    decreases e, 3nat,
{
    match e {
        NodeV::FunctionExpr(kind, n, params, body) => {
            assert(printed_expression(e) == printed_function(kind, n, params, body));
            lemma_function(t, pos, ctx, e);
            lemma_holds_at(t, pos, printed_expression(e), 0);
            assert(primary(t, pos, ctx) == built(e, printed_expression(e).len())) by {
                reveal(primary);
                reveal(function);
            }
        },
        _ => {},
    }
}

/// An arrow function: its parameters and its body.
#[verifier::spinoff_prover]
pub proof fn lemma_inside_arrow(t: Seq<TokenV>, pos: int, ctx: GrammarContext, e: NodeV)
    requires
        e is ArrowFunctionDecl,
        inside_stands(t, pos, ctx, e),
    ensures
        inside_comes_back(t, pos, ctx, e),
    decreases e, 3nat,
{
    match e {
        NodeV::ArrowFunctionDecl(params, body) => {
            let open = punct(Punctuator::OpenParen);
            let close = punct(Punctuator::CloseParen);
            let arrow = punct(Punctuator::Arrow);
            let ps = parameters(params);
            let block = punct(Punctuator::OpenBlock) + statements(body.items) + punct(
                Punctuator::CloseBlock,
            );
            let inner = ctx.spec_arrow();
            assert(inside(e) =~= open + ps + close + arrow + block);
            lemma_holds_split(t, pos, open + ps + close + arrow, block);
            lemma_holds_split(t, pos, open + ps + close, arrow);
            lemma_holds_split(t, pos, open + ps, close);
            lemma_holds_split(t, pos, open, ps);
            lemma_holds_at(t, pos, open, 0);
            lemma_holds_at(t, pos + 1 + ps.len(), close, 0);
            lemma_holds_at(t, pos + ps.len() + 2, arrow, 0);
            lemma_holds_at(t, pos + ps.len() + 3, block, 0);
            lemma_parameters(t, pos + 1, inner, params, Seq::empty());
            assert(Seq::<FormalParameterV>::empty() + params =~= params);
            lemma_body(t, pos + ps.len() + 3, inner, body);
            assert(group(ps) =~= open + ps + close);
            lemma_closing_paren_of_group(t, pos, ps);
            assert(is_arrow_head(t, pos));
            let n = ps.len() + block.len() + 3;
            assert(arrow_function(t, pos, ctx) == built(e, n)) by {
                reveal(arrow_function);
                reveal(formal_parameters);
                reveal(function_body);
            }
            assert(assignment(t, pos, ctx) == built(e, n)) by {
                reveal(assignment);
                reveal(arrow_function);
            }
            lemma_expression_of(t, pos, ctx, e, n);
            lemma_balanced_group(ps);
            lemma_balanced_one(arrow);
            lemma_balanced_append(open + ps + close, arrow);
            lemma_balanced_append(open + ps + close + arrow, block);
        },
        _ => {},
    }
}

} // verus!
