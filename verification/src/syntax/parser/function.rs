//! The function grammar and its parser: parameter lists, bodies, function
//! declarations and expressions, arrow functions.

use vstd::prelude::*;
use vstd::string::*;
use crate::syntax::ast::node::{
    lemma_parameter_views_push, node_views, parameter_views, FormalParameter, FormalParameterV,
    Node, NodeV, StatementList, StatementListV,
};
use crate::syntax::ast::op::FunctionKind;
use crate::syntax::lexer::bytes::bytes_eq;
use crate::syntax::lexer::token::{Keyword, Punctuator, TokenKind, TokenV};
use crate::syntax::parser::cursor::{kind_at, left, position_at, text_at, Cursor};
use crate::syntax::parser::error::{Expected, ParseError, Rule};
use crate::syntax::parser::expression::{assignment, parse_assignment};
use crate::syntax::parser::grammar::{
    agrees, keyword_at, list_result, parameters_result, parses, punctuator_at, shift, unexpected,
    GrammarContext, Parsed,
};
use crate::syntax::parser::hoist::{hoist, hoisted};
use crate::syntax::parser::statement::{parse_statement_list, statement_list};

verus! {

/// The distance from `pos` to the `)` that closes a parenthesis which is
/// open at `pos`, `depth` further parentheses being open inside it. `None`
/// where the token stream ends first.
pub open spec fn closing_paren(tokens: Seq<TokenV>, pos: int, depth: nat) -> Option<nat>
    decreases left(tokens, pos),
{
    if !(0 <= pos < tokens.len()) || tokens[pos].kind.spec_is_terminal() {
        None
    } else if tokens[pos].kind == TokenKind::Punctuator(Punctuator::CloseParen) && depth == 0 {
        Some(0nat)
    } else {
        let inner: nat = if tokens[pos].kind == TokenKind::Punctuator(Punctuator::OpenParen) {
            depth + 1
        } else if tokens[pos].kind == TokenKind::Punctuator(Punctuator::CloseParen) {
            (depth - 1) as nat
        } else {
            depth
        };
        match closing_paren(tokens, pos + 1, inner) {
            Some(n) => Some(n + 1),
            None => None,
        }
    }
}

/// Whether an arrow function starts at `pos`: a name and `=>`, or a
/// parenthesized list and `=>`.
pub open spec fn is_arrow_head(tokens: Seq<TokenV>, pos: int) -> bool {
    if kind_at(tokens, pos) == TokenKind::Identifier {
        punctuator_at(tokens, pos + 1, Punctuator::Arrow)
    } else if punctuator_at(tokens, pos, Punctuator::OpenParen) {
        match closing_paren(tokens, pos + 1, 0) {
            Some(n) => punctuator_at(tokens, pos + n + 2, Punctuator::Arrow),
            None => false,
        }
    } else {
        false
    }
}

/// The rest of a parameter list after its `(`: the parameters parsed so far
/// are `done`. A parameter is a name, with or without a default value, or
/// `...` and a name, which is the last parameter.
#[verifier::opaque]
pub open spec fn formal_parameters(
    tokens: Seq<TokenV>,
    pos: int,
    ctx: GrammarContext,
    done: Seq<FormalParameterV>,
) -> Parsed<Seq<FormalParameterV>>
    decreases left(tokens, pos), 39nat,
{
    if punctuator_at(tokens, pos, Punctuator::CloseParen) {
        Ok((done, 1nat))
    } else if punctuator_at(tokens, pos, Punctuator::Spread) {
        if kind_at(tokens, pos + 1) != TokenKind::Identifier {
            Err(unexpected(tokens, pos + 1, Expected::Identifier))
        } else if !punctuator_at(tokens, pos + 2, Punctuator::CloseParen) {
            Err(
                ParseError::General {
                    rule: Rule::RestParameterLast,
                    position: position_at(tokens, pos + 2),
                },
            )
        } else {
            Ok(
                (
                    done.push(
                        FormalParameterV {
                            name: text_at(tokens, pos + 1),
                            init: None,
                            is_rest: true,
                        },
                    ),
                    3nat,
                ),
            )
        }
    } else if kind_at(tokens, pos) == TokenKind::Identifier {
        let init: Parsed<Option<NodeV>> = if punctuator_at(tokens, pos + 1, Punctuator::Assign) {
            match assignment(tokens, pos + 2, ctx.spec_with_in(true)) {
                Ok((e, n)) => Ok((Some(e), n + 2)),
                Err(e) => Err(e),
            }
        } else {
            Ok((None, 1nat))
        };
        match init {
            Ok((init, n)) => {
                let all = done.push(
                    FormalParameterV { name: text_at(tokens, pos), init, is_rest: false },
                );
                if punctuator_at(tokens, pos + n, Punctuator::Comma) {
                    shift(formal_parameters(tokens, pos + n + 1, ctx, all), n + 1)
                } else if punctuator_at(tokens, pos + n, Punctuator::CloseParen) {
                    Ok((all, n + 1))
                } else {
                    Err(
                        unexpected(
                            tokens,
                            pos + n,
                            Expected::Either(Punctuator::Comma, Punctuator::CloseParen),
                        ),
                    )
                }
            },
            Err(e) => Err(e),
        }
    } else {
        Err(unexpected(tokens, pos, Expected::Identifier))
    }
}

/// A function body: statements between `{` and `}`, hoisted.
#[verifier::opaque]
pub open spec fn function_body(tokens: Seq<TokenV>, pos: int, ctx: GrammarContext) -> Parsed<
    StatementListV,
>
    decreases left(tokens, pos), 19nat,
{
    if punctuator_at(tokens, pos, Punctuator::OpenBlock) {
        match statement_list(tokens, pos + 1, ctx, true, Seq::empty()) {
            Ok((items, n)) => Ok((hoisted(items), n + 1)),
            Err(e) => Err(e),
        }
    } else {
        Err(unexpected(tokens, pos, Expected::Punctuator(Punctuator::OpenBlock)))
    }
}

/// The name under which a function declaration without a name is bound.
pub open spec fn default_name() -> Seq<u8> {
    "default".spec_bytes()
}

/// The node of a function: a declaration, which has a name, or an
/// expression.
pub open spec fn function_node(
    declaration: bool,
    kind: FunctionKind,
    name: Option<Seq<u8>>,
    params: Seq<FormalParameterV>,
    body: StatementListV,
) -> NodeV {
    if declaration {
        NodeV::FunctionDecl(
            kind,
            match name {
                Some(n) => n,
                None => default_name(),
            },
            params,
            body,
        )
    } else {
        NodeV::FunctionExpr(kind, name, params, body)
    }
}

/// A function, from `function` or `async function` on: a declaration where
/// `declaration` is set, else an expression. A `*` behind `function` makes a
/// generator. A declaration has a name, unless the context allows it to be
/// left out; an expression may have one. Parameters and body are read in the
/// context of the function's kind, whatever the context around the function.
#[verifier::opaque]
pub open spec fn function(
    tokens: Seq<TokenV>,
    pos: int,
    ctx: GrammarContext,
    declaration: bool,
) -> Parsed<NodeV>
    decreases left(tokens, pos), 20nat,
{
    let a: nat = if keyword_at(tokens, pos, Keyword::Async) {
        1
    } else {
        0
    };
    let g: nat = if punctuator_at(tokens, pos + a + 1, Punctuator::Mul) {
        1
    } else {
        0
    };
    let kind = FunctionKind::spec_from_flags(a == 1, g == 1);
    let named = kind_at(tokens, pos + a + g + 1) == TokenKind::Identifier;
    let head: nat = if named {
        a + g + 2
    } else {
        a + g + 1
    };
    let inner = GrammarContext::spec_function(kind);
    if !keyword_at(tokens, pos + a, Keyword::Function) {
        Err(unexpected(tokens, pos + a, Expected::Keyword(Keyword::Function)))
    } else if declaration && !named && !ctx.allow_default {
        Err(unexpected(tokens, pos + head, Expected::Identifier))
    } else if !punctuator_at(tokens, pos + head, Punctuator::OpenParen) {
        Err(unexpected(tokens, pos + head, Expected::Punctuator(Punctuator::OpenParen)))
    } else {
        match formal_parameters(tokens, pos + head + 1, inner, Seq::empty()) {
            Ok((params, n)) => match function_body(tokens, pos + head + n + 1, inner) {
                Ok((body, m)) => Ok(
                    (
                        function_node(
                            declaration,
                            kind,
                            if named {
                                Some(text_at(tokens, pos + a + g + 1))
                            } else {
                                None
                            },
                            params,
                            body,
                        ),
                        head + n + m + 1,
                    ),
                ),
                Err(e) => Err(e),
            },
            Err(e) => Err(e),
        }
    }
}

/// Whether two of the parameters have one name.
pub open spec fn has_duplicate_names(params: Seq<FormalParameterV>) -> bool {
    exists|i: int, j: int|
        0 <= i < j < params.len() && (#[trigger] params[i]).name == (#[trigger] params[j]).name
}

/// An arrow function: one name, or a parameter list in parentheses; `=>`;
/// and a body in braces or an assignment expression, whose value the
/// function returns. The parameters have distinct names. `yield` and
/// `await` are allowed inside where they are allowed around the function.
#[verifier::opaque]
pub open spec fn arrow_function(tokens: Seq<TokenV>, pos: int, ctx: GrammarContext) -> Parsed<NodeV>
    decreases left(tokens, pos), 29nat,
{
    let inner = ctx.spec_arrow();
    let head: Parsed<Seq<FormalParameterV>> = if kind_at(tokens, pos) == TokenKind::Identifier {
        Ok((seq![FormalParameterV { name: text_at(tokens, pos), init: None, is_rest: false }], 1nat))
    } else if punctuator_at(tokens, pos, Punctuator::OpenParen) {
        shift(formal_parameters(tokens, pos + 1, inner, Seq::empty()), 1)
    } else {
        Err(unexpected(tokens, pos, Expected::Either(Punctuator::OpenParen, Punctuator::Arrow)))
    };
    match head {
        Ok((params, n)) => if !punctuator_at(tokens, pos + n, Punctuator::Arrow) {
            Err(unexpected(tokens, pos + n, Expected::Punctuator(Punctuator::Arrow)))
        } else if has_duplicate_names(params) {
            Err(
                ParseError::General {
                    rule: Rule::DistinctParameters,
                    position: position_at(tokens, pos),
                },
            )
        } else if punctuator_at(tokens, pos + n + 1, Punctuator::OpenBlock) {
            match function_body(tokens, pos + n + 1, inner) {
                Ok((body, m)) => Ok((NodeV::ArrowFunctionDecl(params, body), n + m + 1)),
                Err(e) => Err(e),
            }
        } else {
            match assignment(tokens, pos + n + 1, inner.spec_with_in(ctx.allow_in)) {
                Ok((e, m)) => Ok(
                    (
                        NodeV::ArrowFunctionDecl(
                            params,
                            hoisted(seq![NodeV::Return(Some(Box::new(e)))]),
                        ),
                        n + m + 1,
                    ),
                ),
                Err(e) => Err(e),
            }
        },
        Err(e) => Err(e),
    }
}

/// A distance to a closing parenthesis once `skipped` more tokens stand
/// before it.
pub open spec fn extend_distance(r: Option<nat>, skipped: nat) -> Option<nat> {
    match r {
        Some(n) => Some(n + skipped),
        None => None,
    }
}

/// Whether an arrow function starts at the next token.
#[verifier::spinoff_prover]
pub fn at_arrow_head(cursor: &Cursor) -> (r: bool)
    ensures
        r == is_arrow_head(cursor.tokens(), cursor.pos()),
{
    if cursor.at_identifier(0) {
        return cursor.at_punctuator(1, Punctuator::Arrow);
    }
    if !cursor.at_punctuator(0, Punctuator::OpenParen) {
        return false;
    }
    let ghost tokens = cursor.tokens();
    let ghost pos = cursor.pos();
    let mut k: usize = 1;
    let mut depth: usize = 0;
    loop
        invariant
            tokens == cursor.tokens(),
            pos == cursor.pos(),
            0 <= pos < tokens.len(),
            tokens.len() <= usize::MAX,
            punctuator_at(tokens, pos, Punctuator::OpenParen),
            1 <= k,
            pos + k <= tokens.len(),
            depth < k,
            closing_paren(tokens, pos + 1, 0) == extend_distance(
                closing_paren(tokens, pos + k, depth as nat),
                (k - 1) as nat,
            ),
        decreases tokens.len() - pos - k,
    {
        let kind = match cursor.peek(k) {
            Some(t) => t.kind,
            None => {
                return false;
            },
        };
        if kind.is_terminal() {
            return false;
        }
        if kind == TokenKind::Punctuator(Punctuator::CloseParen) {
            if depth == 0 {
                return cursor.at_punctuator(k + 1, Punctuator::Arrow);
            }
            depth = depth - 1;
        } else if kind == TokenKind::Punctuator(Punctuator::OpenParen) {
            depth = depth + 1;
        }
        k = k + 1;
    }
}

/// Parses the rest of a parameter list after its `(`.
#[verifier::spinoff_prover]
pub fn parse_formal_parameters(cursor: &mut Cursor, ctx: GrammarContext) -> (r: Result<
    Vec<FormalParameter>,
    ParseError,
>)
    ensures
        final(cursor).tokens() == old(cursor).tokens(),
        agrees(
            parameters_result(r),
            final(cursor).pos() - old(cursor).pos(),
            formal_parameters(old(cursor).tokens(), old(cursor).pos(), ctx, Seq::empty()),
        ),
    decreases left(old(cursor).tokens(), old(cursor).pos()), 390nat,
{
    reveal(formal_parameters);
    reveal(assignment);
    let ghost tokens = cursor.tokens();
    let ghost start = cursor.pos();
    let ghost goal = formal_parameters(tokens, start, ctx, Seq::empty());
    let mut params: Vec<FormalParameter> = Vec::new();
    assert(parameter_views(params@) =~= Seq::<FormalParameterV>::empty());
    loop
        invariant
            cursor.tokens() == tokens,
            tokens == old(cursor).tokens(),
            start == old(cursor).pos(),
            cursor.pos() >= start,
            goal == formal_parameters(tokens, start, ctx, Seq::empty()),
            goal == shift(
                formal_parameters(tokens, cursor.pos(), ctx, parameter_views(params@)),
                (cursor.pos() - start) as nat,
            ),
        decreases left(tokens, cursor.pos()),
    {
        reveal(formal_parameters);
        reveal(assignment);
        if cursor.at_punctuator(0, Punctuator::CloseParen) {
            cursor.skip();
            return Ok(params);
        }
        if cursor.at_punctuator(0, Punctuator::Spread) {
            if !cursor.at_identifier(1) {
                return Err(cursor.unexpected_at(1, Expected::Identifier));
            }
            if !cursor.at_punctuator(2, Punctuator::CloseParen) {
                return Err(
                    ParseError::General {
                        rule: Rule::RestParameterLast,
                        position: cursor.peek_position(2),
                    },
                );
            }
            let name = cursor.peek_text(1);
            cursor.skip();
            cursor.skip();
            cursor.skip();
            let param = FormalParameter { name, init: None, is_rest: true };
            proof {
                lemma_parameter_views_push(params@, param);
            }
            params.push(param);
            return Ok(params);
        }
        if !cursor.at_identifier(0) {
            return Err(cursor.unexpected(Expected::Identifier));
        }
        let name = cursor.text();
        cursor.skip();
        let init = if cursor.at_punctuator(0, Punctuator::Assign) {
            cursor.skip();
            match parse_assignment(cursor, ctx.with_in(true)) {
                Ok(e) => Some(e),
                Err(e) => {
                    return Err(e);
                },
            }
        } else {
            None
        };
        let param = FormalParameter { name, init, is_rest: false };
        proof {
            lemma_parameter_views_push(params@, param);
        }
        params.push(param);
        if cursor.at_punctuator(0, Punctuator::Comma) {
            cursor.skip();
        } else if cursor.at_punctuator(0, Punctuator::CloseParen) {
            cursor.skip();
            return Ok(params);
        } else {
            return Err(
                cursor.unexpected(Expected::Either(Punctuator::Comma, Punctuator::CloseParen)),
            );
        }
    }
}

/// Parses a function body and hoists its declarations.
#[verifier::spinoff_prover]
pub fn parse_function_body(cursor: &mut Cursor, ctx: GrammarContext) -> (r: Result<
    StatementList,
    ParseError,
>)
    ensures
        final(cursor).tokens() == old(cursor).tokens(),
        agrees(
            list_result(r),
            final(cursor).pos() - old(cursor).pos(),
            function_body(old(cursor).tokens(), old(cursor).pos(), ctx),
        ),
    decreases left(old(cursor).tokens(), old(cursor).pos()), 190nat,
{
    reveal(function_body);
    reveal(statement_list);
    if !cursor.at_punctuator(0, Punctuator::OpenBlock) {
        return Err(cursor.unexpected(Expected::Punctuator(Punctuator::OpenBlock)));
    }
    cursor.skip();
    match parse_statement_list(cursor, ctx, true) {
        Ok(items) => Ok(hoist(items)),
        Err(e) => Err(e),
    }
}

/// Parses a function declaration or a function expression.
#[verifier::spinoff_prover]
pub fn parse_function(cursor: &mut Cursor, ctx: GrammarContext, declaration: bool) -> (r: Result<
    Node,
    ParseError,
>)
    ensures
        parses(
            *old(cursor),
            *final(cursor),
            r,
            function(old(cursor).tokens(), old(cursor).pos(), ctx, declaration),
        ),
    decreases left(old(cursor).tokens(), old(cursor).pos()), 200nat,
{
    reveal(function);
    reveal(formal_parameters);
    reveal(function_body);
    let is_async = cursor.at_keyword(0, Keyword::Async);
    if is_async {
        cursor.skip();
    }
    if !cursor.at_keyword(0, Keyword::Function) {
        return Err(cursor.unexpected(Expected::Keyword(Keyword::Function)));
    }
    cursor.skip();
    let is_generator = cursor.at_punctuator(0, Punctuator::Mul);
    if is_generator {
        cursor.skip();
    }
    let kind = FunctionKind::from_flags(is_async, is_generator);
    let name: Option<Vec<u8>> = if cursor.at_identifier(0) {
        let n = cursor.text();
        cursor.skip();
        Some(n)
    } else {
        None
    };
    if declaration && name.is_none() && !ctx.allow_default {
        return Err(cursor.unexpected(Expected::Identifier));
    }
    if !cursor.at_punctuator(0, Punctuator::OpenParen) {
        return Err(cursor.unexpected(Expected::Punctuator(Punctuator::OpenParen)));
    }
    cursor.skip();
    let inner = GrammarContext::function(kind);
    let params = match parse_formal_parameters(cursor, inner) {
        Ok(p) => p,
        Err(e) => {
            return Err(e);
        },
    };
    let body = match parse_function_body(cursor, inner) {
        Ok(b) => b,
        Err(e) => {
            return Err(e);
        },
    };
    if declaration {
        let name = match name {
            Some(n) => n,
            None => vstd::slice::slice_to_vec("default".as_bytes()),
        };
        Ok(Node::function_decl(kind, name, params, body))
    } else {
        Ok(Node::function_expr(kind, name, params, body))
    }
}

/// Whether two of the parameters have one name.
#[verifier::spinoff_prover]
pub fn has_duplicates(params: &Vec<FormalParameter>) -> (r: bool)
    ensures
        r == has_duplicate_names(parameter_views(params@)),
{
    let ghost views = parameter_views(params@);
    let mut j: usize = 0;
    while j < params.len()
        invariant
            j <= params@.len(),
            views == parameter_views(params@),
            forall|a: int, b: int|
                0 <= a < b < j ==> (#[trigger] views[a]).name != (#[trigger] views[b]).name,
        decreases params@.len() - j,
    {
        let mut i: usize = 0;
        while i < j
            invariant
                i <= j < params@.len(),
                views == parameter_views(params@),
                forall|a: int| 0 <= a < i ==> (#[trigger] views[a]).name != views[j as int].name,
            decreases j - i,
        {
            if bytes_eq(params[i].name.as_slice(), params[j].name.as_slice()) {
                assert(views[i as int].name == views[j as int].name);
                return true;
            }
            i += 1;
        }
        j += 1;
    }
    false
}

/// Parses an arrow function.
#[verifier::spinoff_prover]
pub fn parse_arrow_function(cursor: &mut Cursor, ctx: GrammarContext) -> (r: Result<
    Node,
    ParseError,
>)
    ensures
        parses(
            *old(cursor),
            *final(cursor),
            r,
            arrow_function(old(cursor).tokens(), old(cursor).pos(), ctx),
        ),
    decreases left(old(cursor).tokens(), old(cursor).pos()), 290nat,
{
    reveal(arrow_function);
    reveal(formal_parameters);
    reveal(function_body);
    reveal(assignment);
    let inner = ctx.arrow();
    let position = cursor.position();
    let params = if cursor.at_identifier(0) {
        let name = cursor.text();
        cursor.skip();
        let mut params: Vec<FormalParameter> = Vec::new();
        params.push(FormalParameter { name, init: None, is_rest: false });
        assert(parameter_views(params@) =~= seq![
            FormalParameterV { name: name@, init: None, is_rest: false },
        ]);
        params
    } else if cursor.at_punctuator(0, Punctuator::OpenParen) {
        cursor.skip();
        match parse_formal_parameters(cursor, inner) {
            Ok(p) => p,
            Err(e) => {
                return Err(e);
            },
        }
    } else {
        return Err(
            cursor.unexpected(Expected::Either(Punctuator::OpenParen, Punctuator::Arrow)),
        );
    };
    if !cursor.at_punctuator(0, Punctuator::Arrow) {
        return Err(cursor.unexpected(Expected::Punctuator(Punctuator::Arrow)));
    }
    if has_duplicates(&params) {
        return Err(ParseError::General { rule: Rule::DistinctParameters, position });
    }
    cursor.skip();
    if cursor.at_punctuator(0, Punctuator::OpenBlock) {
        match parse_function_body(cursor, inner) {
            Ok(body) => Ok(Node::arrow_function(params, body)),
            Err(e) => Err(e),
        }
    } else {
        match parse_assignment(cursor, inner.with_in(ctx.allow_in)) {
            Ok(e) => {
                let mut items: Vec<Node> = Vec::new();
                items.push(Node::return_statement(Some(e)));
                assert(node_views(items@) =~= seq![NodeV::Return(Some(Box::new(e@)))]);
                Ok(Node::arrow_function(params, hoist(items)))
            },
            Err(e) => Err(e),
        }
    }
}

} // verus!
