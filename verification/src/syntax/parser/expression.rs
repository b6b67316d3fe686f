//! The expression grammar and its parser.

use vstd::prelude::*;
use crate::syntax::ast::constant::{numeric_const, Const, ConstV};
use crate::syntax::ast::node::{lemma_node_views_push, node_views, Node, NodeV};
use crate::syntax::ast::op::{BinOp, NumOp, UnaryOp};
use crate::syntax::lexer::token::{Keyword, Punctuator, TokenKind, TokenV};
use crate::syntax::parser::cursor::{
    flags_at, kind_at, left, newline_at, position_at, text_at, Cursor,
};
use crate::syntax::parser::error::{Expected, ParseError};
use crate::syntax::parser::function::{
    arrow_function, at_arrow_head, function, is_arrow_head, parse_arrow_function, parse_function,
};
use crate::syntax::parser::grammar::{
    agrees, assignment_node, assignment_operator, binary_operator, is_assignable, keyword_at,
    node_result, nodes_result, parses, punctuator_at, shift, spec_assignment_operator, spec_binary_operator,
    spec_unary_operator, unary_operator, unexpected, GrammarContext, Parsed,
};

verus! {

/// Whether the token at `pos` opens a function expression: `function`, or
/// `async function` on one line.
pub open spec fn function_at(tokens: Seq<TokenV>, pos: int) -> bool {
    keyword_at(tokens, pos, Keyword::Function) || (keyword_at(tokens, pos, Keyword::Async)
        && keyword_at(tokens, pos + 1, Keyword::Function) && !newline_at(tokens, pos + 1))
}

/// A primary expression: `this`, a name, a literal, an array literal, a
/// function expression, or an expression in parentheses.
#[verifier::opaque]
pub open spec fn primary(tokens: Seq<TokenV>, pos: int, ctx: GrammarContext) -> Parsed<NodeV>
    decreases left(tokens, pos), 21nat,
{
    if function_at(tokens, pos) {
        function(tokens, pos, ctx, false)
    } else {
        match kind_at(tokens, pos) {
            TokenKind::Keyword(Keyword::This) => Ok((NodeV::This, 1nat)),
            TokenKind::Identifier => Ok((NodeV::Identifier(text_at(tokens, pos)), 1nat)),
            TokenKind::BooleanLiteral(b) => Ok((NodeV::Const(ConstV::Bool(b)), 1nat)),
            TokenKind::NullLiteral => Ok((NodeV::Const(ConstV::Null), 1nat)),
            TokenKind::NumericLiteral => Ok(
                (NodeV::Const(numeric_const(text_at(tokens, pos))), 1nat),
            ),
            TokenKind::StringLiteral => Ok(
                (NodeV::Const(ConstV::String(text_at(tokens, pos))), 1nat),
            ),
            TokenKind::PatternLiteral => Ok(
                (NodeV::Pattern(text_at(tokens, pos), flags_at(tokens, pos)), 1nat),
            ),
            TokenKind::Punctuator(Punctuator::OpenParen) => match expression(
                tokens,
                pos + 1,
                ctx.spec_with_in(true),
            ) {
                Ok((e, n)) => if punctuator_at(tokens, pos + 1 + n, Punctuator::CloseParen) {
                    Ok((e, n + 2))
                } else {
                    Err(unexpected(tokens, pos + 1 + n, Expected::Punctuator(Punctuator::CloseParen)))
                },
                Err(e) => Err(e),
            },
            TokenKind::Punctuator(Punctuator::OpenBracket) => match expression_list(
                tokens,
                pos + 1,
                ctx,
                Punctuator::CloseBracket,
                Seq::empty(),
            ) {
                Ok((items, n)) => Ok((NodeV::ArrayDecl(items), n + 1)),
                Err(e) => Err(e),
            },
            _ => Err(unexpected(tokens, pos, Expected::Expression)),
        }
    }
}

/// The rest of a list of expressions that `close` ends: the expressions
/// parsed so far are `done`. The elements are assignment expressions, with
/// commas between them; a comma may stand before `close`.
#[verifier::opaque]
pub open spec fn expression_list(
    tokens: Seq<TokenV>,
    pos: int,
    ctx: GrammarContext,
    close: Punctuator,
    done: Seq<NodeV>,
) -> Parsed<Seq<NodeV>>
    decreases left(tokens, pos), 39nat,
{
    if punctuator_at(tokens, pos, close) {
        Ok((done, 1nat))
    } else {
        match assignment(tokens, pos, ctx.spec_with_in(true)) {
            Ok((e, n)) => if punctuator_at(tokens, pos + n, Punctuator::Comma) {
                shift(expression_list(tokens, pos + n + 1, ctx, close, done.push(e)), n + 1)
            } else if punctuator_at(tokens, pos + n, close) {
                Ok((done.push(e), n + 1))
            } else {
                Err(unexpected(tokens, pos + n, Expected::Either(Punctuator::Comma, close)))
            },
            Err(e) => Err(e),
        }
    }
}

/// What follows an expression `node` and belongs to it: `.name`, `[key]`
/// and, where `calls` is set, `(arguments)`, any number of times, applied
/// from left to right.
#[verifier::opaque]
pub open spec fn tail(
    tokens: Seq<TokenV>,
    pos: int,
    ctx: GrammarContext,
    node: NodeV,
    calls: bool,
) -> Parsed<NodeV>
    decreases left(tokens, pos), 10nat,
{
    if punctuator_at(tokens, pos, Punctuator::Dot) {
        if kind_at(tokens, pos + 1) == TokenKind::Identifier {
            shift(
                tail(
                    tokens,
                    pos + 2,
                    ctx,
                    NodeV::GetConstField(Box::new(node), text_at(tokens, pos + 1)),
                    calls,
                ),
                2,
            )
        } else {
            Err(unexpected(tokens, pos + 1, Expected::Identifier))
        }
    } else if punctuator_at(tokens, pos, Punctuator::OpenBracket) {
        match expression(tokens, pos + 1, ctx.spec_with_in(true)) {
            Ok((key, n)) => if punctuator_at(tokens, pos + 1 + n, Punctuator::CloseBracket) {
                shift(
                    tail(
                        tokens,
                        pos + n + 2,
                        ctx,
                        NodeV::GetField(Box::new(node), Box::new(key)),
                        calls,
                    ),
                    n + 2,
                )
            } else {
                Err(
                    unexpected(
                        tokens,
                        pos + 1 + n,
                        Expected::Punctuator(Punctuator::CloseBracket),
                    ),
                )
            },
            Err(e) => Err(e),
        }
    } else if calls && punctuator_at(tokens, pos, Punctuator::OpenParen) {
        match expression_list(tokens, pos + 1, ctx, Punctuator::CloseParen, Seq::empty()) {
            Ok((args, n)) => shift(
                tail(tokens, pos + n + 1, ctx, NodeV::Call(Box::new(node), args), calls),
                n + 1,
            ),
            Err(e) => Err(e),
        }
    } else {
        Ok((node, 0nat))
    }
}

/// The arguments of a `new` expression whose constructor is `callee`: the
/// parenthesized list at `pos`, or none where no list stands there.
#[verifier::opaque]
pub open spec fn new_arguments(
    tokens: Seq<TokenV>,
    pos: int,
    ctx: GrammarContext,
    callee: NodeV,
) -> Parsed<NodeV>
    decreases left(tokens, pos), 9nat,
{
    if punctuator_at(tokens, pos, Punctuator::OpenParen) {
        match expression_list(tokens, pos + 1, ctx, Punctuator::CloseParen, Seq::empty()) {
            Ok((args, k)) => Ok((NodeV::New(Box::new(callee), args), k + 1)),
            Err(e) => Err(e),
        }
    } else {
        Ok((NodeV::New(Box::new(callee), Seq::empty()), 0nat))
    }
}

/// A `new` expression, from its `new` on: the constructor is a primary
/// expression or another `new` expression, with its member accesses; the
/// arguments, where they are written, are the first parenthesized list
/// behind it. So `new` takes the nearest argument list, and what follows
/// that list applies to the object that was built.
#[verifier::opaque]
pub open spec fn new_expression(tokens: Seq<TokenV>, pos: int, ctx: GrammarContext) -> Parsed<NodeV>
    decreases left(tokens, pos), 22nat,
{
    if !keyword_at(tokens, pos, Keyword::New) {
        Err(unexpected(tokens, pos, Expected::Keyword(Keyword::New)))
    } else {
        let head = if keyword_at(tokens, pos + 1, Keyword::New) {
            new_expression(tokens, pos + 1, ctx)
        } else {
            primary(tokens, pos + 1, ctx)
        };
        match head {
            Ok((h, n)) => match tail(tokens, pos + n + 1, ctx, h, false) {
                Ok((callee, m)) => shift(
                    new_arguments(tokens, pos + n + m + 1, ctx, callee),
                    n + m + 1,
                ),
                Err(e) => Err(e),
            },
            Err(e) => Err(e),
        }
    }
}

/// A left-hand-side expression: a primary or `new` expression with all that
/// follows and belongs to it.
#[verifier::opaque]
pub open spec fn left_hand_side(tokens: Seq<TokenV>, pos: int, ctx: GrammarContext) -> Parsed<NodeV>
    decreases left(tokens, pos), 23nat,
{
    let head = if keyword_at(tokens, pos, Keyword::New) {
        new_expression(tokens, pos, ctx)
    } else {
        primary(tokens, pos, ctx)
    };
    match head {
        Ok((h, n)) => shift(tail(tokens, pos + n, ctx, h, true), n),
        Err(e) => Err(e),
    }
}

/// The prefix update operator that a token of this kind is.
pub open spec fn spec_prefix_update(kind: TokenKind) -> Option<UnaryOp> {
    match kind {
        TokenKind::Punctuator(Punctuator::Inc) => Some(UnaryOp::IncrementPre),
        TokenKind::Punctuator(Punctuator::Dec) => Some(UnaryOp::DecrementPre),
        _ => None,
    }
}

/// The postfix update operator that a token of this kind is.
pub open spec fn spec_postfix_update(kind: TokenKind) -> Option<UnaryOp> {
    match kind {
        TokenKind::Punctuator(Punctuator::Inc) => Some(UnaryOp::IncrementPost),
        TokenKind::Punctuator(Punctuator::Dec) => Some(UnaryOp::DecrementPost),
        _ => None,
    }
}

/// An update expression: `++x`, `--x`, `x++`, `x--`, or a left-hand-side
/// expression alone. A postfix operator stands on the line of its operand.
/// The operand is a name or a member of an object.
#[verifier::opaque]
pub open spec fn update(tokens: Seq<TokenV>, pos: int, ctx: GrammarContext) -> Parsed<NodeV>
    decreases left(tokens, pos), 24nat,
{
    match spec_prefix_update(kind_at(tokens, pos)) {
        Some(op) => match unary(tokens, pos + 1, ctx) {
            Ok((e, n)) => if is_assignable(e) {
                Ok((NodeV::UnaryOp(op, Box::new(e)), n + 1))
            } else {
                Err(ParseError::InvalidAssignmentTarget { position: position_at(tokens, pos + 1) })
            },
            Err(e) => Err(e),
        },
        None => match left_hand_side(tokens, pos, ctx) {
            Ok((e, n)) => match spec_postfix_update(kind_at(tokens, pos + n)) {
                Some(op) => if newline_at(tokens, pos + n) {
                    Ok((e, n))
                } else if is_assignable(e) {
                    Ok((NodeV::UnaryOp(op, Box::new(e)), n + 1))
                } else {
                    Err(ParseError::InvalidAssignmentTarget { position: position_at(tokens, pos) })
                },
                None => Ok((e, n)),
            },
            Err(e) => Err(e),
        },
    }
}

/// A unary expression: a prefix operator or `await` before a unary
/// expression, or an update expression. `await` is an error where the
/// context does not allow it.
#[verifier::opaque]
pub open spec fn unary(tokens: Seq<TokenV>, pos: int, ctx: GrammarContext) -> Parsed<NodeV>
    decreases left(tokens, pos), 25nat,
{
    match spec_unary_operator(kind_at(tokens, pos)) {
        Some(op) => match unary(tokens, pos + 1, ctx) {
            Ok((e, n)) => Ok((NodeV::UnaryOp(op, Box::new(e)), n + 1)),
            Err(e) => Err(e),
        },
        None => if keyword_at(tokens, pos, Keyword::Await) {
            if ctx.allow_await {
                match unary(tokens, pos + 1, ctx) {
                    Ok((e, n)) => Ok((NodeV::Await(Box::new(e)), n + 1)),
                    Err(e) => Err(e),
                }
            } else {
                Err(
                    ParseError::ContextViolation {
                        keyword: Keyword::Await,
                        position: position_at(tokens, pos),
                    },
                )
            }
        } else {
            update(tokens, pos, ctx)
        },
    }
}

/// An exponentiation: `base ** exponent`, which groups to the right. A
/// unary operator cannot stand before the base.
#[verifier::opaque]
pub open spec fn exponentiation(tokens: Seq<TokenV>, pos: int, ctx: GrammarContext) -> Parsed<NodeV>
    decreases left(tokens, pos), 26nat,
{
    if spec_unary_operator(kind_at(tokens, pos)) is Some || keyword_at(tokens, pos, Keyword::Await) {
        unary(tokens, pos, ctx)
    } else {
        match update(tokens, pos, ctx) {
            Ok((base, n)) => if punctuator_at(tokens, pos + n, Punctuator::Exp) {
                match exponentiation(tokens, pos + n + 1, ctx) {
                    Ok((e, m)) => Ok(
                        (
                            NodeV::BinOp(BinOp::Num(NumOp::Exp), Box::new(base), Box::new(e)),
                            n + m + 1,
                        ),
                    ),
                    Err(e) => Err(e),
                }
            } else {
                Ok((base, n))
            },
            Err(e) => Err(e),
        }
    }
}

/// A chain of binary operators of precedence `min` or higher.
#[verifier::opaque]
pub open spec fn binary(tokens: Seq<TokenV>, pos: int, ctx: GrammarContext, min: u8) -> Parsed<NodeV>
    decreases left(tokens, pos), 27nat,
{
    match exponentiation(tokens, pos, ctx) {
        Ok((first, n)) => shift(binary_rest(tokens, pos + n, ctx, min, first), n),
        Err(e) => Err(e),
    }
}

/// The rest of a chain of binary operators of precedence `min` or higher,
/// whose operands so far make `operand`. An operator takes as its right
/// operand the longest chain of operators that bind tighter than itself, so
/// operators of one precedence group to the left.
#[verifier::opaque]
pub open spec fn binary_rest(
    tokens: Seq<TokenV>,
    pos: int,
    ctx: GrammarContext,
    min: u8,
    operand: NodeV,
) -> Parsed<NodeV>
    decreases left(tokens, pos), 10nat,
{
    match spec_binary_operator(kind_at(tokens, pos), ctx) {
        Some((op, prec)) => if prec >= min {
            match binary(tokens, pos + 1, ctx, (prec + 1) as u8) {
                Ok((right, n)) => shift(
                    binary_rest(
                        tokens,
                        pos + n + 1,
                        ctx,
                        min,
                        NodeV::BinOp(op, Box::new(operand), Box::new(right)),
                    ),
                    n + 1,
                ),
                Err(e) => Err(e),
            }
        } else {
            Ok((operand, 0nat))
        },
        None => Ok((operand, 0nat)),
    }
}

/// A conditional expression: `condition ? a : b`, or a binary chain alone.
#[verifier::opaque]
pub open spec fn conditional(tokens: Seq<TokenV>, pos: int, ctx: GrammarContext) -> Parsed<NodeV>
    decreases left(tokens, pos), 28nat,
{
    match binary(tokens, pos, ctx, 1) {
        Ok((c, n)) => if punctuator_at(tokens, pos + n, Punctuator::Question) {
            match assignment(tokens, pos + n + 1, ctx.spec_with_in(true)) {
                Ok((a, m)) => if punctuator_at(tokens, pos + n + m + 1, Punctuator::Colon) {
                    match assignment(tokens, pos + n + m + 2, ctx) {
                        Ok((b, k)) => Ok(
                            (
                                NodeV::ConditionalOp(Box::new(c), Box::new(a), Box::new(b)),
                                n + m + k + 2,
                            ),
                        ),
                        Err(e) => Err(e),
                    }
                } else {
                    Err(
                        unexpected(
                            tokens,
                            pos + n + m + 1,
                            Expected::Punctuator(Punctuator::Colon),
                        ),
                    )
                },
                Err(e) => Err(e),
            }
        } else {
            Ok((c, n))
        },
        Err(e) => Err(e),
    }
}

/// Whether a `yield` that a token of this kind follows has no operand.
pub open spec fn spec_ends_yield(kind: TokenKind) -> bool {
    match kind {
        TokenKind::Punctuator(p) => p == Punctuator::CloseParen || p == Punctuator::CloseBracket
            || p == Punctuator::CloseBlock || p == Punctuator::Comma || p == Punctuator::Semicolon
            || p == Punctuator::Colon,
        TokenKind::EndOfInput => true,
        _ => false,
    }
}

/// A `yield` expression, from its `yield` on: alone, with an operand, or
/// with `*` and an operand. The `*` or the operand starts on the line of
/// `yield`.
#[verifier::opaque]
pub open spec fn yield_expression(tokens: Seq<TokenV>, pos: int, ctx: GrammarContext) -> Parsed<
    NodeV,
>
    decreases left(tokens, pos), 29nat,
{
    if !keyword_at(tokens, pos, Keyword::Yield) {
        Err(unexpected(tokens, pos, Expected::Keyword(Keyword::Yield)))
    } else if newline_at(tokens, pos + 1) || spec_ends_yield(kind_at(tokens, pos + 1)) {
        Ok((NodeV::Yield(None, false), 1nat))
    } else if punctuator_at(tokens, pos + 1, Punctuator::Mul) {
        match assignment(tokens, pos + 2, ctx) {
            Ok((e, n)) => Ok((NodeV::Yield(Some(Box::new(e)), true), n + 2)),
            Err(e) => Err(e),
        }
    } else {
        match assignment(tokens, pos + 1, ctx) {
            Ok((e, n)) => Ok((NodeV::Yield(Some(Box::new(e)), false), n + 1)),
            Err(e) => Err(e),
        }
    }
}

/// An assignment expression: a `yield` expression, an arrow function, or a
/// conditional expression, which an assignment operator and the value may
/// follow. Assignments group to the right. The target of an assignment is a
/// name or a member of an object. `yield` is an error where the context does
/// not allow it.
#[verifier::opaque]
pub open spec fn assignment(tokens: Seq<TokenV>, pos: int, ctx: GrammarContext) -> Parsed<NodeV>
    decreases left(tokens, pos), 30nat,
{
    if keyword_at(tokens, pos, Keyword::Yield) {
        if ctx.allow_yield {
            yield_expression(tokens, pos, ctx)
        } else {
            Err(
                ParseError::ContextViolation {
                    keyword: Keyword::Yield,
                    position: position_at(tokens, pos),
                },
            )
        }
    } else if is_arrow_head(tokens, pos) {
        arrow_function(tokens, pos, ctx)
    } else {
        match conditional(tokens, pos, ctx) {
            Ok((target, n)) => match spec_assignment_operator(kind_at(tokens, pos + n)) {
                Some(op) => if is_assignable(target) {
                    match assignment(tokens, pos + n + 1, ctx) {
                        Ok((value, m)) => Ok((assignment_node(op, target, value), n + m + 1)),
                        Err(e) => Err(e),
                    }
                } else {
                    Err(ParseError::InvalidAssignmentTarget { position: position_at(tokens, pos) })
                },
                None => Ok((target, n)),
            },
            Err(e) => Err(e),
        }
    }
}

/// An expression: assignment expressions with commas between them.
#[verifier::opaque]
pub open spec fn expression(tokens: Seq<TokenV>, pos: int, ctx: GrammarContext) -> Parsed<NodeV>
    decreases left(tokens, pos), 40nat,
{
    match assignment(tokens, pos, ctx) {
        Ok((first, n)) => shift(comma_rest(tokens, pos + n, ctx, first), n),
        Err(e) => Err(e),
    }
}

/// The rest of an expression whose assignment expressions so far make
/// `operand`.
#[verifier::opaque]
pub open spec fn comma_rest(
    tokens: Seq<TokenV>,
    pos: int,
    ctx: GrammarContext,
    operand: NodeV,
) -> Parsed<NodeV>
    decreases left(tokens, pos), 10nat,
{
    if punctuator_at(tokens, pos, Punctuator::Comma) {
        match assignment(tokens, pos + 1, ctx) {
            Ok((right, n)) => shift(
                comma_rest(
                    tokens,
                    pos + n + 1,
                    ctx,
                    NodeV::BinOp(BinOp::Comma, Box::new(operand), Box::new(right)),
                ),
                n + 1,
            ),
            Err(e) => Err(e),
        }
    } else {
        Ok((operand, 0nat))
    }
}

/// Whether the next token opens a function expression.
pub fn at_function(cursor: &Cursor) -> (r: bool)
    ensures
        r == function_at(cursor.tokens(), cursor.pos()),
{
    cursor.at_keyword(0, Keyword::Function) || (cursor.at_keyword(0, Keyword::Async)
        && cursor.at_keyword(1, Keyword::Function) && !cursor.peek_newline(1))
}

/// Parses a primary expression that is a single token.
#[verifier::spinoff_prover]
fn parse_atom(cursor: &mut Cursor, ctx: GrammarContext) -> (r: Result<Node, ParseError>)
    requires
        !function_at(old(cursor).tokens(), old(cursor).pos()),
        !punctuator_at(old(cursor).tokens(), old(cursor).pos(), Punctuator::OpenParen),
        !punctuator_at(old(cursor).tokens(), old(cursor).pos(), Punctuator::OpenBracket),
    ensures
        parses(*old(cursor), *final(cursor), r, primary(old(cursor).tokens(), old(cursor).pos(), ctx)),
{
    reveal(primary);
    match cursor.peek_kind(0) {
        TokenKind::Keyword(Keyword::This) => {
            cursor.skip();
            Ok(Node::this())
        },
        TokenKind::Identifier => {
            let name = cursor.text();
            cursor.skip();
            Ok(Node::identifier(name))
        },
        TokenKind::BooleanLiteral(b) => {
            cursor.skip();
            Ok(Node::constant(Const::Bool(b)))
        },
        TokenKind::NullLiteral => {
            cursor.skip();
            Ok(Node::constant(Const::Null))
        },
        TokenKind::NumericLiteral => {
            let raw = cursor.text();
            cursor.skip();
            Ok(Node::constant(Const::from_numeric(raw)))
        },
        TokenKind::StringLiteral => {
            let value = cursor.text();
            cursor.skip();
            Ok(Node::constant(Const::String(value)))
        },
        TokenKind::PatternLiteral => {
            let body = cursor.text();
            let flags = cursor.flags();
            cursor.skip();
            Ok(Node::pattern(body, flags))
        },
        _ => Err(cursor.unexpected(Expected::Expression)),
    }
}

/// Parses an expression in parentheses as a primary expression.
#[verifier::spinoff_prover]
fn parse_group(cursor: &mut Cursor, ctx: GrammarContext) -> (r: Result<Node, ParseError>)
    requires
        !function_at(old(cursor).tokens(), old(cursor).pos()),
        punctuator_at(old(cursor).tokens(), old(cursor).pos(), Punctuator::OpenParen),
    ensures
        parses(*old(cursor), *final(cursor), r, primary(old(cursor).tokens(), old(cursor).pos(), ctx)),
    decreases left(old(cursor).tokens(), old(cursor).pos()), 205nat,
{
    reveal(primary);
    reveal(expression);
    cursor.skip();
    match parse_expression(cursor, ctx.with_in(true)) {
        Ok(e) => {
            if cursor.at_punctuator(0, Punctuator::CloseParen) {
                cursor.skip();
                Ok(e)
            } else {
                Err(cursor.unexpected(Expected::Punctuator(Punctuator::CloseParen)))
            }
        },
        Err(e) => Err(e),
    }
}

/// Parses an array literal.
#[verifier::spinoff_prover]
fn parse_array(cursor: &mut Cursor, ctx: GrammarContext) -> (r: Result<Node, ParseError>)
    requires
        !function_at(old(cursor).tokens(), old(cursor).pos()),
        punctuator_at(old(cursor).tokens(), old(cursor).pos(), Punctuator::OpenBracket),
    ensures
        parses(*old(cursor), *final(cursor), r, primary(old(cursor).tokens(), old(cursor).pos(), ctx)),
    decreases left(old(cursor).tokens(), old(cursor).pos()), 205nat,
{
    reveal(primary);
    reveal(expression_list);
    cursor.skip();
    match parse_expression_list(cursor, ctx, Punctuator::CloseBracket) {
        Ok(items) => Ok(Node::array(items)),
        Err(e) => Err(e),
    }
}

/// Parses a function expression as a primary expression.
#[verifier::spinoff_prover]
fn parse_function_expression(cursor: &mut Cursor, ctx: GrammarContext) -> (r: Result<
    Node,
    ParseError,
>)
    requires
        function_at(old(cursor).tokens(), old(cursor).pos()),
    ensures
        parses(*old(cursor), *final(cursor), r, primary(old(cursor).tokens(), old(cursor).pos(), ctx)),
    decreases left(old(cursor).tokens(), old(cursor).pos()), 205nat,
{
    reveal(primary);
    reveal(function);
    parse_function(cursor, ctx, false)
}

/// Parses a primary expression.
#[verifier::spinoff_prover]
pub fn parse_primary(cursor: &mut Cursor, ctx: GrammarContext) -> (r: Result<Node, ParseError>)
    ensures
        parses(*old(cursor), *final(cursor), r, primary(old(cursor).tokens(), old(cursor).pos(), ctx)),
    decreases left(old(cursor).tokens(), old(cursor).pos()), 210nat,
{
    if at_function(cursor) {
        parse_function_expression(cursor, ctx)
    } else if cursor.at_punctuator(0, Punctuator::OpenParen) {
        parse_group(cursor, ctx)
    } else if cursor.at_punctuator(0, Punctuator::OpenBracket) {
        parse_array(cursor, ctx)
    } else {
        parse_atom(cursor, ctx)
    }
}

/// Parses a list of expressions up to and with the punctuator that closes
/// it.
#[verifier::spinoff_prover]
pub fn parse_expression_list(cursor: &mut Cursor, ctx: GrammarContext, close: Punctuator) -> (r:
    Result<Vec<Node>, ParseError>)
    ensures
        final(cursor).tokens() == old(cursor).tokens(),
        agrees(
            nodes_result(r),
            final(cursor).pos() - old(cursor).pos(),
            expression_list(old(cursor).tokens(), old(cursor).pos(), ctx, close, Seq::empty()),
        ),
    decreases left(old(cursor).tokens(), old(cursor).pos()), 390nat,
{
    reveal(expression_list);
    reveal(assignment);
    let ghost tokens = cursor.tokens();
    let ghost start = cursor.pos();
    let ghost goal = expression_list(tokens, start, ctx, close, Seq::empty());
    let mut items: Vec<Node> = Vec::new();
    assert(node_views(items@) =~= Seq::<NodeV>::empty());
    loop
        invariant
            cursor.tokens() == tokens,
            tokens == old(cursor).tokens(),
            start == old(cursor).pos(),
            cursor.pos() >= start,
            goal == expression_list(tokens, start, ctx, close, Seq::empty()),
            goal == shift(
                expression_list(tokens, cursor.pos(), ctx, close, node_views(items@)),
                (cursor.pos() - start) as nat,
            ),
        decreases left(tokens, cursor.pos()),
    {
        reveal(expression_list);
        reveal(assignment);
        if cursor.at_punctuator(0, close) {
            cursor.skip();
            return Ok(items);
        }
        match parse_assignment(cursor, ctx.with_in(true)) {
            Ok(e) => {
                proof {
                    lemma_node_views_push(items@, e);
                }
                items.push(e);
                if cursor.at_punctuator(0, Punctuator::Comma) {
                    cursor.skip();
                } else if cursor.at_punctuator(0, close) {
                    cursor.skip();
                    return Ok(items);
                } else {
                    return Err(cursor.unexpected(Expected::Either(Punctuator::Comma, close)));
                }
            },
            Err(e) => {
                return Err(e);
            },
        }
    }
}

/// What `parse_suffix` and its helpers promise: `r` holds the expression
/// so far, and whether more may follow.
pub open spec fn suffix_parsed(
    before: Cursor,
    after: Cursor,
    r: Result<(Node, bool), ParseError>,
    ctx: GrammarContext,
    node: NodeV,
    calls: bool,
) -> bool {
    &&& after.tokens() == before.tokens()
    &&& r matches Ok((next, more)) ==> if more {
        &&& before.pos() < after.pos()
        &&& before.pos() < before.tokens().len()
        &&& tail(before.tokens(), before.pos(), ctx, node, calls) == shift(
            tail(before.tokens(), after.pos(), ctx, next@, calls),
            (after.pos() - before.pos()) as nat,
        )
    } else {
        &&& after.pos() == before.pos()
        &&& next@ == node
        &&& tail(before.tokens(), before.pos(), ctx, node, calls) == Ok::<(NodeV, nat), ParseError>(
            (node, 0nat),
        )
    }
    &&& r matches Err(e) ==> tail(before.tokens(), before.pos(), ctx, node, calls) == Err::<
        (NodeV, nat),
        ParseError,
    >(e)
}

/// Parses `.name` behind `node`.
#[verifier::spinoff_prover]
fn parse_member(cursor: &mut Cursor, ctx: GrammarContext, node: Node, calls: bool) -> (r: Result<
    (Node, bool),
    ParseError,
>)
    requires
        punctuator_at(old(cursor).tokens(), old(cursor).pos(), Punctuator::Dot),
    ensures
        suffix_parsed(*old(cursor), *final(cursor), r, ctx, node@, calls),
{
    reveal(tail);
    if cursor.at_identifier(1) {
        let name = cursor.peek_text(1);
        cursor.skip();
        cursor.skip();
        Ok((Node::get_const_field(node, name), true))
    } else {
        Err(cursor.unexpected_at(1, Expected::Identifier))
    }
}

/// Parses `[key]` behind `node`.
#[verifier::spinoff_prover]
fn parse_index(cursor: &mut Cursor, ctx: GrammarContext, node: Node, calls: bool) -> (r: Result<
    (Node, bool),
    ParseError,
>)
    requires
        punctuator_at(old(cursor).tokens(), old(cursor).pos(), Punctuator::OpenBracket),
    ensures
        suffix_parsed(*old(cursor), *final(cursor), r, ctx, node@, calls),
    decreases left(old(cursor).tokens(), old(cursor).pos()), 85nat,
{
    reveal(tail);
    reveal(expression);
    cursor.skip();
    match parse_expression(cursor, ctx.with_in(true)) {
        Ok(key) => {
            if cursor.at_punctuator(0, Punctuator::CloseBracket) {
                cursor.skip();
                Ok((Node::get_field(node, key), true))
            } else {
                Err(cursor.unexpected(Expected::Punctuator(Punctuator::CloseBracket)))
            }
        },
        Err(e) => Err(e),
    }
}

/// Parses `(arguments)` behind `node`.
#[verifier::spinoff_prover]
fn parse_call(cursor: &mut Cursor, ctx: GrammarContext, node: Node) -> (r: Result<
    (Node, bool),
    ParseError,
>)
    requires
        punctuator_at(old(cursor).tokens(), old(cursor).pos(), Punctuator::OpenParen),
    ensures
        suffix_parsed(*old(cursor), *final(cursor), r, ctx, node@, true),
    decreases left(old(cursor).tokens(), old(cursor).pos()), 85nat,
{
    reveal(tail);
    reveal(expression_list);
    cursor.skip();
    match parse_expression_list(cursor, ctx, Punctuator::CloseParen) {
        Ok(args) => Ok((Node::call(node, args), true)),
        Err(e) => Err(e),
    }
}

/// Parses one thing that follows the expression `node` and belongs to it,
/// if there is one: the result holds the expression so far, and whether
/// more may follow.
#[verifier::spinoff_prover]
pub fn parse_suffix(cursor: &mut Cursor, ctx: GrammarContext, node: Node, calls: bool) -> (r: Result<
    (Node, bool),
    ParseError,
>)
    ensures
        suffix_parsed(*old(cursor), *final(cursor), r, ctx, node@, calls),
    decreases left(old(cursor).tokens(), old(cursor).pos()), 90nat,
{
    if cursor.at_punctuator(0, Punctuator::Dot) {
        parse_member(cursor, ctx, node, calls)
    } else if cursor.at_punctuator(0, Punctuator::OpenBracket) {
        parse_index(cursor, ctx, node, calls)
    } else if calls && cursor.at_punctuator(0, Punctuator::OpenParen) {
        parse_call(cursor, ctx, node)
    } else {
        reveal(tail);
        Ok((node, false))
    }
}

/// Parses what follows an expression and belongs to it.
#[verifier::spinoff_prover]
pub fn parse_tail(cursor: &mut Cursor, ctx: GrammarContext, node: Node, calls: bool) -> (r: Result<
    Node,
    ParseError,
>)
    ensures
        parses(
            *old(cursor),
            *final(cursor),
            r,
            tail(old(cursor).tokens(), old(cursor).pos(), ctx, node@, calls),
        ),
    decreases left(old(cursor).tokens(), old(cursor).pos()), 100nat,
{
    let ghost tokens = cursor.tokens();
    let ghost start = cursor.pos();
    let ghost first = node@;
    let ghost goal = tail(tokens, start, ctx, first, calls);
    let mut current = node;
    loop
        invariant
            cursor.tokens() == tokens,
            tokens == old(cursor).tokens(),
            start == old(cursor).pos(),
            cursor.pos() >= start,
            first == node@,
            goal == tail(tokens, start, ctx, first, calls),
            goal == shift(
                tail(tokens, cursor.pos(), ctx, current@, calls),
                (cursor.pos() - start) as nat,
            ),
        decreases left(tokens, cursor.pos()),
    {
        match parse_suffix(cursor, ctx, current, calls) {
            Ok((next, more)) => {
                current = next;
                if !more {
                    return Ok(current);
                }
            },
            Err(e) => {
                return Err(e);
            },
        }
    }
}

/// Parses the arguments of a `new` expression whose constructor is
/// `callee`, where they are written.
#[verifier::spinoff_prover]
pub fn parse_new_arguments(cursor: &mut Cursor, ctx: GrammarContext, callee: Node) -> (r: Result<
    Node,
    ParseError,
>)
    ensures
        parses(
            *old(cursor),
            *final(cursor),
            r,
            new_arguments(old(cursor).tokens(), old(cursor).pos(), ctx, callee@),
        ),
    decreases left(old(cursor).tokens(), old(cursor).pos()), 90nat,
{
    reveal(new_arguments);
    reveal(expression_list);
    if cursor.at_punctuator(0, Punctuator::OpenParen) {
        cursor.skip();
        match parse_expression_list(cursor, ctx, Punctuator::CloseParen) {
            Ok(args) => Ok(Node::construct(callee, args)),
            Err(e) => Err(e),
        }
    } else {
        let args: Vec<Node> = Vec::new();
        assert(node_views(args@) =~= Seq::<NodeV>::empty());
        Ok(Node::construct(callee, args))
    }
}

/// Parses the member accesses and the arguments of a `new` expression whose
/// `new` stands one token before `start` and whose constructor so far is
/// `head`.
#[verifier::spinoff_prover]
fn parse_new_rest(cursor: &mut Cursor, ctx: GrammarContext, head: Node, Ghost(start): Ghost<int>) -> (r:
    Result<Node, ParseError>)
    requires
        start <= old(cursor).pos(),
    ensures
        final(cursor).tokens() == old(cursor).tokens(),
        agrees(
            node_result(r),
            final(cursor).pos() - start,
            match tail(old(cursor).tokens(), old(cursor).pos(), ctx, head@, false) {
                Ok((callee, m)) => shift(
                    new_arguments(old(cursor).tokens(), old(cursor).pos() + m, ctx, callee),
                    (old(cursor).pos() - start + m) as nat,
                ),
                Err(e) => Err(e),
            },
        ),
    decreases left(old(cursor).tokens(), old(cursor).pos()), 110nat,
{
    match parse_tail(cursor, ctx, head, false) {
        Ok(callee) => parse_new_arguments(cursor, ctx, callee),
        Err(e) => Err(e),
    }
}

/// Parses a `new` expression whose constructor is a `new` expression.
#[verifier::spinoff_prover]
fn parse_new_of_new(cursor: &mut Cursor, ctx: GrammarContext) -> (r: Result<Node, ParseError>)
    requires
        keyword_at(old(cursor).tokens(), old(cursor).pos(), Keyword::New),
        keyword_at(old(cursor).tokens(), old(cursor).pos() + 1, Keyword::New),
    ensures
        parses(
            *old(cursor),
            *final(cursor),
            r,
            new_expression(old(cursor).tokens(), old(cursor).pos(), ctx),
        ),
    decreases left(old(cursor).tokens(), old(cursor).pos()), 215nat,
{
    reveal(new_expression);
    let ghost start = cursor.pos();
    cursor.skip();
    match parse_new_expression(cursor, ctx) {
        Ok(h) => parse_new_rest(cursor, ctx, h, Ghost(start)),
        Err(e) => Err(e),
    }
}

/// Parses a `new` expression whose constructor is a primary expression.
#[verifier::spinoff_prover]
fn parse_new_of_primary(cursor: &mut Cursor, ctx: GrammarContext) -> (r: Result<Node, ParseError>)
    requires
        keyword_at(old(cursor).tokens(), old(cursor).pos(), Keyword::New),
        !keyword_at(old(cursor).tokens(), old(cursor).pos() + 1, Keyword::New),
    ensures
        parses(
            *old(cursor),
            *final(cursor),
            r,
            new_expression(old(cursor).tokens(), old(cursor).pos(), ctx),
        ),
    decreases left(old(cursor).tokens(), old(cursor).pos()), 215nat,
{
    reveal(new_expression);
    let ghost start = cursor.pos();
    cursor.skip();
    match parse_primary(cursor, ctx) {
        Ok(h) => parse_new_rest(cursor, ctx, h, Ghost(start)),
        Err(e) => Err(e),
    }
}

/// Parses a `new` expression.
#[verifier::spinoff_prover]
pub fn parse_new_expression(cursor: &mut Cursor, ctx: GrammarContext) -> (r: Result<
    Node,
    ParseError,
>)
    ensures
        parses(
            *old(cursor),
            *final(cursor),
            r,
            new_expression(old(cursor).tokens(), old(cursor).pos(), ctx),
        ),
    decreases left(old(cursor).tokens(), old(cursor).pos()), 220nat,
{
    if !cursor.at_keyword(0, Keyword::New) {
        reveal(new_expression);
        Err(cursor.unexpected(Expected::Keyword(Keyword::New)))
    } else if cursor.at_keyword(1, Keyword::New) {
        parse_new_of_new(cursor, ctx)
    } else {
        parse_new_of_primary(cursor, ctx)
    }
}

/// Parses a left-hand-side expression that starts with `new`.
#[verifier::spinoff_prover]
fn parse_left_hand_side_new(cursor: &mut Cursor, ctx: GrammarContext) -> (r: Result<
    Node,
    ParseError,
>)
    requires
        keyword_at(old(cursor).tokens(), old(cursor).pos(), Keyword::New),
    ensures
        parses(
            *old(cursor),
            *final(cursor),
            r,
            left_hand_side(old(cursor).tokens(), old(cursor).pos(), ctx),
        ),
    decreases left(old(cursor).tokens(), old(cursor).pos()), 225nat,
{
    reveal(left_hand_side);
    match parse_new_expression(cursor, ctx) {
        Ok(h) => parse_tail(cursor, ctx, h, true),
        Err(e) => Err(e),
    }
}

/// Parses a left-hand-side expression that starts with a primary
/// expression.
#[verifier::spinoff_prover]
fn parse_left_hand_side_primary(cursor: &mut Cursor, ctx: GrammarContext) -> (r: Result<
    Node,
    ParseError,
>)
    requires
        !keyword_at(old(cursor).tokens(), old(cursor).pos(), Keyword::New),
    ensures
        parses(
            *old(cursor),
            *final(cursor),
            r,
            left_hand_side(old(cursor).tokens(), old(cursor).pos(), ctx),
        ),
    decreases left(old(cursor).tokens(), old(cursor).pos()), 225nat,
{
    reveal(left_hand_side);
    match parse_primary(cursor, ctx) {
        Ok(h) => parse_tail(cursor, ctx, h, true),
        Err(e) => Err(e),
    }
}

/// Parses a left-hand-side expression.
#[verifier::spinoff_prover]
pub fn parse_left_hand_side(cursor: &mut Cursor, ctx: GrammarContext) -> (r: Result<
    Node,
    ParseError,
>)
    ensures
        parses(
            *old(cursor),
            *final(cursor),
            r,
            left_hand_side(old(cursor).tokens(), old(cursor).pos(), ctx),
        ),
    decreases left(old(cursor).tokens(), old(cursor).pos()), 230nat,
{
    if cursor.at_keyword(0, Keyword::New) {
        parse_left_hand_side_new(cursor, ctx)
    } else {
        parse_left_hand_side_primary(cursor, ctx)
    }
}

#[verifier::when_used_as_spec(spec_prefix_update)]
pub fn prefix_update(kind: TokenKind) -> (r: Option<UnaryOp>)
    ensures
        r == spec_prefix_update(kind),
{
    match kind {
        TokenKind::Punctuator(Punctuator::Inc) => Some(UnaryOp::IncrementPre),
        TokenKind::Punctuator(Punctuator::Dec) => Some(UnaryOp::DecrementPre),
        _ => None,
    }
}

#[verifier::when_used_as_spec(spec_postfix_update)]
pub fn postfix_update(kind: TokenKind) -> (r: Option<UnaryOp>)
    ensures
        r == spec_postfix_update(kind),
{
    match kind {
        TokenKind::Punctuator(Punctuator::Inc) => Some(UnaryOp::IncrementPost),
        TokenKind::Punctuator(Punctuator::Dec) => Some(UnaryOp::DecrementPost),
        _ => None,
    }
}

/// Parses an update expression.
#[verifier::spinoff_prover]
pub fn parse_update(cursor: &mut Cursor, ctx: GrammarContext) -> (r: Result<Node, ParseError>)
    ensures
        parses(*old(cursor), *final(cursor), r, update(old(cursor).tokens(), old(cursor).pos(), ctx)),
    decreases left(old(cursor).tokens(), old(cursor).pos()), 240nat,
{
    reveal(update);
    reveal(unary);
    reveal(left_hand_side);
    match prefix_update(cursor.peek_kind(0)) {
        Some(op) => {
            cursor.skip();
            let position = cursor.position();
            match parse_unary(cursor, ctx) {
                Ok(e) => {
                    if e.is_assignment_target() {
                        Ok(Node::unary(op, e))
                    } else {
                        Err(ParseError::InvalidAssignmentTarget { position })
                    }
                },
                Err(e) => Err(e),
            }
        },
        None => {
            let position = cursor.position();
            match parse_left_hand_side(cursor, ctx) {
                Ok(e) => match postfix_update(cursor.peek_kind(0)) {
                    Some(op) => {
                        if cursor.peek_newline(0) {
                            Ok(e)
                        } else if e.is_assignment_target() {
                            cursor.skip();
                            Ok(Node::unary(op, e))
                        } else {
                            Err(ParseError::InvalidAssignmentTarget { position })
                        }
                    },
                    None => Ok(e),
                },
                Err(e) => Err(e),
            }
        },
    }
}

/// Parses a unary expression.
#[verifier::spinoff_prover]
pub fn parse_unary(cursor: &mut Cursor, ctx: GrammarContext) -> (r: Result<Node, ParseError>)
    ensures
        parses(*old(cursor), *final(cursor), r, unary(old(cursor).tokens(), old(cursor).pos(), ctx)),
    decreases left(old(cursor).tokens(), old(cursor).pos()), 250nat,
{
    reveal(unary);
    reveal(update);
    match unary_operator(cursor.peek_kind(0)) {
        Some(op) => {
            cursor.skip();
            match parse_unary(cursor, ctx) {
                Ok(e) => Ok(Node::unary(op, e)),
                Err(e) => Err(e),
            }
        },
        None => {
            if cursor.at_keyword(0, Keyword::Await) {
                if ctx.allow_await {
                    cursor.skip();
                    match parse_unary(cursor, ctx) {
                        Ok(e) => Ok(Node::await_expression(e)),
                        Err(e) => Err(e),
                    }
                } else {
                    Err(
                        ParseError::ContextViolation {
                            keyword: Keyword::Await,
                            position: cursor.position(),
                        },
                    )
                }
            } else {
                parse_update(cursor, ctx)
            }
        },
    }
}

/// Parses an exponentiation.
#[verifier::spinoff_prover]
pub fn parse_exponentiation(cursor: &mut Cursor, ctx: GrammarContext) -> (r: Result<
    Node,
    ParseError,
>)
    ensures
        parses(
            *old(cursor),
            *final(cursor),
            r,
            exponentiation(old(cursor).tokens(), old(cursor).pos(), ctx),
        ),
    decreases left(old(cursor).tokens(), old(cursor).pos()), 260nat,
{
    reveal(exponentiation);
    reveal(unary);
    reveal(update);
    if unary_operator(cursor.peek_kind(0)).is_some() || cursor.at_keyword(0, Keyword::Await) {
        return parse_unary(cursor, ctx);
    }
    match parse_update(cursor, ctx) {
        Ok(base) => {
            if cursor.at_punctuator(0, Punctuator::Exp) {
                cursor.skip();
                match parse_exponentiation(cursor, ctx) {
                    Ok(e) => Ok(Node::binary(BinOp::Num(NumOp::Exp), base, e)),
                    Err(e) => Err(e),
                }
            } else {
                Ok(base)
            }
        },
        Err(e) => Err(e),
    }
}

/// Parses a chain of binary operators of precedence `min` or higher, by
/// precedence climbing.
#[verifier::spinoff_prover]
pub fn parse_binary(cursor: &mut Cursor, ctx: GrammarContext, min: u8) -> (r: Result<
    Node,
    ParseError,
>)
    ensures
        parses(
            *old(cursor),
            *final(cursor),
            r,
            binary(old(cursor).tokens(), old(cursor).pos(), ctx, min),
        ),
    decreases left(old(cursor).tokens(), old(cursor).pos()), 270nat,
{
    reveal(binary);
    reveal(binary_rest);
    reveal(exponentiation);
    let ghost tokens = cursor.tokens();
    let ghost start = cursor.pos();
    let ghost goal = binary(tokens, start, ctx, min);
    let mut operand = match parse_exponentiation(cursor, ctx) {
        Ok(first) => first,
        Err(e) => {
            return Err(e);
        },
    };
    loop
        invariant
            cursor.tokens() == tokens,
            tokens == old(cursor).tokens(),
            start == old(cursor).pos(),
            cursor.pos() >= start,
            goal == binary(tokens, start, ctx, min),
            goal == shift(
                binary_rest(tokens, cursor.pos(), ctx, min, operand@),
                (cursor.pos() - start) as nat,
            ),
        decreases left(tokens, cursor.pos()),
    {
        reveal(binary);
        reveal(binary_rest);
        reveal(exponentiation);
        match binary_operator(cursor.peek_kind(0), ctx) {
            Some((op, prec)) => {
                if prec >= min {
                    cursor.skip();
                    match parse_binary(cursor, ctx, prec + 1) {
                        Ok(right) => {
                            operand = Node::binary(op, operand, right);
                        },
                        Err(e) => {
                            return Err(e);
                        },
                    }
                } else {
                    return Ok(operand);
                }
            },
            None => {
                return Ok(operand);
            },
        }
    }
}

/// Parses a conditional expression.
#[verifier::spinoff_prover]
pub fn parse_conditional(cursor: &mut Cursor, ctx: GrammarContext) -> (r: Result<Node, ParseError>)
    ensures
        parses(
            *old(cursor),
            *final(cursor),
            r,
            conditional(old(cursor).tokens(), old(cursor).pos(), ctx),
        ),
    decreases left(old(cursor).tokens(), old(cursor).pos()), 280nat,
{
    reveal(conditional);
    reveal(binary);
    reveal(assignment);
    match parse_binary(cursor, ctx, 1) {
        Ok(c) => {
            if cursor.at_punctuator(0, Punctuator::Question) {
                cursor.skip();
                match parse_assignment(cursor, ctx.with_in(true)) {
                    Ok(a) => {
                        if cursor.at_punctuator(0, Punctuator::Colon) {
                            cursor.skip();
                            match parse_assignment(cursor, ctx) {
                                Ok(b) => Ok(Node::conditional(c, a, b)),
                                Err(e) => Err(e),
                            }
                        } else {
                            Err(cursor.unexpected(Expected::Punctuator(Punctuator::Colon)))
                        }
                    },
                    Err(e) => Err(e),
                }
            } else {
                Ok(c)
            }
        },
        Err(e) => Err(e),
    }
}

#[verifier::when_used_as_spec(spec_ends_yield)]
pub fn ends_yield(kind: TokenKind) -> (r: bool)
    ensures
        r == spec_ends_yield(kind),
{
    match kind {
        TokenKind::Punctuator(p) => p == Punctuator::CloseParen || p == Punctuator::CloseBracket
            || p == Punctuator::CloseBlock || p == Punctuator::Comma || p == Punctuator::Semicolon
            || p == Punctuator::Colon,
        TokenKind::EndOfInput => true,
        _ => false,
    }
}

/// Parses a `yield` expression.
#[verifier::spinoff_prover]
pub fn parse_yield_expression(cursor: &mut Cursor, ctx: GrammarContext) -> (r: Result<
    Node,
    ParseError,
>)
    ensures
        parses(
            *old(cursor),
            *final(cursor),
            r,
            yield_expression(old(cursor).tokens(), old(cursor).pos(), ctx),
        ),
    decreases left(old(cursor).tokens(), old(cursor).pos()), 290nat,
{
    reveal(yield_expression);
    reveal(assignment);
    if !cursor.at_keyword(0, Keyword::Yield) {
        return Err(cursor.unexpected(Expected::Keyword(Keyword::Yield)));
    }
    cursor.skip();
    if cursor.peek_newline(0) || ends_yield(cursor.peek_kind(0)) {
        Ok(Node::yield_expression(None, false))
    } else if cursor.at_punctuator(0, Punctuator::Mul) {
        cursor.skip();
        match parse_assignment(cursor, ctx) {
            Ok(e) => Ok(Node::yield_expression(Some(e), true)),
            Err(e) => Err(e),
        }
    } else {
        match parse_assignment(cursor, ctx) {
            Ok(e) => Ok(Node::yield_expression(Some(e), false)),
            Err(e) => Err(e),
        }
    }
}

/// Parses an assignment expression.
#[verifier::spinoff_prover]
pub fn parse_assignment(cursor: &mut Cursor, ctx: GrammarContext) -> (r: Result<Node, ParseError>)
    ensures
        parses(
            *old(cursor),
            *final(cursor),
            r,
            assignment(old(cursor).tokens(), old(cursor).pos(), ctx),
        ),
    decreases left(old(cursor).tokens(), old(cursor).pos()), 300nat,
{
    reveal(assignment);
    reveal(yield_expression);
    reveal(arrow_function);
    reveal(conditional);
    if cursor.at_keyword(0, Keyword::Yield) {
        if ctx.allow_yield {
            return parse_yield_expression(cursor, ctx);
        } else {
            return Err(
                ParseError::ContextViolation {
                    keyword: Keyword::Yield,
                    position: cursor.position(),
                },
            );
        }
    }
    if at_arrow_head(cursor) {
        return parse_arrow_function(cursor, ctx);
    }
    let position = cursor.position();
    match parse_conditional(cursor, ctx) {
        Ok(target) => match assignment_operator(cursor.peek_kind(0)) {
            Some(op) => {
                if target.is_assignment_target() {
                    cursor.skip();
                    match parse_assignment(cursor, ctx) {
                        Ok(value) => Ok(Node::assignment(op, target, value)),
                        Err(e) => Err(e),
                    }
                } else {
                    Err(ParseError::InvalidAssignmentTarget { position })
                }
            },
            None => Ok(target),
        },
        Err(e) => Err(e),
    }
}

/// Parses an expression.
#[verifier::spinoff_prover]
pub fn parse_expression(cursor: &mut Cursor, ctx: GrammarContext) -> (r: Result<Node, ParseError>)
    ensures
        parses(
            *old(cursor),
            *final(cursor),
            r,
            expression(old(cursor).tokens(), old(cursor).pos(), ctx),
        ),
    decreases left(old(cursor).tokens(), old(cursor).pos()), 400nat,
{
    reveal(expression);
    reveal(comma_rest);
    reveal(assignment);
    let ghost tokens = cursor.tokens();
    let ghost start = cursor.pos();
    let ghost goal = expression(tokens, start, ctx);
    let mut operand = match parse_assignment(cursor, ctx) {
        Ok(first) => first,
        Err(e) => {
            return Err(e);
        },
    };
    loop
        invariant
            cursor.tokens() == tokens,
            tokens == old(cursor).tokens(),
            start == old(cursor).pos(),
            cursor.pos() >= start,
            goal == expression(tokens, start, ctx),
            goal == shift(
                comma_rest(tokens, cursor.pos(), ctx, operand@),
                (cursor.pos() - start) as nat,
            ),
        decreases left(tokens, cursor.pos()),
    {
        reveal(expression);
        reveal(comma_rest);
        reveal(assignment);
        if cursor.at_punctuator(0, Punctuator::Comma) {
            cursor.skip();
            match parse_assignment(cursor, ctx) {
                Ok(right) => {
                    operand = Node::binary(BinOp::Comma, operand, right);
                },
                Err(e) => {
                    return Err(e);
                },
            }
        } else {
            return Ok(operand);
        }
    }
}

} // verus!
