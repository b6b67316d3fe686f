//! The class grammar and its parser.

use vstd::prelude::*;
use vstd::string::*;
use crate::syntax::ast::node::{
    boxed_option, lemma_method_views_push, method_views, node_option_view, ClassMethod,
    ClassMethodV, Node, NodeV,
};
use crate::syntax::ast::op::FunctionKind;
use crate::syntax::lexer::bytes::bytes_eq;
use crate::syntax::lexer::token::{Keyword, Punctuator, TokenKind, TokenV};
use crate::syntax::parser::cursor::{kind_at, left, text_at, Cursor};
use crate::syntax::parser::error::{Expected, ParseError};
use crate::syntax::parser::expression::{left_hand_side, parse_left_hand_side};
use crate::syntax::parser::function::{
    formal_parameters, function_body, parse_formal_parameters, parse_function_body,
};
use crate::syntax::parser::grammar::{
    agrees, keyword_at, parses, punctuator_at, shift, unexpected, GrammarContext, Parsed,
};

verus! {

/// The word that marks a method as a method of the class itself.
pub open spec fn static_word() -> Seq<u8> {
    "static".spec_bytes()
}

/// Whether a static method starts at `pos`: the name `static` before
/// another name.
pub open spec fn static_at(tokens: Seq<TokenV>, pos: int) -> bool {
    kind_at(tokens, pos) == TokenKind::Identifier && text_at(tokens, pos) == static_word()
        && kind_at(tokens, pos + 1) == TokenKind::Identifier
}

/// The context of the parameters and the body of a method: that of a plain
/// function.
pub open spec fn method_context() -> GrammarContext {
    GrammarContext::spec_function(FunctionKind::Normal)
}

/// The rest of the body of a class up to and with its `}`: the methods
/// parsed so far are `done`. A method is a name, with or without `static`
/// before it, a parameter list and a function body. A `;` between methods
/// stands for nothing.
#[verifier::opaque]
pub open spec fn class_elements(tokens: Seq<TokenV>, pos: int, done: Seq<ClassMethodV>) -> Parsed<
    Seq<ClassMethodV>,
>
    decreases left(tokens, pos), 45nat,
{
    if punctuator_at(tokens, pos, Punctuator::CloseBlock) {
        Ok((done, 1nat))
    } else if punctuator_at(tokens, pos, Punctuator::Semicolon) {
        shift(class_elements(tokens, pos + 1, done), 1)
    } else if kind_at(tokens, pos) != TokenKind::Identifier {
        Err(unexpected(tokens, pos, Expected::Identifier))
    } else {
        let is_static = static_at(tokens, pos);
        let s: nat = if is_static {
            1
        } else {
            0
        };
        if !punctuator_at(tokens, pos + s + 1, Punctuator::OpenParen) {
            Err(unexpected(tokens, pos + s + 1, Expected::Punctuator(Punctuator::OpenParen)))
        } else {
            match formal_parameters(tokens, pos + s + 2, method_context(), Seq::empty()) {
                Ok((params, n)) => match function_body(
                    tokens,
                    pos + s + n + 2,
                    method_context(),
                ) {
                    Ok((body, m)) => shift(
                        class_elements(
                            tokens,
                            pos + s + n + m + 2,
                            done.push(
                                ClassMethodV {
                                    name: text_at(tokens, pos + s),
                                    is_static,
                                    params,
                                    body,
                                },
                            ),
                        ),
                        s + n + m + 2,
                    ),
                    Err(e) => Err(e),
                },
                Err(e) => Err(e),
            }
        }
    }
}

/// The body of the class `name`, which extends `heritage`, from its `{`
/// on.
#[verifier::opaque]
pub open spec fn class_body(
    tokens: Seq<TokenV>,
    pos: int,
    name: Seq<u8>,
    heritage: Option<NodeV>,
) -> Parsed<NodeV>
    decreases left(tokens, pos), 46nat,
{
    if !punctuator_at(tokens, pos, Punctuator::OpenBlock) {
        Err(unexpected(tokens, pos, Expected::Punctuator(Punctuator::OpenBlock)))
    } else {
        match class_elements(tokens, pos + 1, Seq::empty()) {
            Ok((methods, m)) => Ok(
                (NodeV::ClassDecl(name, boxed_option(heritage), methods), m + 1),
            ),
            Err(e) => Err(e),
        }
    }
}

/// A class declaration, from its `class` on: the name, the class that it
/// extends, where one is written, which is a left-hand-side expression, and
/// the methods between braces.
#[verifier::opaque]
pub open spec fn class_declaration(tokens: Seq<TokenV>, pos: int, ctx: GrammarContext) -> Parsed<
    NodeV,
>
    decreases left(tokens, pos), 47nat,
{
    if !keyword_at(tokens, pos, Keyword::Class) {
        Err(unexpected(tokens, pos, Expected::Keyword(Keyword::Class)))
    } else if kind_at(tokens, pos + 1) != TokenKind::Identifier {
        Err(unexpected(tokens, pos + 1, Expected::Identifier))
    } else if keyword_at(tokens, pos + 2, Keyword::Extends) {
        match left_hand_side(tokens, pos + 3, ctx) {
            Ok((h, n)) => shift(
                class_body(tokens, pos + n + 3, text_at(tokens, pos + 1), Some(h)),
                n + 3,
            ),
            Err(e) => Err(e),
        }
    } else {
        shift(class_body(tokens, pos + 2, text_at(tokens, pos + 1), None), 2)
    }
}

/// The value of the result of a function that parses methods.
pub open spec fn methods_result(r: Result<Vec<ClassMethod>, ParseError>) -> Result<
    Seq<ClassMethodV>,
    ParseError,
> {
    match r {
        Ok(v) => Ok(method_views(v@)),
        Err(e) => Err(e),
    }
}

/// Whether a static method starts at the next token.
pub fn at_static(cursor: &Cursor) -> (r: bool)
    ensures
        r == static_at(cursor.tokens(), cursor.pos()),
{
    if cursor.at_identifier(0) && cursor.at_identifier(1) {
        let text = cursor.text();
        bytes_eq(text.as_slice(), "static".as_bytes())
    } else {
        false
    }
}

/// Parses the rest of the body of a class up to and with its `}`.
#[verifier::spinoff_prover]
pub fn parse_class_elements(cursor: &mut Cursor) -> (r: Result<Vec<ClassMethod>, ParseError>)
    ensures
        final(cursor).tokens() == old(cursor).tokens(),
        agrees(
            methods_result(r),
            final(cursor).pos() - old(cursor).pos(),
            class_elements(old(cursor).tokens(), old(cursor).pos(), Seq::empty()),
        ),
    decreases left(old(cursor).tokens(), old(cursor).pos()), 450nat,
{
    reveal(class_elements);
    reveal(formal_parameters);
    reveal(function_body);
    let ghost tokens = cursor.tokens();
    let ghost start = cursor.pos();
    let ghost goal = class_elements(tokens, start, Seq::empty());
    let mut methods: Vec<ClassMethod> = Vec::new();
    assert(method_views(methods@) =~= Seq::<ClassMethodV>::empty());
    loop
        invariant
            cursor.tokens() == tokens,
            tokens == old(cursor).tokens(),
            start == old(cursor).pos(),
            cursor.pos() >= start,
            goal == class_elements(tokens, start, Seq::empty()),
            goal == shift(
                class_elements(tokens, cursor.pos(), method_views(methods@)),
                (cursor.pos() - start) as nat,
            ),
        decreases left(tokens, cursor.pos()),
    {
        reveal(class_elements);
        reveal(formal_parameters);
        reveal(function_body);
        if cursor.at_punctuator(0, Punctuator::CloseBlock) {
            cursor.skip();
            return Ok(methods);
        }
        if cursor.at_punctuator(0, Punctuator::Semicolon) {
            cursor.skip();
        } else {
            if !cursor.at_identifier(0) {
                return Err(cursor.unexpected(Expected::Identifier));
            }
            let is_static = at_static(cursor);
            if is_static {
                cursor.skip();
            }
            let name = cursor.text();
            if !cursor.at_punctuator(1, Punctuator::OpenParen) {
                return Err(cursor.unexpected_at(1, Expected::Punctuator(Punctuator::OpenParen)));
            }
            cursor.skip();
            cursor.skip();
            let inner = GrammarContext::function(FunctionKind::Normal);
            let params = match parse_formal_parameters(cursor, inner) {
                Ok(p) => p,
                Err(e) => {
                    return Err(e);
                },
            };
            let body = match parse_function_body(cursor, inner) {
                Ok(b) => b,
                Err(e) => {
                    return Err(e);
                },
            };
            let method = ClassMethod::new(name, is_static, params, body);
            proof {
                lemma_method_views_push(methods@, method);
            }
            methods.push(method);
        }
    }
}

/// Parses the body of the class `name`, which extends `heritage`, from its
/// `{` on.
#[verifier::spinoff_prover]
pub fn parse_class_body(cursor: &mut Cursor, name: Vec<u8>, heritage: Option<Node>) -> (r: Result<
    Node,
    ParseError,
>)
    ensures
        parses(
            *old(cursor),
            *final(cursor),
            r,
            class_body(
                old(cursor).tokens(),
                old(cursor).pos(),
                name@,
                node_option_view(heritage),
            ),
        ),
    decreases left(old(cursor).tokens(), old(cursor).pos()), 455nat,
{
    reveal(class_body);
    reveal(class_elements);
    if !cursor.at_punctuator(0, Punctuator::OpenBlock) {
        return Err(cursor.unexpected(Expected::Punctuator(Punctuator::OpenBlock)));
    }
    cursor.skip();
    match parse_class_elements(cursor) {
        Ok(methods) => Ok(Node::class_decl(name, heritage, methods)),
        Err(e) => Err(e),
    }
}

/// Parses a class declaration.
#[verifier::spinoff_prover]
pub fn parse_class_declaration(cursor: &mut Cursor, ctx: GrammarContext) -> (r: Result<
    Node,
    ParseError,
>)
    ensures
        parses(
            *old(cursor),
            *final(cursor),
            r,
            class_declaration(old(cursor).tokens(), old(cursor).pos(), ctx),
        ),
    decreases left(old(cursor).tokens(), old(cursor).pos()), 460nat,
{
    reveal(class_declaration);
    reveal(class_body);
    reveal(left_hand_side);
    if !cursor.at_keyword(0, Keyword::Class) {
        return Err(cursor.unexpected(Expected::Keyword(Keyword::Class)));
    }
    if !cursor.at_identifier(1) {
        return Err(cursor.unexpected_at(1, Expected::Identifier));
    }
    let name = cursor.peek_text(1);
    cursor.skip();
    cursor.skip();
    if cursor.at_keyword(0, Keyword::Extends) {
        cursor.skip();
        match parse_left_hand_side(cursor, ctx) {
            Ok(h) => parse_class_body(cursor, name, Some(h)),
            Err(e) => Err(e),
        }
    } else {
        parse_class_body(cursor, name, None)
    }
}

} // verus!
