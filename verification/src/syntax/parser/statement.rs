//! The statement grammar and its parser.

use vstd::prelude::*;
use crate::syntax::ast::node::{
    boxed_option, declaration_views, lemma_declaration_views_push, lemma_node_views_push,
    node_views, Declaration, DeclarationV, Node, NodeV,
};
use crate::syntax::lexer::token::{Keyword, Punctuator, TokenKind, TokenV};
use crate::syntax::parser::class::{class_declaration, parse_class_declaration};
use crate::syntax::parser::cursor::{kind_at, left, newline_at, position_at, text_at, Cursor};
use crate::syntax::parser::error::{Expected, ParseError, Rule};
use crate::syntax::parser::expression::{
    assignment, at_function, expression, function_at, parse_assignment, parse_expression,
};
use crate::syntax::parser::function::{function, parse_function};
use crate::syntax::parser::grammar::{
    agrees, declarations_result, keyword_at, nodes_result, option_result, parses, punctuator_at,
    shift, unexpected, GrammarContext, Parsed,
};

verus! {

/// How a statement ends at `pos`, the place behind its last token: with a
/// `;`, which is consumed; or with nothing written, where a line terminator
/// stands before the next token, or the next token is a `}` or the end of
/// the text. Anything else is an error. The result is the number of tokens
/// consumed.
pub open spec fn terminator(tokens: Seq<TokenV>, pos: int) -> Result<nat, ParseError> {
    if punctuator_at(tokens, pos, Punctuator::Semicolon) {
        Ok(1nat)
    } else if newline_at(tokens, pos) || punctuator_at(tokens, pos, Punctuator::CloseBlock)
        || kind_at(tokens, pos) == TokenKind::EndOfInput {
        Ok(0nat)
    } else {
        Err(unexpected(tokens, pos, Expected::Terminator))
    }
}

/// The statement `node`, which took `used` tokens, with its end at `pos`.
pub open spec fn terminated(tokens: Seq<TokenV>, pos: int, node: NodeV, used: nat) -> Parsed<NodeV> {
    match terminator(tokens, pos) {
        Ok(k) => Ok((node, used + k)),
        Err(e) => Err(e),
    }
}

/// Which declaration a keyword opens.
#[derive(Clone, Copy, Debug, PartialEq, Eq, Structural)]
pub enum Binding {
    Var,
    Let,
    Const,
}

/// The declaration that the token at `pos` opens.
pub open spec fn binding_at(tokens: Seq<TokenV>, pos: int) -> Option<Binding> {
    match kind_at(tokens, pos) {
        TokenKind::Keyword(Keyword::Var) => Some(Binding::Var),
        TokenKind::Keyword(Keyword::Let) => Some(Binding::Let),
        TokenKind::Keyword(Keyword::Const) => Some(Binding::Const),
        _ => None,
    }
}

/// The node of a declaration of the given kind.
pub open spec fn declaration_node(binding: Binding, decls: Seq<DeclarationV>) -> NodeV {
    match binding {
        Binding::Var => NodeV::VarDeclList(decls),
        Binding::Let => NodeV::LetDeclList(decls),
        Binding::Const => NodeV::ConstDeclList(decls),
    }
}

/// The rest of the bindings of a declaration: those parsed so far are
/// `done`. A binding is a name, with or without `=` and a value; a `const`
/// binding has a value. Commas stand between the bindings.
#[verifier::opaque]
pub open spec fn declarations(
    tokens: Seq<TokenV>,
    pos: int,
    ctx: GrammarContext,
    binding: Binding,
    done: Seq<DeclarationV>,
) -> Parsed<Seq<DeclarationV>>
    decreases left(tokens, pos), 44nat,
{
    if kind_at(tokens, pos) != TokenKind::Identifier {
        Err(unexpected(tokens, pos, Expected::Identifier))
    } else {
        let init: Parsed<Option<NodeV>> = if punctuator_at(tokens, pos + 1, Punctuator::Assign) {
            match assignment(tokens, pos + 2, ctx) {
                Ok((e, n)) => Ok((Some(e), n + 2)),
                Err(e) => Err(e),
            }
        } else if binding == Binding::Const {
            Err(
                ParseError::General {
                    rule: Rule::ConstInitializer,
                    position: position_at(tokens, pos),
                },
            )
        } else {
            Ok((None, 1nat))
        };
        match init {
            Ok((init, n)) => {
                let all = done.push(DeclarationV { name: text_at(tokens, pos), init });
                if punctuator_at(tokens, pos + n, Punctuator::Comma) {
                    shift(declarations(tokens, pos + n + 1, ctx, binding, all), n + 1)
                } else {
                    Ok((all, n))
                }
            },
            Err(e) => Err(e),
        }
    }
}

/// A declaration, from its keyword on, without its end.
#[verifier::opaque]
pub open spec fn declaration(tokens: Seq<TokenV>, pos: int, ctx: GrammarContext) -> Parsed<NodeV>
    decreases left(tokens, pos), 45nat,
{
    match binding_at(tokens, pos) {
        Some(binding) => match declarations(tokens, pos + 1, ctx, binding, Seq::empty()) {
            Ok((decls, n)) => Ok((declaration_node(binding, decls), n + 1)),
            Err(e) => Err(e),
        },
        None => Err(unexpected(tokens, pos, Expected::Keyword(Keyword::Var))),
    }
}

/// An expression in parentheses, as the head of a statement.
#[verifier::opaque]
pub open spec fn parenthesized(tokens: Seq<TokenV>, pos: int, ctx: GrammarContext) -> Parsed<NodeV>
    decreases left(tokens, pos), 45nat,
{
    if !punctuator_at(tokens, pos, Punctuator::OpenParen) {
        Err(unexpected(tokens, pos, Expected::Punctuator(Punctuator::OpenParen)))
    } else {
        match expression(tokens, pos + 1, ctx.spec_with_in(true)) {
            Ok((e, n)) => if punctuator_at(tokens, pos + n + 1, Punctuator::CloseParen) {
                Ok((e, n + 2))
            } else {
                Err(
                    unexpected(
                        tokens,
                        pos + n + 1,
                        Expected::Punctuator(Punctuator::CloseParen),
                    ),
                )
            },
            Err(e) => Err(e),
        }
    }
}

/// An `if` statement, from its `if` on.
#[verifier::opaque]
pub open spec fn if_statement(tokens: Seq<TokenV>, pos: int, ctx: GrammarContext) -> Parsed<NodeV>
    decreases left(tokens, pos), 46nat,
{
    if !keyword_at(tokens, pos, Keyword::If) {
        Err(unexpected(tokens, pos, Expected::Keyword(Keyword::If)))
    } else {
        match parenthesized(tokens, pos + 1, ctx) {
            Ok((c, n)) => match statement(tokens, pos + n + 1, ctx) {
                Ok((a, m)) => if keyword_at(tokens, pos + n + m + 1, Keyword::Else) {
                    match statement(tokens, pos + n + m + 2, ctx) {
                        Ok((b, k)) => Ok(
                            (
                                NodeV::If(Box::new(c), Box::new(a), Some(Box::new(b))),
                                n + m + k + 2,
                            ),
                        ),
                        Err(e) => Err(e),
                    }
                } else {
                    Ok((NodeV::If(Box::new(c), Box::new(a), None), n + m + 1))
                },
                Err(e) => Err(e),
            },
            Err(e) => Err(e),
        }
    }
}

/// A `while` statement, from its `while` on.
#[verifier::opaque]
pub open spec fn while_statement(tokens: Seq<TokenV>, pos: int, ctx: GrammarContext) -> Parsed<NodeV>
    decreases left(tokens, pos), 46nat,
{
    if !keyword_at(tokens, pos, Keyword::While) {
        Err(unexpected(tokens, pos, Expected::Keyword(Keyword::While)))
    } else {
        match parenthesized(tokens, pos + 1, ctx) {
            Ok((c, n)) => match statement(tokens, pos + n + 1, ctx) {
                Ok((b, m)) => Ok((NodeV::WhileLoop(Box::new(c), Box::new(b)), n + m + 1)),
                Err(e) => Err(e),
            },
            Err(e) => Err(e),
        }
    }
}

/// A `do` statement, from its `do` on. A `;` behind it is consumed; none
/// is needed.
#[verifier::opaque]
pub open spec fn do_while_statement(tokens: Seq<TokenV>, pos: int, ctx: GrammarContext) -> Parsed<
    NodeV,
>
    decreases left(tokens, pos), 46nat,
{
    if !keyword_at(tokens, pos, Keyword::Do) {
        Err(unexpected(tokens, pos, Expected::Keyword(Keyword::Do)))
    } else {
        match statement(tokens, pos + 1, ctx) {
            Ok((b, n)) => if !keyword_at(tokens, pos + n + 1, Keyword::While) {
                Err(unexpected(tokens, pos + n + 1, Expected::Keyword(Keyword::While)))
            } else {
                match parenthesized(tokens, pos + n + 2, ctx) {
                    Ok((c, m)) => {
                        let semi: nat = if punctuator_at(
                            tokens,
                            pos + n + m + 2,
                            Punctuator::Semicolon,
                        ) {
                            1
                        } else {
                            0
                        };
                        Ok((NodeV::DoWhileLoop(Box::new(b), Box::new(c)), n + m + semi + 2))
                    },
                    Err(e) => Err(e),
                }
            },
            Err(e) => Err(e),
        }
    }
}

/// The first part of the head of a `for` statement: nothing, a declaration,
/// or an expression, in which `in` is no operator.
#[verifier::opaque]
pub open spec fn for_init(tokens: Seq<TokenV>, pos: int, ctx: GrammarContext) -> Parsed<
    Option<NodeV>,
>
    decreases left(tokens, pos), 46nat,
{
    if punctuator_at(tokens, pos, Punctuator::Semicolon) {
        Ok((None, 0nat))
    } else if binding_at(tokens, pos) is Some {
        match declaration(tokens, pos, ctx.spec_with_in(false)) {
            Ok((d, n)) => Ok((Some(d), n)),
            Err(e) => Err(e),
        }
    } else {
        match expression(tokens, pos, ctx.spec_with_in(false)) {
            Ok((e, n)) => Ok((Some(e), n)),
            Err(e) => Err(e),
        }
    }
}

/// A later part of the head of a `for` statement: nothing, where `close`
/// follows at once, or an expression. `close` itself is consumed.
#[verifier::opaque]
pub open spec fn for_part(
    tokens: Seq<TokenV>,
    pos: int,
    ctx: GrammarContext,
    close: Punctuator,
) -> Parsed<Option<NodeV>>
    decreases left(tokens, pos), 46nat,
{
    if punctuator_at(tokens, pos, close) {
        Ok((None, 1nat))
    } else {
        match expression(tokens, pos, ctx.spec_with_in(true)) {
            Ok((e, n)) => if punctuator_at(tokens, pos + n, close) {
                Ok((Some(e), n + 1))
            } else {
                Err(unexpected(tokens, pos + n, Expected::Punctuator(close)))
            },
            Err(e) => Err(e),
        }
    }
}

/// A `for` statement, from its `for` on.
#[verifier::opaque]
pub open spec fn for_statement(tokens: Seq<TokenV>, pos: int, ctx: GrammarContext) -> Parsed<NodeV>
    decreases left(tokens, pos), 47nat,
{
    if !keyword_at(tokens, pos, Keyword::For) {
        Err(unexpected(tokens, pos, Expected::Keyword(Keyword::For)))
    } else if !punctuator_at(tokens, pos + 1, Punctuator::OpenParen) {
        Err(unexpected(tokens, pos + 1, Expected::Punctuator(Punctuator::OpenParen)))
    } else {
        match for_init(tokens, pos + 2, ctx) {
            Ok((init, n)) => if !punctuator_at(tokens, pos + n + 2, Punctuator::Semicolon) {
                Err(unexpected(tokens, pos + n + 2, Expected::Punctuator(Punctuator::Semicolon)))
            } else {
                match for_part(tokens, pos + n + 3, ctx, Punctuator::Semicolon) {
                    Ok((condition, m)) => match for_part(
                        tokens,
                        pos + n + m + 3,
                        ctx,
                        Punctuator::CloseParen,
                    ) {
                        Ok((step, k)) => match statement(tokens, pos + n + m + k + 3, ctx) {
                            Ok((body, j)) => Ok(
                                (
                                    NodeV::ForLoop(
                                        boxed_option(init),
                                        boxed_option(condition),
                                        boxed_option(step),
                                        Box::new(body),
                                    ),
                                    n + m + k + j + 3,
                                ),
                            ),
                            Err(e) => Err(e),
                        },
                        Err(e) => Err(e),
                    },
                    Err(e) => Err(e),
                }
            },
            Err(e) => Err(e),
        }
    }
}

/// A `return` statement, from its `return` on: with a value where the
/// statement does not end at once. It is an error where the context does
/// not allow `return`.
#[verifier::opaque]
pub open spec fn return_statement(tokens: Seq<TokenV>, pos: int, ctx: GrammarContext) -> Parsed<
    NodeV,
>
    decreases left(tokens, pos), 46nat,
{
    if !keyword_at(tokens, pos, Keyword::Return) {
        Err(unexpected(tokens, pos, Expected::Keyword(Keyword::Return)))
    } else if !ctx.allow_return {
        Err(
            ParseError::ContextViolation {
                keyword: Keyword::Return,
                position: position_at(tokens, pos),
            },
        )
    } else {
        match terminator(tokens, pos + 1) {
            Ok(k) => Ok((NodeV::Return(None), k + 1)),
            Err(_) => match expression(tokens, pos + 1, ctx.spec_with_in(true)) {
                Ok((e, n)) => terminated(
                    tokens,
                    pos + n + 1,
                    NodeV::Return(Some(Box::new(e))),
                    n + 1,
                ),
                Err(e) => Err(e),
            },
        }
    }
}

/// A `throw` statement, from its `throw` on. Its operand starts on the line
/// of `throw`.
#[verifier::opaque]
pub open spec fn throw_statement(tokens: Seq<TokenV>, pos: int, ctx: GrammarContext) -> Parsed<NodeV>
    decreases left(tokens, pos), 46nat,
{
    if !keyword_at(tokens, pos, Keyword::Throw) {
        Err(unexpected(tokens, pos, Expected::Keyword(Keyword::Throw)))
    } else if newline_at(tokens, pos + 1) {
        Err(
            ParseError::General {
                rule: Rule::ThrowOperand,
                position: position_at(tokens, pos + 1),
            },
        )
    } else {
        match expression(tokens, pos + 1, ctx.spec_with_in(true)) {
            Ok((e, n)) => terminated(tokens, pos + n + 1, NodeV::Throw(Box::new(e)), n + 1),
            Err(e) => Err(e),
        }
    }
}

/// A statement. Its first token decides which: a block, an empty
/// statement, a declaration, one of the control statements, a function or
/// class declaration, or else an expression statement.
#[verifier::opaque]
pub open spec fn statement(tokens: Seq<TokenV>, pos: int, ctx: GrammarContext) -> Parsed<NodeV>
    decreases left(tokens, pos), 50nat,
{
    if function_at(tokens, pos) {
        function(tokens, pos, ctx, true)
    } else if binding_at(tokens, pos) is Some {
        match declaration(tokens, pos, ctx.spec_with_in(true)) {
            Ok((d, n)) => terminated(tokens, pos + n, d, n),
            Err(e) => Err(e),
        }
    } else {
        match kind_at(tokens, pos) {
            TokenKind::Punctuator(Punctuator::OpenBlock) => match statement_list(
                tokens,
                pos + 1,
                ctx,
                true,
                Seq::empty(),
            ) {
                Ok((items, n)) => Ok((NodeV::Block(items), n + 1)),
                Err(e) => Err(e),
            },
            TokenKind::Punctuator(Punctuator::Semicolon) => Ok((NodeV::Empty, 1nat)),
            TokenKind::Keyword(Keyword::If) => if_statement(tokens, pos, ctx),
            TokenKind::Keyword(Keyword::While) => while_statement(tokens, pos, ctx),
            TokenKind::Keyword(Keyword::Do) => do_while_statement(tokens, pos, ctx),
            TokenKind::Keyword(Keyword::For) => for_statement(tokens, pos, ctx),
            TokenKind::Keyword(Keyword::Return) => return_statement(tokens, pos, ctx),
            TokenKind::Keyword(Keyword::Throw) => throw_statement(tokens, pos, ctx),
            TokenKind::Keyword(Keyword::Class) => class_declaration(tokens, pos, ctx),
            TokenKind::Keyword(Keyword::Break) => terminated(tokens, pos + 1, NodeV::Break, 1),
            TokenKind::Keyword(Keyword::Continue) => terminated(
                tokens,
                pos + 1,
                NodeV::Continue,
                1,
            ),
            _ => match expression(tokens, pos, ctx.spec_with_in(true)) {
                Ok((e, n)) => terminated(tokens, pos + n, e, n),
                Err(e) => Err(e),
            },
        }
    }
}

/// The rest of a list of statements: those parsed so far are `done`. Inside
/// a block the list ends with the `}`, which is consumed; at the top level
/// it ends with the end of the text, which inside a block is an error.
/// A statement that consumed no token would be an error; there is none.
#[verifier::opaque]
pub open spec fn statement_list(
    tokens: Seq<TokenV>,
    pos: int,
    ctx: GrammarContext,
    in_block: bool,
    done: Seq<NodeV>,
) -> Parsed<Seq<NodeV>>
    decreases left(tokens, pos), 60nat,
{
    if in_block && punctuator_at(tokens, pos, Punctuator::CloseBlock) {
        Ok((done, 1nat))
    } else if kind_at(tokens, pos) == TokenKind::EndOfInput {
        if in_block {
            Err(unexpected(tokens, pos, Expected::Punctuator(Punctuator::CloseBlock)))
        } else {
            Ok((done, 0nat))
        }
    } else {
        match statement(tokens, pos, ctx) {
            Ok((s, n)) => if n == 0 {
                Err(unexpected(tokens, pos, Expected::Statement))
            } else {
                shift(statement_list(tokens, pos + n, ctx, in_block, done.push(s)), n)
            },
            Err(e) => Err(e),
        }
    }
}

/// Ends a statement: consumes its `;`, or accepts that none is written.
/// Where the statement does not end, nothing is consumed.
#[verifier::spinoff_prover]
pub fn consume_terminator(cursor: &mut Cursor) -> (r: Result<(), ParseError>)
    ensures
        final(cursor).tokens() == old(cursor).tokens(),
        match terminator(old(cursor).tokens(), old(cursor).pos()) {
            Ok(k) => r is Ok && final(cursor).pos() == old(cursor).pos() + k,
            Err(e) => r == Err::<(), ParseError>(e) && final(cursor).pos() == old(cursor).pos(),
        },
{
    if cursor.at_punctuator(0, Punctuator::Semicolon) {
        cursor.skip();
        Ok(())
    } else if cursor.peek_newline(0) || cursor.at_punctuator(0, Punctuator::CloseBlock)
        || cursor.peek_kind(0) == TokenKind::EndOfInput {
        Ok(())
    } else {
        Err(cursor.unexpected(Expected::Terminator))
    }
}

/// The declaration that the next token opens.
pub fn peek_binding(cursor: &Cursor) -> (r: Option<Binding>)
    ensures
        r == binding_at(cursor.tokens(), cursor.pos()),
{
    match cursor.peek_kind(0) {
        TokenKind::Keyword(Keyword::Var) => Some(Binding::Var),
        TokenKind::Keyword(Keyword::Let) => Some(Binding::Let),
        TokenKind::Keyword(Keyword::Const) => Some(Binding::Const),
        _ => None,
    }
}

/// Parses the bindings of a declaration.
#[verifier::spinoff_prover]
pub fn parse_declarations(cursor: &mut Cursor, ctx: GrammarContext, binding: Binding) -> (r: Result<
    Vec<Declaration>,
    ParseError,
>)
    ensures
        final(cursor).tokens() == old(cursor).tokens(),
        agrees(
            declarations_result(r),
            final(cursor).pos() - old(cursor).pos(),
            declarations(old(cursor).tokens(), old(cursor).pos(), ctx, binding, Seq::empty()),
        ),
    decreases left(old(cursor).tokens(), old(cursor).pos()), 440nat,
{
    reveal(declarations);
    reveal(assignment);
    let ghost tokens = cursor.tokens();
    let ghost start = cursor.pos();
    let ghost goal = declarations(tokens, start, ctx, binding, Seq::empty());
    let mut decls: Vec<Declaration> = Vec::new();
    assert(declaration_views(decls@) =~= Seq::<DeclarationV>::empty());
    loop
        invariant
            cursor.tokens() == tokens,
            tokens == old(cursor).tokens(),
            start == old(cursor).pos(),
            cursor.pos() >= start,
            goal == declarations(tokens, start, ctx, binding, Seq::empty()),
            goal == shift(
                declarations(tokens, cursor.pos(), ctx, binding, declaration_views(decls@)),
                (cursor.pos() - start) as nat,
            ),
        decreases left(tokens, cursor.pos()),
    {
        reveal(declarations);
        reveal(assignment);
        if !cursor.at_identifier(0) {
            return Err(cursor.unexpected(Expected::Identifier));
        }
        let name = cursor.text();
        let position = cursor.position();
        let init = if cursor.at_punctuator(1, Punctuator::Assign) {
            cursor.skip();
            cursor.skip();
            match parse_assignment(cursor, ctx) {
                Ok(e) => Some(e),
                Err(e) => {
                    return Err(e);
                },
            }
        } else if binding == Binding::Const {
            return Err(ParseError::General { rule: Rule::ConstInitializer, position });
        } else {
            cursor.skip();
            None
        };
        let decl = Declaration { name, init };
        proof {
            lemma_declaration_views_push(decls@, decl);
        }
        decls.push(decl);
        if cursor.at_punctuator(0, Punctuator::Comma) {
            cursor.skip();
        } else {
            return Ok(decls);
        }
    }
}

/// Parses a declaration without its end.
#[verifier::spinoff_prover]
pub fn parse_declaration(cursor: &mut Cursor, ctx: GrammarContext) -> (r: Result<Node, ParseError>)
    ensures
        parses(
            *old(cursor),
            *final(cursor),
            r,
            declaration(old(cursor).tokens(), old(cursor).pos(), ctx),
        ),
    decreases left(old(cursor).tokens(), old(cursor).pos()), 450nat,
{
    reveal(declaration);
    reveal(declarations);
    match peek_binding(cursor) {
        Some(binding) => {
            cursor.skip();
            match parse_declarations(cursor, ctx, binding) {
                Ok(decls) => Ok(
                    match binding {
                        Binding::Var => Node::var_decl_list(decls),
                        Binding::Let => Node::let_decl_list(decls),
                        Binding::Const => Node::const_decl_list(decls),
                    },
                ),
                Err(e) => Err(e),
            }
        },
        None => Err(cursor.unexpected(Expected::Keyword(Keyword::Var))),
    }
}

/// Parses an expression in parentheses.
#[verifier::spinoff_prover]
pub fn parse_parenthesized(cursor: &mut Cursor, ctx: GrammarContext) -> (r: Result<
    Node,
    ParseError,
>)
    ensures
        parses(
            *old(cursor),
            *final(cursor),
            r,
            parenthesized(old(cursor).tokens(), old(cursor).pos(), ctx),
        ),
    decreases left(old(cursor).tokens(), old(cursor).pos()), 450nat,
{
    reveal(parenthesized);
    reveal(expression);
    if !cursor.at_punctuator(0, Punctuator::OpenParen) {
        return Err(cursor.unexpected(Expected::Punctuator(Punctuator::OpenParen)));
    }
    cursor.skip();
    match parse_expression(cursor, ctx.with_in(true)) {
        Ok(e) => {
            if cursor.at_punctuator(0, Punctuator::CloseParen) {
                cursor.skip();
                Ok(e)
            } else {
                Err(cursor.unexpected(Expected::Punctuator(Punctuator::CloseParen)))
            }
        },
        Err(e) => Err(e),
    }
}

/// Parses an `if` statement.
#[verifier::spinoff_prover]
pub fn parse_if(cursor: &mut Cursor, ctx: GrammarContext) -> (r: Result<Node, ParseError>)
    ensures
        parses(
            *old(cursor),
            *final(cursor),
            r,
            if_statement(old(cursor).tokens(), old(cursor).pos(), ctx),
        ),
    decreases left(old(cursor).tokens(), old(cursor).pos()), 460nat,
{
    reveal(if_statement);
    reveal(parenthesized);
    reveal(statement);
    if !cursor.at_keyword(0, Keyword::If) {
        return Err(cursor.unexpected(Expected::Keyword(Keyword::If)));
    }
    cursor.skip();
    let c = match parse_parenthesized(cursor, ctx) {
        Ok(c) => c,
        Err(e) => {
            return Err(e);
        },
    };
    let a = match parse_statement(cursor, ctx) {
        Ok(a) => a,
        Err(e) => {
            return Err(e);
        },
    };
    if cursor.at_keyword(0, Keyword::Else) {
        cursor.skip();
        match parse_statement(cursor, ctx) {
            Ok(b) => Ok(Node::if_statement(c, a, Some(b))),
            Err(e) => Err(e),
        }
    } else {
        Ok(Node::if_statement(c, a, None))
    }
}

/// Parses a `while` statement.
#[verifier::spinoff_prover]
pub fn parse_while(cursor: &mut Cursor, ctx: GrammarContext) -> (r: Result<Node, ParseError>)
    ensures
        parses(
            *old(cursor),
            *final(cursor),
            r,
            while_statement(old(cursor).tokens(), old(cursor).pos(), ctx),
        ),
    decreases left(old(cursor).tokens(), old(cursor).pos()), 460nat,
{
    reveal(while_statement);
    reveal(parenthesized);
    reveal(statement);
    if !cursor.at_keyword(0, Keyword::While) {
        return Err(cursor.unexpected(Expected::Keyword(Keyword::While)));
    }
    cursor.skip();
    let c = match parse_parenthesized(cursor, ctx) {
        Ok(c) => c,
        Err(e) => {
            return Err(e);
        },
    };
    match parse_statement(cursor, ctx) {
        Ok(b) => Ok(Node::while_loop(c, b)),
        Err(e) => Err(e),
    }
}

/// Parses a `do` statement.
#[verifier::spinoff_prover]
pub fn parse_do_while(cursor: &mut Cursor, ctx: GrammarContext) -> (r: Result<Node, ParseError>)
    ensures
        parses(
            *old(cursor),
            *final(cursor),
            r,
            do_while_statement(old(cursor).tokens(), old(cursor).pos(), ctx),
        ),
    decreases left(old(cursor).tokens(), old(cursor).pos()), 460nat,
{
    reveal(do_while_statement);
    reveal(statement);
    reveal(parenthesized);
    if !cursor.at_keyword(0, Keyword::Do) {
        return Err(cursor.unexpected(Expected::Keyword(Keyword::Do)));
    }
    cursor.skip();
    let b = match parse_statement(cursor, ctx) {
        Ok(b) => b,
        Err(e) => {
            return Err(e);
        },
    };
    if !cursor.at_keyword(0, Keyword::While) {
        return Err(cursor.unexpected(Expected::Keyword(Keyword::While)));
    }
    cursor.skip();
    match parse_parenthesized(cursor, ctx) {
        Ok(c) => {
            if cursor.at_punctuator(0, Punctuator::Semicolon) {
                cursor.skip();
            }
            Ok(Node::do_while_loop(b, c))
        },
        Err(e) => Err(e),
    }
}

/// Parses the first part of the head of a `for` statement.
#[verifier::spinoff_prover]
pub fn parse_for_init(cursor: &mut Cursor, ctx: GrammarContext) -> (r: Result<
    Option<Node>,
    ParseError,
>)
    ensures
        final(cursor).tokens() == old(cursor).tokens(),
        agrees(
            option_result(r),
            final(cursor).pos() - old(cursor).pos(),
            for_init(old(cursor).tokens(), old(cursor).pos(), ctx),
        ),
    decreases left(old(cursor).tokens(), old(cursor).pos()), 460nat,
{
    reveal(for_init);
    reveal(declaration);
    reveal(expression);
    if cursor.at_punctuator(0, Punctuator::Semicolon) {
        Ok(None)
    } else if peek_binding(cursor).is_some() {
        match parse_declaration(cursor, ctx.with_in(false)) {
            Ok(d) => Ok(Some(d)),
            Err(e) => Err(e),
        }
    } else {
        match parse_expression(cursor, ctx.with_in(false)) {
            Ok(e) => Ok(Some(e)),
            Err(e) => Err(e),
        }
    }
}

/// Parses a later part of the head of a `for` statement, with the
/// punctuator that closes it.
#[verifier::spinoff_prover]
pub fn parse_for_part(cursor: &mut Cursor, ctx: GrammarContext, close: Punctuator) -> (r: Result<
    Option<Node>,
    ParseError,
>)
    ensures
        final(cursor).tokens() == old(cursor).tokens(),
        agrees(
            option_result(r),
            final(cursor).pos() - old(cursor).pos(),
            for_part(old(cursor).tokens(), old(cursor).pos(), ctx, close),
        ),
    decreases left(old(cursor).tokens(), old(cursor).pos()), 460nat,
{
    reveal(for_part);
    reveal(expression);
    if cursor.at_punctuator(0, close) {
        cursor.skip();
        Ok(None)
    } else {
        match parse_expression(cursor, ctx.with_in(true)) {
            Ok(e) => {
                if cursor.at_punctuator(0, close) {
                    cursor.skip();
                    Ok(Some(e))
                } else {
                    Err(cursor.unexpected(Expected::Punctuator(close)))
                }
            },
            Err(e) => Err(e),
        }
    }
}

/// Parses a `for` statement.
#[verifier::spinoff_prover]
pub fn parse_for(cursor: &mut Cursor, ctx: GrammarContext) -> (r: Result<Node, ParseError>)
    ensures
        parses(
            *old(cursor),
            *final(cursor),
            r,
            for_statement(old(cursor).tokens(), old(cursor).pos(), ctx),
        ),
    decreases left(old(cursor).tokens(), old(cursor).pos()), 470nat,
{
    reveal(for_statement);
    reveal(for_init);
    reveal(for_part);
    reveal(statement);
    if !cursor.at_keyword(0, Keyword::For) {
        return Err(cursor.unexpected(Expected::Keyword(Keyword::For)));
    }
    if !cursor.at_punctuator(1, Punctuator::OpenParen) {
        return Err(cursor.unexpected_at(1, Expected::Punctuator(Punctuator::OpenParen)));
    }
    cursor.skip();
    cursor.skip();
    let init = match parse_for_init(cursor, ctx) {
        Ok(i) => i,
        Err(e) => {
            return Err(e);
        },
    };
    if !cursor.at_punctuator(0, Punctuator::Semicolon) {
        return Err(cursor.unexpected(Expected::Punctuator(Punctuator::Semicolon)));
    }
    cursor.skip();
    let condition = match parse_for_part(cursor, ctx, Punctuator::Semicolon) {
        Ok(c) => c,
        Err(e) => {
            return Err(e);
        },
    };
    let step = match parse_for_part(cursor, ctx, Punctuator::CloseParen) {
        Ok(s) => s,
        Err(e) => {
            return Err(e);
        },
    };
    match parse_statement(cursor, ctx) {
        Ok(body) => Ok(Node::for_loop(init, condition, step, body)),
        Err(e) => Err(e),
    }
}

/// Parses a `return` statement.
#[verifier::spinoff_prover]
pub fn parse_return(cursor: &mut Cursor, ctx: GrammarContext) -> (r: Result<Node, ParseError>)
    ensures
        parses(
            *old(cursor),
            *final(cursor),
            r,
            return_statement(old(cursor).tokens(), old(cursor).pos(), ctx),
        ),
    decreases left(old(cursor).tokens(), old(cursor).pos()), 460nat,
{
    reveal(return_statement);
    reveal(expression);
    if !cursor.at_keyword(0, Keyword::Return) {
        return Err(cursor.unexpected(Expected::Keyword(Keyword::Return)));
    }
    if !ctx.allow_return {
        return Err(
            ParseError::ContextViolation { keyword: Keyword::Return, position: cursor.position() },
        );
    }
    cursor.skip();
    match consume_terminator(cursor) {
        Ok(()) => Ok(Node::return_statement(None)),
        Err(_) => match parse_expression(cursor, ctx.with_in(true)) {
            Ok(e) => match consume_terminator(cursor) {
                Ok(()) => Ok(Node::return_statement(Some(e))),
                Err(e) => Err(e),
            },
            Err(e) => Err(e),
        },
    }
}

/// Parses a `throw` statement.
#[verifier::spinoff_prover]
pub fn parse_throw(cursor: &mut Cursor, ctx: GrammarContext) -> (r: Result<Node, ParseError>)
    ensures
        parses(
            *old(cursor),
            *final(cursor),
            r,
            throw_statement(old(cursor).tokens(), old(cursor).pos(), ctx),
        ),
    decreases left(old(cursor).tokens(), old(cursor).pos()), 460nat,
{
    reveal(throw_statement);
    reveal(expression);
    if !cursor.at_keyword(0, Keyword::Throw) {
        return Err(cursor.unexpected(Expected::Keyword(Keyword::Throw)));
    }
    if cursor.peek_newline(1) {
        return Err(
            ParseError::General { rule: Rule::ThrowOperand, position: cursor.peek_position(1) },
        );
    }
    cursor.skip();
    match parse_expression(cursor, ctx.with_in(true)) {
        Ok(e) => match consume_terminator(cursor) {
            Ok(()) => Ok(Node::throw_statement(e)),
            Err(e) => Err(e),
        },
        Err(e) => Err(e),
    }
}

/// Parses a statement.
#[verifier::spinoff_prover]
pub fn parse_statement(cursor: &mut Cursor, ctx: GrammarContext) -> (r: Result<Node, ParseError>)
    ensures
        parses(
            *old(cursor),
            *final(cursor),
            r,
            statement(old(cursor).tokens(), old(cursor).pos(), ctx),
        ),
    decreases left(old(cursor).tokens(), old(cursor).pos()), 500nat,
{
    reveal(statement);
    reveal(function);
    reveal(declaration);
    reveal(statement_list);
    reveal(if_statement);
    reveal(while_statement);
    reveal(do_while_statement);
    reveal(for_statement);
    reveal(return_statement);
    reveal(throw_statement);
    reveal(class_declaration);
    reveal(expression);
    if at_function(cursor) {
        return parse_function(cursor, ctx, true);
    }
    if peek_binding(cursor).is_some() {
        return match parse_declaration(cursor, ctx.with_in(true)) {
            Ok(d) => match consume_terminator(cursor) {
                Ok(()) => Ok(d),
                Err(e) => Err(e),
            },
            Err(e) => Err(e),
        };
    }
    match cursor.peek_kind(0) {
        TokenKind::Punctuator(Punctuator::OpenBlock) => {
            cursor.skip();
            match parse_statement_list(cursor, ctx, true) {
                Ok(items) => Ok(Node::block(items)),
                Err(e) => Err(e),
            }
        },
        TokenKind::Punctuator(Punctuator::Semicolon) => {
            cursor.skip();
            Ok(Node::empty())
        },
        TokenKind::Keyword(Keyword::If) => parse_if(cursor, ctx),
        TokenKind::Keyword(Keyword::While) => parse_while(cursor, ctx),
        TokenKind::Keyword(Keyword::Do) => parse_do_while(cursor, ctx),
        TokenKind::Keyword(Keyword::For) => parse_for(cursor, ctx),
        TokenKind::Keyword(Keyword::Return) => parse_return(cursor, ctx),
        TokenKind::Keyword(Keyword::Throw) => parse_throw(cursor, ctx),
        TokenKind::Keyword(Keyword::Class) => parse_class_declaration(cursor, ctx),
        TokenKind::Keyword(Keyword::Break) => {
            cursor.skip();
            match consume_terminator(cursor) {
                Ok(()) => Ok(Node::break_statement()),
                Err(e) => Err(e),
            }
        },
        TokenKind::Keyword(Keyword::Continue) => {
            cursor.skip();
            match consume_terminator(cursor) {
                Ok(()) => Ok(Node::continue_statement()),
                Err(e) => Err(e),
            }
        },
        _ => match parse_expression(cursor, ctx.with_in(true)) {
            Ok(e) => match consume_terminator(cursor) {
                Ok(()) => Ok(e),
                Err(e) => Err(e),
            },
            Err(e) => Err(e),
        },
    }
}

/// Parses statements up to the end of the block or of the text.
#[verifier::spinoff_prover]
pub fn parse_statement_list(cursor: &mut Cursor, ctx: GrammarContext, in_block: bool) -> (r: Result<
    Vec<Node>,
    ParseError,
>)
    ensures
        final(cursor).tokens() == old(cursor).tokens(),
        agrees(
            nodes_result(r),
            final(cursor).pos() - old(cursor).pos(),
            statement_list(old(cursor).tokens(), old(cursor).pos(), ctx, in_block, Seq::empty()),
        ),
    decreases left(old(cursor).tokens(), old(cursor).pos()), 600nat,
{
    reveal(statement_list);
    reveal(statement);
    let ghost tokens = cursor.tokens();
    let ghost start = cursor.pos();
    let ghost goal = statement_list(tokens, start, ctx, in_block, Seq::empty());
    let mut items: Vec<Node> = Vec::new();
    assert(node_views(items@) =~= Seq::<NodeV>::empty());
    loop
        invariant
            cursor.tokens() == tokens,
            tokens == old(cursor).tokens(),
            start == old(cursor).pos(),
            cursor.pos() >= start,
            goal == statement_list(tokens, start, ctx, in_block, Seq::empty()),
            goal == shift(
                statement_list(tokens, cursor.pos(), ctx, in_block, node_views(items@)),
                (cursor.pos() - start) as nat,
            ),
        decreases left(tokens, cursor.pos()),
    {
        reveal(statement_list);
        reveal(statement);
        if in_block && cursor.at_punctuator(0, Punctuator::CloseBlock) {
            cursor.skip();
            return Ok(items);
        }
        if cursor.peek_kind(0) == TokenKind::EndOfInput {
            if in_block {
                return Err(cursor.unexpected(Expected::Punctuator(Punctuator::CloseBlock)));
            } else {
                return Ok(items);
            }
        }
        proof {
            crate::syntax::printer::produced::lemma_statement(tokens, cursor.pos(), ctx);
        }
        match parse_statement(cursor, ctx) {
            Ok(s) => {
                proof {
                    lemma_node_views_push(items@, s);
                }
                items.push(s);
            },
            Err(e) => {
                return Err(e);
            },
        }
    }
}

} // verus!
