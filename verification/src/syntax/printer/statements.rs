//! Parsing the printed form of a statement gives the statement back.

use vstd::prelude::*;
use crate::syntax::ast::node::{boxed_option, DeclarationV, NodeV};
use crate::syntax::lexer::token::{Keyword, Punctuator, TokenKind, TokenV};
use crate::syntax::ast::node::ClassMethodV;
use crate::syntax::parser::class::{
    class_body, class_declaration, class_elements, method_context, static_at, static_word,
};
use crate::syntax::parser::cursor::kind_at;
use crate::syntax::parser::error::ParseError;
use crate::syntax::parser::expression::{assignment, primary};
use crate::syntax::parser::function::{function, is_arrow_head};
use crate::syntax::parser::grammar::{keyword_at, punctuator_at, GrammarContext};
use crate::syntax::parser::statement::{
    binding_at, declaration, declaration_node, declarations, do_while_statement, for_init,
    for_part, for_statement, if_statement, parenthesized, return_statement, statement,
    statement_list, throw_statement, while_statement, Binding,
};
use crate::syntax::printer::climb::{built, closes, lemma_primary_to_expression};
use crate::syntax::printer::expressions::{lemma_closed, printed_expression};
use crate::syntax::printer::form::{
    binding, bindings, group, inside, is_declaration, is_expression, keyword, name, optional,
    punct, statements,
};
use crate::syntax::printer::functions::{lemma_function, printed_function_of};
use crate::syntax::printer::shape::{
    open_if, well_formed_binding, well_formed_method, well_formed_methods, well_formed_bindings, well_formed_declaration,
    well_formed_expression, well_formed_optional, well_formed_statement, well_formed_statements,
};
use crate::syntax::printer::window::{
    balanced, holds, lemma_balanced_append, lemma_balanced_empty, lemma_balanced_group,
    lemma_balanced_one, lemma_closing_paren_of_group, lemma_holds_at, lemma_holds_split,
};

verus! {

/// The printed form of a statement.
pub open spec fn printed_statement(s: NodeV) -> Seq<TokenV> {
    crate::syntax::printer::form::statement(s)
}

/// The printed form of a declaration.
pub open spec fn printed_declaration(s: NodeV) -> Seq<TokenV> {
    crate::syntax::printer::form::declaration(s)
}

/// Whether a printed statement can start with a token of this kind.
pub open spec fn starts_statement(k: TokenKind) -> bool {
    k == TokenKind::Punctuator(Punctuator::OpenBlock) || k == TokenKind::Punctuator(
        Punctuator::Semicolon,
    ) || k == TokenKind::Punctuator(Punctuator::OpenParen) || k == TokenKind::Keyword(Keyword::Var)
        || k == TokenKind::Keyword(Keyword::Let) || k == TokenKind::Keyword(Keyword::Const) || k
        == TokenKind::Keyword(Keyword::If) || k == TokenKind::Keyword(Keyword::While) || k
        == TokenKind::Keyword(Keyword::Do) || k == TokenKind::Keyword(Keyword::For) || k
        == TokenKind::Keyword(Keyword::Return) || k == TokenKind::Keyword(Keyword::Break) || k
        == TokenKind::Keyword(Keyword::Continue) || k == TokenKind::Keyword(Keyword::Throw) || k
        == TokenKind::Keyword(Keyword::Function) || k == TokenKind::Keyword(Keyword::Async) || k
        == TokenKind::Keyword(Keyword::Class)
}

/// The declaration keyword of a declaration.
pub open spec fn binding_of(s: NodeV) -> Binding {
    match s {
        NodeV::LetDeclList(_) => Binding::Let,
        NodeV::ConstDeclList(_) => Binding::Const,
        _ => Binding::Var,
    }
}

/// The bindings of a declaration.
pub open spec fn bindings_of(s: NodeV) -> Seq<DeclarationV> {
    match s {
        NodeV::VarDeclList(d) => d,
        NodeV::LetDeclList(d) => d,
        NodeV::ConstDeclList(d) => d,
        _ => Seq::empty(),
    }
}

/// Well-formed bindings before a `;` come back behind the bindings that were
/// parsed before them.
#[verifier::spinoff_prover]
pub proof fn lemma_bindings(
    t: Seq<TokenV>,
    pos: int,
    ctx: GrammarContext,
    kind: Binding,
    decls: Seq<DeclarationV>,
    done: Seq<DeclarationV>,
)
    requires
        well_formed_bindings(decls, ctx.allow_yield, ctx.allow_await, kind == Binding::Const),
        holds(t, pos, bindings(decls)),
        punctuator_at(t, pos + bindings(decls).len(), Punctuator::Semicolon),
    ensures
        declarations(t, pos, ctx, kind, done) == Ok::<(Seq<DeclarationV>, nat), ParseError>(
            (done + decls, bindings(decls).len()),
        ),
        balanced(bindings(decls)),
        bindings(decls).len() >= 1,
    decreases decls, 8nat,
{
    let d = decls[0];
    let pd = binding(d);
    let rest = decls.subrange(1, decls.len() as int);
    let comma = punct(Punctuator::Comma);
    let constant = kind == Binding::Const;
    assert(well_formed_binding(d, ctx.allow_yield, ctx.allow_await, constant));
    if decls.len() > 1 {
        lemma_holds_split(t, pos, pd + comma, bindings(rest));
        lemma_holds_split(t, pos, pd, comma);
        lemma_holds_at(t, pos + pd.len(), comma, 0);
    }
    assert(holds(t, pos, pd));
    lemma_balanced_one(name(d.name));
    match d.init {
        Some(e) => {
            let eq = punct(Punctuator::Assign);
            let pe = printed_expression(e);
            assert(pd =~= name(d.name) + eq + pe);
            lemma_holds_split(t, pos, name(d.name) + eq, pe);
            lemma_holds_split(t, pos, name(d.name), eq);
            lemma_holds_at(t, pos, name(d.name), 0);
            lemma_holds_at(t, pos + 1, eq, 0);
            lemma_closed(t, pos + 2, ctx, e);
            lemma_balanced_one(eq);
            lemma_balanced_append(name(d.name), eq);
            lemma_balanced_append(name(d.name) + eq, pe);
        },
        None => {
            assert(pd =~= name(d.name));
            lemma_holds_at(t, pos, name(d.name), 0);
        },
    }
    if decls.len() == 1 {
        assert(done.push(d) =~= done + decls);
        assert(declarations(t, pos, ctx, kind, done) == Ok::<(Seq<DeclarationV>, nat), ParseError>(
            (done + decls, pd.len()),
        )) by {
            reveal(declarations);
            reveal(assignment);
        }
    } else {
        assert forall|i: int| 0 <= i < rest.len() implies well_formed_binding(
            #[trigger] rest[i],
            ctx.allow_yield,
            ctx.allow_await,
            constant,
        ) by {
            assert(rest[i] == decls[i + 1]);
        }
        lemma_bindings(t, pos + pd.len() + 1, ctx, kind, rest, done.push(d));
        assert(done.push(d) + rest =~= done + decls);
        assert(declarations(t, pos, ctx, kind, done) == Ok::<(Seq<DeclarationV>, nat), ParseError>(
            (done + decls, bindings(decls).len()),
        )) by {
            reveal(declarations);
            reveal(assignment);
        }
        lemma_balanced_one(comma);
        lemma_balanced_append(pd, comma);
        lemma_balanced_append(pd + comma, bindings(rest));
    }
}

/// A well-formed declaration before a `;` comes back.
#[verifier::spinoff_prover]
pub proof fn lemma_declaration(t: Seq<TokenV>, pos: int, ctx: GrammarContext, s: NodeV)
    requires
        is_declaration(s),
        well_formed_declaration(s, ctx.allow_yield, ctx.allow_await),
        holds(t, pos, printed_declaration(s)),
        punctuator_at(t, pos + printed_declaration(s).len(), Punctuator::Semicolon),
    ensures
        declaration(t, pos, ctx) == built(s, printed_declaration(s).len()),
        binding_at(t, pos) is Some,
        balanced(printed_declaration(s)),
        printed_declaration(s).len() >= 2,
    decreases s, 6nat,
{
    let kind = binding_of(s);
    let decls = bindings_of(s);
    let kw = keyword(
        match kind {
            Binding::Var => Keyword::Var,
            Binding::Let => Keyword::Let,
            Binding::Const => Keyword::Const,
        },
    );
    assert(printed_declaration(s) == kw + bindings(decls));
    lemma_holds_split(t, pos, kw, bindings(decls));
    lemma_holds_at(t, pos, kw, 0);
    lemma_bindings(t, pos + 1, ctx, kind, decls, Seq::empty());
    assert(Seq::<DeclarationV>::empty() + decls =~= decls);
    assert(declaration_node(kind, decls) == s);
    assert(declaration(t, pos, ctx) == built(s, printed_declaration(s).len())) by {
        reveal(declaration);
        reveal(declarations);
    }
    lemma_balanced_one(kw);
    lemma_balanced_append(kw, bindings(decls));
}

/// What is asked of a printed statement.
pub open spec fn statement_stands(t: Seq<TokenV>, pos: int, ctx: GrammarContext, s: NodeV) -> bool {
    &&& well_formed_statement(s, ctx.allow_yield, ctx.allow_await, ctx.allow_return)
    &&& holds(t, pos, printed_statement(s))
    &&& keyword_at(t, pos + printed_statement(s).len(), Keyword::Else) ==> !open_if(s)
}

/// What is shown of a printed statement.
pub open spec fn statement_comes_back(
    t: Seq<TokenV>,
    pos: int,
    ctx: GrammarContext,
    s: NodeV,
) -> bool {
    &&& statement(t, pos, ctx) == built(s, printed_statement(s).len())
    &&& printed_statement(s).len() >= 1
    &&& starts_statement(kind_at(t, pos))
    &&& balanced(printed_statement(s))
}

/// An expression in parentheses as the head of a statement.
#[verifier::spinoff_prover]
pub proof fn lemma_parenthesized(t: Seq<TokenV>, pos: int, ctx: GrammarContext, e: NodeV)
    requires
        well_formed_expression(e, ctx.allow_yield, ctx.allow_await),
        holds(t, pos, group(printed_expression(e))),
    ensures
        parenthesized(t, pos, ctx) == built(e, printed_expression(e).len() + 2),
        primary(t, pos, ctx) == built(e, printed_expression(e).len() + 2),
        balanced(group(printed_expression(e))),
        !punctuator_at(t, pos + printed_expression(e).len() + 2, Punctuator::Arrow)
            ==> !is_arrow_head(t, pos),
    decreases e, 8nat,
{
    let open = punct(Punctuator::OpenParen);
    let close = punct(Punctuator::CloseParen);
    let pe = printed_expression(e);
    lemma_holds_split(t, pos, open + pe, close);
    lemma_holds_split(t, pos, open, pe);
    lemma_holds_at(t, pos, open, 0);
    lemma_holds_at(t, pos + 1 + pe.len(), close, 0);
    lemma_closed(t, pos + 1, ctx.spec_with_in(true), e);
    assert(parenthesized(t, pos, ctx) == built(e, pe.len() + 2)) by {
        reveal(parenthesized);
        reveal(crate::syntax::parser::expression::expression);
    }
    assert(primary(t, pos, ctx) == built(e, pe.len() + 2)) by {
        reveal(primary);
        reveal(crate::syntax::parser::expression::expression);
    }
    lemma_balanced_group(pe);
    lemma_closing_paren_of_group(t, pos, pe);
}

/// The statement that is the expression `s`.
#[verifier::spinoff_prover]
pub proof fn lemma_expression_statement(t: Seq<TokenV>, pos: int, ctx: GrammarContext, s: NodeV)
    requires
        is_expression(s),
        statement_stands(t, pos, ctx, s),
    ensures
        statement_comes_back(t, pos, ctx, s),
    decreases s, 10nat,
{
    let pe = printed_expression(s);
    let semi = punct(Punctuator::Semicolon);
    let inner = ctx.spec_with_in(true);
    assert(printed_statement(s) == group(pe) + semi);
    lemma_holds_split(t, pos, group(pe), semi);
    lemma_holds_at(t, pos, group(pe), 0);
    lemma_holds_at(t, pos + pe.len() + 2, semi, 0);
    lemma_parenthesized(t, pos, inner, s);
    lemma_primary_to_expression(t, pos, inner, s, pe.len() + 2);
    assert(statement(t, pos, ctx) == built(s, pe.len() + 3)) by {
        reveal(statement);
        reveal(crate::syntax::parser::expression::expression);
    }
    lemma_balanced_one(semi);
    lemma_balanced_append(group(pe), semi);
}

/// The statement that is a declaration.
#[verifier::spinoff_prover]
pub proof fn lemma_declaration_statement(t: Seq<TokenV>, pos: int, ctx: GrammarContext, s: NodeV)
    requires
        is_declaration(s),
        statement_stands(t, pos, ctx, s),
    ensures
        statement_comes_back(t, pos, ctx, s),
    decreases s, 10nat,
{
    let pd = printed_declaration(s);
    let semi = punct(Punctuator::Semicolon);
    assert(printed_statement(s) == pd + semi);
    lemma_holds_split(t, pos, pd, semi);
    lemma_holds_at(t, pos + pd.len(), semi, 0);
    lemma_declaration(t, pos, ctx.spec_with_in(true), s);
    lemma_holds_at(t, pos, pd, 0);
    assert(statement(t, pos, ctx) == built(s, pd.len() + 1)) by {
        reveal(statement);
        reveal(declaration);
    }
    lemma_balanced_one(semi);
    lemma_balanced_append(pd, semi);
}

/// A statement of one keyword or of one `;`, or a block.
#[verifier::spinoff_prover]
pub proof fn lemma_simple_statement(t: Seq<TokenV>, pos: int, ctx: GrammarContext, s: NodeV)
    requires
        s is Empty || s is Break || s is Continue || s is Block,
        statement_stands(t, pos, ctx, s),
    ensures
        statement_comes_back(t, pos, ctx, s),
    decreases s, 10nat,
{
    let semi = punct(Punctuator::Semicolon);
    lemma_balanced_one(semi);
    match s {
        NodeV::Empty => {
            lemma_holds_at(t, pos, semi, 0);
            assert(statement(t, pos, ctx) == built(s, 1)) by {
                reveal(statement);
            }
        },
        NodeV::Block(items) => {
            let open = punct(Punctuator::OpenBlock);
            let close = punct(Punctuator::CloseBlock);
            let body = statements(items);
            lemma_holds_split(t, pos, open + body, close);
            lemma_holds_split(t, pos, open, body);
            lemma_holds_at(t, pos, open, 0);
            lemma_holds_at(t, pos + 1 + body.len(), close, 0);
            lemma_statements(t, pos + 1, ctx, items, true, Seq::empty());
            assert(Seq::<NodeV>::empty() + items =~= items);
            assert(statement(t, pos, ctx) == built(s, body.len() + 2)) by {
                reveal(statement);
                reveal(statement_list);
            }
            lemma_balanced_one(open);
            lemma_balanced_one(close);
            lemma_balanced_append(open, body);
            lemma_balanced_append(open + body, close);
        },
        _ => {
            let kw = keyword(
                if s is Break {
                    Keyword::Break
                } else {
                    Keyword::Continue
                },
            );
            lemma_holds_split(t, pos, kw, semi);
            lemma_holds_at(t, pos, kw, 0);
            lemma_holds_at(t, pos + 1, semi, 0);
            assert(statement(t, pos, ctx) == built(s, 2)) by {
                reveal(statement);
            }
            lemma_balanced_one(kw);
            lemma_balanced_append(kw, semi);
        },
    }
}

/// A `return` or a `throw` statement.
#[verifier::spinoff_prover]
pub proof fn lemma_return_statement(t: Seq<TokenV>, pos: int, ctx: GrammarContext, s: NodeV)
    requires
        s is Return || s is Throw,
        statement_stands(t, pos, ctx, s),
    ensures
        statement_comes_back(t, pos, ctx, s),
    decreases s, 10nat,
{
    let semi = punct(Punctuator::Semicolon);
    let inner = ctx.spec_with_in(true);
    lemma_balanced_one(semi);
    match s {
        NodeV::Return(None) => {
            let kw = keyword(Keyword::Return);
            assert(optional(None::<Box<NodeV>>) =~= Seq::<TokenV>::empty());
            assert(printed_statement(s) =~= kw + semi);
            lemma_holds_split(t, pos, kw, semi);
            lemma_holds_at(t, pos, kw, 0);
            lemma_holds_at(t, pos + 1, semi, 0);
            assert(return_statement(t, pos, ctx) == built(s, 2)) by {
                reveal(return_statement);
            }
            assert(statement(t, pos, ctx) == built(s, 2)) by {
                reveal(statement);
                reveal(return_statement);
            }
            lemma_balanced_one(kw);
            lemma_balanced_append(kw, semi);
        },
        NodeV::Return(Some(bx)) => {
            let e = *bx;
            let kw = keyword(Keyword::Return);
            let pe = printed_expression(e);
            assert(optional(Some(bx)) == pe);
            assert(well_formed_optional(Some(bx), ctx.allow_yield, ctx.allow_await)
                == well_formed_expression(e, ctx.allow_yield, ctx.allow_await));
            lemma_holds_split(t, pos, kw + pe, semi);
            lemma_holds_split(t, pos, kw, pe);
            lemma_holds_at(t, pos, kw, 0);
            lemma_holds_at(t, pos + 1 + pe.len(), semi, 0);
            lemma_closed(t, pos + 1, inner, e);
            lemma_holds_at(t, pos + 1, pe, 0);
            assert(return_statement(t, pos, ctx) == built(s, pe.len() + 2)) by {
                reveal(return_statement);
                reveal(crate::syntax::parser::expression::expression);
            }
            assert(statement(t, pos, ctx) == built(s, pe.len() + 2)) by {
                reveal(statement);
                reveal(return_statement);
            }
            lemma_balanced_one(kw);
            lemma_balanced_append(kw, pe);
            lemma_balanced_append(kw + pe, semi);
        },
        NodeV::Throw(e) => {
            let e = *e;
            let kw = keyword(Keyword::Throw);
            let pe = printed_expression(e);
            lemma_holds_split(t, pos, kw + pe, semi);
            lemma_holds_split(t, pos, kw, pe);
            lemma_holds_at(t, pos, kw, 0);
            lemma_holds_at(t, pos + 1 + pe.len(), semi, 0);
            lemma_closed(t, pos + 1, inner, e);
            lemma_holds_at(t, pos + 1, pe, 0);
            assert(throw_statement(t, pos, ctx) == built(s, pe.len() + 2)) by {
                reveal(throw_statement);
                reveal(crate::syntax::parser::expression::expression);
            }
            assert(statement(t, pos, ctx) == built(s, pe.len() + 2)) by {
                reveal(statement);
                reveal(throw_statement);
            }
            lemma_balanced_one(kw);
            lemma_balanced_append(kw, pe);
            lemma_balanced_append(kw + pe, semi);
        },
        _ => {},
    }
}

/// A function declaration.
#[verifier::spinoff_prover]
pub proof fn lemma_function_statement(t: Seq<TokenV>, pos: int, ctx: GrammarContext, s: NodeV)
    requires
        s is FunctionDecl,
        statement_stands(t, pos, ctx, s),
    ensures
        statement_comes_back(t, pos, ctx, s),
    decreases s, 10nat,
{
    assert(printed_statement(s) == printed_function_of(s));
    lemma_function(t, pos, ctx, s);
    lemma_holds_at(t, pos, printed_statement(s), 0);
    assert(statement(t, pos, ctx) == built(s, printed_statement(s).len())) by {
        reveal(statement);
        reveal(function);
    }
}

/// An `if` statement.
#[verifier::spinoff_prover]
pub proof fn lemma_if_statement(t: Seq<TokenV>, pos: int, ctx: GrammarContext, s: NodeV)
    requires
        s is If,
        statement_stands(t, pos, ctx, s),
    ensures
        statement_comes_back(t, pos, ctx, s),
    decreases s, 10nat,
{
    match s {
        NodeV::If(c, a, b) => {
            let c = *c;
            let a = *a;
            let kw = keyword(Keyword::If);
            let head = group(printed_expression(c));
            let pa = printed_statement(a);
            let tail = match b {
                Some(b) => keyword(Keyword::Else) + printed_statement(*b),
                None => Seq::empty(),
            };
            assert(printed_statement(s) == kw + head + pa + tail);
            lemma_holds_split(t, pos, kw + head + pa, tail);
            lemma_holds_split(t, pos, kw + head, pa);
            lemma_holds_split(t, pos, kw, head);
            lemma_holds_at(t, pos, kw, 0);
            lemma_parenthesized(t, pos + 1, ctx, c);
            let at = pos + 1 + head.len();
            lemma_balanced_one(kw);
            lemma_balanced_append(kw, head);
            match b {
                Some(b) => {
                    let b = *b;
                    let pb = printed_statement(b);
                    let el = keyword(Keyword::Else);
                    lemma_holds_split(t, at + pa.len(), el, pb);
                    lemma_holds_at(t, at + pa.len(), el, 0);
                    lemma_statement(t, at, ctx, a);
                    lemma_statement(t, at + pa.len() + 1, ctx, b);
                    assert(if_statement(t, pos, ctx) == built(
                        s,
                        head.len() + pa.len() + pb.len() + 2,
                    )) by {
                        reveal(if_statement);
                        reveal(parenthesized);
                        reveal(statement);
                    }
                    lemma_balanced_one(el);
                    lemma_balanced_append(el, pb);
                    lemma_balanced_append(kw + head, pa);
                    lemma_balanced_append(kw + head + pa, tail);
                },
                None => {
                    assert(kw + head + pa + tail =~= kw + head + pa);
                    lemma_statement(t, at, ctx, a);
                    assert(if_statement(t, pos, ctx) == built(s, head.len() + pa.len() + 1)) by {
                        reveal(if_statement);
                        reveal(parenthesized);
                        reveal(statement);
                    }
                    lemma_balanced_append(kw + head, pa);
                },
            }
            assert(statement(t, pos, ctx) == built(s, printed_statement(s).len())) by {
                reveal(statement);
                reveal(if_statement);
            }
        },
        _ => {},
    }
}

/// A `while` or a `do` statement.
#[verifier::spinoff_prover]
pub proof fn lemma_loop_statement(t: Seq<TokenV>, pos: int, ctx: GrammarContext, s: NodeV)
    requires
        s is WhileLoop || s is DoWhileLoop,
        statement_stands(t, pos, ctx, s),
    ensures
        statement_comes_back(t, pos, ctx, s),
    decreases s, 10nat,
{
    match s {
        NodeV::WhileLoop(c, b) => {
            let c = *c;
            let b = *b;
            let kw = keyword(Keyword::While);
            let head = group(printed_expression(c));
            let pb = printed_statement(b);
            lemma_holds_split(t, pos, kw + head, pb);
            lemma_holds_split(t, pos, kw, head);
            lemma_holds_at(t, pos, kw, 0);
            lemma_parenthesized(t, pos + 1, ctx, c);
            lemma_statement(t, pos + 1 + head.len(), ctx, b);
            assert(while_statement(t, pos, ctx) == built(s, head.len() + pb.len() + 1)) by {
                reveal(while_statement);
                reveal(parenthesized);
                reveal(statement);
            }
            assert(statement(t, pos, ctx) == built(s, printed_statement(s).len())) by {
                reveal(statement);
                reveal(while_statement);
            }
            lemma_balanced_one(kw);
            lemma_balanced_append(kw, head);
            lemma_balanced_append(kw + head, pb);
        },
        NodeV::DoWhileLoop(b, c) => {
            let c = *c;
            let b = *b;
            let kw = keyword(Keyword::Do);
            let wh = keyword(Keyword::While);
            let semi = punct(Punctuator::Semicolon);
            let head = group(printed_expression(c));
            let pb = printed_statement(b);
            lemma_holds_split(t, pos, kw + pb + wh + head, semi);
            lemma_holds_split(t, pos, kw + pb + wh, head);
            lemma_holds_split(t, pos, kw + pb, wh);
            lemma_holds_split(t, pos, kw, pb);
            lemma_holds_at(t, pos, kw, 0);
            lemma_holds_at(t, pos + 1 + pb.len(), wh, 0);
            lemma_holds_at(t, pos + pb.len() + head.len() + 2, semi, 0);
            lemma_statement(t, pos + 1, ctx, b);
            lemma_parenthesized(t, pos + pb.len() + 2, ctx, c);
            assert(do_while_statement(t, pos, ctx) == built(s, head.len() + pb.len() + 3)) by {
                reveal(do_while_statement);
                reveal(parenthesized);
                reveal(statement);
            }
            assert(statement(t, pos, ctx) == built(s, printed_statement(s).len())) by {
                reveal(statement);
                reveal(do_while_statement);
            }
            lemma_balanced_one(kw);
            lemma_balanced_one(wh);
            lemma_balanced_one(semi);
            lemma_balanced_append(kw, pb);
            lemma_balanced_append(kw + pb, wh);
            lemma_balanced_append(kw + pb + wh, head);
            lemma_balanced_append(kw + pb + wh + head, semi);
        },
        _ => {},
    }
}

/// The value of an optional expression in a box.
pub open spec fn unboxed(e: Option<Box<NodeV>>) -> Option<NodeV> {
    match e {
        Some(e) => Some(*e),
        None => None,
    }
}

/// The first part of the head of a `for` statement, before its `;`.
#[verifier::spinoff_prover]
pub proof fn lemma_for_init(t: Seq<TokenV>, pos: int, ctx: GrammarContext, init: Option<Box<NodeV>>)
    requires
        match init {
            Some(i) => if is_declaration(*i) {
                well_formed_declaration(*i, ctx.allow_yield, ctx.allow_await)
            } else {
                well_formed_expression(*i, ctx.allow_yield, ctx.allow_await)
            },
            None => true,
        },
        holds(t, pos, crate::syntax::printer::form::for_init(init)),
        punctuator_at(
            t,
            pos + crate::syntax::printer::form::for_init(init).len(),
            Punctuator::Semicolon,
        ),
    ensures
        for_init(t, pos, ctx) == Ok::<(Option<NodeV>, nat), ParseError>(
            (unboxed(init), crate::syntax::printer::form::for_init(init).len()),
        ),
        balanced(crate::syntax::printer::form::for_init(init)),
    decreases init, 9nat,
{
    match init {
        None => {
            reveal(for_init);
            lemma_balanced_empty();
        },
        Some(i) => {
            let i = *i;
            if is_declaration(i) {
                lemma_declaration(t, pos, ctx.spec_with_in(false), i);
                assert(for_init(t, pos, ctx) == Ok::<(Option<NodeV>, nat), ParseError>(
                    (Some(i), printed_declaration(i).len()),
                )) by {
                    reveal(for_init);
                    reveal(declaration);
                }
            } else {
                lemma_closed(t, pos, ctx.spec_with_in(false), i);
                assert(for_init(t, pos, ctx) == Ok::<(Option<NodeV>, nat), ParseError>(
                    (Some(i), printed_expression(i).len()),
                )) by {
                    reveal(for_init);
                    reveal(crate::syntax::parser::expression::expression);
                }
            }
        },
    }
}

/// A later part of the head of a `for` statement, with the token that
/// closes it.
#[verifier::spinoff_prover]
pub proof fn lemma_for_part(
    t: Seq<TokenV>,
    pos: int,
    ctx: GrammarContext,
    close: Punctuator,
    e: Option<Box<NodeV>>,
)
    requires
        well_formed_optional(e, ctx.allow_yield, ctx.allow_await),
        close == Punctuator::Semicolon || close == Punctuator::CloseParen,
        holds(t, pos, optional(e)),
        punctuator_at(t, pos + optional(e).len(), close),
    ensures
        for_part(t, pos, ctx, close) == Ok::<(Option<NodeV>, nat), ParseError>(
            (unboxed(e), optional(e).len() + 1),
        ),
        balanced(optional(e)),
    decreases e, 9nat,
{
    match e {
        None => {
            reveal(for_part);
            lemma_balanced_empty();
        },
        Some(x) => {
            let x = *x;
            lemma_closed(t, pos, ctx.spec_with_in(true), x);
            assert(for_part(t, pos, ctx, close) == Ok::<(Option<NodeV>, nat), ParseError>(
                (Some(x), printed_expression(x).len() + 1),
            )) by {
                reveal(for_part);
                reveal(crate::syntax::parser::expression::expression);
            }
        },
    }
}

/// A `for` statement.
#[verifier::spinoff_prover]
pub proof fn lemma_for_statement(t: Seq<TokenV>, pos: int, ctx: GrammarContext, s: NodeV)
    requires
        s is ForLoop,
        statement_stands(t, pos, ctx, s),
    ensures
        statement_comes_back(t, pos, ctx, s),
    decreases s, 10nat,
{
    match s {
        NodeV::ForLoop(init, c, step, b) => {
            let b = *b;
            let kw = keyword(Keyword::For);
            let open = punct(Punctuator::OpenParen);
            let close = punct(Punctuator::CloseParen);
            let semi = punct(Punctuator::Semicolon);
            let pi = crate::syntax::printer::form::for_init(init);
            let pc = optional(c);
            let pt = optional(step);
            let pb = printed_statement(b);
            lemma_holds_split(t, pos, kw + open + pi + semi + pc + semi + pt + close, pb);
            lemma_holds_split(t, pos, kw + open + pi + semi + pc + semi + pt, close);
            lemma_holds_split(t, pos, kw + open + pi + semi + pc + semi, pt);
            lemma_holds_split(t, pos, kw + open + pi + semi + pc, semi);
            lemma_holds_split(t, pos, kw + open + pi + semi, pc);
            lemma_holds_split(t, pos, kw + open + pi, semi);
            lemma_holds_split(t, pos, kw + open, pi);
            lemma_holds_split(t, pos, kw, open);
            lemma_holds_at(t, pos, kw, 0);
            lemma_holds_at(t, pos + 1, open, 0);
            let p1 = pos + 2 + pi.len();
            lemma_holds_at(t, p1, semi, 0);
            let p2 = p1 + 1 + pc.len();
            lemma_holds_at(t, p2, semi, 0);
            let p3 = p2 + 1 + pt.len();
            lemma_holds_at(t, p3, close, 0);
            lemma_for_init(t, pos + 2, ctx, init);
            lemma_for_part(t, p1 + 1, ctx, Punctuator::Semicolon, c);
            lemma_for_part(t, p2 + 1, ctx, Punctuator::CloseParen, step);
            lemma_statement(t, p3 + 1, ctx, b);
            let n = pi.len() + pc.len() + pt.len() + pb.len() + 5;
            assert(boxed_option(unboxed(init)) == init);
            assert(boxed_option(unboxed(c)) == c);
            assert(boxed_option(unboxed(step)) == step);
            assert(for_statement(t, pos, ctx) == built(s, n)) by {
                reveal(for_statement);
                reveal(for_init);
                reveal(for_part);
                reveal(statement);
            }
            assert(statement(t, pos, ctx) == built(s, n)) by {
                reveal(statement);
                reveal(for_statement);
            }
            lemma_balanced_one(kw);
            lemma_balanced_one(semi);
            assert(group(pi + semi + pc + semi + pt) =~= open + (pi + semi + pc + semi + pt)
                + close);
            lemma_balanced_append(pi, semi);
            lemma_balanced_append(pi + semi, pc);
            lemma_balanced_append(pi + semi + pc, semi);
            lemma_balanced_append(pi + semi + pc + semi, pt);
            lemma_balanced_group(pi + semi + pc + semi + pt);
            lemma_balanced_append(kw, group(pi + semi + pc + semi + pt));
            lemma_balanced_append(kw + group(pi + semi + pc + semi + pt), pb);
            assert(kw + group(pi + semi + pc + semi + pt) + pb =~= printed_statement(s));
        },
        _ => {},
    }
}

/// The well-formed methods of a class, closed by its `}`, come back behind
/// the methods that were parsed before them.
#[verifier::spinoff_prover]
pub proof fn lemma_methods(t: Seq<TokenV>, pos: int, ms: Seq<ClassMethodV>, done: Seq<ClassMethodV>)
    requires
        well_formed_methods(ms),
        holds(t, pos, crate::syntax::printer::form::methods(ms)),
        punctuator_at(
            t,
            pos + crate::syntax::printer::form::methods(ms).len(),
            Punctuator::CloseBlock,
        ),
    ensures
        class_elements(t, pos, done) == Ok::<(Seq<ClassMethodV>, nat), ParseError>(
            (done + ms, crate::syntax::printer::form::methods(ms).len() + 1),
        ),
        balanced(crate::syntax::printer::form::methods(ms)),
    decreases ms, 12nat,
{
    if ms.len() == 0 {
        reveal(class_elements);
        assert(done + ms =~= done);
        lemma_balanced_empty();
    } else {
        let m = ms[0];
        let rest = ms.subrange(1, ms.len() as int);
        let pm = crate::syntax::printer::form::method(m);
        let mark = if m.is_static {
            name(static_word())
        } else {
            Seq::empty()
        };
        let open = punct(Punctuator::OpenParen);
        let close = punct(Punctuator::CloseParen);
        let ps = crate::syntax::printer::form::parameters(m.params);
        let block = punct(Punctuator::OpenBlock) + statements(m.body.items) + punct(
            Punctuator::CloseBlock,
        );
        let inner = method_context();
        assert(well_formed_method(m));
        assert(pm =~= mark + name(m.name) + open + ps + close + block);
        lemma_holds_split(t, pos, pm, crate::syntax::printer::form::methods(rest));
        lemma_holds_split(t, pos, mark + name(m.name) + open + ps + close, block);
        lemma_holds_split(t, pos, mark + name(m.name) + open + ps, close);
        lemma_holds_split(t, pos, mark + name(m.name) + open, ps);
        lemma_holds_split(t, pos, mark + name(m.name), open);
        lemma_holds_split(t, pos, mark, name(m.name));
        let s: nat = if m.is_static {
            1
        } else {
            0
        };
        if m.is_static {
            lemma_holds_at(t, pos, mark, 0);
        }
        lemma_holds_at(t, pos + s, name(m.name), 0);
        lemma_holds_at(t, pos + s + 1, open, 0);
        lemma_holds_at(t, pos + s + 2 + ps.len(), close, 0);
        assert(static_at(t, pos) == m.is_static);
        crate::syntax::printer::functions::lemma_parameters(
            t,
            pos + s + 2,
            inner,
            m.params,
            Seq::empty(),
        );
        assert(Seq::<crate::syntax::ast::node::FormalParameterV>::empty() + m.params =~= m.params);
        crate::syntax::printer::functions::lemma_body(t, pos + s + ps.len() + 3, inner, m.body);
        assert forall|i: int| 0 <= i < rest.len() implies well_formed_method(#[trigger] rest[i]) by {
            assert(rest[i] == ms[i + 1]);
        }
        let built_method = ClassMethodV {
            name: m.name,
            is_static: m.is_static,
            params: m.params,
            body: m.body,
        };
        assert(built_method == m);
        lemma_methods(t, pos + pm.len(), rest, done.push(m));
        assert(done.push(m) + rest =~= done + ms);
        assert(class_elements(t, pos, done) == Ok::<(Seq<ClassMethodV>, nat), ParseError>(
            (done + ms, crate::syntax::printer::form::methods(ms).len() + 1),
        )) by {
            reveal(class_elements);
            reveal(crate::syntax::parser::function::formal_parameters);
            reveal(crate::syntax::parser::function::function_body);
        }
        lemma_balanced_group(ps);
        assert(group(ps) =~= open + ps + close);
        lemma_balanced_empty();
        lemma_balanced_one(name(m.name));
        if m.is_static {
            lemma_balanced_one(mark);
        }
        lemma_balanced_append(mark, name(m.name));
        lemma_balanced_append(mark + name(m.name), open + ps + close);
        lemma_balanced_append(mark + name(m.name) + (open + ps + close), block);
        assert(mark + name(m.name) + (open + ps + close) + block =~= pm);
        lemma_balanced_append(pm, crate::syntax::printer::form::methods(rest));
    }
}

/// A class declaration.
#[verifier::spinoff_prover]
pub proof fn lemma_class_statement(t: Seq<TokenV>, pos: int, ctx: GrammarContext, s: NodeV)
    requires
        s is ClassDecl,
        statement_stands(t, pos, ctx, s),
    ensures
        statement_comes_back(t, pos, ctx, s),
    decreases s, 10nat,
{
    match s {
        NodeV::ClassDecl(n, h, ms) => {
            let kw = keyword(Keyword::Class);
            let ph = crate::syntax::printer::form::heritage(h);
            let open = punct(Punctuator::OpenBlock);
            let close = punct(Punctuator::CloseBlock);
            let pms = crate::syntax::printer::form::methods(ms);
            lemma_holds_split(t, pos, kw + name(n) + ph + open + pms, close);
            lemma_holds_split(t, pos, kw + name(n) + ph + open, pms);
            lemma_holds_split(t, pos, kw + name(n) + ph, open);
            lemma_holds_split(t, pos, kw + name(n), ph);
            lemma_holds_split(t, pos, kw, name(n));
            lemma_holds_at(t, pos, kw, 0);
            lemma_holds_at(t, pos + 1, name(n), 0);
            let at = pos + 2 + ph.len();
            lemma_holds_at(t, at, open, 0);
            lemma_holds_at(t, at + 1 + pms.len(), close, 0);
            lemma_methods(t, at + 1, ms, Seq::empty());
            assert(Seq::<ClassMethodV>::empty() + ms =~= ms);
            lemma_balanced_one(kw);
            lemma_balanced_one(name(n));
            lemma_balanced_one(open);
            lemma_balanced_one(close);
            lemma_balanced_empty();
            match h {
                Some(bx) => {
                    let e = *bx;
                    let ex = keyword(Keyword::Extends);
                    let pe = printed_expression(e);
                    assert(ph == ex + pe);
                    assert(well_formed_optional(Some(bx), ctx.allow_yield, ctx.allow_await)
                        == well_formed_expression(e, ctx.allow_yield, ctx.allow_await));
                    lemma_holds_split(t, pos + 2, ex, pe);
                    lemma_holds_at(t, pos + 2, ex, 0);
                    crate::syntax::printer::expressions::lemma_expression(t, pos + 3, ctx, e);
                    crate::syntax::printer::climb::lemma_left_hand_side_of(
                        t,
                        pos + 3,
                        ctx,
                        e,
                        pe.len(),
                    );
                    assert(class_body(t, at, n, Some(e)) == built(s, pms.len() + 2)) by {
                        reveal(class_body);
                        reveal(class_elements);
                    }
                    assert(class_declaration(t, pos, ctx) == built(s, printed_statement(s).len()))
                        by {
                        reveal(class_declaration);
                        reveal(class_body);
                        reveal(crate::syntax::parser::expression::left_hand_side);
                    }
                    lemma_balanced_one(ex);
                    lemma_balanced_append(ex, pe);
                },
                None => {
                    assert(ph =~= Seq::<TokenV>::empty());
                    assert(class_body(t, at, n, None) == built(s, pms.len() + 2)) by {
                        reveal(class_body);
                        reveal(class_elements);
                    }
                    assert(class_declaration(t, pos, ctx) == built(s, printed_statement(s).len()))
                        by {
                        reveal(class_declaration);
                        reveal(class_body);
                    }
                },
            }
            assert(statement(t, pos, ctx) == built(s, printed_statement(s).len())) by {
                reveal(statement);
                reveal(class_declaration);
            }
            lemma_balanced_append(kw, name(n));
            lemma_balanced_append(kw + name(n), ph);
            lemma_balanced_append(kw + name(n) + ph, open);
            lemma_balanced_append(kw + name(n) + ph + open, pms);
            lemma_balanced_append(kw + name(n) + ph + open + pms, close);
        },
        _ => {},
    }
}

/// A well-formed statement comes back from its printed form. An `else`
/// follows it only where it does not end with an `if` without `else`.
#[verifier::spinoff_prover]
pub proof fn lemma_statement(t: Seq<TokenV>, pos: int, ctx: GrammarContext, s: NodeV)
    requires
        statement_stands(t, pos, ctx, s),
    ensures
        statement_comes_back(t, pos, ctx, s),
    decreases s, 11nat,
{
    match s {
        NodeV::Block(_) => lemma_simple_statement(t, pos, ctx, s),
        NodeV::Empty => lemma_simple_statement(t, pos, ctx, s),
        NodeV::Break => lemma_simple_statement(t, pos, ctx, s),
        NodeV::Continue => lemma_simple_statement(t, pos, ctx, s),
        NodeV::VarDeclList(_) => lemma_declaration_statement(t, pos, ctx, s),
        NodeV::LetDeclList(_) => lemma_declaration_statement(t, pos, ctx, s),
        NodeV::ConstDeclList(_) => lemma_declaration_statement(t, pos, ctx, s),
        NodeV::If(_, _, _) => lemma_if_statement(t, pos, ctx, s),
        NodeV::WhileLoop(_, _) => lemma_loop_statement(t, pos, ctx, s),
        NodeV::DoWhileLoop(_, _) => lemma_loop_statement(t, pos, ctx, s),
        NodeV::ForLoop(_, _, _, _) => lemma_for_statement(t, pos, ctx, s),
        NodeV::Return(_) => lemma_return_statement(t, pos, ctx, s),
        NodeV::Throw(_) => lemma_return_statement(t, pos, ctx, s),
        NodeV::FunctionDecl(_, _, _, _) => lemma_function_statement(t, pos, ctx, s),
        NodeV::ClassDecl(_, _, _) => lemma_class_statement(t, pos, ctx, s),
        _ => lemma_expression_statement(t, pos, ctx, s),
    }
}

/// Well-formed statements come back behind the statements that were parsed
/// before them: inside a block up to its `}`, at the top level up to the
/// end of the text.
#[verifier::spinoff_prover]
pub proof fn lemma_statements(
    t: Seq<TokenV>,
    pos: int,
    ctx: GrammarContext,
    items: Seq<NodeV>,
    in_block: bool,
    done: Seq<NodeV>,
)
    requires
        well_formed_statements(items, ctx.allow_yield, ctx.allow_await, ctx.allow_return),
        holds(t, pos, statements(items)),
        if in_block {
            punctuator_at(t, pos + statements(items).len(), Punctuator::CloseBlock)
        } else {
            kind_at(t, pos + statements(items).len()) == TokenKind::EndOfInput
        },
    ensures
        statement_list(t, pos, ctx, in_block, done) == Ok::<(Seq<NodeV>, nat), ParseError>(
            (
                done + items,
                (statements(items).len() + if in_block {
                    1nat
                } else {
                    0nat
                }) as nat,
            ),
        ),
        balanced(statements(items)),
        items.len() > 0 ==> starts_statement(kind_at(t, pos)),
    decreases items, 12nat,
{
    if items.len() == 0 {
        reveal(statement_list);
        assert(done + items =~= done);
        lemma_balanced_empty();
    } else {
        let s = items[0];
        let ps = printed_statement(s);
        let rest = items.subrange(1, items.len() as int);
        lemma_holds_split(t, pos, ps, statements(rest));
        assert forall|i: int| 0 <= i < rest.len() implies well_formed_statement(
            #[trigger] rest[i],
            ctx.allow_yield,
            ctx.allow_await,
            ctx.allow_return,
        ) by {
            assert(rest[i] == items[i + 1]);
        }
        lemma_statements(t, pos + ps.len(), ctx, rest, in_block, done.push(s));
        lemma_statement(t, pos, ctx, s);
        assert(done.push(s) + rest =~= done + items);
        assert(statement_list(t, pos, ctx, in_block, done) == Ok::<(Seq<NodeV>, nat), ParseError>(
            (
                done + items,
                (statements(items).len() + if in_block {
                    1nat
                } else {
                    0nat
                }) as nat,
            ),
        )) by {
            reveal(statement_list);
            reveal(statement);
        }
        lemma_balanced_append(ps, statements(rest));
    }
}

} // verus!
