//! The parser: from a source text to the syntax tree of a script.
//!
//! The grammar is written down twice. Each production is a specification
//! function from a token sequence and a place in it to the value that the
//! production builds there and the number of tokens that it consumes, or to
//! the error that it fails with. Beside it stands the parsing function of the
//! same production, which works on a [`cursor::Cursor`] and is proved to
//! return what the specification function denotes. The first error ends the
//! parse: no production recovers from an error of a production below it.

pub mod class;
pub mod cursor;
pub mod error;
pub mod expression;
pub mod function;
pub mod grammar;
pub mod hoist;
pub mod laws;
pub mod statement;

use vstd::prelude::*;
use crate::syntax::ast::node::{node_views, Node, NodeV, StatementList, StatementListV};
use crate::syntax::lexer::token::{token_views, Token, TokenKind, TokenV};
use crate::syntax::lexer::tokenize;
use crate::syntax::parser::cursor::{kind_at, Cursor};
use crate::syntax::parser::error::ParseError;
use crate::syntax::parser::grammar::{agrees, list_result, shift, GrammarContext, Parsed};
use crate::syntax::parser::hoist::{
    function_declarations, hoist, hoisted, hoisted_order, listed, other_statements,
};
use crate::syntax::parser::laws::lemma_hoisting_keeps_source_order;
use crate::syntax::printer::law::lemma_script_is_well_formed;
use crate::syntax::printer::shape::well_formed_script;
use crate::syntax::parser::statement::{
    parse_statement, parse_statement_list, statement, statement_list,
};

verus! {

/// The body of a script: its statements up to the end of the text, hoisted.
pub open spec fn script_body(tokens: Seq<TokenV>, pos: int) -> Parsed<StatementListV> {
    match statement_list(tokens, pos, GrammarContext::spec_script(), false, Seq::empty()) {
        Ok((items, n)) => Ok((hoisted(items), n)),
        Err(e) => Err(e),
    }
}

/// A script: nothing at all, or a script body.
pub open spec fn script(tokens: Seq<TokenV>, pos: int) -> Parsed<StatementListV> {
    if kind_at(tokens, pos) == TokenKind::EndOfInput {
        Ok((listed(Seq::empty()), 0nat))
    } else {
        script_body(tokens, pos)
    }
}

/// The next statement of the top level of a script: `None` at the end of the
/// text.
pub open spec fn next_statement(tokens: Seq<TokenV>, pos: int) -> Option<Parsed<NodeV>> {
    if kind_at(tokens, pos) == TokenKind::EndOfInput {
        None
    } else {
        Some(statement(tokens, pos, GrammarContext::spec_script()))
    }
}

/// Every statement consumes a token.
pub proof fn lemma_statement_consumes(tokens: Seq<TokenV>, pos: int, ctx: GrammarContext)
    ensures
        statement(tokens, pos, ctx) matches Ok((_, n)) ==> n >= 1,
{
    crate::syntax::printer::produced::lemma_statement(tokens, pos, ctx);
}

/// Parsing all of a script is taking its statements one by one: at each
/// place the statements of the top level are the next statement and the
/// statements behind it, and the first error is the error of the whole.
pub proof fn lemma_statements_one_by_one(tokens: Seq<TokenV>, pos: int, done: Seq<NodeV>)
    ensures
        statement_list(tokens, pos, GrammarContext::spec_script(), false, done) == (
        match next_statement(tokens, pos) {
            None => Ok((done, 0nat)),
            Some(Ok((s, n))) => shift(
                statement_list(
                    tokens,
                    pos + n,
                    GrammarContext::spec_script(),
                    false,
                    done.push(s),
                ),
                n,
            ),
            Some(Err(e)) => Err(e),
        }),
{
    reveal(statement_list);
    lemma_statement_consumes(tokens, pos, GrammarContext::spec_script());
}

/// For every script that is valid, that is, whose statements parse, parsing
/// succeeds, and the statements that are no function declarations stand in
/// the statement list in the order of the source; for any other script, the
/// result is the error of the first statement that does not parse.
pub proof fn lemma_script_keeps_source_order(tokens: Seq<TokenV>, pos: int)
    ensures
        match statement_list(tokens, pos, GrammarContext::spec_script(), false, Seq::empty()) {
            Ok((items, n)) => script(tokens, pos) matches Ok((list, m)) && m == n
                && other_statements(list.items) == other_statements(items)
                && function_declarations(list.items) == function_declarations(items)
                && list.items.len() == items.len(),
            Err(e) => script(tokens, pos) == Err::<(StatementListV, nat), ParseError>(e),
        },
{
    reveal(statement_list);
    match statement_list(tokens, pos, GrammarContext::spec_script(), false, Seq::empty()) {
        Ok((items, n)) => {
            lemma_hoisting_keeps_source_order(items);
            if kind_at(tokens, pos) == TokenKind::EndOfInput {
                assert(hoisted_order(items) =~= items);
            }
        },
        Err(e) => {},
    }
}

/// A lexing failure is never skipped: a script whose token stream ends
/// where lexing failed does not parse. No production consumes a terminal
/// token, so a parse that succeeds has reached the end of the text.
pub proof fn lemma_lexing_failure_is_reported(src: Seq<u8>)
    requires
        tokenize(src).last().kind is Invalid,
    ensures
        script(tokenize(src), 0) is Err,
{
    let t = tokenize(src);
    let ctx = GrammarContext::spec_script();
    crate::syntax::lexer::laws::lemma_stream_ends_once(src);
    if kind_at(t, 0) != TokenKind::EndOfInput {
        crate::syntax::printer::produced::lemma_statement_list(t, 0, ctx, false, Seq::empty());
        match statement_list(t, 0, ctx, false, Seq::empty()) {
            Ok((_, n)) => {
                assert(crate::syntax::printer::produced::reached(t, 0));
                assert(crate::syntax::printer::produced::reached(t, n as int));
                if n < t.len() {
                    assert(t[n as int].kind.spec_is_terminal());
                    assert(n == t.len() - 1);
                } else if n > 0 {
                    assert(!t[t.len() - 1].kind.spec_is_terminal());
                }
            },
            Err(_) => {},
        }
    }
}

/// A parser over one source text.
///
/// It is ready until the end of the text is reached or a production fails;
/// from then on it is finished, and hands out no further statement.
pub struct Parser {
    cursor: Cursor,
    finished: bool,
}

/// The production of a whole script.
#[derive(Debug, Clone, Copy)]
pub struct Script;

/// The production of the body of a script.
#[derive(Debug, Clone, Copy)]
pub struct ScriptBody;

impl Parser {
    /// The tokens of the source text.
    pub closed spec fn tokens(&self) -> Seq<TokenV> {
        self.cursor.tokens()
    }

    /// The index of the next token to read.
    pub closed spec fn pos(&self) -> int {
        self.cursor.pos()
    }

    /// Whether the parser hands out no further statement.
    pub closed spec fn finished(&self) -> bool {
        self.finished
    }

    /// A parser at the start of the source text `reader`.
    pub fn new(reader: &[u8]) -> (p: Parser)
        ensures
            p.tokens() == tokenize(reader@),
            p.pos() == 0,
            !p.finished(),
    {
        Parser { cursor: Cursor::new(reader), finished: false }
    }

    /// A parser at the start of the given tokens.
    pub fn from_tokens(tokens: Vec<Token>) -> (p: Parser)
        ensures
            p.tokens() == token_views(tokens@),
            p.pos() == 0,
            !p.finished(),
    {
        Parser { cursor: Cursor::from_tokens(tokens), finished: false }
    }

    /// Parses the rest of the text as a script and returns its statement list,
    /// or the first error.
    pub fn parse_all(&mut self) -> (r: Result<StatementList, ParseError>)
        ensures
            final(self).tokens() == old(self).tokens(),
            final(self).finished(),
            agrees(
                list_result(r),
                final(self).pos() - old(self).pos(),
                script(old(self).tokens(), old(self).pos()),
            ),
            r matches Ok(list) ==> well_formed_script(list@),
    {
        proof {
            lemma_script_is_well_formed(self.tokens(), self.pos());
        }
        let r = Script.parse(self);
        self.finished = true;
        r
    }

    /// Parses the next statement of the top level. `None` at the end of the
    /// text, and ever after the first error.
    pub fn next(&mut self) -> (r: Option<Result<Node, ParseError>>)
        ensures
            final(self).tokens() == old(self).tokens(),
            old(self).finished() ==> r is None && final(self).finished() && final(self).pos()
                == old(self).pos(),
            !old(self).finished() ==> match next_statement(old(self).tokens(), old(self).pos()) {
                None => r is None && final(self).finished() && final(self).pos() == old(
                    self,
                ).pos(),
                Some(Ok((s, n))) => r matches Some(Ok(node)) && node@ == s && final(self).pos()
                    == old(self).pos() + n && !final(self).finished(),
                Some(Err(e)) => r == Some(Err::<Node, ParseError>(e)) && final(self).finished(),
            },
    {
        if self.finished {
            return None;
        }
        if self.cursor.peek_kind(0) == TokenKind::EndOfInput {
            self.finished = true;
            return None;
        }
        match parse_statement(&mut self.cursor, GrammarContext::script()) {
            Ok(node) => Some(Ok(node)),
            Err(e) => {
                self.finished = true;
                Some(Err(e))
            },
        }
    }
}

impl Script {
    /// Parses a script.
    pub fn parse(self, parser: &mut Parser) -> (r: Result<StatementList, ParseError>)
        ensures
            final(parser).tokens() == old(parser).tokens(),
            final(parser).finished() == old(parser).finished(),
            agrees(
                list_result(r),
                final(parser).pos() - old(parser).pos(),
                script(old(parser).tokens(), old(parser).pos()),
            ),
    {
        if parser.cursor.peek_kind(0) == TokenKind::EndOfInput {
            let items: Vec<Node> = Vec::new();
            assert(node_views(items@) =~= Seq::<NodeV>::empty());
            Ok(StatementList::from(items))
        } else {
            ScriptBody.parse(parser)
        }
    }
}

impl ScriptBody {
    /// Parses the body of a script.
    pub fn parse(self, parser: &mut Parser) -> (r: Result<StatementList, ParseError>)
        ensures
            final(parser).tokens() == old(parser).tokens(),
            final(parser).finished() == old(parser).finished(),
            agrees(
                list_result(r),
                final(parser).pos() - old(parser).pos(),
                script_body(old(parser).tokens(), old(parser).pos()),
            ),
    {
        match parse_statement_list(&mut parser.cursor, GrammarContext::script(), false) {
            Ok(items) => Ok(hoist(items)),
            Err(e) => Err(e),
        }
    }
}

} // verus!
