//! The round trip: parsing the printed form of a tree gives the tree back.

use vstd::prelude::*;
use crate::syntax::ast::node::{NodeV, StatementList, StatementListV};
use crate::syntax::lexer::token::{TokenKind, TokenV};
use crate::syntax::parser::cursor::kind_at;
use crate::syntax::parser::error::ParseError;
use crate::syntax::parser::grammar::GrammarContext;
use crate::syntax::parser::hoist::{hoisted, hoisted_order};
use crate::syntax::parser::statement::statement_list;
use crate::syntax::parser::{script, Parser};
use crate::syntax::printer::emit::print;
use crate::syntax::printer::form::{statements, token};
use crate::syntax::parser::laws::lemma_hoisting_keeps_source_order;
use crate::syntax::printer::produced::{lemma_hoisted_statements, lemma_statement_list};
use crate::syntax::printer::shape::well_formed_script;
use crate::syntax::printer::statements::lemma_statements;
use crate::syntax::printer::window::lemma_holds_at;

verus! {

/// Parsing the printed form of a statement list that the parser can build
/// gives the list back: the same statements in the same order, with the
/// same hoisted names.
pub proof fn lemma_round_trip(list: StatementListV)
    requires
        well_formed_script(list),
    ensures
        script(crate::syntax::printer::form::script(list), 0) == Ok::<
            (StatementListV, nat),
            ParseError,
        >((list, statements(list.items).len())),
{
    let body = statements(list.items);
    let end = token(TokenKind::EndOfInput);
    let t = crate::syntax::printer::form::script(list);
    assert(t.subrange(0, body.len() as int) =~= body);
    assert(t.subrange(body.len() as int, body.len() as int + 1) =~= end);
    lemma_holds_at(t, body.len() as int, end, 0);
    lemma_statements(t, 0, GrammarContext::spec_script(), list.items, false, Seq::empty());
    assert(Seq::<NodeV>::empty() + list.items =~= list.items);
    if list.items.len() == 0 {
        assert(hoisted_order(list.items) =~= Seq::<NodeV>::empty());
    }
}

/// The statement list that the parser builds for a script is well-formed.
pub proof fn lemma_script_is_well_formed(t: Seq<TokenV>, pos: int)
    ensures
        script(t, pos) matches Ok((list, _)) ==> well_formed_script(list),
{
    let ctx = GrammarContext::spec_script();
    if kind_at(t, pos) == TokenKind::EndOfInput {
        assert(hoisted_order(Seq::<NodeV>::empty()) =~= Seq::<NodeV>::empty());
    } else {
        lemma_statement_list(t, pos, ctx, false, Seq::empty());
        match statement_list(t, pos, ctx, false, Seq::empty()) {
            Ok((items, _)) => {
                lemma_hoisted_statements(items, false, false, false);
                lemma_hoisting_keeps_source_order(items);
            },
            Err(_) => {},
        }
    }
}

/// The round trip: parsing the printed form of a statement list that the
/// parser built gives the same statement list. Positions apart, which the
/// tree does not hold, the tree that comes back is the tree that was
/// printed.
pub proof fn lemma_parse_print_parse(t: Seq<TokenV>, pos: int)
    ensures
        script(t, pos) matches Ok((list, _)) ==> script(
            crate::syntax::printer::form::script(list),
            0,
        ) == Ok::<(StatementListV, nat), ParseError>((list, statements(list.items).len())),
{
    lemma_script_is_well_formed(t, pos);
    match script(t, pos) {
        Ok((list, _)) => {
            lemma_round_trip(list);
        },
        Err(_) => {},
    }
}

/// Prints a statement list and parses what was printed. For a list that
/// the parser can build, the result is the list itself.
pub fn reparse(list: &StatementList) -> (r: Result<StatementList, ParseError>)
    ensures
        well_formed_script(list@) ==> (r matches Ok(again) && again@ == list@),
{
    let tokens = print(list);
    proof {
        if well_formed_script(list@) {
            lemma_round_trip(list@);
        }
    }
    let mut parser = Parser::from_tokens(tokens);
    parser.parse_all()
}

} // verus!
