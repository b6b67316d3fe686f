//! Token sequences inside token sequences, and the nesting of parentheses.

use vstd::prelude::*;
use crate::syntax::lexer::token::{Punctuator, TokenKind, TokenV};
use crate::syntax::parser::cursor::{flags_at, kind_at, newline_at, text_at};
use crate::syntax::parser::function::{closing_paren, extend_distance};
use crate::syntax::printer::form::{group, punct};

verus! {

/// Whether the tokens `w` stand in `t` from `pos` on.
pub open spec fn holds(t: Seq<TokenV>, pos: int, w: Seq<TokenV>) -> bool {
    &&& 0 <= pos
    &&& pos + w.len() <= t.len()
    &&& t.subrange(pos, pos + w.len()) == w
}

/// Where `a + b` stands, `a` stands, and `b` behind it.
pub proof fn lemma_holds_split(t: Seq<TokenV>, pos: int, a: Seq<TokenV>, b: Seq<TokenV>)
    requires
        holds(t, pos, a + b),
    ensures
        holds(t, pos, a),
        holds(t, pos + a.len(), b),
{
    let w = t.subrange(pos, pos + (a + b).len());
    assert(t.subrange(pos, pos + a.len()) =~= w.subrange(0, a.len() as int));
    assert(w.subrange(0, a.len() as int) =~= a);
    assert(t.subrange(pos + a.len(), pos + a.len() + b.len()) =~= w.subrange(
        a.len() as int,
        w.len() as int,
    ));
    assert(w.subrange(a.len() as int, w.len() as int) =~= b);
}

/// The token of `t` that is the `k`-th of a window.
pub proof fn lemma_holds_at(t: Seq<TokenV>, pos: int, w: Seq<TokenV>, k: int)
    requires
        holds(t, pos, w),
        0 <= k < w.len(),
    ensures
        0 <= pos + k < t.len(),
        t[pos + k] == w[k],
        kind_at(t, pos + k) == w[k].kind,
        text_at(t, pos + k) == w[k].text,
        flags_at(t, pos + k) == w[k].flags,
        newline_at(t, pos + k) == w[k].newline_before,
{
    assert(t.subrange(pos, pos + w.len())[k] == t[pos + k]);
}

/// The depth of open parentheses behind the tokens `w`, read at the depth
/// `d`. `None` where a terminal token stands among them, or a `)` that
/// closes a parenthesis which was not opened among them or in the `d`
/// before.
pub open spec fn level(w: Seq<TokenV>, d: nat) -> Option<nat>
    decreases w.len(),
{
    if w.len() == 0 {
        Some(d)
    } else if w[0].kind.spec_is_terminal() {
        None
    } else if w[0].kind == TokenKind::Punctuator(Punctuator::CloseParen) {
        if d == 0 {
            None
        } else {
            level(w.subrange(1, w.len() as int), (d - 1) as nat)
        }
    } else if w[0].kind == TokenKind::Punctuator(Punctuator::OpenParen) {
        level(w.subrange(1, w.len() as int), d + 1)
    } else {
        level(w.subrange(1, w.len() as int), d)
    }
}

/// Whether the parentheses of `w` are nested well: each `)` closes a `(` of
/// `w`, none stays open, and no terminal token stands in `w`.
pub open spec fn balanced(w: Seq<TokenV>) -> bool {
    forall|d: nat| #[trigger] level(w, d) == Some(d)
}

/// The depth behind two sequences, one behind the other.
pub proof fn lemma_level_append(a: Seq<TokenV>, b: Seq<TokenV>, d: nat)
    ensures
        level(a + b, d) == (match level(a, d) {
            Some(d1) => level(b, d1),
            None => None,
        }),
    decreases a.len(),
{
    if a.len() == 0 {
        assert(a + b =~= b);
    } else {
        let rest = a.subrange(1, a.len() as int);
        assert((a + b).subrange(1, (a + b).len() as int) =~= rest + b);
        assert((a + b)[0] == a[0]);
        if a[0].kind.spec_is_terminal() {
        } else if a[0].kind == TokenKind::Punctuator(Punctuator::CloseParen) {
            if d > 0 {
                lemma_level_append(rest, b, (d - 1) as nat);
            }
        } else if a[0].kind == TokenKind::Punctuator(Punctuator::OpenParen) {
            lemma_level_append(rest, b, d + 1);
        } else {
            lemma_level_append(rest, b, d);
        }
    }
}

/// Looking for the closing parenthesis, a stretch of tokens is passed, and
/// the search goes on behind it at the depth that the stretch leaves.
pub proof fn lemma_closing_paren_skip(t: Seq<TokenV>, pos: int, d: nat, w: Seq<TokenV>)
    requires
        holds(t, pos, w),
        level(w, d) is Some,
    ensures
        closing_paren(t, pos, d) == extend_distance(
            closing_paren(t, pos + w.len(), level(w, d).unwrap()),
            w.len(),
        ),
    decreases w.len(),
{
    if w.len() > 0 {
        lemma_holds_at(t, pos, w, 0);
        let rest = w.subrange(1, w.len() as int);
        assert(w =~= w.subrange(0, 1) + rest);
        lemma_holds_split(t, pos, w.subrange(0, 1), rest);
        let next: nat = if w[0].kind == TokenKind::Punctuator(Punctuator::OpenParen) {
            d + 1
        } else if w[0].kind == TokenKind::Punctuator(Punctuator::CloseParen) {
            (d - 1) as nat
        } else {
            d
        };
        lemma_closing_paren_skip(t, pos + 1, next, rest);
    }
}

/// Nothing is nested well.
pub proof fn lemma_balanced_empty()
    ensures
        balanced(Seq::<TokenV>::empty()),
{
}

/// One token that is no parenthesis and no terminal token is nested well.
pub proof fn lemma_balanced_one(w: Seq<TokenV>)
    requires
        w.len() == 1,
        !w[0].kind.spec_is_terminal(),
        w[0].kind != TokenKind::Punctuator(Punctuator::OpenParen),
        w[0].kind != TokenKind::Punctuator(Punctuator::CloseParen),
    ensures
        balanced(w),
{
    assert forall|d: nat| #[trigger] level(w, d) == Some(d) by {
        reveal_with_fuel(level, 2);
        assert(w.subrange(1, w.len() as int).len() == 0);
    }
}

/// Two sequences that are nested well are nested well one behind the
/// other.
pub proof fn lemma_balanced_append(a: Seq<TokenV>, b: Seq<TokenV>)
    requires
        balanced(a),
        balanced(b),
    ensures
        balanced(a + b),
{
    assert forall|d: nat| #[trigger] level(a + b, d) == Some(d) by {
        lemma_level_append(a, b, d);
        assert(level(a, d) == Some(d));
        assert(level(b, d) == Some(d));
    }
}

/// A sequence that is nested well is nested well in parentheses.
pub proof fn lemma_balanced_group(a: Seq<TokenV>)
    requires
        balanced(a),
    ensures
        balanced(group(a)),
{
    let open = punct(Punctuator::OpenParen);
    let close = punct(Punctuator::CloseParen);
    assert forall|d: nat| #[trigger] level(group(a), d) == Some(d) by {
        reveal_with_fuel(level, 2);
        lemma_level_append(open + a, close, d);
        lemma_level_append(open, a, d);
        assert(open.subrange(1, open.len() as int).len() == 0);
        assert(close.subrange(1, close.len() as int).len() == 0);
        assert(level(open, d) == Some(d + 1));
        assert(level(a, d + 1) == Some(d + 1));
        assert(level(close, d + 1) == Some(d));
    }
}

/// Behind an opening parenthesis, the closing parenthesis is found right
/// behind what stands in the parentheses, if that is nested well.
pub proof fn lemma_closing_paren_of_group(t: Seq<TokenV>, pos: int, a: Seq<TokenV>)
    requires
        holds(t, pos, group(a)),
        balanced(a),
    ensures
        closing_paren(t, pos + 1, 0) == Some(a.len()),
{
    let open = punct(Punctuator::OpenParen);
    let close = punct(Punctuator::CloseParen);
    lemma_holds_split(t, pos, open + a, close);
    lemma_holds_split(t, pos, open, a);
    assert(level(a, 0) == Some(0nat));
    lemma_closing_paren_skip(t, pos + 1, 0, a);
    lemma_holds_at(t, pos + 1 + a.len(), close, 0);
}

} // verus!
