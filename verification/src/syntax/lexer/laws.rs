//! Laws of the token source: what holds of every source text.

use vstd::prelude::*;
use crate::syntax::lexer::bytes::{
    byte_at, remaining, run_len, spec_is_line_terminator, spec_is_whitespace, ByteClass, SLASH,
    STAR,
};
use crate::syntax::lexer::scan::{
    block_comment, lemma_block_comment_bound, lemma_trivia_bound, lexeme, spec_punctuator, trivia,
    word_kind, Goal,
};

use crate::syntax::lexer::{lemma_token_bound, next_token, spec_is_slash, tokenize, tokens_from};

verus! {

/// Whether a line terminator stands in `src` from `from` up to `to`.
pub open spec fn has_line_terminator(src: Seq<u8>, from: int, to: int) -> bool {
    exists|i: int| from <= i < to && 0 <= i < src.len() && spec_is_line_terminator(#[trigger] src[i])
}

/// No line terminator stands in the body of a line.
pub proof fn lemma_line_body(src: Seq<u8>, pos: int)
    requires
        0 <= pos <= src.len(),
    ensures
        !has_line_terminator(src, pos, pos + run_len(src, pos, ByteClass::LineBody)),
    decreases remaining(src, pos),
{
    if pos < src.len() && ByteClass::LineBody.spec_contains(src[pos]) {
        lemma_line_body(src, pos + 1);
        let end = pos + run_len(src, pos, ByteClass::LineBody);
        if has_line_terminator(src, pos, end) {
            let i = choose|i: int|
                pos <= i < end && 0 <= i < src.len() && spec_is_line_terminator(#[trigger] src[i]);
            assert(pos + 1 <= i);
            assert(has_line_terminator(src, pos + 1, end));
        }
    }
}

/// A block comment is marked as crossing a line break if and only if a line
/// terminator stands inside it.
pub proof fn lemma_block_comment_newline(src: Seq<u8>, pos: int)
    requires
        0 <= pos <= src.len(),
    ensures
        block_comment(src, pos) matches Some((n, newline)) ==> (newline <==> has_line_terminator(
            src,
            pos,
            pos + n,
        )),
    decreases remaining(src, pos),
{
    if pos < src.len() {
        if src[pos] == STAR && byte_at(src, pos + 1) == SLASH {
            if has_line_terminator(src, pos, pos + 2) {
                let i = choose|i: int|
                    pos <= i < pos + 2 && 0 <= i < src.len() && spec_is_line_terminator(
                        #[trigger] src[i],
                    );
                assert(i == pos || i == pos + 1);
            }
        } else {
            lemma_block_comment_newline(src, pos + 1);
            match block_comment(src, pos + 1) {
                Some((n, newline)) => {
                    let end = pos + 1 + n;
                    if has_line_terminator(src, pos, end) {
                        let i = choose|i: int|
                            pos <= i < end && 0 <= i < src.len() && spec_is_line_terminator(
                                #[trigger] src[i],
                            );
                        if i > pos {
                            assert(has_line_terminator(src, pos + 1, end));
                        }
                    }
                    if has_line_terminator(src, pos + 1, end) {
                        let i = choose|i: int|
                            pos + 1 <= i < end && 0 <= i < src.len() && spec_is_line_terminator(
                                #[trigger] src[i],
                            );
                        assert(has_line_terminator(src, pos, end));
                    }
                    if spec_is_line_terminator(src[pos]) {
                        lemma_block_comment_bound(src, pos + 1);
                        assert(has_line_terminator(src, pos, end));
                    }
                },
                None => {},
            }
        }
    }
}

/// A token is marked as following a line break if and only if a line
/// terminator stands in what was skipped before it, inside a block comment
/// or outside. So a block comment that holds no line terminator does not
/// by itself separate two statements.
pub proof fn lemma_newline_is_crossed(src: Seq<u8>, pos: int)
    requires
        0 <= pos <= src.len(),
    ensures
        trivia(src, pos).newline <==> has_line_terminator(src, pos, pos + trivia(src, pos).len),
    decreases remaining(src, pos),
{
    let t = trivia(src, pos);
    let end = pos + t.len;
    if pos < src.len() {
        if spec_is_line_terminator(src[pos]) {
            lemma_trivia_bound(src, pos + 1);
            assert(has_line_terminator(src, pos, end));
        } else if spec_is_whitespace(src[pos]) {
            lemma_newline_is_crossed(src, pos + 1);
            if has_line_terminator(src, pos, end) {
                let i = choose|i: int|
                    pos <= i < end && 0 <= i < src.len() && spec_is_line_terminator(
                        #[trigger] src[i],
                    );
                assert(has_line_terminator(src, pos + 1, end));
            }
            if has_line_terminator(src, pos + 1, end) {
                let i = choose|i: int|
                    pos + 1 <= i < end && 0 <= i < src.len() && spec_is_line_terminator(
                        #[trigger] src[i],
                    );
                assert(has_line_terminator(src, pos, end));
            }
        } else if src[pos] == SLASH && byte_at(src, pos + 1) == SLASH {
            let n = 2 + run_len(src, pos + 2, ByteClass::LineBody);
            crate::syntax::lexer::bytes::lemma_run_len_bound(src, pos + 2, ByteClass::LineBody);
            lemma_line_body(src, pos + 2);
            lemma_newline_is_crossed(src, pos + n);
            if has_line_terminator(src, pos, end) {
                let i = choose|i: int|
                    pos <= i < end && 0 <= i < src.len() && spec_is_line_terminator(
                        #[trigger] src[i],
                    );
                if i < pos + n {
                    assert(i >= pos + 2);
                    assert(has_line_terminator(src, pos + 2, pos + n));
                }
                assert(has_line_terminator(src, pos + n, end));
            }
            if has_line_terminator(src, pos + n, end) {
                let i = choose|i: int|
                    pos + n <= i < end && 0 <= i < src.len() && spec_is_line_terminator(
                        #[trigger] src[i],
                    );
                assert(has_line_terminator(src, pos, end));
            }
        } else if src[pos] == SLASH && byte_at(src, pos + 1) == STAR {
            lemma_block_comment_bound(src, pos + 2);
            lemma_block_comment_newline(src, pos + 2);
            match block_comment(src, pos + 2) {
                Some((n, newline)) => {
                    let mid = pos + 2 + n;
                    lemma_newline_is_crossed(src, mid);
                    if has_line_terminator(src, pos, end) {
                        let i = choose|i: int|
                            pos <= i < end && 0 <= i < src.len() && spec_is_line_terminator(
                                #[trigger] src[i],
                            );
                        if i < mid {
                            assert(i >= pos + 2);
                            assert(has_line_terminator(src, pos + 2, mid));
                        } else {
                            assert(has_line_terminator(src, mid, end));
                        }
                    }
                    if has_line_terminator(src, pos + 2, mid) {
                        let i = choose|i: int|
                            pos + 2 <= i < mid && 0 <= i < src.len() && spec_is_line_terminator(
                                #[trigger] src[i],
                            );
                        lemma_trivia_bound(src, mid);
                        assert(has_line_terminator(src, pos, end));
                    }
                    if has_line_terminator(src, mid, end) {
                        let i = choose|i: int|
                            mid <= i < end && 0 <= i < src.len() && spec_is_line_terminator(
                                #[trigger] src[i],
                            );
                        assert(has_line_terminator(src, pos, end));
                    }
                },
                None => {},
            }
        }
    }
}

/// Read as an operator, a lexeme is no pattern literal; and a lexeme that
/// is a `/` or a `/=` starts with the byte `/`.
pub proof fn lemma_lexeme_kinds(src: Seq<u8>, pos: int, goal: Goal)
    ensures
        goal == Goal::Div ==> !(lexeme(src, pos, goal).kind is PatternLiteral),
        spec_is_slash(lexeme(src, pos, goal).kind) ==> goal == Goal::Div && 0 <= pos < src.len()
            && src[pos] == SLASH,
        goal == Goal::Pattern && 0 <= pos < src.len() && src[pos] == SLASH ==> !spec_is_slash(
            lexeme(src, pos, goal).kind,
        ),
{
    reveal(word_kind);
    reveal(spec_punctuator);
}

/// The first token of a stretch of text: after a token that can end an
/// expression it is no pattern literal, and anywhere else it is no `/` and
/// no `/=`.
pub proof fn lemma_slash_by_the_token_before(src: Seq<u8>, pos: int, after_operand: bool)
    ensures
        after_operand ==> !(next_token(src, pos, after_operand).kind is PatternLiteral),
        !after_operand ==> !spec_is_slash(next_token(src, pos, after_operand).kind),
{
    let start = pos + trivia(src, pos).len;
    lemma_lexeme_kinds(src, start, Goal::Div);
    lemma_lexeme_kinds(src, start, Goal::Pattern);
}

/// The tokens from a place on are at least one, and the first is the token
/// read there.
pub proof fn lemma_tokens_from_first(src: Seq<u8>, pos: int, after_operand: bool)
    requires
        0 <= pos <= src.len(),
    ensures
        tokens_from(src, pos, after_operand).len() >= 1,
        tokens_from(src, pos, after_operand)[0] == next_token(src, pos, after_operand),
{
}

/// In the token stream of a stretch of text, a `/` or a `/=` stands only
/// behind a token that can end an expression, and a pattern literal never
/// does.
pub proof fn lemma_division_follows_operand(
    src: Seq<u8>,
    pos: int,
    after_operand: bool,
    i: int,
)
    requires
        0 <= pos <= src.len(),
        1 <= i < tokens_from(src, pos, after_operand).len(),
    ensures
        spec_is_slash(tokens_from(src, pos, after_operand)[i].kind) ==> tokens_from(
            src,
            pos,
            after_operand,
        )[i - 1].kind.spec_ends_expression(),
        tokens_from(src, pos, after_operand)[i].kind is PatternLiteral ==> !tokens_from(
            src,
            pos,
            after_operand,
        )[i - 1].kind.spec_ends_expression(),
    decreases i,
{
    let t = next_token(src, pos, after_operand);
    lemma_token_bound(src, pos, Goal::Div);
    lemma_token_bound(src, pos, Goal::Pattern);
    let rest = tokens_from(src, t.end, t.kind.spec_ends_expression());
    assert(tokens_from(src, pos, after_operand) == seq![t] + rest);
    assert(tokens_from(src, pos, after_operand)[i] == rest[i - 1]);
    if i == 1 {
        lemma_tokens_from_first(src, t.end, t.kind.spec_ends_expression());
        lemma_slash_by_the_token_before(src, t.end, t.kind.spec_ends_expression());
    } else {
        assert(tokens_from(src, pos, after_operand)[i - 1] == rest[i - 2]);
        lemma_division_follows_operand(src, t.end, t.kind.spec_ends_expression(), i - 1);
    }
}

/// Operator or pattern literal: in the tokens of a source text a `/` or a
/// `/=` is the division operator exactly where the token before it can end
/// an expression. At the start of the text, and behind any other token,
/// the `/` opens a pattern literal.
pub proof fn lemma_slash_disambiguation(src: Seq<u8>, i: int)
    requires
        0 <= i < tokenize(src).len(),
    ensures
        spec_is_slash(tokenize(src)[i].kind) ==> i > 0 && tokenize(src)[i
            - 1].kind.spec_ends_expression(),
        tokenize(src)[i].kind is PatternLiteral ==> i == 0 || !tokenize(src)[i
            - 1].kind.spec_ends_expression(),
{
    if i == 0 {
        lemma_tokens_from_first(src, 0, false);
        lemma_slash_by_the_token_before(src, 0, false);
    } else {
        lemma_division_follows_operand(src, 0, false, i);
    }
}

/// The tokens from a place on end with their only terminal token.
pub proof fn lemma_terminal_is_last(src: Seq<u8>, pos: int, after_operand: bool)
    requires
        0 <= pos <= src.len(),
    ensures
        tokens_from(src, pos, after_operand).len() >= 1,
        tokens_from(src, pos, after_operand).last().kind.spec_is_terminal(),
        forall|i: int|
            0 <= i < tokens_from(src, pos, after_operand).len() - 1 ==> !(
            #[trigger] tokens_from(src, pos, after_operand)[i]).kind.spec_is_terminal(),
    decreases remaining(src, pos),
{
    let t = next_token(src, pos, after_operand);
    if !t.kind.spec_is_terminal() {
        lemma_token_bound(src, pos, Goal::Div);
        lemma_token_bound(src, pos, Goal::Pattern);
        let rest = tokens_from(src, t.end, t.kind.spec_ends_expression());
        lemma_terminal_is_last(src, t.end, t.kind.spec_ends_expression());
        let all = tokens_from(src, pos, after_operand);
        assert(all == seq![t] + rest);
        assert(all.last() == rest.last());
        assert forall|i: int| 0 <= i < all.len() - 1 implies !(#[trigger] all[i]).kind.spec_is_terminal() by {
            if i > 0 {
                assert(all[i] == rest[i - 1]);
            }
        }
    }
}

/// The tokens of a source text end with their only terminal token: the
/// end of the text, or the place where lexing failed.
pub proof fn lemma_stream_ends_once(src: Seq<u8>)
    ensures
        tokenize(src).len() >= 1,
        tokenize(src).last().kind.spec_is_terminal(),
        forall|i: int|
            0 <= i < tokenize(src).len() - 1 ==> !(#[trigger] tokenize(src)[i]).kind.spec_is_terminal(),
{
    lemma_terminal_is_last(src, 0, false);
}

} // verus!
