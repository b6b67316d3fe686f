//! The token source: it hands out the tokens of a source text one by one, and
//! reads the text at a place again under another lexical goal when asked.

pub mod bytes;
pub mod laws;
pub mod scan;
pub mod token;

use vstd::prelude::*;
use crate::syntax::ast::position::{position_of, Position};
use crate::syntax::lexer::bytes::remaining;
use crate::syntax::lexer::scan::{
    lemma_lexeme_bound, lemma_trivia_bound, lexeme, scan_lexeme, skip_trivia, trivia, Goal,
};
use crate::syntax::lexer::token::{LexErrorKind, Punctuator, Token, TokenKind, TokenV};

verus! {

/// The token that `src` holds from `pos` on, read under `goal`: what stands
/// before it is skipped, and where that holds an unclosed block comment, or
/// where no lexeme starts, the token is `Invalid` and empty.
pub open spec fn token_at(src: Seq<u8>, pos: int, goal: Goal) -> TokenV {
    let t = trivia(src, pos);
    let start = pos + t.len;
    if t.closed {
        let x = lexeme(src, start, goal);
        TokenV {
            kind: x.kind,
            text: x.text,
            flags: x.flags,
            position: position_of(src, start),
            end: start + x.len,
            newline_before: t.newline,
        }
    } else {
        TokenV {
            kind: TokenKind::Invalid(LexErrorKind::UnterminatedComment),
            text: Seq::empty(),
            flags: Seq::empty(),
            position: position_of(src, start),
            end: start,
            newline_before: t.newline,
        }
    }
}

/// Whether a token of this kind starts with a `/` that could open a pattern
/// literal.
pub open spec fn spec_is_slash(kind: TokenKind) -> bool {
    kind == TokenKind::Punctuator(Punctuator::Div) || kind == TokenKind::Punctuator(
        Punctuator::AssignDiv,
    )
}

#[verifier::when_used_as_spec(spec_is_slash)]
pub fn is_slash(kind: TokenKind) -> (r: bool)
    ensures
        r == spec_is_slash(kind),
{
    match kind {
        TokenKind::Punctuator(Punctuator::Div) => true,
        TokenKind::Punctuator(Punctuator::AssignDiv) => true,
        _ => false,
    }
}

/// The token from `pos` on, given whether the token before it can end an
/// expression: after such a token a `/` divides, anywhere else the text is
/// read again as a pattern literal.
pub open spec fn next_token(src: Seq<u8>, pos: int, after_operand: bool) -> TokenV {
    if !after_operand && spec_is_slash(token_at(src, pos, Goal::Div).kind) {
        token_at(src, pos, Goal::Pattern)
    } else {
        token_at(src, pos, Goal::Div)
    }
}

/// A token ends inside the text, and a token that does not end the stream is
/// not empty.
pub proof fn lemma_token_bound(src: Seq<u8>, pos: int, goal: Goal)
    requires
        0 <= pos <= src.len(),
    ensures
        pos <= token_at(src, pos, goal).end <= src.len(),
        !token_at(src, pos, goal).kind.spec_is_terminal() ==> pos < token_at(src, pos, goal).end,
{
    lemma_trivia_bound(src, pos);
    lemma_lexeme_bound(src, pos + trivia(src, pos).len, goal);
}

/// The tokens of `src` from `pos` on. The stream ends with its first
/// terminal token: the end of the text, or the place where lexing fails.
pub open spec fn tokens_from(src: Seq<u8>, pos: int, after_operand: bool) -> Seq<TokenV>
    decreases remaining(src, pos),
{
    if !(0 <= pos <= src.len()) {
        Seq::empty()
    } else {
        let t = next_token(src, pos, after_operand);
        if t.kind.spec_is_terminal() {
            seq![t]
        } else {
            proof {
                lemma_token_bound(src, pos, Goal::Div);
                lemma_token_bound(src, pos, Goal::Pattern);
            }
            seq![t] + tokens_from(src, t.end, t.kind.spec_ends_expression())
        }
    }
}

/// The tokens of a source text.
pub open spec fn tokenize(src: Seq<u8>) -> Seq<TokenV> {
    tokens_from(src, 0, false)
}

/// The token source over one source text.
pub struct Lexer<'a> {
    src: &'a [u8],
    pos: usize,
    here: Position,
    mark: usize,
    mark_here: Position,
}

impl<'a> Lexer<'a> {
    /// The source text.
    pub closed spec fn source(&self) -> Seq<u8> {
        self.src@
    }

    /// The place from which the next token is read.
    pub closed spec fn offset(&self) -> int {
        self.pos as int
    }

    /// The place from which the last token was read.
    pub closed spec fn mark(&self) -> int {
        self.mark as int
    }

    /// The invariant of the token source.
    pub closed spec fn wf(&self) -> bool {
        &&& self.mark <= self.pos <= self.src@.len()
        &&& self.here == position_of(self.src@, self.pos as int)
        &&& self.here.offset == self.pos
        &&& self.mark_here == position_of(self.src@, self.mark as int)
        &&& self.mark_here.offset == self.mark
    }

    /// A token source at the start of `src`.
    pub fn new(src: &'a [u8]) -> (l: Lexer<'a>)
        ensures
            l.wf(),
            l.source() == src@,
            l.offset() == 0,
            l.mark() == 0,
    {
        Lexer { src, pos: 0, here: Position::start(), mark: 0, mark_here: Position::start() }
    }

    fn read(&mut self, goal: Goal) -> (t: Token)
        requires
            old(self).pos <= old(self).src@.len(),
            old(self).here == position_of(old(self).src@, old(self).pos as int),
            old(self).here.offset == old(self).pos,
        ensures
            final(self).src == old(self).src,
            final(self).mark == old(self).mark,
            final(self).mark_here == old(self).mark_here,
            t@ == token_at(old(self).src@, old(self).pos as int, goal),
            final(self).pos == t.end,
            old(self).pos <= final(self).pos <= old(self).src@.len(),
            final(self).here == position_of(old(self).src@, final(self).pos as int),
            final(self).here.offset == final(self).pos,
    {
        let (start, newline_before, closed) = skip_trivia(self.src, self.pos);
        let position = self.here.advance(self.src, start);
        if closed {
            let s = scan_lexeme(self.src, start, goal);
            self.here = position.advance(self.src, s.end);
            self.pos = s.end;
            Token {
                kind: s.kind,
                text: s.text,
                flags: s.flags,
                position,
                end: s.end,
                newline_before,
            }
        } else {
            self.here = position;
            self.pos = start;
            Token::bare(
                TokenKind::Invalid(LexErrorKind::UnterminatedComment),
                position,
                start,
                newline_before,
            )
        }
    }

    /// Hands out the next token, read under `goal`.
    pub fn next_token(&mut self, goal: Goal) -> (t: Token)
        requires
            old(self).wf(),
        ensures
            final(self).wf(),
            final(self).source() == old(self).source(),
            t@ == token_at(old(self).source(), old(self).offset(), goal),
            final(self).offset() == t.end,
            final(self).mark() == old(self).offset(),
    {
        self.mark = self.pos;
        self.mark_here = self.here;
        self.read(goal)
    }

    /// Drops the token that was handed out last and reads the text at its
    /// place again under `goal`.
    pub fn relex_as(&mut self, goal: Goal) -> (t: Token)
        requires
            old(self).wf(),
        ensures
            final(self).wf(),
            final(self).source() == old(self).source(),
            t@ == token_at(old(self).source(), old(self).mark(), goal),
            final(self).offset() == t.end,
            final(self).mark() == old(self).mark(),
    {
        self.pos = self.mark;
        self.here = self.mark_here;
        self.read(goal)
    }
}

} // verus!
