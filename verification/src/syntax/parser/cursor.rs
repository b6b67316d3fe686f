//! The cursor: the parser's window on the token stream.

use vstd::prelude::*;
use crate::syntax::ast::position::Position;
use crate::syntax::lexer::bytes::remaining;
use crate::syntax::lexer::scan::Goal;
use crate::syntax::lexer::token::{copy_bytes, token_views, Token, TokenKind, TokenV};
use crate::syntax::lexer::{is_slash, lemma_token_bound, next_token, tokenize, tokens_from, Lexer};

verus! {

/// The kind of the token at `pos`; past the last token, the end of the text.
pub open spec fn kind_at(tokens: Seq<TokenV>, pos: int) -> TokenKind {
    if 0 <= pos < tokens.len() {
        tokens[pos].kind
    } else {
        TokenKind::EndOfInput
    }
}

/// The payload of the token at `pos`.
pub open spec fn text_at(tokens: Seq<TokenV>, pos: int) -> Seq<u8> {
    if 0 <= pos < tokens.len() {
        tokens[pos].text
    } else {
        Seq::empty()
    }
}

/// The flags of the pattern literal at `pos`.
pub open spec fn flags_at(tokens: Seq<TokenV>, pos: int) -> Seq<u8> {
    if 0 <= pos < tokens.len() {
        tokens[pos].flags
    } else {
        Seq::empty()
    }
}

/// Where the token at `pos` starts.
pub open spec fn position_at(tokens: Seq<TokenV>, pos: int) -> Position {
    if 0 <= pos < tokens.len() {
        tokens[pos].position
    } else {
        Position { line: 1, column: 1, offset: 0 }
    }
}

/// Whether a line terminator stands between the token at `pos` and the one
/// before it.
pub open spec fn newline_at(tokens: Seq<TokenV>, pos: int) -> bool {
    if 0 <= pos < tokens.len() {
        tokens[pos].newline_before
    } else {
        false
    }
}

/// How many tokens are left at `pos`.
pub open spec fn left(tokens: Seq<TokenV>, pos: int) -> nat {
    if pos < tokens.len() {
        (tokens.len() - pos) as nat
    } else {
        0
    }
}

/// A buffer of tokens with a read position.
pub struct Cursor {
    tokens: Vec<Token>,
    pos: usize,
}

impl Cursor {
    /// The tokens of the whole text.
    pub closed spec fn tokens(&self) -> Seq<TokenV> {
        token_views(self.tokens@)
    }

    /// The index of the next token to read.
    pub closed spec fn pos(&self) -> int {
        self.pos as int
    }

    /// Reads the tokens of `src`, and stands before the first.
    ///
    /// Each token is read as an operator first. Where that gives a `/` or a
    /// `/=` and the token before it cannot end an expression, the token is
    /// dropped and the place is read again as a pattern literal.
    pub fn new(src: &[u8]) -> (c: Cursor)
        ensures
            c.tokens() == tokenize(src@),
            c.pos() == 0,
    {
        let mut lexer = Lexer::new(src);
        let mut tokens: Vec<Token> = Vec::new();
        let mut after_operand = false;
        let ghost mut rest = tokenize(src@);
        proof {
            assert(token_views(tokens@) + rest =~= tokenize(src@));
        }
        loop
            invariant
                lexer.wf(),
                lexer.source() == src@,
                0 <= lexer.offset() <= src@.len(),
                rest == tokens_from(src@, lexer.offset(), after_operand),
                token_views(tokens@) + rest == tokenize(src@),
            decreases remaining(src@, lexer.offset()),
        {
            let ghost at = lexer.offset();
            let ghost before = token_views(tokens@);
            let first = lexer.next_token(Goal::Div);
            let token = if !after_operand && is_slash(first.kind) {
                lexer.relex_as(Goal::Pattern)
            } else {
                first
            };
            proof {
                lemma_token_bound(src@, at, Goal::Div);
                lemma_token_bound(src@, at, Goal::Pattern);
                assert(token@ == next_token(src@, at, after_operand));
            }
            let terminal = token.kind.is_terminal();
            after_operand = token.kind.ends_expression();
            let ghost tv = token@;
            tokens.push(token);
            proof {
                assert(token_views(tokens@) =~= before.push(tv));
            }
            if terminal {
                proof {
                    assert(rest =~= seq![tv]);
                    assert(token_views(tokens@) =~= tokenize(src@));
                }
                return Cursor { tokens, pos: 0 };
            }
            proof {
                let tail = tokens_from(src@, lexer.offset(), after_operand);
                assert(rest =~= seq![tv] + tail);
                assert(before.push(tv) + tail =~= before + (seq![tv] + tail));
                rest = tail;
            }
        }
    }

    /// A cursor before the first of the given tokens.
    pub fn from_tokens(tokens: Vec<Token>) -> (c: Cursor)
        ensures
            c.tokens() == token_views(tokens@),
            c.pos() == 0,
    {
        Cursor { tokens, pos: 0 }
    }

    /// The token `n` places ahead, without consuming anything; `None` past
    /// the last token.
    pub fn peek(&self, n: usize) -> (t: Option<&Token>)
        ensures
            self.tokens().len() <= usize::MAX,
            match t {
                Some(t) => self.pos() + n < self.tokens().len() && t@ == self.tokens()[
                    self.pos() + n
                ],
                None => self.pos() + n >= self.tokens().len(),
            },
    {
        if self.pos < self.tokens.len() && n < self.tokens.len() - self.pos {
            Some(&self.tokens[self.pos + n])
        } else {
            None
        }
    }

    /// The kind of the token `n` places ahead.
    pub fn peek_kind(&self, n: usize) -> (k: TokenKind)
        ensures
            k == kind_at(self.tokens(), self.pos() + n),
            self.tokens().len() <= usize::MAX,
    {
        match self.peek(n) {
            Some(t) => t.kind,
            None => TokenKind::EndOfInput,
        }
    }

    /// Whether a line terminator stands before the token `n` places ahead.
    pub fn peek_newline(&self, n: usize) -> (b: bool)
        ensures
            b == newline_at(self.tokens(), self.pos() + n),
    {
        match self.peek(n) {
            Some(t) => t.newline_before,
            None => false,
        }
    }

    /// Where the token `n` places ahead starts.
    pub fn peek_position(&self, n: usize) -> (p: Position)
        ensures
            p == position_at(self.tokens(), self.pos() + n),
    {
        match self.peek(n) {
            Some(t) => t.position,
            None => Position::start(),
        }
    }

    /// Where the next token starts.
    pub fn position(&self) -> (p: Position)
        ensures
            p == position_at(self.tokens(), self.pos()),
    {
        self.peek_position(0)
    }

    /// A copy of the payload of the token `n` places ahead.
    pub fn peek_text(&self, n: usize) -> (s: Vec<u8>)
        ensures
            s@ == text_at(self.tokens(), self.pos() + n),
    {
        match self.peek(n) {
            Some(t) => copy_bytes(&t.text),
            None => Vec::new(),
        }
    }

    /// A copy of the payload of the next token.
    pub fn text(&self) -> (s: Vec<u8>)
        ensures
            s@ == text_at(self.tokens(), self.pos()),
    {
        self.peek_text(0)
    }

    /// A copy of the flags of the next token.
    pub fn flags(&self) -> (s: Vec<u8>)
        ensures
            s@ == flags_at(self.tokens(), self.pos()),
    {
        match self.peek(0) {
            Some(t) => copy_bytes(&t.flags),
            None => Vec::new(),
        }
    }

    /// The index of the next token.
    pub fn index(&self) -> (i: usize)
        ensures
            i == self.pos(),
    {
        self.pos
    }

    /// Consumes the next token and returns it; past the last token nothing
    /// is consumed.
    pub fn advance(&mut self) -> (t: Option<Token>)
        ensures
            final(self).tokens() == old(self).tokens(),
            match t {
                Some(t) => old(self).pos() < old(self).tokens().len() && t@ == old(
                    self,
                ).tokens()[old(self).pos()] && final(self).pos() == old(self).pos() + 1,
                None => old(self).pos() >= old(self).tokens().len() && final(self).pos() == old(
                    self,
                ).pos(),
            },
    {
        if self.pos < self.tokens.len() {
            let t = self.tokens[self.pos].duplicate();
            self.pos = self.pos + 1;
            Some(t)
        } else {
            None
        }
    }

    /// Consumes the next token; past the last token nothing is consumed.
    pub fn skip(&mut self)
        ensures
            final(self).tokens() == old(self).tokens(),
            final(self).pos() == if old(self).pos() < old(self).tokens().len() {
                old(self).pos() + 1
            } else {
                old(self).pos()
            },
    {
        if self.pos < self.tokens.len() {
            self.pos = self.pos + 1;
        }
    }

    /// Hands one token back: it becomes the next token again, in the place
    /// of the token that was consumed last.
    pub fn push_back(&mut self, token: Token)
        requires
            0 < old(self).pos() <= old(self).tokens().len(),
        ensures
            final(self).pos() == old(self).pos() - 1,
            final(self).tokens() == old(self).tokens().update(old(self).pos() - 1, token@),
    {
        self.pos = self.pos - 1;
        let ghost before = token_views(self.tokens@);
        let ghost tv = token@;
        self.tokens[self.pos] = token;
        proof {
            assert(token_views(self.tokens@) =~= before.update(self.pos as int, tv));
        }
    }
}

} // verus!
