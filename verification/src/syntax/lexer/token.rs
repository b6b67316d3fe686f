//! Tokens: the lexical units that the parser reads.

use vstd::prelude::*;
use crate::syntax::ast::position::Position;

verus! {

/// Reserved words.
#[derive(Clone, Copy, Debug, PartialEq, Eq, Structural)]
pub enum Keyword {
    Async,
    Await,
    Break,
    Case,
    Catch,
    Class,
    Const,
    Continue,
    Debugger,
    Default,
    Delete,
    Do,
    Else,
    Enum,
    Export,
    Extends,
    Finally,
    For,
    Function,
    If,
    Import,
    In,
    InstanceOf,
    Let,
    New,
    Return,
    Super,
    Switch,
    This,
    Throw,
    Try,
    TypeOf,
    Var,
    Void,
    While,
    With,
    Yield,
}

/// Punctuation and operator symbols.
#[derive(Clone, Copy, Debug, PartialEq, Eq, Structural)]
pub enum Punctuator {
    /// `{`
    OpenBlock,
    /// `}`
    CloseBlock,
    /// `(`
    OpenParen,
    /// `)`
    CloseParen,
    /// `[`
    OpenBracket,
    /// `]`
    CloseBracket,
    /// `.`
    Dot,
    /// `...`
    Spread,
    /// `;`
    Semicolon,
    /// `,`
    Comma,
    /// `<`
    LessThan,
    /// `>`
    GreaterThan,
    /// `<=`
    LessThanOrEq,
    /// `>=`
    GreaterThanOrEq,
    /// `==`
    Eq,
    /// `!=`
    NotEq,
    /// `===`
    StrictEq,
    /// `!==`
    StrictNotEq,
    /// `+`
    Add,
    /// `-`
    Sub,
    /// `*`
    Mul,
    /// `/`
    Div,
    /// `%`
    Mod,
    /// `**`
    Exp,
    /// `++`
    Inc,
    /// `--`
    Dec,
    /// `<<`
    LeftSh,
    /// `>>`
    RightSh,
    /// `>>>`
    URightSh,
    /// `&`
    And,
    /// `|`
    Or,
    /// `^`
    Xor,
    /// `!`
    Not,
    /// `~`
    Neg,
    /// `&&`
    BoolAnd,
    /// `||`
    BoolOr,
    /// `?`
    Question,
    /// `:`
    Colon,
    /// `=`
    Assign,
    /// `+=`
    AssignAdd,
    /// `-=`
    AssignSub,
    /// `*=`
    AssignMul,
    /// `/=`
    AssignDiv,
    /// `%=`
    AssignMod,
    /// `**=`
    AssignPow,
    /// `<<=`
    AssignLeftSh,
    /// `>>=`
    AssignRightSh,
    /// `>>>=`
    AssignURightSh,
    /// `&=`
    AssignAnd,
    /// `|=`
    AssignOr,
    /// `^=`
    AssignXor,
    /// `=>`
    Arrow,
}

/// Why a stretch of source text is not a token.
#[derive(Clone, Copy, Debug, PartialEq, Eq, Structural)]
pub enum LexErrorKind {
    /// A byte that starts no token.
    InvalidCharacter,
    /// A string literal that the line or the text ends before its closing quote.
    UnterminatedString,
    /// An escape sequence that is not understood.
    InvalidEscape,
    /// A block comment without its closing `*/`.
    UnterminatedComment,
    /// A pattern literal that the line or the text ends before its closing `/`.
    UnterminatedPattern,
    /// A numeric literal that is malformed or runs into an identifier.
    InvalidNumber,
}

/// The class of a token. What a token of a class with a payload holds (a
/// name, a string value, the digits of a number, a pattern) is the token's
/// `text`.
#[derive(Clone, Copy, Debug, PartialEq, Eq, Structural)]
pub enum TokenKind {
    Keyword(Keyword),
    Identifier,
    BooleanLiteral(bool),
    NullLiteral,
    NumericLiteral,
    StringLiteral,
    /// A pattern literal: `text` is its body, `flags` what follows the
    /// closing `/`.
    PatternLiteral,
    Punctuator(Punctuator),
    /// The end of the source text.
    EndOfInput,
    /// The place where lexing failed.
    Invalid(LexErrorKind),
}

impl TokenKind {
    /// Whether this is one of the two kinds that end a token stream.
    pub open spec fn spec_is_terminal(self) -> bool {
        self is EndOfInput || self is Invalid
    }

    #[verifier::when_used_as_spec(spec_is_terminal)]
    pub fn is_terminal(self) -> (r: bool)
        ensures
            r == self.spec_is_terminal(),
    {
        match self {
            TokenKind::EndOfInput => true,
            TokenKind::Invalid(_) => true,
            _ => false,
        }
    }

    /// Whether an expression can end with a token of this kind. A `/` that
    /// follows such a token divides; a `/` anywhere else opens a pattern
    /// literal.
    pub open spec fn spec_ends_expression(self) -> bool {
        match self {
            TokenKind::Identifier => true,
            TokenKind::BooleanLiteral(_) => true,
            TokenKind::NullLiteral => true,
            TokenKind::NumericLiteral => true,
            TokenKind::StringLiteral => true,
            TokenKind::PatternLiteral => true,
            TokenKind::Keyword(k) => k == Keyword::This || k == Keyword::Super,
            TokenKind::Punctuator(p) => p == Punctuator::CloseParen || p == Punctuator::CloseBracket
                || p == Punctuator::CloseBlock || p == Punctuator::Inc || p == Punctuator::Dec,
            TokenKind::EndOfInput => false,
            TokenKind::Invalid(_) => false,
        }
    }

    #[verifier::when_used_as_spec(spec_ends_expression)]
    pub fn ends_expression(self) -> (r: bool)
        ensures
            r == self.spec_ends_expression(),
    {
        match self {
            TokenKind::Identifier => true,
            TokenKind::BooleanLiteral(_) => true,
            TokenKind::NullLiteral => true,
            TokenKind::NumericLiteral => true,
            TokenKind::StringLiteral => true,
            TokenKind::PatternLiteral => true,
            TokenKind::Keyword(k) => k == Keyword::This || k == Keyword::Super,
            TokenKind::Punctuator(p) => p == Punctuator::CloseParen || p == Punctuator::CloseBracket
                || p == Punctuator::CloseBlock || p == Punctuator::Inc || p == Punctuator::Dec,
            TokenKind::EndOfInput => false,
            TokenKind::Invalid(_) => false,
        }
    }
}

/// A token: its class, its payload, where it starts and ends, and whether a
/// line terminator stands between it and the token before it.
#[derive(Clone, Debug, PartialEq, Eq)]
pub struct Token {
    pub kind: TokenKind,
    pub text: Vec<u8>,
    pub flags: Vec<u8>,
    pub position: Position,
    pub end: usize,
    pub newline_before: bool,
}

/// The mathematical value of a [`Token`].
pub struct TokenV {
    pub kind: TokenKind,
    pub text: Seq<u8>,
    pub flags: Seq<u8>,
    pub position: Position,
    pub end: int,
    pub newline_before: bool,
}

impl View for Token {
    type V = TokenV;

    open spec fn view(&self) -> TokenV {
        TokenV {
            kind: self.kind,
            text: self.text@,
            flags: self.flags@,
            position: self.position,
            end: self.end as int,
            newline_before: self.newline_before,
        }
    }
}

/// The values of a sequence of tokens.
pub open spec fn token_views(tokens: Seq<Token>) -> Seq<TokenV> {
    Seq::new(tokens.len(), |i: int| tokens[i]@)
}

/// A fresh copy of a byte string.
pub fn copy_bytes(bytes: &Vec<u8>) -> (r: Vec<u8>)
    ensures
        r@ == bytes@,
{
    vstd::slice::slice_to_vec(bytes.as_slice())
}

impl Token {
    /// A token without payload.
    pub fn bare(kind: TokenKind, position: Position, end: usize, newline_before: bool) -> (t: Token)
        ensures
            t@ == (TokenV {
                kind,
                text: Seq::empty(),
                flags: Seq::empty(),
                position,
                end: end as int,
                newline_before,
            }),
    {
        Token { kind, text: Vec::new(), flags: Vec::new(), position, end, newline_before }
    }

    /// A copy of this token.
    pub fn duplicate(&self) -> (t: Token)
        ensures
            t@ == self@,
    {
        Token {
            kind: self.kind,
            text: copy_bytes(&self.text),
            flags: copy_bytes(&self.flags),
            position: self.position,
            end: self.end,
            newline_before: self.newline_before,
        }
    }
}

} // verus!
