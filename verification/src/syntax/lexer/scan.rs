//! The lexical grammar: what stands between tokens, and the lexemes
//! themselves. Each scanning function is proved to find exactly what the
//! specification function of its name denotes.

use vstd::prelude::*;
use vstd::string::*;
use crate::syntax::lexer::bytes::{
    byte_at, bytes_eq, copy_range, get_byte, get_byte_ahead, is_digit, is_identifier_start,
    is_line_terminator, is_whitespace, lemma_run_len_bound, remaining, run_len, scan_run,
    spec_is_digit, spec_is_identifier_start, spec_is_line_terminator, spec_is_whitespace,
    ByteClass, AMPERSAND, BACKSLASH, BANG, CARET, CARRIAGE_RETURN, CLOSE_BRACE, CLOSE_BRACKET,
    CLOSE_PAREN, COLON, COMMA, DIGIT_ZERO, DOT, DOUBLE_QUOTE, EQUALS, GREATER, LESS, LINE_FEED,
    LOWER_B, LOWER_E, LOWER_F, LOWER_N, LOWER_R, LOWER_T, LOWER_U, LOWER_V, LOWER_X, MINUS,
    OPEN_BRACE, OPEN_BRACKET, OPEN_PAREN, PERCENT, PIPE, PLUS, QUESTION, SEMICOLON, SINGLE_QUOTE,
    SLASH, STAR, TILDE, UPPER_E,
};
use crate::syntax::lexer::token::{Keyword, LexErrorKind, Punctuator, TokenKind};

verus! {

/// The lexical goal: how a `/` is to be read.
#[derive(Clone, Copy, Debug, PartialEq, Eq, Structural)]
pub enum Goal {
    /// A `/` is the division operator.
    Div,
    /// A `/` opens a pattern literal.
    Pattern,
}

/// What stands before a token: how many bytes, whether a line terminator is
/// among them, and whether every block comment among them is closed. When
/// one is not, `len` leads to its opening `/*`.
pub struct Trivia {
    pub len: nat,
    pub newline: bool,
    pub closed: bool,
}

/// `len` bytes of blank text, with or without a line terminator, followed by
/// `rest`.
pub open spec fn join(len: nat, newline: bool, rest: Trivia) -> Trivia {
    Trivia { len: len + rest.len, newline: newline || rest.newline, closed: rest.closed }
}

/// For the text of a block comment after its opening `/*`: the length up to
/// and with the closing `*/`, and whether a line terminator stands inside.
/// `None` when the comment is never closed.
pub open spec fn block_comment(src: Seq<u8>, pos: int) -> Option<(nat, bool)>
    decreases remaining(src, pos),
{
    if !(0 <= pos < src.len()) {
        None
    } else if src[pos] == STAR && byte_at(src, pos + 1) == SLASH {
        Some((2nat, false))
    } else {
        match block_comment(src, pos + 1) {
            Some((n, newline)) => Some((n + 1, newline || spec_is_line_terminator(src[pos]))),
            None => None,
        }
    }
}

/// A comment's length and line-break flag once `skipped` more bytes, with or
/// without a line terminator among them, stand before it.
pub open spec fn extend_comment(r: Option<(nat, bool)>, skipped: nat, newline: bool) -> Option<
    (nat, bool),
> {
    match r {
        Some((n, x)) => Some((n + skipped, x || newline)),
        None => None,
    }
}

/// Blank space, line terminators and comments from `pos` on.
pub open spec fn trivia(src: Seq<u8>, pos: int) -> Trivia
    decreases remaining(src, pos),
{
    if !(0 <= pos < src.len()) {
        Trivia { len: 0, newline: false, closed: true }
    } else if spec_is_line_terminator(src[pos]) {
        join(1, true, trivia(src, pos + 1))
    } else if spec_is_whitespace(src[pos]) {
        join(1, false, trivia(src, pos + 1))
    } else if src[pos] == SLASH && byte_at(src, pos + 1) == SLASH {
        let n = 2 + run_len(src, pos + 2, ByteClass::LineBody);
        join(n, false, trivia(src, pos + n))
    } else if src[pos] == SLASH && byte_at(src, pos + 1) == STAR {
        match block_comment(src, pos + 2) {
            Some((n, newline)) => join(2 + n, newline, trivia(src, pos + 2 + n)),
            None => Trivia { len: 0, newline: false, closed: false },
        }
    } else {
        Trivia { len: 0, newline: false, closed: true }
    }
}

/// A closed block comment ends inside the text.
pub proof fn lemma_block_comment_bound(src: Seq<u8>, pos: int)
    requires
        0 <= pos <= src.len(),
    ensures
        block_comment(src, pos) matches Some((n, _)) ==> pos + n <= src.len(),
    decreases remaining(src, pos),
{
    if pos < src.len() && !(src[pos] == STAR && byte_at(src, pos + 1) == SLASH) {
        lemma_block_comment_bound(src, pos + 1);
    }
}

/// Trivia ends inside the text.
pub proof fn lemma_trivia_bound(src: Seq<u8>, pos: int)
    requires
        0 <= pos <= src.len(),
    ensures
        pos + trivia(src, pos).len <= src.len(),
    decreases remaining(src, pos),
{
    if pos < src.len() {
        if spec_is_line_terminator(src[pos]) || spec_is_whitespace(src[pos]) {
            lemma_trivia_bound(src, pos + 1);
        } else if src[pos] == SLASH && byte_at(src, pos + 1) == SLASH {
            lemma_run_len_bound(src, pos + 2, ByteClass::LineBody);
            lemma_trivia_bound(src, pos + 2 + run_len(src, pos + 2, ByteClass::LineBody));
        } else if src[pos] == SLASH && byte_at(src, pos + 1) == STAR {
            lemma_block_comment_bound(src, pos + 2);
            match block_comment(src, pos + 2) {
                Some((n, _)) => {
                    lemma_trivia_bound(src, pos + 2 + n);
                },
                None => {},
            }
        }
    }
}

/// Finds the end of the block comment whose text starts at `pos`.
pub fn scan_block_comment(src: &[u8], pos: usize) -> (r: Option<(usize, bool)>)
    requires
        pos <= src@.len(),
    ensures
        match block_comment(src@, pos as int) {
            Some((n, newline)) => r == Some(((pos + n) as usize, newline)) && pos + n
                <= src@.len(),
            None => r is None,
        },
{
    let mut i: usize = pos;
    let mut newline = false;
    while i < src.len()
        invariant
            pos <= i <= src@.len(),
            block_comment(src@, pos as int) == extend_comment(
                block_comment(src@, i as int),
                (i - pos) as nat,
                newline,
            ),
        decreases src@.len() - i,
    {
        if src[i] == STAR && get_byte(src, i + 1) == SLASH {
            return Some((i + 2, newline));
        }
        if is_line_terminator(src[i]) {
            newline = true;
        }
        i += 1;
    }
    None
}

/// Skips what stands before the next token: the place where the token
/// starts, whether a line terminator was crossed, and whether every block
/// comment was closed.
pub fn skip_trivia(src: &[u8], pos: usize) -> (r: (usize, bool, bool))
    requires
        pos <= src@.len(),
    ensures
        r.0 == pos + trivia(src@, pos as int).len,
        r.1 == trivia(src@, pos as int).newline,
        r.2 == trivia(src@, pos as int).closed,
        pos <= r.0 <= src@.len(),
{
    let mut i: usize = pos;
    let mut newline = false;
    loop
        invariant
            pos <= i <= src@.len(),
            trivia(src@, pos as int) == join((i - pos) as nat, newline, trivia(src@, i as int)),
        decreases src@.len() - i,
    {
        if i >= src.len() {
            return (i, newline, true);
        }
        let b: u8 = src[i];
        if is_line_terminator(b) {
            newline = true;
            i += 1;
        } else if is_whitespace(b) {
            i += 1;
        } else if b == SLASH && get_byte(src, i + 1) == SLASH {
            i = scan_run(src, i + 2, ByteClass::LineBody);
        } else if b == SLASH && get_byte(src, i + 1) == STAR {
            match scan_block_comment(src, i + 2) {
                Some((end, crossed)) => {
                    newline = newline || crossed;
                    i = end;
                },
                None => {
                    return (i, newline, false);
                },
            }
        } else {
            return (i, newline, true);
        }
    }
}

/// A lexeme: the class of the token, its payload, and its length in bytes.
/// A lexeme that is no token has the length zero.
pub struct Lexeme {
    pub kind: TokenKind,
    pub text: Seq<u8>,
    pub flags: Seq<u8>,
    pub len: nat,
}

/// The lexeme that reports a failure.
pub open spec fn invalid(kind: LexErrorKind) -> Lexeme {
    Lexeme { kind: TokenKind::Invalid(kind), text: Seq::empty(), flags: Seq::empty(), len: 0 }
}

/// A lexeme without payload.
pub open spec fn plain(kind: TokenKind, len: nat) -> Lexeme {
    Lexeme { kind, text: Seq::empty(), flags: Seq::empty(), len }
}

/// The class of a word: a literal, a reserved word, or a name.
#[verifier::opaque]
pub open spec fn word_kind(w: Seq<u8>) -> TokenKind {
    if w == "true".spec_bytes() {
        TokenKind::BooleanLiteral(true)
    } else if w == "false".spec_bytes() {
        TokenKind::BooleanLiteral(false)
    } else if w == "null".spec_bytes() {
        TokenKind::NullLiteral
    } else if w == "async".spec_bytes() {
        TokenKind::Keyword(Keyword::Async)
    } else if w == "await".spec_bytes() {
        TokenKind::Keyword(Keyword::Await)
    } else if w == "break".spec_bytes() {
        TokenKind::Keyword(Keyword::Break)
    } else if w == "case".spec_bytes() {
        TokenKind::Keyword(Keyword::Case)
    } else if w == "catch".spec_bytes() {
        TokenKind::Keyword(Keyword::Catch)
    } else if w == "class".spec_bytes() {
        TokenKind::Keyword(Keyword::Class)
    } else if w == "const".spec_bytes() {
        TokenKind::Keyword(Keyword::Const)
    } else if w == "continue".spec_bytes() {
        TokenKind::Keyword(Keyword::Continue)
    } else if w == "debugger".spec_bytes() {
        TokenKind::Keyword(Keyword::Debugger)
    } else if w == "default".spec_bytes() {
        TokenKind::Keyword(Keyword::Default)
    } else if w == "delete".spec_bytes() {
        TokenKind::Keyword(Keyword::Delete)
    } else if w == "do".spec_bytes() {
        TokenKind::Keyword(Keyword::Do)
    } else if w == "else".spec_bytes() {
        TokenKind::Keyword(Keyword::Else)
    } else if w == "enum".spec_bytes() {
        TokenKind::Keyword(Keyword::Enum)
    } else if w == "export".spec_bytes() {
        TokenKind::Keyword(Keyword::Export)
    } else if w == "extends".spec_bytes() {
        TokenKind::Keyword(Keyword::Extends)
    } else if w == "finally".spec_bytes() {
        TokenKind::Keyword(Keyword::Finally)
    } else if w == "for".spec_bytes() {
        TokenKind::Keyword(Keyword::For)
    } else if w == "function".spec_bytes() {
        TokenKind::Keyword(Keyword::Function)
    } else if w == "if".spec_bytes() {
        TokenKind::Keyword(Keyword::If)
    } else if w == "import".spec_bytes() {
        TokenKind::Keyword(Keyword::Import)
    } else if w == "in".spec_bytes() {
        TokenKind::Keyword(Keyword::In)
    } else if w == "instanceof".spec_bytes() {
        TokenKind::Keyword(Keyword::InstanceOf)
    } else if w == "let".spec_bytes() {
        TokenKind::Keyword(Keyword::Let)
    } else if w == "new".spec_bytes() {
        TokenKind::Keyword(Keyword::New)
    } else if w == "return".spec_bytes() {
        TokenKind::Keyword(Keyword::Return)
    } else if w == "super".spec_bytes() {
        TokenKind::Keyword(Keyword::Super)
    } else if w == "switch".spec_bytes() {
        TokenKind::Keyword(Keyword::Switch)
    } else if w == "this".spec_bytes() {
        TokenKind::Keyword(Keyword::This)
    } else if w == "throw".spec_bytes() {
        TokenKind::Keyword(Keyword::Throw)
    } else if w == "try".spec_bytes() {
        TokenKind::Keyword(Keyword::Try)
    } else if w == "typeof".spec_bytes() {
        TokenKind::Keyword(Keyword::TypeOf)
    } else if w == "var".spec_bytes() {
        TokenKind::Keyword(Keyword::Var)
    } else if w == "void".spec_bytes() {
        TokenKind::Keyword(Keyword::Void)
    } else if w == "while".spec_bytes() {
        TokenKind::Keyword(Keyword::While)
    } else if w == "with".spec_bytes() {
        TokenKind::Keyword(Keyword::With)
    } else if w == "yield".spec_bytes() {
        TokenKind::Keyword(Keyword::Yield)
    } else {
        TokenKind::Identifier
    }
}

/// Classifies a word.
pub fn classify_word(w: &[u8]) -> (kind: TokenKind)
    ensures
        kind == word_kind(w@),
{
    reveal(word_kind);
    if bytes_eq(w, "true".as_bytes()) {
        TokenKind::BooleanLiteral(true)
    } else if bytes_eq(w, "false".as_bytes()) {
        TokenKind::BooleanLiteral(false)
    } else if bytes_eq(w, "null".as_bytes()) {
        TokenKind::NullLiteral
    } else if bytes_eq(w, "async".as_bytes()) {
        TokenKind::Keyword(Keyword::Async)
    } else if bytes_eq(w, "await".as_bytes()) {
        TokenKind::Keyword(Keyword::Await)
    } else if bytes_eq(w, "break".as_bytes()) {
        TokenKind::Keyword(Keyword::Break)
    } else if bytes_eq(w, "case".as_bytes()) {
        TokenKind::Keyword(Keyword::Case)
    } else if bytes_eq(w, "catch".as_bytes()) {
        TokenKind::Keyword(Keyword::Catch)
    } else if bytes_eq(w, "class".as_bytes()) {
        TokenKind::Keyword(Keyword::Class)
    } else if bytes_eq(w, "const".as_bytes()) {
        TokenKind::Keyword(Keyword::Const)
    } else if bytes_eq(w, "continue".as_bytes()) {
        TokenKind::Keyword(Keyword::Continue)
    } else if bytes_eq(w, "debugger".as_bytes()) {
        TokenKind::Keyword(Keyword::Debugger)
    } else if bytes_eq(w, "default".as_bytes()) {
        TokenKind::Keyword(Keyword::Default)
    } else if bytes_eq(w, "delete".as_bytes()) {
        TokenKind::Keyword(Keyword::Delete)
    } else if bytes_eq(w, "do".as_bytes()) {
        TokenKind::Keyword(Keyword::Do)
    } else if bytes_eq(w, "else".as_bytes()) {
        TokenKind::Keyword(Keyword::Else)
    } else if bytes_eq(w, "enum".as_bytes()) {
        TokenKind::Keyword(Keyword::Enum)
    } else if bytes_eq(w, "export".as_bytes()) {
        TokenKind::Keyword(Keyword::Export)
    } else if bytes_eq(w, "extends".as_bytes()) {
        TokenKind::Keyword(Keyword::Extends)
    } else if bytes_eq(w, "finally".as_bytes()) {
        TokenKind::Keyword(Keyword::Finally)
    } else if bytes_eq(w, "for".as_bytes()) {
        TokenKind::Keyword(Keyword::For)
    } else if bytes_eq(w, "function".as_bytes()) {
        TokenKind::Keyword(Keyword::Function)
    } else if bytes_eq(w, "if".as_bytes()) {
        TokenKind::Keyword(Keyword::If)
    } else if bytes_eq(w, "import".as_bytes()) {
        TokenKind::Keyword(Keyword::Import)
    } else if bytes_eq(w, "in".as_bytes()) {
        TokenKind::Keyword(Keyword::In)
    } else if bytes_eq(w, "instanceof".as_bytes()) {
        TokenKind::Keyword(Keyword::InstanceOf)
    } else if bytes_eq(w, "let".as_bytes()) {
        TokenKind::Keyword(Keyword::Let)
    } else if bytes_eq(w, "new".as_bytes()) {
        TokenKind::Keyword(Keyword::New)
    } else if bytes_eq(w, "return".as_bytes()) {
        TokenKind::Keyword(Keyword::Return)
    } else if bytes_eq(w, "super".as_bytes()) {
        TokenKind::Keyword(Keyword::Super)
    } else if bytes_eq(w, "switch".as_bytes()) {
        TokenKind::Keyword(Keyword::Switch)
    } else if bytes_eq(w, "this".as_bytes()) {
        TokenKind::Keyword(Keyword::This)
    } else if bytes_eq(w, "throw".as_bytes()) {
        TokenKind::Keyword(Keyword::Throw)
    } else if bytes_eq(w, "try".as_bytes()) {
        TokenKind::Keyword(Keyword::Try)
    } else if bytes_eq(w, "typeof".as_bytes()) {
        TokenKind::Keyword(Keyword::TypeOf)
    } else if bytes_eq(w, "var".as_bytes()) {
        TokenKind::Keyword(Keyword::Var)
    } else if bytes_eq(w, "void".as_bytes()) {
        TokenKind::Keyword(Keyword::Void)
    } else if bytes_eq(w, "while".as_bytes()) {
        TokenKind::Keyword(Keyword::While)
    } else if bytes_eq(w, "with".as_bytes()) {
        TokenKind::Keyword(Keyword::With)
    } else if bytes_eq(w, "yield".as_bytes()) {
        TokenKind::Keyword(Keyword::Yield)
    } else {
        TokenKind::Identifier
    }
}

/// The word that starts at `pos`: a name keeps its bytes as payload.
pub open spec fn word(src: Seq<u8>, pos: int) -> Lexeme {
    let n = run_len(src, pos, ByteClass::IdentifierPart);
    let w = src.subrange(pos, pos + n);
    if word_kind(w) == TokenKind::Identifier {
        Lexeme { kind: TokenKind::Identifier, text: w, flags: Seq::empty(), len: n }
    } else {
        plain(word_kind(w), n)
    }
}

/// The length of the exponent part at `pos`: zero where there is none,
/// `None` where an `e` is followed by no digit.
pub open spec fn exponent(src: Seq<u8>, pos: int) -> Option<nat> {
    if byte_at(src, pos) == LOWER_E || byte_at(src, pos) == UPPER_E {
        let sign: nat = if byte_at(src, pos + 1) == PLUS || byte_at(src, pos + 1) == MINUS {
            1
        } else {
            0
        };
        let digits = run_len(src, pos + 1 + sign, ByteClass::Digit);
        if digits == 0 {
            None
        } else {
            Some(1 + sign + digits)
        }
    } else {
        Some(0nat)
    }
}

/// The numeric literal that starts at `pos`: digits, an optional fraction,
/// an optional exponent, and no name directly behind. Its payload is its
/// text.
pub open spec fn number(src: Seq<u8>, pos: int) -> Lexeme {
    let whole = run_len(src, pos, ByteClass::Digit);
    let fraction: nat = if byte_at(src, pos + whole) == DOT {
        1 + run_len(src, pos + whole + 1, ByteClass::Digit)
    } else {
        0
    };
    match exponent(src, pos + whole + fraction) {
        None => invalid(LexErrorKind::InvalidNumber),
        Some(e) => {
            let n = whole + fraction + e;
            if spec_is_identifier_start(byte_at(src, pos + n)) {
                invalid(LexErrorKind::InvalidNumber)
            } else {
                Lexeme {
                    kind: TokenKind::NumericLiteral,
                    text: src.subrange(pos, pos + n),
                    flags: Seq::empty(),
                    len: n,
                }
            }
        },
    }
}

/// What a backslash and the byte after it stand for in a string.
#[derive(Clone, Copy, Debug, PartialEq, Eq, Structural)]
pub enum Escape {
    /// One byte.
    Byte(u8),
    /// Nothing: a line continuation.
    Nothing,
    /// The sequence is not understood.
    Invalid,
}

/// The meaning of the escape sequence whose second byte is `b`.
pub open spec fn spec_escape(b: u8) -> Escape {
    if b == LOWER_N {
        Escape::Byte(LINE_FEED)
    } else if b == LOWER_T {
        Escape::Byte(9)
    } else if b == LOWER_R {
        Escape::Byte(CARRIAGE_RETURN)
    } else if b == LOWER_B {
        Escape::Byte(8)
    } else if b == LOWER_F {
        Escape::Byte(12)
    } else if b == LOWER_V {
        Escape::Byte(11)
    } else if b == DIGIT_ZERO {
        Escape::Byte(0)
    } else if spec_is_line_terminator(b) {
        Escape::Nothing
    } else if b == LOWER_X || b == LOWER_U || spec_is_digit(b) {
        Escape::Invalid
    } else {
        Escape::Byte(b)
    }
}

#[verifier::when_used_as_spec(spec_escape)]
pub fn escape(b: u8) -> (e: Escape)
    ensures
        e == spec_escape(b),
{
    if b == LOWER_N {
        Escape::Byte(LINE_FEED)
    } else if b == LOWER_T {
        Escape::Byte(9)
    } else if b == LOWER_R {
        Escape::Byte(CARRIAGE_RETURN)
    } else if b == LOWER_B {
        Escape::Byte(8)
    } else if b == LOWER_F {
        Escape::Byte(12)
    } else if b == LOWER_V {
        Escape::Byte(11)
    } else if b == DIGIT_ZERO {
        Escape::Byte(0)
    } else if is_line_terminator(b) {
        Escape::Nothing
    } else if b == LOWER_X || b == LOWER_U || is_digit(b) {
        Escape::Invalid
    } else {
        Escape::Byte(b)
    }
}

/// The bytes that an escape sequence adds to the value of a string.
pub open spec fn escape_bytes(e: Escape) -> Seq<u8> {
    match e {
        Escape::Byte(b) => seq![b],
        _ => Seq::empty(),
    }
}

/// A string's value and length once `done`, read from `skipped` bytes, stands
/// before it.
pub open spec fn extend_string(
    done: Seq<u8>,
    skipped: nat,
    r: Result<(Seq<u8>, nat), LexErrorKind>,
) -> Result<(Seq<u8>, nat), LexErrorKind> {
    match r {
        Ok((rest, n)) => Ok((done + rest, n + skipped)),
        Err(k) => Err(k),
    }
}

/// For the text of a string after its opening quote: the value, and the
/// length up to and with the closing quote.
pub open spec fn string_body(src: Seq<u8>, pos: int, quote: u8) -> Result<
    (Seq<u8>, nat),
    LexErrorKind,
>
    decreases remaining(src, pos),
{
    if !(0 <= pos < src.len()) {
        Err(LexErrorKind::UnterminatedString)
    } else if src[pos] == quote {
        Ok((Seq::empty(), 1nat))
    } else if spec_is_line_terminator(src[pos]) {
        Err(LexErrorKind::UnterminatedString)
    } else if src[pos] == BACKSLASH {
        if pos + 1 >= src.len() {
            Err(LexErrorKind::UnterminatedString)
        } else if spec_escape(src[pos + 1]) == Escape::Invalid {
            Err(LexErrorKind::InvalidEscape)
        } else {
            extend_string(
                escape_bytes(spec_escape(src[pos + 1])),
                2,
                string_body(src, pos + 2, quote),
            )
        }
    } else {
        extend_string(seq![src[pos]], 1, string_body(src, pos + 1, quote))
    }
}

/// The string literal that starts at `pos` with a quote.
pub open spec fn string(src: Seq<u8>, pos: int) -> Lexeme {
    match string_body(src, pos + 1, byte_at(src, pos)) {
        Ok((value, n)) => Lexeme {
            kind: TokenKind::StringLiteral,
            text: value,
            flags: Seq::empty(),
            len: n + 1,
        },
        Err(k) => invalid(k),
    }
}

/// A closed string ends inside the text.
pub proof fn lemma_string_body_bound(src: Seq<u8>, pos: int, quote: u8)
    requires
        0 <= pos <= src.len(),
    ensures
        string_body(src, pos, quote) matches Ok((_, n)) ==> pos + n <= src.len(),
    decreases remaining(src, pos),
{
    if pos < src.len() && src[pos] != quote && !spec_is_line_terminator(src[pos]) {
        if src[pos] == BACKSLASH {
            if pos + 1 < src.len() && spec_escape(src[pos + 1]) != Escape::Invalid {
                lemma_string_body_bound(src, pos + 2, quote);
            }
        } else {
            lemma_string_body_bound(src, pos + 1, quote);
        }
    }
}

/// Reads a string's text after its opening quote.
pub fn scan_string(src: &[u8], pos: usize, quote: u8) -> (r: Result<(Vec<u8>, usize), LexErrorKind>)
    requires
        pos <= src@.len(),
    ensures
        match string_body(src@, pos as int, quote) {
            Ok((value, n)) => r matches Ok((buf, end)) && buf@ == value && end == pos + n && end
                <= src@.len(),
            Err(k) => r matches Err(e) && e == k,
        },
{
    let mut buf: Vec<u8> = Vec::new();
    let mut i: usize = pos;
    loop
        invariant
            pos <= i <= src@.len(),
            string_body(src@, pos as int, quote) == extend_string(
                buf@,
                (i - pos) as nat,
                string_body(src@, i as int, quote),
            ),
        decreases src@.len() - i,
    {
        if i >= src.len() {
            return Err(LexErrorKind::UnterminatedString);
        }
        let b: u8 = src[i];
        if b == quote {
            assert(buf@ + Seq::<u8>::empty() =~= buf@);
            return Ok((buf, i + 1));
        }
        if is_line_terminator(b) {
            return Err(LexErrorKind::UnterminatedString);
        }
        let ghost before = buf@;
        if b == BACKSLASH {
            if i + 1 >= src.len() {
                return Err(LexErrorKind::UnterminatedString);
            }
            let e = escape(src[i + 1]);
            match e {
                Escape::Invalid => {
                    return Err(LexErrorKind::InvalidEscape);
                },
                Escape::Nothing => {},
                Escape::Byte(c) => {
                    buf.push(c);
                },
            }
            proof {
                assert(buf@ =~= before + escape_bytes(e));
                match string_body(src@, i + 2, quote) {
                    Ok((rest, n)) => {
                        assert((before + escape_bytes(e)) + rest =~= before + (escape_bytes(e)
                            + rest));
                    },
                    Err(_) => {},
                }
            }
            i += 2;
        } else {
            buf.push(b);
            proof {
                assert(buf@ =~= before + seq![b]);
                match string_body(src@, i + 1, quote) {
                    Ok((rest, n)) => {
                        assert((before + seq![b]) + rest =~= before + (seq![b] + rest));
                    },
                    Err(_) => {},
                }
            }
            i += 1;
        }
    }
}

/// A pattern body's length once `skipped` more bytes stand before it.
pub open spec fn extend_pattern(r: Option<nat>, skipped: nat) -> Option<nat> {
    match r {
        Some(n) => Some(n + skipped),
        None => None,
    }
}

/// For the text of a pattern literal after its opening `/`: the length of
/// the body, which ends before the first `/` that is neither escaped nor
/// inside a bracketed class. `None` when the line or the text ends first.
pub open spec fn pattern_body(src: Seq<u8>, pos: int, in_class: bool) -> Option<nat>
    decreases remaining(src, pos),
{
    if !(0 <= pos < src.len()) || spec_is_line_terminator(src[pos]) {
        None
    } else if src[pos] == SLASH && !in_class {
        Some(0nat)
    } else if src[pos] == BACKSLASH {
        if pos + 1 < src.len() && !spec_is_line_terminator(src[pos + 1]) {
            extend_pattern(pattern_body(src, pos + 2, in_class), 2)
        } else {
            None
        }
    } else {
        let inside = if src[pos] == OPEN_BRACKET {
            true
        } else if src[pos] == CLOSE_BRACKET {
            false
        } else {
            in_class
        };
        extend_pattern(pattern_body(src, pos + 1, inside), 1)
    }
}

/// The pattern literal that starts at `pos` with a `/`: its payload is the
/// body, its flags the name characters after the closing `/`.
pub open spec fn pattern(src: Seq<u8>, pos: int) -> Lexeme {
    match pattern_body(src, pos + 1, false) {
        Some(n) => {
            let flags = run_len(src, pos + n + 2, ByteClass::IdentifierPart);
            Lexeme {
                kind: TokenKind::PatternLiteral,
                text: src.subrange(pos + 1, pos + 1 + n),
                flags: src.subrange(pos + n + 2, pos + n + 2 + flags),
                len: n + 2 + flags,
            }
        },
        None => invalid(LexErrorKind::UnterminatedPattern),
    }
}

/// A closed pattern body ends before the end of the text.
pub proof fn lemma_pattern_body_bound(src: Seq<u8>, pos: int, in_class: bool)
    requires
        0 <= pos <= src.len(),
    ensures
        pattern_body(src, pos, in_class) matches Some(n) ==> pos + n < src.len(),
    decreases remaining(src, pos),
{
    if pos < src.len() && !spec_is_line_terminator(src[pos]) && !(src[pos] == SLASH && !in_class) {
        if src[pos] == BACKSLASH {
            if pos + 1 < src.len() && !spec_is_line_terminator(src[pos + 1]) {
                lemma_pattern_body_bound(src, pos + 2, in_class);
            }
        } else {
            let inside = if src[pos] == OPEN_BRACKET {
                true
            } else if src[pos] == CLOSE_BRACKET {
                false
            } else {
                in_class
            };
            lemma_pattern_body_bound(src, pos + 1, inside);
        }
    }
}

/// Finds the closing `/` of the pattern whose body starts at `pos`.
pub fn scan_pattern_body(src: &[u8], pos: usize) -> (r: Option<usize>)
    requires
        pos <= src@.len(),
    ensures
        match pattern_body(src@, pos as int, false) {
            Some(n) => r == Some((pos + n) as usize) && pos + n < src@.len(),
            None => r is None,
        },
{
    let mut i: usize = pos;
    let mut in_class = false;
    loop
        invariant
            pos <= i <= src@.len(),
            pattern_body(src@, pos as int, false) == extend_pattern(
                pattern_body(src@, i as int, in_class),
                (i - pos) as nat,
            ),
        decreases src@.len() - i,
    {
        if i >= src.len() {
            return None;
        }
        let b: u8 = src[i];
        if is_line_terminator(b) {
            return None;
        }
        if b == SLASH && !in_class {
            return Some(i);
        }
        if b == BACKSLASH {
            if i + 1 < src.len() && !is_line_terminator(src[i + 1]) {
                i += 2;
            } else {
                return None;
            }
        } else {
            if b == OPEN_BRACKET {
                in_class = true;
            } else if b == CLOSE_BRACKET {
                in_class = false;
            }
            i += 1;
        }
    }
}

/// The longest punctuator that the bytes `a`, `b`, `c`, `d` start with, and
/// its length.
#[verifier::opaque]
pub open spec fn spec_punctuator(a: u8, b: u8, c: u8, d: u8) -> Option<(Punctuator, usize)> {
    if a == OPEN_BRACE {
        Some((Punctuator::OpenBlock, 1usize))
    } else if a == CLOSE_BRACE {
        Some((Punctuator::CloseBlock, 1usize))
    } else if a == OPEN_PAREN {
        Some((Punctuator::OpenParen, 1usize))
    } else if a == CLOSE_PAREN {
        Some((Punctuator::CloseParen, 1usize))
    } else if a == OPEN_BRACKET {
        Some((Punctuator::OpenBracket, 1usize))
    } else if a == CLOSE_BRACKET {
        Some((Punctuator::CloseBracket, 1usize))
    } else if a == SEMICOLON {
        Some((Punctuator::Semicolon, 1usize))
    } else if a == COMMA {
        Some((Punctuator::Comma, 1usize))
    } else if a == QUESTION {
        Some((Punctuator::Question, 1usize))
    } else if a == COLON {
        Some((Punctuator::Colon, 1usize))
    } else if a == TILDE {
        Some((Punctuator::Neg, 1usize))
    } else if a == DOT {
        if b == DOT && c == DOT {
            Some((Punctuator::Spread, 3usize))
        } else {
            Some((Punctuator::Dot, 1usize))
        }
    } else if a == LESS {
        if b == LESS {
            if c == EQUALS {
                Some((Punctuator::AssignLeftSh, 3usize))
            } else {
                Some((Punctuator::LeftSh, 2usize))
            }
        } else if b == EQUALS {
            Some((Punctuator::LessThanOrEq, 2usize))
        } else {
            Some((Punctuator::LessThan, 1usize))
        }
    } else if a == GREATER {
        if b == GREATER {
            if c == GREATER {
                if d == EQUALS {
                    Some((Punctuator::AssignURightSh, 4usize))
                } else {
                    Some((Punctuator::URightSh, 3usize))
                }
            } else if c == EQUALS {
                Some((Punctuator::AssignRightSh, 3usize))
            } else {
                Some((Punctuator::RightSh, 2usize))
            }
        } else if b == EQUALS {
            Some((Punctuator::GreaterThanOrEq, 2usize))
        } else {
            Some((Punctuator::GreaterThan, 1usize))
        }
    } else if a == EQUALS {
        if b == EQUALS {
            if c == EQUALS {
                Some((Punctuator::StrictEq, 3usize))
            } else {
                Some((Punctuator::Eq, 2usize))
            }
        } else if b == GREATER {
            Some((Punctuator::Arrow, 2usize))
        } else {
            Some((Punctuator::Assign, 1usize))
        }
    } else if a == BANG {
        if b == EQUALS {
            if c == EQUALS {
                Some((Punctuator::StrictNotEq, 3usize))
            } else {
                Some((Punctuator::NotEq, 2usize))
            }
        } else {
            Some((Punctuator::Not, 1usize))
        }
    } else if a == PLUS {
        if b == PLUS {
            Some((Punctuator::Inc, 2usize))
        } else if b == EQUALS {
            Some((Punctuator::AssignAdd, 2usize))
        } else {
            Some((Punctuator::Add, 1usize))
        }
    } else if a == MINUS {
        if b == MINUS {
            Some((Punctuator::Dec, 2usize))
        } else if b == EQUALS {
            Some((Punctuator::AssignSub, 2usize))
        } else {
            Some((Punctuator::Sub, 1usize))
        }
    } else if a == STAR {
        if b == STAR {
            if c == EQUALS {
                Some((Punctuator::AssignPow, 3usize))
            } else {
                Some((Punctuator::Exp, 2usize))
            }
        } else if b == EQUALS {
            Some((Punctuator::AssignMul, 2usize))
        } else {
            Some((Punctuator::Mul, 1usize))
        }
    } else if a == SLASH {
        if b == EQUALS {
            Some((Punctuator::AssignDiv, 2usize))
        } else {
            Some((Punctuator::Div, 1usize))
        }
    } else if a == PERCENT {
        if b == EQUALS {
            Some((Punctuator::AssignMod, 2usize))
        } else {
            Some((Punctuator::Mod, 1usize))
        }
    } else if a == AMPERSAND {
        if b == AMPERSAND {
            Some((Punctuator::BoolAnd, 2usize))
        } else if b == EQUALS {
            Some((Punctuator::AssignAnd, 2usize))
        } else {
            Some((Punctuator::And, 1usize))
        }
    } else if a == PIPE {
        if b == PIPE {
            Some((Punctuator::BoolOr, 2usize))
        } else if b == EQUALS {
            Some((Punctuator::AssignOr, 2usize))
        } else {
            Some((Punctuator::Or, 1usize))
        }
    } else if a == CARET {
        if b == EQUALS {
            Some((Punctuator::AssignXor, 2usize))
        } else {
            Some((Punctuator::Xor, 1usize))
        }
    } else {
        None
    }
}

#[verifier::when_used_as_spec(spec_punctuator)]
pub fn punctuator(a: u8, b: u8, c: u8, d: u8) -> (r: Option<(Punctuator, usize)>)
    ensures
        r == spec_punctuator(a, b, c, d),
{
    reveal(spec_punctuator);
    if a == OPEN_BRACE {
        Some((Punctuator::OpenBlock, 1usize))
    } else if a == CLOSE_BRACE {
        Some((Punctuator::CloseBlock, 1usize))
    } else if a == OPEN_PAREN {
        Some((Punctuator::OpenParen, 1usize))
    } else if a == CLOSE_PAREN {
        Some((Punctuator::CloseParen, 1usize))
    } else if a == OPEN_BRACKET {
        Some((Punctuator::OpenBracket, 1usize))
    } else if a == CLOSE_BRACKET {
        Some((Punctuator::CloseBracket, 1usize))
    } else if a == SEMICOLON {
        Some((Punctuator::Semicolon, 1usize))
    } else if a == COMMA {
        Some((Punctuator::Comma, 1usize))
    } else if a == QUESTION {
        Some((Punctuator::Question, 1usize))
    } else if a == COLON {
        Some((Punctuator::Colon, 1usize))
    } else if a == TILDE {
        Some((Punctuator::Neg, 1usize))
    } else if a == DOT {
        if b == DOT && c == DOT {
            Some((Punctuator::Spread, 3usize))
        } else {
            Some((Punctuator::Dot, 1usize))
        }
    } else if a == LESS {
        if b == LESS {
            if c == EQUALS {
                Some((Punctuator::AssignLeftSh, 3usize))
            } else {
                Some((Punctuator::LeftSh, 2usize))
            }
        } else if b == EQUALS {
            Some((Punctuator::LessThanOrEq, 2usize))
        } else {
            Some((Punctuator::LessThan, 1usize))
        }
    } else if a == GREATER {
        if b == GREATER {
            if c == GREATER {
                if d == EQUALS {
                    Some((Punctuator::AssignURightSh, 4usize))
                } else {
                    Some((Punctuator::URightSh, 3usize))
                }
            } else if c == EQUALS {
                Some((Punctuator::AssignRightSh, 3usize))
            } else {
                Some((Punctuator::RightSh, 2usize))
            }
        } else if b == EQUALS {
            Some((Punctuator::GreaterThanOrEq, 2usize))
        } else {
            Some((Punctuator::GreaterThan, 1usize))
        }
    } else if a == EQUALS {
        if b == EQUALS {
            if c == EQUALS {
                Some((Punctuator::StrictEq, 3usize))
            } else {
                Some((Punctuator::Eq, 2usize))
            }
        } else if b == GREATER {
            Some((Punctuator::Arrow, 2usize))
        } else {
            Some((Punctuator::Assign, 1usize))
        }
    } else if a == BANG {
        if b == EQUALS {
            if c == EQUALS {
                Some((Punctuator::StrictNotEq, 3usize))
            } else {
                Some((Punctuator::NotEq, 2usize))
            }
        } else {
            Some((Punctuator::Not, 1usize))
        }
    } else if a == PLUS {
        if b == PLUS {
            Some((Punctuator::Inc, 2usize))
        } else if b == EQUALS {
            Some((Punctuator::AssignAdd, 2usize))
        } else {
            Some((Punctuator::Add, 1usize))
        }
    } else if a == MINUS {
        if b == MINUS {
            Some((Punctuator::Dec, 2usize))
        } else if b == EQUALS {
            Some((Punctuator::AssignSub, 2usize))
        } else {
            Some((Punctuator::Sub, 1usize))
        }
    } else if a == STAR {
        if b == STAR {
            if c == EQUALS {
                Some((Punctuator::AssignPow, 3usize))
            } else {
                Some((Punctuator::Exp, 2usize))
            }
        } else if b == EQUALS {
            Some((Punctuator::AssignMul, 2usize))
        } else {
            Some((Punctuator::Mul, 1usize))
        }
    } else if a == SLASH {
        if b == EQUALS {
            Some((Punctuator::AssignDiv, 2usize))
        } else {
            Some((Punctuator::Div, 1usize))
        }
    } else if a == PERCENT {
        if b == EQUALS {
            Some((Punctuator::AssignMod, 2usize))
        } else {
            Some((Punctuator::Mod, 1usize))
        }
    } else if a == AMPERSAND {
        if b == AMPERSAND {
            Some((Punctuator::BoolAnd, 2usize))
        } else if b == EQUALS {
            Some((Punctuator::AssignAnd, 2usize))
        } else {
            Some((Punctuator::And, 1usize))
        }
    } else if a == PIPE {
        if b == PIPE {
            Some((Punctuator::BoolOr, 2usize))
        } else if b == EQUALS {
            Some((Punctuator::AssignOr, 2usize))
        } else {
            Some((Punctuator::Or, 1usize))
        }
    } else if a == CARET {
        if b == EQUALS {
            Some((Punctuator::AssignXor, 2usize))
        } else {
            Some((Punctuator::Xor, 1usize))
        }
    } else {
        None
    }
}

/// A punctuator has one to four bytes, none of them zero.
pub proof fn lemma_punctuator_len(a: u8, b: u8, c: u8, d: u8)
    ensures
        spec_punctuator(a, b, c, d) matches Some((_, n)) ==> {
            &&& 1 <= n <= 4
            &&& a != 0
            &&& n >= 2 ==> b != 0
            &&& n >= 3 ==> c != 0
            &&& n >= 4 ==> d != 0
        },
{
    reveal(spec_punctuator);
}

/// The lexeme that starts at `pos`, read under `goal`.
pub open spec fn lexeme(src: Seq<u8>, pos: int, goal: Goal) -> Lexeme {
    let b = byte_at(src, pos);
    if !(0 <= pos < src.len()) {
        plain(TokenKind::EndOfInput, 0)
    } else if spec_is_identifier_start(b) {
        word(src, pos)
    } else if spec_is_digit(b) || (b == DOT && spec_is_digit(byte_at(src, pos + 1))) {
        number(src, pos)
    } else if b == DOUBLE_QUOTE || b == SINGLE_QUOTE {
        string(src, pos)
    } else if b == SLASH && goal == Goal::Pattern {
        pattern(src, pos)
    } else {
        match spec_punctuator(
            b,
            byte_at(src, pos + 1),
            byte_at(src, pos + 2),
            byte_at(src, pos + 3),
        ) {
            Some((p, n)) => plain(TokenKind::Punctuator(p), n as nat),
            None => invalid(LexErrorKind::InvalidCharacter),
        }
    }
}

/// A lexeme ends inside the text, and a lexeme that is a token, other than
/// the end of the text, is not empty.
pub proof fn lemma_lexeme_bound(src: Seq<u8>, pos: int, goal: Goal)
    requires
        0 <= pos <= src.len(),
    ensures
        pos + lexeme(src, pos, goal).len <= src.len(),
        !lexeme(src, pos, goal).kind.spec_is_terminal() ==> lexeme(src, pos, goal).len > 0,
{
    let b = byte_at(src, pos);
    if pos < src.len() {
        if spec_is_identifier_start(b) {
            lemma_run_len_bound(src, pos, ByteClass::IdentifierPart);
        } else if spec_is_digit(b) || (b == DOT && spec_is_digit(byte_at(src, pos + 1))) {
            let whole = run_len(src, pos, ByteClass::Digit);
            lemma_run_len_bound(src, pos, ByteClass::Digit);
            let fraction: nat = if byte_at(src, pos + whole) == DOT {
                1 + run_len(src, pos + whole + 1, ByteClass::Digit)
            } else {
                0
            };
            if byte_at(src, pos + whole) == DOT {
                lemma_run_len_bound(src, pos + whole + 1, ByteClass::Digit);
            }
            let at = pos + whole + fraction;
            if byte_at(src, at) == LOWER_E || byte_at(src, at) == UPPER_E {
                let sign: nat = if byte_at(src, at + 1) == PLUS || byte_at(src, at + 1) == MINUS {
                    1
                } else {
                    0
                };
                lemma_run_len_bound(src, at + 1 + sign, ByteClass::Digit);
            }
        } else if b == DOUBLE_QUOTE || b == SINGLE_QUOTE {
            lemma_string_body_bound(src, pos + 1, b);
        } else if b == SLASH && goal == Goal::Pattern {
            lemma_pattern_body_bound(src, pos + 1, false);
            match pattern_body(src, pos + 1, false) {
                Some(n) => {
                    lemma_run_len_bound(src, pos + n + 2, ByteClass::IdentifierPart);
                },
                None => {},
            }
        } else {
            lemma_punctuator_len(
                b,
                byte_at(src, pos + 1),
                byte_at(src, pos + 2),
                byte_at(src, pos + 3),
            );
        }
    }
}

/// A lexeme as the scanner hands it out: `end` is the place after it.
pub struct Scanned {
    pub kind: TokenKind,
    pub text: Vec<u8>,
    pub flags: Vec<u8>,
    pub end: usize,
}

impl Scanned {
    /// Whether this is the lexeme `x` found at `pos`.
    pub open spec fn is(&self, x: Lexeme, pos: int) -> bool {
        &&& self.kind == x.kind
        &&& self.text@ == x.text
        &&& self.flags@ == x.flags
        &&& self.end == pos + x.len
    }
}

/// Reads the word that starts at `pos`.
pub fn scan_word(src: &[u8], pos: usize) -> (s: Scanned)
    requires
        pos <= src@.len(),
    ensures
        s.is(word(src@, pos as int), pos as int),
        s.end <= src@.len(),
{
    let end = scan_run(src, pos, ByteClass::IdentifierPart);
    let kind = classify_word(vstd::slice::slice_subrange(src, pos, end));
    if kind == TokenKind::Identifier {
        Scanned { kind, text: copy_range(src, pos, end), flags: Vec::new(), end }
    } else {
        Scanned { kind, text: Vec::new(), flags: Vec::new(), end }
    }
}

/// Finds the end of the exponent part at `pos`.
pub fn scan_exponent(src: &[u8], pos: usize) -> (r: Option<usize>)
    requires
        pos <= src@.len(),
    ensures
        match exponent(src@, pos as int) {
            Some(n) => r == Some((pos + n) as usize) && pos + n <= src@.len(),
            None => r is None,
        },
{
    if pos < src.len() && (src[pos] == LOWER_E || src[pos] == UPPER_E) {
        let c: u8 = get_byte_ahead(src, pos, 1);
        let from: usize = if c == PLUS || c == MINUS { pos + 2 } else { pos + 1 };
        let end = scan_run(src, from, ByteClass::Digit);
        if end == from {
            None
        } else {
            Some(end)
        }
    } else {
        Some(pos)
    }
}

/// Reads the numeric literal that starts at `pos`.
pub fn scan_number(src: &[u8], pos: usize) -> (s: Scanned)
    requires
        pos <= src@.len(),
    ensures
        s.is(number(src@, pos as int), pos as int),
        s.end <= src@.len(),
{
    let whole_end = scan_run(src, pos, ByteClass::Digit);
    let mantissa_end = if whole_end < src.len() && src[whole_end] == DOT {
        scan_run(src, whole_end + 1, ByteClass::Digit)
    } else {
        whole_end
    };
    match scan_exponent(src, mantissa_end) {
        None => Scanned {
            kind: TokenKind::Invalid(LexErrorKind::InvalidNumber),
            text: Vec::new(),
            flags: Vec::new(),
            end: pos,
        },
        Some(end) => {
            if is_identifier_start(get_byte(src, end)) {
                Scanned {
                    kind: TokenKind::Invalid(LexErrorKind::InvalidNumber),
                    text: Vec::new(),
                    flags: Vec::new(),
                    end: pos,
                }
            } else {
                Scanned {
                    kind: TokenKind::NumericLiteral,
                    text: copy_range(src, pos, end),
                    flags: Vec::new(),
                    end,
                }
            }
        },
    }
}

/// Reads the lexeme that starts at `pos` under `goal`.
pub fn scan_lexeme(src: &[u8], pos: usize, goal: Goal) -> (s: Scanned)
    requires
        pos <= src@.len(),
    ensures
        s.is(lexeme(src@, pos as int, goal), pos as int),
        pos <= s.end <= src@.len(),
{
    if pos >= src.len() {
        return Scanned { kind: TokenKind::EndOfInput, text: Vec::new(), flags: Vec::new(), end: pos };
    }
    let b: u8 = src[pos];
    if is_identifier_start(b) {
        scan_word(src, pos)
    } else if is_digit(b) || (b == DOT && is_digit(get_byte(src, pos + 1))) {
        scan_number(src, pos)
    } else if b == DOUBLE_QUOTE || b == SINGLE_QUOTE {
        match scan_string(src, pos + 1, b) {
            Ok((value, end)) => Scanned {
                kind: TokenKind::StringLiteral,
                text: value,
                flags: Vec::new(),
                end,
            },
            Err(k) => Scanned {
                kind: TokenKind::Invalid(k),
                text: Vec::new(),
                flags: Vec::new(),
                end: pos,
            },
        }
    } else if b == SLASH && goal == Goal::Pattern {
        match scan_pattern_body(src, pos + 1) {
            Some(close) => {
                let end = scan_run(src, close + 1, ByteClass::IdentifierPart);
                Scanned {
                    kind: TokenKind::PatternLiteral,
                    text: copy_range(src, pos + 1, close),
                    flags: copy_range(src, close + 1, end),
                    end,
                }
            },
            None => Scanned {
                kind: TokenKind::Invalid(LexErrorKind::UnterminatedPattern),
                text: Vec::new(),
                flags: Vec::new(),
                end: pos,
            },
        }
    } else {
        match punctuator(
            b,
            get_byte_ahead(src, pos, 1),
            get_byte_ahead(src, pos, 2),
            get_byte_ahead(src, pos, 3),
        ) {
            Some((p, n)) => {
                proof {
                    lemma_lexeme_bound(src@, pos as int, goal);
                }
                Scanned {
                    kind: TokenKind::Punctuator(p),
                    text: Vec::new(),
                    flags: Vec::new(),
                    end: pos + n,
                }
            },
            None => Scanned {
                kind: TokenKind::Invalid(LexErrorKind::InvalidCharacter),
                text: Vec::new(),
                flags: Vec::new(),
                end: pos,
            },
        }
    }
}

} // verus!
