//! Classes of source bytes, and runs of bytes of one class.

use vstd::prelude::*;

verus! {

pub const TAB: u8 = 9;
pub const LINE_FEED: u8 = 10;
pub const VERTICAL_TAB: u8 = 11;
pub const FORM_FEED: u8 = 12;
pub const CARRIAGE_RETURN: u8 = 13;
pub const SPACE: u8 = 32;
pub const BANG: u8 = 33;
pub const DOUBLE_QUOTE: u8 = 34;
pub const DOLLAR: u8 = 36;
pub const PERCENT: u8 = 37;
pub const AMPERSAND: u8 = 38;
pub const SINGLE_QUOTE: u8 = 39;
pub const OPEN_PAREN: u8 = 40;
pub const CLOSE_PAREN: u8 = 41;
pub const STAR: u8 = 42;
pub const PLUS: u8 = 43;
pub const COMMA: u8 = 44;
pub const MINUS: u8 = 45;
pub const DOT: u8 = 46;
pub const SLASH: u8 = 47;
pub const DIGIT_ZERO: u8 = 48;
pub const DIGIT_NINE: u8 = 57;
pub const COLON: u8 = 58;
pub const SEMICOLON: u8 = 59;
pub const LESS: u8 = 60;
pub const EQUALS: u8 = 61;
pub const GREATER: u8 = 62;
pub const QUESTION: u8 = 63;
pub const UPPER_A: u8 = 65;
pub const UPPER_E: u8 = 69;
pub const UPPER_Z: u8 = 90;
pub const OPEN_BRACKET: u8 = 91;
pub const BACKSLASH: u8 = 92;
pub const CLOSE_BRACKET: u8 = 93;
pub const CARET: u8 = 94;
pub const UNDERSCORE: u8 = 95;
pub const LOWER_A: u8 = 97;
pub const LOWER_B: u8 = 98;
pub const LOWER_E: u8 = 101;
pub const LOWER_F: u8 = 102;
pub const LOWER_N: u8 = 110;
pub const LOWER_R: u8 = 114;
pub const LOWER_T: u8 = 116;
pub const LOWER_U: u8 = 117;
pub const LOWER_V: u8 = 118;
pub const LOWER_X: u8 = 120;
pub const LOWER_Z: u8 = 122;
pub const OPEN_BRACE: u8 = 123;
pub const PIPE: u8 = 124;
pub const CLOSE_BRACE: u8 = 125;
pub const TILDE: u8 = 126;

/// Whether `b` ends a line.
pub open spec fn spec_is_line_terminator(b: u8) -> bool {
    b == LINE_FEED || b == CARRIAGE_RETURN
}

#[verifier::when_used_as_spec(spec_is_line_terminator)]
pub fn is_line_terminator(b: u8) -> (r: bool)
    ensures
        r == spec_is_line_terminator(b),
{
    b == LINE_FEED || b == CARRIAGE_RETURN
}

/// Whether `b` is blank space within a line.
pub open spec fn spec_is_whitespace(b: u8) -> bool {
    b == SPACE || b == TAB || b == VERTICAL_TAB || b == FORM_FEED
}

#[verifier::when_used_as_spec(spec_is_whitespace)]
pub fn is_whitespace(b: u8) -> (r: bool)
    ensures
        r == spec_is_whitespace(b),
{
    b == SPACE || b == TAB || b == VERTICAL_TAB || b == FORM_FEED
}

/// Whether `b` is a decimal digit.
pub open spec fn spec_is_digit(b: u8) -> bool {
    DIGIT_ZERO <= b <= DIGIT_NINE
}

#[verifier::when_used_as_spec(spec_is_digit)]
pub fn is_digit(b: u8) -> (r: bool)
    ensures
        r == spec_is_digit(b),
{
    DIGIT_ZERO <= b && b <= DIGIT_NINE
}

/// Whether a name can start with `b`: a letter, `_`, `$`, or a byte of a
/// character beyond ASCII.
pub open spec fn spec_is_identifier_start(b: u8) -> bool {
    (LOWER_A <= b <= LOWER_Z) || (UPPER_A <= b <= UPPER_Z) || b == UNDERSCORE || b == DOLLAR
        || b >= 128
}

#[verifier::when_used_as_spec(spec_is_identifier_start)]
pub fn is_identifier_start(b: u8) -> (r: bool)
    ensures
        r == spec_is_identifier_start(b),
{
    (LOWER_A <= b && b <= LOWER_Z) || (UPPER_A <= b && b <= UPPER_Z) || b == UNDERSCORE || b
        == DOLLAR || b >= 128
}

/// A class of bytes of which a lexeme holds a longest run.
#[derive(Clone, Copy, Debug, PartialEq, Eq, Structural)]
pub enum ByteClass {
    /// Bytes that can continue a name.
    IdentifierPart,
    /// Decimal digits.
    Digit,
    /// Every byte but the line terminators.
    LineBody,
}

impl ByteClass {
    /// Whether `b` belongs to the class.
    pub open spec fn spec_contains(self, b: u8) -> bool {
        match self {
            ByteClass::IdentifierPart => spec_is_identifier_start(b) || spec_is_digit(b),
            ByteClass::Digit => spec_is_digit(b),
            ByteClass::LineBody => !spec_is_line_terminator(b),
        }
    }

    #[verifier::when_used_as_spec(spec_contains)]
    pub fn contains(self, b: u8) -> (r: bool)
        ensures
            r == self.spec_contains(b),
    {
        match self {
            ByteClass::IdentifierPart => is_identifier_start(b) || is_digit(b),
            ByteClass::Digit => is_digit(b),
            ByteClass::LineBody => !is_line_terminator(b),
        }
    }
}

/// The bytes of `src` that are left at `pos`: none outside the text.
pub open spec fn remaining(src: Seq<u8>, pos: int) -> nat {
    if 0 <= pos < src.len() {
        (src.len() - pos) as nat
    } else {
        0
    }
}

/// The byte of `src` at `pos`, or zero outside the text.
pub open spec fn byte_at(src: Seq<u8>, pos: int) -> u8 {
    if 0 <= pos < src.len() {
        src[pos]
    } else {
        0
    }
}

/// The byte of `src` at `pos`, or zero outside the text.
pub fn get_byte(src: &[u8], pos: usize) -> (b: u8)
    ensures
        b == byte_at(src@, pos as int),
{
    if pos < src.len() {
        src[pos]
    } else {
        0
    }
}

/// The byte of `src` that stands `ahead` places after `pos`, or zero outside
/// the text.
pub fn get_byte_ahead(src: &[u8], pos: usize, ahead: usize) -> (b: u8)
    requires
        pos <= src@.len(),
    ensures
        b == byte_at(src@, pos + ahead),
{
    if ahead < src.len() - pos {
        src[pos + ahead]
    } else {
        0
    }
}

/// The length of the longest run of bytes of `class` that starts at `pos`.
pub open spec fn run_len(src: Seq<u8>, pos: int, class: ByteClass) -> nat
    decreases remaining(src, pos),
{
    if 0 <= pos < src.len() && class.spec_contains(src[pos]) {
        1 + run_len(src, pos + 1, class)
    } else {
        0
    }
}

/// A run stays inside the text.
pub proof fn lemma_run_len_bound(src: Seq<u8>, pos: int, class: ByteClass)
    requires
        0 <= pos <= src.len(),
    ensures
        pos + run_len(src, pos, class) <= src.len(),
    decreases remaining(src, pos),
{
    if pos < src.len() && class.spec_contains(src[pos]) {
        lemma_run_len_bound(src, pos + 1, class);
    }
}

/// Finds the end of the longest run of bytes of `class` that starts at `pos`.
pub fn scan_run(src: &[u8], pos: usize, class: ByteClass) -> (end: usize)
    requires
        pos <= src@.len(),
    ensures
        end == pos + run_len(src@, pos as int, class),
        pos <= end <= src@.len(),
{
    let mut i: usize = pos;
    while i < src.len() && class.contains(src[i])
        invariant
            pos <= i <= src@.len(),
            pos + run_len(src@, pos as int, class) == i + run_len(src@, i as int, class),
        decreases src@.len() - i,
    {
        i += 1;
    }
    i
}

/// Whether `a` and `b` hold the same bytes.
pub fn bytes_eq(a: &[u8], b: &[u8]) -> (r: bool)
    ensures
        r == (a@ == b@),
{
    if a.len() != b.len() {
        return false;
    }
    let mut i: usize = 0;
    while i < a.len()
        invariant
            a@.len() == b@.len(),
            i <= a@.len(),
            forall|j: int| 0 <= j < i ==> a@[j] == b@[j],
        decreases a@.len() - i,
    {
        if a[i] != b[i] {
            return false;
        }
        i += 1;
    }
    assert(a@ =~= b@);
    true
}

/// A copy of the bytes of `src` from `from` up to `to`.
pub fn copy_range(src: &[u8], from: usize, to: usize) -> (r: Vec<u8>)
    requires
        from <= to <= src@.len(),
    ensures
        r@ == src@.subrange(from as int, to as int),
{
    vstd::slice::slice_to_vec(vstd::slice::slice_subrange(src, from, to))
}

} // verus!
