//! Tests of the token source and of the cursor.

use boa::syntax::ast::position::Position;
use boa::syntax::lexer::scan::Goal;
use boa::syntax::lexer::token::{Keyword, LexErrorKind, Punctuator, Token, TokenKind};
use boa::syntax::lexer::Lexer;
use boa::syntax::parser::cursor::Cursor;

fn tokens(js: &str) -> Vec<Token> {
    let mut cursor = Cursor::new(js.as_bytes());
    let mut out = Vec::new();
    while let Some(t) = cursor.advance() {
        out.push(t);
    }
    out
}

fn kinds(js: &str) -> Vec<TokenKind> {
    tokens(js).into_iter().map(|t| t.kind).collect()
}

fn p(p: Punctuator) -> TokenKind {
    TokenKind::Punctuator(p)
}

#[test]
fn empty_text_is_one_end_token() {
    let t = tokens("");
    assert_eq!(t.len(), 1);
    assert_eq!(t[0].kind, TokenKind::EndOfInput);
    assert_eq!(t[0].position, Position { line: 1, column: 1, offset: 0 });
    assert_eq!(t[0].end, 0);
    assert!(!t[0].newline_before);
}

#[test]
fn words_are_keywords_literals_or_names() {
    assert_eq!(
        kinds("var x = true; function null_ instanceof"),
        vec![
            TokenKind::Keyword(Keyword::Var),
            TokenKind::Identifier,
            p(Punctuator::Assign),
            TokenKind::BooleanLiteral(true),
            p(Punctuator::Semicolon),
            TokenKind::Keyword(Keyword::Function),
            TokenKind::Identifier,
            TokenKind::Keyword(Keyword::InstanceOf),
            TokenKind::EndOfInput,
        ]
    );
    let t = tokens("null $a_1 false");
    assert_eq!(t[0].kind, TokenKind::NullLiteral);
    assert_eq!(t[1].text, b"$a_1".to_vec());
    assert_eq!(t[2].kind, TokenKind::BooleanLiteral(false));
}

#[test]
fn the_longest_punctuator_wins() {
    assert_eq!(
        kinds("a >>>= b >>> c >>= d >> e >= f > g"),
        vec![
            TokenKind::Identifier,
            p(Punctuator::AssignURightSh),
            TokenKind::Identifier,
            p(Punctuator::URightSh),
            TokenKind::Identifier,
            p(Punctuator::AssignRightSh),
            TokenKind::Identifier,
            p(Punctuator::RightSh),
            TokenKind::Identifier,
            p(Punctuator::GreaterThanOrEq),
            TokenKind::Identifier,
            p(Punctuator::GreaterThan),
            TokenKind::Identifier,
            TokenKind::EndOfInput,
        ]
    );
    assert_eq!(
        kinds("=== == = => !== != ! ** **= ... . ++ += --"),
        vec![
            p(Punctuator::StrictEq),
            p(Punctuator::Eq),
            p(Punctuator::Assign),
            p(Punctuator::Arrow),
            p(Punctuator::StrictNotEq),
            p(Punctuator::NotEq),
            p(Punctuator::Not),
            p(Punctuator::Exp),
            p(Punctuator::AssignPow),
            p(Punctuator::Spread),
            p(Punctuator::Dot),
            p(Punctuator::Inc),
            p(Punctuator::AssignAdd),
            p(Punctuator::Dec),
            TokenKind::EndOfInput,
        ]
    );
}

#[test]
fn a_slash_behind_an_operand_divides() {
    assert_eq!(
        kinds("a / b / c"),
        vec![
            TokenKind::Identifier,
            p(Punctuator::Div),
            TokenKind::Identifier,
            p(Punctuator::Div),
            TokenKind::Identifier,
            TokenKind::EndOfInput,
        ]
    );
    assert_eq!(
        kinds("(a) /= 2"),
        vec![
            p(Punctuator::OpenParen),
            TokenKind::Identifier,
            p(Punctuator::CloseParen),
            p(Punctuator::AssignDiv),
            TokenKind::NumericLiteral,
            TokenKind::EndOfInput,
        ]
    );
}

#[test]
fn a_slash_elsewhere_opens_a_pattern() {
    let t = tokens("x = /a[/]b\\/c/gi;");
    assert_eq!(t[2].kind, TokenKind::PatternLiteral);
    assert_eq!(t[2].text, b"a[/]b\\/c".to_vec());
    assert_eq!(t[2].flags, b"gi".to_vec());
    assert_eq!(t[3].kind, p(Punctuator::Semicolon));

    let t = tokens("/=/");
    assert_eq!(t[0].kind, TokenKind::PatternLiteral);
    assert_eq!(t[0].text, b"=".to_vec());
    assert_eq!(t[1].kind, TokenKind::EndOfInput);
}

#[test]
fn relexing_reads_the_same_place_under_the_other_goal() {
    let src = b"  /ab/g";
    let mut lexer = Lexer::new(src);
    let first = lexer.next_token(Goal::Div);
    assert_eq!(first.kind, p(Punctuator::Div));
    assert_eq!(first.position, Position { line: 1, column: 3, offset: 2 });
    assert_eq!(first.end, 3);
    let again = lexer.relex_as(Goal::Pattern);
    assert_eq!(again.kind, TokenKind::PatternLiteral);
    assert_eq!(again.text, b"ab".to_vec());
    assert_eq!(again.flags, b"g".to_vec());
    assert_eq!(again.position, first.position);
    assert_eq!(again.end, 7);
    assert_eq!(lexer.next_token(Goal::Div).kind, TokenKind::EndOfInput);
}

#[test]
fn strings_hold_their_value() {
    let t = tokens(r#"'a\n\t\\\'' "b\"\q\0""#);
    assert_eq!(t[0].kind, TokenKind::StringLiteral);
    assert_eq!(t[0].text, b"a\n\t\\'".to_vec());
    assert_eq!(t[1].kind, TokenKind::StringLiteral);
    assert_eq!(t[1].text, b"b\"q\0".to_vec());

    let t = tokens("'a\\\nb'");
    assert_eq!(t[0].kind, TokenKind::StringLiteral);
    assert_eq!(t[0].text, b"ab".to_vec());
}

#[test]
fn numbers_keep_their_text() {
    let t = tokens("12 3.25 .5 1e10 2.5E-3 7.");
    let texts: Vec<&[u8]> = t.iter().map(|t| t.text.as_slice()).collect();
    assert_eq!(
        texts,
        vec![
            b"12".as_slice(),
            b"3.25".as_slice(),
            b".5".as_slice(),
            b"1e10".as_slice(),
            b"2.5E-3".as_slice(),
            b"7.".as_slice(),
            b"".as_slice(),
        ]
    );
    assert!(t[..6].iter().all(|t| t.kind == TokenKind::NumericLiteral));
}

#[test]
fn each_lexing_failure_has_its_kind() {
    let last = |js: &str| kinds(js).last().copied().unwrap();
    assert_eq!(last("a # b"), TokenKind::Invalid(LexErrorKind::InvalidCharacter));
    assert_eq!(last("'abc"), TokenKind::Invalid(LexErrorKind::UnterminatedString));
    assert_eq!(last("'ab\nc'"), TokenKind::Invalid(LexErrorKind::UnterminatedString));
    assert_eq!(last("'a\\x41'"), TokenKind::Invalid(LexErrorKind::InvalidEscape));
    assert_eq!(last("a /* b"), TokenKind::Invalid(LexErrorKind::UnterminatedComment));
    assert_eq!(last("= /ab"), TokenKind::Invalid(LexErrorKind::UnterminatedPattern));
    assert_eq!(last("= /a\nb/"), TokenKind::Invalid(LexErrorKind::UnterminatedPattern));
    assert_eq!(last("1e"), TokenKind::Invalid(LexErrorKind::InvalidNumber));
    assert_eq!(last("12ab"), TokenKind::Invalid(LexErrorKind::InvalidNumber));
}

#[test]
fn the_stream_stops_at_the_first_failure() {
    assert_eq!(
        kinds("a ' b c"),
        vec![TokenKind::Identifier, TokenKind::Invalid(LexErrorKind::UnterminatedString)]
    );
}

#[test]
fn line_breaks_are_marked_on_the_next_token() {
    let t = tokens("a b\nc // d\ne /* f */ g /* h\n */ i");
    let marks: Vec<bool> = t.iter().map(|t| t.newline_before).collect();
    assert_eq!(marks, vec![false, false, true, true, false, true, false]);
}

#[test]
fn positions_count_lines_and_columns() {
    let t = tokens("ab\n  cd\r\n\te");
    assert_eq!(t[0].position, Position { line: 1, column: 1, offset: 0 });
    assert_eq!(t[0].end, 2);
    assert_eq!(t[1].position, Position { line: 2, column: 3, offset: 5 });
    assert_eq!(t[2].position, Position { line: 3, column: 2, offset: 10 });
    assert_eq!(t[3].kind, TokenKind::EndOfInput);
    assert_eq!(t[3].position, Position { line: 3, column: 3, offset: 11 });
}

#[test]
fn the_cursor_peeks_advances_and_takes_back() {
    let mut cursor = Cursor::new(b"a + b");
    assert_eq!(cursor.index(), 0);
    assert_eq!(cursor.peek(0).map(|t| t.kind), Some(TokenKind::Identifier));
    assert_eq!(cursor.peek(1).map(|t| t.kind), Some(p(Punctuator::Add)));
    assert_eq!(cursor.peek(3).map(|t| t.kind), Some(TokenKind::EndOfInput));
    assert!(cursor.peek(4).is_none());
    assert_eq!(cursor.peek_kind(9), TokenKind::EndOfInput);
    assert_eq!(cursor.index(), 0);

    let a = cursor.advance().unwrap();
    assert_eq!(a.text, b"a".to_vec());
    assert_eq!(cursor.index(), 1);
    let plus = cursor.advance().unwrap();
    assert_eq!(plus.kind, p(Punctuator::Add));
    assert_eq!(cursor.text(), b"b".to_vec());

    cursor.push_back(plus);
    assert_eq!(cursor.index(), 1);
    assert_eq!(cursor.peek_kind(0), p(Punctuator::Add));

    cursor.skip();
    cursor.skip();
    cursor.skip();
    assert_eq!(cursor.index(), 4);
    assert!(cursor.advance().is_none());
    cursor.skip();
    assert_eq!(cursor.index(), 4);
}

#[test]
fn a_position_moves_over_the_text() {
    let src = b"ab\ncd";
    let start = Position::start();
    assert_eq!(start, Position { line: 1, column: 1, offset: 0 });
    assert_eq!(start.advance(src, 0), start);
    assert_eq!(start.advance(src, 2), Position { line: 1, column: 3, offset: 2 });
    let next = start.advance(src, 3);
    assert_eq!(next, Position { line: 2, column: 1, offset: 3 });
    assert_eq!(next.advance(src, 5), Position { line: 2, column: 3, offset: 5 });
}

#[test]
fn a_token_is_copied_whole() {
    let t = tokens("x = /a/g");
    let copy = t[2].duplicate();
    assert_eq!(copy, t[2]);
    assert_eq!(Token::bare(TokenKind::EndOfInput, Position::start(), 0, false).text, Vec::<u8>::new());
}

#[test]
fn kinds_know_their_place() {
    assert!(TokenKind::EndOfInput.is_terminal());
    assert!(TokenKind::Invalid(LexErrorKind::InvalidCharacter).is_terminal());
    assert!(!TokenKind::Identifier.is_terminal());
    assert!(TokenKind::Identifier.ends_expression());
    assert!(TokenKind::Keyword(Keyword::This).ends_expression());
    assert!(TokenKind::Punctuator(Punctuator::CloseParen).ends_expression());
    assert!(!TokenKind::Keyword(Keyword::Return).ends_expression());
    assert!(!TokenKind::Punctuator(Punctuator::Assign).ends_expression());
}
