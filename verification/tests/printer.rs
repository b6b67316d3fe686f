//! Tests of the structural printer: parsing what it prints gives the tree
//! back.

use boa::syntax::ast::constant::Const;
use boa::syntax::ast::node::{Node, StatementList};
use boa::syntax::lexer::token::{Keyword, Punctuator, TokenKind};
use boa::syntax::parser::Parser;
use boa::syntax::printer::emit::{digits_of, print};
use boa::syntax::printer::law::reparse;

fn parse(js: &str) -> StatementList {
    Parser::new(js.as_bytes()).parse_all().expect("failed to parse")
}

fn round_trip(js: &str) {
    let list = parse(js);
    let tokens = print(&list);
    assert!(tokens.iter().all(|t| !t.newline_before));
    let again = Parser::from_tokens(tokens).parse_all();
    assert_eq!(again, Ok(list), "for the script: {}", js);
}

#[test]
fn digits_are_decimal() {
    assert_eq!(digits_of(0), b"0".to_vec());
    assert_eq!(digits_of(7), b"7".to_vec());
    assert_eq!(digits_of(10), b"10".to_vec());
    assert_eq!(digits_of(2147483647), b"2147483647".to_vec());
    assert_eq!(digits_of(u32::MAX), b"4294967295".to_vec());
}

#[test]
fn a_compound_expression_prints_in_parentheses() {
    let kinds: Vec<TokenKind> = print(&parse("a + 1")).into_iter().map(|t| t.kind).collect();
    let p = TokenKind::Punctuator;
    assert_eq!(
        kinds,
        vec![
            p(Punctuator::OpenParen),
            p(Punctuator::OpenParen),
            TokenKind::Identifier,
            p(Punctuator::Add),
            TokenKind::NumericLiteral,
            p(Punctuator::CloseParen),
            p(Punctuator::CloseParen),
            p(Punctuator::Semicolon),
            TokenKind::EndOfInput,
        ]
    );
    let kinds: Vec<TokenKind> = print(&parse("var a")).into_iter().map(|t| t.kind).collect();
    assert_eq!(
        kinds,
        vec![
            TokenKind::Keyword(Keyword::Var),
            TokenKind::Identifier,
            p(Punctuator::Semicolon),
            TokenKind::EndOfInput,
        ]
    );
}

#[test]
fn a_negative_integer_prints_as_zero() {
    let list = StatementList::from(vec![Node::Const(Const::Int(-5))]);
    let tokens = print(&list);
    assert_eq!(tokens[1].text, b"0".to_vec());
}

#[test]
fn expressions_come_back() {
    for js in [
        "a",
        "this",
        "1; 007; 2147483647; 2147483648; 1.5e3; 'str'; true; false; null",
        "x = /ab+c/gi",
        "a + b * c - d / e % f ** g ** h",
        "a || b && c | d ^ e & f == g != h === i !== j < k > l <= m >= n << o >> p >>> q",
        "a in b; a instanceof b",
        "a = b += c -= d *= e /= f %= g **= h &= i |= j ^= k <<= l >>= m >>>= n",
        "-a; +a; !a; ~a; typeof a; void a; delete a.b",
        "++a; --a.b; a[0]++; a--",
        "a ? b : c ? d : e",
        "a, b, c",
        "f(); f(a); f(a, b, c); f(a)(b)(c)",
        "a.b.c; a[b][c]; a.b[c].d(e)",
        "new A; new A(); new A(1, 2); new a.b.C(d); new new A(1)(2); new A().b()",
        "new (f())(); new (a.b()).c",
        "[]; [a]; [a, b, [c, d]]",
        "(a, b)",
        "x = function () {}; y = function f(a, b = 1, ...c) { return a }",
        "z = function* () { yield; yield a; yield* b }",
        "w = async function () { await a }; v = async function* f() { yield await a }",
        "f = a => a; g = (a, b) => a + b; h = () => { return 1 }; k = (a = (1, 2), ...b) => [a, b]",
        "f = a => b => c",
        "(function () {})",
        "(function f() {})()",
    ] {
        round_trip(js);
    }
}

#[test]
fn statements_come_back() {
    for js in [
        "",
        ";",
        ";;",
        "{}",
        "{ a; { b } }",
        "var a; var b = 1, c; let d = 2; const e = 3, f = 4",
        "if (a) b",
        "if (a) b; else c",
        "if (a) if (b) c; else d",
        "if (a) { if (b) c } else d",
        "if (a) while (b) if (c) d; else e",
        "if (a) do if (b) c; while (d); else e",
        "if (a) for (;;) if (b) c; else d",
        "while (a) b",
        "while (a) { break; continue }",
        "do a; while (b)",
        "do { a } while (b); c",
        "for (;;) ;",
        "for (var i = 0, j; i < n; i++) a",
        "for (let i = 0; ; ) a",
        "for (i = 0; i < n; ) a",
        "for (a, b; c; d) e",
        "throw a",
        "function f() {}",
        "function f(a, b = 1, ...c) { var d; return a; return }",
        "function* g() { yield 1 }",
        "async function h() { await 1 }",
        "async function* k() { for (;;) yield await 1 }",
        "a; function f() {} b; function g() { function h() {} var x }",
        "function f() { return function () { return 1 } }",
        "function default_() {}",
        "class A {}",
        "class A extends B {}",
        "class A extends b.c(d)[e] { m() {} }",
        "class A { constructor(x, y = 1, ...z) { this.x = x } static make() { return new A(1) } }",
        "class A { static() {} static static() {} ; get() {} }",
        "if (a) class B {} else c",
        "function* g() { class A { m() { return function () {} } } yield 1 }",
        "class A { m() { class B extends A {} } } a",
    ] {
        round_trip(js);
    }
}

#[test]
fn the_tests_of_the_parser_come_back() {
    for js in [
        "new Date().getTime()",
        "a = a + 1",
        "var a = hello(); a++; function hello() { return 10 }",
        "a = 10; a++; var a;",
        "1 / a === 1 / b",
        "a !== 0 || 1 / a === 1 / b;",
        "let a = 10 // Comment\nlet b = 20;",
        "let a = 10 /* Test\nMultiline\nComment\n*/ let b = 20;",
    ] {
        round_trip(js);
    }
}

#[test]
fn reparsing_a_parsed_script_gives_it_back() {
    for js in [
        "",
        "a = a + 1",
        "var a = hello(); a++; function hello() { return 10 }",
        "if (a) if (b) c; else d; for (var i = 0; i < 3; i++) { f(i) }",
        "x = (a, b) => { return new a.B(b)[0] ** -b }",
    ] {
        let list = parse(js);
        assert_eq!(reparse(&list), Ok(list), "for the script: {}", js);
    }
}

#[test]
fn a_tree_that_no_script_writes_need_not_come_back() {
    // An `else` behind an `if` that ends with an `if` without `else`.
    let inner = Node::If(
        Box::new(Node::Identifier(b"b".to_vec())),
        Box::new(Node::Empty),
        None,
    );
    let outer = Node::If(
        Box::new(Node::Identifier(b"a".to_vec())),
        Box::new(inner),
        Some(Box::new(Node::Empty)),
    );
    let list = StatementList::from(vec![outer]);
    let again = reparse(&list).expect("failed to parse");
    assert_ne!(again, list);
}
