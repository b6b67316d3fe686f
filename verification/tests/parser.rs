//! Tests of the parser on whole scripts.

use boa::syntax::ast::constant::Const;
use boa::syntax::ast::node::{ClassMethod, Declaration, FormalParameter, Node, StatementList};
use boa::syntax::ast::op::{
    AssignOp, BinOp, BitOp, CompOp, FunctionKind, LogOp, NumOp, UnaryOp,
};
use boa::syntax::ast::position::Position;
use boa::syntax::lexer::token::{Keyword, LexErrorKind, Punctuator, TokenKind};
use boa::syntax::parser::cursor::Cursor;
use boa::syntax::parser::error::{Expected, ParseError, Rule};
use boa::syntax::parser::grammar::GrammarContext;
use boa::syntax::parser::statement::parse_statement;
use boa::syntax::parser::{Parser, Script, ScriptBody};

fn name(s: &str) -> Vec<u8> {
    s.as_bytes().to_vec()
}

fn ident(s: &str) -> Node {
    Node::Identifier(name(s))
}

fn num(i: i32) -> Node {
    Node::Const(Const::Int(i))
}

fn bin(op: BinOp, l: Node, r: Node) -> Node {
    Node::BinOp(op, Box::new(l), Box::new(r))
}

fn let_decl(n: &str, init: Option<Node>) -> Node {
    Node::LetDeclList(vec![Declaration { name: name(n), init }])
}

fn var_decl(n: &str, init: Option<Node>) -> Node {
    Node::VarDeclList(vec![Declaration { name: name(n), init }])
}

/// Checks that the given script gives the expected statements.
fn check_parser(js: &str, expr: Vec<Node>) {
    assert_eq!(
        Parser::new(js.as_bytes()).parse_all().expect("failed to parse"),
        StatementList::from(expr)
    );
}

/// Checks that the given script is a parse error.
fn check_invalid(js: &str) {
    assert!(Parser::new(js.as_bytes()).parse_all().is_err());
}

/// Should be parsed as `new Class().method()` instead of `new (Class().method())`
#[test]
fn check_construct_call_precedence() {
    check_parser(
        "new Date().getTime()",
        vec![Node::Call(
            Box::new(Node::GetConstField(
                Box::new(Node::New(Box::new(ident("Date")), vec![])),
                name("getTime"),
            )),
            vec![],
        )],
    );
}

#[test]
fn assign_operator_precedence() {
    check_parser(
        "a = a + 1",
        vec![Node::Assign(
            Box::new(ident("a")),
            Box::new(bin(BinOp::Num(NumOp::Add), ident("a"), num(1))),
        )],
    );
}

#[test]
fn hoisting() {
    check_parser(
        r"
            var a = hello();
            a++;

            function hello() { return 10 }",
        vec![
            Node::FunctionDecl(
                FunctionKind::Normal,
                name("hello"),
                vec![],
                StatementList::from(vec![Node::Return(Some(Box::new(num(10))))]),
            ),
            var_decl("a", Some(Node::Call(Box::new(ident("hello")), vec![]))),
            Node::UnaryOp(UnaryOp::IncrementPost, Box::new(ident("a"))),
        ],
    );

    check_parser(
        r"
            a = 10;
            a++;

            var a;",
        vec![
            Node::Assign(Box::new(ident("a")), Box::new(num(10))),
            Node::UnaryOp(UnaryOp::IncrementPost, Box::new(ident("a"))),
            var_decl("a", None),
        ],
    );
}

#[test]
fn ambigous_regex_divide_expression() {
    let s = "1 / a === 1 / b";

    check_parser(
        s,
        vec![bin(
            BinOp::Comp(CompOp::StrictEqual),
            bin(BinOp::Num(NumOp::Div), num(1), ident("a")),
            bin(BinOp::Num(NumOp::Div), num(1), ident("b")),
        )],
    );
}

#[test]
fn two_divisions_in_expression() {
    let s = "a !== 0 || 1 / a === 1 / b;";

    check_parser(
        s,
        vec![bin(
            BinOp::Log(LogOp::Or),
            bin(BinOp::Comp(CompOp::StrictNotEqual), ident("a"), num(0)),
            bin(
                BinOp::Comp(CompOp::StrictEqual),
                bin(BinOp::Num(NumOp::Div), num(1), ident("a")),
                bin(BinOp::Num(NumOp::Div), num(1), ident("b")),
            ),
        )],
    );
}

#[test]
fn comment_semi_colon_insertion() {
    let s = r#"
    let a = 10 // Comment
    let b = 20;
    "#;

    check_parser(
        s,
        vec![let_decl("a", Some(num(10))), let_decl("b", Some(num(20)))],
    );
}

#[test]
fn multiline_comment_semi_colon_insertion() {
    let s = r#"
    let a = 10 /* Test
    Multiline
    Comment
    */ let b = 20;
    "#;

    check_parser(
        s,
        vec![let_decl("a", Some(num(10))), let_decl("b", Some(num(20)))],
    );
}

#[test]
fn multiline_comment_no_lineterminator() {
    let s = r#"
    let a = 10; /* Test comment */ let b = 20;
    "#;

    check_parser(
        s,
        vec![let_decl("a", Some(num(10))), let_decl("b", Some(num(20)))],
    );
}

#[test]
fn block_comment_alone_does_not_end_a_statement() {
    check_invalid("let a = 10 /* Test comment */ let b = 20;");
}

#[test]
fn unterminated_binary_operator_is_unexpected_end() {
    let r = Parser::new("1 +".as_bytes()).parse_all();
    assert!(matches!(r, Err(ParseError::UnexpectedEnd { .. })));
}

fn parse(js: &str) -> Result<StatementList, ParseError> {
    Parser::new(js.as_bytes()).parse_all()
}

fn one(js: &str) -> Node {
    let mut list = parse(js).expect("failed to parse");
    assert_eq!(list.items.len(), 1);
    list.items.pop().unwrap()
}

fn at(line: u64, column: u64, offset: usize) -> Position {
    Position { line, column, offset }
}

#[test]
fn an_empty_script_is_an_empty_list() {
    check_parser("", vec![]);
    check_parser("  // nothing\n /* at all */ ", vec![]);
}

#[test]
fn operators_bind_by_their_precedence() {
    assert_eq!(
        one("a + b * c"),
        bin(
            BinOp::Num(NumOp::Add),
            ident("a"),
            bin(BinOp::Num(NumOp::Mul), ident("b"), ident("c"))
        )
    );
    assert_eq!(
        one("a * b + c"),
        bin(
            BinOp::Num(NumOp::Add),
            bin(BinOp::Num(NumOp::Mul), ident("a"), ident("b")),
            ident("c")
        )
    );
    assert_eq!(
        one("a || b && c | d ^ e & f == g < h << i + j * k"),
        bin(
            BinOp::Log(LogOp::Or),
            ident("a"),
            bin(
                BinOp::Log(LogOp::And),
                ident("b"),
                bin(
                    BinOp::Bit(BitOp::Or),
                    ident("c"),
                    bin(
                        BinOp::Bit(BitOp::Xor),
                        ident("d"),
                        bin(
                            BinOp::Bit(BitOp::And),
                            ident("e"),
                            bin(
                                BinOp::Comp(CompOp::Equal),
                                ident("f"),
                                bin(
                                    BinOp::Comp(CompOp::LessThan),
                                    ident("g"),
                                    bin(
                                        BinOp::Bit(BitOp::Shl),
                                        ident("h"),
                                        bin(
                                            BinOp::Num(NumOp::Add),
                                            ident("i"),
                                            bin(BinOp::Num(NumOp::Mul), ident("j"), ident("k"))
                                        )
                                    )
                                )
                            )
                        )
                    )
                )
            )
        )
    );
}

#[test]
fn operators_of_one_precedence_group_to_the_left() {
    assert_eq!(
        one("a - b - c"),
        bin(
            BinOp::Num(NumOp::Sub),
            bin(BinOp::Num(NumOp::Sub), ident("a"), ident("b")),
            ident("c")
        )
    );
    assert_eq!(
        one("a / b % c"),
        bin(
            BinOp::Num(NumOp::Mod),
            bin(BinOp::Num(NumOp::Div), ident("a"), ident("b")),
            ident("c")
        )
    );
}

#[test]
fn exponentiation_and_assignment_group_to_the_right() {
    assert_eq!(
        one("a ** b ** c"),
        bin(
            BinOp::Num(NumOp::Exp),
            ident("a"),
            bin(BinOp::Num(NumOp::Exp), ident("b"), ident("c"))
        )
    );
    assert_eq!(
        one("a = b += c"),
        Node::Assign(
            Box::new(ident("a")),
            Box::new(bin(BinOp::Assign(AssignOp::Add), ident("b"), ident("c")))
        )
    );
}

#[test]
fn parentheses_group_and_leave_no_node() {
    assert_eq!(
        one("(a + b) * c"),
        bin(
            BinOp::Num(NumOp::Mul),
            bin(BinOp::Num(NumOp::Add), ident("a"), ident("b")),
            ident("c")
        )
    );
    assert_eq!(one("((a))"), ident("a"));
}

#[test]
fn unary_update_and_conditional_expressions() {
    assert_eq!(
        one("-a + !b"),
        bin(
            BinOp::Num(NumOp::Add),
            Node::UnaryOp(UnaryOp::Minus, Box::new(ident("a"))),
            Node::UnaryOp(UnaryOp::Not, Box::new(ident("b")))
        )
    );
    assert_eq!(
        one("typeof ++a.b"),
        Node::UnaryOp(
            UnaryOp::TypeOf,
            Box::new(Node::UnaryOp(
                UnaryOp::IncrementPre,
                Box::new(Node::GetConstField(Box::new(ident("a")), name("b")))
            ))
        )
    );
    assert_eq!(
        one("a ? b : c ? d : e"),
        Node::ConditionalOp(
            Box::new(ident("a")),
            Box::new(ident("b")),
            Box::new(Node::ConditionalOp(
                Box::new(ident("c")),
                Box::new(ident("d")),
                Box::new(ident("e"))
            ))
        )
    );
    assert_eq!(
        one("a, b"),
        bin(BinOp::Comma, ident("a"), ident("b"))
    );
}

#[test]
fn member_call_and_new_chains() {
    assert_eq!(
        one("a.b[c](d, e).f"),
        Node::GetConstField(
            Box::new(Node::Call(
                Box::new(Node::GetField(
                    Box::new(Node::GetConstField(Box::new(ident("a")), name("b"))),
                    Box::new(ident("c"))
                )),
                vec![ident("d"), ident("e")]
            )),
            name("f")
        )
    );
    assert_eq!(one("new A"), Node::New(Box::new(ident("A")), vec![]));
    assert_eq!(
        one("new a.B(1)(2)"),
        Node::Call(
            Box::new(Node::New(
                Box::new(Node::GetConstField(Box::new(ident("a")), name("B"))),
                vec![num(1)]
            )),
            vec![num(2)]
        )
    );
    assert_eq!(
        one("new new A(1)(2)"),
        Node::New(Box::new(Node::New(Box::new(ident("A")), vec![num(1)])), vec![num(2)])
    );
}

#[test]
fn literals() {
    assert_eq!(one("2147483647"), num(i32::MAX));
    assert_eq!(one("2147483648"), Node::Const(Const::Num(name("2147483648"))));
    assert_eq!(one("1.5"), Node::Const(Const::Num(name("1.5"))));
    assert_eq!(one("007"), num(7));
    assert_eq!(one("'it'"), Node::Const(Const::String(name("it"))));
    assert_eq!(one("true"), Node::Const(Const::Bool(true)));
    assert_eq!(one("null"), Node::Const(Const::Null));
    assert_eq!(one("this"), Node::This);
    assert_eq!(one("[1, a, ]"), Node::ArrayDecl(vec![num(1), ident("a")]));
    assert_eq!(one("[]"), Node::ArrayDecl(vec![]));
    assert_eq!(one("x = /ab+c/gi"), Node::Assign(
        Box::new(ident("x")),
        Box::new(Node::Pattern(name("ab+c"), name("gi")))
    ));
}

#[test]
fn statements() {
    assert_eq!(one(";"), Node::Empty);
    assert_eq!(one("{ a; b }"), Node::Block(vec![ident("a"), ident("b")]));
    assert_eq!(
        one("if (a) b; else c"),
        Node::If(Box::new(ident("a")), Box::new(ident("b")), Some(Box::new(ident("c"))))
    );
    assert_eq!(
        one("if (a) if (b) c; else d"),
        Node::If(
            Box::new(ident("a")),
            Box::new(Node::If(
                Box::new(ident("b")),
                Box::new(ident("c")),
                Some(Box::new(ident("d")))
            )),
            None
        )
    );
    assert_eq!(
        one("while (a) { break; continue }"),
        Node::WhileLoop(
            Box::new(ident("a")),
            Box::new(Node::Block(vec![Node::Break, Node::Continue]))
        )
    );
    assert_eq!(
        one("do a; while (b) "),
        Node::DoWhileLoop(Box::new(ident("a")), Box::new(ident("b")))
    );
    assert_eq!(
        check_two("do a; while (b) c"),
        (Node::DoWhileLoop(Box::new(ident("a")), Box::new(ident("b"))), ident("c"))
    );
    assert_eq!(
        one("for (var i = 0; i < n; i++) a"),
        Node::ForLoop(
            Some(Box::new(var_decl("i", Some(num(0))))),
            Some(Box::new(bin(BinOp::Comp(CompOp::LessThan), ident("i"), ident("n")))),
            Some(Box::new(Node::UnaryOp(UnaryOp::IncrementPost, Box::new(ident("i"))))),
            Box::new(ident("a"))
        )
    );
    assert_eq!(
        one("for (;;) ;"),
        Node::ForLoop(None, None, None, Box::new(Node::Empty))
    );
    assert_eq!(one("throw a"), Node::Throw(Box::new(ident("a"))));
    assert_eq!(
        one("const a = 1, b = 2"),
        Node::ConstDeclList(vec![
            Declaration { name: name("a"), init: Some(num(1)) },
            Declaration { name: name("b"), init: Some(num(2)) },
        ])
    );
}

fn check_two(js: &str) -> (Node, Node) {
    let mut list = parse(js).expect("failed to parse");
    assert_eq!(list.items.len(), 2);
    let second = list.items.pop().unwrap();
    (list.items.pop().unwrap(), second)
}

#[test]
fn a_line_break_ends_a_statement() {
    assert_eq!(check_two("a\nb"), (ident("a"), ident("b")));
    assert_eq!(check_two("a = 1\n++b"), (
        Node::Assign(Box::new(ident("a")), Box::new(num(1))),
        Node::UnaryOp(UnaryOp::IncrementPre, Box::new(ident("b")))
    ));
    assert_eq!(
        one("{ a }"),
        Node::Block(vec![ident("a")])
    );
    assert_eq!(
        parse("a b"),
        Err(ParseError::UnexpectedToken {
            found: TokenKind::Identifier,
            expected: Expected::Terminator,
            position: at(1, 3, 2),
        })
    );
}

#[test]
fn a_return_takes_no_value_from_the_next_line() {
    let f = one("function f() { return\n1 }");
    match f {
        Node::FunctionDecl(_, _, _, body) => {
            assert_eq!(body.items, vec![Node::Return(None), num(1)]);
        }
        other => panic!("not a function declaration: {:?}", other),
    }
}

#[test]
fn functions() {
    fn param(n: &str, init: Option<Node>, is_rest: bool) -> FormalParameter {
        FormalParameter { name: name(n), init, is_rest }
    }
    assert_eq!(
        one("function f(a, b = 1, ...c) { return a }"),
        Node::FunctionDecl(
            FunctionKind::Normal,
            name("f"),
            vec![param("a", None, false), param("b", Some(num(1)), false), param("c", None, true)],
            StatementList::from(vec![Node::Return(Some(Box::new(ident("a"))))]),
        )
    );
    assert_eq!(
        one("x = function () {}"),
        Node::Assign(
            Box::new(ident("x")),
            Box::new(Node::FunctionExpr(
                FunctionKind::Normal,
                None,
                vec![],
                StatementList::from(vec![])
            ))
        )
    );
    assert_eq!(
        one("function* g() { yield; yield a; yield* b }"),
        Node::FunctionDecl(
            FunctionKind::Generator,
            name("g"),
            vec![],
            StatementList::from(vec![
                Node::Yield(None, false),
                Node::Yield(Some(Box::new(ident("a"))), false),
                Node::Yield(Some(Box::new(ident("b"))), true),
            ]),
        )
    );
    assert_eq!(
        one("async function h() { await a }"),
        Node::FunctionDecl(
            FunctionKind::Async,
            name("h"),
            vec![],
            StatementList::from(vec![Node::Await(Box::new(ident("a")))]),
        )
    );
    assert_eq!(
        one("async function* k() { yield await a }"),
        Node::FunctionDecl(
            FunctionKind::AsyncGenerator,
            name("k"),
            vec![],
            StatementList::from(vec![Node::Yield(
                Some(Box::new(Node::Await(Box::new(ident("a"))))),
                false
            )]),
        )
    );
}

#[test]
fn arrow_functions() {
    fn param(n: &str) -> FormalParameter {
        FormalParameter { name: name(n), init: None, is_rest: false }
    }
    assert_eq!(
        one("f = a => a + 1"),
        Node::Assign(
            Box::new(ident("f")),
            Box::new(Node::ArrowFunctionDecl(
                vec![param("a")],
                StatementList::from(vec![Node::Return(Some(Box::new(bin(
                    BinOp::Num(NumOp::Add),
                    ident("a"),
                    num(1)
                ))))])
            ))
        )
    );
    assert_eq!(
        one("(a, b) => { return a }"),
        Node::ArrowFunctionDecl(
            vec![param("a"), param("b")],
            StatementList::from(vec![Node::Return(Some(Box::new(ident("a"))))])
        )
    );
    assert_eq!(
        one("() => (a)"),
        Node::ArrowFunctionDecl(
            vec![],
            StatementList::from(vec![Node::Return(Some(Box::new(ident("a"))))])
        )
    );
    assert_eq!(
        one("(a)(b)"),
        Node::Call(Box::new(ident("a")), vec![ident("b")])
    );
}

#[test]
fn a_function_body_has_its_own_context() {
    // `return` is legal in a function wherever the function stands.
    assert!(parse("if (a) { function f() { return 1 } }").is_ok());
    // `yield` is no operator in a plain function inside a generator.
    assert_eq!(
        parse("function* g() { function f() { yield 1 } }"),
        Err(ParseError::ContextViolation { keyword: Keyword::Yield, position: at(1, 32, 31) })
    );
    // An arrow function takes `yield` from the function around it.
    assert!(parse("function* g() { f = () => yield 1 }").is_ok());
    assert!(parse("async function g() { f = a => await a }").is_ok());
    assert_eq!(
        parse("f = a => await a"),
        Err(ParseError::ContextViolation { keyword: Keyword::Await, position: at(1, 10, 9) })
    );
}

#[test]
fn in_is_no_operator_in_the_head_of_a_for() {
    assert_eq!(
        one("a in b"),
        bin(BinOp::Comp(CompOp::In), ident("a"), ident("b"))
    );
    assert_eq!(
        parse("for (a in b; ; ) c"),
        Err(ParseError::UnexpectedToken {
            found: TokenKind::Keyword(Keyword::In),
            expected: Expected::Punctuator(Punctuator::Semicolon),
            position: at(1, 8, 7),
        })
    );
    assert!(parse("for (a = (b in c); ; ) d").is_ok());
}

#[test]
fn each_error_has_its_kind() {
    assert_eq!(
        parse("a = )"),
        Err(ParseError::UnexpectedToken {
            found: TokenKind::Punctuator(Punctuator::CloseParen),
            expected: Expected::Expression,
            position: at(1, 5, 4),
        })
    );
    assert_eq!(
        parse("a +\n  "),
        Err(ParseError::UnexpectedEnd { expected: Expected::Expression, position: at(2, 3, 6) })
    );
    assert_eq!(
        parse("f(a"),
        Err(ParseError::UnexpectedEnd {
            expected: Expected::Either(Punctuator::Comma, Punctuator::CloseParen),
            position: at(1, 4, 3),
        })
    );
    assert_eq!(
        parse("{ a"),
        Err(ParseError::UnexpectedEnd {
            expected: Expected::Punctuator(Punctuator::CloseBlock),
            position: at(1, 4, 3),
        })
    );
    assert_eq!(
        parse("a; 'b"),
        Err(ParseError::Lex { kind: LexErrorKind::UnterminatedString, position: at(1, 4, 3) })
    );
    assert_eq!(
        parse("1 = a"),
        Err(ParseError::InvalidAssignmentTarget { position: at(1, 1, 0) })
    );
    assert_eq!(
        parse("x; a + b = c"),
        Err(ParseError::InvalidAssignmentTarget { position: at(1, 4, 3) })
    );
    assert_eq!(
        parse("f()++"),
        Err(ParseError::InvalidAssignmentTarget { position: at(1, 1, 0) })
    );
    assert_eq!(
        parse("++1"),
        Err(ParseError::InvalidAssignmentTarget { position: at(1, 3, 2) })
    );
    assert_eq!(
        parse("return 1"),
        Err(ParseError::ContextViolation { keyword: Keyword::Return, position: at(1, 1, 0) })
    );
    assert_eq!(
        parse("a = yield"),
        Err(ParseError::ContextViolation { keyword: Keyword::Yield, position: at(1, 5, 4) })
    );
    assert_eq!(
        parse("const a"),
        Err(ParseError::General { rule: Rule::ConstInitializer, position: at(1, 7, 6) })
    );
    assert_eq!(
        parse("function f(...a, b) {}"),
        Err(ParseError::General { rule: Rule::RestParameterLast, position: at(1, 16, 15) })
    );
    assert_eq!(
        parse("(a, b, a) => 1"),
        Err(ParseError::General { rule: Rule::DistinctParameters, position: at(1, 1, 0) })
    );
    assert_eq!(
        parse("throw\na"),
        Err(ParseError::General { rule: Rule::ThrowOperand, position: at(2, 1, 6) })
    );
    assert_eq!(
        parse("function () {}"),
        Err(ParseError::UnexpectedToken {
            found: TokenKind::Punctuator(Punctuator::OpenParen),
            expected: Expected::Identifier,
            position: at(1, 10, 9),
        })
    );
    assert_eq!(
        parse("switch (a) {}"),
        Err(ParseError::UnexpectedToken {
            found: TokenKind::Keyword(Keyword::Switch),
            expected: Expected::Expression,
            position: at(1, 1, 0),
        })
    );
}

#[test]
fn an_error_knows_its_position() {
    let e = parse("a;\n  b c").unwrap_err();
    assert_eq!(e.position(), at(2, 5, 7));
    assert_eq!(
        ParseError::unexpected(TokenKind::EndOfInput, at(1, 1, 0), Expected::Statement),
        ParseError::UnexpectedEnd { expected: Expected::Statement, position: at(1, 1, 0) }
    );
    assert_eq!(
        ParseError::unexpected(
            TokenKind::Invalid(LexErrorKind::InvalidCharacter),
            at(1, 1, 0),
            Expected::Statement
        ),
        ParseError::Lex { kind: LexErrorKind::InvalidCharacter, position: at(1, 1, 0) }
    );
}

#[test]
fn the_parser_hands_out_statements_one_by_one() {
    let mut parser = Parser::new("a; function f() {} b c; d".as_bytes());
    assert_eq!(parser.next(), Some(Ok(ident("a"))));
    assert!(matches!(parser.next(), Some(Ok(Node::FunctionDecl(..)))));
    assert_eq!(
        parser.next(),
        Some(Err(ParseError::UnexpectedToken {
            found: TokenKind::Identifier,
            expected: Expected::Terminator,
            position: at(1, 22, 21),
        }))
    );
    assert_eq!(parser.next(), None);
    assert_eq!(parser.next(), None);

    let mut parser = Parser::new("a".as_bytes());
    assert_eq!(parser.next(), Some(Ok(ident("a"))));
    assert_eq!(parser.next(), None);
    assert_eq!(parser.next(), None);
}

#[test]
fn script_and_script_body_parse_from_the_parser() {
    let mut parser = Parser::new("a; b".as_bytes());
    assert_eq!(Script.parse(&mut parser), Ok(StatementList::from(vec![ident("a"), ident("b")])));
    let mut parser = Parser::new("c".as_bytes());
    assert_eq!(ScriptBody.parse(&mut parser), Ok(StatementList::from(vec![ident("c")])));
    let mut parser = Parser::new("".as_bytes());
    assert_eq!(Script.parse(&mut parser), Ok(StatementList::from(vec![])));
}

#[test]
fn the_grammar_context_of_a_function_follows_its_kind() {
    let c = GrammarContext::function(FunctionKind::Generator);
    assert!(c.allow_yield && !c.allow_await && c.allow_in && c.allow_return && !c.allow_default);
    let c = GrammarContext::function(FunctionKind::Async);
    assert!(!c.allow_yield && c.allow_await && c.allow_in && c.allow_return);
    let outer = GrammarContext {
        allow_yield: true,
        allow_await: false,
        allow_in: false,
        allow_return: false,
        allow_default: true,
    };
    let c = outer.arrow();
    assert!(c.allow_yield && !c.allow_await && c.allow_in && c.allow_return && !c.allow_default);
    assert_eq!(outer.with_in(true), GrammarContext { allow_in: true, ..outer });
    assert_eq!(outer, GrammarContext { allow_in: false, ..outer });
    assert_eq!(
        GrammarContext::script(),
        GrammarContext {
            allow_yield: false,
            allow_await: false,
            allow_in: false,
            allow_return: false,
            allow_default: false
        }
    );
}

#[test]
fn a_function_declaration_may_be_unnamed_where_the_context_allows_it() {
    let ctx = GrammarContext { allow_default: true, ..GrammarContext::script() };
    let mut cursor = Cursor::new("function () {}".as_bytes());
    assert_eq!(
        parse_statement(&mut cursor, ctx),
        Ok(Node::FunctionDecl(
            FunctionKind::Normal,
            name("default"),
            vec![],
            StatementList::from(vec![])
        ))
    );
}

#[test]
fn a_missing_keyword_is_named() {
    assert_eq!(
        parse("do a; b"),
        Err(ParseError::UnexpectedToken {
            found: TokenKind::Identifier,
            expected: Expected::Keyword(Keyword::While),
            position: at(1, 7, 6),
        })
    );
    assert_eq!(
        parse("async a"),
        Err(ParseError::UnexpectedToken {
            found: TokenKind::Keyword(Keyword::Async),
            expected: Expected::Expression,
            position: at(1, 1, 0),
        })
    );
}

#[test]
fn a_lexing_failure_is_never_skipped() {
    for js in ["a; 'b", "/* open", "f(1e)", "a\n#", "x = /re", "'\\u0041'"] {
        assert!(matches!(parse(js), Err(ParseError::Lex { .. })), "for the script: {}", js);
    }
    // An error before the failure is reported first.
    assert!(matches!(parse("a b 'c"), Err(ParseError::UnexpectedToken { .. })));
}

#[test]
fn a_parsed_script_is_finished() {
    let mut parser = Parser::new("a; b".as_bytes());
    assert!(parser.parse_all().is_ok());
    assert_eq!(parser.next(), None);
}

fn method(n: &str, is_static: bool, params: Vec<FormalParameter>, body: Vec<Node>) -> ClassMethod {
    ClassMethod { name: name(n), is_static, params, body: StatementList::from(body) }
}

#[test]
fn a_class_declaration_has_a_name_and_methods() {
    assert_eq!(one("class A {}"), Node::ClassDecl(name("A"), None, vec![]));
    assert_eq!(
        one("class A { constructor(x) { this.x = x } get() { return this.x } }"),
        Node::ClassDecl(
            name("A"),
            None,
            vec![
                method(
                    "constructor",
                    false,
                    vec![FormalParameter { name: name("x"), init: None, is_rest: false }],
                    vec![Node::Assign(
                        Box::new(Node::GetConstField(Box::new(Node::This), name("x"))),
                        Box::new(ident("x")),
                    )],
                ),
                method(
                    "get",
                    false,
                    vec![],
                    vec![Node::Return(Some(Box::new(Node::GetConstField(
                        Box::new(Node::This),
                        name("x"),
                    ))))],
                ),
            ],
        )
    );
    assert_eq!(Node::class_decl(name("A"), None, vec![]), one("class A {}"));
    assert_eq!(
        ClassMethod::new(name("m"), true, vec![], StatementList::from(vec![])),
        method("m", true, vec![], vec![])
    );
}

#[test]
fn a_class_may_extend_a_left_hand_side_expression() {
    assert_eq!(
        one("class A extends B {}"),
        Node::ClassDecl(name("A"), Some(Box::new(ident("B"))), vec![])
    );
    assert_eq!(
        one("class A extends b.C { m() {} }"),
        Node::ClassDecl(
            name("A"),
            Some(Box::new(Node::GetConstField(Box::new(ident("b")), name("C")))),
            vec![method("m", false, vec![], vec![])],
        )
    );
    assert_eq!(
        one("class A extends mix(B) {}"),
        Node::ClassDecl(
            name("A"),
            Some(Box::new(Node::Call(Box::new(ident("mix")), vec![ident("B")]))),
            vec![],
        )
    );
}

#[test]
fn static_marks_a_method_only_before_a_name() {
    assert_eq!(
        one("class A { static make() {} static() {} ; m(a, ...b) {} ;; }"),
        Node::ClassDecl(
            name("A"),
            None,
            vec![
                method("make", true, vec![], vec![]),
                method("static", false, vec![], vec![]),
                method(
                    "m",
                    false,
                    vec![
                        FormalParameter { name: name("a"), init: None, is_rest: false },
                        FormalParameter { name: name("b"), init: None, is_rest: true },
                    ],
                    vec![],
                ),
            ],
        )
    );
    assert_eq!(
        one("class A { static static() {} }"),
        Node::ClassDecl(name("A"), None, vec![method("static", true, vec![], vec![])])
    );
}

#[test]
fn a_class_stands_among_the_other_statements() {
    let (first, second) = check_two("class A {} a");
    assert_eq!(first, Node::ClassDecl(name("A"), None, vec![]));
    assert_eq!(second, ident("a"));
    assert_eq!(
        one("if (a) class B {}"),
        Node::If(
            Box::new(ident("a")),
            Box::new(Node::ClassDecl(name("B"), None, vec![])),
            None,
        )
    );
    assert_eq!(
        one("{ class B {} }"),
        Node::Block(vec![Node::ClassDecl(name("B"), None, vec![])])
    );
}

#[test]
fn a_method_body_is_that_of_a_plain_function() {
    assert_eq!(
        one("function* g() { class A { m() { return 1 } } }"),
        Node::FunctionDecl(
            FunctionKind::Generator,
            name("g"),
            vec![],
            StatementList::from(vec![Node::ClassDecl(
                name("A"),
                None,
                vec![method("m", false, vec![], vec![Node::Return(Some(Box::new(num(1))))])],
            )]),
        )
    );
    assert_eq!(
        parse("function* g() { class A { m() { yield 1 } } }"),
        Err(ParseError::ContextViolation { keyword: Keyword::Yield, position: at(1, 33, 32) })
    );
}

#[test]
fn a_class_that_is_cut_short_is_an_error() {
    assert_eq!(
        parse("class {}"),
        Err(ParseError::UnexpectedToken {
            found: TokenKind::Punctuator(Punctuator::OpenBlock),
            expected: Expected::Identifier,
            position: at(1, 7, 6),
        })
    );
    assert_eq!(
        parse("class A"),
        Err(ParseError::UnexpectedEnd {
            expected: Expected::Punctuator(Punctuator::OpenBlock),
            position: at(1, 8, 7),
        })
    );
    assert!(parse("class A extends {}").is_err());
    assert!(parse("class A extends").is_err());
    assert_eq!(
        parse("class A { m {} }"),
        Err(ParseError::UnexpectedToken {
            found: TokenKind::Punctuator(Punctuator::OpenBlock),
            expected: Expected::Punctuator(Punctuator::OpenParen),
            position: at(1, 13, 12),
        })
    );
    assert_eq!(
        parse("class A { 1() {} }"),
        Err(ParseError::UnexpectedToken {
            found: TokenKind::NumericLiteral,
            expected: Expected::Identifier,
            position: at(1, 11, 10),
        })
    );
    assert_eq!(
        parse("class A { m() {}"),
        Err(ParseError::UnexpectedEnd { expected: Expected::Identifier, position: at(1, 17, 16) })
    );
    assert!(parse("class A { m( {} }").is_err());
    assert!(parse("class A { m() }").is_err());
}
