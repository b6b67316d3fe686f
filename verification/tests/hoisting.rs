//! Tests of the hoister.

use boa::syntax::ast::node::{Node, StatementList};
use boa::syntax::parser::hoist::{hoist, reorder};
use boa::syntax::parser::Parser;

fn parse(js: &str) -> StatementList {
    Parser::new(js.as_bytes()).parse_all().expect("failed to parse")
}

fn names(list: &[&str]) -> Vec<Vec<u8>> {
    list.iter().map(|s| s.as_bytes().to_vec()).collect()
}

fn is_function(n: &Node) -> bool {
    matches!(n, Node::FunctionDecl(..))
}

#[test]
fn a_function_declared_behind_its_call_is_hoisted() {
    let list = parse("f(); g(); function f() {} function g() {}");
    assert_eq!(list.functions, names(&["f", "g"]));
    assert!(list.variables.is_empty());
    assert_eq!(list.items.len(), 4);
    assert!(is_function(&list.items[0]));
    assert!(is_function(&list.items[1]));
    assert!(matches!(list.items[2], Node::Call(..)));
    assert!(matches!(list.items[3], Node::Call(..)));
}

#[test]
fn the_other_statements_keep_the_order_of_the_source() {
    let list = parse("a; function f() {} b; function g() {} c;");
    let others: Vec<&Node> = list.items.iter().filter(|n| !is_function(n)).collect();
    assert_eq!(
        others,
        vec![
            &Node::Identifier(b"a".to_vec()),
            &Node::Identifier(b"b".to_vec()),
            &Node::Identifier(b"c".to_vec()),
        ]
    );
    assert_eq!(list.functions, names(&["f", "g"]));
}

#[test]
fn a_variable_declared_twice_is_recorded_once() {
    let list = parse("var a; var b = 1, a = 2; var a;");
    assert_eq!(list.variables, names(&["a", "b"]));
    assert!(list.functions.is_empty());
}

#[test]
fn variables_of_nested_blocks_and_loops_are_recorded() {
    let list = parse(
        "if (x) { var a; } else var b; while (y) { var c; } do var d; while (z); \
         for (var e = 0; e < 1; e++) { { var f; } } let g; const h = 1;",
    );
    assert_eq!(list.variables, names(&["a", "b", "c", "d", "e", "f"]));
}

#[test]
fn a_function_wins_over_a_variable_of_its_name() {
    let list = parse("var f; var g; function f() {}");
    assert_eq!(list.functions, names(&["f"]));
    assert_eq!(list.variables, names(&["g"]));
}

#[test]
fn a_function_in_a_block_is_not_hoisted_past_the_block() {
    let list = parse("{ function f() {} } function g() {}");
    assert_eq!(list.functions, names(&["g"]));
    assert!(is_function(&list.items[0]));
    assert!(matches!(list.items[1], Node::Block(..)));
}

#[test]
fn the_variables_of_a_function_are_its_own() {
    let list = parse("function f() { var inner; function g() {} } var outer;");
    assert_eq!(list.variables, names(&["outer"]));
    assert_eq!(list.functions, names(&["f"]));
    match &list.items[0] {
        Node::FunctionDecl(_, _, _, body) => {
            assert_eq!(body.variables, names(&["inner"]));
            assert_eq!(body.functions, names(&["g"]));
        }
        other => panic!("not a function declaration: {:?}", other),
    }
}

#[test]
fn hoisting_a_hoisted_list_changes_nothing() {
    let list = parse("a; function f() {} var v; function g() {} b;");
    let StatementList { items, functions, variables } = list;
    let again = hoist(items);
    assert_eq!(again.functions, functions);
    assert_eq!(again.variables, variables);
    assert_eq!(again.items.len(), 5);
    assert!(is_function(&again.items[0]));
    assert!(is_function(&again.items[1]));
    assert_eq!(again.items[2], Node::Identifier(b"a".to_vec()));
}

#[test]
fn reordering_an_empty_list_gives_an_empty_list() {
    assert!(reorder(Vec::new()).is_empty());
    let list = StatementList::from(Vec::new());
    assert!(list.items.is_empty() && list.functions.is_empty() && list.variables.is_empty());
}

#[test]
fn a_class_is_no_hoisted_function_and_keeps_its_place() {
    let list = parse("a; class A { m() { var x } } function f() {}");
    assert_eq!(list.functions, names(&["f"]));
    assert!(list.variables.is_empty());
    assert_eq!(list.items.len(), 3);
    assert!(is_function(&list.items[0]));
    assert_eq!(list.items[1], Node::Identifier(b"a".to_vec()));
    assert!(matches!(list.items[2], Node::ClassDecl(..)));
}
