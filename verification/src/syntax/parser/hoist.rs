//! The hoister: which names of a statement list are bound before its first
//! statement runs, and the order in which the statements are kept.

use vstd::prelude::*;
use crate::syntax::ast::node::{
    declaration_views, lemma_node_views_push, name_views, node_views, DeclarationV, Node, NodeV,
    StatementList, StatementListV,
};
use crate::syntax::lexer::bytes::bytes_eq;
use crate::syntax::lexer::token::copy_bytes;

verus! {

/// The function declarations among `items`, in their order.
pub open spec fn function_declarations(items: Seq<NodeV>) -> Seq<NodeV>
    decreases items.len(),
{
    if items.len() == 0 {
        Seq::empty()
    } else if items.last() is FunctionDecl {
        function_declarations(items.drop_last()).push(items.last())
    } else {
        function_declarations(items.drop_last())
    }
}

/// The statements among `items` that are no function declarations, in their
/// order.
pub open spec fn other_statements(items: Seq<NodeV>) -> Seq<NodeV>
    decreases items.len(),
{
    if items.len() == 0 {
        Seq::empty()
    } else if items.last() is FunctionDecl {
        other_statements(items.drop_last())
    } else {
        other_statements(items.drop_last()).push(items.last())
    }
}

/// The order in which a statement list keeps `items`: the function
/// declarations first, the other statements behind them, each group in the
/// order of the source.
pub open spec fn hoisted_order(items: Seq<NodeV>) -> Seq<NodeV> {
    function_declarations(items) + other_statements(items)
}

/// `names`, with `name` at the end unless it is among them.
pub open spec fn with_name(names: Seq<Seq<u8>>, name: Seq<u8>) -> Seq<Seq<u8>> {
    if names.contains(name) {
        names
    } else {
        names.push(name)
    }
}

/// The names of the functions that `items` declares at their top level, each
/// once, in the order of their first declaration.
pub open spec fn function_names(items: Seq<NodeV>) -> Seq<Seq<u8>>
    decreases items.len(),
{
    if items.len() == 0 {
        Seq::empty()
    } else {
        match items.last() {
            NodeV::FunctionDecl(_, name, _, _) => with_name(
                function_names(items.drop_last()),
                name,
            ),
            _ => function_names(items.drop_last()),
        }
    }
}

/// The names that the bindings `decls` bind, in their order.
pub open spec fn declaration_names(decls: Seq<DeclarationV>) -> Seq<Seq<u8>>
    decreases decls.len(),
{
    if decls.len() == 0 {
        Seq::empty()
    } else {
        declaration_names(decls.drop_last()).push(decls.last().name)
    }
}

/// Every name that a `var` declaration binds in `node`, in the order of the
/// source and as often as it is declared. Blocks, branches and loop bodies
/// are searched; functions are not: their declarations are their own.
pub open spec fn declared_in(node: NodeV) -> Seq<Seq<u8>>
    decreases node,
{
    match node {
        NodeV::VarDeclList(decls) => declaration_names(decls),
        NodeV::Block(items) => declared_in_all(items),
        NodeV::If(_, consequent, alternate) => declared_in(*consequent) + (match alternate {
            Some(a) => declared_in(*a),
            None => Seq::empty(),
        }),
        NodeV::WhileLoop(_, body) => declared_in(*body),
        NodeV::DoWhileLoop(body, _) => declared_in(*body),
        NodeV::ForLoop(init, _, _, body) => (match init {
            Some(i) => declared_in(*i),
            None => Seq::empty(),
        }) + declared_in(*body),
        _ => Seq::empty(),
    }
}

/// Every name that a `var` declaration binds in `items`.
pub open spec fn declared_in_all(items: Seq<NodeV>) -> Seq<Seq<u8>>
    decreases items,
{
    if items.len() == 0 {
        Seq::empty()
    } else {
        declared_in_all(items.drop_last()) + declared_in(items.last())
    }
}

/// The names among `names` that are not `excluded`, each once, in the order
/// of their first occurrence.
pub open spec fn distinct_without(names: Seq<Seq<u8>>, excluded: Seq<Seq<u8>>) -> Seq<Seq<u8>>
    decreases names.len(),
{
    if names.len() == 0 {
        Seq::empty()
    } else if excluded.contains(names.last()) {
        distinct_without(names.drop_last(), excluded)
    } else {
        with_name(distinct_without(names.drop_last(), excluded), names.last())
    }
}

/// The names that `var` declarations anywhere in `items` bind, each once. A
/// name that a function declaration of the top level binds is left out:
/// there the function wins.
pub open spec fn variable_names(items: Seq<NodeV>) -> Seq<Seq<u8>> {
    distinct_without(declared_in_all(items), function_names(items))
}

/// The statement list that holds `items` as they stand, with the names that
/// they hoist.
pub open spec fn listed(items: Seq<NodeV>) -> StatementListV {
    StatementListV {
        items,
        functions: function_names(items),
        variables: variable_names(items),
    }
}

/// The statement list that the statements `items`, in the order of the
/// source, make: the function declarations move to the front.
pub open spec fn hoisted(items: Seq<NodeV>) -> StatementListV {
    listed(hoisted_order(items))
}

/// Whether `name` is among `names`.
pub fn contains_name(names: &Vec<Vec<u8>>, name: &Vec<u8>) -> (r: bool)
    ensures
        r == name_views(names@).contains(name@),
{
    let mut i: usize = 0;
    while i < names.len()
        invariant
            i <= names@.len(),
            forall|j: int| 0 <= j < i ==> name_views(names@)[j] != name@,
        decreases names@.len() - i,
    {
        if bytes_eq(names[i].as_slice(), name.as_slice()) {
            assert(name_views(names@)[i as int] == name@);
            return true;
        }
        i += 1;
    }
    false
}

/// Puts `name` at the end of `names` unless it is among them.
pub fn add_name(names: &mut Vec<Vec<u8>>, name: Vec<u8>)
    ensures
        name_views(final(names)@) == with_name(name_views(old(names)@), name@),
{
    if !contains_name(names, &name) {
        let ghost before = name_views(names@);
        let ghost nv = name@;
        names.push(name);
        assert(name_views(names@) =~= before.push(nv));
    }
}

/// The names of the functions that `items` declares at their top level.
pub fn collect_function_names(items: &Vec<Node>) -> (names: Vec<Vec<u8>>)
    ensures
        name_views(names@) == function_names(node_views(items@)),
{
    let mut names: Vec<Vec<u8>> = Vec::new();
    let mut i: usize = 0;
    assert(name_views(names@) =~= Seq::<Seq<u8>>::empty());
    while i < items.len()
        invariant
            i <= items@.len(),
            name_views(names@) == function_names(node_views(items@).take(i as int)),
        decreases items@.len() - i,
    {
        proof {
            reveal(Node::model);
            let next = node_views(items@).take(i + 1);
            assert(next.drop_last() =~= node_views(items@).take(i as int));
            assert(next.last() == items@[i as int]@);
        }
        match &items[i] {
            Node::FunctionDecl(_, name, _, _) => {
                add_name(&mut names, copy_bytes(name));
            },
            _ => {},
        }
        i += 1;
    }
    assert(node_views(items@).take(i as int) =~= node_views(items@));
    names
}

/// Appends to `out` every name that a `var` declaration binds in `node`.
pub fn collect_declared(node: &Node, out: &mut Vec<Vec<u8>>)
    ensures
        name_views(final(out)@) == name_views(old(out)@) + declared_in(node@),
    decreases node,
{
    let ghost base = name_views(out@);
    proof {
        reveal(Node::model);
    }
    match node {
        Node::VarDeclList(decls) => {
            let mut i: usize = 0;
            assert(node@->VarDeclList_0 =~= declaration_views(decls@));
            assert(name_views(out@) =~= base + Seq::<Seq<u8>>::empty());
            while i < decls.len()
                invariant
                    i <= decls@.len(),
                    name_views(out@) == base + declaration_names(
                        declaration_views(decls@).take(i as int),
                    ),
                decreases decls@.len() - i,
            {
                let ghost before = name_views(out@);
                let name = copy_bytes(&decls[i].name);
                out.push(name);
                proof {
                    let next = declaration_views(decls@).take(i + 1);
                    let prev = declaration_views(decls@).take(i as int);
                    assert(next.drop_last() =~= prev);
                    assert(next.last() == decls@[i as int]@);
                    assert(name_views(out@) =~= before.push(decls@[i as int]@.name));
                    assert(name_views(out@) =~= base + declaration_names(next));
                }
                i += 1;
            }
            assert(declaration_views(decls@).take(i as int) =~= declaration_views(decls@));
        },
        Node::Block(items) => {
            assert(node@->Block_0 =~= node_views(items@));
            collect_declared_all(items, out);
        },
        Node::If(_, consequent, alternate) => {
            collect_declared(consequent, out);
            match alternate {
                Some(a) => {
                    collect_declared(a, out);
                    assert(name_views(out@) =~= base + (declared_in(consequent@) + declared_in(
                        a@,
                    )));
                },
                None => {
                    assert(name_views(out@) =~= base + (declared_in(consequent@) + Seq::<
                        Seq<u8>,
                    >::empty()));
                },
            }
        },
        Node::WhileLoop(_, body) => {
            collect_declared(body, out);
        },
        Node::DoWhileLoop(body, _) => {
            collect_declared(body, out);
        },
        Node::ForLoop(init, _, _, body) => {
            match init {
                Some(i) => {
                    collect_declared(i, out);
                    collect_declared(body, out);
                    assert(name_views(out@) =~= base + (declared_in(i@) + declared_in(body@)));
                },
                None => {
                    collect_declared(body, out);
                    assert(name_views(out@) =~= base + (Seq::<Seq<u8>>::empty() + declared_in(
                        body@,
                    )));
                },
            }
        },
        _ => {
            assert(name_views(out@) =~= base + Seq::<Seq<u8>>::empty());
        },
    }
}

/// Appends to `out` every name that a `var` declaration binds in `items`.
pub fn collect_declared_all(items: &Vec<Node>, out: &mut Vec<Vec<u8>>)
    ensures
        name_views(final(out)@) == name_views(old(out)@) + declared_in_all(node_views(items@)),
    decreases items,
{
    let ghost base = name_views(out@);
    let mut i: usize = 0;
    assert(name_views(out@) =~= base + Seq::<Seq<u8>>::empty());
    while i < items.len()
        invariant
            i <= items@.len(),
            name_views(out@) == base + declared_in_all(node_views(items@).take(i as int)),
        decreases items@.len() - i,
    {
        let ghost before = name_views(out@);
        collect_declared(&items[i], out);
        proof {
            let next = node_views(items@).take(i + 1);
            let prev = node_views(items@).take(i as int);
            assert(next.drop_last() =~= prev);
            assert(next.last() == items@[i as int]@);
            assert(name_views(out@) =~= base + (declared_in_all(prev) + declared_in(
                items@[i as int]@,
            )));
        }
        i += 1;
    }
    assert(node_views(items@).take(i as int) =~= node_views(items@));
}

/// The names among `names` that are not `excluded`, each once.
pub fn distinct_names_without(names: &Vec<Vec<u8>>, excluded: &Vec<Vec<u8>>) -> (r: Vec<Vec<u8>>)
    ensures
        name_views(r@) == distinct_without(name_views(names@), name_views(excluded@)),
{
    let mut r: Vec<Vec<u8>> = Vec::new();
    let mut i: usize = 0;
    assert(name_views(r@) =~= Seq::<Seq<u8>>::empty());
    while i < names.len()
        invariant
            i <= names@.len(),
            name_views(r@) == distinct_without(
                name_views(names@).take(i as int),
                name_views(excluded@),
            ),
        decreases names@.len() - i,
    {
        proof {
            let next = name_views(names@).take(i + 1);
            assert(next.drop_last() =~= name_views(names@).take(i as int));
            assert(next.last() == names@[i as int]@);
        }
        if !contains_name(excluded, &names[i]) {
            add_name(&mut r, copy_bytes(&names[i]));
        }
        i += 1;
    }
    assert(name_views(names@).take(i as int) =~= name_views(names@));
    r
}

impl StatementList {
    /// The statement list that holds `items` as they stand, with the names
    /// that they hoist.
    pub fn from(items: Vec<Node>) -> (list: StatementList)
        ensures
            list@ == listed(node_views(items@)),
    {
        let functions = collect_function_names(&items);
        let mut declared: Vec<Vec<u8>> = Vec::new();
        assert(name_views(declared@) =~= Seq::<Seq<u8>>::empty());
        collect_declared_all(&items, &mut declared);
        assert(name_views(declared@) =~= declared_in_all(node_views(items@)));
        let variables = distinct_names_without(&declared, &functions);
        let list = StatementList { items, functions, variables };
        proof {
            list.lemma_items();
        }
        list
    }
}

/// Puts the function declarations among `items` in front of the other
/// statements, each group in its order.
pub fn reorder(items: Vec<Node>) -> (r: Vec<Node>)
    ensures
        node_views(r@) == hoisted_order(node_views(items@)),
{
    let ghost all = node_views(items@);
    let mut functions: Vec<Node> = Vec::new();
    let mut others: Vec<Node> = Vec::new();
    assert(node_views(functions@) =~= Seq::<NodeV>::empty());
    assert(node_views(others@) =~= Seq::<NodeV>::empty());
    let ghost given = items@;
    let mut items = items;
    let mut i: usize = 0;
    while i < items.len()
        invariant
            i <= items@.len(),
            items@.len() == given.len(),
            all == node_views(given),
            forall|j: int| i <= j < given.len() ==> items@[j] == given[j],
            node_views(functions@) == function_declarations(all.take(i as int)),
            node_views(others@) == other_statements(all.take(i as int)),
        decreases items@.len() - i,
    {
        let mut node = Node::Empty;
        core::mem::swap(&mut items[i], &mut node);
        proof {
            let next = all.take(i + 1);
            assert(next.drop_last() =~= all.take(i as int));
            assert(next.last() == node@);
        }
        let is_function = node.is_function_declaration();
        if is_function {
            proof {
                lemma_node_views_push(functions@, node);
            }
            functions.push(node);
        } else {
            proof {
                lemma_node_views_push(others@, node);
            }
            others.push(node);
        }
        i += 1;
    }
    proof {
        assert(all.take(all.len() as int) =~= all);
    }
    let ghost f = functions@;
    let ghost o = others@;
    functions.append(&mut others);
    assert(node_views(functions@) =~= node_views(f) + node_views(o));
    functions
}

/// Hoists the declarations of a parsed statement list: the function
/// declarations move to the front, and the names that are bound before the
/// first statement runs are recorded.
pub fn hoist(items: Vec<Node>) -> (list: StatementList)
    ensures
        list@ == hoisted(node_views(items@)),
{
    StatementList::from(reorder(items))
}

} // verus!
