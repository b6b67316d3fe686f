//! Laws of the hoister: what holds of every statement list.

use vstd::prelude::*;
use crate::syntax::ast::node::NodeV;
use crate::syntax::parser::hoist::{
    declared_in, declared_in_all, distinct_without, function_declarations, function_names, hoisted,
    hoisted_order, other_statements, variable_names,
};

verus! {

/// The function declarations of two lists, one behind the other.
pub proof fn lemma_function_declarations_append(a: Seq<NodeV>, b: Seq<NodeV>)
    ensures
        function_declarations(a + b) == function_declarations(a) + function_declarations(b),
    decreases b.len(),
{
    if b.len() == 0 {
        assert(a + b =~= a);
        assert(function_declarations(a) + function_declarations(b) =~= function_declarations(a));
    } else {
        assert((a + b).drop_last() =~= a + b.drop_last());
        assert((a + b).last() == b.last());
        lemma_function_declarations_append(a, b.drop_last());
        if b.last() is FunctionDecl {
            assert((function_declarations(a) + function_declarations(b.drop_last())).push(
                b.last(),
            ) =~= function_declarations(a) + function_declarations(b.drop_last()).push(b.last()));
        }
    }
}

/// The other statements of two lists, one behind the other.
pub proof fn lemma_other_statements_append(a: Seq<NodeV>, b: Seq<NodeV>)
    ensures
        other_statements(a + b) == other_statements(a) + other_statements(b),
    decreases b.len(),
{
    if b.len() == 0 {
        assert(a + b =~= a);
        assert(other_statements(a) + other_statements(b) =~= other_statements(a));
    } else {
        assert((a + b).drop_last() =~= a + b.drop_last());
        assert((a + b).last() == b.last());
        lemma_other_statements_append(a, b.drop_last());
        if !(b.last() is FunctionDecl) {
            assert((other_statements(a) + other_statements(b.drop_last())).push(b.last())
                =~= other_statements(a) + other_statements(b.drop_last()).push(b.last()));
        }
    }
}

/// Among the function declarations of a list there are only function
/// declarations, and among its other statements there is none.
pub proof fn lemma_partition(items: Seq<NodeV>)
    ensures
        function_declarations(function_declarations(items)) == function_declarations(items),
        other_statements(function_declarations(items)) == Seq::<NodeV>::empty(),
        function_declarations(other_statements(items)) == Seq::<NodeV>::empty(),
        other_statements(other_statements(items)) == other_statements(items),
        function_declarations(items).len() + other_statements(items).len() == items.len(),
    decreases items.len(),
{
    if items.len() > 0 {
        lemma_partition(items.drop_last());
        let f = function_declarations(items.drop_last());
        let o = other_statements(items.drop_last());
        if items.last() is FunctionDecl {
            assert(f.push(items.last()).drop_last() =~= f);
        } else {
            assert(o.push(items.last()).drop_last() =~= o);
        }
    }
}

/// Hoisting keeps the order of the source: the statements that are no
/// function declarations stand in the hoisted list in the order in which
/// they stand in the source, and so do the function declarations. No
/// statement is lost or added, and hoisting a hoisted list changes nothing.
pub proof fn lemma_hoisting_keeps_source_order(items: Seq<NodeV>)
    ensures
        other_statements(hoisted_order(items)) == other_statements(items),
        function_declarations(hoisted_order(items)) == function_declarations(items),
        hoisted_order(items).len() == items.len(),
        hoisted_order(hoisted_order(items)) == hoisted_order(items),
        hoisted(items).items == hoisted_order(items),
{
    let f = function_declarations(items);
    let o = other_statements(items);
    lemma_partition(items);
    lemma_other_statements_append(f, o);
    lemma_function_declarations_append(f, o);
    assert(Seq::<NodeV>::empty() + o =~= o);
    assert(f + Seq::<NodeV>::empty() =~= f);
}

/// A list without function declarations adds no function name.
pub proof fn lemma_function_names_append_others(a: Seq<NodeV>, b: Seq<NodeV>)
    requires
        function_declarations(b) == Seq::<NodeV>::empty(),
    ensures
        function_names(a + b) == function_names(a),
    decreases b.len(),
{
    if b.len() == 0 {
        assert(a + b =~= a);
    } else {
        assert((a + b).drop_last() =~= a + b.drop_last());
        assert((a + b).last() == b.last());
        if b.last() is FunctionDecl {
            assert(function_declarations(b).len() > 0);
        }
        lemma_function_names_append_others(a, b.drop_last());
    }
}

/// The function names of a list are those of its function declarations.
pub proof fn lemma_function_names_of_declarations(items: Seq<NodeV>)
    ensures
        function_names(function_declarations(items)) == function_names(items),
    decreases items.len(),
{
    if items.len() > 0 {
        lemma_function_names_of_declarations(items.drop_last());
        if items.last() is FunctionDecl {
            let f = function_declarations(items.drop_last());
            assert(f.push(items.last()).drop_last() =~= f);
        }
    }
}

/// The name of every function that a list declares at its top level is
/// among its function names.
pub proof fn lemma_function_names_complete(items: Seq<NodeV>, i: int)
    requires
        0 <= i < items.len(),
        items[i] is FunctionDecl,
    ensures
        function_names(items).contains(items[i]->FunctionDecl_1),
    decreases items.len(),
{
    let rest = function_names(items.drop_last());
    if i == items.len() - 1 {
        let name = items.last()->FunctionDecl_1;
        if !rest.contains(name) {
            assert(rest.push(name)[rest.len() as int] == name);
        }
    } else {
        lemma_function_names_complete(items.drop_last(), i);
        let name = items[i]->FunctionDecl_1;
        assert(items.drop_last()[i] == items[i]);
        match items.last() {
            NodeV::FunctionDecl(_, other, _, _) => {
                if !rest.contains(other) {
                    let k = choose|k: int| 0 <= k < rest.len() && rest[k] == name;
                    assert(rest.push(other)[k] == name);
                }
            },
            _ => {},
        }
    }
}

/// Every function that a script declares at its top level is hoisted,
/// wherever its declaration stands: before or behind the statements that
/// call it. The hoisted function names do not depend on the order in which
/// the list is kept.
pub proof fn lemma_functions_are_hoisted(items: Seq<NodeV>, i: int)
    requires
        0 <= i < items.len(),
        items[i] is FunctionDecl,
    ensures
        hoisted(items).functions == function_names(items),
        hoisted(items).functions.contains(items[i]->FunctionDecl_1),
{
    lemma_partition(items);
    lemma_function_names_append_others(function_declarations(items), other_statements(items));
    lemma_function_names_of_declarations(items);
    lemma_function_names_complete(items, i);
}

/// The `var` names of two lists, one behind the other.
pub proof fn lemma_declared_in_all_append(a: Seq<NodeV>, b: Seq<NodeV>)
    ensures
        declared_in_all(a + b) == declared_in_all(a) + declared_in_all(b),
    decreases b.len(),
{
    if b.len() == 0 {
        assert(a + b =~= a);
        assert(declared_in_all(a) + declared_in_all(b) =~= declared_in_all(a));
    } else {
        assert((a + b).drop_last() =~= a + b.drop_last());
        assert((a + b).last() == b.last());
        lemma_declared_in_all_append(a, b.drop_last());
        assert((declared_in_all(a) + declared_in_all(b.drop_last())) + declared_in(b.last())
            =~= declared_in_all(a) + (declared_in_all(b.drop_last()) + declared_in(b.last())));
    }
}

/// A function declaration declares no `var` name of the list around it, so
/// the `var` names of a list are those of its other statements.
pub proof fn lemma_declared_in_others(items: Seq<NodeV>)
    ensures
        declared_in_all(function_declarations(items)) == Seq::<Seq<u8>>::empty(),
        declared_in_all(other_statements(items)) == declared_in_all(items),
    decreases items.len(),
{
    if items.len() > 0 {
        lemma_declared_in_others(items.drop_last());
        let f = function_declarations(items.drop_last());
        let o = other_statements(items.drop_last());
        if items.last() is FunctionDecl {
            assert(f.push(items.last()).drop_last() =~= f);
            assert(declared_in(items.last()) =~= Seq::<Seq<u8>>::empty());
            assert(declared_in_all(items.drop_last()) + Seq::<Seq<u8>>::empty()
                =~= declared_in_all(items.drop_last()));
            assert(Seq::<Seq<u8>>::empty() + Seq::<Seq<u8>>::empty() =~= Seq::<Seq<u8>>::empty());
        } else {
            assert(o.push(items.last()).drop_last() =~= o);
        }
    }
}

/// What `distinct_without` keeps: no name twice, no excluded name, and every
/// other name of the list.
pub proof fn lemma_distinct_without(names: Seq<Seq<u8>>, excluded: Seq<Seq<u8>>)
    ensures
        distinct_without(names, excluded).no_duplicates(),
        forall|n: Seq<u8>| #[trigger]
            distinct_without(names, excluded).contains(n) <==> (names.contains(n)
                && !excluded.contains(n)),
    decreases names.len(),
{
    let r = distinct_without(names, excluded);
    if names.len() == 0 {
    } else {
        let rest = distinct_without(names.drop_last(), excluded);
        let last = names.last();
        lemma_distinct_without(names.drop_last(), excluded);
        assert forall|n: Seq<u8>| #[trigger] r.contains(n) <==> (names.contains(n)
            && !excluded.contains(n)) by {
            if names.contains(n) {
                let k = choose|k: int| 0 <= k < names.len() && names[k] == n;
                if k < names.len() - 1 {
                    assert(names.drop_last()[k] == n);
                    assert(names.drop_last().contains(n));
                }
            }
            if names.drop_last().contains(n) {
                let k = choose|k: int| 0 <= k < names.len() - 1 && names.drop_last()[k] == n;
                assert(names[k] == n);
            }
            assert(names[names.len() - 1] == last);
            if !excluded.contains(last) && !rest.contains(last) {
                assert(r == rest.push(last));
                assert(r[rest.len() as int] == last);
                if rest.contains(n) {
                    let k = choose|k: int| 0 <= k < rest.len() && rest[k] == n;
                    assert(r[k] == n);
                }
                if r.contains(n) {
                    let k = choose|k: int| 0 <= k < r.len() && r[k] == n;
                    if k < rest.len() {
                        assert(rest[k] == n);
                    }
                }
            }
        }
    }
}

/// Hoisting is idempotent under repeated declaration: a `var` declaration
/// of a name that is declared before it changes nothing in the hoisted
/// variable names.
pub proof fn lemma_repeated_declaration(names: Seq<Seq<u8>>, excluded: Seq<Seq<u8>>, name: Seq<u8>)
    requires
        names.contains(name),
    ensures
        distinct_without(names.push(name), excluded) == distinct_without(names, excluded),
{
    lemma_distinct_without(names, excluded);
    assert(names.push(name).drop_last() =~= names);
}

/// The hoisted variable names of a statement list: each name that a `var`
/// declaration binds anywhere in the list, functions apart, is recorded
/// once, however often it is declared; a name that a function declaration
/// of the top level binds is not recorded, for there the function wins;
/// and the names do not depend on the order in which the list is kept.
pub proof fn lemma_variables_are_hoisted_once(items: Seq<NodeV>)
    ensures
        hoisted(items).variables == variable_names(items),
        hoisted(items).variables.no_duplicates(),
        forall|n: Seq<u8>| #[trigger]
            hoisted(items).variables.contains(n) <==> (declared_in_all(items).contains(n)
                && !hoisted(items).functions.contains(n)),
{
    let f = function_declarations(items);
    let o = other_statements(items);
    lemma_partition(items);
    lemma_function_names_append_others(f, o);
    lemma_function_names_of_declarations(items);
    lemma_declared_in_all_append(f, o);
    lemma_declared_in_others(items);
    assert(Seq::<Seq<u8>>::empty() + declared_in_all(items) =~= declared_in_all(items));
    lemma_distinct_without(declared_in_all(items), function_names(items));
}

} // verus!
