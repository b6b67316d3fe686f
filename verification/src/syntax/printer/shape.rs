//! Which trees the parser can build: the trees that come back from their
//! printed form.

use vstd::prelude::*;
use crate::syntax::ast::constant::{numeric_const, ConstV};
use crate::syntax::ast::node::{
    ClassMethodV, DeclarationV, FormalParameterV, NodeV, StatementListV,
};
use crate::syntax::ast::op::{BinOp, UnaryOp};
use crate::syntax::parser::function::has_duplicate_names;
use crate::syntax::parser::grammar::is_assignable;
use crate::syntax::parser::hoist::hoisted;
use crate::syntax::printer::form::is_declaration;

verus! {

/// Whether a literal writes the constant `c`: an integer is not negative,
/// and a number that is kept as text is no integer that fits.
pub open spec fn well_formed_const(c: ConstV) -> bool {
    match c {
        ConstV::Int(i) => i >= 0,
        ConstV::Num(raw) => numeric_const(raw) == ConstV::Num(raw),
        _ => true,
    }
}

/// Whether `op` is one of the four update operators.
pub open spec fn is_update(op: UnaryOp) -> bool {
    op == UnaryOp::IncrementPre || op == UnaryOp::DecrementPre || op == UnaryOp::IncrementPost
        || op == UnaryOp::DecrementPost
}

/// Whether `e` is an expression that the parser can build where `yield` is
/// an operator if and only if `y`, and `await` if and only if `a`.
pub open spec fn well_formed_expression(e: NodeV, y: bool, a: bool) -> bool
    decreases e, 0nat,
{
    match e {
        NodeV::Identifier(_) => true,
        NodeV::This => true,
        NodeV::Pattern(_, _) => true,
        NodeV::Const(c) => well_formed_const(c),
        NodeV::ArrayDecl(items) => well_formed_expressions(items, y, a),
        NodeV::UnaryOp(op, x) => well_formed_expression(*x, y, a) && (is_update(op)
            ==> is_assignable(*x)),
        NodeV::BinOp(op, l, r) => well_formed_expression(*l, y, a) && well_formed_expression(
            *r,
            y,
            a,
        ) && (op is Assign ==> is_assignable(*l)),
        NodeV::Assign(l, r) => well_formed_expression(*l, y, a) && well_formed_expression(
            *r,
            y,
            a,
        ) && is_assignable(*l),
        NodeV::ConditionalOp(c, p, q) => well_formed_expression(*c, y, a)
            && well_formed_expression(*p, y, a) && well_formed_expression(*q, y, a),
        NodeV::Call(f, args) => well_formed_expression(*f, y, a) && well_formed_expressions(
            args,
            y,
            a,
        ),
        NodeV::New(f, args) => well_formed_expression(*f, y, a) && well_formed_expressions(
            args,
            y,
            a,
        ),
        NodeV::GetConstField(o, _) => well_formed_expression(*o, y, a),
        NodeV::GetField(o, k) => well_formed_expression(*o, y, a) && well_formed_expression(
            *k,
            y,
            a,
        ),
        NodeV::Await(x) => a && well_formed_expression(*x, y, a),
        NodeV::Yield(x, delegate) => y && (match x {
            Some(x) => well_formed_expression(*x, y, a),
            None => !delegate,
        }),
        NodeV::FunctionExpr(kind, _, params, body) => well_formed_parameters(
            params,
            kind.spec_is_generator(),
            kind.spec_is_async(),
        ) && well_formed_body(body, kind.spec_is_generator(), kind.spec_is_async()),
        NodeV::ArrowFunctionDecl(params, body) => well_formed_parameters(params, y, a)
            && !has_duplicate_names(params) && well_formed_body(body, y, a),
        _ => false,
    }
}

/// Whether every one of `items` is a well-formed expression.
pub open spec fn well_formed_expressions(items: Seq<NodeV>, y: bool, a: bool) -> bool
    decreases items, 1nat,
{
    forall|i: int| 0 <= i < items.len() ==> well_formed_expression(#[trigger] items[i], y, a)
}

/// Whether `p` is a well-formed parameter: a rest parameter has no default
/// value, and a default value is a well-formed expression.
pub open spec fn well_formed_parameter(p: FormalParameterV, y: bool, a: bool) -> bool
    decreases p, 0nat,
{
    match p.init {
        Some(e) => !p.is_rest && well_formed_expression(e, y, a),
        None => true,
    }
}

/// Whether `params` is a well-formed parameter list: a rest parameter is
/// the last one.
pub open spec fn well_formed_parameters(params: Seq<FormalParameterV>, y: bool, a: bool) -> bool
    decreases params, 1nat,
{
    forall|i: int|
        0 <= i < params.len() ==> well_formed_parameter(#[trigger] params[i], y, a) && (
        params[i].is_rest ==> i == params.len() - 1)
}

/// Whether `body` is a well-formed function body: its statements are
/// well-formed where `return` is allowed, and it is hoisted.
pub open spec fn well_formed_body(body: StatementListV, y: bool, a: bool) -> bool
    decreases body, 4nat,
{
    &&& well_formed_statements(body.items, y, a, true)
    &&& body == hoisted(body.items)
}

/// Whether `d` is a well-formed binding; a binding of a `const`
/// declaration has a value.
pub open spec fn well_formed_binding(d: DeclarationV, y: bool, a: bool, constant: bool) -> bool
    decreases d, 0nat,
{
    match d.init {
        Some(e) => well_formed_expression(e, y, a),
        None => !constant,
    }
}

/// Whether `decls` are the bindings of a well-formed declaration: at least
/// one, each of them well-formed.
pub open spec fn well_formed_bindings(
    decls: Seq<DeclarationV>,
    y: bool,
    a: bool,
    constant: bool,
) -> bool
    decreases decls, 1nat,
{
    &&& decls.len() > 0
    &&& forall|i: int|
        0 <= i < decls.len() ==> well_formed_binding(#[trigger] decls[i], y, a, constant)
}

/// Whether `s` is a well-formed declaration.
pub open spec fn well_formed_declaration(s: NodeV, y: bool, a: bool) -> bool
    decreases s, 2nat,
{
    match s {
        NodeV::VarDeclList(decls) => well_formed_bindings(decls, y, a, false),
        NodeV::LetDeclList(decls) => well_formed_bindings(decls, y, a, false),
        NodeV::ConstDeclList(decls) => well_formed_bindings(decls, y, a, true),
        _ => false,
    }
}

/// Whether a statement ends with an `if` that has no `else`: an `else`
/// behind such a statement would be taken by that `if`.
pub open spec fn open_if(s: NodeV) -> bool
    decreases s,
{
    match s {
        NodeV::If(_, _, alternate) => match alternate {
            Some(b) => open_if(*b),
            None => true,
        },
        NodeV::WhileLoop(_, body) => open_if(*body),
        NodeV::ForLoop(_, _, _, body) => open_if(*body),
        _ => false,
    }
}

/// Whether `e` is a well-formed expression, where there is one.
pub open spec fn well_formed_optional(e: Option<Box<NodeV>>, y: bool, a: bool) -> bool
    decreases e, 1nat,
{
    match e {
        Some(e) => well_formed_expression(*e, y, a),
        None => true,
    }
}

/// Whether `m` is a well-formed method: its parameters and its body are
/// those of a plain function.
pub open spec fn well_formed_method(m: ClassMethodV) -> bool
    decreases m, 5nat,
{
    &&& well_formed_parameters(m.params, false, false)
    &&& well_formed_body(m.body, false, false)
}

/// Whether every one of `ms` is a well-formed method.
pub open spec fn well_formed_methods(ms: Seq<ClassMethodV>) -> bool
    decreases ms, 6nat,
{
    forall|i: int| 0 <= i < ms.len() ==> well_formed_method(#[trigger] ms[i])
}

/// Whether `s` is a statement that the parser can build where `yield` is an
/// operator if and only if `y`, `await` if and only if `a`, and `return` is
/// allowed if and only if `r`.
pub open spec fn well_formed_statement(s: NodeV, y: bool, a: bool, r: bool) -> bool
    decreases s, 3nat,
{
    match s {
        NodeV::Block(items) => well_formed_statements(items, y, a, r),
        NodeV::Empty => true,
        NodeV::Break => true,
        NodeV::Continue => true,
        NodeV::VarDeclList(_) => well_formed_declaration(s, y, a),
        NodeV::LetDeclList(_) => well_formed_declaration(s, y, a),
        NodeV::ConstDeclList(_) => well_formed_declaration(s, y, a),
        NodeV::If(c, consequent, alternate) => well_formed_expression(*c, y, a)
            && well_formed_statement(*consequent, y, a, r) && (match alternate {
            Some(b) => well_formed_statement(*b, y, a, r) && !open_if(*consequent),
            None => true,
        }),
        NodeV::WhileLoop(c, body) => well_formed_expression(*c, y, a) && well_formed_statement(
            *body,
            y,
            a,
            r,
        ),
        NodeV::DoWhileLoop(body, c) => well_formed_expression(*c, y, a) && well_formed_statement(
            *body,
            y,
            a,
            r,
        ),
        NodeV::ForLoop(init, c, step, body) => (match init {
            Some(i) => if is_declaration(*i) {
                well_formed_declaration(*i, y, a)
            } else {
                well_formed_expression(*i, y, a)
            },
            None => true,
        }) && well_formed_optional(c, y, a) && well_formed_optional(step, y, a)
            && well_formed_statement(*body, y, a, r),
        NodeV::Return(e) => r && well_formed_optional(e, y, a),
        NodeV::Throw(e) => well_formed_expression(*e, y, a),
        NodeV::FunctionDecl(kind, _, params, body) => well_formed_parameters(
            params,
            kind.spec_is_generator(),
            kind.spec_is_async(),
        ) && well_formed_body(body, kind.spec_is_generator(), kind.spec_is_async()),
        NodeV::ClassDecl(_, h, ms) => well_formed_optional(h, y, a) && well_formed_methods(ms),
        _ => well_formed_expression(s, y, a),
    }
}

/// Whether every one of `items` is a well-formed statement.
pub open spec fn well_formed_statements(items: Seq<NodeV>, y: bool, a: bool, r: bool) -> bool
    decreases items, 4nat,
{
    forall|i: int| 0 <= i < items.len() ==> well_formed_statement(#[trigger] items[i], y, a, r)
}

/// Whether `list` is a statement list that the parser can build for a
/// script.
pub open spec fn well_formed_script(list: StatementListV) -> bool {
    &&& well_formed_statements(list.items, false, false, false)
    &&& list == hoisted(list.items)
}

} // verus!
