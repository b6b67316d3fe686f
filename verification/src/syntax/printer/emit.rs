//! The printer itself: it writes the printed form of a tree, token by token.

use vstd::prelude::*;
use crate::syntax::ast::constant::Const;
use crate::syntax::ast::node::{
    declaration_views, method_views, node_views, parameter_views, ClassMethod, ClassMethodV,
    Declaration, DeclarationV, FormalParameter,
    FormalParameterV, Node, NodeV, StatementList,
};
use crate::syntax::ast::op::{
    AssignOp, BinOp, BitOp, CompOp, FunctionKind, LogOp, NumOp, UnaryOp,
};
use crate::syntax::ast::position::Position;
use crate::syntax::lexer::token::{
    copy_bytes, token_views, Keyword, Punctuator, Token, TokenKind, TokenV,
};
use crate::syntax::printer::form::{
    arguments, binding, bindings, heritage, method, methods, constant, declaration, digits, expression, for_init,
    function_head, is_declaration, keyword, name, optional, parameter, parameters, printed, punct,
    script, spec_assign_token, spec_binary_token, spec_unary_token, statement, statements, token,
};

verus! {

/// The list with one more expression prints as the list, a comma where the
/// list is not empty, and the expression.
pub proof fn lemma_arguments_push(items: Seq<NodeV>, e: NodeV)
    ensures
        arguments(items.push(e)) == arguments(items) + (if items.len() > 0 {
            punct(Punctuator::Comma)
        } else {
            Seq::empty()
        }) + expression(e),
    decreases items.len(),
{
    let all = items.push(e);
    if items.len() == 0 {
        assert(all[0] == e);
        assert(arguments(items) + Seq::<TokenV>::empty() + expression(e) =~= expression(e));
    } else {
        let rest = items.subrange(1, items.len() as int);
        assert(all.subrange(1, all.len() as int) =~= rest.push(e));
        assert(all[0] == items[0]);
        lemma_arguments_push(rest, e);
        if items.len() == 1 {
            assert(rest.len() == 0);
            assert(arguments(rest.push(e)) =~= expression(e));
            assert(expression(items[0]) + punct(Punctuator::Comma) + expression(e) =~= arguments(
                items,
            ) + punct(Punctuator::Comma) + expression(e));
        } else {
            assert(expression(items[0]) + punct(Punctuator::Comma) + (arguments(rest) + punct(
                Punctuator::Comma,
            ) + expression(e)) =~= (expression(items[0]) + punct(Punctuator::Comma) + arguments(
                rest,
            )) + punct(Punctuator::Comma) + expression(e));
        }
    }
}

/// The list with one more parameter prints as the list, a comma where the
/// list is not empty, and the parameter.
pub proof fn lemma_parameters_push(items: Seq<FormalParameterV>, p: FormalParameterV)
    ensures
        parameters(items.push(p)) == parameters(items) + (if items.len() > 0 {
            punct(Punctuator::Comma)
        } else {
            Seq::empty()
        }) + parameter(p),
    decreases items.len(),
{
    let all = items.push(p);
    if items.len() == 0 {
        assert(all[0] == p);
        assert(parameters(items) + Seq::<TokenV>::empty() + parameter(p) =~= parameter(p));
    } else {
        let rest = items.subrange(1, items.len() as int);
        assert(all.subrange(1, all.len() as int) =~= rest.push(p));
        assert(all[0] == items[0]);
        lemma_parameters_push(rest, p);
        if items.len() == 1 {
            assert(rest.len() == 0);
            assert(parameters(rest.push(p)) =~= parameter(p));
            assert(parameter(items[0]) + punct(Punctuator::Comma) + parameter(p) =~= parameters(
                items,
            ) + punct(Punctuator::Comma) + parameter(p));
        } else {
            assert(parameter(items[0]) + punct(Punctuator::Comma) + (parameters(rest) + punct(
                Punctuator::Comma,
            ) + parameter(p)) =~= (parameter(items[0]) + punct(Punctuator::Comma) + parameters(
                rest,
            )) + punct(Punctuator::Comma) + parameter(p));
        }
    }
}

/// The list with one more binding prints as the list, a comma where the list
/// is not empty, and the binding.
pub proof fn lemma_bindings_push(items: Seq<DeclarationV>, d: DeclarationV)
    ensures
        bindings(items.push(d)) == bindings(items) + (if items.len() > 0 {
            punct(Punctuator::Comma)
        } else {
            Seq::empty()
        }) + binding(d),
    decreases items.len(),
{
    let all = items.push(d);
    if items.len() == 0 {
        assert(all[0] == d);
        assert(bindings(items) + Seq::<TokenV>::empty() + binding(d) =~= binding(d));
    } else {
        let rest = items.subrange(1, items.len() as int);
        assert(all.subrange(1, all.len() as int) =~= rest.push(d));
        assert(all[0] == items[0]);
        lemma_bindings_push(rest, d);
        if items.len() == 1 {
            assert(rest.len() == 0);
            assert(bindings(rest.push(d)) =~= binding(d));
            assert(binding(items[0]) + punct(Punctuator::Comma) + binding(d) =~= bindings(items)
                + punct(Punctuator::Comma) + binding(d));
        } else {
            assert(binding(items[0]) + punct(Punctuator::Comma) + (bindings(rest) + punct(
                Punctuator::Comma,
            ) + binding(d)) =~= (binding(items[0]) + punct(Punctuator::Comma) + bindings(rest))
                + punct(Punctuator::Comma) + binding(d));
        }
    }
}

/// The list with one more statement prints as the list and the statement.
pub proof fn lemma_statements_push(items: Seq<NodeV>, s: NodeV)
    ensures
        statements(items.push(s)) == statements(items) + statement(s),
    decreases items.len(),
{
    let all = items.push(s);
    if items.len() == 0 {
        reveal_with_fuel(statements, 2);
        assert(all[0] == s);
        assert(all.subrange(1, all.len() as int) =~= Seq::<NodeV>::empty());
        assert(statement(s) + Seq::<TokenV>::empty() =~= Seq::<TokenV>::empty() + statement(s));
    } else {
        let rest = items.subrange(1, items.len() as int);
        assert(all.subrange(1, all.len() as int) =~= rest.push(s));
        assert(all[0] == items[0]);
        lemma_statements_push(rest, s);
        assert(statement(items[0]) + (statements(rest) + statement(s)) =~= (statement(items[0])
            + statements(rest)) + statement(s));
    }
}

/// The list with one more method prints as the list and the method.
pub proof fn lemma_methods_push(items: Seq<ClassMethodV>, m: ClassMethodV)
    ensures
        methods(items.push(m)) == methods(items) + method(m),
    decreases items.len(),
{
    let all = items.push(m);
    if items.len() == 0 {
        reveal_with_fuel(methods, 2);
        assert(all[0] == m);
        assert(all.subrange(1, all.len() as int) =~= Seq::<ClassMethodV>::empty());
        assert(method(m) + Seq::<TokenV>::empty() =~= Seq::<TokenV>::empty() + method(m));
    } else {
        let rest = items.subrange(1, items.len() as int);
        assert(all.subrange(1, all.len() as int) =~= rest.push(m));
        assert(all[0] == items[0]);
        lemma_methods_push(rest, m);
        assert(method(items[0]) + (methods(rest) + method(m)) =~= (method(items[0]) + methods(
            rest,
        )) + method(m));
    }
}

/// Writes one token.
pub fn push_token(out: &mut Vec<Token>, kind: TokenKind, text: Vec<u8>, flags: Vec<u8>)
    ensures
        token_views(final(out)@) == token_views(old(out)@) + seq![printed(kind, text@, flags@)],
{
    let ghost before = token_views(out@);
    let t = Token { kind, text, flags, position: Position::start(), end: 0, newline_before: false };
    let ghost tv = t@;
    out.push(t);
    assert(token_views(out@) =~= before + seq![tv]);
}

/// Writes a token without payload.
pub fn push_kind(out: &mut Vec<Token>, kind: TokenKind)
    ensures
        token_views(final(out)@) == token_views(old(out)@) + token(kind),
{
    push_token(out, kind, Vec::new(), Vec::new());
}

/// Writes a punctuator.
pub fn push_punct(out: &mut Vec<Token>, p: Punctuator)
    ensures
        token_views(final(out)@) == token_views(old(out)@) + punct(p),
{
    push_token(out, TokenKind::Punctuator(p), Vec::new(), Vec::new());
}

/// Writes a keyword.
pub fn push_keyword(out: &mut Vec<Token>, k: Keyword)
    ensures
        token_views(final(out)@) == token_views(old(out)@) + keyword(k),
{
    push_token(out, TokenKind::Keyword(k), Vec::new(), Vec::new());
}

/// Writes a name.
pub fn push_name(out: &mut Vec<Token>, n: &Vec<u8>)
    ensures
        token_views(final(out)@) == token_views(old(out)@) + name(n@),
{
    push_token(out, TokenKind::Identifier, copy_bytes(n), Vec::new());
}

/// The decimal digits of `n`.
pub fn digits_of(n: u32) -> (r: Vec<u8>)
    ensures
        r@ == digits(n as nat),
    decreases n,
{
    if n < 10 {
        let mut r: Vec<u8> = Vec::new();
        r.push(48 + n as u8);
        assert(r@ =~= digits(n as nat));
        r
    } else {
        let mut r = digits_of(n / 10);
        r.push(48 + (n % 10) as u8);
        r
    }
}

/// The token of a prefix operator.
pub fn unary_token(op: UnaryOp) -> (r: Option<TokenKind>)
    ensures
        r == spec_unary_token(op),
{
    match op {
        UnaryOp::Delete => Some(TokenKind::Keyword(Keyword::Delete)),
        UnaryOp::Void => Some(TokenKind::Keyword(Keyword::Void)),
        UnaryOp::TypeOf => Some(TokenKind::Keyword(Keyword::TypeOf)),
        UnaryOp::Plus => Some(TokenKind::Punctuator(Punctuator::Add)),
        UnaryOp::Minus => Some(TokenKind::Punctuator(Punctuator::Sub)),
        UnaryOp::Tilde => Some(TokenKind::Punctuator(Punctuator::Neg)),
        UnaryOp::Not => Some(TokenKind::Punctuator(Punctuator::Not)),
        _ => None,
    }
}

/// The token of a compound assignment operator.
pub fn assign_token(op: AssignOp) -> (r: TokenKind)
    ensures
        r == spec_assign_token(op),
{
    TokenKind::Punctuator(
        match op {
            AssignOp::Add => Punctuator::AssignAdd,
            AssignOp::Sub => Punctuator::AssignSub,
            AssignOp::Mul => Punctuator::AssignMul,
            AssignOp::Div => Punctuator::AssignDiv,
            AssignOp::Mod => Punctuator::AssignMod,
            AssignOp::Exp => Punctuator::AssignPow,
            AssignOp::And => Punctuator::AssignAnd,
            AssignOp::Or => Punctuator::AssignOr,
            AssignOp::Xor => Punctuator::AssignXor,
            AssignOp::Shl => Punctuator::AssignLeftSh,
            AssignOp::Shr => Punctuator::AssignRightSh,
            AssignOp::UShr => Punctuator::AssignURightSh,
        },
    )
}

/// The token of an operator with two operands.
pub fn binary_token(op: BinOp) -> (r: TokenKind)
    ensures
        r == spec_binary_token(op),
{
    match op {
        BinOp::Num(o) => TokenKind::Punctuator(
            match o {
                NumOp::Add => Punctuator::Add,
                NumOp::Sub => Punctuator::Sub,
                NumOp::Div => Punctuator::Div,
                NumOp::Mul => Punctuator::Mul,
                NumOp::Exp => Punctuator::Exp,
                NumOp::Mod => Punctuator::Mod,
            },
        ),
        BinOp::Bit(o) => TokenKind::Punctuator(
            match o {
                BitOp::And => Punctuator::And,
                BitOp::Or => Punctuator::Or,
                BitOp::Xor => Punctuator::Xor,
                BitOp::Shl => Punctuator::LeftSh,
                BitOp::Shr => Punctuator::RightSh,
                BitOp::UShr => Punctuator::URightSh,
            },
        ),
        BinOp::Comp(o) => match o {
            CompOp::Equal => TokenKind::Punctuator(Punctuator::Eq),
            CompOp::NotEqual => TokenKind::Punctuator(Punctuator::NotEq),
            CompOp::StrictEqual => TokenKind::Punctuator(Punctuator::StrictEq),
            CompOp::StrictNotEqual => TokenKind::Punctuator(Punctuator::StrictNotEq),
            CompOp::GreaterThan => TokenKind::Punctuator(Punctuator::GreaterThan),
            CompOp::GreaterThanOrEqual => TokenKind::Punctuator(Punctuator::GreaterThanOrEq),
            CompOp::LessThan => TokenKind::Punctuator(Punctuator::LessThan),
            CompOp::LessThanOrEqual => TokenKind::Punctuator(Punctuator::LessThanOrEq),
            CompOp::In => TokenKind::Keyword(Keyword::In),
            CompOp::InstanceOf => TokenKind::Keyword(Keyword::InstanceOf),
        },
        BinOp::Log(o) => TokenKind::Punctuator(
            match o {
                LogOp::And => Punctuator::BoolAnd,
                LogOp::Or => Punctuator::BoolOr,
            },
        ),
        BinOp::Assign(o) => assign_token(o),
        BinOp::Comma => TokenKind::Punctuator(Punctuator::Comma),
    }
}

/// Writes a constant.
pub fn emit_constant(c: &Const, out: &mut Vec<Token>)
    ensures
        token_views(final(out)@) == token_views(old(out)@) + constant(c@),
{
    match c {
        Const::String(s) => push_token(out, TokenKind::StringLiteral, copy_bytes(s), Vec::new()),
        Const::Num(raw) => push_token(out, TokenKind::NumericLiteral, copy_bytes(raw), Vec::new()),
        Const::Int(i) => {
            let n: u32 = if *i >= 0 {
                *i as u32
            } else {
                0
            };
            push_token(out, TokenKind::NumericLiteral, digits_of(n), Vec::new())
        },
        Const::Bool(b) => push_kind(out, TokenKind::BooleanLiteral(*b)),
        Const::Null => push_kind(out, TokenKind::NullLiteral),
    }
}

/// Writes the head of a function.
pub fn emit_function_head(kind: FunctionKind, out: &mut Vec<Token>)
    ensures
        token_views(final(out)@) == token_views(old(out)@) + function_head(kind),
{
    let ghost base = token_views(out@);
    if kind.is_async() {
        push_keyword(out, Keyword::Async);
    }
    push_keyword(out, Keyword::Function);
    if kind.is_generator() {
        push_punct(out, Punctuator::Mul);
    }
    assert(token_views(out@) =~= base + function_head(kind));
}

/// Writes an array literal.
#[verifier::spinoff_prover]
fn emit_array(node: &Node, out: &mut Vec<Token>)
    requires
        node is ArrayDecl,
    ensures
        token_views(final(out)@) == token_views(old(out)@) + expression(node@),
    decreases node, 0nat,
{
    proof {
        reveal(Node::model);
    }
    let ghost base = token_views(out@);
    match node {
        Node::ArrayDecl(items) => {
            assert(node@->ArrayDecl_0 =~= node_views(items@));
            push_punct(out, Punctuator::OpenBracket);
            emit_arguments(items, out);
            push_punct(out, Punctuator::CloseBracket);
            assert(token_views(out@) =~= base + expression(node@));
        },
        _ => {},
    }
}

/// Writes a function expression.
#[verifier::spinoff_prover]
fn emit_function_expression(node: &Node, out: &mut Vec<Token>)
    requires
        node is FunctionExpr,
    ensures
        token_views(final(out)@) == token_views(old(out)@) + expression(node@),
    decreases node, 0nat,
{
    proof {
        reveal(Node::model);
    }
    let ghost base = token_views(out@);
    match node {
        Node::FunctionExpr(kind, n, params, body) => {
            assert(node@->FunctionExpr_2 =~= parameter_views(params@));
            proof {
                body.lemma_items();
            }
            emit_function_head(*kind, out);
            match n {
                Some(n) => push_name(out, n),
                None => {},
            }
            push_punct(out, Punctuator::OpenParen);
            emit_parameters(params, out);
            push_punct(out, Punctuator::CloseParen);
            push_punct(out, Punctuator::OpenBlock);
            emit_statements(&body.items, out);
            push_punct(out, Punctuator::CloseBlock);
            assert(token_views(out@) =~= base + expression(node@));
        },
        _ => {},
    }
}

/// Writes an operator with one operand.
#[verifier::spinoff_prover]
fn emit_unary(node: &Node, out: &mut Vec<Token>)
    requires
        node is UnaryOp,
    ensures
        token_views(final(out)@) == token_views(old(out)@) + expression(node@),
    decreases node, 0nat,
{
    proof {
        reveal(Node::model);
    }
    let ghost base = token_views(out@);
    match node {
        Node::UnaryOp(op, x) => {
            push_punct(out, Punctuator::OpenParen);
            match op {
                UnaryOp::IncrementPre => {
                    push_punct(out, Punctuator::Inc);
                    emit_expression(x, out);
                },
                UnaryOp::DecrementPre => {
                    push_punct(out, Punctuator::Dec);
                    emit_expression(x, out);
                },
                UnaryOp::IncrementPost => {
                    emit_expression(x, out);
                    push_punct(out, Punctuator::Inc);
                },
                UnaryOp::DecrementPost => {
                    emit_expression(x, out);
                    push_punct(out, Punctuator::Dec);
                },
                _ => {
                    match unary_token(*op) {
                        Some(kind) => push_kind(out, kind),
                        None => {},
                    }
                    emit_expression(x, out);
                },
            }
            push_punct(out, Punctuator::CloseParen);
            assert(token_views(out@) =~= base + expression(node@));
        },
        _ => {},
    }
}

/// Writes an operator with two operands.
#[verifier::spinoff_prover]
fn emit_binary(node: &Node, out: &mut Vec<Token>)
    requires
        node is BinOp,
    ensures
        token_views(final(out)@) == token_views(old(out)@) + expression(node@),
    decreases node, 0nat,
{
    proof {
        reveal(Node::model);
    }
    let ghost base = token_views(out@);
    match node {
        Node::BinOp(op, l, r) => {
            push_punct(out, Punctuator::OpenParen);
            emit_expression(l, out);
            push_kind(out, binary_token(*op));
            emit_expression(r, out);
            push_punct(out, Punctuator::CloseParen);
            assert(token_views(out@) =~= base + expression(node@));
        },
        _ => {},
    }
}

/// Writes an assignment.
#[verifier::spinoff_prover]
fn emit_assign(node: &Node, out: &mut Vec<Token>)
    requires
        node is Assign,
    ensures
        token_views(final(out)@) == token_views(old(out)@) + expression(node@),
    decreases node, 0nat,
{
    proof {
        reveal(Node::model);
    }
    let ghost base = token_views(out@);
    match node {
        Node::Assign(l, r) => {
            push_punct(out, Punctuator::OpenParen);
            emit_expression(l, out);
            push_punct(out, Punctuator::Assign);
            emit_expression(r, out);
            push_punct(out, Punctuator::CloseParen);
            assert(token_views(out@) =~= base + expression(node@));
        },
        _ => {},
    }
}

/// Writes a conditional expression.
#[verifier::spinoff_prover]
fn emit_conditional(node: &Node, out: &mut Vec<Token>)
    requires
        node is ConditionalOp,
    ensures
        token_views(final(out)@) == token_views(old(out)@) + expression(node@),
    decreases node, 0nat,
{
    proof {
        reveal(Node::model);
    }
    let ghost base = token_views(out@);
    match node {
        Node::ConditionalOp(c, a, b) => {
            push_punct(out, Punctuator::OpenParen);
            emit_expression(c, out);
            push_punct(out, Punctuator::Question);
            emit_expression(a, out);
            push_punct(out, Punctuator::Colon);
            emit_expression(b, out);
            push_punct(out, Punctuator::CloseParen);
            assert(token_views(out@) =~= base + expression(node@));
        },
        _ => {},
    }
}

/// Writes a call.
#[verifier::spinoff_prover]
fn emit_call(node: &Node, out: &mut Vec<Token>)
    requires
        node is Call,
    ensures
        token_views(final(out)@) == token_views(old(out)@) + expression(node@),
    decreases node, 0nat,
{
    proof {
        reveal(Node::model);
    }
    let ghost base = token_views(out@);
    match node {
        Node::Call(f, args) => {
            assert(node@->Call_1 =~= node_views(args@));
            push_punct(out, Punctuator::OpenParen);
            emit_expression(f, out);
            push_punct(out, Punctuator::OpenParen);
            emit_arguments(args, out);
            push_punct(out, Punctuator::CloseParen);
            push_punct(out, Punctuator::CloseParen);
            assert(token_views(out@) =~= base + expression(node@));
        },
        _ => {},
    }
}

/// Writes a `new` expression.
#[verifier::spinoff_prover]
fn emit_new(node: &Node, out: &mut Vec<Token>)
    requires
        node is New,
    ensures
        token_views(final(out)@) == token_views(old(out)@) + expression(node@),
    decreases node, 0nat,
{
    proof {
        reveal(Node::model);
    }
    let ghost base = token_views(out@);
    match node {
        Node::New(f, args) => {
            assert(node@->New_1 =~= node_views(args@));
            push_punct(out, Punctuator::OpenParen);
            push_keyword(out, Keyword::New);
            emit_expression(f, out);
            push_punct(out, Punctuator::OpenParen);
            emit_arguments(args, out);
            push_punct(out, Punctuator::CloseParen);
            push_punct(out, Punctuator::CloseParen);
            assert(token_views(out@) =~= base + expression(node@));
        },
        _ => {},
    }
}

/// Writes a member access by name.
#[verifier::spinoff_prover]
fn emit_member(node: &Node, out: &mut Vec<Token>)
    requires
        node is GetConstField,
    ensures
        token_views(final(out)@) == token_views(old(out)@) + expression(node@),
    decreases node, 0nat,
{
    proof {
        reveal(Node::model);
    }
    let ghost base = token_views(out@);
    match node {
        Node::GetConstField(o, n) => {
            push_punct(out, Punctuator::OpenParen);
            emit_expression(o, out);
            push_punct(out, Punctuator::Dot);
            push_name(out, n);
            push_punct(out, Punctuator::CloseParen);
            assert(token_views(out@) =~= base + expression(node@));
        },
        _ => {},
    }
}

/// Writes a member access by key.
#[verifier::spinoff_prover]
fn emit_index(node: &Node, out: &mut Vec<Token>)
    requires
        node is GetField,
    ensures
        token_views(final(out)@) == token_views(old(out)@) + expression(node@),
    decreases node, 0nat,
{
    proof {
        reveal(Node::model);
    }
    let ghost base = token_views(out@);
    match node {
        Node::GetField(o, k) => {
            push_punct(out, Punctuator::OpenParen);
            emit_expression(o, out);
            push_punct(out, Punctuator::OpenBracket);
            emit_expression(k, out);
            push_punct(out, Punctuator::CloseBracket);
            push_punct(out, Punctuator::CloseParen);
            assert(token_views(out@) =~= base + expression(node@));
        },
        _ => {},
    }
}

/// Writes an `await` expression.
#[verifier::spinoff_prover]
fn emit_await(node: &Node, out: &mut Vec<Token>)
    requires
        node is Await,
    ensures
        token_views(final(out)@) == token_views(old(out)@) + expression(node@),
    decreases node, 0nat,
{
    proof {
        reveal(Node::model);
    }
    let ghost base = token_views(out@);
    match node {
        Node::Await(x) => {
            push_punct(out, Punctuator::OpenParen);
            push_keyword(out, Keyword::Await);
            emit_expression(x, out);
            push_punct(out, Punctuator::CloseParen);
            assert(token_views(out@) =~= base + expression(node@));
        },
        _ => {},
    }
}

/// Writes a `yield` expression.
#[verifier::spinoff_prover]
fn emit_yield(node: &Node, out: &mut Vec<Token>)
    requires
        node is Yield,
    ensures
        token_views(final(out)@) == token_views(old(out)@) + expression(node@),
    decreases node, 0nat,
{
    proof {
        reveal(Node::model);
    }
    let ghost base = token_views(out@);
    match node {
        Node::Yield(x, delegate) => {
            push_punct(out, Punctuator::OpenParen);
            push_keyword(out, Keyword::Yield);
            if *delegate {
                push_punct(out, Punctuator::Mul);
            }
            match x {
                Some(x) => emit_expression(x, out),
                None => {},
            }
            push_punct(out, Punctuator::CloseParen);
            assert(token_views(out@) =~= base + expression(node@));
        },
        _ => {},
    }
}

/// Writes an arrow function.
#[verifier::spinoff_prover]
fn emit_arrow(node: &Node, out: &mut Vec<Token>)
    requires
        node is ArrowFunctionDecl,
    ensures
        token_views(final(out)@) == token_views(old(out)@) + expression(node@),
    decreases node, 0nat,
{
    proof {
        reveal(Node::model);
    }
    let ghost base = token_views(out@);
    match node {
        Node::ArrowFunctionDecl(params, body) => {
            assert(node@->ArrowFunctionDecl_0 =~= parameter_views(params@));
            proof {
                body.lemma_items();
            }
            push_punct(out, Punctuator::OpenParen);
            push_punct(out, Punctuator::OpenParen);
            emit_parameters(params, out);
            push_punct(out, Punctuator::CloseParen);
            push_punct(out, Punctuator::Arrow);
            push_punct(out, Punctuator::OpenBlock);
            emit_statements(&body.items, out);
            push_punct(out, Punctuator::CloseBlock);
            push_punct(out, Punctuator::CloseParen);
            assert(token_views(out@) =~= base + expression(node@));
        },
        _ => {},
    }
}

/// Writes an expression.
#[verifier::spinoff_prover]
pub fn emit_expression(node: &Node, out: &mut Vec<Token>)
    ensures
        token_views(final(out)@) == token_views(old(out)@) + expression(node@),
    decreases node, 1nat,
{
    proof {
        reveal(Node::model);
    }
    let ghost base = token_views(out@);
    match node {
        Node::Identifier(n) => push_name(out, n),
        Node::This => push_keyword(out, Keyword::This),
        Node::Const(c) => emit_constant(c, out),
        Node::Pattern(body, flags) => push_token(
            out,
            TokenKind::PatternLiteral,
            copy_bytes(body),
            copy_bytes(flags),
        ),
        Node::ArrayDecl(_) => emit_array(node, out),
        Node::FunctionExpr(_, _, _, _) => emit_function_expression(node, out),
        Node::UnaryOp(_, _) => emit_unary(node, out),
        Node::BinOp(_, _, _) => emit_binary(node, out),
        Node::Assign(_, _) => emit_assign(node, out),
        Node::ConditionalOp(_, _, _) => emit_conditional(node, out),
        Node::Call(_, _) => emit_call(node, out),
        Node::New(_, _) => emit_new(node, out),
        Node::GetConstField(_, _) => emit_member(node, out),
        Node::GetField(_, _) => emit_index(node, out),
        Node::Await(_) => emit_await(node, out),
        Node::Yield(_, _) => emit_yield(node, out),
        Node::ArrowFunctionDecl(_, _) => emit_arrow(node, out),
        _ => {
            assert(token_views(out@) =~= base + expression(node@));
        },
    }
}

/// Writes a list of expressions.
#[verifier::spinoff_prover]
pub fn emit_arguments(items: &Vec<Node>, out: &mut Vec<Token>)
    ensures
        token_views(final(out)@) == token_views(old(out)@) + arguments(node_views(items@)),
    decreases items, 0nat,
{
    let ghost base = token_views(out@);
    let ghost all = node_views(items@);
    let mut i: usize = 0;
    assert(token_views(out@) =~= base + arguments(all.take(0)));
    while i < items.len()
        invariant
            i <= items@.len(),
            all == node_views(items@),
            token_views(out@) == base + arguments(all.take(i as int)),
        decreases items@.len() - i,
    {
        let ghost before = token_views(out@);
        if i > 0 {
            push_punct(out, Punctuator::Comma);
        }
        emit_expression(&items[i], out);
        proof {
            lemma_arguments_push(all.take(i as int), items@[i as int]@);
            assert(all.take(i as int).push(items@[i as int]@) =~= all.take(i + 1));
            assert(token_views(out@) =~= base + arguments(all.take(i + 1)));
        }
        i += 1;
    }
    assert(all.take(i as int) =~= all);
}

/// Writes a parameter list.
#[verifier::spinoff_prover]
pub fn emit_parameters(params: &Vec<FormalParameter>, out: &mut Vec<Token>)
    ensures
        token_views(final(out)@) == token_views(old(out)@) + parameters(parameter_views(params@)),
    decreases params, 0nat,
{
    let ghost base = token_views(out@);
    let ghost all = parameter_views(params@);
    let mut i: usize = 0;
    assert(token_views(out@) =~= base + parameters(all.take(0)));
    while i < params.len()
        invariant
            i <= params@.len(),
            all == parameter_views(params@),
            token_views(out@) == base + parameters(all.take(i as int)),
        decreases params@.len() - i,
    {
        let ghost before = token_views(out@);
        if i > 0 {
            push_punct(out, Punctuator::Comma);
        }
        let ghost mid = token_views(out@);
        let p = &params[i];
        if p.is_rest {
            push_punct(out, Punctuator::Spread);
            push_name(out, &p.name);
        } else {
            push_name(out, &p.name);
            match &p.init {
                Some(e) => {
                    push_punct(out, Punctuator::Assign);
                    emit_expression(e, out);
                },
                None => {},
            }
        }
        proof {
            assert(token_views(out@) =~= mid + parameter(p@));
            lemma_parameters_push(all.take(i as int), p@);
            assert(all.take(i as int).push(p@) =~= all.take(i + 1));
            assert(token_views(out@) =~= base + parameters(all.take(i + 1)));
        }
        i += 1;
    }
    assert(all.take(i as int) =~= all);
}

/// Writes the bindings of a declaration.
#[verifier::spinoff_prover]
pub fn emit_bindings(decls: &Vec<Declaration>, out: &mut Vec<Token>)
    ensures
        token_views(final(out)@) == token_views(old(out)@) + bindings(declaration_views(decls@)),
    decreases decls, 0nat,
{
    let ghost base = token_views(out@);
    let ghost all = declaration_views(decls@);
    let mut i: usize = 0;
    assert(token_views(out@) =~= base + bindings(all.take(0)));
    while i < decls.len()
        invariant
            i <= decls@.len(),
            all == declaration_views(decls@),
            token_views(out@) == base + bindings(all.take(i as int)),
        decreases decls@.len() - i,
    {
        if i > 0 {
            push_punct(out, Punctuator::Comma);
        }
        let ghost mid = token_views(out@);
        let d = &decls[i];
        push_name(out, &d.name);
        match &d.init {
            Some(e) => {
                push_punct(out, Punctuator::Assign);
                emit_expression(e, out);
            },
            None => {},
        }
        proof {
            assert(token_views(out@) =~= mid + binding(d@));
            lemma_bindings_push(all.take(i as int), d@);
            assert(all.take(i as int).push(d@) =~= all.take(i + 1));
            assert(token_views(out@) =~= base + bindings(all.take(i + 1)));
        }
        i += 1;
    }
    assert(all.take(i as int) =~= all);
}

/// Writes an expression, where there is one.
#[verifier::spinoff_prover]
pub fn emit_optional(e: &Option<Box<Node>>, out: &mut Vec<Token>)
    ensures
        token_views(final(out)@) == token_views(old(out)@) + optional(
            match e {
                Some(e) => Some(Box::new(e@)),
                None => None,
            },
        ),
    decreases e, 1nat,
{
    let ghost base = token_views(out@);
    match e {
        Some(e) => emit_expression(e, out),
        None => {
            assert(token_views(out@) =~= base + Seq::<TokenV>::empty());
        },
    }
}

/// Writes a declaration without the `;` that ends it as a statement.
#[verifier::spinoff_prover]
pub fn emit_declaration(node: &Node, out: &mut Vec<Token>)
    ensures
        token_views(final(out)@) == token_views(old(out)@) + declaration(node@),
    decreases node, 1nat,
{
    proof {
        reveal(Node::model);
    }
    let ghost base = token_views(out@);
    match node {
        Node::VarDeclList(decls) => {
            assert(node@->VarDeclList_0 =~= declaration_views(decls@));
            push_keyword(out, Keyword::Var);
            emit_bindings(decls, out);
            assert(token_views(out@) =~= base + declaration(node@));
        },
        Node::LetDeclList(decls) => {
            assert(node@->LetDeclList_0 =~= declaration_views(decls@));
            push_keyword(out, Keyword::Let);
            emit_bindings(decls, out);
            assert(token_views(out@) =~= base + declaration(node@));
        },
        Node::ConstDeclList(decls) => {
            assert(node@->ConstDeclList_0 =~= declaration_views(decls@));
            push_keyword(out, Keyword::Const);
            emit_bindings(decls, out);
            assert(token_views(out@) =~= base + declaration(node@));
        },
        _ => {
            assert(token_views(out@) =~= base + declaration(node@));
        },
    }
}

/// Whether a node is a declaration.
pub fn node_is_declaration(node: &Node) -> (r: bool)
    ensures
        r == is_declaration(node@),
{
    proof {
        reveal(Node::model);
    }
    match node {
        Node::VarDeclList(_) => true,
        Node::LetDeclList(_) => true,
        Node::ConstDeclList(_) => true,
        _ => false,
    }
}

/// Writes a block.
#[verifier::spinoff_prover]
fn emit_block(node: &Node, out: &mut Vec<Token>)
    requires
        node is Block,
    ensures
        token_views(final(out)@) == token_views(old(out)@) + statement(node@),
    decreases node, 2nat,
{
    proof {
        reveal(Node::model);
    }
    let ghost base = token_views(out@);
    match node {
        Node::Block(items) => {
            assert(node@->Block_0 =~= node_views(items@));
            push_punct(out, Punctuator::OpenBlock);
            emit_statements(items, out);
            push_punct(out, Punctuator::CloseBlock);
            assert(token_views(out@) =~= base + statement(node@));
        },
        _ => {},
    }
}

/// Writes an `if` statement.
#[verifier::spinoff_prover]
fn emit_if(node: &Node, out: &mut Vec<Token>)
    requires
        node is If,
    ensures
        token_views(final(out)@) == token_views(old(out)@) + statement(node@),
    decreases node, 2nat,
{
    proof {
        reveal(Node::model);
    }
    let ghost base = token_views(out@);
    match node {
        Node::If(c, a, b) => {
            push_keyword(out, Keyword::If);
            push_punct(out, Punctuator::OpenParen);
            emit_expression(c, out);
            push_punct(out, Punctuator::CloseParen);
            emit_statement(a, out);
            match b {
                Some(b) => {
                    push_keyword(out, Keyword::Else);
                    emit_statement(b, out);
                },
                None => {},
            }
            assert(token_views(out@) =~= base + statement(node@));
        },
        _ => {},
    }
}

/// Writes a `while` statement.
#[verifier::spinoff_prover]
fn emit_while(node: &Node, out: &mut Vec<Token>)
    requires
        node is WhileLoop,
    ensures
        token_views(final(out)@) == token_views(old(out)@) + statement(node@),
    decreases node, 2nat,
{
    proof {
        reveal(Node::model);
    }
    let ghost base = token_views(out@);
    match node {
        Node::WhileLoop(c, b) => {
            push_keyword(out, Keyword::While);
            push_punct(out, Punctuator::OpenParen);
            emit_expression(c, out);
            push_punct(out, Punctuator::CloseParen);
            emit_statement(b, out);
            assert(token_views(out@) =~= base + statement(node@));
        },
        _ => {},
    }
}

/// Writes a `do` statement.
#[verifier::spinoff_prover]
fn emit_do_while(node: &Node, out: &mut Vec<Token>)
    requires
        node is DoWhileLoop,
    ensures
        token_views(final(out)@) == token_views(old(out)@) + statement(node@),
    decreases node, 2nat,
{
    proof {
        reveal(Node::model);
    }
    let ghost base = token_views(out@);
    match node {
        Node::DoWhileLoop(b, c) => {
            push_keyword(out, Keyword::Do);
            emit_statement(b, out);
            push_keyword(out, Keyword::While);
            push_punct(out, Punctuator::OpenParen);
            emit_expression(c, out);
            push_punct(out, Punctuator::CloseParen);
            push_punct(out, Punctuator::Semicolon);
            assert(token_views(out@) =~= base + statement(node@));
        },
        _ => {},
    }
}

/// Writes the first part of the head of a `for` statement.
#[verifier::spinoff_prover]
fn emit_for_init(init: &Option<Box<Node>>, out: &mut Vec<Token>)
    ensures
        token_views(final(out)@) == token_views(old(out)@) + for_init(
            match init {
                Some(i) => Some(Box::new(i@)),
                None => None,
            },
        ),
    decreases init, 2nat,
{
    let ghost base = token_views(out@);
    match init {
        Some(i) => {
            if node_is_declaration(i) {
                emit_declaration(i, out);
            } else {
                emit_expression(i, out);
            }
        },
        None => {
            assert(token_views(out@) =~= base + Seq::<TokenV>::empty());
        },
    }
}

/// Tokens written behind tokens: the order in which they are put together
/// does not matter.
pub proof fn lemma_written(base: Seq<TokenV>, done: Seq<TokenV>, piece: Seq<TokenV>)
    ensures
        (base + done) + piece == base + (done + piece),
{
    assert((base + done) + piece =~= base + (done + piece));
}

/// Writes a `for` statement.
#[verifier::spinoff_prover]
fn emit_for(node: &Node, out: &mut Vec<Token>)
    requires
        node is ForLoop,
    ensures
        token_views(final(out)@) == token_views(old(out)@) + statement(node@),
    decreases node, 2nat,
{
    proof {
        reveal(Node::model);
    }
    let ghost base = token_views(out@);
    match node {
        Node::ForLoop(init, c, step, b) => {
            push_keyword(out, Keyword::For);
            let ghost d1 = keyword(Keyword::For);
            push_punct(out, Punctuator::OpenParen);
            let ghost d2 = d1 + punct(Punctuator::OpenParen);
            proof {
                lemma_written(base, d1, punct(Punctuator::OpenParen));
            }
            emit_for_init(init, out);
            let ghost d3 = d2 + for_init(node@->ForLoop_0);
            proof {
                lemma_written(base, d2, for_init(node@->ForLoop_0));
            }
            push_punct(out, Punctuator::Semicolon);
            let ghost d4 = d3 + punct(Punctuator::Semicolon);
            proof {
                lemma_written(base, d3, punct(Punctuator::Semicolon));
            }
            emit_optional(c, out);
            let ghost d5 = d4 + optional(node@->ForLoop_1);
            proof {
                lemma_written(base, d4, optional(node@->ForLoop_1));
            }
            push_punct(out, Punctuator::Semicolon);
            let ghost d6 = d5 + punct(Punctuator::Semicolon);
            proof {
                lemma_written(base, d5, punct(Punctuator::Semicolon));
            }
            emit_optional(step, out);
            let ghost d7 = d6 + optional(node@->ForLoop_2);
            proof {
                lemma_written(base, d6, optional(node@->ForLoop_2));
            }
            push_punct(out, Punctuator::CloseParen);
            let ghost d8 = d7 + punct(Punctuator::CloseParen);
            proof {
                lemma_written(base, d7, punct(Punctuator::CloseParen));
            }
            emit_statement(b, out);
            proof {
                lemma_written(base, d8, statement(b@));
            }
        },
        _ => {},
    }
}

/// Writes a `return` statement.
#[verifier::spinoff_prover]
fn emit_return(node: &Node, out: &mut Vec<Token>)
    requires
        node is Return,
    ensures
        token_views(final(out)@) == token_views(old(out)@) + statement(node@),
    decreases node, 2nat,
{
    proof {
        reveal(Node::model);
    }
    let ghost base = token_views(out@);
    match node {
        Node::Return(e) => {
            push_keyword(out, Keyword::Return);
            emit_optional(e, out);
            push_punct(out, Punctuator::Semicolon);
            assert(token_views(out@) =~= base + statement(node@));
        },
        _ => {},
    }
}

/// Writes a `throw` statement.
#[verifier::spinoff_prover]
fn emit_throw(node: &Node, out: &mut Vec<Token>)
    requires
        node is Throw,
    ensures
        token_views(final(out)@) == token_views(old(out)@) + statement(node@),
    decreases node, 2nat,
{
    proof {
        reveal(Node::model);
    }
    let ghost base = token_views(out@);
    match node {
        Node::Throw(e) => {
            push_keyword(out, Keyword::Throw);
            emit_expression(e, out);
            push_punct(out, Punctuator::Semicolon);
            assert(token_views(out@) =~= base + statement(node@));
        },
        _ => {},
    }
}

/// Writes a function declaration.
#[verifier::spinoff_prover]
fn emit_function_declaration(node: &Node, out: &mut Vec<Token>)
    requires
        node is FunctionDecl,
    ensures
        token_views(final(out)@) == token_views(old(out)@) + statement(node@),
    decreases node, 2nat,
{
    proof {
        reveal(Node::model);
    }
    let ghost base = token_views(out@);
    match node {
        Node::FunctionDecl(kind, n, params, body) => {
            assert(node@->FunctionDecl_2 =~= parameter_views(params@));
            proof {
                body.lemma_items();
            }
            emit_function_head(*kind, out);
            push_name(out, n);
            push_punct(out, Punctuator::OpenParen);
            emit_parameters(params, out);
            push_punct(out, Punctuator::CloseParen);
            push_punct(out, Punctuator::OpenBlock);
            emit_statements(&body.items, out);
            push_punct(out, Punctuator::CloseBlock);
            assert(token_views(out@) =~= base + statement(node@));
        },
        _ => {},
    }
}

/// Writes one method of a class.
#[verifier::spinoff_prover]
pub fn emit_method(m: &ClassMethod, out: &mut Vec<Token>)
    ensures
        token_views(final(out)@) == token_views(old(out)@) + method(m@),
    decreases m, 2nat,
{
    let ghost base = token_views(out@);
    proof {
        m.lemma_parts();
        m.body.lemma_items();
    }
    if m.is_static {
        push_token(
            out,
            TokenKind::Identifier,
            vstd::slice::slice_to_vec("static".as_bytes()),
            Vec::new(),
        );
    }
    push_name(out, &m.name);
    push_punct(out, Punctuator::OpenParen);
    emit_parameters(&m.params, out);
    push_punct(out, Punctuator::CloseParen);
    push_punct(out, Punctuator::OpenBlock);
    emit_statements(&m.body.items, out);
    push_punct(out, Punctuator::CloseBlock);
    assert(token_views(out@) =~= base + method(m@));
}

/// Writes the methods of a class.
#[verifier::spinoff_prover]
pub fn emit_methods(ms: &Vec<ClassMethod>, out: &mut Vec<Token>)
    ensures
        token_views(final(out)@) == token_views(old(out)@) + methods(method_views(ms@)),
    decreases ms, 3nat,
{
    let ghost base = token_views(out@);
    let ghost all = method_views(ms@);
    let mut i: usize = 0;
    assert(token_views(out@) =~= base + methods(all.take(0)));
    while i < ms.len()
        invariant
            i <= ms@.len(),
            all == method_views(ms@),
            token_views(out@) == base + methods(all.take(i as int)),
        decreases ms@.len() - i,
    {
        emit_method(&ms[i], out);
        proof {
            lemma_methods_push(all.take(i as int), ms@[i as int]@);
            assert(all.take(i as int).push(ms@[i as int]@) =~= all.take(i + 1));
            assert(token_views(out@) =~= base + methods(all.take(i + 1)));
        }
        i += 1;
    }
    assert(all.take(i as int) =~= all);
}

/// Writes a class declaration.
#[verifier::spinoff_prover]
fn emit_class(node: &Node, out: &mut Vec<Token>)
    requires
        node is ClassDecl,
    ensures
        token_views(final(out)@) == token_views(old(out)@) + statement(node@),
    decreases node, 4nat,
{
    proof {
        reveal(Node::model);
    }
    let ghost base = token_views(out@);
    match node {
        Node::ClassDecl(n, h, ms) => {
            assert(node@->ClassDecl_2 =~= method_views(ms@));
            push_keyword(out, Keyword::Class);
            push_name(out, n);
            let ghost mid = token_views(out@);
            match h {
                Some(h) => {
                    push_keyword(out, Keyword::Extends);
                    emit_expression(h, out);
                },
                None => {},
            }
            assert(token_views(out@) =~= mid + heritage(node@->ClassDecl_1));
            push_punct(out, Punctuator::OpenBlock);
            emit_methods(ms, out);
            push_punct(out, Punctuator::CloseBlock);
            assert(token_views(out@) =~= base + statement(node@));
        },
        _ => {},
    }
}

/// Writes a statement that is a declaration or an expression.
#[verifier::spinoff_prover]
fn emit_simple_statement(node: &Node, out: &mut Vec<Token>)
    requires
        !(node is Block),
        !(node is Empty),
        !(node is If),
        !(node is WhileLoop),
        !(node is DoWhileLoop),
        !(node is ForLoop),
        !(node is Return),
        !(node is Break),
        !(node is Continue),
        !(node is Throw),
        !(node is FunctionDecl),
        !(node is ClassDecl),
    ensures
        token_views(final(out)@) == token_views(old(out)@) + statement(node@),
    decreases node, 2nat,
{
    proof {
        reveal(Node::model);
    }
    let ghost base = token_views(out@);
    if node_is_declaration(node) {
        emit_declaration(node, out);
        push_punct(out, Punctuator::Semicolon);
        assert(token_views(out@) =~= base + statement(node@));
    } else {
        push_punct(out, Punctuator::OpenParen);
        emit_expression(node, out);
        push_punct(out, Punctuator::CloseParen);
        push_punct(out, Punctuator::Semicolon);
        assert(token_views(out@) =~= base + statement(node@));
    }
}

/// Writes a statement.
#[verifier::spinoff_prover]
pub fn emit_statement(node: &Node, out: &mut Vec<Token>)
    ensures
        token_views(final(out)@) == token_views(old(out)@) + statement(node@),
    decreases node, 5nat,
{
    proof {
        reveal(Node::model);
    }
    let ghost base = token_views(out@);
    match node {
        Node::Block(_) => emit_block(node, out),
        Node::Empty => push_punct(out, Punctuator::Semicolon),
        Node::If(_, _, _) => emit_if(node, out),
        Node::WhileLoop(_, _) => emit_while(node, out),
        Node::DoWhileLoop(_, _) => emit_do_while(node, out),
        Node::ForLoop(_, _, _, _) => emit_for(node, out),
        Node::Return(_) => emit_return(node, out),
        Node::Break => {
            push_keyword(out, Keyword::Break);
            push_punct(out, Punctuator::Semicolon);
            assert(token_views(out@) =~= base + statement(node@));
        },
        Node::Continue => {
            push_keyword(out, Keyword::Continue);
            push_punct(out, Punctuator::Semicolon);
            assert(token_views(out@) =~= base + statement(node@));
        },
        Node::Throw(_) => emit_throw(node, out),
        Node::FunctionDecl(_, _, _, _) => emit_function_declaration(node, out),
        Node::ClassDecl(_, _, _) => emit_class(node, out),
        _ => emit_simple_statement(node, out),
    }
}

/// Writes a list of statements.
#[verifier::spinoff_prover]
pub fn emit_statements(items: &Vec<Node>, out: &mut Vec<Token>)
    ensures
        token_views(final(out)@) == token_views(old(out)@) + statements(node_views(items@)),
    decreases items, 4nat,
{
    let ghost base = token_views(out@);
    let ghost all = node_views(items@);
    let mut i: usize = 0;
    assert(token_views(out@) =~= base + statements(all.take(0)));
    while i < items.len()
        invariant
            i <= items@.len(),
            all == node_views(items@),
            token_views(out@) == base + statements(all.take(i as int)),
        decreases items@.len() - i,
    {
        emit_statement(&items[i], out);
        proof {
            lemma_statements_push(all.take(i as int), items@[i as int]@);
            assert(all.take(i as int).push(items@[i as int]@) =~= all.take(i + 1));
            assert(token_views(out@) =~= base + statements(all.take(i + 1)));
        }
        i += 1;
    }
    assert(all.take(i as int) =~= all);
}

/// Prints a script: the tokens of its printed form, with the end of the
/// text.
pub fn print(list: &StatementList) -> (out: Vec<Token>)
    ensures
        token_views(out@) == script(list@),
{
    let mut out: Vec<Token> = Vec::new();
    assert(token_views(out@) =~= Seq::<TokenV>::empty());
    proof {
        list.lemma_items();
    }
    emit_statements(&list.items, &mut out);
    push_kind(&mut out, TokenKind::EndOfInput);
    assert(token_views(out@) =~= script(list@));
    out
}

} // verus!
