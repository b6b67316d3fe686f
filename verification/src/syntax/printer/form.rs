//! The printed form of a syntax tree, as a specification.

use vstd::prelude::*;
use crate::syntax::ast::constant::ConstV;
use crate::syntax::ast::node::{
    ClassMethodV, DeclarationV, FormalParameterV, NodeV, StatementListV,
};
use crate::syntax::parser::class::static_word;
use crate::syntax::ast::op::{
    AssignOp, BinOp, BitOp, CompOp, FunctionKind, LogOp, NumOp, UnaryOp,
};
use crate::syntax::ast::position::Position;
use crate::syntax::lexer::token::{Keyword, Punctuator, TokenKind, TokenV};

verus! {

/// A printed token of the given kind with the given payload. It stands at
/// no place of a text and follows no line break.
pub open spec fn printed(kind: TokenKind, text: Seq<u8>, flags: Seq<u8>) -> TokenV {
    TokenV {
        kind,
        text,
        flags,
        position: Position { line: 1, column: 1, offset: 0 },
        end: 0,
        newline_before: false,
    }
}

/// The printed punctuator `p`.
pub open spec fn punct(p: Punctuator) -> Seq<TokenV> {
    seq![printed(TokenKind::Punctuator(p), Seq::empty(), Seq::empty())]
}

/// The printed keyword `k`.
pub open spec fn keyword(k: Keyword) -> Seq<TokenV> {
    seq![printed(TokenKind::Keyword(k), Seq::empty(), Seq::empty())]
}

/// The printed name `n`.
pub open spec fn name(n: Seq<u8>) -> Seq<TokenV> {
    seq![printed(TokenKind::Identifier, n, Seq::empty())]
}

/// The decimal digits of `n`.
pub open spec fn digits(n: nat) -> Seq<u8>
    decreases n,
{
    if n < 10 {
        seq![(48 + n) as u8]
    } else {
        digits(n / 10).push((48 + n % 10) as u8)
    }
}

/// The printed constant `c`. An integer prints as its decimal digits; a
/// negative integer, which no literal writes, prints as zero.
pub open spec fn constant(c: ConstV) -> Seq<TokenV> {
    match c {
        ConstV::String(s) => seq![printed(TokenKind::StringLiteral, s, Seq::empty())],
        ConstV::Num(raw) => seq![printed(TokenKind::NumericLiteral, raw, Seq::empty())],
        ConstV::Int(i) => seq![
            printed(
                TokenKind::NumericLiteral,
                digits(
                    if i >= 0 {
                        i as nat
                    } else {
                        0
                    },
                ),
                Seq::empty(),
            ),
        ],
        ConstV::Bool(b) => seq![printed(TokenKind::BooleanLiteral(b), Seq::empty(), Seq::empty())],
        ConstV::Null => seq![printed(TokenKind::NullLiteral, Seq::empty(), Seq::empty())],
    }
}

/// The token of a prefix operator; `None` for the update operators.
pub open spec fn spec_unary_token(op: UnaryOp) -> Option<TokenKind> {
    match op {
        UnaryOp::Delete => Some(TokenKind::Keyword(Keyword::Delete)),
        UnaryOp::Void => Some(TokenKind::Keyword(Keyword::Void)),
        UnaryOp::TypeOf => Some(TokenKind::Keyword(Keyword::TypeOf)),
        UnaryOp::Plus => Some(TokenKind::Punctuator(Punctuator::Add)),
        UnaryOp::Minus => Some(TokenKind::Punctuator(Punctuator::Sub)),
        UnaryOp::Tilde => Some(TokenKind::Punctuator(Punctuator::Neg)),
        UnaryOp::Not => Some(TokenKind::Punctuator(Punctuator::Not)),
        _ => None,
    }
}

/// The token of a compound assignment operator.
pub open spec fn spec_assign_token(op: AssignOp) -> TokenKind {
    TokenKind::Punctuator(
        match op {
            AssignOp::Add => Punctuator::AssignAdd,
            AssignOp::Sub => Punctuator::AssignSub,
            AssignOp::Mul => Punctuator::AssignMul,
            AssignOp::Div => Punctuator::AssignDiv,
            AssignOp::Mod => Punctuator::AssignMod,
            AssignOp::Exp => Punctuator::AssignPow,
            AssignOp::And => Punctuator::AssignAnd,
            AssignOp::Or => Punctuator::AssignOr,
            AssignOp::Xor => Punctuator::AssignXor,
            AssignOp::Shl => Punctuator::AssignLeftSh,
            AssignOp::Shr => Punctuator::AssignRightSh,
            AssignOp::UShr => Punctuator::AssignURightSh,
        },
    )
}

/// The token of an operator with two operands.
pub open spec fn spec_binary_token(op: BinOp) -> TokenKind {
    match op {
        BinOp::Num(o) => TokenKind::Punctuator(
            match o {
                NumOp::Add => Punctuator::Add,
                NumOp::Sub => Punctuator::Sub,
                NumOp::Div => Punctuator::Div,
                NumOp::Mul => Punctuator::Mul,
                NumOp::Exp => Punctuator::Exp,
                NumOp::Mod => Punctuator::Mod,
            },
        ),
        BinOp::Bit(o) => TokenKind::Punctuator(
            match o {
                BitOp::And => Punctuator::And,
                BitOp::Or => Punctuator::Or,
                BitOp::Xor => Punctuator::Xor,
                BitOp::Shl => Punctuator::LeftSh,
                BitOp::Shr => Punctuator::RightSh,
                BitOp::UShr => Punctuator::URightSh,
            },
        ),
        BinOp::Comp(o) => match o {
            CompOp::Equal => TokenKind::Punctuator(Punctuator::Eq),
            CompOp::NotEqual => TokenKind::Punctuator(Punctuator::NotEq),
            CompOp::StrictEqual => TokenKind::Punctuator(Punctuator::StrictEq),
            CompOp::StrictNotEqual => TokenKind::Punctuator(Punctuator::StrictNotEq),
            CompOp::GreaterThan => TokenKind::Punctuator(Punctuator::GreaterThan),
            CompOp::GreaterThanOrEqual => TokenKind::Punctuator(Punctuator::GreaterThanOrEq),
            CompOp::LessThan => TokenKind::Punctuator(Punctuator::LessThan),
            CompOp::LessThanOrEqual => TokenKind::Punctuator(Punctuator::LessThanOrEq),
            CompOp::In => TokenKind::Keyword(Keyword::In),
            CompOp::InstanceOf => TokenKind::Keyword(Keyword::InstanceOf),
        },
        BinOp::Log(o) => TokenKind::Punctuator(
            match o {
                LogOp::And => Punctuator::BoolAnd,
                LogOp::Or => Punctuator::BoolOr,
            },
        ),
        BinOp::Assign(o) => spec_assign_token(o),
        BinOp::Comma => TokenKind::Punctuator(Punctuator::Comma),
    }
}

/// One printed token without payload.
pub open spec fn token(kind: TokenKind) -> Seq<TokenV> {
    seq![printed(kind, Seq::empty(), Seq::empty())]
}

/// `inner` in parentheses.
pub open spec fn group(inner: Seq<TokenV>) -> Seq<TokenV> {
    punct(Punctuator::OpenParen) + inner + punct(Punctuator::CloseParen)
}

/// The printed head of a function of the given kind: `async`, `function`
/// and `*`, as far as the kind asks for them.
pub open spec fn function_head(kind: FunctionKind) -> Seq<TokenV> {
    (if kind.spec_is_async() {
        keyword(Keyword::Async)
    } else {
        Seq::empty()
    }) + keyword(Keyword::Function) + (if kind.spec_is_generator() {
        punct(Punctuator::Mul)
    } else {
        Seq::empty()
    })
}

/// Whether an expression prints in parentheses: every expression but a
/// name, a literal, `this`, an array literal and a function expression.
pub open spec fn is_grouped(e: NodeV) -> bool {
    e is UnaryOp || e is BinOp || e is Assign || e is ConditionalOp || e is Call || e is New
        || e is GetConstField || e is GetField || e is Await || e is Yield
        || e is ArrowFunctionDecl
}

/// Whether a node is an expression.
pub open spec fn is_expression(e: NodeV) -> bool {
    is_grouped(e) || e is Identifier || e is This || e is Const || e is Pattern || e is ArrayDecl
        || e is FunctionExpr
}

/// What stands between the parentheses of an expression that prints in
/// parentheses: the operator with its operands, each printed as an
/// expression of its own.
pub open spec fn inside(e: NodeV) -> Seq<TokenV>
    decreases e, 0nat,
{
    match e {
        NodeV::UnaryOp(op, x) => match op {
            UnaryOp::IncrementPre => punct(Punctuator::Inc) + expression(*x),
            UnaryOp::DecrementPre => punct(Punctuator::Dec) + expression(*x),
            UnaryOp::IncrementPost => expression(*x) + punct(Punctuator::Inc),
            UnaryOp::DecrementPost => expression(*x) + punct(Punctuator::Dec),
            _ => token(spec_unary_token(op).unwrap()) + expression(*x),
        },
        NodeV::BinOp(op, l, r) => expression(*l) + token(spec_binary_token(op)) + expression(*r),
        NodeV::Assign(l, r) => expression(*l) + punct(Punctuator::Assign) + expression(*r),
        NodeV::ConditionalOp(c, a, b) => expression(*c) + punct(Punctuator::Question)
            + expression(*a) + punct(Punctuator::Colon) + expression(*b),
        NodeV::Call(f, args) => expression(*f) + punct(Punctuator::OpenParen) + arguments(args)
            + punct(Punctuator::CloseParen),
        NodeV::New(f, args) => keyword(Keyword::New) + expression(*f) + punct(
            Punctuator::OpenParen,
        ) + arguments(args) + punct(Punctuator::CloseParen),
        NodeV::GetConstField(o, n) => expression(*o) + punct(Punctuator::Dot) + name(n),
        NodeV::GetField(o, k) => expression(*o) + punct(Punctuator::OpenBracket) + expression(*k)
            + punct(Punctuator::CloseBracket),
        NodeV::Await(x) => keyword(Keyword::Await) + expression(*x),
        NodeV::Yield(x, delegate) => keyword(Keyword::Yield) + (if delegate {
            punct(Punctuator::Mul)
        } else {
            Seq::empty()
        }) + (match x {
            Some(x) => expression(*x),
            None => Seq::empty(),
        }),
        NodeV::ArrowFunctionDecl(params, body) => punct(Punctuator::OpenParen) + parameters(
            params,
        ) + punct(Punctuator::CloseParen) + punct(Punctuator::Arrow) + punct(
            Punctuator::OpenBlock,
        ) + statements(body.items) + punct(Punctuator::CloseBlock),
        _ => Seq::empty(),
    }
}

/// The printed form of an expression. A name, a literal, `this`, an array
/// literal and a function expression print as they are written; every other
/// expression prints in parentheses. What is no expression prints as
/// nothing.
pub open spec fn expression(e: NodeV) -> Seq<TokenV>
    decreases e, 1nat,
{
    if is_grouped(e) {
        group(inside(e))
    } else {
        match e {
            NodeV::Identifier(n) => name(n),
            NodeV::This => keyword(Keyword::This),
            NodeV::Const(c) => constant(c),
            NodeV::Pattern(body, flags) => seq![printed(TokenKind::PatternLiteral, body, flags)],
            NodeV::ArrayDecl(items) => punct(Punctuator::OpenBracket) + arguments(items) + punct(
                Punctuator::CloseBracket,
            ),
            NodeV::FunctionExpr(kind, n, params, body) => function_head(kind) + (match n {
                Some(n) => name(n),
                None => Seq::empty(),
            }) + punct(Punctuator::OpenParen) + parameters(params) + punct(
                Punctuator::CloseParen,
            ) + punct(Punctuator::OpenBlock) + statements(body.items) + punct(
                Punctuator::CloseBlock,
            ),
            _ => Seq::empty(),
        }
    }
}

/// The printed form of a list of expressions: each expression, with commas
/// between them.
pub open spec fn arguments(items: Seq<NodeV>) -> Seq<TokenV>
    decreases items, 2nat,
{
    if items.len() == 0 {
        Seq::empty()
    } else if items.len() == 1 {
        expression(items[0])
    } else {
        expression(items[0]) + punct(Punctuator::Comma) + arguments(
            items.subrange(1, items.len() as int),
        )
    }
}

/// The printed form of one parameter.
pub open spec fn parameter(p: FormalParameterV) -> Seq<TokenV>
    decreases p, 2nat,
{
    if p.is_rest {
        punct(Punctuator::Spread) + name(p.name)
    } else {
        name(p.name) + (match p.init {
            Some(e) => punct(Punctuator::Assign) + expression(e),
            None => Seq::empty(),
        })
    }
}

/// The printed form of a parameter list, without its parentheses.
pub open spec fn parameters(params: Seq<FormalParameterV>) -> Seq<TokenV>
    decreases params, 2nat,
{
    if params.len() == 0 {
        Seq::empty()
    } else if params.len() == 1 {
        parameter(params[0])
    } else {
        parameter(params[0]) + punct(Punctuator::Comma) + parameters(
            params.subrange(1, params.len() as int),
        )
    }
}

/// The printed form of one binding of a declaration.
pub open spec fn binding(d: DeclarationV) -> Seq<TokenV>
    decreases d, 2nat,
{
    name(d.name) + (match d.init {
        Some(e) => punct(Punctuator::Assign) + expression(e),
        None => Seq::empty(),
    })
}

/// The printed form of the bindings of a declaration.
pub open spec fn bindings(decls: Seq<DeclarationV>) -> Seq<TokenV>
    decreases decls, 2nat,
{
    if decls.len() == 0 {
        Seq::empty()
    } else if decls.len() == 1 {
        binding(decls[0])
    } else {
        binding(decls[0]) + punct(Punctuator::Comma) + bindings(
            decls.subrange(1, decls.len() as int),
        )
    }
}

/// The printed form of an optional expression.
pub open spec fn optional(e: Option<Box<NodeV>>) -> Seq<TokenV>
    decreases e, 2nat,
{
    match e {
        Some(e) => expression(*e),
        None => Seq::empty(),
    }
}

/// The printed form of a declaration, without the `;` that ends it as a
/// statement. What is no declaration prints as nothing.
pub open spec fn declaration(s: NodeV) -> Seq<TokenV>
    decreases s, 3nat,
{
    match s {
        NodeV::VarDeclList(decls) => keyword(Keyword::Var) + bindings(decls),
        NodeV::LetDeclList(decls) => keyword(Keyword::Let) + bindings(decls),
        NodeV::ConstDeclList(decls) => keyword(Keyword::Const) + bindings(decls),
        _ => Seq::empty(),
    }
}

/// Whether a node is a declaration.
pub open spec fn is_declaration(s: NodeV) -> bool {
    s is VarDeclList || s is LetDeclList || s is ConstDeclList
}

/// The printed form of the first part of the head of a `for` statement.
pub open spec fn for_init(init: Option<Box<NodeV>>) -> Seq<TokenV>
    decreases init, 4nat,
{
    match init {
        Some(i) => if is_declaration(*i) {
            declaration(*i)
        } else {
            expression(*i)
        },
        None => Seq::empty(),
    }
}

/// The printed form of one method of a class.
pub open spec fn method(m: ClassMethodV) -> Seq<TokenV>
    decreases m, 2nat,
{
    (if m.is_static {
        name(static_word())
    } else {
        Seq::empty()
    }) + name(m.name) + punct(Punctuator::OpenParen) + parameters(m.params) + punct(
        Punctuator::CloseParen,
    ) + punct(Punctuator::OpenBlock) + statements(m.body.items) + punct(Punctuator::CloseBlock)
}

/// The printed form of the methods of a class: one behind the other.
pub open spec fn methods(ms: Seq<ClassMethodV>) -> Seq<TokenV>
    decreases ms, 2nat,
{
    if ms.len() == 0 {
        Seq::empty()
    } else {
        method(ms[0]) + methods(ms.subrange(1, ms.len() as int))
    }
}

/// The printed form of the class that a class extends, with its `extends`.
pub open spec fn heritage(h: Option<Box<NodeV>>) -> Seq<TokenV>
    decreases h, 2nat,
{
    match h {
        Some(h) => keyword(Keyword::Extends) + expression(*h),
        None => Seq::empty(),
    }
}

/// The printed form of a statement. A statement that is an expression
/// prints in parentheses; every statement that can end with a `;` does.
pub open spec fn statement(s: NodeV) -> Seq<TokenV>
    decreases s, 5nat,
{
    match s {
        NodeV::Block(items) => punct(Punctuator::OpenBlock) + statements(items) + punct(
            Punctuator::CloseBlock,
        ),
        NodeV::Empty => punct(Punctuator::Semicolon),
        NodeV::VarDeclList(_) => declaration(s) + punct(Punctuator::Semicolon),
        NodeV::LetDeclList(_) => declaration(s) + punct(Punctuator::Semicolon),
        NodeV::ConstDeclList(_) => declaration(s) + punct(Punctuator::Semicolon),
        NodeV::If(c, a, b) => keyword(Keyword::If) + group(expression(*c)) + statement(*a) + (
        match b {
            Some(b) => keyword(Keyword::Else) + statement(*b),
            None => Seq::empty(),
        }),
        NodeV::WhileLoop(c, b) => keyword(Keyword::While) + group(expression(*c)) + statement(*b),
        NodeV::DoWhileLoop(b, c) => keyword(Keyword::Do) + statement(*b) + keyword(
            Keyword::While,
        ) + group(expression(*c)) + punct(Punctuator::Semicolon),
        NodeV::ForLoop(init, c, step, b) => keyword(Keyword::For) + punct(
            Punctuator::OpenParen,
        ) + for_init(init) + punct(Punctuator::Semicolon) + optional(c) + punct(
            Punctuator::Semicolon,
        ) + optional(step) + punct(Punctuator::CloseParen) + statement(*b),
        NodeV::Return(e) => keyword(Keyword::Return) + optional(e) + punct(
            Punctuator::Semicolon,
        ),
        NodeV::Break => keyword(Keyword::Break) + punct(Punctuator::Semicolon),
        NodeV::Continue => keyword(Keyword::Continue) + punct(Punctuator::Semicolon),
        NodeV::Throw(e) => keyword(Keyword::Throw) + expression(*e) + punct(
            Punctuator::Semicolon,
        ),
        NodeV::ClassDecl(n, h, ms) => keyword(Keyword::Class) + name(n) + heritage(h) + punct(
            Punctuator::OpenBlock,
        ) + methods(ms) + punct(Punctuator::CloseBlock),
        NodeV::FunctionDecl(kind, n, params, body) => function_head(kind) + name(n) + punct(
            Punctuator::OpenParen,
        ) + parameters(params) + punct(Punctuator::CloseParen) + punct(Punctuator::OpenBlock)
            + statements(body.items) + punct(Punctuator::CloseBlock),
        _ => group(expression(s)) + punct(Punctuator::Semicolon),
    }
}

/// The printed form of a list of statements: one behind the other.
pub open spec fn statements(items: Seq<NodeV>) -> Seq<TokenV>
    decreases items, 6nat,
{
    if items.len() == 0 {
        Seq::empty()
    } else {
        statement(items[0]) + statements(items.subrange(1, items.len() as int))
    }
}

/// The printed form of a script: its statements, and the end of the text.
pub open spec fn script(list: StatementListV) -> Seq<TokenV> {
    statements(list.items) + token(TokenKind::EndOfInput)
}

} // verus!
