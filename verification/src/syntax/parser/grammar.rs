//! What every production shares: the grammar context, the shape of a
//! production's result, and the small classifications of tokens and nodes.

use vstd::prelude::*;
use crate::syntax::ast::node::{
    declaration_views, node_views, parameter_views, Declaration, DeclarationV, FormalParameter,
    FormalParameterV, Node, NodeV, StatementList, StatementListV,
};
use crate::syntax::ast::op::{
    AssignOp, BinOp, BitOp, CompOp, FunctionKind, LogOp, NumOp, UnaryOp,
};
use crate::syntax::lexer::token::{Keyword, Punctuator, TokenKind, TokenV};
use crate::syntax::parser::cursor::{kind_at, position_at, Cursor};
use crate::syntax::parser::error::{spec_unexpected, Expected, ParseError};

verus! {

/// The five grammar parameters. A production receives them by value and
/// hands a changed copy to the productions below it where the grammar says
/// so: nothing flows back.
#[derive(Clone, Copy, Debug, PartialEq, Eq, Structural)]
pub struct GrammarContext {
    /// `yield` is an operator.
    pub allow_yield: bool,
    /// `await` is an operator.
    pub allow_await: bool,
    /// `in` is a relational operator.
    pub allow_in: bool,
    /// A `return` statement is legal.
    pub allow_return: bool,
    /// A function declaration may leave out its name.
    pub allow_default: bool,
}

impl GrammarContext {
    /// The context of a script's top level: nothing is allowed.
    pub open spec fn spec_script() -> GrammarContext {
        GrammarContext {
            allow_yield: false,
            allow_await: false,
            allow_in: false,
            allow_return: false,
            allow_default: false,
        }
    }

    #[verifier::when_used_as_spec(spec_script)]
    pub fn script() -> (c: GrammarContext)
        ensures
            c == GrammarContext::spec_script(),
    {
        GrammarContext {
            allow_yield: false,
            allow_await: false,
            allow_in: false,
            allow_return: false,
            allow_default: false,
        }
    }

    /// This context with `allow_in` replaced.
    pub open spec fn spec_with_in(self, allow_in: bool) -> GrammarContext {
        GrammarContext { allow_in, ..self }
    }

    #[verifier::when_used_as_spec(spec_with_in)]
    pub fn with_in(self, allow_in: bool) -> (c: GrammarContext)
        ensures
            c == self.spec_with_in(allow_in),
    {
        GrammarContext { allow_in, ..self }
    }

    /// The context of the parameters and the body of a function of the given
    /// kind. It owes nothing to the context around the function: `yield` is
    /// allowed in a generator, `await` in an asynchronous function, `return`
    /// and `in` always.
    pub open spec fn spec_function(kind: FunctionKind) -> GrammarContext {
        GrammarContext {
            allow_yield: kind.spec_is_generator(),
            allow_await: kind.spec_is_async(),
            allow_in: true,
            allow_return: true,
            allow_default: false,
        }
    }

    #[verifier::when_used_as_spec(spec_function)]
    pub fn function(kind: FunctionKind) -> (c: GrammarContext)
        ensures
            c == GrammarContext::spec_function(kind),
    {
        GrammarContext {
            allow_yield: kind.is_generator(),
            allow_await: kind.is_async(),
            allow_in: true,
            allow_return: true,
            allow_default: false,
        }
    }

    /// The context of the parameters and the body of an arrow function:
    /// `yield` and `await` are allowed where they are allowed around it,
    /// `return` and `in` always.
    pub open spec fn spec_arrow(self) -> GrammarContext {
        GrammarContext {
            allow_yield: self.allow_yield,
            allow_await: self.allow_await,
            allow_in: true,
            allow_return: true,
            allow_default: false,
        }
    }

    #[verifier::when_used_as_spec(spec_arrow)]
    pub fn arrow(self) -> (c: GrammarContext)
        ensures
            c == self.spec_arrow(),
    {
        GrammarContext {
            allow_yield: self.allow_yield,
            allow_await: self.allow_await,
            allow_in: true,
            allow_return: true,
            allow_default: false,
        }
    }
}

/// What a production denotes at a place in a token sequence: the value it
/// builds and the number of tokens it consumes, or the error it fails with.
pub type Parsed<V> = Result<(V, nat), ParseError>;

/// The result `r` of a production that started `n` tokens after the place
/// that counts.
pub open spec fn shift<V>(r: Parsed<V>, n: nat) -> Parsed<V> {
    match r {
        Ok((v, m)) => Ok((v, m + n)),
        Err(e) => Err(e),
    }
}

/// Whether a function that returned `got`, having consumed `consumed`
/// tokens, did what `expected` says.
pub open spec fn agrees<V>(got: Result<V, ParseError>, consumed: int, expected: Parsed<V>) -> bool {
    match expected {
        Ok((v, n)) => got == Ok::<V, ParseError>(v) && consumed == n,
        Err(e) => got == Err::<V, ParseError>(e),
    }
}

/// The value of a parsing function's result.
pub open spec fn node_result(r: Result<Node, ParseError>) -> Result<NodeV, ParseError> {
    match r {
        Ok(n) => Ok(n@),
        Err(e) => Err(e),
    }
}

/// Whether a parsing function that took the cursor from `before` to `after`
/// and returned `r` did what `expected` says.
pub open spec fn parses(
    before: Cursor,
    after: Cursor,
    r: Result<Node, ParseError>,
    expected: Parsed<NodeV>,
) -> bool {
    &&& after.tokens() == before.tokens()
    &&& agrees(node_result(r), after.pos() - before.pos(), expected)
}

/// The value of the result of a function that parses a list of nodes.
pub open spec fn nodes_result(r: Result<Vec<Node>, ParseError>) -> Result<Seq<NodeV>, ParseError> {
    match r {
        Ok(v) => Ok(node_views(v@)),
        Err(e) => Err(e),
    }
}

/// The value of the result of a function that parses a node or nothing.
pub open spec fn option_result(r: Result<Option<Node>, ParseError>) -> Result<
    Option<NodeV>,
    ParseError,
> {
    match r {
        Ok(Some(n)) => Ok(Some(n@)),
        Ok(None) => Ok(None),
        Err(e) => Err(e),
    }
}

/// The value of the result of a function that parses parameters.
pub open spec fn parameters_result(r: Result<Vec<FormalParameter>, ParseError>) -> Result<
    Seq<FormalParameterV>,
    ParseError,
> {
    match r {
        Ok(v) => Ok(parameter_views(v@)),
        Err(e) => Err(e),
    }
}

/// The value of the result of a function that parses bindings.
pub open spec fn declarations_result(r: Result<Vec<Declaration>, ParseError>) -> Result<
    Seq<DeclarationV>,
    ParseError,
> {
    match r {
        Ok(v) => Ok(declaration_views(v@)),
        Err(e) => Err(e),
    }
}

/// The value of the result of a function that parses a statement list.
pub open spec fn list_result(r: Result<StatementList, ParseError>) -> Result<
    StatementListV,
    ParseError,
> {
    match r {
        Ok(v) => Ok(v@),
        Err(e) => Err(e),
    }
}

/// The error for the token at `pos`, which the production cannot accept.
pub open spec fn unexpected(tokens: Seq<TokenV>, pos: int, expected: Expected) -> ParseError {
    spec_unexpected(kind_at(tokens, pos), position_at(tokens, pos), expected)
}

/// Whether the token at `pos` is the punctuator `p`.
pub open spec fn punctuator_at(tokens: Seq<TokenV>, pos: int, p: Punctuator) -> bool {
    kind_at(tokens, pos) == TokenKind::Punctuator(p)
}

/// Whether the token at `pos` is the keyword `k`.
pub open spec fn keyword_at(tokens: Seq<TokenV>, pos: int, k: Keyword) -> bool {
    kind_at(tokens, pos) == TokenKind::Keyword(k)
}

impl Cursor {
    /// Whether the token `n` places ahead is the punctuator `p`.
    pub fn at_punctuator(&self, n: usize, p: Punctuator) -> (r: bool)
        ensures
            r == punctuator_at(self.tokens(), self.pos() + n, p),
            self.tokens().len() <= usize::MAX,
    {
        self.peek_kind(n) == TokenKind::Punctuator(p)
    }

    /// Whether the token `n` places ahead is the keyword `k`.
    pub fn at_keyword(&self, n: usize, k: Keyword) -> (r: bool)
        ensures
            r == keyword_at(self.tokens(), self.pos() + n, k),
            self.tokens().len() <= usize::MAX,
    {
        self.peek_kind(n) == TokenKind::Keyword(k)
    }

    /// Whether the token `n` places ahead is a name.
    pub fn at_identifier(&self, n: usize) -> (r: bool)
        ensures
            r == (kind_at(self.tokens(), self.pos() + n) == TokenKind::Identifier),
            self.tokens().len() <= usize::MAX,
    {
        self.peek_kind(n) == TokenKind::Identifier
    }

    /// The error for the token `n` places ahead, which the production
    /// cannot accept.
    pub fn unexpected_at(&self, n: usize, expected: Expected) -> (e: ParseError)
        ensures
            e == unexpected(self.tokens(), self.pos() + n, expected),
    {
        ParseError::unexpected(self.peek_kind(n), self.peek_position(n), expected)
    }

    /// The error for the next token, which the production cannot accept.
    pub fn unexpected(&self, expected: Expected) -> (e: ParseError)
        ensures
            e == unexpected(self.tokens(), self.pos(), expected),
    {
        self.unexpected_at(0, expected)
    }
}

/// The prefix operator that a token of this kind is, if it is one.
pub open spec fn spec_unary_operator(kind: TokenKind) -> Option<UnaryOp> {
    match kind {
        TokenKind::Keyword(Keyword::Delete) => Some(UnaryOp::Delete),
        TokenKind::Keyword(Keyword::Void) => Some(UnaryOp::Void),
        TokenKind::Keyword(Keyword::TypeOf) => Some(UnaryOp::TypeOf),
        TokenKind::Punctuator(Punctuator::Add) => Some(UnaryOp::Plus),
        TokenKind::Punctuator(Punctuator::Sub) => Some(UnaryOp::Minus),
        TokenKind::Punctuator(Punctuator::Neg) => Some(UnaryOp::Tilde),
        TokenKind::Punctuator(Punctuator::Not) => Some(UnaryOp::Not),
        _ => None,
    }
}

#[verifier::when_used_as_spec(spec_unary_operator)]
pub fn unary_operator(kind: TokenKind) -> (r: Option<UnaryOp>)
    ensures
        r == spec_unary_operator(kind),
{
    match kind {
        TokenKind::Keyword(Keyword::Delete) => Some(UnaryOp::Delete),
        TokenKind::Keyword(Keyword::Void) => Some(UnaryOp::Void),
        TokenKind::Keyword(Keyword::TypeOf) => Some(UnaryOp::TypeOf),
        TokenKind::Punctuator(Punctuator::Add) => Some(UnaryOp::Plus),
        TokenKind::Punctuator(Punctuator::Sub) => Some(UnaryOp::Minus),
        TokenKind::Punctuator(Punctuator::Neg) => Some(UnaryOp::Tilde),
        TokenKind::Punctuator(Punctuator::Not) => Some(UnaryOp::Not),
        _ => None,
    }
}

/// The table of the left-associative binary operators: the operator that a
/// token of this kind is in the given context, with its precedence, from 1
/// for `||` up to 10 for `*`, `/` and `%`. `in` is an operator only where
/// the context allows it.
pub open spec fn spec_binary_operator(kind: TokenKind, ctx: GrammarContext) -> Option<(BinOp, u8)> {
    match kind {
        TokenKind::Punctuator(p) => match p {
            Punctuator::BoolOr => Some((BinOp::Log(LogOp::Or), 1u8)),
            Punctuator::BoolAnd => Some((BinOp::Log(LogOp::And), 2u8)),
            Punctuator::Or => Some((BinOp::Bit(BitOp::Or), 3u8)),
            Punctuator::Xor => Some((BinOp::Bit(BitOp::Xor), 4u8)),
            Punctuator::And => Some((BinOp::Bit(BitOp::And), 5u8)),
            Punctuator::Eq => Some((BinOp::Comp(CompOp::Equal), 6u8)),
            Punctuator::NotEq => Some((BinOp::Comp(CompOp::NotEqual), 6u8)),
            Punctuator::StrictEq => Some((BinOp::Comp(CompOp::StrictEqual), 6u8)),
            Punctuator::StrictNotEq => Some((BinOp::Comp(CompOp::StrictNotEqual), 6u8)),
            Punctuator::LessThan => Some((BinOp::Comp(CompOp::LessThan), 7u8)),
            Punctuator::GreaterThan => Some((BinOp::Comp(CompOp::GreaterThan), 7u8)),
            Punctuator::LessThanOrEq => Some((BinOp::Comp(CompOp::LessThanOrEqual), 7u8)),
            Punctuator::GreaterThanOrEq => Some((BinOp::Comp(CompOp::GreaterThanOrEqual), 7u8)),
            Punctuator::LeftSh => Some((BinOp::Bit(BitOp::Shl), 8u8)),
            Punctuator::RightSh => Some((BinOp::Bit(BitOp::Shr), 8u8)),
            Punctuator::URightSh => Some((BinOp::Bit(BitOp::UShr), 8u8)),
            Punctuator::Add => Some((BinOp::Num(NumOp::Add), 9u8)),
            Punctuator::Sub => Some((BinOp::Num(NumOp::Sub), 9u8)),
            Punctuator::Mul => Some((BinOp::Num(NumOp::Mul), 10u8)),
            Punctuator::Div => Some((BinOp::Num(NumOp::Div), 10u8)),
            Punctuator::Mod => Some((BinOp::Num(NumOp::Mod), 10u8)),
            _ => None,
        },
        TokenKind::Keyword(Keyword::InstanceOf) => Some((BinOp::Comp(CompOp::InstanceOf), 7u8)),
        TokenKind::Keyword(Keyword::In) => if ctx.allow_in {
            Some((BinOp::Comp(CompOp::In), 7u8))
        } else {
            None
        },
        _ => None,
    }
}

#[verifier::when_used_as_spec(spec_binary_operator)]
pub fn binary_operator(kind: TokenKind, ctx: GrammarContext) -> (r: Option<(BinOp, u8)>)
    ensures
        r == spec_binary_operator(kind, ctx),
        r matches Some((_, prec)) ==> 1 <= prec <= 10,
{
    match kind {
        TokenKind::Punctuator(p) => match p {
            Punctuator::BoolOr => Some((BinOp::Log(LogOp::Or), 1u8)),
            Punctuator::BoolAnd => Some((BinOp::Log(LogOp::And), 2u8)),
            Punctuator::Or => Some((BinOp::Bit(BitOp::Or), 3u8)),
            Punctuator::Xor => Some((BinOp::Bit(BitOp::Xor), 4u8)),
            Punctuator::And => Some((BinOp::Bit(BitOp::And), 5u8)),
            Punctuator::Eq => Some((BinOp::Comp(CompOp::Equal), 6u8)),
            Punctuator::NotEq => Some((BinOp::Comp(CompOp::NotEqual), 6u8)),
            Punctuator::StrictEq => Some((BinOp::Comp(CompOp::StrictEqual), 6u8)),
            Punctuator::StrictNotEq => Some((BinOp::Comp(CompOp::StrictNotEqual), 6u8)),
            Punctuator::LessThan => Some((BinOp::Comp(CompOp::LessThan), 7u8)),
            Punctuator::GreaterThan => Some((BinOp::Comp(CompOp::GreaterThan), 7u8)),
            Punctuator::LessThanOrEq => Some((BinOp::Comp(CompOp::LessThanOrEqual), 7u8)),
            Punctuator::GreaterThanOrEq => Some((BinOp::Comp(CompOp::GreaterThanOrEqual), 7u8)),
            Punctuator::LeftSh => Some((BinOp::Bit(BitOp::Shl), 8u8)),
            Punctuator::RightSh => Some((BinOp::Bit(BitOp::Shr), 8u8)),
            Punctuator::URightSh => Some((BinOp::Bit(BitOp::UShr), 8u8)),
            Punctuator::Add => Some((BinOp::Num(NumOp::Add), 9u8)),
            Punctuator::Sub => Some((BinOp::Num(NumOp::Sub), 9u8)),
            Punctuator::Mul => Some((BinOp::Num(NumOp::Mul), 10u8)),
            Punctuator::Div => Some((BinOp::Num(NumOp::Div), 10u8)),
            Punctuator::Mod => Some((BinOp::Num(NumOp::Mod), 10u8)),
            _ => None,
        },
        TokenKind::Keyword(Keyword::InstanceOf) => Some((BinOp::Comp(CompOp::InstanceOf), 7u8)),
        TokenKind::Keyword(Keyword::In) => if ctx.allow_in {
            Some((BinOp::Comp(CompOp::In), 7u8))
        } else {
            None
        },
        _ => None,
    }
}

/// Which assignment a token of this kind writes: plain, or compound with an
/// operator.
#[derive(Clone, Copy, Debug, PartialEq, Eq, Structural)]
pub enum Assignment {
    Plain,
    Compound(AssignOp),
}

/// The assignment operator that a token of this kind is, if it is one.
pub open spec fn spec_assignment_operator(kind: TokenKind) -> Option<Assignment> {
    match kind {
        TokenKind::Punctuator(p) => match p {
            Punctuator::Assign => Some(Assignment::Plain),
            Punctuator::AssignAdd => Some(Assignment::Compound(AssignOp::Add)),
            Punctuator::AssignSub => Some(Assignment::Compound(AssignOp::Sub)),
            Punctuator::AssignMul => Some(Assignment::Compound(AssignOp::Mul)),
            Punctuator::AssignDiv => Some(Assignment::Compound(AssignOp::Div)),
            Punctuator::AssignMod => Some(Assignment::Compound(AssignOp::Mod)),
            Punctuator::AssignPow => Some(Assignment::Compound(AssignOp::Exp)),
            Punctuator::AssignAnd => Some(Assignment::Compound(AssignOp::And)),
            Punctuator::AssignOr => Some(Assignment::Compound(AssignOp::Or)),
            Punctuator::AssignXor => Some(Assignment::Compound(AssignOp::Xor)),
            Punctuator::AssignLeftSh => Some(Assignment::Compound(AssignOp::Shl)),
            Punctuator::AssignRightSh => Some(Assignment::Compound(AssignOp::Shr)),
            Punctuator::AssignURightSh => Some(Assignment::Compound(AssignOp::UShr)),
            _ => None,
        },
        _ => None,
    }
}

#[verifier::when_used_as_spec(spec_assignment_operator)]
pub fn assignment_operator(kind: TokenKind) -> (r: Option<Assignment>)
    ensures
        r == spec_assignment_operator(kind),
{
    match kind {
        TokenKind::Punctuator(p) => match p {
            Punctuator::Assign => Some(Assignment::Plain),
            Punctuator::AssignAdd => Some(Assignment::Compound(AssignOp::Add)),
            Punctuator::AssignSub => Some(Assignment::Compound(AssignOp::Sub)),
            Punctuator::AssignMul => Some(Assignment::Compound(AssignOp::Mul)),
            Punctuator::AssignDiv => Some(Assignment::Compound(AssignOp::Div)),
            Punctuator::AssignMod => Some(Assignment::Compound(AssignOp::Mod)),
            Punctuator::AssignPow => Some(Assignment::Compound(AssignOp::Exp)),
            Punctuator::AssignAnd => Some(Assignment::Compound(AssignOp::And)),
            Punctuator::AssignOr => Some(Assignment::Compound(AssignOp::Or)),
            Punctuator::AssignXor => Some(Assignment::Compound(AssignOp::Xor)),
            Punctuator::AssignLeftSh => Some(Assignment::Compound(AssignOp::Shl)),
            Punctuator::AssignRightSh => Some(Assignment::Compound(AssignOp::Shr)),
            Punctuator::AssignURightSh => Some(Assignment::Compound(AssignOp::UShr)),
            _ => None,
        },
        _ => None,
    }
}

/// The node that assigns `value` to `target`.
pub open spec fn assignment_node(op: Assignment, target: NodeV, value: NodeV) -> NodeV {
    match op {
        Assignment::Plain => NodeV::Assign(Box::new(target), Box::new(value)),
        Assignment::Compound(op) => NodeV::BinOp(
            BinOp::Assign(op),
            Box::new(target),
            Box::new(value),
        ),
    }
}

/// Whether a node can stand on the left of an assignment: a name, or a
/// member of an object.
pub open spec fn is_assignable(node: NodeV) -> bool {
    node is Identifier || node is GetConstField || node is GetField
}

impl Node {
    /// The node that assigns `value` to `target`.
    pub fn assignment(op: Assignment, target: Node, value: Node) -> (n: Node)
        ensures
            n@ == assignment_node(op, target@, value@),
    {
        match op {
            Assignment::Plain => Node::assign(target, value),
            Assignment::Compound(op) => Node::binary(BinOp::Assign(op), target, value),
        }
    }

    /// Whether this node can stand on the left of an assignment.
    pub fn is_assignment_target(&self) -> (r: bool)
        ensures
            r == is_assignable(self@),
    {
        reveal(Node::model);
        match self {
            Node::Identifier(_) => true,
            Node::GetConstField(_, _) => true,
            Node::GetField(_, _) => true,
            _ => false,
        }
    }
}

} // verus!
