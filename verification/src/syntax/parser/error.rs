//! Parse errors and the functions that build them.

use vstd::prelude::*;
use crate::syntax::ast::position::Position;
use crate::syntax::lexer::token::{Keyword, LexErrorKind, Punctuator, TokenKind};

verus! {

/// What a production would have accepted where it failed.
#[derive(Clone, Copy, Debug, PartialEq, Eq, Structural)]
pub enum Expected {
    /// This punctuator.
    Punctuator(Punctuator),
    /// One of these two punctuators.
    Either(Punctuator, Punctuator),
    /// This keyword.
    Keyword(Keyword),
    /// An identifier.
    Identifier,
    /// A token that starts an expression.
    Expression,
    /// A token that starts a statement.
    Statement,
    /// A `;`, a `}`, a line break or the end of the text.
    Terminator,
}

/// The narrow rules whose violation is a `General` error.
#[derive(Clone, Copy, Debug, PartialEq, Eq, Structural)]
pub enum Rule {
    /// A `const` binding has an initializer.
    ConstInitializer,
    /// A rest parameter is the last parameter.
    RestParameterLast,
    /// The parameters of an arrow function have distinct names.
    DistinctParameters,
    /// No line break stands between `throw` and its operand.
    ThrowOperand,
}

/// Why parsing failed, and where.
#[derive(Clone, Copy, Debug, PartialEq, Eq, Structural)]
pub enum ParseError {
    /// The token found is none of those that the production accepts.
    UnexpectedToken { found: TokenKind, expected: Expected, position: Position },
    /// The text ended while the production needed more tokens.
    UnexpectedEnd { expected: Expected, position: Position },
    /// The token source failed.
    Lex { kind: LexErrorKind, position: Position },
    /// An expression that cannot be assigned to stands where a target is needed.
    InvalidAssignmentTarget { position: Position },
    /// A keyword stands where the grammar context forbids it.
    ContextViolation { keyword: Keyword, position: Position },
    /// A narrow rule of one production is broken.
    General { rule: Rule, position: Position },
}

/// The error for a token that a production cannot accept: the end of the text
/// and a lexing failure are reported as what they are, any other token as
/// unexpected.
pub open spec fn spec_unexpected(found: TokenKind, position: Position, expected: Expected) -> ParseError {
    match found {
        TokenKind::EndOfInput => ParseError::UnexpectedEnd { expected, position },
        TokenKind::Invalid(kind) => ParseError::Lex { kind, position },
        _ => ParseError::UnexpectedToken { found, expected, position },
    }
}

impl ParseError {
    /// Builds the error for a token that a production cannot accept.
    pub fn unexpected(found: TokenKind, position: Position, expected: Expected) -> (e: ParseError)
        ensures
            e == spec_unexpected(found, position, expected),
    {
        match found {
            TokenKind::EndOfInput => ParseError::UnexpectedEnd { expected, position },
            TokenKind::Invalid(kind) => ParseError::Lex { kind, position },
            _ => ParseError::UnexpectedToken { found, expected, position },
        }
    }

    /// The place where parsing failed.
    pub fn position(&self) -> (p: Position)
        ensures
            p == self.spec_position(),
    {
        match self {
            ParseError::UnexpectedToken { position, .. } => *position,
            ParseError::UnexpectedEnd { position, .. } => *position,
            ParseError::Lex { position, .. } => *position,
            ParseError::InvalidAssignmentTarget { position } => *position,
            ParseError::ContextViolation { position, .. } => *position,
            ParseError::General { position, .. } => *position,
        }
    }

    pub open spec fn spec_position(&self) -> Position {
        match self {
            ParseError::UnexpectedToken { position, .. } => *position,
            ParseError::UnexpectedEnd { position, .. } => *position,
            ParseError::Lex { position, .. } => *position,
            ParseError::InvalidAssignmentTarget { position } => *position,
            ParseError::ContextViolation { position, .. } => *position,
            ParseError::General { position, .. } => *position,
        }
    }
}

} // verus!
