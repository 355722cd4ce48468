use vstd::prelude::*;
use crate::span::Span;

verus! {

/// Why a parse failed.
#[derive(Clone, Copy, Debug, PartialEq, Eq, Structural)]
pub enum ParseErrorKind {
    /// A quoted literal reached the parser without its closing delimiter.
    UnterminatedLiteral,
    /// An integer literal's text does not fit the unsigned 128-bit range.
    IntOutOfRange,
    /// A character literal whose unescaped body is not exactly one
    /// character.
    CharNotSingle,
    /// A prefix operator the expression grammar does not support yet.
    UnsupportedUnary,
    /// Some other token where a literal operand was expected.
    ExpectedOperand,
}

/// A structured parse error: the failing span and the cause. A fatal parse
/// error stops the whole parse; no default expression is ever substituted.
#[derive(Clone, Copy, Debug, PartialEq, Eq, Structural)]
pub struct ParseError {
    pub kind: ParseErrorKind,
    pub span: Span,
}

/// The description that `ParseError::message` gives for each cause.
pub open spec fn spec_message(k: ParseErrorKind) -> Seq<char> {
    match k {
        ParseErrorKind::UnterminatedLiteral => "unterminated literal"@,
        ParseErrorKind::IntOutOfRange => "integer literal out of range"@,
        ParseErrorKind::CharNotSingle => "character literal is not a single character"@,
        ParseErrorKind::UnsupportedUnary => "unsupported unary operator"@,
        ParseErrorKind::ExpectedOperand => "expected a literal operand"@,
    }
}

impl ParseError {
    /// A short human-readable description of the cause.
    pub fn message(&self) -> (r: &'static str)
        ensures
            r@ == spec_message(self.kind),
    {
        match self.kind {
            ParseErrorKind::UnterminatedLiteral => "unterminated literal",
            ParseErrorKind::IntOutOfRange => "integer literal out of range",
            ParseErrorKind::CharNotSingle => "character literal is not a single character",
            ParseErrorKind::UnsupportedUnary => "unsupported unary operator",
            ParseErrorKind::ExpectedOperand => "expected a literal operand",
        }
    }
}

} // verus!
