use vstd::prelude::*;
use crate::span::Span;

verus! {

/// The tag of one lexical unit.
#[derive(Clone, Copy, Debug, PartialEq, Eq, Structural)]
pub enum TokenKind {
    /// `// comment`
    LineComment,
    /// A maximal run of whitespace characters.
    Whitespace,
    /// An identifier such as `main`.
    Ident,
    /// An identifier spelling that belongs to the keyword table.
    Keyword { kind: KwKind },
    /// A numeric, character or string literal.
    Literal { kind: LitKind },
    /// `;`
    Semi,
    /// `,`
    Comma,
    /// `.`
    Dot,
    /// `(`
    OpenParen,
    /// `)`
    CloseParen,
    /// `{`
    OpenBrace,
    /// `}`
    CloseBrace,
    /// `[`
    OpenBracket,
    /// `]`
    CloseBracket,
    /// `@`
    At,
    /// `#`
    Pound,
    /// `~`
    Tilde,
    /// `?`
    Question,
    /// `:`
    Colon,
    /// `$`
    Dollar,
    /// `=`
    Eq,
    /// `!`
    Bang,
    /// `<`
    Lt,
    /// `>`
    Gt,
    /// `-`
    Minus,
    /// `&`
    And,
    /// `|`
    Or,
    /// `+`
    Plus,
    /// `*`
    Star,
    /// `/`
    Slash,
    /// `^`
    Caret,
    /// `%`
    Percent,
    /// A character the scanner does not recognize.
    Unknown,
    /// End of input: synthetic and zero-length.
    Eof,
}

/// The closed set of keyword spellings.
#[derive(Clone, Copy, Debug, PartialEq, Eq, Structural)]
pub enum KwKind {
    /// `i64`
    I64,
    /// `u64`
    U64,
    /// `bool`
    Bool,
    /// `char`
    Char,
    /// `void`
    Void,
    /// `str`
    Str,
    /// `if`
    If,
}

/// The sub-kind of a literal token. The `terminated` flag records whether a
/// quoted literal found its closing delimiter.
#[derive(Clone, Copy, Debug, PartialEq, Eq, Structural)]
pub enum LitKind {
    /// `12`, `39`
    Int,
    /// `12.34`, `5.0`
    Float,
    /// `'a'`, `'\n'`
    Char { terminated: bool },
    /// `"abc"`, and the unterminated `"abc`
    Str { terminated: bool },
}

/// A classified, positioned lexical unit.
#[derive(Clone, Copy, Debug, PartialEq, Eq, Structural)]
pub struct Token {
    pub kind: TokenKind,
    pub span: Span,
}

impl Token {
    pub fn new(kind: TokenKind, span: Span) -> (t: Token)
        ensures
            t.kind == kind,
            t.span == span,
    {
        Token { kind, span }
    }
}

} // verus!
