//! A verified front end for a small expression language.
//!
//! The crate is organised leaf to root: a character cursor, the token
//! [`scanner`], the position-stamping token [`reader`], and the
//! precedence-climbing [`parser`] producing the [`ast`].

pub mod ast;
pub mod chars;
pub(crate) mod cursor;
pub mod errors;
pub mod lit;
pub mod parse_spec;
pub mod parser;
pub mod reader;
pub mod scanner;
pub mod span;
pub mod token;

pub use ast::BinOp;
pub use ast::Expr;
pub use ast::ExprKind;
pub use ast::LiteralKind;
pub use ast::UnOp;
pub use errors::ParseError;
pub use errors::ParseErrorKind;
pub use lit::parse_u128_digits;
pub use lit::unescape;
pub use parser::Parser;
pub use parser::parse;
pub use reader::StringReader;
pub use scanner::first_token;
pub use scanner::tokenize;
pub use span::Span;
pub use token::KwKind;
pub use token::LitKind;
pub use token::Token;
pub use token::TokenKind;
