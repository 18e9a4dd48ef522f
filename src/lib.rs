//! The front end of a small compiler: a lexer, a bounded look-ahead token
//! buffer and a recursive-descent parser that turn source text into a syntax
//! tree whose nodes all carry their span, with a visitor over the tree and the
//! first pass of lowering.

pub mod ast;
pub mod buffer;
pub mod grammar;
pub mod lexer;
pub mod lower;
pub mod parser;
pub mod span;
pub mod visit;

pub use lexer::{LexError, Lexer, Token, TokenKind};
pub use span::{HasMeta, HasSpan, Meta, Span};
