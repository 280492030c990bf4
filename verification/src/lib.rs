//! An extensible, zero-copy parser for a small Markdown subset.
//!
//! The parser walks an in-memory UTF-8 buffer one logical line at a time and
//! assembles a document tree of [`Element`] values.  No text is ever copied:
//! every `Text` node is a [`Span`], a pair of byte offsets into the caller's
//! buffer.  Line endings `\n` and `\r\n` are recognized; a bare `\r` is
//! deliberately not a line terminator.

pub mod ast;
pub mod block;
pub mod ext;
pub mod parser;
pub mod scan;
pub mod segment;
pub mod span;
pub mod utf8;

pub use ast::{Element, Snippet};
pub use ext::{BlockRule, InlineRule, NoExtensions, QuoteStub, TabBreak};
pub use parser::{ParseError, Parser};
pub use span::Span;
