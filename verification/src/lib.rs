//! A lexical analyzer: named source texts in, one ordered sequence of
//! classified tokens out.
//!
//! Source text is read byte by byte, each byte standing for the character
//! with the same code. The grammar is stated as specification functions in
//! [`grammar`]; the engine in [`engine`] is proved to compute exactly what
//! they say, and [`laws`] holds properties of the grammar that are proved
//! for every input.

pub mod classify;
pub mod engine;
pub mod error;
pub mod grammar;
pub mod laws;
pub mod std_specs;
pub mod token;

pub use classify::{is_identifier, literal_can_proceed};
pub use engine::{Cursor, Lexer};
pub use error::{LexError, LexErrorKind, LexErrorView, LexFault};
pub use token::{match_identifier, Token, TokenKind, TokenView};
