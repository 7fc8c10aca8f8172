//! Lexing primitives for a small filter-expression language.
//!
//! Every recogniser takes the remaining input and either hands back a value
//! together with the unconsumed suffix, or a failure kind together with the
//! span of input at which recognition stopped.

pub mod alternatives;
pub mod combinators;
pub mod error;
pub mod laws;
pub mod number;
pub mod render;
pub mod text;

pub use alternatives::{nested, no_alternative, success_of, Alternatives};
pub use combinators::{expect, span, take, take_while, Lex};
pub use error::{LexError, LexErrorKind, LexResult};
pub use number::{byte_outcome, hex_byte, oct_byte};
