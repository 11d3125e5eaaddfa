//! Lexical scanner for a small scripting language.
//!
//! The scanner turns source text into an ordered sequence of classified
//! tokens, tracking line numbers for diagnostics and rejecting malformed
//! input with a typed error. The behaviour of a whole scan is pinned down
//! by the mathematical model in [`model`], and the executable scanner in
//! [`scanner`] is proved to match it.

pub mod errors;
pub mod literal;
pub mod model;
pub mod scanner;
pub mod token;
pub mod token_kind;
