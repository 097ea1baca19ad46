//! Front end of the Props language: source text to a typed syntax tree.
//!
//! - [`lexer`] turns a source text into positioned [`tokens`], with the
//!   character classes of [`classes`] and the numeric literals of
//!   [`types::number`].
//! - [`grammar`] says, as functions on a cursor over the tokens, what each
//!   rule of the language parses; [`parser`] is the recursive-descent parser
//!   that computes it, and [`nodes`] the tree it builds.
//! - [`types`] holds the type representation, the widening order, the type
//!   environment and the type pass.
//! - [`error`] holds the diagnostics and renders them against the source.
//! - [`pipeline`] runs lexer, parser and type pass one after the other.
//! - [`laws`], [`shape`] and [`recovery`] state what holds of every parse.

pub mod analysis;
pub mod classes;
pub mod error;
pub mod grammar;
pub mod laws;
pub mod lexer;
pub mod nodes;
pub mod parser;
pub mod pipeline;
pub mod recovery;
pub mod shape;
pub mod text;
pub mod tokens;
pub mod types;
pub mod util;
