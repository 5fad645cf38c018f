//! A verified lexical analyzer for a small dynamic scripting language.
//!
//! The lexer turns raw source bytes into a sequence of classified tokens
//! with line numbers and byte spans, using longest-match scanning over a
//! fixed rule table. Malformed literals and badly separated tokens are
//! reported as diagnostics without stopping the scan.
//!
//! Comments are visible in the token stream. Whitespace and line
//! terminators are not: a terminator only advances the line counter,
//! and the `Line` category is never emitted.

pub mod decode;
pub mod errors;
pub mod lexer;
pub mod rules;
pub mod token;
