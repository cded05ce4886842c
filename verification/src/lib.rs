//! Composable string-rewriting primitives for cleaning and typographically
//! correcting text: range-based character substitution, conditional character
//! insertion next to the rightmost occurrence of a target, a whitespace
//! normalization suite, and a French typography profile built on top of them.
//!
//! Every primitive mutates a buffer of Unicode scalar values (`Vec<char>`) in
//! place; positions are always scalar-value indices, never byte offsets, so no
//! operation can split an encoded character.

pub mod chars;
pub mod clean;
pub mod common;
pub mod french;
pub mod normalize;
pub mod substitutions;
pub mod unicode;
pub mod utils;
pub mod whitespaces;
