//! Conditional character-insertion combinators: append or prepend a single
//! character next to the rightmost occurrence of a target character, either
//! unconditionally or guarded by a predicate on the neighboring character.

pub mod append;
pub mod predicates;
pub mod prepend;
