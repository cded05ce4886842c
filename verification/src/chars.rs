//! Classification of Unicode scalar values, shared by the whitespace suite,
//! the substitution engine and the control-character remover.

use vstd::prelude::*;

verus! {

/// True of the 25 scalar values carrying the Unicode `White_Space` property.
/// This is the classification used by `SpaceNormalizer` and `SpaceTrimmer`.
pub open spec fn spec_is_whitespace(c: char) -> bool {
    let v = c as int;
    v == 0x09 || v == 0x0A || v == 0x0B || v == 0x0C || v == 0x0D || v == 0x20 || v == 0x85
        || v == 0xA0 || v == 0x1680 || (0x2000 <= v && v <= 0x200A) || v == 0x2028 || v == 0x2029
        || v == 0x202F || v == 0x205F || v == 0x3000
}

/// True of the ASCII whitespace characters (space, tab, line feed, form feed,
/// carriage return). `ConsecutiveWhiteSpaceRemover` deliberately uses this
/// narrower classification, not the full `White_Space` property.
pub open spec fn spec_is_ascii_whitespace(c: char) -> bool {
    let v = c as int;
    v == 0x20 || v == 0x09 || v == 0x0A || v == 0x0C || v == 0x0D
}

/// True of the scalar values in the Unicode control category `Cc`.
pub open spec fn spec_is_control(c: char) -> bool {
    let v = c as int;
    v <= 0x1F || (0x7F <= v && v <= 0x9F)
}

/// True of the code point values that are Unicode scalar values, i.e. the
/// values a `char` can hold: everything up to 0x10FFFF except surrogates.
pub open spec fn is_scalar_value(v: int) -> bool {
    0 <= v <= 0x10FFFF && !(0xD800 <= v <= 0xDFFF)
}

/// Decides the Unicode `White_Space` property for one scalar value.
pub fn is_whitespace_char(c: char) -> (r: bool)
    ensures
        r == spec_is_whitespace(c),
{
    let v = c as u32;
    v == 0x09 || v == 0x0A || v == 0x0B || v == 0x0C || v == 0x0D || v == 0x20 || v == 0x85
        || v == 0xA0 || v == 0x1680 || (0x2000 <= v && v <= 0x200A) || v == 0x2028 || v == 0x2029
        || v == 0x202F || v == 0x205F || v == 0x3000
}

/// Decides ASCII whitespace for one scalar value.
pub fn is_ascii_whitespace_char(c: char) -> (r: bool)
    ensures
        r == spec_is_ascii_whitespace(c),
{
    let v = c as u32;
    v == 0x20 || v == 0x09 || v == 0x0A || v == 0x0C || v == 0x0D
}

/// Decides membership in the Unicode control category `Cc`.
pub fn is_control_char(c: char) -> (r: bool)
    ensures
        r == spec_is_control(c),
{
    let v = c as u32;
    v <= 0x1F || (0x7F <= v && v <= 0x9F)
}

/// A `char` always holds a Unicode scalar value.
pub proof fn lemma_char_is_scalar_value(c: char)
    ensures
        is_scalar_value(c as int),
{
}

/// Relies on `char::from_u32`: it returns the character with the given code
/// point value, and `None` exactly for surrogates and values above 0x10FFFF.
#[verifier::external_body]
pub(crate) fn char_from_u32(v: u32) -> (r: Option<char>)
    ensures
        match r {
            Some(c) => is_scalar_value(v as int) && c as int == v as int,
            None => !is_scalar_value(v as int),
        },
{
    char::from_u32(v)
}

} // verus!
