//! Small trusted conversions between character sequences and `String`,
//! for text that the library builds or decodes character by character.

use vstd::prelude::*;

verus! {

/// Relies on `String`'s `FromIterator<char>` impl: collecting characters
/// yields the string holding exactly those characters in order.
#[verifier::external_body]
pub fn chars_to_string(v: &Vec<char>) -> (s: String)
    ensures
        s@ == v@,
{
    v.iter().collect()
}

/// Relies on `char::from_u32`: `Some` exactly for Unicode scalar values,
/// that is codes below the surrogate range or between it and `0x10FFFF`.
#[verifier::external_body]
pub fn char_from_code(v: u32) -> (r: Option<char>)
    ensures
        r == if v < 0xD800 || (0xE000 <= v && v <= 0x10FFFF) {
            Some(v as char)
        } else {
            None::<char>
        },
{
    char::from_u32(v)
}

} // verus!
