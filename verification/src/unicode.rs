//! Trusted bindings for the Unicode character tables.
//!
//! Classifying a character and mapping it to another case are functions of
//! the character alone, but their exact values fill the Unicode tables, so
//! they are only named here; the rest of the crate reasons over these names.

use vstd::prelude::*;

verus! {

/// Whether `c` is in one of the Unicode letter categories, as
/// `char::is_alphabetic` classifies it.
pub uninterp spec fn alphabetic(c: char) -> bool;

/// Whether `c` is a Unicode lowercase letter, as `char::is_lowercase`
/// classifies it.
pub uninterp spec fn lowercase(c: char) -> bool;

/// The full Unicode uppercase mapping of `c`: one or more characters.
pub uninterp spec fn upper_chars(c: char) -> Seq<char>;

/// The full Unicode lowercase mapping of `c`: one or more characters.
pub uninterp spec fn lower_chars(c: char) -> Seq<char>;

/// Relies on char::is_alphabetic: true exactly for the characters of the
/// Unicode letter categories.
pub assume_specification[ char::is_alphabetic ](c: char) -> (r: bool)
    ensures
        r == alphabetic(c),
;

/// Relies on char::is_lowercase: true exactly for the Unicode lowercase
/// letters.
pub assume_specification[ char::is_lowercase ](c: char) -> (r: bool)
    ensures
        r == lowercase(c),
;

/// Relies on char::to_uppercase: yields the full uppercase mapping of the
/// character, which depends on the character alone; a character with no
/// mapping yields itself, so the mapping is never empty.
#[verifier::external_body]
pub(crate) fn char_to_upper(c: char) -> (r: Vec<char>)
    ensures
        r@ == upper_chars(c),
        r@.len() >= 1,
{
    c.to_uppercase().collect()
}

/// Relies on char::to_lowercase: yields the full lowercase mapping of the
/// character, which depends on the character alone; a character with no
/// mapping yields itself, so the mapping is never empty.
#[verifier::external_body]
pub(crate) fn char_to_lower(c: char) -> (r: Vec<char>)
    ensures
        r@ == lower_chars(c),
        r@.len() >= 1,
{
    c.to_lowercase().collect()
}

/// Relies on String's FromIterator impl: collecting characters builds the
/// string of exactly those characters, in order.
#[verifier::external_body]
pub(crate) fn chars_to_string(v: &Vec<char>) -> (r: String)
    ensures
        r@ == v@,
{
    v.iter().collect()
}

} // verus!
