//! Unicode letter case, as std's `char` methods define it.
use vstd::prelude::*;

verus! {

/// Whether a character has the Unicode `Uppercase` property.
pub uninterp spec fn is_upper(c: char) -> bool;

/// Whether a character has the Unicode `Lowercase` property.
pub uninterp spec fn is_lower(c: char) -> bool;

/// The characters that Unicode maps a character to in uppercase.
pub uninterp spec fn upper_of(c: char) -> Seq<char>;

/// The characters that Unicode maps a character to in lowercase.
pub uninterp spec fn lower_of(c: char) -> Seq<char>;

/// Relies on `char::is_uppercase`: the answer depends on the character alone.
#[verifier::external_body]
pub(crate) fn char_is_upper(c: char) -> (r: bool)
    ensures
        r == is_upper(c),
{
    c.is_uppercase()
}

/// Relies on `char::is_lowercase`: the answer depends on the character alone.
#[verifier::external_body]
pub(crate) fn char_is_lower(c: char) -> (r: bool)
    ensures
        r == is_lower(c),
{
    c.is_lowercase()
}

/// Relies on `char::to_uppercase`: the mapping depends on the character alone.
#[verifier::external_body]
pub(crate) fn char_to_upper(c: char) -> (r: String)
    ensures
        r@ == upper_of(c),
{
    c.to_uppercase().collect()
}

/// Relies on `char::to_lowercase`: the mapping depends on the character alone.
#[verifier::external_body]
pub(crate) fn char_to_lower(c: char) -> (r: String)
    ensures
        r@ == lower_of(c),
{
    c.to_lowercase().collect()
}

} // verus!
