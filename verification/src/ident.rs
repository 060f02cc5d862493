//! Identifiers for users and connection requests.
//!
//! An identifier is the text of a random (version 4) UUID. Two identifiers
//! are different with overwhelming probability, not with certainty: what is
//! certain is their shape, stated by [`is_identifier`]. Code that needs
//! certainty checks a new identifier against the ones it already holds.

use vstd::prelude::*;

verus! {

/// A decimal digit or one of the letters `a` to `f`.
pub open spec fn is_lower_hex(c: char) -> bool {
    ('0' <= c && c <= '9') || ('a' <= c && c <= 'f')
}

/// The positions of the four hyphens in the 36 characters of an identifier.
pub open spec fn is_hyphen_position(i: int) -> bool {
    i == 8 || i == 13 || i == 18 || i == 23
}

/// The shape of an identifier: 36 characters in the groups 8-4-4-4-12,
/// hyphens between the groups and lower-case hexadecimal digits elsewhere,
/// with the version digit `4` and a variant digit from `8` to `b`.
pub open spec fn is_identifier(text: Seq<char>) -> bool {
    &&& text.len() == 36
    &&& forall|i: int|
        0 <= i < 36 ==> if is_hyphen_position(i) {
            #[trigger] text[i] == '-'
        } else {
            is_lower_hex(text[i])
        }
    &&& text[14] == '4'
    &&& (text[19] == '8' || text[19] == '9' || text[19] == 'a' || text[19] == 'b')
}

/// Draws a UUID with `uuid::Uuid::new_v4` and renders it with the `Display`
/// impl of `uuid::Uuid`.
///
/// Trusted: `new_v4` sets the version and variant bits of 128 random bits,
/// and `Display` writes the hyphenated lower-case form. Nothing is claimed of
/// the random digits, and two calls may well return different texts. The
/// call panics only where the operating system cannot supply random bytes.
#[verifier::external_body]
fn random_uuid_text() -> (text: String)
    ensures
        is_identifier(text@),
{
    uuid::Uuid::new_v4().to_string()
}

/// A new identifier.
pub fn new_id() -> (id: String)
    ensures
        is_identifier(id@),
{
    random_uuid_text()
}

} // verus!
