//! Fresh identifiers for new records.

use vstd::prelude::*;

verus! {

/// `c` is a lower-case hexadecimal digit.
pub open spec fn is_lower_hex(c: char) -> bool {
    ('0' <= c && c <= '9') || ('a' <= c && c <= 'f')
}

/// `i` is one of the four places where a hyphenated identifier has its hyphens.
pub open spec fn is_hyphen_place(i: int) -> bool {
    i == 8 || i == 13 || i == 18 || i == 23
}

/// `s` has the shape of a random (version 4) UUID in its hyphenated lower-case
/// form: 36 characters, hyphens after the 8th, 12th, 16th and 20th hexadecimal
/// digit, the version digit `4` and a variant digit of `8`, `9`, `a` or `b`.
pub open spec fn is_random_uuid_text(s: Seq<char>) -> bool {
    &&& s.len() == 36
    &&& forall|i: int| 0 <= i < 36 && is_hyphen_place(i) ==> #[trigger] s[i] == '-'
    &&& forall|i: int| 0 <= i < 36 && !is_hyphen_place(i) ==> is_lower_hex(#[trigger] s[i])
    &&& s[14] == '4'
    &&& (s[19] == '8' || s[19] == '9' || s[19] == 'a' || s[19] == 'b')
}

/// A new identifier: `uuid::Uuid::new_v4()` written out by `to_string()`.
///
/// Trusted: the identifier is drawn from the operating system's random source,
/// so the contract states only the shape that every outcome has. The uuid
/// crate sets the version and variant bits itself and writes the 16 bytes as
/// lower-case hexadecimal digits in groups of 8, 4, 4, 4 and 12. It panics if
/// the operating system cannot supply random bytes.
#[verifier::external_body]
pub(crate) fn new_random_id() -> (id: String)
    ensures
        is_random_uuid_text(id@),
{
    uuid::Uuid::new_v4().to_string()
}

} // verus!
