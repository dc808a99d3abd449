//! Freshly minted identifiers. The server owns message and task identity:
//! every accepted send gets ids minted here, never the client's.
use vstd::prelude::*;

verus! {

/// A lowercase hexadecimal digit.
pub open spec fn is_lower_hex_digit(c: char) -> bool {
    ('0' <= c <= '9') || ('a' <= c <= 'f')
}

/// The canonical text of a version-4 UUID: 36 characters, lowercase
/// hexadecimal in five hyphen-separated groups, the version nibble `4`,
/// and a variant nibble in `8`..`b`.
pub open spec fn is_uuid_v4_text(s: Seq<char>) -> bool {
    &&& s.len() == 36
    &&& forall|i: int|
        0 <= i < 36 ==> if i == 8 || i == 13 || i == 18 || i == 23 {
            s[i] == '-'
        } else {
            is_lower_hex_digit(#[trigger] s[i])
        }
    &&& s[14] == '4'
    &&& (s[19] == '8' || s[19] == '9' || s[19] == 'a' || s[19] == 'b')
}

/// Relies on uuid::Uuid::new_v4 and uuid's Display form: a random UUID
/// with the version nibble forced to 4 and the variant bits to `10`,
/// rendered as 36 lowercase hyphenated hexadecimal characters. The value
/// is random, so nothing but its shape is stated.
#[verifier::external_body]
pub fn new_uuid_v4() -> (r: String)
    ensures
        is_uuid_v4_text(r@),
{
    uuid::Uuid::new_v4().to_string()
}

} // verus!
