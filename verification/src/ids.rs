//! Random identifiers.

use uuid::Uuid;
use vstd::prelude::*;

use crate::token::hex_digit;

verus! {

/// A lower case hexadecimal digit.
pub open spec fn is_hex_digit(c: char) -> bool {
    exists|n: int| 0 <= n < 16 && c == #[trigger] hex_digit(n)
}

/// The text of a random UUID of version 4: five groups of lower case hexadecimal digits, of 8, 4, 4,
/// 4 and 12, with hyphens between; the third group starts with the version.
pub open spec fn is_uuid_v4(text: Seq<char>) -> bool {
    &&& text.len() == 36
    &&& forall|i: int|
        0 <= i < 36 ==> if i == 8 || i == 13 || i == 18 || i == 23 {
            (#[trigger] text[i]) == '-'
        } else {
            is_hex_digit(text[i])
        }
    &&& text[14] == '4'
    &&& text[19] == '8' || text[19] == '9' || text[19] == 'a' || text[19] == 'b'
}

/// `uuid::Uuid::new_v4` as text: a random UUID of version 4. Which one is left to chance.
#[verifier::external_body]
fn new_v4_text() -> (r: String)
    ensures
        is_uuid_v4(r@),
{
    Uuid::new_v4().to_string()
}

/// A random identifier.
pub fn random_id() -> (r: String)
    ensures
        is_uuid_v4(r@),
{
    new_v4_text()
}

} // verus!
