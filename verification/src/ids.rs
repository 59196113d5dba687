//! Generation of client-side entry identifiers and session tokens.

use vstd::prelude::*;

verus! {

/// Whether `c` is a lowercase hexadecimal digit.
pub open spec fn is_lower_hex_digit(c: char) -> bool {
    ('0' <= c && c <= '9') || ('a' <= c && c <= 'f')
}

/// Relies on `uuid::Uuid::new_v4` and its `Simple` formatter: a fresh random
/// UUID rendered as exactly 32 lowercase hexadecimal digits.
#[verifier::external_body]
pub fn uuid_v4() -> (r: String)
    ensures
        r@.len() == 32,
        forall|i: int| 0 <= i < 32 ==> is_lower_hex_digit(#[trigger] r@[i]),
{
    uuid::Uuid::new_v4().as_simple().to_string()
}

} // verus!
