//! New object ids.

use vstd::prelude::*;

verus! {

/// A lowercase hexadecimal digit.
pub open spec fn is_lower_hex(c: char) -> bool {
    ('0' <= c && c <= '9') || ('a' <= c && c <= 'f')
}

/// The form of a new id: 32 lowercase hexadecimal digits.
pub open spec fn id_shaped(s: Seq<char>) -> bool {
    &&& s.len() == 32
    &&& forall|i: int| 0 <= i < 32 ==> is_lower_hex(#[trigger] s[i])
}

/// A fresh random id for a new object: `uuid::Uuid::new_v4` written in its
/// simple form, 32 lowercase hexadecimal digits. Which digits is not stated:
/// they are random.
#[verifier::external_body]
pub fn random_task_id() -> (r: String)
    ensures
        id_shaped(r@),
{
    uuid::Uuid::new_v4().simple().to_string()
}

} // verus!
