//! Random identifiers.

use vstd::prelude::*;

verus! {

/// A lowercase ASCII letter or digit.
pub open spec fn is_id_char(c: char) -> bool {
    ('a' <= c <= 'z') || ('0' <= c <= '9')
}

/// A text such as `create_id` gives: two to 24 lowercase letters and digits.
pub open spec fn is_id(s: Seq<char>) -> bool {
    &&& 2 <= s.len() <= 24
    &&& forall|i: int| 0 <= i < s.len() ==> is_id_char(#[trigger] s[i])
}

/// `cuid2::create_id`: a random identifier of at most 24 lowercase letters and
/// digits (at least two).
#[verifier::external_body]
pub(crate) fn create_id() -> (res: String)
    ensures
        2 <= res@.len() <= 24,
        forall|i: int| 0 <= i < res@.len() ==> is_id_char(#[trigger] res@[i]),
{
    cuid2::create_id()
}

} // verus!
