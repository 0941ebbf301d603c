//! Fresh identifiers for websocket handlers and user requests.

use vstd::prelude::*;

verus! {

/// The shape of a hyphenated UUID: 36 characters with hyphens at positions 8,
/// 13, 18 and 23.
pub open spec fn hyphenated_shape(s: Seq<char>) -> bool {
    &&& s.len() == 36
    &&& s[8] == '-' && s[13] == '-' && s[18] == '-' && s[23] == '-'
}

/// A fresh random identifier: `uuid::Uuid::new_v4()` written in its hyphenated
/// form. The value is random; only its documented shape is stated: 36
/// characters with hyphens at positions 8, 13, 18 and 23.
#[verifier::external_body]
pub(crate) fn new_v4_string() -> (s: String)
    ensures
        hyphenated_shape(s@),
{
    uuid::Uuid::new_v4().to_string()
}

} // verus!
