//! Random identifiers for profiles and transfer jobs.
use vstd::prelude::*;

verus! {

/// `c` is one of `0-9a-f`.
pub open spec fn is_lower_hex(c: char) -> bool {
    ('0' <= c && c <= '9') || ('a' <= c && c <= 'f')
}

/// `s` is the hyphenated lower-case text of a version-4 UUID:
/// 36 characters, `-` at 8, 13, 18 and 23, hex digits elsewhere, the
/// version digit `4` at 14 and a variant digit `8`, `9`, `a` or `b` at 19.
pub open spec fn is_uuid_v4_text(s: Seq<char>) -> bool {
    &&& s.len() == 36
    &&& forall|i: int| 0 <= i < 36 ==> (if i == 8 || i == 13 || i == 18 || i == 23 {
        #[trigger] s[i] == '-'
    } else {
        is_lower_hex(s[i])
    })
    &&& s[14] == '4'
    &&& (s[19] == '8' || s[19] == '9' || s[19] == 'a' || s[19] == 'b')
}

/// A fresh random identifier.
///
/// Trusted: calls `uuid::Uuid::new_v4` and formats it with `to_string`.
/// The crate sets the version and variant bits of a random 128-bit value and
/// formats it as lower-case hyphenated hex; the contract states that shape,
/// which holds of every outcome, and nothing about which value comes out.
/// The crate panics when the operating system's random source fails; no
/// argument can rule that out, so the contract leaves it unsaid.
#[verifier::external_body]
pub(crate) fn new_uuid() -> (r: String)
    ensures
        is_uuid_v4_text(r@),
{
    uuid::Uuid::new_v4().to_string()
}

/// A fresh identifier for a new connection profile.
pub fn new_profile_id() -> (r: String)
    ensures
        is_uuid_v4_text(r@),
{
    new_uuid()
}

} // verus!
