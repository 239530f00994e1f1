//! Values drawn from the machine: random tokens and the time of day.

use vstd::prelude::*;

verus! {

/// One of the sixteen lower-case hexadecimal digits.
pub open spec fn is_lower_hex(c: char) -> bool {
    c == '0' || c == '1' || c == '2' || c == '3' || c == '4' || c == '5' || c == '6' || c == '7'
        || c == '8' || c == '9' || c == 'a' || c == 'b' || c == 'c' || c == 'd' || c == 'e' || c
        == 'f'
}

/// The hyphenated lower-case form of a UUID: 36 characters in groups of 8,
/// 4, 4, 4 and 12 hexadecimal digits with a hyphen between the groups.
pub open spec fn is_hyphenated_uuid(s: Seq<char>) -> bool {
    &&& s.len() == 36
    &&& forall|i: int|
        0 <= i < 36 ==> if i == 8 || i == 13 || i == 18 || i == 23 {
            s[i] == '-'
        } else {
            is_lower_hex(#[trigger] s[i])
        }
}

/// Calls `Uuid::new_v4` and formats the outcome with its `Display`, which
/// writes the hyphenated lower-case form. The digits are random: the contract
/// claims the form, which every outcome has, and nothing of the value. The
/// call panics where the operating system yields no random bytes.
#[verifier::external_body]
pub(crate) fn fresh_token() -> (token: String)
    ensures
        is_hyphenated_uuid(token@),
{
    uuid::Uuid::new_v4().to_string()
}

/// Calls `Utc::now` and formats the outcome with `DateTime::to_rfc3339`. The
/// text depends on the clock, so nothing is claimed of it. The call panics
/// where the clock reads a time before 1970.
#[verifier::external_body]
pub(crate) fn timestamp_now() -> (timestamp: String) {
    chrono::Utc::now().to_rfc3339()
}

} // verus!
