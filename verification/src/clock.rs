//! The clock, dates in text, and random identifiers.

use crate::text;
use vstd::prelude::*;
use vstd::string::*;

verus! {

/// The seconds since 1970 of the date and time that `text` spells out in the
/// format of RFC 3339, if it does.
pub uninterp spec fn rfc3339(text: Seq<char>) -> Option<i64>;

pub open spec fn lower_hex(c: char) -> bool {
    '0' <= c <= '9' || 'a' <= c <= 'f'
}

/// An identifier: a prefix and eight hexadecimal digits.
pub open spec fn tagged(prefix: Seq<char>, id: Seq<char>) -> bool {
    &&& id.len() == prefix.len() + 8
    &&& text::begins(id, prefix)
    &&& forall|i: int| prefix.len() <= i < id.len() ==> lower_hex(#[trigger] id[i])
}

/// `chrono::DateTime::parse_from_rfc3339` and the timestamp of what it reads:
/// a function of the text, under the name `rfc3339`.
#[verifier::external_body]
pub(crate) fn parse_rfc3339_timestamp(value: &str) -> (r: Option<i64>)
    ensures
        r == rfc3339(value@),
{
    chrono::DateTime::parse_from_rfc3339(value).ok().map(|dt| dt.timestamp())
}

/// `chrono::Utc::now`, in seconds since 1970. Nothing is known of it.
#[verifier::external_body]
pub(crate) fn now_seconds() -> (r: i64)
{
    chrono::Utc::now().timestamp()
}

/// `chrono::Utc::now`, as text in the format of RFC 3339. Nothing is known of
/// it.
#[verifier::external_body]
pub(crate) fn now_rfc3339() -> (r: String)
{
    chrono::Utc::now().to_rfc3339()
}

/// `uuid::Uuid::new_v4` in its simple form: thirty-two lowercase hexadecimal
/// digits, with no word on which.
#[verifier::external_body]
fn random_digits() -> (r: String)
    ensures
        r@.len() == 32,
        forall|i: int| 0 <= i < 32 ==> lower_hex(#[trigger] r@[i]),
{
    uuid::Uuid::new_v4().simple().to_string()
}

/// An identifier of thirty-two lowercase hexadecimal digits in five groups.
pub open spec fn hyphenated(id: Seq<char>) -> bool {
    &&& id.len() == 36
    &&& forall|i: int|
        0 <= i < 36 ==> if i == 8 || i == 13 || i == 18 || i == 23 {
            #[trigger] id[i] == '-'
        } else {
            lower_hex(id[i])
        }
}

/// `uuid::Uuid::new_v4` in its usual form: thirty-two lowercase hexadecimal digits
/// in five groups, with no word on which.
#[verifier::external_body]
pub(crate) fn random_uuid() -> (r: String)
    ensures
        hyphenated(r@),
{
    uuid::Uuid::new_v4().to_string()
}

/// A fresh identifier behind `prefix`.
pub fn fresh_id(prefix: &str) -> (r: String)
    ensures
        tagged(prefix@, r@),
{
    let digits = text::chars_of(random_digits().as_str());
    let tail = text::string_of(&digits, 0, 8);
    let out = text::concat(prefix, tail.as_str());
    proof {
        assert(out@.take(prefix@.len() as int) =~= prefix@);
        assert forall|i: int| prefix@.len() <= i < out@.len() implies lower_hex(
            #[trigger] out@[i],
        ) by {
            assert(out@[i] == digits@[i - prefix@.len()]);
        }
    }
    out
}

} // verus!
