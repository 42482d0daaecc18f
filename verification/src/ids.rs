//! User identifiers as UUID values.

use vstd::prelude::*;
use vstd::arithmetic::power2::pow2;
use crate::digest::hex_of;

verus! {

/// The 128-bit value of the UUID that `uuid::Uuid::parse_str` reads from
/// the text, or `None` when it rejects it.
pub uninterp spec fn parsed_uuid(s: Seq<char>) -> Option<u128>;

/// Parses a UUID.
///
/// Trusted: calls `uuid::Uuid::parse_str` and takes the parsed value as a
/// `u128`; the result is named by `parsed_uuid` of the text.
#[verifier::external_body]
pub(crate) fn parse_uuid(s: &str) -> (r: Option<u128>)
    ensures
        r == parsed_uuid(s@),
{
    uuid::Uuid::parse_str(s).ok().map(|u| u.as_u128())
}

/// The owner identity of a user: its id parsed as a UUID, or the nil UUID
/// (zero) when the id is not a UUID.
pub open spec fn owner_uuid(user_id: Seq<char>) -> u128 {
    match parsed_uuid(user_id) {
        Some(u) => u,
        None => 0,
    }
}

/// The owner identity of a user.
pub fn get_user_uuid(user_id: &str) -> (u: u128)
    ensures
        u == owner_uuid(user_id@),
{
    match parse_uuid(user_id) {
        Some(u) => u,
        None => 0,
    }
}


/// The 16 bytes of a UUID value, most significant first.
pub open spec fn uuid_bytes(u: u128) -> Seq<u8> {
    Seq::new(16, |i: int| ((u as int / pow2((8 * (15 - i)) as nat) as int) % 256) as u8)
}

/// The hyphenated lowercase text of a UUID value: its 32 hexadecimal digits
/// in groups of 8, 4, 4, 4 and 12.
pub open spec fn uuid_hyphenated(u: u128) -> Seq<char> {
    let h = hex_of(uuid_bytes(u));
    h.subrange(0, 8) + "-"@ + h.subrange(8, 12) + "-"@ + h.subrange(12, 16) + "-"@ + h.subrange(
        16,
        20,
    ) + "-"@ + h.subrange(20, 32)
}

/// Text of a UUID value.
///
/// Trusted: calls `uuid::Uuid::from_u128` (the value's bytes, most
/// significant first) and `to_string`, whose `Display` the `uuid` crate
/// documents as the hyphenated lowercase form.
#[verifier::external_body]
pub(crate) fn uuid_text(u: u128) -> (s: String)
    ensures
        s@ == uuid_hyphenated(u),
{
    uuid::Uuid::from_u128(u).to_string()
}

/// The simple text of a UUID value: its 32 lowercase hexadecimal digits.
pub open spec fn uuid_simple(u: u128) -> Seq<char> {
    hex_of(uuid_bytes(u))
}

/// Simple (unhyphenated) text of a UUID value.
///
/// Trusted: calls `uuid::Uuid::from_u128` and formats `simple()`, which the
/// `uuid` crate documents as the 32 lowercase hexadecimal digits of the
/// value's bytes, most significant first.
#[verifier::external_body]
pub(crate) fn uuid_simple_text(u: u128) -> (s: String)
    ensures
        s@ == uuid_simple(u),
{
    uuid::Uuid::from_u128(u).simple().to_string()
}

/// A fresh random UUID.
///
/// Trusted: calls `uuid::Uuid::new_v4`, whose value is random apart from
/// its version field, which is 4.  Nothing else is stated of it.
#[verifier::external_body]
pub(crate) fn random_uuid() -> (u: u128)
    ensures
        (u >> 76u128) & 0xfu128 == 4,
{
    uuid::Uuid::new_v4().as_u128()
}

} // verus!
