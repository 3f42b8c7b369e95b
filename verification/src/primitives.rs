//! Digests, codes and clocks of other crates, with what the library takes for granted of them.

use chrono::{DateTime, NaiveDateTime, Utc};
use hmac::{Hmac, Mac};
use sha2::{Digest, Sha256};
use vstd::prelude::*;

use crate::text::is_hex_digit;

verus! {

/// The 32 bytes of a SHA-256 digest.
pub uninterp spec fn sha256_array(bytes: Seq<u8>) -> [u8; 32];

/// The SHA-256 digest of a byte string.
pub open spec fn sha256(bytes: Seq<u8>) -> Seq<u8> {
    sha256_array(bytes)@
}

/// `sha2::Sha256::digest` returns the digest of its argument, which is 32 bytes long.
#[verifier::external_body]
pub(crate) fn sha256_digest(value: &[u8]) -> (r: Vec<u8>)
    ensures
        r@ == sha256_array(value@)@,
{
    Sha256::digest(value).to_vec()
}

/// The HMAC-SHA-256 tag of a message under a key.
pub uninterp spec fn hmac_tag(key: Seq<u8>, message: Seq<u8>) -> Seq<u8>;

/// `hmac::Hmac::<Sha256>` takes a key of any length; `finalize` returns the tag of what `update`
/// was given.
#[verifier::external_body]
pub(crate) fn hmac_sha256(key: &[u8], value: &[u8]) -> (r: Vec<u8>)
    ensures
        r@ == hmac_tag(key@, value@),
{
    let mut hmac = Hmac::<Sha256>::new_from_slice(key).expect("HMAC accepts keys of any length");
    hmac.update(value);
    hmac.finalize().into_bytes().to_vec()
}

/// `hmac::Mac::verify_slice` accepts exactly the tag that `finalize` would return.
#[verifier::external_body]
pub(crate) fn hmac_verifies(key: &[u8], value: &[u8], tag: &[u8]) -> (r: bool)
    ensures
        r == (tag@ == hmac_tag(key@, value@)),
{
    let mut hmac = Hmac::<Sha256>::new_from_slice(key).expect("HMAC accepts keys of any length");
    hmac.update(value);
    hmac.verify_slice(tag).is_ok()
}

/// The lower-case hexadecimal digit of a value below sixteen.
pub open spec fn hex_digit(n: int) -> char {
    if n < 10 {
        (48 + n) as char
    } else {
        (87 + n) as char
    }
}

/// Two lower-case hexadecimal digits for each byte.
pub open spec fn hex_text(bytes: Seq<u8>) -> Seq<char> {
    Seq::new(
        2 * bytes.len(),
        |i: int|
            if i % 2 == 0 {
                hex_digit(bytes[i / 2] as int / 16)
            } else {
                hex_digit(bytes[i / 2] as int % 16)
            },
    )
}

/// `hex::encode` writes two lower-case digits for each byte, the high half first.
#[verifier::external_body]
pub(crate) fn hex_encode(value: &[u8]) -> (r: String)
    ensures
        r@ == hex_text(value@),
{
    hex::encode(value)
}

/// The value of a hexadecimal digit of either case.
pub open spec fn hex_value(c: char) -> int {
    if '0' <= c <= '9' {
        c as int - 48
    } else if 'a' <= c <= 'f' {
        c as int - 87
    } else {
        c as int - 55
    }
}

/// The bytes that pairs of hexadecimal digits stand for.
pub open spec fn unhex(text: Seq<char>) -> Option<Seq<u8>> {
    if text.len() % 2 == 0 && forall|i: int|
        0 <= i < text.len() ==> is_hex_digit(#[trigger] text[i]) {
        Some(
            Seq::new(
                text.len() / 2,
                |i: int| (16 * hex_value(text[2 * i]) + hex_value(text[2 * i + 1])) as u8,
            ),
        )
    } else {
        None
    }
}

/// `hex::decode` fails on an odd number of digits and on anything that is no digit, and else
/// reads each two digits as a byte.
#[verifier::external_body]
pub(crate) fn hex_decode(text: &str) -> (r: Option<Vec<u8>>)
    ensures
        match (r, unhex(text@)) {
            (Some(bytes), Some(expected)) => bytes@ == expected,
            (None, None) => true,
            _ => false,
        },
{
    hex::decode(text).ok()
}

/// A point in time: whole seconds since 1970 in UTC, and nanoseconds within the second. In a leap
/// second the nanoseconds go on counting past one thousand million.
#[derive(Clone, Copy, Debug, PartialEq, Eq, Structural)]
pub struct Timestamp {
    pub seconds: i64,
    pub nanos: u32,
}

/// The time that a text in a given form stands for, in UTC.
pub uninterp spec fn utc_time(text: Seq<char>, format: Seq<char>) -> Option<Timestamp>;

/// `chrono::NaiveDateTime::parse_from_str`, taken as UTC.
#[verifier::external_body]
pub(crate) fn read_utc_time(text: &str, format: &str) -> (r: Option<Timestamp>)
    ensures
        r == utc_time(text@, format@),
{
    let time = NaiveDateTime::parse_from_str(text, format).ok()?.and_utc();
    Some(Timestamp { seconds: time.timestamp(), nanos: time.timestamp_subsec_nanos() })
}

/// The whole seconds from one time to another, where both exist.
pub uninterp spec fn clock_difference(now: Timestamp, then_at: Timestamp) -> Option<i64>;

/// The time is no leap second and lies in the years 1 to 9999.
pub open spec fn ordinary_time(time: Timestamp) -> bool {
    time.nanos < 1_000_000_000 && -62_135_596_800 <= time.seconds <= 253_402_300_799
}

/// The difference in nanoseconds, without leap seconds.
pub open spec fn nanos_between(now: Timestamp, then_at: Timestamp) -> int {
    (now.seconds - then_at.seconds) * 1_000_000_000 + now.nanos - then_at.nanos
}

/// `chrono::TimeDelta::num_seconds` of the difference of two `chrono::DateTime<Utc>`: of ordinary
/// times it is the difference in seconds, rounded toward zero. There is none where
/// `DateTime::from_timestamp` knows no such time. How a leap second counts is left unsaid.
#[verifier::external_body]
pub(crate) fn seconds_between(now: Timestamp, then_at: Timestamp) -> (r: Option<i64>)
    ensures
        r == clock_difference(now, then_at),
        ordinary_time(now) && ordinary_time(then_at) ==> r == Some(
            (if nanos_between(now, then_at) >= 0 {
                nanos_between(now, then_at) / 1_000_000_000
            } else {
                -((-nanos_between(now, then_at)) / 1_000_000_000)
            }) as i64,
        ),
{
    let now = DateTime::from_timestamp(now.seconds, now.nanos)?;
    let then_at = DateTime::from_timestamp(then_at.seconds, then_at.nanos)?;
    Some((now - then_at).num_seconds())
}

/// `chrono::Utc::now` reads the system clock, which has no leap seconds.
#[verifier::external_body]
pub(crate) fn utc_now() -> (r: Timestamp)
    ensures
        r.nanos < 1_000_000_000,
{
    let now = Utc::now();
    Timestamp { seconds: now.timestamp(), nanos: now.timestamp_subsec_nanos() }
}

/// The form of a random identifier: 36 lower-case hexadecimal digits and hyphens, with hyphens at
/// four fixed places and the version four behind the second of them.
pub open spec fn is_uuid_text(text: Seq<char>) -> bool {
    &&& text.len() == 36
    &&& text[14] == '4'
    &&& forall|i: int|
        0 <= i < 36 ==> if i == 8 || i == 13 || i == 18 || i == 23 {
            #[trigger] text[i] == '-'
        } else {
            '0' <= text[i] <= '9' || 'a' <= text[i] <= 'f'
        }
}

/// `uuid::Uuid::new_v4` as text. Which identifier it is depends on chance.
#[verifier::external_body]
pub(crate) fn random_uuid() -> (r: String)
    ensures
        is_uuid_text(r@),
{
    uuid::Uuid::new_v4().to_string()
}

/// The host and port of a URL, where it has both; the port may be the scheme's usual one.
pub uninterp spec fn url_address_of(url: Seq<char>) -> Option<(Seq<char>, u16)>;

/// `reqwest::Url::parse`, and `host_str` and `port_or_known_default` of that.
#[verifier::external_body]
pub(crate) fn url_address(url: &str) -> (r: Option<(String, u16)>)
    ensures
        match (r, url_address_of(url@)) {
            (Some(a), Some(b)) => a.0@ == b.0 && a.1 == b.1,
            (None, None) => true,
            _ => false,
        },
{
    let url = reqwest::Url::parse(url).ok()?;
    Some((url.host_str()?.to_owned(), url.port_or_known_default()?))
}

} // verus!
