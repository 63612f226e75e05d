//! The calls that this library makes into other crates and into std, each with
//! the contract that its source or documentation shows. Nothing here is
//! proved: every item states what the outside code is trusted to do.

use rand::distributions::{Alphanumeric, DistString};
use rand::Rng;
use std::sync::Arc;
use std::time::Duration;
use timedmap::TimedMap;
use vstd::prelude::*;
use vstd::utf8::{decode_utf8, valid_utf8};

use crate::auth::CHALLENGE_LIFETIME_SECS;
use crate::structs::Challenge;

verus! {

/// What `easy_base64::decode` returns for an input of bytes below 128.
pub uninterp spec fn base64_decoded(input: Seq<u8>) -> Seq<u8>;

/// `easy_base64::decode`: reads each group of four bytes through its table of
/// the base64 alphabet; no bytes give no bytes. It indexes a 128-entry table by the byte, so it panics
/// on a byte of 128 or more, which `requires` leaves out.
#[verifier::external_body]
pub(crate) fn base64_decode(input: &[u8]) -> (out: Vec<u8>)
    requires
        forall|i: int| 0 <= i < input@.len() ==> input@[i] < 128,
    ensures
        out@ == base64_decoded(input@),
        input@.len() == 0 ==> out@.len() == 0,
{
    easy_base64::decode(input)
}

/// What `String::from_utf8_lossy` makes of a sequence of bytes.
pub uninterp spec fn utf8_lossy_decoded(bytes: Seq<u8>) -> Seq<char>;

/// `String::from_utf8_lossy`: decodes UTF-8, putting U+FFFD where the bytes are
/// invalid; bytes that are valid UTF-8 decode exactly, as std documents.
#[verifier::external_body]
pub(crate) fn utf8_lossy(bytes: &[u8]) -> (s: String)
    ensures
        s@ == utf8_lossy_decoded(bytes@),
        valid_utf8(bytes@) ==> s@ == decode_utf8(bytes@),
{
    String::from_utf8_lossy(bytes).into_owned()
}

/// The bits of the `rustrict::Type` that `Censor::analyze` gives for a text
/// with the crate's built-in word list.
pub uninterp spec fn profanity_bits(text: Seq<char>) -> u32;

/// `rustrict::Censor::from_str(text).analyze()`, as the bits of the resulting
/// `Type`. The analysis depends on the text and on the crate's own data.
#[verifier::external_body]
pub(crate) fn profanity_analysis(text: &str) -> (bits: u32)
    ensures
        bits == profanity_bits(text@),
{
    #[allow(deprecated)]
    rustrict::Censor::from_str(text).analyze().bits()
}

/// The UUID, as a 128-bit number, that `uuid::Uuid::parse_str` reads from a
/// text, or `None` where it reports an error.
pub uninterp spec fn parsed_uuid(text: Seq<char>) -> Option<u128>;

/// `uuid::Uuid::parse_str`, with the UUID taken by `as_u128`.
#[verifier::external_body]
pub(crate) fn uuid_parse(text: &str) -> (id: Option<u128>)
    ensures
        id == parsed_uuid(text@),
{
    match uuid::Uuid::parse_str(text) {
        Ok(u) => Some(u.as_u128()),
        Err(_) => None,
    }
}

/// Bits of a UUID that hold its version and variant.
pub const UUID_VERSION_VARIANT_MASK: u128 = 0xF000_C000_0000_0000_0000;

/// Version 4 (random) with the RFC 4122 variant.
pub const UUID_V4_MARK: u128 = 0x4000_8000_0000_0000_0000;

/// `uuid::Uuid::new_v4`: random bits, with the version set to 4 and the
/// variant to RFC 4122, as its source masks them. Nothing else is known of
/// the value.
#[verifier::external_body]
pub(crate) fn uuid_new_v4() -> (id: u128)
    ensures
        id & UUID_VERSION_VARIANT_MASK == UUID_V4_MARK,
{
    uuid::Uuid::new_v4().as_u128()
}

/// An ASCII letter or digit: what `rand::distributions::Alphanumeric` draws.
pub open spec fn is_alphanumeric(c: char) -> bool {
    ('A' <= c && c <= 'Z') || ('a' <= c && c <= 'z') || ('0' <= c && c <= '9')
}

/// `Alphanumeric.sample_string(&mut rand::thread_rng(), len)`: `len` random
/// characters, each an ASCII letter or digit.
#[verifier::external_body]
pub(crate) fn random_alphanumeric(len: usize) -> (s: String)
    ensures
        s@.len() == len,
        forall|i: int| 0 <= i < s@.len() ==> is_alphanumeric(#[trigger] s@[i]),
{
    Alphanumeric.sample_string(&mut rand::thread_rng(), len)
}

/// `rand::thread_rng().gen_range(0..count)`: a random index below `count`.
/// It panics on an empty range, which `requires` leaves out.
#[verifier::external_body]
pub(crate) fn random_below(count: usize) -> (i: usize)
    requires
        count > 0,
    ensures
        i < count,
{
    rand::thread_rng().gen_range(0..count)
}

/// The text that `sha1_smol` prints for the SHA-1 digest of the UTF-8 bytes of
/// a text.
pub uninterp spec fn sha1_hex_text(data: Seq<char>) -> Seq<char>;

pub open spec fn is_lower_hex(c: char) -> bool {
    ('0' <= c && c <= '9') || ('a' <= c && c <= 'f')
}

/// `sha1_smol::Sha1::from(data).digest().to_string()`: the digest's five
/// 32-bit words, each printed as eight lowercase hex digits.
#[verifier::external_body]
pub(crate) fn sha1_hex(data: &str) -> (hex: String)
    ensures
        hex@ == sha1_hex_text(data@),
        hex@.len() == 40,
        forall|i: int| 0 <= i < hex@.len() ==> is_lower_hex(#[trigger] hex@[i]),
{
    sha1_smol::Sha1::from(data.as_bytes()).digest().to_string()
}

/// What `rocket::http::Status` prints for a status code.
pub uninterp spec fn status_display(code: u16) -> Seq<char>;

/// `rocket::http::Status::new(code).to_string()`: the code, a space, and the
/// reason phrase of rocket's table, shown here for the codes this service
/// answers with.
#[verifier::external_body]
pub(crate) fn status_text(code: u16) -> (text: String)
    ensures
        text@ == status_display(code),
        code == 400 ==> text@ == "400 Bad Request"@,
        code == 401 ==> text@ == "401 Unauthorized"@,
        code == 404 ==> text@ == "404 Not Found"@,
        code == 422 ==> text@ == "422 Unprocessable Entity"@,
        code == 500 ==> text@ == "500 Internal Server Error"@,
{
    rocket::http::Status::new(code).to_string()
}

#[verifier::external_type_specification]
#[verifier::external_body]
#[verifier::reject_recursive_types(K)]
#[verifier::reject_recursive_types(V)]
#[verifier::reject_recursive_types(TS)]
pub struct ExTimedMap<K, V, TS>(TimedMap<K, V, TS>);

/// `std::time::Instant`, the clock that `TimedMap<K, V>` names by default as
/// its third type argument; the map's type cannot be declared without it.
#[verifier::external_type_specification]
#[verifier::external_body]
pub struct ExInstant(std::time::Instant);


/// `TimedMap::new`: an empty map whose entries expire by the clock.
#[verifier::external_body]
pub(crate) fn timed_map_new<K, V>() -> (m: Arc<TimedMap<K, V>>) {
    Arc::new(TimedMap::new())
}

/// `TimedMap::insert` of a challenge that lives `secs` seconds. The map is
/// shared and its entries expire by the clock, so no later read is promised.
/// The expiry is `Instant::now()` plus `secs`, which panics when the sum
/// cannot be represented; `requires` keeps `secs` to the few seconds used.
#[verifier::external_body]
pub(crate) fn timed_insert_challenge(m: &TimedMap<i64, Challenge>, key: i64, value: Challenge, secs: u64)
    requires
        secs <= CHALLENGE_LIFETIME_SECS,
{
    m.insert(key, value, Duration::from_secs(secs))
}

/// `TimedMap::insert` of a completion code that lives `secs` seconds. The map
/// is shared and its entries expire by the clock, so no later read is promised.
/// The expiry is `Instant::now()` plus `secs`, which panics when the sum
/// cannot be represented; `requires` keeps `secs` to the few seconds used.
#[verifier::external_body]
pub(crate) fn timed_insert_code(m: &TimedMap<i64, String>, key: i64, value: String, secs: u64)
    requires
        secs <= CHALLENGE_LIFETIME_SECS,
{
    m.insert(key, value, Duration::from_secs(secs))
}

/// `TimedMap::snapshot`: the entries that have not expired, in the order its
/// hash map walks them. What it holds depends on the clock and on other
/// threads, so nothing is promised of it.
#[verifier::external_body]
pub(crate) fn timed_snapshot(m: &TimedMap<i64, Challenge>) -> (entries: Vec<(i64, Challenge)>) {
    m.snapshot()
}

/// `TimedMap::get`: the code stored under `key` unless it expired. What it
/// holds depends on the clock and on other threads, so nothing is promised.
#[verifier::external_body]
pub(crate) fn timed_get(m: &TimedMap<i64, String>, key: i64) -> (code: Option<String>) {
    m.get(&key)
}

/// `TimedMap::remove`: drops the code stored under `key`.
#[verifier::external_body]
pub(crate) fn timed_remove(m: &TimedMap<i64, String>, key: i64) {
    m.remove(&key);
}

} // verus!
