//! Values that come from outside the library's logic: clock readings, wall
//! time, fresh keys and digests.
use vstd::prelude::*;

verus! {

/// Declares std::time::Instant, carried as the origin of a context's clock.
#[verifier::external_type_specification]
#[verifier::external_body]
pub struct ExInstant(std::time::Instant);

/// A wall-clock instant in UTC: seconds since the Unix epoch and the
/// nanoseconds within that second.
#[derive(Debug, Clone, Copy, PartialEq, Eq, Structural)]
pub struct Timestamp {
    pub secs: i64,
    pub nanos: u32,
}

/// Relies on std::time::Instant::now: a reading of the monotonic clock.
#[verifier::external_body]
pub fn instant_now() -> (r: std::time::Instant) {
    std::time::Instant::now()
}

/// Relies on std::time::Instant::elapsed: the nanoseconds since `origin`.
#[verifier::external_body]
pub fn elapsed_nanos(origin: &std::time::Instant) -> (r: u64) {
    origin.elapsed().as_nanos() as u64
}

/// Relies on chrono::Utc::now: the current wall-clock time.
#[verifier::external_body]
pub fn utc_now() -> (r: Timestamp) {
    let now = chrono::Utc::now();
    Timestamp { secs: now.timestamp(), nanos: now.timestamp_subsec_nanos() }
}

/// The RFC 3339 text chrono writes for a UTC instant, where it can represent it.
pub uninterp spec fn rfc3339(secs: i64, nanos: u32) -> Option<Seq<char>>;

/// Relies on chrono::DateTime::from_timestamp and DateTime::to_rfc3339: the
/// text depends on the instant alone.
#[verifier::external_body]
pub fn rfc3339_text(t: &Timestamp) -> (r: Option<String>)
    ensures
        r matches Some(s) ==> rfc3339(t.secs, t.nanos) == Some(s@),
        r is None ==> rfc3339(t.secs, t.nanos) is None,
{
    match chrono::DateTime::from_timestamp(t.secs, t.nanos) {
        Some(d) => Some(d.to_rfc3339()),
        None => None,
    }
}

/// Relies on uuid::Uuid::new_v4 and its hyphenated text: a fresh random key
/// of 36 characters.
#[verifier::external_body]
pub fn new_key() -> (r: String)
    ensures
        r@.len() == 36,
{
    uuid::Uuid::new_v4().to_string()
}

/// A lower-case hexadecimal digit.
pub open spec fn is_lower_hex(c: char) -> bool {
    ('0' <= c && c <= '9') || ('a' <= c && c <= 'f')
}

/// The lower-case hexadecimal SHA-256 digest of the UTF-8 bytes of a text.
pub uninterp spec fn sha256_hex(s: Seq<char>) -> Seq<char>;

/// Relies on sha2::Sha256::digest, written with `{:x}`: 64 hex digits that
/// depend on the text alone.
#[verifier::external_body]
pub fn sha256_hex_text(s: &str) -> (r: String)
    ensures
        r@ == sha256_hex(s@),
        r@.len() == 64,
        forall|i: int| 0 <= i < r@.len() ==> is_lower_hex(#[trigger] r@[i]),
{
    format!("{:x}", <sha2::Sha256 as sha2::Digest>::digest(s.as_bytes()))
}

} // verus!
