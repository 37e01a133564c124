use vstd::prelude::*;

use std::str::FromStr;

verus! {

/// How long, in seconds, a cached copy of the index stays usable.
pub const CACHE_TTL_SECS: i64 = 300;

/// Why the timestamp of a cached index could not be used.
#[derive(Debug, Clone, Copy, PartialEq, Eq, Structural)]
pub enum CacheError {
    /// The timestamp text is no date and time that can be read.
    BadTimestamp,
}

/// Why a freshly downloaded index could not be used.
#[derive(Debug, Clone, Copy, PartialEq, Eq, Structural)]
pub enum FetchError {
    /// The download is no xz stream of UTF-8 text.
    Decompress,
}

/// A copy fetched at `fetched_at` is still fresh at `now` (both in seconds).
pub open spec fn fresh_spec(fetched_at: int, now: int) -> bool {
    now - fetched_at <= CACHE_TTL_SECS as int
}

/// The instant, in seconds since the Unix epoch, that a timestamp text names.
pub uninterp spec fn stamp_seconds(s: Seq<char>) -> Option<i64>;

/// The text that an xz stream decodes to, when it decodes to UTF-8 text.
pub uninterp spec fn xz_text(b: Seq<u8>) -> Option<Seq<char>>;

/// Relies on chrono's `FromStr` for `DateTime<Utc>` (a relaxed RFC 3339 form,
/// as its `Display` writes it) and on `DateTime::timestamp`: the seconds since
/// the Unix epoch of the instant that the text names.
#[verifier::external_body]
fn parse_stamp(s: &str) -> (r: Option<i64>)
    ensures
        r == stamp_seconds(s@),
{
    match chrono::DateTime::<chrono::Utc>::from_str(s) {
        Ok(d) => Some(d.timestamp()),
        Err(_) => None,
    }
}

/// Relies on chrono's `Utc::now` and `DateTime::timestamp`: the current time,
/// in seconds since the Unix epoch. Nothing is known of its value.
#[verifier::external_body]
fn now_seconds() -> (r: i64) {
    chrono::Utc::now().timestamp()
}

/// Relies on xz's `read::XzDecoder` and `Read::read_to_string`: the text that
/// one xz stream decodes to, or an error where the stream is corrupt or the
/// text is no UTF-8.
#[verifier::external_body]
fn decompress_xz(b: &[u8]) -> (r: Option<String>)
    ensures
        match r {
            Some(s) => xz_text(b@) == Some(s@),
            None => xz_text(b@) is None,
        },
{
    let mut out = String::new();
    match std::io::Read::read_to_string(&mut xz::read::XzDecoder::new(b), &mut out) {
        Ok(_) => Some(out),
        Err(_) => None,
    }
}

/// Whether a copy fetched at `fetched_at` is still fresh at `now`.
pub fn is_fresh(fetched_at: i64, now: i64) -> (r: bool)
    ensures
        r == fresh_spec(fetched_at as int, now as int),
{
    (now as i128) - (fetched_at as i128) <= (CACHE_TTL_SECS as i128)
}

/// Whether a copy whose timestamp reads `stamp` is still fresh at `now`.
pub fn stamp_is_fresh(stamp: &str, now: i64) -> (r: Result<bool, CacheError>)
    ensures
        match stamp_seconds(stamp@) {
            Some(t) => r == Ok::<bool, CacheError>(fresh_spec(t as int, now as int)),
            None => r == Err::<bool, CacheError>(CacheError::BadTimestamp),
        },
{
    match parse_stamp(stamp) {
        Some(t) => Ok(is_fresh(t, now)),
        None => Err(CacheError::BadTimestamp),
    }
}

/// Whether a copy whose timestamp reads `stamp` is fresh now. It fails
/// exactly where the timestamp cannot be read; freshness then depends on the
/// clock.
pub fn cache_is_fresh(stamp: &str) -> (r: Result<bool, CacheError>)
    ensures
        r is Err <==> stamp_seconds(stamp@) is None,
        r is Err ==> r == Err::<bool, CacheError>(CacheError::BadTimestamp),
{
    let now = now_seconds();
    stamp_is_fresh(stamp, now)
}

/// The index text that a downloaded xz stream holds.
pub fn decode_index(compressed: &[u8]) -> (r: Result<String, FetchError>)
    ensures
        match xz_text(compressed@) {
            Some(t) => r matches Ok(s) && s@ == t,
            None => r == Err::<String, FetchError>(FetchError::Decompress),
        },
{
    match decompress_xz(compressed) {
        Some(s) => Ok(s),
        None => Err(FetchError::Decompress),
    }
}

/// A copy one second younger than the time to live is fresh; one older than
/// the time to live is stale.
pub proof fn lemma_ttl_boundary(fetched_at: int, now: int)
    ensures
        now - fetched_at == CACHE_TTL_SECS - 1 ==> fresh_spec(fetched_at, now),
        now - fetched_at > CACHE_TTL_SECS ==> !fresh_spec(fetched_at, now),
{
}

} // verus!
