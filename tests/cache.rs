use proll::{decode_index, is_fresh, stamp_is_fresh, CacheError, FetchError, CACHE_TTL_SECS};
use std::io::Write;

#[test]
fn freshness_boundary() {
    assert_eq!(CACHE_TTL_SECS, 300);
    assert!(is_fresh(1000, 1000 + CACHE_TTL_SECS - 1));
    assert!(is_fresh(1000, 1000 + CACHE_TTL_SECS));
    assert!(!is_fresh(1000, 1000 + CACHE_TTL_SECS + 1));
    assert!(!is_fresh(0, 100_000));
    assert!(is_fresh(1000, 0));
}

#[test]
fn freshness_extremes() {
    assert!(!is_fresh(i64::MIN, i64::MAX));
    assert!(is_fresh(i64::MAX, i64::MIN));
}

#[test]
fn stamp_freshness() {
    let t: i64 = 1_704_067_200;
    assert_eq!(stamp_is_fresh("2024-01-01 00:00:00 UTC", t + 299), Ok(true));
    assert_eq!(stamp_is_fresh("2024-01-01 00:00:00.123456789 UTC", t + 301), Ok(false));
    assert_eq!(stamp_is_fresh("2024-01-01T00:00:00Z", t), Ok(true));
    assert_eq!(stamp_is_fresh("not a date", t), Err(CacheError::BadTimestamp));
    assert_eq!(stamp_is_fresh("", t), Err(CacheError::BadTimestamp));
}

#[test]
fn decode_index_round_trip() {
    let text = "foo-1.0-1-any\nfoo-2.0-1-any\n";
    let mut enc = xz::write::XzEncoder::new(Vec::new(), 6);
    enc.write_all(text.as_bytes()).unwrap();
    let bytes = enc.finish().unwrap();
    assert_ne!(bytes, text.as_bytes());
    assert_eq!(decode_index(&bytes).unwrap(), text);
}

#[test]
fn decode_index_refuses_garbage() {
    assert_eq!(decode_index(b"plain text").unwrap_err(), FetchError::Decompress);
}
