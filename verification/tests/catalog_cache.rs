//! Cache-Control parsing and the conditional-request reconciliation.

use rv::asset::Release;
use rv::catalog::{
    CachedRelease, FetchError, cache_is_fresh, parse_max_age, reconcile_response, release_url,
};

#[test]
fn test_parse_cache_header() {
    let input_header = "Cache-Control: max-age=3600, must-revalidate";
    let actual = parse_max_age(input_header).unwrap();
    let expected = 3600;
    assert_eq!(actual, expected);
}

#[test]
fn test_parse_max_age_absent() {
    assert_eq!(parse_max_age("no-cache, must-revalidate"), None);
    assert_eq!(parse_max_age(""), None);
    assert_eq!(parse_max_age("max-age=, no-store"), None);
}

#[test]
fn test_parse_max_age_first_token_wins() {
    assert_eq!(parse_max_age("max-age=10, s-maxage=99, max-age=20"), Some(10));
}

#[test]
fn test_parse_max_age_overflow_yields_nothing() {
    assert_eq!(parse_max_age("max-age=99999999999999999999999"), None);
}

fn catalog(name: &str) -> Release {
    Release { name: name.to_owned(), assets: Vec::new() }
}

fn entry(expires_at: u64, etag: Option<&str>, name: &str) -> CachedRelease {
    CachedRelease { expires_at, etag: etag.map(|e| e.to_owned()), release: catalog(name) }
}

#[test]
fn test_fresh_cache_is_served_without_fetch() {
    let cached = Some(entry(1000, Some("abc"), "v1"));
    assert!(cache_is_fresh(&cached, 999));
    assert!(!cache_is_fresh(&cached, 1000));
    assert!(!cache_is_fresh(&None, 0));
}

#[test]
fn test_not_modified_without_prior_cache_is_an_error() {
    // A 304 with nothing to revalidate signals cache corruption or a
    // misbehaving server; it must surface as an error, not as an empty
    // catalog.
    let r = reconcile_response(None, 304, None, Some("max-age=120"), None, 500);
    assert_eq!(r.unwrap_err(), FetchError::ProtocolViolation);
}

#[test]
fn test_not_modified_extends_expiry_and_keeps_catalog() {
    let cached = Some(entry(400, Some("abc"), "v1"));
    let r = reconcile_response(cached, 304, None, Some("max-age=120"), None, 500).unwrap();
    assert_eq!(r.expires_at, 620);
    assert_eq!(r.etag.as_deref(), Some("abc"));
    assert_eq!(r.release.name, "v1");
}

#[test]
fn test_short_max_age_is_floored_at_minimum_ttl() {
    let cached = Some(entry(400, None, "v1"));
    let r = reconcile_response(cached, 304, None, Some("max-age=5"), None, 500).unwrap();
    assert_eq!(r.expires_at, 560);
}

#[test]
fn test_missing_cache_control_defaults_to_sixty_seconds() {
    let cached = Some(entry(400, None, "v1"));
    let r = reconcile_response(cached, 304, None, None, None, 500).unwrap();
    assert_eq!(r.expires_at, 560);
}

#[test]
fn test_ok_response_replaces_the_entry() {
    let cached = Some(entry(400, Some("old"), "v1"));
    let r = reconcile_response(
        cached,
        200,
        Some("new".to_owned()),
        Some("max-age=300"),
        Some(catalog("v2")),
        500,
    )
    .unwrap();
    assert_eq!(r.expires_at, 800);
    assert_eq!(r.etag.as_deref(), Some("new"));
    assert_eq!(r.release.name, "v2");
}

#[test]
fn test_other_statuses_are_fetch_errors() {
    let r = reconcile_response(None, 502, None, None, None, 0);
    assert_eq!(r.unwrap_err(), FetchError::HttpStatus(502));
    let cached = Some(entry(400, None, "v1"));
    let r = reconcile_response(cached, 404, None, None, None, 500);
    assert_eq!(r.unwrap_err(), FetchError::HttpStatus(404));
}

#[test]
fn test_release_url_appends_fixed_path() {
    assert_eq!(
        release_url("https://api.github.com"),
        "https://api.github.com/repos/spinel-coop/rv-ruby/releases/latest"
    );
}
