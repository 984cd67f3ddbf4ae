//! Version parsing, rendering, ordering and request matching.

use rv::ruby::Ruby;
use rv::resolve::matching_ruby;
use rv::scan::sort_rubies;
use rv::version::{RubyEngine, RubyRequest, RubyVersion, compare_versions};

fn v(text: &str) -> RubyVersion {
    RubyVersion::parse(text).unwrap()
}

fn installed(version: &str, path: &str) -> Ruby {
    let version = v(version);
    let version_str = version.display_name();
    Ruby {
        key: format!("{version_str}-linux-x86_64"),
        version,
        path: path.to_owned(),
        symlink: None,
        arch: "x86_64".into(),
        os: "linux".into(),
        gem_root: None,
    }
}

#[test]
fn test_parse_plain_version() {
    let p = v("3.2.0");
    assert_eq!(p.engine, RubyEngine::Ruby);
    assert_eq!(p.major, Some(3));
    assert_eq!(p.minor, Some(2));
    assert_eq!(p.patch, Some(0));
    assert_eq!(p.tiny, None);
    assert_eq!(p.prerelease, None);
}

#[test]
fn test_parse_engine_prefix_and_tiny_part() {
    let p = v("jruby-9.4.13.1");
    assert_eq!(p.engine, RubyEngine::JRuby);
    assert_eq!(p.major, Some(9));
    assert_eq!(p.minor, Some(4));
    assert_eq!(p.patch, Some(13));
    assert_eq!(p.tiny, Some(1));
}

#[test]
fn test_parse_prerelease() {
    let p = v("3.2.0-rc1");
    assert_eq!(p.prerelease.as_deref(), Some("rc1"));
    let p = v("1.9.2-p0");
    assert_eq!(p.patch, Some(2));
    assert_eq!(p.prerelease.as_deref(), Some("p0"));
}

#[test]
fn test_parse_bare_engine_is_unconstrained_request() {
    let p = v("mruby");
    assert_eq!(p.engine, RubyEngine::MRuby);
    assert_eq!(p.major, None);
}

#[test]
fn test_parse_trims_whitespace() {
    // Pin files end with a newline; parsing tolerates it.
    let p = v("3.2.0\n");
    assert_eq!(p.major, Some(3));
    assert_eq!(p.display_name(), "ruby-3.2.0");
}

#[test]
fn test_parse_rejects_malformed_text() {
    assert!(RubyVersion::parse("").is_err());
    assert!(RubyVersion::parse("pypy-1.0").is_err());
    assert!(RubyVersion::parse("3.2.0-").is_err());
    assert!(RubyVersion::parse("1.2.3.4.5").is_err());
    assert!(RubyVersion::parse("ruby-").is_err());
    assert!(RubyVersion::parse("3..2").is_err());
    assert!(RubyVersion::parse("3.2abc").is_err());
}

#[test]
fn test_display_name_round_trip() {
    for text in ["ruby-3.10.0", "jruby-9.4.13.1", "ruby-3.2.0-rc1", "truffleruby-24.1.0"] {
        assert_eq!(v(text).display_name(), text);
    }
    assert_eq!(v("3.2.0").display_name(), "ruby-3.2.0");
}

#[test]
fn test_number_string_has_no_engine() {
    assert_eq!(v("jruby-9.4.13.1").number_string(), "9.4.13.1");
    assert_eq!(v("3.2.0-rc1").number_string(), "3.2.0-rc1");
}

#[test]
fn test_version_ordering() {
    // Numeric parts compare as numbers, not as text.
    assert_eq!(compare_versions(&v("3.9.0"), &v("3.10.0")), -1);
    // A release outranks its own prereleases; prereleases compare
    // lexicographically.
    assert_eq!(compare_versions(&v("3.2.0-rc1"), &v("3.2.0-preview3")), 1);
    assert_eq!(compare_versions(&v("3.2.0"), &v("3.2.0-rc1")), 1);
    // Engines partition the order: standard Ruby sorts first.
    assert_eq!(compare_versions(&v("ruby-3.3.0"), &v("jruby-9.4.0.0")), -1);
    assert_eq!(compare_versions(&v("3.2.0"), &v("3.2.0")), 0);
}

#[test]
fn test_satisfied_by_matches_constrained_parts_only() {
    let req: RubyRequest = v("3.2");
    assert!(req.satisfied_by_version(&v("3.2.5")));
    assert!(req.satisfied_by_version(&v("3.2.0-rc1")));
    assert!(!req.satisfied_by_version(&v("3.3.0")));
    assert!(!req.satisfied_by_version(&v("jruby-3.2.0")));
    let any: RubyRequest = RubyRequest::default();
    assert!(any.satisfied_by_version(&v("3.999.0")));
    assert!(!any.satisfied_by_version(&v("jruby-9.4.0.0")));
}

#[test]
fn test_matching_ruby_prefers_the_last_match() {
    let rubies = vec![
        installed("3.2.0", "/opt/rubies/ruby-3.2.0"),
        installed("3.2.5", "/opt/rubies/ruby-3.2.5"),
        installed("3.3.0", "/opt/rubies/ruby-3.3.0"),
    ];
    let req = v("3.2");
    let found = matching_ruby(&req, &rubies).unwrap();
    assert_eq!(found.path, "/opt/rubies/ruby-3.2.5");
}

#[test]
fn test_matching_ruby_absent_match_is_none() {
    let rubies = vec![installed("3.2.0", "/opt/rubies/ruby-3.2.0")];
    assert!(matching_ruby(&v("3.4"), &rubies).is_none());
    assert!(matching_ruby(&v("3.2"), &Vec::new()).is_none());
}

#[test]
fn test_sort_is_scan_order_independent() {
    // The same set of installations, found in two different orders,
    // sorts to the same list.
    let one = vec![
        installed("3.2.0", "/x"),
        installed("jruby-9.4.0.0", "/y"),
        installed("3.3.1", "/z"),
    ];
    let other = vec![
        installed("3.3.1", "/z"),
        installed("3.2.0", "/x"),
        installed("jruby-9.4.0.0", "/y"),
    ];
    assert_eq!(sort_rubies(one), sort_rubies(other));
}

#[test]
fn test_sort_rubies_orders_by_engine_version_then_path() {
    let input = vec![
        installed("jruby-9.4.0.0", "/a"),
        installed("3.3.0", "/b"),
        installed("3.2.0", "/c"),
        installed("3.2.0", "/a"),
    ];
    let sorted = sort_rubies(input);
    let paths: Vec<&str> = sorted.iter().map(|r| r.path.as_str()).collect();
    assert_eq!(paths, vec!["/a", "/c", "/b", "/a"]);
    let names: Vec<String> = sorted.iter().map(|r| r.display_name()).collect();
    assert_eq!(names, vec!["ruby-3.2.0", "ruby-3.2.0", "ruby-3.3.0", "jruby-9.4.0.0"]);
}
