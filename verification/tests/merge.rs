//! The merge of installed runtimes with the remote catalog.

use rv::asset::{Asset, Release};
use rv::list::{JsonRubyEntry, installed_entries, latest_patch_version, rubies_to_show};
use rv::ruby::Ruby;
use rv::version::RubyVersion;

fn ruby(version: &str) -> Ruby {
    let version = RubyVersion::parse(version).unwrap();
    let version_str = version.display_name();
    Ruby {
        key: format!("{version_str}-macos-aarch64"),
        version,
        path: format!(
            "https://github.com/spinel-coop/rv-ruby/releases/download/latest/{version_str}.arm64_linux.tar.gz"
        ),
        symlink: None,
        arch: "aarch64".into(),
        os: "macos".into(),
        gem_root: None,
    }
}

fn u(version: &str) -> String {
    format!(
        "https://github.com/spinel-coop/rv-ruby/releases/download/latest/ruby-{version}.arm64_linux.tar.gz"
    )
}

struct ShowTest {
    test_name: &'static str,
    release: Release,
    installed_rubies: Vec<Ruby>,
    active_ruby: Option<Ruby>,
    current_platform_arch: &'static str,
    expected: Vec<JsonRubyEntry>,
}

#[test]
fn test_rubies_to_show() {
    let tests = vec![
        // Nothing weird should happen if there's no locally-installed versions.
        ShowTest {
            test_name: "no local installs",
            release: Release {
                name: "latest".to_owned(),
                assets: vec![Asset {
                    name: "ruby-3.3.0.arm64_sonoma.tar.gz".to_owned(),
                    browser_download_url: u("3.3.0"),
                }],
            },
            installed_rubies: Vec::new(),
            active_ruby: None,
            current_platform_arch: "arm64_sonoma",
            expected: vec![JsonRubyEntry {
                details: ruby("ruby-3.3.0"),
                installed: false,
                active: false,
            }],
        },
        // Nothing weird should happen if there's no remotely-available
        // versions.  The entry came from the installed list, so it is
        // marked installed whatever its path looks like.
        ShowTest {
            test_name: "only local installs, no remote available",
            release: Release { name: "latest".to_owned(), assets: Vec::new() },
            installed_rubies: vec![ruby("ruby-3.3.0")],
            active_ruby: None,
            current_platform_arch: "arm64_sonoma",
            expected: vec![JsonRubyEntry {
                details: ruby("ruby-3.3.0"),
                installed: true,
                active: false,
            }],
        },
        // Locally-installed and remotely-available both get merged together.
        ShowTest {
            test_name: "both local and remote, different minor versions",
            release: Release {
                name: "latest".to_owned(),
                assets: vec![Asset {
                    name: "ruby-3.4.0.arm64_sonoma.tar.gz".to_owned(),
                    browser_download_url: u("3.4.0"),
                }],
            },
            installed_rubies: vec![ruby("ruby-3.3.0")],
            active_ruby: None,
            current_platform_arch: "arm64_sonoma",
            expected: vec![
                JsonRubyEntry { details: ruby("ruby-3.3.0"), installed: true, active: false },
                JsonRubyEntry { details: ruby("ruby-3.4.0"), installed: false, active: false },
            ],
        },
        // The locally-installed versions should always be shown,
        // even if they're an older patch version compared to something available
        // on remote.
        ShowTest {
            test_name: "both local and remote, different patch versions",
            release: Release {
                name: "latest".to_owned(),
                assets: vec![Asset {
                    name: "ruby-3.4.0.arm64_sonoma.tar.gz".to_owned(),
                    browser_download_url: u("3.4.0"),
                }],
            },
            installed_rubies: vec![ruby("ruby-3.4.1")],
            active_ruby: None,
            current_platform_arch: "arm64_sonoma",
            expected: vec![
                JsonRubyEntry { details: ruby("ruby-3.4.0"), installed: false, active: false },
                JsonRubyEntry { details: ruby("ruby-3.4.1"), installed: true, active: false },
            ],
        },
        // Only the remote with the latest version should be shown.
        ShowTest {
            test_name: "both local and remote, different patch versions",
            release: Release {
                name: "latest".to_owned(),
                assets: vec![
                    Asset {
                        name: "ruby-3.4.0.arm64_sonoma.tar.gz".to_owned(),
                        browser_download_url: u("3.4.0"),
                    },
                    Asset {
                        name: "ruby-3.4.1.arm64_sonoma.tar.gz".to_owned(),
                        browser_download_url: u("3.4.1"),
                    },
                ],
            },
            installed_rubies: vec![ruby("ruby-3.3.1")],
            active_ruby: None,
            current_platform_arch: "arm64_sonoma",
            expected: vec![
                JsonRubyEntry { details: ruby("ruby-3.3.1"), installed: true, active: false },
                JsonRubyEntry { details: ruby("ruby-3.4.1"), installed: false, active: false },
            ],
        },
    ];

    for ShowTest {
        test_name,
        release,
        installed_rubies,
        active_ruby,
        current_platform_arch,
        expected,
    } in tests
    {
        let actual = rubies_to_show(release, installed_rubies, active_ruby, current_platform_arch);
        assert_eq!(actual, expected, "failed test case '{test_name}'");
    }
}

struct PatchTest {
    name: &'static str,
    input: Vec<Ruby>,
    expected: Vec<Ruby>,
}

#[test]
fn test_latest_patch_version() {
    let tests = vec![
        PatchTest {
            name: "prefers_highest_patch_per_minor",
            input: vec![
                ruby("ruby-3.2.0"),
                ruby("ruby-3.1.5"),
                ruby("ruby-3.2.2"),
                ruby("ruby-3.1.6"),
            ],
            expected: vec![ruby("ruby-3.1.6"), ruby("ruby-3.2.2")],
        },
        PatchTest {
            name: "prefers_latest_prerelease_when_all_patch_are_the_same",
            input: vec![
                ruby("ruby-3.2.0-preview1"),
                ruby("ruby-3.2.0-rc1"),
                ruby("ruby-3.2.0-preview3"),
            ],
            expected: vec![ruby("ruby-3.2.0-rc1")],
        },
        PatchTest {
            name: "respects_engine_boundaries",
            input: vec![
                ruby("jruby-9.4.12.0"),
                ruby("ruby-3.3.1"),
                ruby("jruby-9.4.13.1"),
                ruby("jruby-9.4.13.0"),
                ruby("ruby-3.3.2"),
            ],
            expected: vec![ruby("ruby-3.3.2"), ruby("jruby-9.4.13.1")],
        },
    ];

    for PatchTest { name, input, expected } in tests {
        let actual = latest_patch_version(input);
        assert_eq!(
            actual, expected,
            "Failed test {name}, got {actual:?} but expected {expected:?}"
        );
    }
}

fn local_ruby(version: &str, path: &str) -> Ruby {
    let version = RubyVersion::parse(version).unwrap();
    let version_str = version.display_name();
    Ruby {
        key: format!("{version_str}-macos-aarch64"),
        version,
        path: path.to_owned(),
        symlink: None,
        arch: "aarch64".into(),
        os: "macos".into(),
        gem_root: None,
    }
}

#[test]
fn test_installed_ruby_marked_installed() {
    // A locally-installed runtime (non-URL path) is marked installed and
    // shadows the same display name from the catalog entirely.
    let release = Release {
        name: "latest".to_owned(),
        assets: vec![Asset {
            name: "ruby-3.3.0.arm64_sonoma.tar.gz".to_owned(),
            browser_download_url: u("3.3.0"),
        }],
    };
    let installed = vec![local_ruby("ruby-3.3.0", "/opt/rubies/ruby-3.3.0")];
    let actual = rubies_to_show(release, installed, None, "arm64_sonoma");
    assert_eq!(actual.len(), 1);
    assert!(actual[0].installed);
    assert_eq!(actual[0].details.path, "/opt/rubies/ruby-3.3.0");
}

#[test]
fn test_assets_for_other_platforms_are_filtered_out() {
    let release = Release {
        name: "latest".to_owned(),
        assets: vec![Asset {
            name: "ruby-3.3.0.x86_64_linux.tar.gz".to_owned(),
            browser_download_url: u("3.3.0"),
        }],
    };
    let actual = rubies_to_show(release, Vec::new(), None, "arm64_sonoma");
    assert!(actual.is_empty());
}

#[test]
fn test_unparseable_asset_names_are_skipped() {
    let release = Release {
        name: "latest".to_owned(),
        assets: vec![Asset {
            name: "release-notes.txt".to_owned(),
            browser_download_url: u("3.3.0"),
        }],
    };
    let actual = rubies_to_show(release, Vec::new(), None, "arm64_sonoma");
    assert!(actual.is_empty());
}

#[test]
fn test_active_ruby_is_flagged() {
    let active = local_ruby("ruby-3.3.0", "/opt/rubies/ruby-3.3.0");
    let installed = vec![
        local_ruby("ruby-3.2.0", "/opt/rubies/ruby-3.2.0"),
        local_ruby("ruby-3.3.0", "/opt/rubies/ruby-3.3.0"),
    ];
    let entries = installed_entries(installed, Some(active));
    assert_eq!(entries.len(), 2);
    assert!(!entries[0].active);
    assert!(entries[1].active);
    assert!(entries[0].installed && entries[1].installed);
}

#[test]
fn test_installed_flag_records_origin_not_path() {
    // An installed-list entry keeps installed = true even when its path
    // is a URL, and a catalog entry keeps installed = false: the flag
    // records where the row came from, not what its path looks like.
    let release = Release {
        name: "latest".to_owned(),
        assets: vec![Asset {
            name: "ruby-3.4.0.arm64_sonoma.tar.gz".to_owned(),
            browser_download_url: u("3.4.0"),
        }],
    };
    let url_pathed = ruby("ruby-3.3.0");
    assert!(url_pathed.path.starts_with("http"));
    let actual = rubies_to_show(release, vec![url_pathed], None, "arm64_sonoma");
    assert_eq!(actual.len(), 2);
    assert_eq!(actual[0].details.display_name(), "ruby-3.3.0");
    assert!(actual[0].installed);
    assert_eq!(actual[1].details.display_name(), "ruby-3.4.0");
    assert!(!actual[1].installed);
}

#[test]
fn test_same_display_name_different_engines_both_kept() {
    // Two installed runtimes may share a display name; both stay, in
    // encounter order inside the group.
    let a = local_ruby("ruby-3.2.0", "/opt/rubies/a");
    let b = local_ruby("ruby-3.2.0", "/opt/rubies/b");
    let release = Release { name: "latest".to_owned(), assets: Vec::new() };
    let actual = rubies_to_show(release, vec![a, b], None, "arm64_sonoma");
    assert_eq!(actual.len(), 2);
    assert_eq!(actual[0].details.path, "/opt/rubies/a");
    assert_eq!(actual[1].details.path, "/opt/rubies/b");
}
