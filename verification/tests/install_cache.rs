//! Cache keys, cached-entry validation, asset decoding and the
//! environment update.

use rv::asset::{Asset, ruby_from_asset, strip_archive_suffixes};
use rv::config::{EnvUpdate, ProjectDirStep, env_for, pin_file_contents, project_dir_step};
use rv::platform::{all_suffixes, arch_str_for_platform, parse_arch_str};
use rv::ruby::Ruby;
use rv::ruby_cache::{
    CacheDecision, CacheReadResult, classify_cache_read, interpreter_cache_key,
};
use rv::version::RubyVersion;

#[test]
fn test_interpreter_cache_key_shape() {
    assert_eq!(interpreter_cache_key("/opt/rubies/ruby-3.1.0", 12345), "12345-/opt/rubies/ruby-3.1.0");
}

#[test]
fn test_cache_key_changes_with_mtime() {
    // A touched executable gets a different key: the old entry is never
    // found again, so the next lookup re-probes.
    let before = interpreter_cache_key("/opt/rubies/ruby-3.1.0", 1000);
    let after = interpreter_cache_key("/opt/rubies/ruby-3.1.0", 1001);
    assert_ne!(before, after);
}

#[test]
fn test_cache_key_changes_with_path() {
    let a = interpreter_cache_key("/opt/rubies/ruby-3.1.0", 1000);
    let b = interpreter_cache_key("/opt/rubies/ruby-3.2.0", 1000);
    assert_ne!(a, b);
}

fn sample_ruby() -> Ruby {
    Ruby {
        key: "ruby-3.1.0-linux-x86_64".into(),
        version: RubyVersion::parse("3.1.0").unwrap(),
        path: "/opt/rubies/ruby-3.1.0".into(),
        symlink: None,
        arch: "x86_64".into(),
        os: "linux".into(),
        gem_root: None,
    }
}

#[test]
fn test_classify_cache_read_serves_only_validated_entries() {
    assert!(matches!(
        classify_cache_read(CacheReadResult::Unreadable, true),
        CacheDecision::Miss
    ));
    assert!(matches!(
        classify_cache_read(CacheReadResult::Corrupt, true),
        CacheDecision::EvictAndMiss
    ));
    assert!(matches!(
        classify_cache_read(CacheReadResult::Parsed(sample_ruby()), false),
        CacheDecision::EvictAndMiss
    ));
    match classify_cache_read(CacheReadResult::Parsed(sample_ruby()), true) {
        CacheDecision::Hit(r) => assert_eq!(r.path, "/opt/rubies/ruby-3.1.0"),
        other => panic!("expected a hit, got {other:?}"),
    }
}

#[test]
fn test_parse_arch_str_mappings() {
    assert_eq!(parse_arch_str("arm64_sonoma"), ("macos", "aarch64"));
    assert_eq!(parse_arch_str("x86_64_linux"), ("linux", "x86_64"));
    assert_eq!(parse_arch_str("arm64_linux"), ("linux", "aarch64"));
    assert_eq!(parse_arch_str("sparc_solaris"), ("unknown", "unknown"));
}

#[test]
fn test_arch_str_for_platform_mappings() {
    assert_eq!(arch_str_for_platform("aarch64-apple-darwin"), "arm64_sonoma");
    assert_eq!(arch_str_for_platform("x86_64-unknown-linux-gnu"), "x86_64_linux");
    assert_eq!(arch_str_for_platform("aarch64-unknown-linux-gnu"), "arm64_linux");
    assert_eq!(arch_str_for_platform("riscv64gc-unknown-linux-gnu"), "unsupported");
}

#[test]
fn test_all_suffixes_listing() {
    let suffixes = all_suffixes();
    assert_eq!(
        suffixes,
        vec![
            ".arm64_linux.tar.gz",
            ".arm64_sonoma.tar.gz",
            "x86_64_linux.tar.gz",
            ".ventura.tar.gz",
        ]
    );
}

#[test]
fn test_strip_archive_suffixes() {
    assert_eq!(strip_archive_suffixes("ruby-3.3.0.arm64_sonoma.tar.gz"), "ruby-3.3.0");
    assert_eq!(strip_archive_suffixes("ruby-3.3.0.x86_64_linux.tar.gz"), "ruby-3.3.0.");
    assert_eq!(strip_archive_suffixes("ruby-3.3.0"), "ruby-3.3.0");
}

#[test]
fn test_ruby_from_asset_decodes_platform_and_key() {
    let asset = Asset {
        name: "ruby-3.3.0.arm64_linux.tar.gz".to_owned(),
        browser_download_url:
            "https://github.com/spinel-coop/rv-ruby/releases/download/20251006/ruby-3.3.0.arm64_linux.tar.gz"
                .to_owned(),
    };
    let ruby = ruby_from_asset(&asset).unwrap();
    assert_eq!(ruby.key, "ruby-3.3.0-linux-aarch64");
    assert_eq!(ruby.os, "linux");
    assert_eq!(ruby.arch, "aarch64");
    assert_eq!(ruby.version, RubyVersion::parse("3.3.0").unwrap());
    assert_eq!(ruby.path, asset.browser_download_url);
    assert_eq!(ruby.symlink, None);
    assert_eq!(ruby.gem_root, None);
}

#[test]
fn test_ruby_from_asset_rejects_unparseable_names() {
    let asset = Asset {
        name: "checksums.sha256".to_owned(),
        browser_download_url: "https://example.com/checksums.sha256".to_owned(),
    };
    assert!(ruby_from_asset(&asset).is_err());
}

#[test]
fn test_project_dir_step_decisions() {
    assert_eq!(project_dir_step("/home/dev/app", "/", true), ProjectDirStep::Found);
    assert_eq!(project_dir_step("/", "/", false), ProjectDirStep::ReachedRoot);
    assert_eq!(project_dir_step("/home/dev/app", "/", false), ProjectDirStep::Ascend);
}

#[test]
fn test_pin_file_contents_appends_newline() {
    assert_eq!(pin_file_contents("3.2.0"), "3.2.0\n");
    assert_eq!(pin_file_contents("1.9.2-p0"), "1.9.2-p0\n");
}

fn strings(items: &[&str]) -> Vec<String> {
    items.iter().map(|s| (*s).to_owned()).collect()
}

#[test]
fn test_env_for_with_runtime_sets_and_orders_everything() {
    let mut ruby = sample_ruby();
    ruby.gem_root = Some("/opt/rubies/ruby-3.1.0/gems".to_owned());
    let update: EnvUpdate = env_for(
        Some(&ruby),
        Some("/home/dev/.gem/ruby/3.1.0".to_owned()),
        strings(&["/old-ruby/bin", "/usr/bin", "/old-gems/bin"]),
        strings(&["/old-ruby/bin"]),
        strings(&["/old-gems/bin"]),
    );
    assert_eq!(update.unset, vec!["RUBYOPT"]);
    let set_names: Vec<&str> = update.set.iter().map(|p| p.0).collect();
    assert_eq!(
        set_names,
        vec!["RUBY_ROOT", "RUBY_ENGINE", "RUBY_VERSION", "GEM_HOME", "GEM_ROOT"]
    );
    assert_eq!(update.set[0].1, "/opt/rubies/ruby-3.1.0");
    assert_eq!(update.set[1].1, "ruby");
    assert_eq!(update.set[2].1, "3.1.0");
    assert_eq!(update.set[3].1, "/home/dev/.gem/ruby/3.1.0");
    assert_eq!(update.set[4].1, "/opt/rubies/ruby-3.1.0/gems");
    assert_eq!(
        update.gem_path_entries,
        strings(&["/opt/rubies/ruby-3.1.0/gems/bin", "/home/dev/.gem/ruby/3.1.0/bin"])
    );
    assert_eq!(
        update.path_entries,
        strings(&[
            "/opt/rubies/ruby-3.1.0/gems/bin",
            "/home/dev/.gem/ruby/3.1.0/bin",
            "/opt/rubies/ruby-3.1.0/bin",
            "/usr/bin",
        ])
    );
}

#[test]
fn test_env_for_without_runtime_unsets_everything() {
    let update = env_for(
        None,
        None,
        strings(&["/old-ruby/bin", "/usr/bin"]),
        strings(&["/old-ruby/bin"]),
        strings(&[]),
    );
    assert_eq!(
        update.unset,
        vec![
            "RUBY_ROOT",
            "RUBY_ENGINE",
            "RUBY_VERSION",
            "RUBYOPT",
            "GEM_ROOT",
            "GEM_HOME",
            "GEM_PATH",
        ]
    );
    assert!(update.set.is_empty());
    assert!(update.gem_path_entries.is_empty());
    assert_eq!(update.path_entries, strings(&["/usr/bin"]));
}
