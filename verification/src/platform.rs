//! Mapping between release-archive architecture tags, target triples and
//! `(os, arch)` pairs.

use vstd::prelude::*;

verus! {

/// The `(os, arch)` pair encoded by an archive architecture tag; unknown
/// tags map to `("unknown", "unknown")`.
pub open spec fn spec_parse_arch(s: Seq<char>) -> (Seq<char>, Seq<char>) {
    if s == ("arm64_sonoma")@ {
        (("macos")@, ("aarch64")@)
    } else if s == ("x86_64_linux")@ {
        (("linux")@, ("x86_64")@)
    } else if s == ("arm64_linux")@ {
        (("linux")@, ("aarch64")@)
    } else {
        (("unknown")@, ("unknown")@)
    }
}

/// Parses the OS and architecture from the arch part of an asset name.
pub fn parse_arch_str(arch_str: &str) -> (r: (&'static str, &'static str))
    ensures
        (r.0@, r.1@) == spec_parse_arch(arch_str@),
{
    proof {
        crate::chars::lemma_str_cmp_eq(arch_str@, ("arm64_sonoma")@);
        crate::chars::lemma_str_cmp_eq(arch_str@, ("x86_64_linux")@);
        crate::chars::lemma_str_cmp_eq(arch_str@, ("arm64_linux")@);
    }
    if crate::chars::cmp_str(arch_str, "arm64_sonoma") == 0 {
        ("macos", "aarch64")
    } else if crate::chars::cmp_str(arch_str, "x86_64_linux") == 0 {
        ("linux", "x86_64")
    } else if crate::chars::cmp_str(arch_str, "arm64_linux") == 0 {
        ("linux", "aarch64")
    } else {
        ("unknown", "unknown")
    }
}

/// The archive architecture tag for a build target triple; unsupported
/// triples map to `"unsupported"`.
pub open spec fn spec_arch_str_for_platform(p: Seq<char>) -> Seq<char> {
    if p == ("aarch64-apple-darwin")@ {
        ("arm64_sonoma")@
    } else if p == ("x86_64-unknown-linux-gnu")@ {
        ("x86_64_linux")@
    } else if p == ("aarch64-unknown-linux-gnu")@ {
        ("arm64_linux")@
    } else {
        ("unsupported")@
    }
}

/// Maps a target triple (as detected or overridden by the caller) to the
/// archive architecture tag used in asset names.
pub fn arch_str_for_platform(platform: &str) -> (r: &'static str)
    ensures
        r@ == spec_arch_str_for_platform(platform@),
{
    proof {
        crate::chars::lemma_str_cmp_eq(platform@, ("aarch64-apple-darwin")@);
        crate::chars::lemma_str_cmp_eq(platform@, ("x86_64-unknown-linux-gnu")@);
        crate::chars::lemma_str_cmp_eq(platform@, ("aarch64-unknown-linux-gnu")@);
    }
    if crate::chars::cmp_str(platform, "aarch64-apple-darwin") == 0 {
        "arm64_sonoma"
    } else if crate::chars::cmp_str(platform, "x86_64-unknown-linux-gnu") == 0 {
        "x86_64_linux"
    } else if crate::chars::cmp_str(platform, "aarch64-unknown-linux-gnu") == 0 {
        "arm64_linux"
    } else {
        "unsupported"
    }
}

/// The archive-name suffixes stripped before the remainder is parsed as a
/// version.  An archive without an architecture tag follows the Homebrew
/// convention and is taken as x86.
pub fn all_suffixes() -> (r: Vec<&'static str>)
    ensures
        r@.len() == 4,
        r@[0]@ == (".arm64_linux.tar.gz")@,
        r@[1]@ == (".arm64_sonoma.tar.gz")@,
        r@[2]@ == ("x86_64_linux.tar.gz")@,
        r@[3]@ == (".ventura.tar.gz")@,
{
    let mut v: Vec<&'static str> = Vec::new();
    v.push(".arm64_linux.tar.gz");
    v.push(".arm64_sonoma.tar.gz");
    v.push("x86_64_linux.tar.gz");
    v.push(".ventura.tar.gz");
    v
}

} // verus!
