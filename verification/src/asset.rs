//! The remote release catalog: asset descriptors and the decoding of an
//! archive name into an installable runtime.
//!
//! An archive is named like `ruby-3.4.1.arm64_sonoma.tar.gz`.  The
//! architecture tag is recovered by a fixed pattern match — the leftmost
//! occurrence of `ruby-`, a non-empty run of digits and dots, a dot, the
//! longest non-empty run of word characters, then `.tar.gz` — with later
//! candidate splits tried from the right, exactly as a backtracking
//! matcher would.

use vstd::prelude::*;

use crate::chars::is_digit;
use crate::ruby::{Ruby, RubyView, spec_ruby_key};
use crate::version::{ParseError, RubyVersion, spec_display_name, spec_parse_version};

verus! {

/// One downloadable archive as published remotely.
#[derive(Debug)]
pub struct Asset {
    pub name: String,
    pub browser_download_url: String,
}

#[verifier::ext_equal]
pub ghost struct AssetView {
    pub name: Seq<char>,
    pub browser_download_url: Seq<char>,
}

impl View for Asset {
    type V = AssetView;

    open spec fn view(&self) -> AssetView {
        AssetView { name: self.name@, browser_download_url: self.browser_download_url@ }
    }
}

/// The named collection of assets published remotely; never mutated, only
/// replaced.
#[derive(Debug)]
pub struct Release {
    pub name: String,
    pub assets: Vec<Asset>,
}

#[verifier::ext_equal]
pub ghost struct ReleaseView {
    pub name: Seq<char>,
    pub assets: Seq<AssetView>,
}

impl View for Release {
    type V = ReleaseView;

    open spec fn view(&self) -> ReleaseView {
        ReleaseView {
            name: self.name@,
            assets: Seq::new(self.assets@.len(), |i: int| self.assets@[i]@),
        }
    }
}

pub open spec fn is_word_char(c: char) -> bool {
    is_digit(c) || (97 <= c as u32 <= 122) || (65 <= c as u32 <= 90) || c == '_'
}

pub open spec fn is_ddot(c: char) -> bool {
    is_digit(c) || c == '.'
}

/// First index at or after `i` past the run of digit-or-dot characters.
pub open spec fn ddot_end(s: Seq<char>, i: int) -> int
    decreases s.len() - i,
{
    if i < 0 || i >= s.len() {
        i
    } else if !is_ddot(s[i]) {
        i
    } else {
        ddot_end(s, i + 1)
    }
}

/// First index at or after `i` past the run of word characters.
pub open spec fn word_end(s: Seq<char>, i: int) -> int
    decreases s.len() - i,
{
    if i < 0 || i >= s.len() {
        i
    } else if !is_word_char(s[i]) {
        i
    } else {
        word_end(s, i + 1)
    }
}

proof fn lemma_ddot_end_unique(s: Seq<char>, i: int, j: int)
    requires
        0 <= i <= j <= s.len(),
        forall|k: int| i <= k < j ==> is_ddot(s[k]),
        j == s.len() || !is_ddot(s[j]),
    ensures
        ddot_end(s, i) == j,
    decreases j - i,
{
    if i < j {
        lemma_ddot_end_unique(s, i + 1, j);
    }
}

proof fn lemma_word_end_unique(s: Seq<char>, i: int, j: int)
    requires
        0 <= i <= j <= s.len(),
        forall|k: int| i <= k < j ==> is_word_char(s[k]),
        j == s.len() || !is_word_char(s[j]),
    ensures
        word_end(s, i) == j,
    decreases j - i,
{
    if i < j {
        lemma_word_end_unique(s, i + 1, j);
    }
}

/// Whether the literal `.tar.gz` stands at index `n`.
pub open spec fn tar_gz_at(s: Seq<char>, n: int) -> bool {
    0 <= n && n + 7 <= s.len() && s.subrange(n, n + 7) == seq!['.', 't', 'a', 'r', '.', 'g', 'z']
}

/// Whether the literal `ruby-` stands at index `i`.
pub open spec fn ruby_dash_at(s: Seq<char>, i: int) -> bool {
    0 <= i && i + 5 <= s.len() && s.subrange(i, i + 5) == seq!['r', 'u', 'b', 'y', '-']
}

/// Backtracking over the position of the dot before the architecture tag:
/// candidates `m` run from the right down to `lo + 1`.  At each `m`
/// holding a dot, the tag is the longest word run after it, and it must
/// be non-empty and followed by `.tar.gz`.
pub open spec fn arch_try_m(s: Seq<char>, lo: int, m: int) -> Option<(int, int)>
    decreases m - lo,
{
    if m <= lo {
        None
    } else if s[m] == '.' {
        let n = word_end(s, m + 1);
        if n > m + 1 && tar_gz_at(s, n) {
            Some((m + 1, n))
        } else {
            arch_try_m(s, lo, m - 1)
        }
    } else {
        arch_try_m(s, lo, m - 1)
    }
}

/// A whole-pattern match starting at `i`: `ruby-`, a non-empty
/// digit-or-dot run, then the backtracking split.
pub open spec fn arch_match_at(s: Seq<char>, i: int) -> Option<(int, int)> {
    if !ruby_dash_at(s, i) {
        None
    } else {
        let k = ddot_end(s, i + 5);
        if k == i + 5 {
            None
        } else {
            arch_try_m(s, i + 5, k - 1)
        }
    }
}

/// The leftmost start position wins.
pub open spec fn arch_search(s: Seq<char>, i: int) -> Option<(int, int)>
    decreases s.len() - i,
{
    if i < 0 || i >= s.len() {
        None
    } else {
        match arch_match_at(s, i) {
            Some(r) => Some(r),
            None => arch_search(s, i + 1),
        }
    }
}

/// The architecture tag of an archive name, when the pattern matches.
pub open spec fn spec_asset_arch(s: Seq<char>) -> Option<Seq<char>> {
    match arch_search(s, 0) {
        None => None,
        Some((a, b)) => Some(s.subrange(a, b)),
    }
}

fn is_ddot_exec(c: char) -> (r: bool)
    ensures
        r == is_ddot(c),
{
    let u = c as u32;
    (48 <= u && u <= 57) || c == '.'
}

fn is_word_char_exec(c: char) -> (r: bool)
    ensures
        r == is_word_char(c),
{
    let u = c as u32;
    (48 <= u && u <= 57) || (97 <= u && u <= 122) || (65 <= u && u <= 90) || c == '_'
}

fn ddot_end_exec(s: &str, i: usize, n: usize) -> (r: usize)
    requires
        i <= n,
        n == s@.len(),
    ensures
        i <= r <= n,
        r as int == ddot_end(s@, i as int),
{
    let mut j: usize = i;
    while j < n && is_ddot_exec(s.get_char(j))
        invariant
            i <= j <= n,
            n == s@.len(),
            forall|k: int| i <= k < j ==> is_ddot(s@[k]),
        decreases n - j,
    {
        j = j + 1;
    }
    proof {
        lemma_ddot_end_unique(s@, i as int, j as int);
    }
    j
}

fn word_end_exec(s: &str, i: usize, n: usize) -> (r: usize)
    requires
        i <= n,
        n == s@.len(),
    ensures
        i <= r <= n,
        r as int == word_end(s@, i as int),
{
    let mut j: usize = i;
    while j < n && is_word_char_exec(s.get_char(j))
        invariant
            i <= j <= n,
            n == s@.len(),
            forall|k: int| i <= k < j ==> is_word_char(s@[k]),
        decreases n - j,
    {
        j = j + 1;
    }
    proof {
        lemma_word_end_unique(s@, i as int, j as int);
    }
    j
}

fn tar_gz_check(s: &str, w: usize, n: usize) -> (r: bool)
    requires
        w <= n,
        n == s@.len(),
    ensures
        r == tar_gz_at(s@, w as int),
{
    if n - w < 7 {
        return false;
    }
    let r = s.get_char(w) == '.' && s.get_char(w + 1) == 't' && s.get_char(w + 2) == 'a'
        && s.get_char(w + 3) == 'r' && s.get_char(w + 4) == '.' && s.get_char(w + 5) == 'g'
        && s.get_char(w + 6) == 'z';
    proof {
        let sub = s@.subrange(w as int, w + 7);
        assert(sub[0] == s@[w as int] && sub[1] == s@[w + 1] && sub[2] == s@[w + 2] && sub[3]
            == s@[w + 3] && sub[4] == s@[w + 4] && sub[5] == s@[w + 5] && sub[6] == s@[w + 6]);
        if r {
            assert(sub =~= seq!['.', 't', 'a', 'r', '.', 'g', 'z']);
        }
    }
    r
}

fn arch_try_exec(s: &str, lo: usize, hi: usize, n: usize) -> (r: Option<(usize, usize)>)
    requires
        lo <= hi,
        hi < n,
        n == s@.len(),
    ensures
        match r {
            Some(p) => arch_try_m(s@, lo as int, hi as int) == Some((p.0 as int, p.1 as int))
                && p.0 <= p.1 <= n,
            None => arch_try_m(s@, lo as int, hi as int) is None,
        },
{
    let mut m: usize = hi;
    loop
        invariant
            lo <= m <= hi < n,
            n == s@.len(),
            arch_try_m(s@, lo as int, hi as int) == arch_try_m(s@, lo as int, m as int),
        decreases m,
    {
        if m <= lo {
            return None;
        }
        if s.get_char(m) == '.' {
            let w = word_end_exec(s, m + 1, n);
            if w > m + 1 && tar_gz_check(s, w, n) {
                return Some((m + 1, w));
            }
        }
        m = m - 1;
    }
}

fn arch_match_exec(s: &str, i: usize, n: usize) -> (r: Option<(usize, usize)>)
    requires
        i < n,
        n == s@.len(),
    ensures
        match r {
            Some(p) => arch_match_at(s@, i as int) == Some((p.0 as int, p.1 as int)) && p.0 <= p.1
                <= n,
            None => arch_match_at(s@, i as int) is None,
        },
{
    if n - i < 5 {
        return None;
    }
    let is_prefix = s.get_char(i) == 'r' && s.get_char(i + 1) == 'u' && s.get_char(i + 2) == 'b'
        && s.get_char(i + 3) == 'y' && s.get_char(i + 4) == '-';
    proof {
        let sub = s@.subrange(i as int, i + 5);
        assert(sub[0] == s@[i as int] && sub[1] == s@[i + 1] && sub[2] == s@[i + 2] && sub[3]
            == s@[i + 3] && sub[4] == s@[i + 4]);
        if is_prefix {
            assert(sub =~= seq!['r', 'u', 'b', 'y', '-']);
        }
    }
    if !is_prefix {
        return None;
    }
    let k = ddot_end_exec(s, i + 5, n);
    if k == i + 5 {
        return None;
    }
    if k - 1 < i + 5 {
        return None;
    }
    arch_try_exec(s, i + 5, k - 1, n)
}

/// Extracts the architecture tag from an archive name, as
/// [`spec_asset_arch`] defines it.
pub fn asset_arch(s: &str) -> (r: Option<String>)
    ensures
        match r {
            Some(a) => spec_asset_arch(s@) == Some(a@),
            None => spec_asset_arch(s@) is None,
        },
{
    let n = s.unicode_len();
    let mut i: usize = 0;
    while i < n
        invariant
            i <= n,
            n == s@.len(),
            arch_search(s@, 0) == arch_search(s@, i as int),
        decreases n - i,
    {
        match arch_match_exec(s, i, n) {
            Some((a, b)) => {
                let tag = s.substring_char(a, b);
                return Some(tag.to_owned());
            },
            None => {},
        }
        i = i + 1;
    }
    None
}

/// `s` without the suffix `suf` when it ends with it, else `s` unchanged.
pub open spec fn strip_suffix_or(s: Seq<char>, suf: Seq<char>) -> Seq<char> {
    if s.len() >= suf.len() && s.skip(s.len() - suf.len()) == suf {
        s.take(s.len() - suf.len())
    } else {
        s
    }
}

fn strip_suffix_str<'a>(s: &'a str, suf: &str) -> (r: &'a str)
    ensures
        r@ == strip_suffix_or(s@, suf@),
{
    let n = s.unicode_len();
    let m = suf.unicode_len();
    if n < m {
        return s;
    }
    let start = n - m;
    let mut j: usize = 0;
    while j < m
        invariant
            j <= m <= n,
            start == n - m,
            n == s@.len(),
            m == suf@.len(),
            forall|k: int| 0 <= k < j ==> s@[start + k] == suf@[k],
        decreases m - j,
    {
        if s.get_char(start + j) != suf.get_char(j) {
            proof {
                assert(s@.skip(start as int)[j as int] != suf@[j as int]);
            }
            return s;
        }
        j = j + 1;
    }
    proof {
        assert(s@.skip(start as int) =~= suf@);
    }
    s.substring_char(0, start)
}

/// The archive name with the recognised suffixes removed, each tried once
/// in a fixed order.
pub open spec fn spec_strip_archive_suffixes(s: Seq<char>) -> Seq<char> {
    strip_suffix_or(
        strip_suffix_or(
            strip_suffix_or(strip_suffix_or(s, (".arm64_linux.tar.gz")@), (".arm64_sonoma.tar.gz")@),
            ("x86_64_linux.tar.gz")@,
        ),
        (".ventura.tar.gz")@,
    )
}

pub fn strip_archive_suffixes(s: &str) -> (r: &str)
    ensures
        r@ == spec_strip_archive_suffixes(s@),
{
    let r = strip_suffix_str(s, ".arm64_linux.tar.gz");
    let r = strip_suffix_str(r, ".arm64_sonoma.tar.gz");
    let r = strip_suffix_str(r, "x86_64_linux.tar.gz");
    strip_suffix_str(r, ".ventura.tar.gz")
}

/// The runtime a catalog asset decodes to: the suffix-stripped name must
/// parse as a version; the architecture tag (or `unknown`) gives the
/// `(os, arch)` pair; the path is the download URL.
pub open spec fn spec_ruby_from_asset(a: AssetView) -> Option<RubyView> {
    match spec_parse_version(spec_strip_archive_suffixes(a.name)) {
        None => None,
        Some(v) => {
            let tag = match spec_asset_arch(a.name) {
                Some(t) => t,
                None => ("unknown")@,
            };
            let osarch = crate::platform::spec_parse_arch(tag);
            Some(
                RubyView {
                    key: spec_ruby_key(spec_display_name(v), osarch.0, osarch.1),
                    version: v,
                    path: a.browser_download_url,
                    symlink: None,
                    arch: osarch.1,
                    os: osarch.0,
                    gem_root: None,
                },
            )
        },
    }
}

/// Decodes a catalog asset into an installable runtime; errs exactly when
/// the suffix-stripped archive name is not a version.
pub fn ruby_from_asset(asset: &Asset) -> (r: Result<Ruby, ParseError>)
    ensures
        match r {
            Ok(rb) => spec_ruby_from_asset(asset@) == Some(rb@),
            Err(_) => spec_ruby_from_asset(asset@) is None,
        },
{
    let stripped = strip_archive_suffixes(asset.name.as_str());
    let version = match RubyVersion::parse(stripped) {
        Ok(v) => v,
        Err(e) => {
            return Err(e);
        },
    };
    let display = version.display_name();
    let tag = match asset_arch(asset.name.as_str()) {
        Some(t) => t,
        None => "unknown".to_owned(),
    };
    let (os, arch) = crate::platform::parse_arch_str(tag.as_str());
    let key = crate::ruby::make_ruby_key(display.as_str(), os, arch);
    Ok(
        Ruby {
            key,
            version,
            path: asset.browser_download_url.clone(),
            symlink: None,
            arch: arch.to_owned(),
            os: os.to_owned(),
            gem_root: None,
        },
    )
}

} // verus!
