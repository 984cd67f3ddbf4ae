//! A discovered or installable Ruby runtime, its mathematical view, and
//! the stable total order discovery lists are sorted in.

use vstd::prelude::*;

use crate::chars::str_cmp;
use crate::version::{RubyVersion, VersionView, spec_display_name, version_cmp};

verus! {

/// Mathematical model of a [`Ruby`].
#[verifier::ext_equal]
pub ghost struct RubyView {
    pub key: Seq<char>,
    pub version: VersionView,
    pub path: Seq<char>,
    pub symlink: Option<Seq<char>>,
    pub arch: Seq<char>,
    pub os: Seq<char>,
    pub gem_root: Option<Seq<char>>,
}

/// A runtime: either an installed one (its `path` is a local directory)
/// or an installable one from the remote catalog (its `path` is the
/// download URL).
#[derive(Debug)]
pub struct Ruby {
    /// Unique display+platform identifier, e.g. `ruby-3.4.1-linux-x86_64`.
    pub key: String,
    pub version: RubyVersion,
    pub path: String,
    pub symlink: Option<String>,
    pub arch: String,
    pub os: String,
    pub gem_root: Option<String>,
}

pub open spec fn opt_view(o: Option<String>) -> Option<Seq<char>> {
    match o {
        Some(s) => Some(s@),
        None => None,
    }
}

impl View for Ruby {
    type V = RubyView;

    open spec fn view(&self) -> RubyView {
        RubyView {
            key: self.key@,
            version: self.version@,
            path: self.path@,
            symlink: opt_view(self.symlink),
            arch: self.arch@,
            os: self.os@,
            gem_root: opt_view(self.gem_root),
        }
    }
}

impl PartialEq for Ruby {
    fn eq(&self, other: &Ruby) -> (r: bool) {
        self.key.eq(&other.key) && self.version == other.version && self.path.eq(&other.path)
            && crate::version::opt_string_eq(&self.symlink, &other.symlink) && self.arch.eq(
            &other.arch,
        ) && self.os.eq(&other.os) && crate::version::opt_string_eq(
            &self.gem_root,
            &other.gem_root,
        )
    }
}

impl Eq for Ruby {

}

impl vstd::std_specs::cmp::PartialEqSpecImpl for Ruby {
    open spec fn obeys_eq_spec() -> bool {
        true
    }

    open spec fn eq_spec(&self, other: &Ruby) -> bool {
        self@ == other@
    }
}

impl Ruby {
    /// The version+engine rendering used to group installed and remote
    /// entries, without any platform suffix.
    pub fn display_name(&self) -> (r: String)
        ensures
            r@ == spec_display_name(self@.version),
    {
        self.version.display_name()
    }

    /// The directory holding the installation's executables.
    pub fn bin_path(&self) -> (r: String)
        ensures
            r@ == self@.path + ("/bin")@,
    {
        let mut out = String::new();
        out.append(self.path.as_str());
        out.append("/bin");
        proof {
            assert(out@ =~= self@.path + ("/bin")@);
        }
        out
    }

    /// The interpreter executable inside the installation.
    pub fn executable_path(&self) -> (r: String)
        ensures
            r@ == self@.path + ("/bin/ruby")@,
    {
        let mut out = String::new();
        out.append(self.path.as_str());
        out.append("/bin/ruby");
        proof {
            assert(out@ =~= self@.path + ("/bin/ruby")@);
        }
        out
    }

    /// A field-for-field copy.
    pub fn duplicate(&self) -> (r: Ruby)
        ensures
            r@ == self@,
    {
        Ruby {
            key: self.key.clone(),
            version: self.version.duplicate(),
            path: self.path.clone(),
            symlink: clone_opt_string(&self.symlink),
            arch: self.arch.clone(),
            os: self.os.clone(),
            gem_root: clone_opt_string(&self.gem_root),
        }
    }
}

fn clone_opt_string(o: &Option<String>) -> (r: Option<String>)
    ensures
        opt_view(r) == opt_view(*o),
{
    match o {
        Some(s) => Some(s.clone()),
        None => None,
    }
}

/// Order on optional strings: absent sorts first, present ones
/// lexicographically.
pub open spec fn opt_seq_cmp(a: Option<Seq<char>>, b: Option<Seq<char>>) -> int {
    match (a, b) {
        (None, None) => 0,
        (None, Some(_)) => -1,
        (Some(_), None) => 1,
        (Some(x), Some(y)) => str_cmp(x, y),
    }
}

proof fn lemma_opt_seq_cmp(a: Option<Seq<char>>, b: Option<Seq<char>>)
    ensures
        -1 <= opt_seq_cmp(a, b) <= 1,
        opt_seq_cmp(a, b) == 0 <==> a == b,
        opt_seq_cmp(a, b) == -opt_seq_cmp(b, a),
{
    match (a, b) {
        (Some(x), Some(y)) => {
            crate::chars::lemma_str_cmp_range(x, y);
            crate::chars::lemma_str_cmp_eq(x, y);
            crate::chars::lemma_str_cmp_flip(x, y);
        },
        _ => {},
    }
}

proof fn lemma_opt_seq_cmp_trans(a: Option<Seq<char>>, b: Option<Seq<char>>, c: Option<Seq<char>>)
    requires
        opt_seq_cmp(a, b) <= 0,
        opt_seq_cmp(b, c) <= 0,
    ensures
        opt_seq_cmp(a, c) <= 0,
        opt_seq_cmp(a, b) < 0 || opt_seq_cmp(b, c) < 0 ==> opt_seq_cmp(a, c) < 0,
{
    match (a, b, c) {
        (Some(x), Some(y), Some(z)) => {
            crate::chars::lemma_str_cmp_trans(x, y, z);
        },
        _ => {},
    }
}

/// The stable total order on runtimes: by version (which begins with the
/// engine), then install path, then the remaining fields, so that no two
/// distinct values ever tie.
pub open spec fn ruby_cmp(a: RubyView, b: RubyView) -> int {
    if version_cmp(a.version, b.version) != 0 {
        version_cmp(a.version, b.version)
    } else if str_cmp(a.path, b.path) != 0 {
        str_cmp(a.path, b.path)
    } else if str_cmp(a.key, b.key) != 0 {
        str_cmp(a.key, b.key)
    } else if str_cmp(a.os, b.os) != 0 {
        str_cmp(a.os, b.os)
    } else if str_cmp(a.arch, b.arch) != 0 {
        str_cmp(a.arch, b.arch)
    } else if opt_seq_cmp(a.symlink, b.symlink) != 0 {
        opt_seq_cmp(a.symlink, b.symlink)
    } else {
        opt_seq_cmp(a.gem_root, b.gem_root)
    }
}

pub proof fn lemma_ruby_cmp_basic(a: RubyView, b: RubyView)
    ensures
        -1 <= ruby_cmp(a, b) <= 1,
        ruby_cmp(a, b) == 0 <==> a == b,
        ruby_cmp(a, b) == -ruby_cmp(b, a),
{
    crate::version::lemma_version_cmp_range(a.version, b.version);
    crate::version::lemma_version_cmp_eq(a.version, b.version);
    crate::version::lemma_version_cmp_flip(a.version, b.version);
    crate::chars::lemma_str_cmp_range(a.path, b.path);
    crate::chars::lemma_str_cmp_eq(a.path, b.path);
    crate::chars::lemma_str_cmp_flip(a.path, b.path);
    crate::chars::lemma_str_cmp_range(a.key, b.key);
    crate::chars::lemma_str_cmp_eq(a.key, b.key);
    crate::chars::lemma_str_cmp_flip(a.key, b.key);
    crate::chars::lemma_str_cmp_range(a.os, b.os);
    crate::chars::lemma_str_cmp_eq(a.os, b.os);
    crate::chars::lemma_str_cmp_flip(a.os, b.os);
    crate::chars::lemma_str_cmp_range(a.arch, b.arch);
    crate::chars::lemma_str_cmp_eq(a.arch, b.arch);
    crate::chars::lemma_str_cmp_flip(a.arch, b.arch);
    lemma_opt_seq_cmp(a.symlink, b.symlink);
    lemma_opt_seq_cmp(a.gem_root, b.gem_root);
}

pub proof fn lemma_ruby_cmp_trans(a: RubyView, b: RubyView, c: RubyView)
    requires
        ruby_cmp(a, b) <= 0,
        ruby_cmp(b, c) <= 0,
    ensures
        ruby_cmp(a, c) <= 0,
        ruby_cmp(a, b) < 0 || ruby_cmp(b, c) < 0 ==> ruby_cmp(a, c) < 0,
{
    lemma_ruby_cmp_basic(a, b);
    lemma_ruby_cmp_basic(b, c);
    lemma_ruby_cmp_basic(a, c);
    if version_cmp(a.version, b.version) <= 0 && version_cmp(b.version, c.version) <= 0 {
        crate::version::lemma_version_cmp_trans(a.version, b.version, c.version);
    }
    if str_cmp(a.path, b.path) <= 0 && str_cmp(b.path, c.path) <= 0 {
        crate::chars::lemma_str_cmp_trans(a.path, b.path, c.path);
    }
    if str_cmp(a.key, b.key) <= 0 && str_cmp(b.key, c.key) <= 0 {
        crate::chars::lemma_str_cmp_trans(a.key, b.key, c.key);
    }
    if str_cmp(a.os, b.os) <= 0 && str_cmp(b.os, c.os) <= 0 {
        crate::chars::lemma_str_cmp_trans(a.os, b.os, c.os);
    }
    if str_cmp(a.arch, b.arch) <= 0 && str_cmp(b.arch, c.arch) <= 0 {
        crate::chars::lemma_str_cmp_trans(a.arch, b.arch, c.arch);
    }
    if opt_seq_cmp(a.symlink, b.symlink) <= 0 && opt_seq_cmp(b.symlink, c.symlink) <= 0 {
        lemma_opt_seq_cmp_trans(a.symlink, b.symlink, c.symlink);
    }
    if opt_seq_cmp(a.gem_root, b.gem_root) <= 0 && opt_seq_cmp(b.gem_root, c.gem_root) <= 0 {
        lemma_opt_seq_cmp_trans(a.gem_root, b.gem_root, c.gem_root);
    }
}

fn opt_string_compare(a: &Option<String>, b: &Option<String>) -> (r: i8)
    ensures
        r as int == opt_seq_cmp(opt_view(*a), opt_view(*b)),
{
    match (a, b) {
        (None, None) => 0,
        (None, Some(_)) => -1,
        (Some(_), None) => 1,
        (Some(x), Some(y)) => crate::chars::cmp_str(x.as_str(), y.as_str()),
    }
}

/// Three-way comparison of two runtimes in the library's total order.
pub fn compare_rubies(a: &Ruby, b: &Ruby) -> (r: i8)
    ensures
        r as int == ruby_cmp(a@, b@),
{
    let c = crate::version::compare_versions(&a.version, &b.version);
    if c != 0 {
        return c;
    }
    let c = crate::chars::cmp_str(a.path.as_str(), b.path.as_str());
    if c != 0 {
        return c;
    }
    let c = crate::chars::cmp_str(a.key.as_str(), b.key.as_str());
    if c != 0 {
        return c;
    }
    let c = crate::chars::cmp_str(a.os.as_str(), b.os.as_str());
    if c != 0 {
        return c;
    }
    let c = crate::chars::cmp_str(a.arch.as_str(), b.arch.as_str());
    if c != 0 {
        return c;
    }
    let c = opt_string_compare(&a.symlink, &b.symlink);
    if c != 0 {
        return c;
    }
    opt_string_compare(&a.gem_root, &b.gem_root)
}

/// The views of a list of runtimes, elementwise.
pub open spec fn ruby_views(s: Seq<Ruby>) -> Seq<RubyView> {
    Seq::new(s.len(), |i: int| s[i]@)
}

/// Builds the unique key `display-os-arch`.
pub open spec fn spec_ruby_key(display: Seq<char>, os: Seq<char>, arch: Seq<char>) -> Seq<char> {
    display + seq!['-'] + os + seq!['-'] + arch
}

pub fn make_ruby_key(display: &str, os: &str, arch: &str) -> (r: String)
    ensures
        r@ == spec_ruby_key(display@, os@, arch@),
{
    proof {
        reveal_strlit("-");
    }
    let mut out = String::new();
    out.append(display);
    out.append("-");
    out.append(os);
    out.append("-");
    out.append(arch);
    proof {
        assert(out@ =~= spec_ruby_key(display@, os@, arch@));
    }
    out
}

} // verus!
