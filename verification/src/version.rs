//! Ruby version identifiers: engine, numeric parts and prerelease tag,
//! with parsing, rendering, a total order and request matching.
//!
//! A `RubyVersion` doubles as a version request: a request leaves the
//! parts it does not constrain as `None`.

use vstd::prelude::*;

use crate::chars::{dec_digits, digits_end, digits_val, find_from, is_digit, spec_trim, str_cmp};

verus! {

/// The Ruby implementation a version belongs to.  The variant order is the
/// order engines sort in: standard Ruby first.
#[derive(Clone, Copy, Debug, PartialEq, Eq, Structural)]
pub enum RubyEngine {
    Ruby,
    JRuby,
    MRuby,
    TruffleRuby,
}

pub open spec fn engine_rank(e: RubyEngine) -> int {
    match e {
        RubyEngine::Ruby => 0,
        RubyEngine::JRuby => 1,
        RubyEngine::MRuby => 2,
        RubyEngine::TruffleRuby => 3,
    }
}

pub open spec fn spec_engine_name(e: RubyEngine) -> Seq<char> {
    match e {
        RubyEngine::Ruby => seq!['r', 'u', 'b', 'y'],
        RubyEngine::JRuby => seq!['j', 'r', 'u', 'b', 'y'],
        RubyEngine::MRuby => seq!['m', 'r', 'u', 'b', 'y'],
        RubyEngine::TruffleRuby => seq![
            't', 'r', 'u', 'f', 'f', 'l', 'e', 'r', 'u', 'b', 'y',
        ],
    }
}

impl RubyEngine {
    /// The engine's lowercase name, as it appears in display names.
    pub fn name(&self) -> (r: &'static str)
        ensures
            r@ == spec_engine_name(*self),
    {
        proof {
            reveal_strlit("ruby");
            reveal_strlit("jruby");
            reveal_strlit("mruby");
            reveal_strlit("truffleruby");
        }
        match self {
            RubyEngine::Ruby => "ruby",
            RubyEngine::JRuby => "jruby",
            RubyEngine::MRuby => "mruby",
            RubyEngine::TruffleRuby => "truffleruby",
        }
    }
}

/// Mathematical model of a version or request.
#[verifier::ext_equal]
pub ghost struct VersionView {
    pub engine: RubyEngine,
    pub major: Option<u64>,
    pub minor: Option<u64>,
    pub patch: Option<u64>,
    pub tiny: Option<u64>,
    pub prerelease: Option<Seq<char>>,
}

/// A parsed version identifier such as `ruby-3.4.1` or `jruby-9.4.13.0`,
/// or a version request such as `3.4`.
#[derive(Debug)]
pub struct RubyVersion {
    pub engine: RubyEngine,
    pub major: Option<u64>,
    pub minor: Option<u64>,
    pub patch: Option<u64>,
    pub tiny: Option<u64>,
    pub prerelease: Option<String>,
}

/// A version request is a version identifier whose unconstrained parts are
/// `None`.
pub type RubyRequest = RubyVersion;

impl View for RubyVersion {
    type V = VersionView;

    open spec fn view(&self) -> VersionView {
        VersionView {
            engine: self.engine,
            major: self.major,
            minor: self.minor,
            patch: self.patch,
            tiny: self.tiny,
            prerelease: match self.prerelease {
                Some(p) => Some(p@),
                None => None,
            },
        }
    }
}

impl PartialEq for RubyVersion {
    fn eq(&self, other: &RubyVersion) -> (r: bool) {
        self.engine == other.engine && opt_u64_eq(&self.major, &other.major) && opt_u64_eq(
            &self.minor,
            &other.minor,
        ) && opt_u64_eq(&self.patch, &other.patch) && opt_u64_eq(&self.tiny, &other.tiny)
            && opt_string_eq(&self.prerelease, &other.prerelease)
    }
}

impl Eq for RubyVersion {

}

impl vstd::std_specs::cmp::PartialEqSpecImpl for RubyVersion {
    open spec fn obeys_eq_spec() -> bool {
        true
    }

    open spec fn eq_spec(&self, other: &RubyVersion) -> bool {
        self@ == other@
    }
}

pub fn opt_u64_eq(a: &Option<u64>, b: &Option<u64>) -> (r: bool)
    ensures
        r == (a == b),
{
    match (a, b) {
        (Some(x), Some(y)) => x == y,
        (None, None) => true,
        _ => false,
    }
}

pub fn opt_string_eq(a: &Option<String>, b: &Option<String>) -> (r: bool)
    ensures
        r == match (a, b) {
            (Some(x), Some(y)) => x@ == y@,
            (None, None) => true,
            _ => false,
        },
{
    match (a, b) {
        (Some(x), Some(y)) => x.eq(y),
        (None, None) => true,
        _ => false,
    }
}

impl Default for RubyVersion {
    /// The unconstrained request: standard Ruby, any version.
    fn default() -> (r: RubyVersion)
        ensures
            r@ == (VersionView {
                engine: RubyEngine::Ruby,
                major: None,
                minor: None,
                patch: None,
                tiny: None,
                prerelease: None,
            }),
    {
        RubyVersion {
            engine: RubyEngine::Ruby,
            major: None,
            minor: None,
            patch: None,
            tiny: None,
            prerelease: None,
        }
    }
}

/// Order on optional numeric parts: an absent part sorts below any present
/// one.
pub open spec fn opt_u64_cmp(a: Option<u64>, b: Option<u64>) -> int {
    match (a, b) {
        (None, None) => 0,
        (None, Some(_)) => -1,
        (Some(_), None) => 1,
        (Some(x), Some(y)) => if x < y {
            -1
        } else if x > y {
            1
        } else {
            0
        },
    }
}

/// Order on prerelease tags: a release (no tag) sorts above any
/// prerelease of the same numeric version; two tags compare
/// lexicographically.
pub open spec fn pre_cmp(a: Option<Seq<char>>, b: Option<Seq<char>>) -> int {
    match (a, b) {
        (None, None) => 0,
        (None, Some(_)) => 1,
        (Some(_), None) => -1,
        (Some(x), Some(y)) => str_cmp(x, y),
    }
}

/// Total order on versions: engine first, then the numeric parts, then the
/// prerelease tag.
pub open spec fn version_cmp(a: VersionView, b: VersionView) -> int {
    if engine_rank(a.engine) < engine_rank(b.engine) {
        -1
    } else if engine_rank(a.engine) > engine_rank(b.engine) {
        1
    } else if opt_u64_cmp(a.major, b.major) != 0 {
        opt_u64_cmp(a.major, b.major)
    } else if opt_u64_cmp(a.minor, b.minor) != 0 {
        opt_u64_cmp(a.minor, b.minor)
    } else if opt_u64_cmp(a.patch, b.patch) != 0 {
        opt_u64_cmp(a.patch, b.patch)
    } else if opt_u64_cmp(a.tiny, b.tiny) != 0 {
        opt_u64_cmp(a.tiny, b.tiny)
    } else {
        pre_cmp(a.prerelease, b.prerelease)
    }
}

pub proof fn lemma_version_cmp_range(a: VersionView, b: VersionView)
    ensures
        -1 <= version_cmp(a, b) <= 1,
{
    crate::chars::lemma_str_cmp_range(
        match a.prerelease {
            Some(x) => x,
            None => Seq::empty(),
        },
        match b.prerelease {
            Some(x) => x,
            None => Seq::empty(),
        },
    );
}

/// The order is zero exactly on equal versions.
pub proof fn lemma_version_cmp_eq(a: VersionView, b: VersionView)
    ensures
        version_cmp(a, b) == 0 <==> a == b,
{
    match (a.prerelease, b.prerelease) {
        (Some(x), Some(y)) => {
            crate::chars::lemma_str_cmp_eq(x, y);
        },
        _ => {},
    }
}

pub proof fn lemma_version_cmp_flip(a: VersionView, b: VersionView)
    ensures
        version_cmp(a, b) == -version_cmp(b, a),
{
    match (a.prerelease, b.prerelease) {
        (Some(x), Some(y)) => {
            crate::chars::lemma_str_cmp_flip(x, y);
        },
        _ => {},
    }
}

pub proof fn lemma_version_cmp_trans(a: VersionView, b: VersionView, c: VersionView)
    requires
        version_cmp(a, b) <= 0,
        version_cmp(b, c) <= 0,
    ensures
        version_cmp(a, c) <= 0,
        version_cmp(a, b) < 0 || version_cmp(b, c) < 0 ==> version_cmp(a, c) < 0,
{
    lemma_version_cmp_eq(a, b);
    lemma_version_cmp_eq(b, c);
    lemma_version_cmp_eq(a, c);
    match (a.prerelease, b.prerelease, c.prerelease) {
        (Some(x), Some(y), Some(z)) => {
            if str_cmp(x, y) <= 0 && str_cmp(y, z) <= 0 {
                crate::chars::lemma_str_cmp_trans(x, y, z);
            }
        },
        _ => {},
    }
}

fn opt_u64_compare(a: &Option<u64>, b: &Option<u64>) -> (r: i8)
    ensures
        r as int == opt_u64_cmp(*a, *b),
{
    match (a, b) {
        (None, None) => 0,
        (None, Some(_)) => -1,
        (Some(_), None) => 1,
        (Some(x), Some(y)) => if x < y {
            -1
        } else if x > y {
            1
        } else {
            0
        },
    }
}

fn engine_compare(a: RubyEngine, b: RubyEngine) -> (r: i8)
    ensures
        r as int == if engine_rank(a) < engine_rank(b) {
            -1int
        } else if engine_rank(a) > engine_rank(b) {
            1int
        } else {
            0int
        },
{
    let ra: u8 = match a {
        RubyEngine::Ruby => 0,
        RubyEngine::JRuby => 1,
        RubyEngine::MRuby => 2,
        RubyEngine::TruffleRuby => 3,
    };
    let rb: u8 = match b {
        RubyEngine::Ruby => 0,
        RubyEngine::JRuby => 1,
        RubyEngine::MRuby => 2,
        RubyEngine::TruffleRuby => 3,
    };
    if ra < rb {
        -1
    } else if ra > rb {
        1
    } else {
        0
    }
}

/// Three-way comparison of two versions in the library's total order.
pub fn compare_versions(a: &RubyVersion, b: &RubyVersion) -> (r: i8)
    ensures
        r as int == version_cmp(a@, b@),
{
    let e = engine_compare(a.engine, b.engine);
    if e != 0 {
        return e;
    }
    let c = opt_u64_compare(&a.major, &b.major);
    if c != 0 {
        return c;
    }
    let c = opt_u64_compare(&a.minor, &b.minor);
    if c != 0 {
        return c;
    }
    let c = opt_u64_compare(&a.patch, &b.patch);
    if c != 0 {
        return c;
    }
    let c = opt_u64_compare(&a.tiny, &b.tiny);
    if c != 0 {
        return c;
    }
    match (&a.prerelease, &b.prerelease) {
        (None, None) => 0,
        (None, Some(_)) => 1,
        (Some(_), None) => -1,
        (Some(x), Some(y)) => crate::chars::cmp_str(x.as_str(), y.as_str()),
    }
}

/// Whether a request's constrained parts all agree with a candidate
/// version.
pub open spec fn spec_satisfied_by(req: VersionView, v: VersionView) -> bool {
    &&& req.engine == v.engine
    &&& (req.major is None || req.major == v.major)
    &&& (req.minor is None || req.minor == v.minor)
    &&& (req.patch is None || req.patch == v.patch)
    &&& (req.tiny is None || req.tiny == v.tiny)
    &&& (req.prerelease is None || req.prerelease == v.prerelease)
}

impl RubyVersion {
    /// Whether this request is satisfied by the candidate version `v`: the
    /// engines agree and every part the request constrains is equal.
    pub fn satisfied_by_version(&self, v: &RubyVersion) -> (r: bool)
        ensures
            r == spec_satisfied_by(self@, v@),
    {
        self.engine == v.engine && (self.major.is_none() || opt_u64_eq(&self.major, &v.major)) && (
        self.minor.is_none() || opt_u64_eq(&self.minor, &v.minor)) && (self.patch.is_none()
            || opt_u64_eq(&self.patch, &v.patch)) && (self.tiny.is_none() || opt_u64_eq(
            &self.tiny,
            &v.tiny,
        )) && (self.prerelease.is_none() || opt_string_eq(&self.prerelease, &v.prerelease))
    }
}

/// The deduplication key of a version in the catalog: engine and the
/// (possibly unspecified) major and minor parts.  Missing parts take part
/// in equality as they are: a version with an explicit part never groups
/// with one missing it.
#[verifier::ext_equal]
pub ghost struct VersionGroupKey {
    pub engine: RubyEngine,
    pub major: Option<u64>,
    pub minor: Option<u64>,
}

pub open spec fn group_key(v: VersionView) -> VersionGroupKey {
    VersionGroupKey { engine: v.engine, major: v.major, minor: v.minor }
}

/// Total order on group keys: engine, then major, then minor.
pub open spec fn key_cmp(a: VersionGroupKey, b: VersionGroupKey) -> int {
    if engine_rank(a.engine) < engine_rank(b.engine) {
        -1
    } else if engine_rank(a.engine) > engine_rank(b.engine) {
        1
    } else if opt_u64_cmp(a.major, b.major) != 0 {
        opt_u64_cmp(a.major, b.major)
    } else {
        opt_u64_cmp(a.minor, b.minor)
    }
}

pub proof fn lemma_key_cmp_basic(a: VersionGroupKey, b: VersionGroupKey)
    ensures
        -1 <= key_cmp(a, b) <= 1,
        key_cmp(a, b) == 0 <==> a == b,
        key_cmp(a, b) == -key_cmp(b, a),
{
}

pub proof fn lemma_key_cmp_trans(a: VersionGroupKey, b: VersionGroupKey, c: VersionGroupKey)
    requires
        key_cmp(a, b) <= 0,
        key_cmp(b, c) <= 0,
    ensures
        key_cmp(a, c) <= 0,
        key_cmp(a, b) < 0 || key_cmp(b, c) < 0 ==> key_cmp(a, c) < 0,
{
}

/// Three-way comparison of the group keys of two versions.
pub fn compare_group_keys(a: &RubyVersion, b: &RubyVersion) -> (r: i8)
    ensures
        r as int == key_cmp(group_key(a@), group_key(b@)),
{
    let e = engine_compare(a.engine, b.engine);
    if e != 0 {
        return e;
    }
    let c = opt_u64_compare(&a.major, &b.major);
    if c != 0 {
        return c;
    }
    opt_u64_compare(&a.minor, &b.minor)
}

/// The numeric tail of a rendered version: the present parts joined by
/// `.`, then `-` and the prerelease tag when one is present.
pub open spec fn spec_number_string(v: VersionView) -> Seq<char> {
    match v.major {
        None => Seq::empty(),
        Some(m) => dec_digits(m as nat) + (match v.minor {
            None => Seq::empty(),
            Some(mi) => seq!['.'] + dec_digits(mi as nat) + (match v.patch {
                None => Seq::empty(),
                Some(p) => seq!['.'] + dec_digits(p as nat) + (match v.tiny {
                    None => Seq::empty(),
                    Some(ti) => seq!['.'] + dec_digits(ti as nat),
                }),
            }),
        }) + (match v.prerelease {
            None => Seq::empty(),
            Some(p) => seq!['-'] + p,
        }),
    }
}

/// The platform-independent display name: engine name, and `-` plus the
/// numeric tail when the version carries one.
pub open spec fn spec_display_name(v: VersionView) -> Seq<char> {
    if v.major is None {
        spec_engine_name(v.engine)
    } else {
        spec_engine_name(v.engine) + seq!['-'] + spec_number_string(v)
    }
}

impl RubyVersion {
    /// Renders the numeric parts and prerelease tag, without the engine.
    pub fn number_string(&self) -> (r: String)
        ensures
            r@ == spec_number_string(self@),
    {
        proof {
            reveal_strlit(".");
            reveal_strlit("-");
        }
        let mut out = String::new();
        if let Some(m) = self.major {
            let s = crate::chars::u64_to_string(m);
            out.append(s.as_str());
            if let Some(mi) = self.minor {
                out.append(".");
                let s = crate::chars::u64_to_string(mi);
                out.append(s.as_str());
                if let Some(p) = self.patch {
                    out.append(".");
                    let s = crate::chars::u64_to_string(p);
                    out.append(s.as_str());
                    if let Some(ti) = self.tiny {
                        out.append(".");
                        let s = crate::chars::u64_to_string(ti);
                        out.append(s.as_str());
                    }
                }
            }
            if let Some(pre) = &self.prerelease {
                out.append("-");
                out.append(pre.as_str());
            }
        }
        proof {
            assert(out@ =~= spec_number_string(self@));
        }
        out
    }

    /// Renders the display name, e.g. `ruby-3.4.1`.
    pub fn display_name(&self) -> (r: String)
        ensures
            r@ == spec_display_name(self@),
    {
        proof {
            reveal_strlit("-");
        }
        let mut out = String::new();
        out.append(self.engine.name());
        if self.major.is_some() {
            out.append("-");
            let num = self.number_string();
            out.append(num.as_str());
        }
        proof {
            assert(out@ =~= spec_display_name(self@));
        }
        out
    }

    /// A field-for-field copy.
    pub fn duplicate(&self) -> (r: RubyVersion)
        ensures
            r@ == self@,
    {
        RubyVersion {
            engine: self.engine,
            major: self.major,
            minor: self.minor,
            patch: self.patch,
            tiny: self.tiny,
            prerelease: match &self.prerelease {
                Some(p) => Some(p.clone()),
                None => None,
            },
        }
    }
}

/// Error for text that is not a well-formed version or request.
#[derive(Clone, Copy, Debug, PartialEq, Eq, Structural)]
pub struct ParseError;

pub open spec fn engine_of_name(n: Seq<char>) -> Option<RubyEngine> {
    if n == spec_engine_name(RubyEngine::Ruby) {
        Some(RubyEngine::Ruby)
    } else if n == spec_engine_name(RubyEngine::JRuby) {
        Some(RubyEngine::JRuby)
    } else if n == spec_engine_name(RubyEngine::MRuby) {
        Some(RubyEngine::MRuby)
    } else if n == spec_engine_name(RubyEngine::TruffleRuby) {
        Some(RubyEngine::TruffleRuby)
    } else {
        None
    }
}

/// One numeric part starting at `i`: its value and end index, or `None`
/// when no digit stands there or the value does not fit in a `u64`.
pub open spec fn parse_part(u: Seq<char>, i: int) -> Option<(u64, int)> {
    let j = digits_end(u, i);
    if j == i {
        None
    } else if digits_val(u, i, j) > u64::MAX {
        None
    } else {
        Some((digits_val(u, i, j) as u64, j))
    }
}

/// Dot-separated numeric parts starting at `i`, at most `depth` further
/// parts after the first; yields the parts and the index after the last.
pub open spec fn parse_parts(u: Seq<char>, i: int, depth: nat) -> Option<(Seq<u64>, int)>
    decreases depth,
{
    match parse_part(u, i) {
        None => None,
        Some((v, j)) => if j < u.len() && u[j] == '.' {
            if depth == 0 {
                None
            } else {
                match parse_parts(u, j + 1, (depth - 1) as nat) {
                    None => None,
                    Some((rest, end)) => Some((seq![v] + rest, end)),
                }
            }
        } else {
            Some((seq![v], j))
        },
    }
}

pub open spec fn version_from_parts(e: RubyEngine, ps: Seq<u64>, pre: Option<Seq<char>>) -> VersionView {
    VersionView {
        engine: e,
        major: if ps.len() > 0 {
            Some(ps[0])
        } else {
            None
        },
        minor: if ps.len() > 1 {
            Some(ps[1])
        } else {
            None
        },
        patch: if ps.len() > 2 {
            Some(ps[2])
        } else {
            None
        },
        tiny: if ps.len() > 3 {
            Some(ps[3])
        } else {
            None
        },
        prerelease: pre,
    }
}

/// The numeric tail of a version string: one to four dot-separated parts,
/// optionally followed by `-` and a non-empty prerelease tag.
pub open spec fn spec_parse_number(t: Seq<char>, i: int, e: RubyEngine) -> Option<VersionView> {
    match parse_parts(t, i, 3) {
        None => None,
        Some((ps, end)) => if end == t.len() {
            Some(version_from_parts(e, ps, None))
        } else if t[end] == '-' && end + 1 < t.len() {
            Some(version_from_parts(e, ps, Some(t.skip(end + 1))))
        } else {
            None
        },
    }
}

/// The whole grammar: optional leading/trailing whitespace, an optional
/// engine name followed by `-`, then the numeric tail.  A bare engine name
/// is the unconstrained request for that engine.
pub open spec fn spec_parse_version(s: Seq<char>) -> Option<VersionView> {
    let t = spec_trim(s);
    if t.len() == 0 {
        None
    } else if is_digit(t[0]) {
        spec_parse_number(t, 0, RubyEngine::Ruby)
    } else {
        let d = find_from(t, 0, '-');
        match engine_of_name(t.take(d)) {
            None => None,
            Some(e) => if d == t.len() {
                Some(version_from_parts(e, Seq::empty(), None))
            } else {
                spec_parse_number(t, d + 1, e)
            },
        }
    }
}

fn find_dash(t: &str, n: usize) -> (r: usize)
    requires
        n == t@.len(),
    ensures
        r <= n,
        r as int == find_from(t@, 0, '-'),
{
    let mut j: usize = 0;
    while j < n && t.get_char(j) != '-'
        invariant
            j <= n,
            n == t@.len(),
            forall|k: int| 0 <= k < j ==> t@[k] != '-',
        decreases n - j,
    {
        j = j + 1;
    }
    proof {
        crate::chars::lemma_find_from_unique(t@, 0, '-', j as int);
    }
    j
}

fn engine_from_name(s: &str) -> (r: Option<RubyEngine>)
    ensures
        r == engine_of_name(s@),
{
    proof {
        reveal_strlit("ruby");
        reveal_strlit("jruby");
        reveal_strlit("mruby");
        reveal_strlit("truffleruby");
        assert(("ruby")@ =~= spec_engine_name(RubyEngine::Ruby));
        assert(("jruby")@ =~= spec_engine_name(RubyEngine::JRuby));
        assert(("mruby")@ =~= spec_engine_name(RubyEngine::MRuby));
        assert(("truffleruby")@ =~= spec_engine_name(RubyEngine::TruffleRuby));
        crate::chars::lemma_str_cmp_eq(s@, ("ruby")@);
        crate::chars::lemma_str_cmp_eq(s@, ("jruby")@);
        crate::chars::lemma_str_cmp_eq(s@, ("mruby")@);
        crate::chars::lemma_str_cmp_eq(s@, ("truffleruby")@);
    }
    if crate::chars::cmp_str(s, "ruby") == 0 {
        Some(RubyEngine::Ruby)
    } else if crate::chars::cmp_str(s, "jruby") == 0 {
        Some(RubyEngine::JRuby)
    } else if crate::chars::cmp_str(s, "mruby") == 0 {
        Some(RubyEngine::MRuby)
    } else if crate::chars::cmp_str(s, "truffleruby") == 0 {
        Some(RubyEngine::TruffleRuby)
    } else {
        None
    }
}

fn parse_parts_exec(t: &str, i: usize, n: usize, depth: u8) -> (r: Option<(Vec<u64>, usize)>)
    requires
        i <= n,
        n == t@.len(),
    ensures
        match r {
            Some(pair) => parse_parts(t@, i as int, depth as nat) == Some(
                (pair.0@, pair.1 as int),
            ) && i <= pair.1 <= n,
            None => parse_parts(t@, i as int, depth as nat) is None,
        },
    decreases depth,
{
    let j = crate::chars::digits_end_exec(t, i, n);
    if j == i {
        return None;
    }
    let v = match crate::chars::parse_digits_u64(t, i, j) {
        Some(v) => v,
        None => {
            return None;
        },
    };
    if j < n && t.get_char(j) == '.' {
        if depth == 0 {
            return None;
        }
        match parse_parts_exec(t, j + 1, n, depth - 1) {
            None => None,
            Some((rest, end)) => {
                let mut ps: Vec<u64> = Vec::new();
                ps.push(v);
                let mut rest = rest;
                ps.append(&mut rest);
                proof {
                    assert(ps@ =~= seq![v] + parse_parts(
                        t@,
                        j + 1,
                        (depth - 1) as nat,
                    )->Some_0.0);
                }
                Some((ps, end))
            },
        }
    } else {
        let mut ps: Vec<u64> = Vec::new();
        ps.push(v);
        proof {
            assert(ps@ =~= seq![v]);
        }
        Some((ps, j))
    }
}

fn build_version(e: RubyEngine, ps: &Vec<u64>, pre: Option<String>) -> (r: RubyVersion)
    ensures
        r@ == version_from_parts(
            e,
            ps@,
            match pre {
                Some(p) => Some(p@),
                None => None,
            },
        ),
{
    RubyVersion {
        engine: e,
        major: if ps.len() > 0 {
            Some(ps[0])
        } else {
            None
        },
        minor: if ps.len() > 1 {
            Some(ps[1])
        } else {
            None
        },
        patch: if ps.len() > 2 {
            Some(ps[2])
        } else {
            None
        },
        tiny: if ps.len() > 3 {
            Some(ps[3])
        } else {
            None
        },
        prerelease: pre,
    }
}

impl RubyVersion {
    /// Parses a version identifier or request.  Succeeds exactly on the
    /// texts the grammar [`spec_parse_version`] accepts.
    pub fn parse(s: &str) -> (r: Result<RubyVersion, ParseError>)
        ensures
            match r {
                Ok(v) => spec_parse_version(s@) == Some(v@),
                Err(_) => spec_parse_version(s@) is None,
            },
    {
        let t = crate::chars::trim(s);
        let n = t.unicode_len();
        if n == 0 {
            return Err(ParseError);
        }
        if crate::chars::is_digit_exec(t.get_char(0)) {
            Self::parse_number_at(t, 0, n, RubyEngine::Ruby)
        } else {
            let d = find_dash(t, n);
            let ename = t.substring_char(0, d);
            match engine_from_name(ename) {
                None => Err(ParseError),
                Some(e) => {
                    proof {
                        assert(ename@ =~= t@.take(d as int));
                    }
                    if d == n {
                        Ok(RubyVersion {
                            engine: e,
                            major: None,
                            minor: None,
                            patch: None,
                            tiny: None,
                            prerelease: None,
                        })
                    } else {
                        Self::parse_number_at(t, d + 1, n, e)
                    }
                },
            }
        }
    }

    fn parse_number_at(t: &str, i: usize, n: usize, e: RubyEngine) -> (r: Result<
        RubyVersion,
        ParseError,
    >)
        requires
            i <= n,
            n == t@.len(),
        ensures
            match r {
                Ok(v) => spec_parse_number(t@, i as int, e) == Some(v@),
                Err(_) => spec_parse_number(t@, i as int, e) is None,
            },
    {
        match parse_parts_exec(t, i, n, 3) {
            None => Err(ParseError),
            Some((ps, end)) => {
                if end == n {
                    Ok(build_version(e, &ps, None))
                } else if t.get_char(end) == '-' && end + 1 < n {
                    let pre = t.substring_char(end + 1, n);
                    proof {
                        assert(pre@ =~= t@.skip(end + 1));
                    }
                    Ok(build_version(e, &ps, Some(pre.to_owned())))
                } else {
                    Err(ParseError)
                }
            },
        }
    }
}

} // verus!
