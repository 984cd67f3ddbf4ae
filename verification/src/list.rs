//! Merging installed runtimes with the platform-filtered, deduplicated
//! remote catalog into the unified display and resolution list.

use vstd::prelude::*;

use crate::asset::{AssetView, Release, spec_ruby_from_asset};
use crate::ruby::{Ruby, RubyView, ruby_views};
use crate::version::{VersionView, group_key, key_cmp, version_cmp, spec_display_name};
use crate::chars::str_cmp;

verus! {

/// How a listing is rendered.
#[derive(Clone, Copy, Debug, PartialEq, Eq, Structural)]
pub enum OutputFormat {
    Text,
    Json,
}

/// Mathematical model of a [`JsonRubyEntry`].
#[verifier::ext_equal]
pub ghost struct EntryView {
    pub details: RubyView,
    pub installed: bool,
    pub active: bool,
}

/// One row of the merged listing: a runtime, whether it is locally
/// installed, and whether it is the project's active runtime.
#[derive(Debug)]
pub struct JsonRubyEntry {
    pub details: Ruby,
    pub installed: bool,
    pub active: bool,
}

impl View for JsonRubyEntry {
    type V = EntryView;

    open spec fn view(&self) -> EntryView {
        EntryView { details: self.details@, installed: self.installed, active: self.active }
    }
}

impl PartialEq for JsonRubyEntry {
    fn eq(&self, other: &JsonRubyEntry) -> (r: bool) {
        self.details.eq(&other.details) && self.installed == other.installed && self.active
            == other.active
    }
}

impl Eq for JsonRubyEntry {

}

impl vstd::std_specs::cmp::PartialEqSpecImpl for JsonRubyEntry {
    open spec fn obeys_eq_spec() -> bool {
        true
    }

    open spec fn eq_spec(&self, other: &JsonRubyEntry) -> bool {
        self@ == other@
    }
}

pub open spec fn entry_views(s: Seq<JsonRubyEntry>) -> Seq<EntryView> {
    Seq::new(s.len(), |i: int| s[i]@)
}

/// Insertion into a catalog-deduplication list that is sorted by group
/// key with one entry per key: a new key goes to its sorted place; on an
/// existing key the incoming runtime wins unless the present one has the
/// strictly greater version.
pub open spec fn dedup_insert(s: Seq<RubyView>, x: RubyView) -> Seq<RubyView>
    decreases s.len(),
{
    if s.len() == 0 {
        seq![x]
    } else {
        let c = key_cmp(group_key(x.version), group_key(s[0].version));
        if c < 0 {
            seq![x] + s
        } else if c == 0 {
            if version_cmp(s[0].version, x.version) > 0 {
                s
            } else {
                seq![x] + s.drop_first()
            }
        } else {
            seq![s[0]] + dedup_insert(s.drop_first(), x)
        }
    }
}

/// The deduplicated catalog: one runtime per `(engine, major, minor)`
/// group, the maximal version of each group (later entries win ties),
/// sorted by group key.
pub open spec fn latest_patch_spec(s: Seq<RubyView>) -> Seq<RubyView>
    decreases s.len(),
{
    if s.len() == 0 {
        Seq::empty()
    } else {
        dedup_insert(latest_patch_spec(s.drop_last()), s.last())
    }
}

/// Whether `r` holds an entry of `v`'s group whose version is at least
/// `v`.
pub open spec fn group_represented(r: Seq<RubyView>, v: VersionView) -> bool {
    exists|j: int|
        0 <= j < r.len() && group_key((#[trigger] r[j]).version) == group_key(v) && version_cmp(
            r[j].version,
            v,
        ) >= 0
}

proof fn lemma_dedup_insert_props(t: Seq<RubyView>, x: RubyView)
    ensures
        forall|i: int| 0 <= i < t.len() ==> group_represented(dedup_insert(t, x), (#[trigger] t[i]).version),
        group_represented(dedup_insert(t, x), x.version),
        forall|j: int|
            0 <= j < dedup_insert(t, x).len() ==> (#[trigger] dedup_insert(t, x)[j]) == x
                || t.contains(dedup_insert(t, x)[j]),
    decreases t.len(),
{
    let r = dedup_insert(t, x);
    crate::version::lemma_version_cmp_eq(x.version, x.version);
    if t.len() == 0 {
        assert(r[0] == x);
    } else {
        let c = key_cmp(group_key(x.version), group_key(t[0].version));
        crate::version::lemma_key_cmp_basic(group_key(x.version), group_key(t[0].version));
        crate::version::lemma_version_cmp_eq(t[0].version, t[0].version);
        if c < 0 {
            assert(r[0] == x);
            assert forall|i: int| 0 <= i < t.len() implies group_represented(
                r,
                (#[trigger] t[i]).version,
            ) by {
                assert(r[i + 1] == t[i]);
                crate::version::lemma_version_cmp_eq(t[i].version, t[i].version);
            }
            assert forall|j: int| 0 <= j < r.len() implies (#[trigger] r[j]) == x || t.contains(
                r[j],
            ) by {
                if j > 0 {
                    assert(r[j] == t[j - 1]);
                }
            }
        } else if c == 0 {
            crate::version::lemma_version_cmp_flip(t[0].version, x.version);
            if version_cmp(t[0].version, x.version) > 0 {
                assert forall|i: int| 0 <= i < t.len() implies group_represented(
                    r,
                    (#[trigger] t[i]).version,
                ) by {
                    assert(r[i] == t[i]);
                    crate::version::lemma_version_cmp_eq(t[i].version, t[i].version);
                }
                assert(group_key(r[0].version) == group_key(x.version) && version_cmp(
                    r[0].version,
                    x.version,
                ) >= 0);
                assert(forall|j: int| 0 <= j < r.len() ==> t.contains(#[trigger] r[j]));
            } else {
                assert(r[0] == x);
                assert(group_key(r[0].version) == group_key(t[0].version) && version_cmp(
                    r[0].version,
                    t[0].version,
                ) >= 0);
                assert forall|i: int| 0 <= i < t.len() implies group_represented(
                    r,
                    (#[trigger] t[i]).version,
                ) by {
                    if i > 0 {
                        assert(r[i] == t.drop_first()[i - 1]);
                        assert(r[i] == t[i]);
                        crate::version::lemma_version_cmp_eq(t[i].version, t[i].version);
                    }
                }
                assert forall|j: int| 0 <= j < r.len() implies (#[trigger] r[j]) == x
                    || t.contains(r[j]) by {
                    if j > 0 {
                        assert(r[j] == t[j]);
                    }
                }
            }
        } else {
            lemma_dedup_insert_props(t.drop_first(), x);
            let rr = dedup_insert(t.drop_first(), x);
            assert(r == seq![t[0]] + rr);
            assert forall|v: VersionView| group_represented(rr, v) implies group_represented(
                r,
                v,
            ) by {
                let j0 = choose|j0: int|
                    0 <= j0 < rr.len() && group_key((#[trigger] rr[j0]).version) == group_key(v)
                        && version_cmp(rr[j0].version, v) >= 0;
                assert(r[j0 + 1] == rr[j0]);
            }
            assert forall|i: int| 0 <= i < t.len() implies group_represented(
                r,
                (#[trigger] t[i]).version,
            ) by {
                if i == 0 {
                    assert(r[0] == t[0]);
                } else {
                    assert(t.drop_first()[i - 1] == t[i]);
                    assert(group_represented(rr, t.drop_first()[i - 1].version));
                }
            }
            assert forall|j: int| 0 <= j < r.len() implies (#[trigger] r[j]) == x || t.contains(
                r[j],
            ) by {
                if j == 0 {
                    assert(t[0] == r[0]);
                    assert(t.contains(t[0]));
                } else {
                    assert(r[j] == rr[j - 1]);
                    if rr[j - 1] != x {
                        let i0 = choose|i0: int|
                            0 <= i0 < t.drop_first().len() && t.drop_first()[i0] == rr[j - 1];
                        assert(t[i0 + 1] == rr[j - 1]);
                    }
                }
            }
        }
    }
}

/// The law behind catalog deduplication: for every input entry the kept
/// list holds an entry of the same `(engine, major, minor)` group with a
/// version at least as large, and every kept entry is one of the inputs.
pub proof fn lemma_latest_patch_keeps_group_maxima(s: Seq<RubyView>)
    ensures
        forall|i: int|
            0 <= i < s.len() ==> group_represented(latest_patch_spec(s), (#[trigger] s[i]).version),
        forall|j: int|
            0 <= j < latest_patch_spec(s).len() ==> s.contains(
                #[trigger] latest_patch_spec(s)[j],
            ),
    decreases s.len(),
{
    if s.len() > 0 {
        let prev = latest_patch_spec(s.drop_last());
        let x = s.last();
        let r = latest_patch_spec(s);
        lemma_latest_patch_keeps_group_maxima(s.drop_last());
        lemma_dedup_insert_props(prev, x);
        assert forall|i: int| 0 <= i < s.len() implies group_represented(
            r,
            (#[trigger] s[i]).version,
        ) by {
            if i == s.len() - 1 {
                assert(s[i] == x);
            } else {
                assert(s.drop_last()[i] == s[i]);
                assert(group_represented(prev, s[i].version));
                let j1 = choose|j1: int|
                    0 <= j1 < prev.len() && group_key((#[trigger] prev[j1]).version) == group_key(
                        s[i].version,
                    ) && version_cmp(prev[j1].version, s[i].version) >= 0;
                assert(group_represented(r, prev[j1].version));
                let j2 = choose|j2: int|
                    0 <= j2 < r.len() && group_key((#[trigger] r[j2]).version) == group_key(
                        prev[j1].version,
                    ) && version_cmp(r[j2].version, prev[j1].version) >= 0;
                crate::version::lemma_version_cmp_flip(r[j2].version, prev[j1].version);
                crate::version::lemma_version_cmp_flip(prev[j1].version, s[i].version);
                crate::version::lemma_version_cmp_trans(
                    s[i].version,
                    prev[j1].version,
                    r[j2].version,
                );
                crate::version::lemma_version_cmp_flip(s[i].version, r[j2].version);
            }
        }
        assert forall|j: int| 0 <= j < r.len() implies s.contains(#[trigger] r[j]) by {
            if r[j] == x {
                assert(s[s.len() - 1] == x);
            } else {
                assert(prev.contains(r[j]));
                assert(s.drop_last().contains(r[j]));
                let i1 = choose|i1: int|
                    0 <= i1 < s.drop_last().len() && s.drop_last()[i1] == r[j];
                assert(s[i1] == r[j]);
            }
        }
    }
}

proof fn lemma_dedup_insert_skip(s: Seq<RubyView>, x: RubyView, j: int)
    requires
        0 <= j <= s.len(),
        forall|k: int| 0 <= k < j ==> key_cmp(group_key(x.version), group_key(#[trigger] s[k].version)) > 0,
    ensures
        dedup_insert(s, x) == s.take(j) + dedup_insert(s.skip(j), x),
    decreases j,
{
    if j == 0 {
        assert(s.take(0) =~= Seq::empty());
        assert(s.skip(0) =~= s);
        assert(dedup_insert(s, x) =~= s.take(0) + dedup_insert(s.skip(0), x));
    } else {
        assert(key_cmp(group_key(x.version), group_key(s[0].version)) > 0);
        lemma_dedup_insert_skip(s.drop_first(), x, j - 1);
        assert(s.drop_first().take(j - 1) =~= s.take(j).drop_first());
        assert(s.drop_first().skip(j - 1) =~= s.skip(j));
        assert(dedup_insert(s, x) == seq![s[0]] + dedup_insert(s.drop_first(), x));
        assert(seq![s[0]] + (s.drop_first().take(j - 1) + dedup_insert(s.skip(j), x)) =~= s.take(j)
            + dedup_insert(s.skip(j), x));
    }
}

fn dedup_insert_exec(acc: &mut Vec<Ruby>, x: Ruby)
    ensures
        ruby_views(final(acc)@) == dedup_insert(ruby_views(old(acc)@), x@),
{
    let ghost s = ruby_views(old(acc)@);
    let ghost xv = x@;
    let mut j: usize = 0;
    loop
        invariant
            j <= acc@.len(),
            acc@ == old(acc)@,
            s == ruby_views(acc@),
            xv == x@,
            forall|k: int| 0 <= k < j ==> key_cmp(group_key(xv.version), group_key(#[trigger] s[k].version)) > 0,
        decreases acc@.len() - j,
    {
        proof {
            lemma_dedup_insert_skip(s, xv, j as int);
        }
        if j == acc.len() {
            proof {
                assert(s.skip(j as int) =~= Seq::empty());
                assert(dedup_insert(s.skip(j as int), xv) =~= seq![xv]);
            }
            acc.push(x);
            proof {
                assert(ruby_views(acc@) =~= s.take(j as int) + seq![xv]);
            }
            return;
        }
        let c = crate::version::compare_group_keys(&x.version, &acc[j].version);
        proof {
            assert(s.skip(j as int)[0] == s[j as int]);
        }
        if c < 0 {
            acc.insert(j, x);
            proof {
                assert(dedup_insert(s.skip(j as int), xv) == seq![xv] + s.skip(j as int));
                assert(ruby_views(acc@) =~= s.take(j as int) + (seq![xv] + s.skip(j as int)));
            }
            return;
        }
        if c == 0 {
            let keep_old = crate::version::compare_versions(&acc[j].version, &x.version) > 0;
            if keep_old {
                proof {
                    assert(dedup_insert(s.skip(j as int), xv) == s.skip(j as int));
                    assert(ruby_views(acc@) =~= s.take(j as int) + s.skip(j as int));
                }
                return;
            }
            let _ = acc.remove(j);
            acc.insert(j, x);
            proof {
                assert(dedup_insert(s.skip(j as int), xv) == seq![xv] + s.skip(j as int).drop_first());
                assert(ruby_views(acc@) =~= s.take(j as int) + (seq![xv] + s.skip(
                    j as int,
                ).drop_first()));
            }
            return;
        }
        j = j + 1;
    }
}

/// Keeps, per `(engine, major, minor)` group, only the entry with the
/// maximal full version (prerelease-aware; later entries win ties), the
/// groups sorted by key.
pub fn latest_patch_version(rubies_for_this_platform: Vec<Ruby>) -> (r: Vec<Ruby>)
    ensures
        ruby_views(r@) == latest_patch_spec(ruby_views(rubies_for_this_platform@)),
{
    let ghost input = ruby_views(rubies_for_this_platform@);
    let mut acc: Vec<Ruby> = Vec::new();
    let mut i: usize = 0;
    proof {
        assert(input.take(0) =~= Seq::empty());
        assert(ruby_views(acc@) =~= Seq::empty());
    }
    while i < rubies_for_this_platform.len()
        invariant
            i <= rubies_for_this_platform@.len(),
            input == ruby_views(rubies_for_this_platform@),
            ruby_views(acc@) == latest_patch_spec(input.take(i as int)),
        decreases rubies_for_this_platform@.len() - i,
    {
        let x = rubies_for_this_platform[i].duplicate();
        dedup_insert_exec(&mut acc, x);
        proof {
            assert(input.take(i + 1).drop_last() =~= input.take(i as int));
            assert(input.take(i + 1).last() == input[i as int]);
        }
        i = i + 1;
    }
    proof {
        assert(input.take(input.len() as int) =~= input);
    }
    acc
}

/// A merged row's source: the runtime together with whether it
/// originates from local discovery (`true`) rather than from the remote
/// catalog (`false`).
pub type SourcedRubyView = (RubyView, bool);

/// Display-name groups, sorted by name, each keeping its members in
/// encounter order.
pub open spec fn group_insert(
    g: Seq<(Seq<char>, Seq<SourcedRubyView>)>,
    name: Seq<char>,
    x: SourcedRubyView,
) -> Seq<(Seq<char>, Seq<SourcedRubyView>)>
    decreases g.len(),
{
    if g.len() == 0 {
        seq![(name, seq![x])]
    } else {
        let c = str_cmp(name, g[0].0);
        if c < 0 {
            seq![(name, seq![x])] + g
        } else if c == 0 {
            seq![(g[0].0, g[0].1.push(x))] + g.drop_first()
        } else {
            seq![g[0]] + group_insert(g.drop_first(), name, x)
        }
    }
}

/// The installed runtimes grouped by display name, in encounter order
/// within each group, each marked as locally installed.
pub open spec fn groups_of_installed(s: Seq<RubyView>) -> Seq<(Seq<char>, Seq<SourcedRubyView>)>
    decreases s.len(),
{
    if s.len() == 0 {
        Seq::empty()
    } else {
        group_insert(
            groups_of_installed(s.drop_last()),
            spec_display_name(s.last().version),
            (s.last(), true),
        )
    }
}

pub open spec fn groups_has_name(
    g: Seq<(Seq<char>, Seq<SourcedRubyView>)>,
    name: Seq<char>,
) -> bool {
    exists|i: int| 0 <= i < g.len() && g[i].0 == name
}

/// Remote candidates join the groups only under display names that are
/// not present yet, marked as not installed: installed entries are never
/// shadowed or duplicated.
pub open spec fn merge_available(
    g: Seq<(Seq<char>, Seq<SourcedRubyView>)>,
    avail: Seq<RubyView>,
) -> Seq<(Seq<char>, Seq<SourcedRubyView>)>
    decreases avail.len(),
{
    if avail.len() == 0 {
        g
    } else {
        let g1 = merge_available(g, avail.drop_last());
        let x = avail.last();
        let name = spec_display_name(x.version);
        if groups_has_name(g1, name) {
            g1
        } else {
            group_insert(g1, name, (x, false))
        }
    }
}

pub open spec fn groups_flatten(g: Seq<(Seq<char>, Seq<SourcedRubyView>)>) -> Seq<SourcedRubyView>
    decreases g.len(),
{
    if g.len() == 0 {
        Seq::empty()
    } else {
        g[0].1 + groups_flatten(g.drop_first())
    }
}

pub open spec fn opt_ruby_view(o: Option<Ruby>) -> Option<RubyView> {
    match o {
        Some(r) => Some(r@),
        None => None,
    }
}

/// One listing row: the runtime, installed exactly when it originates
/// from local discovery, active when it equals the active runtime.
pub open spec fn entry_of(m: SourcedRubyView, active: Option<RubyView>) -> EntryView {
    EntryView {
        details: m.0,
        installed: m.1,
        active: match active {
            Some(a) => a == m.0,
            None => false,
        },
    }
}

pub open spec fn entries_of(s: Seq<SourcedRubyView>, active: Option<RubyView>) -> Seq<EntryView> {
    Seq::new(s.len(), |i: int| entry_of(s[i], active))
}

/// The assets that decode to a runtime for the target `(os, arch)`, in
/// catalog order; assets that do not parse are skipped.
pub open spec fn spec_platform_rubies(
    assets: Seq<AssetView>,
    os: Seq<char>,
    arch: Seq<char>,
) -> Seq<RubyView>
    decreases assets.len(),
{
    if assets.len() == 0 {
        Seq::empty()
    } else {
        spec_platform_rubies(assets.drop_last(), os, arch) + (match spec_ruby_from_asset(
            assets.last(),
        ) {
            Some(rb) => if rb.os == os && rb.arch == arch {
                seq![rb]
            } else {
                Seq::empty()
            },
            None => Seq::empty(),
        })
    }
}

/// The whole merge: installed runtimes grouped by display name; the
/// catalog filtered to the platform and deduplicated; remote names not
/// already installed added; groups flattened in name order into rows.
pub open spec fn spec_rubies_to_show(
    release: crate::asset::ReleaseView,
    installed: Seq<RubyView>,
    active: Option<RubyView>,
    platform: Seq<char>,
) -> Seq<EntryView> {
    let g1 = groups_of_installed(installed);
    let osarch = crate::platform::spec_parse_arch(platform);
    let cand = spec_platform_rubies(release.assets, osarch.0, osarch.1);
    let latest = latest_patch_spec(cand);
    let g2 = merge_available(g1, latest);
    entries_of(groups_flatten(g2), active)
}

pub open spec fn sourced_views(s: Seq<(Ruby, bool)>) -> Seq<SourcedRubyView> {
    Seq::new(s.len(), |i: int| ((s[i].0)@, s[i].1))
}

pub open spec fn group_views(g: Seq<(String, Vec<(Ruby, bool)>)>) -> Seq<
    (Seq<char>, Seq<SourcedRubyView>),
> {
    Seq::new(g.len(), |i: int| (g[i].0@, sourced_views(g[i].1@)))
}

proof fn lemma_group_insert_skip(
    g: Seq<(Seq<char>, Seq<SourcedRubyView>)>,
    name: Seq<char>,
    x: SourcedRubyView,
    j: int,
)
    requires
        0 <= j <= g.len(),
        forall|k: int| 0 <= k < j ==> str_cmp(name, (#[trigger] g[k]).0) > 0,
    ensures
        group_insert(g, name, x) == g.take(j) + group_insert(g.skip(j), name, x),
    decreases j,
{
    if j == 0 {
        assert(g.take(0) =~= Seq::empty());
        assert(g.skip(0) =~= g);
        assert(group_insert(g, name, x) =~= g.take(0) + group_insert(g.skip(0), name, x));
    } else {
        assert(str_cmp(name, g[0].0) > 0);
        lemma_group_insert_skip(g.drop_first(), name, x, j - 1);
        assert(g.drop_first().take(j - 1) =~= g.take(j).drop_first());
        assert(g.drop_first().skip(j - 1) =~= g.skip(j));
        assert(seq![g[0]] + (g.drop_first().take(j - 1) + group_insert(g.skip(j), name, x)) =~= g
            .take(j) + group_insert(g.skip(j), name, x));
    }
}

fn group_insert_exec(groups: &mut Vec<(String, Vec<(Ruby, bool)>)>, name: String, x: (Ruby, bool))
    ensures
        group_views(final(groups)@) == group_insert(
            group_views(old(groups)@),
            name@,
            ((x.0)@, x.1),
        ),
{
    let ghost g = group_views(old(groups)@);
    let ghost nv = name@;
    let ghost xv: SourcedRubyView = ((x.0)@, x.1);
    let mut j: usize = 0;
    loop
        invariant
            j <= groups@.len(),
            groups@ == old(groups)@,
            g == group_views(groups@),
            nv == name@,
            xv == ((x.0)@, x.1),
            forall|k: int| 0 <= k < j ==> str_cmp(nv, (#[trigger] g[k]).0) > 0,
        decreases groups@.len() - j,
    {
        proof {
            lemma_group_insert_skip(g, nv, xv, j as int);
        }
        if j == groups.len() {
            proof {
                assert(g.skip(j as int) =~= Seq::empty());
            }
            groups.push((name, vec![x]));
            proof {
                assert(group_views(groups@) =~~= g.take(j as int) + seq![(nv, seq![xv])]);
            }
            return;
        }
        let c = crate::chars::cmp_str(name.as_str(), groups[j].0.as_str());
        proof {
            assert(g.skip(j as int)[0] == g[j as int]);
        }
        if c < 0 {
            groups.insert(j, (name, vec![x]));
            proof {
                assert(group_views(groups@) =~~= g.take(j as int) + (seq![(nv, seq![xv])] + g.skip(
                    j as int,
                )));
            }
            return;
        }
        if c == 0 {
            let pair = groups.remove(j);
            let (nm, mut members) = pair;
            members.push(x);
            groups.insert(j, (nm, members));
            proof {
                crate::chars::lemma_str_cmp_eq(nv, g[j as int].0);
                assert(group_views(groups@) =~~= g.take(j as int) + (seq![
                    (g[j as int].0, g[j as int].1.push(xv)),
                ] + g.skip(j as int).drop_first()));
            }
            return;
        }
        j = j + 1;
    }
}

fn groups_has_name_exec(groups: &Vec<(String, Vec<(Ruby, bool)>)>, name: &str) -> (r: bool)
    ensures
        r == groups_has_name(group_views(groups@), name@),
{
    let ghost g = group_views(groups@);
    let mut j: usize = 0;
    while j < groups.len()
        invariant
            j <= groups@.len(),
            g == group_views(groups@),
            forall|k: int| 0 <= k < j ==> (#[trigger] g[k]).0 != name@,
        decreases groups@.len() - j,
    {
        proof {
            crate::chars::lemma_str_cmp_eq(name@, g[j as int].0);
        }
        if crate::chars::cmp_str(name, groups[j].0.as_str()) == 0 {
            return true;
        }
        j = j + 1;
    }
    false
}

proof fn lemma_flatten_snoc(g: Seq<(Seq<char>, Seq<SourcedRubyView>)>, i: int)
    requires
        0 <= i < g.len(),
    ensures
        groups_flatten(g.take(i + 1)) == groups_flatten(g.take(i)) + g[i].1,
    decreases i,
{
    if i == 0 {
        assert(g.take(1).drop_first() =~= Seq::empty());
        assert(g.take(0) =~= Seq::empty());
        assert(g.take(1)[0] == g[0]);
        assert(groups_flatten(g.take(1)) =~= groups_flatten(g.take(0)) + g[0].1);
    } else {
        lemma_flatten_snoc(g.drop_first(), i - 1);
        assert(g.drop_first().take(i) =~= g.take(i + 1).drop_first());
        assert(g.drop_first().take(i - 1) =~= g.take(i).drop_first());
        assert(g.take(i + 1)[0] == g[0]);
        assert(g.take(i)[0] == g[0]);
        assert(g.drop_first()[i - 1] == g[i]);
        assert(g[0].1 + (groups_flatten(g.take(i).drop_first()) + g[i].1) =~= (g[0].1
            + groups_flatten(g.take(i).drop_first())) + g[i].1);
    }
}

/// Merges the installed runtimes with the platform-filtered, deduplicated
/// catalog into the rows to show, in display-name order.  Installed
/// entries always stay; a remote entry appears only under a display name
/// that no installed runtime has.
pub fn rubies_to_show(
    release: Release,
    installed_rubies: Vec<Ruby>,
    active_ruby: Option<Ruby>,
    current_platform: &str,
) -> (r: Vec<JsonRubyEntry>)
    ensures
        entry_views(r@) == spec_rubies_to_show(
            release@,
            ruby_views(installed_rubies@),
            opt_ruby_view(active_ruby),
            current_platform@,
        ),
{
    let ghost installed_v = ruby_views(installed_rubies@);
    let ghost activev = opt_ruby_view(active_ruby);

    let mut groups: Vec<(String, Vec<(Ruby, bool)>)> = Vec::new();
    let mut i: usize = 0;
    proof {
        assert(installed_v.take(0) =~= Seq::empty());
        assert(group_views(groups@) =~= groups_of_installed(installed_v.take(0)));
    }
    while i < installed_rubies.len()
        invariant
            i <= installed_rubies@.len(),
            installed_v == ruby_views(installed_rubies@),
            group_views(groups@) == groups_of_installed(installed_v.take(i as int)),
        decreases installed_rubies@.len() - i,
    {
        let rb = installed_rubies[i].duplicate();
        let name = rb.display_name();
        group_insert_exec(&mut groups, name, (rb, true));
        proof {
            assert(installed_v.take(i + 1).drop_last() =~= installed_v.take(i as int));
            assert(installed_v.take(i + 1).last() == installed_v[i as int]);
        }
        i = i + 1;
    }
    proof {
        assert(installed_v.take(installed_v.len() as int) =~= installed_v);
    }

    let (desired_os, desired_arch) = crate::platform::parse_arch_str(current_platform);
    let ghost osv = desired_os@;
    let ghost archv = desired_arch@;
    let mut candidates: Vec<Ruby> = Vec::new();
    let mut i: usize = 0;
    proof {
        assert(release@.assets.take(0) =~= Seq::<AssetView>::empty());
        assert(ruby_views(candidates@) =~= spec_platform_rubies(release@.assets.take(0), osv, archv));
    }
    while i < release.assets.len()
        invariant
            i <= release.assets@.len(),
            release@.assets.len() == release.assets@.len(),
            osv == desired_os@,
            archv == desired_arch@,
            forall|k: int|
                0 <= k < release.assets@.len() ==> release@.assets[k] == (
                #[trigger] release.assets@[k])@,
            ruby_views(candidates@) == spec_platform_rubies(
                release@.assets.take(i as int),
                osv,
                archv,
            ),
        decreases release.assets@.len() - i,
    {
        match crate::asset::ruby_from_asset(&release.assets[i]) {
            Ok(rb) => {
                proof {
                    crate::chars::lemma_str_cmp_eq(rb@.os, osv);
                    crate::chars::lemma_str_cmp_eq(rb@.arch, archv);
                }
                if crate::chars::cmp_str(rb.os.as_str(), desired_os) == 0 && crate::chars::cmp_str(
                    rb.arch.as_str(),
                    desired_arch,
                ) == 0 {
                    candidates.push(rb);
                }
            },
            Err(_) => {},
        }
        proof {
            assert(release@.assets.take(i + 1).drop_last() =~= release@.assets.take(i as int));
            assert(release@.assets.take(i + 1).last() == release@.assets[i as int]);
            assert(ruby_views(candidates@) =~= spec_platform_rubies(
                release@.assets.take(i + 1),
                osv,
                archv,
            ));
        }
        i = i + 1;
    }
    proof {
        assert(release@.assets.take(release@.assets.len() as int) =~= release@.assets);
    }

    let latest = latest_patch_version(candidates);
    let ghost latest_v = ruby_views(latest@);

    let mut i: usize = 0;
    proof {
        assert(latest_v.take(0) =~= Seq::<RubyView>::empty());
    }
    while i < latest.len()
        invariant
            i <= latest@.len(),
            latest_v == ruby_views(latest@),
            group_views(groups@) == merge_available(
                groups_of_installed(ruby_views(installed_rubies@)),
                latest_v.take(i as int),
            ),
        decreases latest@.len() - i,
    {
        let name = latest[i].display_name();
        if !groups_has_name_exec(&groups, name.as_str()) {
            let rb = latest[i].duplicate();
            group_insert_exec(&mut groups, name, (rb, false));
        }
        proof {
            assert(latest_v.take(i + 1).drop_last() =~= latest_v.take(i as int));
            assert(latest_v.take(i + 1).last() == latest_v[i as int]);
        }
        i = i + 1;
    }
    proof {
        assert(latest_v.take(latest_v.len() as int) =~= latest_v);
    }

    let ghost gv = group_views(groups@);
    let mut out: Vec<JsonRubyEntry> = Vec::new();
    let mut gi: usize = 0;
    proof {
        assert(gv.take(0) =~= Seq::<(Seq<char>, Seq<SourcedRubyView>)>::empty());
        assert(entry_views(out@) =~= entries_of(groups_flatten(gv.take(0)), activev));
    }
    while gi < groups.len()
        invariant
            gi <= groups@.len(),
            gv == group_views(groups@),
            activev == opt_ruby_view(active_ruby),
            entry_views(out@) == entries_of(groups_flatten(gv.take(gi as int)), activev),
        decreases groups@.len() - gi,
    {
        let n = groups[gi].1.len();
        let mut ri: usize = 0;
        while ri < n
            invariant
                ri <= n,
                gi < groups@.len(),
                n == groups@[gi as int].1@.len(),
                gv == group_views(groups@),
                activev == opt_ruby_view(active_ruby),
                entry_views(out@) == entries_of(
                    groups_flatten(gv.take(gi as int)) + gv[gi as int].1.take(ri as int),
                    activev,
                ),
            decreases n - ri,
        {
            let details = groups[gi].1[ri].0.duplicate();
            let installed = groups[gi].1[ri].1;
            let active = match &active_ruby {
                Some(a) => a.eq(&details),
                None => false,
            };
            let ghost rv: SourcedRubyView = gv[gi as int].1[ri as int];
            proof {
                assert(details@ == rv.0);
                assert(installed == rv.1);
                assert(active == (match activev {
                    Some(a) => a == rv.0,
                    None => false,
                }));
            }
            let ghost pre = out@;
            out.push(JsonRubyEntry { details, installed, active });
            proof {
                let oldcat = groups_flatten(gv.take(gi as int)) + gv[gi as int].1.take(ri as int);
                let newcat = groups_flatten(gv.take(gi as int)) + gv[gi as int].1.take(ri + 1);
                assert(entry_views(pre).len() == entries_of(oldcat, activev).len());
                assert(pre.len() == oldcat.len());
                assert(newcat =~= oldcat.push(rv));
                assert forall|k: int| 0 <= k < newcat.len() implies entry_views(out@)[k]
                    == entries_of(newcat, activev)[k] by {
                    if k < pre.len() {
                        assert(out@[k] == pre[k]);
                        assert(entry_views(pre)[k] == entries_of(oldcat, activev)[k]);
                        assert(newcat[k] == oldcat[k]);
                    } else {
                        assert(k == pre.len());
                        assert(newcat[k] == rv);
                        assert(entry_views(out@)[k] == entry_of(rv, activev));
                    }
                }
                assert(entry_views(out@) =~= entries_of(newcat, activev));
            }
            ri = ri + 1;
        }
        proof {
            lemma_flatten_snoc(gv, gi as int);
            assert(gv[gi as int].1.take(gv[gi as int].1.len() as int) =~= gv[gi as int].1);
        }
        gi = gi + 1;
    }
    proof {
        assert(gv.take(gv.len() as int) =~= gv);
    }
    out
}

/// The rows of the installed-only listing: every installed runtime, in
/// order, marked installed, with the active flag set on the active one.
pub open spec fn installed_entries_of(s: Seq<RubyView>, active: Option<RubyView>) -> Seq<
    EntryView,
> {
    Seq::new(
        s.len(),
        |i: int|
            EntryView {
                details: s[i],
                installed: true,
                active: match active {
                    Some(a) => a == s[i],
                    None => false,
                },
            },
    )
}

/// Builds the installed-only listing.
pub fn installed_entries(installed_rubies: Vec<Ruby>, active_ruby: Option<Ruby>) -> (r: Vec<
    JsonRubyEntry,
>)
    ensures
        entry_views(r@) == installed_entries_of(
            ruby_views(installed_rubies@),
            opt_ruby_view(active_ruby),
        ),
{
    let ghost activev = opt_ruby_view(active_ruby);
    let ghost sv = ruby_views(installed_rubies@);
    let mut out: Vec<JsonRubyEntry> = Vec::new();
    let mut i: usize = 0;
    proof {
        assert(entry_views(out@) =~= installed_entries_of(sv.take(0), activev));
    }
    while i < installed_rubies.len()
        invariant
            i <= installed_rubies@.len(),
            sv == ruby_views(installed_rubies@),
            activev == opt_ruby_view(active_ruby),
            entry_views(out@) == installed_entries_of(sv.take(i as int), activev),
        decreases installed_rubies@.len() - i,
    {
        let details = installed_rubies[i].duplicate();
        let active = match &active_ruby {
            Some(a) => a.eq(&details),
            None => false,
        };
        let ghost rv = sv[i as int];
        proof {
            assert(details@ == rv);
            assert(active == (match activev {
                Some(a) => a == rv,
                None => false,
            }));
        }
        let ghost pre = out@;
        out.push(JsonRubyEntry { details, installed: true, active });
        proof {
            assert(entry_views(pre).len() == installed_entries_of(sv.take(i as int), activev).len());
            assert(pre.len() == i);
            assert forall|k: int| 0 <= k < i + 1 implies entry_views(out@)[k]
                == installed_entries_of(sv.take(i + 1), activev)[k] by {
                if k < pre.len() {
                    assert(out@[k] == pre[k]);
                    assert(entry_views(pre)[k] == installed_entries_of(sv.take(i as int), activev)[k]);
                    assert(sv.take(i + 1)[k] == sv.take(i as int)[k]);
                } else {
                    assert(k == i);
                    assert(sv.take(i + 1)[k] == rv);
                }
            }
            assert(entry_views(out@) =~= installed_entries_of(sv.take(i + 1), activev));
        }
        i = i + 1;
    }
    proof {
        assert(sv.take(sv.len() as int) =~= sv);
    }
    out
}

} // verus!
