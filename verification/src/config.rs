//! The pure parts of configuration handling: the project-directory walk
//! decision, the pin-file contents, and the environment update a chosen
//! runtime induces.  Reading the process environment, walking the
//! filesystem and joining path lists stay with the caller.

use vstd::prelude::*;

use crate::ruby::{Ruby, RubyView};
use crate::version::{spec_engine_name, spec_number_string};

verus! {

/// One step of the walk from the working directory up to the root while
/// looking for a `.ruby-version` marker.
#[derive(Clone, Copy, Debug, PartialEq, Eq, Structural)]
pub enum ProjectDirStep {
    /// The current directory holds the marker: it is the project directory.
    Found,
    /// The root was reached without a marker: there is no project directory.
    ReachedRoot,
    /// Continue with the parent directory.
    Ascend,
}

/// Decides one step of the project-directory search, given whether the
/// current directory holds a `.ruby-version` file.
pub fn project_dir_step(dir: &str, root: &str, has_marker: bool) -> (r: ProjectDirStep)
    ensures
        r == if has_marker {
            ProjectDirStep::Found
        } else if dir@ == root@ {
            ProjectDirStep::ReachedRoot
        } else {
            ProjectDirStep::Ascend
        },
{
    if has_marker {
        ProjectDirStep::Found
    } else {
        proof {
            crate::chars::lemma_str_cmp_eq(dir@, root@);
        }
        if crate::chars::cmp_str(dir, root) == 0 {
            ProjectDirStep::ReachedRoot
        } else {
            ProjectDirStep::Ascend
        }
    }
}

/// The contents written to a `.ruby-version` pin file: the requested
/// version followed by a newline.
pub fn pin_file_contents(version: &str) -> (r: String)
    ensures
        r@ == version@ + ("\n")@,
{
    let mut out = String::new();
    out.append(version);
    out.append("\n");
    proof {
        assert(out@ =~= version@ + ("\n")@);
    }
    out
}

/// The environment update a chosen runtime induces.  `set` lacks the two
/// joined variables: the caller joins `gem_path_entries` into `GEM_PATH`
/// (set whenever a runtime was chosen) and `path_entries` into `PATH`
/// (always set), with the platform's separator.
pub struct EnvUpdate {
    pub unset: Vec<&'static str>,
    pub set: Vec<(&'static str, String)>,
    pub gem_path_entries: Vec<String>,
    pub path_entries: Vec<String>,
}

pub open spec fn str_views(s: Seq<String>) -> Seq<Seq<char>> {
    Seq::new(s.len(), |i: int| s[i]@)
}

pub open spec fn strs_views(s: Seq<&str>) -> Seq<Seq<char>> {
    Seq::new(s.len(), |i: int| s[i]@)
}

pub open spec fn pair_views(s: Seq<(&str, String)>) -> Seq<(Seq<char>, Seq<char>)> {
    Seq::new(s.len(), |i: int| (s[i].0@, s[i].1@))
}

pub open spec fn seq_contains_str(s: Seq<Seq<char>>, x: Seq<char>) -> bool {
    exists|i: int| 0 <= i < s.len() && s[i] == x
}

/// The current `PATH` entries with the previous runtime's and gem
/// directories removed, in their old order.
pub open spec fn filter_paths(
    paths: Seq<Seq<char>>,
    drop1: Seq<Seq<char>>,
    drop2: Seq<Seq<char>>,
) -> Seq<Seq<char>>
    decreases paths.len(),
{
    if paths.len() == 0 {
        Seq::empty()
    } else {
        filter_paths(paths.drop_last(), drop1, drop2) + (if seq_contains_str(drop1, paths.last())
            || seq_contains_str(drop2, paths.last()) {
            Seq::empty()
        } else {
            seq![paths.last()]
        })
    }
}

/// The variables this update unsets: of the managed variables, those the
/// update does not set (the caller's `GEM_PATH` and `PATH` handling
/// counted in), in their fixed order.
pub open spec fn spec_env_unset(
    ruby: Option<RubyView>,
    gem_home: Option<Seq<char>>,
) -> Seq<Seq<char>> {
    match ruby {
        None => seq![
            ("RUBY_ROOT")@,
            ("RUBY_ENGINE")@,
            ("RUBY_VERSION")@,
            ("RUBYOPT")@,
            ("GEM_ROOT")@,
            ("GEM_HOME")@,
            ("GEM_PATH")@,
        ],
        Some(r) => seq![("RUBYOPT")@] + (if r.gem_root is None {
            seq![("GEM_ROOT")@]
        } else {
            Seq::empty()
        }) + (if gem_home is None {
            seq![("GEM_HOME")@]
        } else {
            Seq::empty()
        }),
    }
}

/// The variables this update sets directly, in insertion order.
pub open spec fn spec_env_set(
    ruby: Option<RubyView>,
    gem_home: Option<Seq<char>>,
) -> Seq<(Seq<char>, Seq<char>)> {
    match ruby {
        None => Seq::empty(),
        Some(r) => seq![
            (("RUBY_ROOT")@, r.path),
            (("RUBY_ENGINE")@, spec_engine_name(r.version.engine)),
            (("RUBY_VERSION")@, spec_number_string(r.version)),
        ] + (match gem_home {
            Some(g) => seq![(("GEM_HOME")@, g)],
            None => Seq::empty(),
        }) + (match r.gem_root {
            Some(g) => seq![(("GEM_ROOT")@, g)],
            None => Seq::empty(),
        }),
    }
}

/// The `GEM_PATH` entries: the chosen runtime's gem root and gem home
/// `bin` directories, most specific first.
pub open spec fn spec_gem_path_entries(
    ruby: Option<RubyView>,
    gem_home: Option<Seq<char>>,
) -> Seq<Seq<char>> {
    match ruby {
        None => Seq::empty(),
        Some(r) => (match r.gem_root {
            Some(g) => seq![g + ("/bin")@],
            None => Seq::empty(),
        }) + (match gem_home {
            Some(g) => seq![g + ("/bin")@],
            None => Seq::empty(),
        }),
    }
}

/// The new `PATH` entries: the runtime's directories in front, then the
/// old entries with the previous runtime's directories removed.
pub open spec fn spec_path_entries(
    ruby: Option<RubyView>,
    gem_home: Option<Seq<char>>,
    paths: Seq<Seq<char>>,
    old_ruby_bins: Seq<Seq<char>>,
    old_gem_paths: Seq<Seq<char>>,
) -> Seq<Seq<char>> {
    let kept = filter_paths(paths, old_ruby_bins, old_gem_paths);
    match ruby {
        None => kept,
        Some(r) => spec_gem_path_entries(ruby, gem_home) + seq![r.path + ("/bin")@] + kept,
    }
}

fn vec_contains_str(v: &Vec<String>, x: &str) -> (r: bool)
    ensures
        r == seq_contains_str(str_views(v@), x@),
{
    let ghost sv = str_views(v@);
    let mut i: usize = 0;
    while i < v.len()
        invariant
            i <= v@.len(),
            sv == str_views(v@),
            forall|k: int| 0 <= k < i ==> (#[trigger] sv[k]) != x@,
        decreases v@.len() - i,
    {
        proof {
            crate::chars::lemma_str_cmp_eq(v@[i as int]@, x@);
        }
        if crate::chars::cmp_str(v[i].as_str(), x) == 0 {
            proof {
                assert(sv[i as int] == x@);
            }
            return true;
        }
        i = i + 1;
    }
    false
}

/// Computes the environment update for a chosen runtime (or for none).
///
/// `gem_home` is the gem home the caller derived for the runtime, if
/// any; `paths` are the current `PATH` entries; `old_ruby_bins` and
/// `old_gem_paths` are the directories the previously active runtime put
/// on the path, as read from the managed variables.
pub fn env_for(
    ruby: Option<&Ruby>,
    gem_home: Option<String>,
    paths: Vec<String>,
    old_ruby_bins: Vec<String>,
    old_gem_paths: Vec<String>,
) -> (r: EnvUpdate)
    ensures
        ({
            let rv = match ruby {
                Some(rb) => Some(rb@),
                None => None,
            };
            let gh = match gem_home {
                Some(g) => Some(g@),
                None => None,
            };
            &&& strs_views(r.unset@) == spec_env_unset(rv, gh)
            &&& pair_views(r.set@) == spec_env_set(rv, gh)
            &&& str_views(r.gem_path_entries@) == spec_gem_path_entries(rv, gh)
            &&& str_views(r.path_entries@) == spec_path_entries(
                rv,
                gh,
                str_views(paths@),
                str_views(old_ruby_bins@),
                str_views(old_gem_paths@),
            )
        }),
{
    let ghost pv = str_views(paths@);
    let ghost d1 = str_views(old_ruby_bins@);
    let ghost d2 = str_views(old_gem_paths@);
    let mut kept: Vec<String> = Vec::new();
    let mut i: usize = 0;
    proof {
        assert(pv.take(0) =~= Seq::<Seq<char>>::empty());
        assert(str_views(kept@) =~= filter_paths(pv.take(0), d1, d2));
    }
    while i < paths.len()
        invariant
            i <= paths@.len(),
            pv == str_views(paths@),
            d1 == str_views(old_ruby_bins@),
            d2 == str_views(old_gem_paths@),
            str_views(kept@) == filter_paths(pv.take(i as int), d1, d2),
        decreases paths@.len() - i,
    {
        let keep = !vec_contains_str(&old_ruby_bins, paths[i].as_str())
            && !vec_contains_str(&old_gem_paths, paths[i].as_str());
        if keep {
            kept.push(paths[i].clone());
        }
        proof {
            assert(pv.take(i + 1).drop_last() =~= pv.take(i as int));
            assert(pv.take(i + 1).last() == pv[i as int]);
            assert(str_views(kept@) =~= filter_paths(pv.take(i + 1), d1, d2));
        }
        i = i + 1;
    }
    proof {
        assert(pv.take(pv.len() as int) =~= pv);
    }

    match ruby {
        None => {
            let mut unset: Vec<&'static str> = Vec::new();
            unset.push("RUBY_ROOT");
            unset.push("RUBY_ENGINE");
            unset.push("RUBY_VERSION");
            unset.push("RUBYOPT");
            unset.push("GEM_ROOT");
            unset.push("GEM_HOME");
            unset.push("GEM_PATH");
            let r = EnvUpdate {
                unset,
                set: Vec::new(),
                gem_path_entries: Vec::new(),
                path_entries: kept,
            };
            proof {
                assert(strs_views(r.unset@) =~= spec_env_unset(None, match gem_home {
                    Some(g) => Some(g@),
                    None => None,
                }));
                assert(pair_views(r.set@) =~= Seq::<(Seq<char>, Seq<char>)>::empty());
                assert(str_views(r.gem_path_entries@) =~= Seq::<Seq<char>>::empty());
            }
            r
        },
        Some(rb) => {
            let mut set: Vec<(&'static str, String)> = Vec::new();
            set.push(("RUBY_ROOT", rb.path.clone()));
            set.push(("RUBY_ENGINE", rb.version.engine.name().to_owned()));
            set.push(("RUBY_VERSION", rb.version.number_string()));

            let mut gem_path_entries: Vec<String> = Vec::new();
            if let Some(gr) = &rb.gem_root {
                let mut b = String::new();
                b.append(gr.as_str());
                b.append("/bin");
                gem_path_entries.push(b);
            }
            let has_gem_home = match &gem_home {
                Some(gh) => {
                    let mut b = String::new();
                    b.append(gh.as_str());
                    b.append("/bin");
                    gem_path_entries.push(b);
                    set.push(("GEM_HOME", gh.clone()));
                    true
                },
                None => false,
            };
            if let Some(gr) = &rb.gem_root {
                set.push(("GEM_ROOT", gr.clone()));
            }

            let mut unset: Vec<&'static str> = Vec::new();
            unset.push("RUBYOPT");
            if rb.gem_root.is_none() {
                unset.push("GEM_ROOT");
            }
            if !has_gem_home {
                unset.push("GEM_HOME");
            }

            let mut path_entries: Vec<String> = Vec::new();
            if let Some(gr) = &rb.gem_root {
                let mut b = String::new();
                b.append(gr.as_str());
                b.append("/bin");
                path_entries.push(b);
            }
            if let Some(gh) = &gem_home {
                let mut b = String::new();
                b.append(gh.as_str());
                b.append("/bin");
                path_entries.push(b);
            }
            path_entries.push(rb.bin_path());
            proof {
                let gh = match &gem_home {
                    Some(g) => Some(g@),
                    None => None,
                };
                assert(str_views(gem_path_entries@) =~~= spec_gem_path_entries(Some(rb@), gh));
                assert(str_views(path_entries@) =~~= spec_gem_path_entries(Some(rb@), gh) + seq![
                    rb@.path + ("/bin")@,
                ]);
                assert(str_views(kept@).take(0) =~= Seq::<Seq<char>>::empty());
                assert(str_views(path_entries@) =~~= str_views(gem_path_entries@) + seq![
                    rb@.path + ("/bin")@,
                ] + str_views(kept@).take(0));
            }
            let ghost base = str_views(gem_path_entries@) + seq![rb@.path + ("/bin")@];
            let mut j: usize = 0;
            while j < kept.len()
                invariant
                    j <= kept@.len(),
                    base == str_views(gem_path_entries@) + seq![rb@.path + ("/bin")@],
                    str_views(path_entries@) == base + str_views(kept@).take(j as int),
                decreases kept@.len() - j,
            {
                let ghost pre = path_entries@;
                path_entries.push(kept[j].clone());
                proof {
                    let goal = base + str_views(kept@).take(j + 1);
                    assert(str_views(pre).len() == base.len() + j);
                    assert(pre.len() == base.len() + j);
                    assert forall|k: int| 0 <= k < goal.len() implies str_views(path_entries@)[k]
                        == goal[k] by {
                        if k < pre.len() {
                            assert(path_entries@[k] == pre[k]);
                            assert(str_views(pre)[k] == (base + str_views(kept@).take(j as int))[k]);
                        } else {
                            assert(k == pre.len());
                            assert(path_entries@[k]@ == kept@[j as int]@);
                            assert(goal[k] == str_views(kept@)[j as int]);
                        }
                    }
                    assert(str_views(path_entries@) =~= goal);
                }
                j = j + 1;
            }
            proof {
                assert(str_views(gem_path_entries@).take(str_views(gem_path_entries@).len() as int)
                    =~= str_views(gem_path_entries@));
                assert(str_views(kept@).take(str_views(kept@).len() as int) =~= str_views(kept@));
            }

            let r = EnvUpdate { unset, set, gem_path_entries, path_entries };
            proof {
                let rv = Some(rb@);
                let gh = match &gem_home {
                    Some(g) => Some(g@),
                    None => None,
                };
                assert(strs_views(r.unset@) =~= spec_env_unset(rv, gh));
                assert(pair_views(r.set@) =~= spec_env_set(rv, gh));
                assert(str_views(r.gem_path_entries@) =~= spec_gem_path_entries(rv, gh));
                assert(str_views(r.path_entries@) =~= spec_path_entries(rv, gh, pv, d1, d2));
            }
            r
        },
    }
}

} // verus!
