//! Request resolution: picking the installation that satisfies a version
//! request.

use vstd::prelude::*;

use crate::ruby::{Ruby, RubyView, ruby_views};
use crate::version::{RubyVersion, VersionView, spec_satisfied_by};

verus! {

impl RubyVersion {
    /// Whether this request is satisfied by the candidate installation.
    pub fn satisfied_by(&self, ruby: &Ruby) -> (r: bool)
        ensures
            r == spec_satisfied_by(self@, ruby@.version),
    {
        self.satisfied_by_version(&ruby.version)
    }
}

/// The last entry of `s` whose version satisfies the request.  The list
/// is scanned from its end: the canonical order puts the most preferred
/// candidate last.
pub open spec fn spec_matching_ruby(req: VersionView, s: Seq<RubyView>) -> Option<RubyView>
    decreases s.len(),
{
    if s.len() == 0 {
        None
    } else if spec_satisfied_by(req, s.last().version) {
        Some(s.last())
    } else {
        spec_matching_ruby(req, s.drop_last())
    }
}

/// Picks the best-matching installation for a request: the last
/// satisfying entry of the (canonically sorted) list.  Absence of a
/// match is an expected outcome, not an error.
pub fn matching_ruby(request: &RubyVersion, rubies: &Vec<Ruby>) -> (r: Option<Ruby>)
    ensures
        match r {
            Some(rb) => spec_matching_ruby(request@, ruby_views(rubies@)) == Some(rb@),
            None => spec_matching_ruby(request@, ruby_views(rubies@)) is None,
        },
{
    let ghost s = ruby_views(rubies@);
    let mut i: usize = rubies.len();
    proof {
        assert(s.take(s.len() as int) =~= s);
    }
    while i > 0
        invariant
            i <= rubies@.len(),
            s == ruby_views(rubies@),
            spec_matching_ruby(request@, s) == spec_matching_ruby(request@, s.take(i as int)),
        decreases i,
    {
        i = i - 1;
        if request.satisfied_by(&rubies[i]) {
            proof {
                assert(s.take(i + 1).last() == s[i as int]);
            }
            return Some(rubies[i].duplicate());
        }
        proof {
            assert(s.take(i + 1).last() == s[i as int]);
            assert(s.take(i + 1).drop_last() =~= s.take(i as int));
        }
    }
    proof {
        assert(s.take(0) =~= Seq::<RubyView>::empty());
    }
    None
}

} // verus!
