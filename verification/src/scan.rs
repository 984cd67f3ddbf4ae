//! Discovery support: the deterministic order of the installation list.
//!
//! The caller enumerates candidate directories and probes them (possibly
//! concurrently, in any completion order); the final list is sorted here,
//! and the order is total, so the result does not depend on the scan
//! order.

use vstd::prelude::*;

use vstd::relations::{sorted_by, total_ordering};

use crate::ruby::{Ruby, RubyView, ruby_cmp, ruby_views};

verus! {

/// The non-strict form of the runtimes' total order.
pub open spec fn ruby_le(a: RubyView, b: RubyView) -> bool {
    ruby_cmp(a, b) <= 0
}

pub open spec fn ruby_order() -> spec_fn(RubyView, RubyView) -> bool {
    |a: RubyView, b: RubyView| ruby_le(a, b)
}

/// The runtimes' order is a total order.
pub proof fn lemma_ruby_order_total()
    ensures
        total_ordering(ruby_order()),
{
    let r = ruby_order();
    assert forall|x: RubyView| #[trigger] r(x, x) by {
        crate::ruby::lemma_ruby_cmp_basic(x, x);
    }
    assert forall|x: RubyView, y: RubyView| #[trigger] r(x, y) && #[trigger] r(y, x) implies x
        == y by {
        crate::ruby::lemma_ruby_cmp_basic(x, y);
    }
    assert forall|x: RubyView, y: RubyView, z: RubyView|
        #[trigger] r(x, y) && #[trigger] r(y, z) implies r(x, z) by {
        crate::ruby::lemma_ruby_cmp_trans(x, y, z);
    }
    assert forall|x: RubyView, y: RubyView| #[trigger] r(x, y) || #[trigger] r(y, x) by {
        crate::ruby::lemma_ruby_cmp_basic(x, y);
    }
}

fn insert_sorted(acc: &mut Vec<Ruby>, x: Ruby)
    requires
        sorted_by(ruby_views(old(acc)@), ruby_order()),
    ensures
        sorted_by(ruby_views(final(acc)@), ruby_order()),
        ruby_views(final(acc)@).to_multiset() == ruby_views(old(acc)@).to_multiset().insert(x@),
{
    let ghost s = ruby_views(old(acc)@);
    let ghost xv = x@;
    let n = acc.len();
    let mut j: usize = 0;
    while j < n && crate::ruby::compare_rubies(&acc[j], &x) <= 0
        invariant
            j <= n,
            n == acc@.len(),
            acc@ == old(acc)@,
            s == ruby_views(acc@),
            xv == x@,
            forall|k: int| 0 <= k < j ==> ruby_cmp(#[trigger] s[k], xv) <= 0,
        decreases n - j,
    {
        j = j + 1;
    }
    proof {
        if j < n {
            assert(ruby_cmp(s[j as int], xv) > 0);
        }
    }
    acc.insert(j, x);
    proof {
        let t = ruby_views(acc@);
        let u = s.take(j as int).push(xv);
        assert(t =~= u + s.skip(j as int));
        assert forall|i1: int, i2: int| 0 <= i1 < i2 < t.len() implies #[trigger] ruby_order()(
            t[i1],
            t[i2],
        ) by {
            if i1 < j && i2 < j {
                assert(ruby_order()(s[i1], s[i2]));
            } else if i1 < j && i2 == j {
                assert(ruby_cmp(s[i1], xv) <= 0);
            } else if i1 == j && i2 > j {
                crate::ruby::lemma_ruby_cmp_basic(xv, s[j as int]);
                if i2 - 1 > j {
                    assert(ruby_order()(s[j as int], s[i2 - 1]));
                    crate::ruby::lemma_ruby_cmp_trans(xv, s[j as int], s[i2 - 1]);
                }
            } else if i1 < j && i2 > j {
                assert(ruby_order()(s[i1], s[i2 - 1]));
            } else {
                assert(ruby_order()(s[i1 - 1], s[i2 - 1]));
            }
        }
        assert(sorted_by(t, ruby_order()));
        broadcast use vstd::seq_lib::group_to_multiset_ensures;
        broadcast use vstd::multiset::group_multiset_axioms;

        assert(u.to_multiset() =~= s.take(j as int).to_multiset().insert(xv));
        vstd::seq_lib::lemma_multiset_commutative(u, s.skip(j as int));
        vstd::seq_lib::lemma_multiset_commutative(s.take(j as int), s.skip(j as int));
        assert(s.take(j as int) + s.skip(j as int) =~= s);
        assert(t.to_multiset() =~= s.to_multiset().insert(xv));
    }
}

/// Sorts discovered runtimes into the library's stable total order:
/// engine-partitioned, version ascending, tie-broken by path and the
/// remaining fields.
pub fn sort_rubies(rubies: Vec<Ruby>) -> (r: Vec<Ruby>)
    ensures
        sorted_by(ruby_views(r@), ruby_order()),
        ruby_views(r@).to_multiset() == ruby_views(rubies@).to_multiset(),
{
    let ghost input = ruby_views(rubies@);
    let mut acc: Vec<Ruby> = Vec::new();
    let mut i: usize = 0;
    proof {
        broadcast use vstd::seq_lib::group_to_multiset_ensures;

        assert(input.take(0) =~= Seq::<RubyView>::empty());
        assert(ruby_views(acc@) =~= Seq::<RubyView>::empty());
        assert(ruby_views(acc@).to_multiset() =~= input.take(0).to_multiset());
    }
    while i < rubies.len()
        invariant
            i <= rubies@.len(),
            input == ruby_views(rubies@),
            sorted_by(ruby_views(acc@), ruby_order()),
            ruby_views(acc@).to_multiset() == input.take(i as int).to_multiset(),
        decreases rubies@.len() - i,
    {
        let x = rubies[i].duplicate();
        insert_sorted(&mut acc, x);
        proof {
            broadcast use vstd::seq_lib::group_to_multiset_ensures;

            assert(input.take(i + 1) =~= input.take(i as int).push(input[i as int]));
        }
        i = i + 1;
    }
    proof {
        assert(input.take(input.len() as int) =~= input);
    }
    acc
}

/// Two discovery passes that find the same runtimes — in whatever order
/// the scan completed — sort to the same list: the final listing is
/// deterministic for an unchanged set of installations.
pub proof fn lemma_sorted_scan_deterministic(s1: Seq<RubyView>, s2: Seq<RubyView>)
    requires
        sorted_by(s1, ruby_order()),
        sorted_by(s2, ruby_order()),
        s1.to_multiset() == s2.to_multiset(),
    ensures
        s1 == s2,
{
    lemma_ruby_order_total();
    vstd::seq_lib::lemma_sorted_unique(s1, s2, ruby_order());
    assert(s1 =~= s2);
}

} // verus!
