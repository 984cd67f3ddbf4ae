//! The per-installation cache: content-derived keys and the validation of
//! stored entries.
//!
//! The caller reads, writes and deletes the underlying byte store; the
//! key derivation and the decision what a stored entry means live here.

use vstd::prelude::*;

use crate::chars::{dec_digits, is_digit};
use crate::ruby::Ruby;

verus! {

/// The cache key of an installation: the modification time of its
/// interpreter executable (nanoseconds since an epoch) in decimal, a
/// dash, then the installation path.  Distinct inputs give distinct keys,
/// so a touched executable can never be served a stale entry.
pub open spec fn spec_cache_key(path: Seq<char>, mtime_nanos: nat) -> Seq<char> {
    dec_digits(mtime_nanos) + seq!['-'] + path
}

/// Derives the cache key for the installation at `path` whose
/// interpreter executable was last modified at `mtime_nanos`.
pub fn interpreter_cache_key(path: &str, mtime_nanos: u128) -> (r: String)
    ensures
        r@ == spec_cache_key(path@, mtime_nanos as nat),
{
    proof {
        reveal_strlit("-");
    }
    let mut out = crate::chars::u128_to_string(mtime_nanos);
    out.append("-");
    out.append(path);
    proof {
        assert(out@ =~= spec_cache_key(path@, mtime_nanos as nat));
    }
    out
}

/// Distinct `(path, mtime)` pairs get distinct cache keys.  A change of
/// the executable's modification time therefore turns the next lookup
/// into a miss and forces a re-probe.
pub proof fn lemma_cache_key_injective(p1: Seq<char>, m1: nat, p2: Seq<char>, m2: nat)
    requires
        spec_cache_key(p1, m1) == spec_cache_key(p2, m2),
    ensures
        m1 == m2,
        p1 == p2,
{
    let d1 = dec_digits(m1);
    let d2 = dec_digits(m2);
    crate::chars::lemma_dec_digits_shape(m1);
    crate::chars::lemma_dec_digits_shape(m2);
    let k1 = spec_cache_key(p1, m1);
    let k2 = spec_cache_key(p2, m2);
    if d1.len() < d2.len() {
        assert(k1[d1.len() as int] == '-');
        assert(k2[d1.len() as int] == d2[d1.len() as int]);
        assert(is_digit(d2[d1.len() as int]));
        assert(false);
    }
    if d2.len() < d1.len() {
        assert(k2[d2.len() as int] == '-');
        assert(k1[d2.len() as int] == d1[d2.len() as int]);
        assert(is_digit(d1[d2.len() as int]));
        assert(false);
    }
    assert(d1 =~= d2) by {
        assert forall|k: int| 0 <= k < d1.len() implies d1[k] == d2[k] by {
            assert(k1[k] == d1[k]);
            assert(k2[k] == d2[k]);
        }
    }
    crate::chars::lemma_dec_digits_injective(m1, m2);
    assert(k1.len() == d1.len() + 1 + p1.len());
    assert(k2.len() == d2.len() + 1 + p2.len());
    assert(p1.len() == p2.len());
    assert(p1 =~= p2) by {
        assert forall|k: int| 0 <= k < p1.len() implies p1[k] == p2[k] by {
            assert(k1[d1.len() + 1 + k] == p1[k]);
            assert(k2[d2.len() + 1 + k] == p2[k]);
        }
    }
}

/// What a read of a cache entry found: nothing readable, an entry that
/// does not deserialize, or a deserialized installation.
#[derive(Debug)]
pub enum CacheReadResult {
    Unreadable,
    Corrupt,
    Parsed(Ruby),
}

/// What the caller must do with the entry: serve the hit; delete the
/// entry and treat the lookup as a miss; or just miss.
#[derive(Debug)]
pub enum CacheDecision {
    Hit(Ruby),
    EvictAndMiss,
    Miss,
}

/// Decides what a stored entry means.  `still_valid` says whether the
/// deserialized installation independently re-validates (its executable
/// still exists and the directory is well-formed).  A corrupt or
/// invalidated entry is evicted before being treated as a miss: the
/// cache never serves known-invalid data.
pub fn classify_cache_read(read: CacheReadResult, still_valid: bool) -> (r: CacheDecision)
    ensures
        match read {
            CacheReadResult::Unreadable => r is Miss,
            CacheReadResult::Corrupt => r is EvictAndMiss,
            CacheReadResult::Parsed(rb) => if still_valid {
                r matches CacheDecision::Hit(h) && h@ == rb@
            } else {
                r is EvictAndMiss
            },
        },
{
    match read {
        CacheReadResult::Unreadable => CacheDecision::Miss,
        CacheReadResult::Corrupt => CacheDecision::EvictAndMiss,
        CacheReadResult::Parsed(rb) => if still_valid {
            CacheDecision::Hit(rb)
        } else {
            CacheDecision::EvictAndMiss
        },
    }
}

} // verus!
