//! The remote catalog cache: `Cache-Control` parsing, freshness of a
//! cached entry, and the reconciliation of a conditional-request response
//! with the cache.
//!
//! The caller performs the network round-trip and the cache reads and
//! writes; every decision about what the response means lives here.

use vstd::prelude::*;

use crate::asset::{Release, ReleaseView};
use crate::chars::{digits_end, digits_val, is_digit};

verus! {

/// Seconds a fetched catalog is trusted at least, however short a window
/// the server advertises.
pub const MINIMUM_CACHE_TTL: u64 = 60;

/// Seconds assumed when the server sends no usable `max-age`.
pub const DEFAULT_CACHE_TTL: u64 = 60;

/// Whether `max-age=` immediately followed by a digit stands at index `i`.
pub open spec fn max_age_token_at(s: Seq<char>, i: int) -> bool {
    0 <= i && i + 9 <= s.len() && s.subrange(i, i + 8) == seq![
        'm', 'a', 'x', '-', 'a', 'g', 'e', '=',
    ] && is_digit(s[i + 8])
}

/// The first such index at or after `i`, if any.
pub open spec fn max_age_start(s: Seq<char>, i: int) -> Option<int>
    decreases s.len() - i,
{
    if i < 0 || i >= s.len() {
        None
    } else if max_age_token_at(s, i) {
        Some(i)
    } else {
        max_age_start(s, i + 1)
    }
}

/// The value of the first `max-age=<digits>` directive: the maximal digit
/// run after the first token, read as a number; nothing when no token
/// occurs or the number does not fit in a `u64`.
pub open spec fn spec_parse_max_age(s: Seq<char>) -> Option<u64> {
    match max_age_start(s, 0) {
        None => None,
        Some(i) => {
            let j = digits_end(s, i + 8);
            if digits_val(s, i + 8, j) > u64::MAX {
                None
            } else {
                Some(digits_val(s, i + 8, j) as u64)
            }
        },
    }
}

fn max_age_token_check(s: &str, i: usize, n: usize) -> (r: bool)
    requires
        i < n,
        n == s@.len(),
    ensures
        r == max_age_token_at(s@, i as int),
{
    if n - i < 9 {
        return false;
    }
    let r = s.get_char(i) == 'm' && s.get_char(i + 1) == 'a' && s.get_char(i + 2) == 'x'
        && s.get_char(i + 3) == '-' && s.get_char(i + 4) == 'a' && s.get_char(i + 5) == 'g'
        && s.get_char(i + 6) == 'e' && s.get_char(i + 7) == '=' && crate::chars::is_digit_exec(
        s.get_char(i + 8),
    );
    proof {
        let sub = s@.subrange(i as int, i + 8);
        assert(sub[0] == s@[i as int] && sub[1] == s@[i + 1] && sub[2] == s@[i + 2] && sub[3]
            == s@[i + 3] && sub[4] == s@[i + 4] && sub[5] == s@[i + 5] && sub[6] == s@[i + 6]
            && sub[7] == s@[i + 7]);
        if r {
            assert(sub =~= seq!['m', 'a', 'x', '-', 'a', 'g', 'e', '=']);
        }
    }
    r
}

/// Parses the `max-age` value (in seconds) from a `Cache-Control` header.
/// A header without a usable `max-age` yields nothing; the caller applies
/// its own default.
pub fn parse_max_age(header: &str) -> (r: Option<u64>)
    ensures
        r == spec_parse_max_age(header@),
{
    let n = header.unicode_len();
    let mut i: usize = 0;
    while i < n
        invariant
            i <= n,
            n == header@.len(),
            max_age_start(header@, 0) == max_age_start(header@, i as int),
        decreases n - i,
    {
        if max_age_token_check(header, i, n) {
            let j = crate::chars::digits_end_exec(header, i + 8, n);
            return crate::chars::parse_digits_u64(header, i + 8, j);
        }
        i = i + 1;
    }
    None
}

/// Mathematical model of a [`CachedRelease`].
#[verifier::ext_equal]
pub ghost struct CachedReleaseView {
    pub expires_at: u64,
    pub etag: Option<Seq<char>>,
    pub release: ReleaseView,
}

/// The persisted catalog-cache entry: the catalog, the validator to
/// revalidate it with, and the time (seconds since an epoch) it stays
/// fresh until.
#[derive(Debug)]
pub struct CachedRelease {
    pub expires_at: u64,
    pub etag: Option<String>,
    pub release: Release,
}

impl View for CachedRelease {
    type V = CachedReleaseView;

    open spec fn view(&self) -> CachedReleaseView {
        CachedReleaseView {
            expires_at: self.expires_at,
            etag: match self.etag {
                Some(e) => Some(e@),
                None => None,
            },
            release: self.release@,
        }
    }
}

/// Errors of the catalog fetch.  The caller recovers from `HttpStatus` by
/// falling back to a stale cache read or an empty catalog;
/// `ProtocolViolation` signals a `304 Not Modified` with nothing to
/// revalidate.
#[derive(Clone, Copy, Debug, PartialEq, Eq, Structural)]
pub enum FetchError {
    ProtocolViolation,
    HttpStatus(u16),
}

/// A fresh cached catalog is served without any network request.
pub fn cache_is_fresh(cached: &Option<CachedRelease>, now: u64) -> (r: bool)
    ensures
        r == match *cached {
            Some(c) => now < c.expires_at,
            None => false,
        },
{
    match cached {
        Some(c) => now < c.expires_at,
        None => false,
    }
}

pub open spec fn opt_str_view(o: Option<&str>) -> Option<Seq<char>> {
    match o {
        Some(s) => Some(s@),
        None => None,
    }
}

/// The time-to-live a response's `Cache-Control` header grants: the
/// parsed `max-age`, or the default when absent or unusable, floored at
/// the minimum.
pub open spec fn spec_ttl(cache_control: Option<Seq<char>>) -> u64 {
    let advertised = match cache_control {
        None => DEFAULT_CACHE_TTL,
        Some(h) => match spec_parse_max_age(h) {
            None => DEFAULT_CACHE_TTL,
            Some(v) => v,
        },
    };
    if advertised < MINIMUM_CACHE_TTL {
        MINIMUM_CACHE_TTL
    } else {
        advertised
    }
}

/// When a response lets the cache entry expire: `now` plus the granted
/// time-to-live, saturating.
pub open spec fn spec_expiry(now: u64, cache_control: Option<Seq<char>>) -> u64 {
    if now + spec_ttl(cache_control) > u64::MAX {
        u64::MAX
    } else {
        (now + spec_ttl(cache_control)) as u64
    }
}

fn expiry_from_header(now: u64, cache_control: Option<&str>) -> (r: u64)
    ensures
        r == spec_expiry(now, opt_str_view(cache_control)),
{
    let advertised: u64 = match cache_control {
        None => DEFAULT_CACHE_TTL,
        Some(h) => match parse_max_age(h) {
            None => DEFAULT_CACHE_TTL,
            Some(v) => v,
        },
    };
    let ttl: u64 = if advertised < MINIMUM_CACHE_TTL {
        MINIMUM_CACHE_TTL
    } else {
        advertised
    };
    if now > u64::MAX - ttl {
        u64::MAX
    } else {
        now + ttl
    }
}

/// Reconciles a conditional-request response with the cached entry.
///
/// `304 Not Modified` keeps the cached catalog and etag and only extends
/// the expiry — with no prior entry it is a protocol violation.  `200 OK`
/// replaces the entry with the parsed body and the new validator.  Any
/// other status is a fetch error.  The caller persists the returned entry
/// and serves its catalog.
pub fn reconcile_response(
    cached: Option<CachedRelease>,
    status: u16,
    etag: Option<String>,
    cache_control: Option<&str>,
    body: Option<Release>,
    now: u64,
) -> (r: Result<CachedRelease, FetchError>)
    requires
        status == 200 ==> body is Some,
    ensures
        match r {
            Ok(entry) => {
                &&& entry@.expires_at == spec_expiry(now, opt_str_view(cache_control))
                &&& (status == 304 || status == 200)
                &&& (status == 304 ==> (cached matches Some(c) && entry@.etag == c@.etag
                    && entry@.release == c@.release))
                &&& (status == 200 ==> entry@.etag == (match etag {
                    Some(e) => Some(e@),
                    None => None,
                }) && entry@.release == body->Some_0@)
            },
            Err(e) => {
                &&& (status == 304 ==> cached is None && e == FetchError::ProtocolViolation)
                &&& (status != 304 ==> status != 200 && e == FetchError::HttpStatus(status))
            },
        },
{
    if status == 304 {
        match cached {
            None => Err(FetchError::ProtocolViolation),
            Some(c) => {
                let expires_at = expiry_from_header(now, cache_control);
                Ok(CachedRelease { expires_at, etag: c.etag, release: c.release })
            },
        }
    } else if status == 200 {
        let release = match body {
            Some(b) => b,
            None => {
                // A 200 response always carries a parsed body.
                proof {
                    assert(false);
                }
                return Err(FetchError::HttpStatus(status));
            },
        };
        let expires_at = expiry_from_header(now, cache_control);
        Ok(CachedRelease { expires_at, etag, release })
    } else {
        Err(FetchError::HttpStatus(status))
    }
}

/// Every reconciled entry stays fresh for at least the minimum
/// time-to-live, and a revalidation never moves the expiry backwards: a
/// stale entry's expiry only grows.
pub proof fn lemma_expiry_monotonic(entry: CachedReleaseView, now: u64, cc: Option<Seq<char>>)
    requires
        entry.expires_at <= now,
    ensures
        spec_expiry(now, cc) >= entry.expires_at,
        spec_expiry(now, cc) >= if now > u64::MAX - MINIMUM_CACHE_TTL {
            u64::MAX
        } else {
            (now + MINIMUM_CACHE_TTL) as u64
        },
{
}

/// Whether a configured catalog base is the offline sentinel `-`: no
/// network request is made and the empty catalog is served.
pub fn is_offline_base(api_base: &str) -> (r: bool)
    ensures
        r == (api_base@ == ("-")@),
{
    proof {
        crate::chars::lemma_str_cmp_eq(api_base@, ("-")@);
    }
    crate::chars::cmp_str(api_base, "-") == 0
}

/// The catalog served for the offline sentinel: named, with no assets.
pub fn offline_release() -> (r: Release)
    ensures
        r@.name == ("Empty release")@,
        r@.assets.len() == 0,
{
    Release { name: "Empty release".to_owned(), assets: Vec::new() }
}

/// The fixed path of the catalog endpoint under a configurable base.
pub fn release_url(api_base: &str) -> (r: String)
    ensures
        r@ == api_base@ + ("/repos/spinel-coop/rv-ruby/releases/latest")@,
{
    let mut out = String::new();
    out.append(api_base);
    out.append("/repos/spinel-coop/rv-ruby/releases/latest");
    proof {
        assert(out@ =~= api_base@ + ("/repos/spinel-coop/rv-ruby/releases/latest")@);
    }
    out
}

} // verus!
