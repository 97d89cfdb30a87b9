//! Path handling for the proxy: the first segment of a request path, and
//! the backend address a configured backend becomes.
use vstd::prelude::*;
use vstd::string::*;

use crate::config::{BackendConfig, IpAddress};
use crate::text::{char_vec, next_slash, slash_free};

verus! {

broadcast use vstd::string::group_string_axioms;

/// Errors of path routing.
#[derive(Debug)]
pub enum Error {
    /// The path has no `'/'`, so it has no first segment.
    PrefixStrippingError(),
}

/// `s[k..e]` is `'/'` followed by the first segment of `s`: `k` is the first
/// `'/'` in `s`, and `e` the next `'/'` after it, or the end of `s`.
pub open spec fn segment_bounds(s: Seq<char>, k: int, e: int) -> bool {
    &&& 0 <= k < e <= s.len()
    &&& s[k] == '/'
    &&& slash_free(s, 0, k)
    &&& slash_free(s, k + 1, e)
    &&& (e == s.len() || s[e] == '/')
}

/// What `strip_index_prefix` gives back: `'/'` followed by the second piece of
/// `s` split at `'/'`, or nothing where `s` has no `'/'`.
pub open spec fn index_prefix(s: Seq<char>) -> Option<Seq<char>> {
    if slash_free(s, 0, s.len() as int) {
        None
    } else {
        let (k, e) = choose|k: int, e: int| segment_bounds(s, k, e);
        Some(s.subrange(k, e))
    }
}

/// There is only one pair of segment bounds.
pub proof fn lemma_segment_bounds_unique(s: Seq<char>, k1: int, e1: int, k2: int, e2: int)
    requires
        segment_bounds(s, k1, e1),
        segment_bounds(s, k2, e2),
    ensures
        k1 == k2,
        e1 == e2,
{
    if k1 < k2 {
        assert(s[k1] == '/');
    } else if k2 < k1 {
        assert(s[k2] == '/');
    }
    if e1 < e2 {
        assert(s[e1] == '/');
    } else if e2 < e1 {
        assert(s[e2] == '/');
    }
}

/// Where a path has a `'/'`, its segment bounds exist.
pub proof fn lemma_segment_bounds_exist(s: Seq<char>, k: int, e: int)
    requires
        segment_bounds(s, k, e),
    ensures
        index_prefix(s) == Some(s.subrange(k, e)),
{
    assert(!slash_free(s, 0, s.len() as int));
    let (k2, e2) = choose|k: int, e: int| segment_bounds(s, k, e);
    lemma_segment_bounds_unique(s, k, e, k2, e2);
}

/// The first segment of a path, with its leading `'/'`.
pub trait PrefixIndexable {
    fn strip_index_prefix(&self) -> Result<String, Error>;
}

impl PrefixIndexable for str {
    /// `"/user/123"` gives `"/user"`; `"abc/def"` gives `"/def"`; a path without
    /// `'/'` gives `PrefixStrippingError`.
    fn strip_index_prefix(&self) -> (r: Result<String, Error>)
        ensures
            index_prefix(self@) is None ==> r is Err,
            index_prefix(self@) matches Some(t) ==> r matches Ok(u) && u@ == t,
    {
        let v = char_vec(self);
        let k = next_slash(&v, 0);
        if k == v.len() {
            return Err(Error::PrefixStrippingError());
        }
        let e = next_slash(&v, k + 1);
        proof {
            lemma_segment_bounds_exist(self@, k as int, e as int);
        }
        let seg = self.substring_char(k, e);
        Ok(seg.to_owned())
    }
}

/// A backend as the load balancer knows it: its socket address and weight.
#[derive(Debug, Clone, Copy, PartialEq, Eq, Structural)]
pub struct Backend {
    pub host: IpAddress,
    pub port: u16,
    pub weight: usize,
}

/// The order of backends in a balancer's set: by address family (IPv4
/// first), address, port and then weight.
pub open spec fn backend_lt(a: Backend, b: Backend) -> bool {
    if a.host.family() != b.host.family() {
        a.host.family() < b.host.family()
    } else if a.host.number() != b.host.number() {
        a.host.number() < b.host.number()
    } else if a.port != b.port {
        a.port < b.port
    } else {
        a.weight < b.weight
    }
}

/// Decides `backend_lt(*a, *b)`.
pub fn backend_less(a: &Backend, b: &Backend) -> (r: bool)
    ensures
        r == backend_lt(*a, *b),
{
    match (a.host, b.host) {
        (IpAddress::V4(_), IpAddress::V6(_)) => true,
        (IpAddress::V6(_), IpAddress::V4(_)) => false,
        (IpAddress::V4(x), IpAddress::V4(y)) => {
            if x != y {
                x < y
            } else if a.port != b.port {
                a.port < b.port
            } else {
                a.weight < b.weight
            }
        },
        (IpAddress::V6(x), IpAddress::V6(y)) => {
            if x != y {
                x < y
            } else if a.port != b.port {
                a.port < b.port
            } else {
                a.weight < b.weight
            }
        },
    }
}

/// Conversion of a configured backend to a load balancer backend.
pub trait ToBackend {
    fn to_backend(&self) -> Backend;
}

impl ToBackend for BackendConfig {
    fn to_backend(&self) -> (b: Backend)
        ensures
            b.host == self.host,
            b.port == self.port,
            b.weight == self.weight,
    {
        Backend { host: self.host, port: self.port, weight: self.weight }
    }
}

/// The first segment of a path starts with `'/'` and holds no other `'/'`.
pub proof fn law_index_prefix_shape(s: Seq<char>)
    ensures
        index_prefix(s) matches Some(t) ==> t.len() >= 1 && t[0] == '/' && slash_free(t, 1, t.len() as int),
{
    if !slash_free(s, 0, s.len() as int) {
        let (k, e) = choose|k: int, e: int| segment_bounds(s, k, e);
        lemma_first_slash(s);
        let t = s.subrange(k, e);
        assert forall|q: int| 1 <= q < t.len() implies #[trigger] t[q] != '/' by {
            assert(t[q] == s[k + q]);
        }
    }
}

/// Where a path has a `'/'`, it has segment bounds.
proof fn lemma_first_slash(s: Seq<char>)
    requires
        !slash_free(s, 0, s.len() as int),
    ensures
        exists|k: int, e: int| segment_bounds(s, k, e),
{
    let k = first_slash_from(s, 0);
    let e = next_slash_or_end(s, k + 1);
    assert(segment_bounds(s, k, e));
}

/// The first `'/'` at or after `i`, where there is one.
proof fn first_slash_from(s: Seq<char>, i: int) -> (k: int)
    requires
        0 <= i <= s.len(),
        slash_free(s, 0, i),
        !slash_free(s, 0, s.len() as int),
    ensures
        i <= k < s.len(),
        s[k] == '/',
        slash_free(s, 0, k),
    decreases s.len() - i,
{
    if i < s.len() && s[i] == '/' {
        i
    } else {
        if i == s.len() {
            assert(slash_free(s, 0, s.len() as int));
        }
        first_slash_from(s, i + 1)
    }
}

/// The first `'/'` at or after `i`, or the end of `s`.
proof fn next_slash_or_end(s: Seq<char>, i: int) -> (e: int)
    requires
        0 <= i <= s.len(),
    ensures
        i <= e <= s.len(),
        slash_free(s, i, e),
        e == s.len() || s[e] == '/',
    decreases s.len() - i,
{
    if i == s.len() || s[i] == '/' {
        i
    } else {
        let e = next_slash_or_end(s, i + 1);
        e
    }
}

/// Taking the first segment twice gives the first segment.
pub proof fn law_index_prefix_idempotent(s: Seq<char>)
    ensures
        index_prefix(s) matches Some(t) ==> index_prefix(t) == Some(t),
{
    law_index_prefix_shape(s);
    if let Some(t) = index_prefix(s) {
        assert(segment_bounds(t, 0, t.len() as int));
        lemma_segment_bounds_exist(t, 0, t.len() as int);
        assert(t.subrange(0, t.len() as int) =~= t);
    }
}

} // verus!
