//! The reverse proxy: its routing table, built from the configuration, and
//! the decisions it takes on each request.
use vstd::prelude::*;

use crate::config::{BackendConfig, Config, ServiceConfig};
use crate::ids::{is_v4_uuid, new_uuid};
use crate::routing::{backend_less, backend_lt, index_prefix, Backend, PrefixIndexable, ToBackend};
use crate::text::{
    is_prefix, lemma_lex_total, lemma_lex_transitive, lex_lt, str_equal, str_less, str_starts_with,
    string_views,
};

verus! {

broadcast use vstd::string::group_string_axioms;

/// The seconds between two health checks of a service's backends.
pub const HEALTH_CHECK_SECS: u64 = 60;

/// A routed service: its name and the position of its load balancer among
/// the balancers that `RevProxy::init_from_config` returns.
#[derive(Debug)]
pub struct ServiceRuntime {
    pub name: String,
    pub lb: usize,
}

impl ServiceRuntime {
    /// A copy of this service.
    pub fn copy(&self) -> (r: Self)
        ensures
            r.name@ == self.name@,
            r.lb == self.lb,
    {
        ServiceRuntime { name: self.name.clone(), lb: self.lb }
    }
}

/// The routes of one host: pairs of a path prefix and the service it leads to.
#[derive(Debug)]
pub struct HostRoutes {
    pub host: String,
    pub routes: Vec<(String, ServiceRuntime)>,
}

/// The load balancer of one service: the set of its backends (in the set's
/// order, without repeats) and how often they are health checked.
#[derive(Debug)]
pub struct BalancerSpec {
    pub name: String,
    pub backends: Vec<Backend>,
    pub health_check_secs: u64,
}

/// The hosts of the configured services, in configuration order.
pub open spec fn service_hosts(services: Seq<ServiceConfig>) -> Seq<Seq<char>> {
    services.map_values(|s: ServiceConfig| s.host@)
}

/// The distinct hosts of `hs`, in the order of their first occurrence.
pub open spec fn host_order(hs: Seq<Seq<char>>) -> Seq<Seq<char>>
    decreases hs.len(),
{
    if hs.len() == 0 {
        Seq::empty()
    } else {
        let prev = host_order(hs.drop_last());
        if prev.contains(hs.last()) {
            prev
        } else {
            prev.push(hs.last())
        }
    }
}

/// A route as a value: its prefix and the position of its service.
pub open spec fn route_key(r: (String, ServiceRuntime)) -> (Seq<char>, int) {
    (r.0@, r.1.lb as int)
}

/// Routes are ordered by prefix and, for equal prefixes, by configuration
/// order (the order a stable sort by prefix leaves them in).
pub open spec fn route_lt(a: (Seq<char>, int), b: (Seq<char>, int)) -> bool {
    lex_lt(a.0, b.0) || (a.0 == b.0 && a.1 < b.1)
}

/// The routes `rs` of host `h` are the services of `services` with that host:
/// each route leads to such a service under its prefix and name, each such
/// service has a route, and the routes are in `route_lt` order.
pub open spec fn routes_of_host(
    services: Seq<ServiceConfig>,
    h: Seq<char>,
    rs: Seq<(String, ServiceRuntime)>,
) -> bool {
    &&& forall|k: int|
        0 <= k < rs.len() ==> {
            let i = (#[trigger] rs[k]).1.lb as int;
            &&& 0 <= i < services.len()
            &&& services[i].host@ == h
            &&& rs[k].0@ == services[i].prefix@
            &&& rs[k].1.name@ == services[i].name@
        }
    &&& forall|i: int|
        0 <= i < services.len() && (#[trigger] services[i]).host@ == h ==> exists|k: int|
            0 <= k < rs.len() && (#[trigger] rs[k]).1.lb == i
    &&& forall|a: int, b: int|
        0 <= a < b < rs.len() ==> route_lt(route_key(#[trigger] rs[a]), route_key(#[trigger] rs[b]))
}

/// The balancer backends `bs` are the set of backends that `backends`
/// convert to, without repeats and in `backend_lt` order.
pub open spec fn backend_set(backends: Seq<BackendConfig>, bs: Seq<Backend>) -> bool {
    &&& forall|x: Backend|
        #[trigger] bs.contains(x) ==> exists|m: int|
            0 <= m < backends.len() && x == backend_of(#[trigger] backends[m])
    &&& forall|m: int| 0 <= m < backends.len() ==> bs.contains(backend_of(#[trigger] backends[m]))
    &&& backends_sorted(bs)
}

/// The backends are in strictly increasing `backend_lt` order.
pub open spec fn backends_sorted(bs: Seq<Backend>) -> bool {
    forall|a: int, b: int| 0 <= a < b < bs.len() ==> backend_lt(#[trigger] bs[a], #[trigger] bs[b])
}

/// The balancer backend a configured backend becomes.
pub open spec fn backend_of(b: BackendConfig) -> Backend {
    Backend { host: b.host, port: b.port, weight: b.weight }
}

/// The position of `h` in `hosts`, if any.
fn find_host(hosts: &Vec<String>, h: &str) -> (r: Option<usize>)
    ensures
        r is None <==> !string_views(hosts@).contains(h@),
        r matches Some(j) ==> j < hosts.len() && hosts@[j as int]@ == h@,
{
    let mut j: usize = 0;
    while j < hosts.len()
        invariant
            j <= hosts.len(),
            forall|k: int| 0 <= k < j ==> (#[trigger] hosts@[k])@ != h@,
        decreases hosts.len() - j,
    {
        if str_equal(hosts[j].as_str(), h) {
            assert(string_views(hosts@)[j as int] == h@);
            return Some(j);
        }
        j = j + 1;
    }
    proof {
        if string_views(hosts@).contains(h@) {
            let k = choose|k: int|
                0 <= k < hosts@.len() && #[trigger] string_views(hosts@)[k] == h@;
            assert(hosts@[k]@ != h@);
        }
    }
    None
}

/// The distinct hosts of the services, in order of first occurrence.
fn distinct_hosts(services: &Vec<ServiceConfig>) -> (hosts: Vec<String>)
    ensures
        string_views(hosts@) == host_order(service_hosts(services@)),
{
    let mut hosts: Vec<String> = Vec::new();
    let ghost hs = service_hosts(services@);
    for i in 0..services.len()
        invariant
            hs == service_hosts(services@),
            string_views(hosts@) == host_order(hs.take(i as int)),
    {
        let h = &services[i].host;
        let found = find_host(&hosts, h.as_str());
        assert(hs.take(i + 1).drop_last() =~= hs.take(i as int));
        assert(hs.take(i + 1).last() == h@);
        if found.is_none() {
            hosts.push(h.clone());
            assert(string_views(hosts@) =~= host_order(hs.take(i as int)).push(h@));
        }
    }
    assert(hs.take(services.len() as int) =~= hs);
    hosts
}

/// Route keys that are ordered have ordered or equal prefixes.
proof fn lemma_route_lt_prefix(a: (Seq<char>, int), b: (Seq<char>, int))
    requires
        route_lt(a, b),
    ensures
        lex_lt(a.0, b.0) || a.0 == b.0,
{
}

/// The route order is transitive.
proof fn lemma_route_lt_transitive(a: (Seq<char>, int), b: (Seq<char>, int), c: (Seq<char>, int))
    requires
        route_lt(a, b),
        route_lt(b, c),
    ensures
        route_lt(a, c),
{
    if lex_lt(a.0, b.0) && lex_lt(b.0, c.0) {
        lemma_lex_transitive(a.0, b.0, c.0);
    }
}

/// Inserts a route for service `i` after all routes whose prefix does not
/// exceed its own, keeping the routes in `route_lt` order.
fn insert_route(routes: &mut Vec<(String, ServiceRuntime)>, prefix: String, rt: ServiceRuntime)
    requires
        forall|k: int| 0 <= k < old(routes).len() ==> (#[trigger] old(routes)[k]).1.lb < rt.lb,
        forall|a: int, b: int|
            0 <= a < b < old(routes).len() ==> route_lt(
                route_key(#[trigger] old(routes)[a]),
                route_key(#[trigger] old(routes)[b]),
            ),
    ensures
        exists|p: int|
            0 <= p <= old(routes).len() && final(routes)@ == old(routes)@.insert(p, (prefix, rt)),
        forall|a: int, b: int|
            0 <= a < b < final(routes).len() ==> route_lt(
                route_key(#[trigger] final(routes)[a]),
                route_key(#[trigger] final(routes)[b]),
            ),
{
    let mut p: usize = 0;
    while p < routes.len() && !str_less(prefix.as_str(), routes[p].0.as_str())
        invariant
            p <= routes.len(),
            forall|k: int| 0 <= k < p ==> !lex_lt(prefix@, (#[trigger] routes@[k]).0@),
        decreases routes.len() - p,
    {
        p = p + 1;
    }
    let ghost old_rs = routes@;
    let ghost new_key = (prefix@, rt.lb as int);
    proof {
        assert forall|k: int| 0 <= k < p implies route_lt(route_key(#[trigger] old_rs[k]), new_key) by {
            lemma_lex_total(prefix@, old_rs[k].0@);
        }
        assert forall|k: int| p <= k < old_rs.len() implies route_lt(
            new_key,
            route_key(#[trigger] old_rs[k]),
        ) by {
            if k > p {
                lemma_route_lt_prefix(route_key(old_rs[p as int]), route_key(old_rs[k]));
                if lex_lt(old_rs[p as int].0@, old_rs[k].0@) {
                    lemma_lex_transitive(prefix@, old_rs[p as int].0@, old_rs[k].0@);
                }
            }
        }
    }
    routes.insert(p, (prefix, rt));
    proof {
        let rs = routes@;
        assert(rs == old_rs.insert(p as int, rs[p as int]));
        assert forall|a: int, b: int| 0 <= a < b < rs.len() implies route_lt(
            route_key(#[trigger] rs[a]),
            route_key(#[trigger] rs[b]),
        ) by {
            if a < p && b < p {
                assert(rs[a] == old_rs[a] && rs[b] == old_rs[b]);
            } else if a < p && b == p {
            } else if a < p && b > p {
                assert(rs[a] == old_rs[a] && rs[b] == old_rs[b - 1]);
                lemma_route_lt_transitive(route_key(old_rs[a]), new_key, route_key(old_rs[b - 1]));
            } else if a == p {
                assert(rs[b] == old_rs[b - 1]);
            } else {
                assert(rs[a] == old_rs[a - 1] && rs[b] == old_rs[b - 1]);
            }
        }
    }
}

/// The routes of host `h`: every service with that host, under its prefix,
/// in `route_lt` order.
fn routes_for_host(services: &Vec<ServiceConfig>, h: &str) -> (rs: Vec<(String, ServiceRuntime)>)
    ensures
        routes_of_host(services@, h@, rs@),
{
    let mut rs: Vec<(String, ServiceRuntime)> = Vec::new();
    for i in 0..services.len()
        invariant
            forall|k: int|
                0 <= k < rs.len() ==> {
                    let j = (#[trigger] rs@[k]).1.lb as int;
                    &&& 0 <= j < i
                    &&& services@[j].host@ == h@
                    &&& rs@[k].0@ == services@[j].prefix@
                    &&& rs@[k].1.name@ == services@[j].name@
                },
            forall|j: int|
                0 <= j < i && (#[trigger] services@[j]).host@ == h@ ==> exists|k: int|
                    0 <= k < rs.len() && (#[trigger] rs@[k]).1.lb == j,
            forall|a: int, b: int|
                0 <= a < b < rs.len() ==> route_lt(
                    route_key(#[trigger] rs@[a]),
                    route_key(#[trigger] rs@[b]),
                ),
    {
        let s = &services[i];
        if str_equal(s.host.as_str(), h) {
            let ghost old_rs = rs@;
            let rt = ServiceRuntime { name: s.name.clone(), lb: i };
            let prefix = s.prefix.clone();
            let ghost entry = (prefix, rt);
            insert_route(&mut rs, prefix, rt);
            proof {
                let p = choose|p: int|
                    0 <= p <= old_rs.len() && rs@ == old_rs.insert(p, entry);
                assert forall|k: int| 0 <= k < rs.len() implies {
                    let j = (#[trigger] rs@[k]).1.lb as int;
                    &&& 0 <= j < i + 1
                    &&& services@[j].host@ == h@
                    &&& rs@[k].0@ == services@[j].prefix@
                    &&& rs@[k].1.name@ == services@[j].name@
                } by {
                    if k < p {
                        assert(rs@[k] == old_rs[k]);
                    } else if k > p {
                        assert(rs@[k] == old_rs[k - 1]);
                    }
                }
                assert forall|j: int|
                    0 <= j < i + 1 && (#[trigger] services@[j]).host@ == h@ implies exists|k: int|
                        0 <= k < rs.len() && (#[trigger] rs@[k]).1.lb == j by {
                    if j == i {
                        assert(rs@[p].1.lb == j);
                    } else {
                        let k = choose|k: int| 0 <= k < old_rs.len() && (#[trigger] old_rs[k]).1.lb == j;
                        if k < p {
                            assert(rs@[k] == old_rs[k]);
                        } else {
                            assert(rs@[k + 1] == old_rs[k]);
                        }
                    }
                }
            }
        }
    }
    rs
}

/// The order of backends is transitive.
proof fn lemma_backend_lt_transitive(a: Backend, b: Backend, c: Backend)
    requires
        backend_lt(a, b),
        backend_lt(b, c),
    ensures
        backend_lt(a, c),
{
}

/// Two different backends are ordered one way or the other.
proof fn lemma_backend_lt_total(a: Backend, b: Backend)
    ensures
        a == b || backend_lt(a, b) || backend_lt(b, a),
{
    if a.host.family() == b.host.family() && a.host.number() == b.host.number() {
        assert(a.host == b.host);
    }
}

/// Adds `b` to a sorted set of backends, unless it is there already.
fn insert_backend(bs: &mut Vec<Backend>, b: Backend)
    requires
        backends_sorted(old(bs)@),
    ensures
        backends_sorted(final(bs)@),
        forall|x: Backend| #[trigger] final(bs)@.contains(x) <==> (old(bs)@.contains(x) || x == b),
{
    let mut p: usize = 0;
    while p < bs.len() && backend_less(&bs[p], &b)
        invariant
            p <= bs.len(),
            forall|k: int| 0 <= k < p ==> backend_lt(#[trigger] bs@[k], b),
        decreases bs.len() - p,
    {
        p = p + 1;
    }
    if p < bs.len() && bs[p] == b {
        assert(bs@[p as int] == b);
        return;
    }
    let ghost old_bs = bs@;
    proof {
        if p < old_bs.len() {
            lemma_backend_lt_total(old_bs[p as int], b);
        }
        assert forall|k: int| p <= k < old_bs.len() implies backend_lt(b, #[trigger] old_bs[k]) by {
            lemma_backend_lt_total(old_bs[p as int], b);
            if k > p {
                lemma_backend_lt_transitive(b, old_bs[p as int], old_bs[k]);
            }
        }
    }
    bs.insert(p, b);
    proof {
        assert forall|a: int, c: int| 0 <= a < c < bs.len() implies backend_lt(
            #[trigger] bs@[a],
            #[trigger] bs@[c],
        ) by {
            if a < p && c > p {
                assert(bs@[a] == old_bs[a] && bs@[c] == old_bs[c - 1]);
                lemma_backend_lt_transitive(old_bs[a], b, old_bs[c - 1]);
            } else if a < p && c < p {
                assert(bs@[a] == old_bs[a] && bs@[c] == old_bs[c]);
            } else if a == p {
                assert(bs@[c] == old_bs[c - 1]);
            } else if a > p {
                assert(bs@[a] == old_bs[a - 1] && bs@[c] == old_bs[c - 1]);
            } else {
                assert(bs@[a] == old_bs[a]);
            }
        }
        assert forall|x: Backend| #[trigger] bs@.contains(x) <==> (old_bs.contains(x) || x == b) by {
            if bs@.contains(x) {
                let k = choose|k: int| 0 <= k < bs@.len() && bs@[k] == x;
                if k < p {
                    assert(old_bs[k] == x);
                } else if k > p {
                    assert(old_bs[k - 1] == x);
                }
            }
            if old_bs.contains(x) {
                let k = choose|k: int| 0 <= k < old_bs.len() && old_bs[k] == x;
                if k < p {
                    assert(bs@[k] == x);
                } else {
                    assert(bs@[k + 1] == x);
                }
            }
            if x == b {
                assert(bs@[p as int] == x);
            }
        }
    }
}

/// The backends of one service as the set its load balancer holds.
fn balancer_backends(backends: &Vec<BackendConfig>) -> (bs: Vec<Backend>)
    ensures
        backend_set(backends@, bs@),
{
    let mut bs: Vec<Backend> = Vec::new();
    for m in 0..backends.len()
        invariant
            forall|x: Backend|
                #[trigger] bs@.contains(x) ==> exists|m2: int|
                    0 <= m2 < m && x == backend_of(#[trigger] backends@[m2]),
            forall|m2: int| 0 <= m2 < m ==> bs@.contains(backend_of(#[trigger] backends@[m2])),
            backends_sorted(bs@),
    {
        let b = backends[m].to_backend();
        assert(b == backend_of(backends@[m as int]));
        insert_backend(&mut bs, b);
    }
    bs
}

/// The routing table: for each host, its routes.
#[derive(Debug)]
pub struct RoutingTable {
    pub hosts: Vec<HostRoutes>,
}

/// The routing table `hosts` answers exactly the services of `services`: one
/// entry per distinct host, in order of first occurrence, holding the routes of
/// that host.
pub open spec fn table_of(services: Seq<ServiceConfig>, hosts: Seq<HostRoutes>) -> bool {
    &&& hosts.len() == host_order(service_hosts(services)).len()
    &&& forall|j: int|
        0 <= j < hosts.len() ==> {
            &&& (#[trigger] hosts[j]).host@ == host_order(service_hosts(services))[j]
            &&& routes_of_host(services, hosts[j].host@, hosts[j].routes@)
        }
}

/// The position of the first entry of `hosts` at or after `j` for host `h`.
pub open spec fn host_position(hosts: Seq<HostRoutes>, h: Seq<char>, j: int) -> Option<int>
    decreases hosts.len() - j,
{
    if j < 0 || j >= hosts.len() {
        None
    } else if hosts[j].host@ == h {
        Some(j)
    } else {
        host_position(hosts, h, j + 1)
    }
}

/// The position of the first route of `rs` at or after `k` whose prefix is a
/// prefix of `path`.
pub open spec fn first_route(rs: Seq<(String, ServiceRuntime)>, path: Seq<char>, k: int) -> Option<
    int,
>
    decreases rs.len() - k,
{
    if k < 0 || k >= rs.len() {
        None
    } else if is_prefix(rs[k].0@, path) {
        Some(k)
    } else {
        first_route(rs, path, k + 1)
    }
}

/// What `host_position` finds: the first entry for the host.
pub proof fn lemma_host_position(hosts: Seq<HostRoutes>, h: Seq<char>, j: int)
    requires
        0 <= j,
    ensures
        host_position(hosts, h, j) matches Some(p) ==> j <= p < hosts.len() && hosts[p].host@ == h
            && forall|q: int| j <= q < p ==> (#[trigger] hosts[q]).host@ != h,
        host_position(hosts, h, j) is None ==> forall|q: int|
            j <= q < hosts.len() ==> (#[trigger] hosts[q]).host@ != h,
    decreases hosts.len() - j,
{
    if j < hosts.len() && hosts[j].host@ != h {
        lemma_host_position(hosts, h, j + 1);
    }
}

/// What `first_route` finds: the first route whose prefix starts `path`.
pub proof fn lemma_first_route(rs: Seq<(String, ServiceRuntime)>, path: Seq<char>, k: int)
    requires
        0 <= k,
    ensures
        first_route(rs, path, k) matches Some(p) ==> k <= p < rs.len() && is_prefix(rs[p].0@, path)
            && forall|q: int| k <= q < p ==> !is_prefix((#[trigger] rs[q]).0@, path),
        first_route(rs, path, k) is None ==> forall|q: int|
            k <= q < rs.len() ==> !is_prefix((#[trigger] rs[q]).0@, path),
    decreases rs.len() - k,
{
    if k < rs.len() && !is_prefix(rs[k].0@, path) {
        lemma_first_route(rs, path, k + 1);
    }
}

impl RoutingTable {
    /// The number of hosts.
    pub fn len(&self) -> (n: usize)
        ensures
            n == self.hosts@.len(),
    {
        self.hosts.len()
    }

    /// Whether the table has no host.
    pub fn is_empty(&self) -> (b: bool)
        ensures
            b == (self.hosts@.len() == 0),
    {
        self.hosts.len() == 0
    }

    /// The position of the entry for `host`.
    pub fn position(&self, host: &str) -> (r: Option<usize>)
        ensures
            r matches Some(j) ==> host_position(self.hosts@, host@, 0) == Some(j as int) && j
                < self.hosts@.len(),
            r is None ==> host_position(self.hosts@, host@, 0) is None,
    {
        let mut j: usize = 0;
        while j < self.hosts.len()
            invariant
                j <= self.hosts.len(),
                host_position(self.hosts@, host@, 0) == host_position(self.hosts@, host@, j as int),
            decreases self.hosts.len() - j,
        {
            if str_equal(self.hosts[j].host.as_str(), host) {
                proof {
                    lemma_host_position(self.hosts@, host@, 0);
                }
                return Some(j);
            }
            j = j + 1;
        }
        None
    }

    /// Whether there are routes for `host`.
    pub fn contains_key(&self, host: &str) -> (b: bool)
        ensures
            b == (host_position(self.hosts@, host@, 0) is Some),
    {
        self.position(host).is_some()
    }

    /// The routes of `host`.
    pub fn get(&self, host: &str) -> (r: Option<&Vec<(String, ServiceRuntime)>>)
        ensures
            host_position(self.hosts@, host@, 0) is None ==> r is None,
            r matches Some(rs) ==> exists|j: int|
                0 <= j < self.hosts@.len() && host_position(self.hosts@, host@, 0) == Some(j)
                    && rs == &self.hosts@[j].routes,
            host_position(self.hosts@, host@, 0) matches Some(j) ==> r == Some(
                &self.hosts@[j].routes,
            ),
    {
        match self.position(host) {
            Some(j) => Some(&self.hosts[j].routes),
            None => None,
        }
    }
}

/// The position of the first route whose prefix is a prefix of `path`.
pub fn find_route(routes: &Vec<(String, ServiceRuntime)>, path: &str) -> (r: Option<usize>)
    ensures
        r matches Some(k) ==> first_route(routes@, path@, 0) == Some(k as int) && k
            < routes@.len(),
        r is None ==> first_route(routes@, path@, 0) is None,
{
    let mut k: usize = 0;
    while k < routes.len()
        invariant
            k <= routes.len(),
            first_route(routes@, path@, 0) == first_route(routes@, path@, k as int),
        decreases routes.len() - k,
    {
        if str_starts_with(path, routes[k].0.as_str()) {
            return Some(k);
        }
        k = k + 1;
    }
    None
}

/// The reverse proxy.
#[derive(Debug)]
pub struct RevProxy {
    pub services: RoutingTable,
}

/// Why a request is answered with 404 instead of being forwarded.
#[derive(Debug, Clone, Copy, PartialEq, Eq, Structural)]
pub enum RejectReason {
    /// The path has no first segment.
    PrefixStripping,
    /// No service is configured for the request's host.
    UnknownHost,
    /// No route of the host matches the path's first segment.
    UnknownPrefix,
}

impl RejectReason {
    /// The HTTP status of the answer.
    pub fn status(&self) -> (s: u16)
        ensures
            s == 404,
    {
        404
    }

    /// The body of the answer.
    pub fn body(&self) -> (b: &'static str)
        ensures
            *self == RejectReason::PrefixStripping ==> b@
                == "error during prefix routing: Error during the stripping of the prefix"@,
            *self == RejectReason::UnknownHost ==> b@ == "error during host routing"@,
            *self == RejectReason::UnknownPrefix ==> b@ == "error during prefix routing"@,
    {
        match self {
            RejectReason::PrefixStripping => "error during prefix routing: Error during the stripping of the prefix",
            RejectReason::UnknownHost => "error during host routing",
            RejectReason::UnknownPrefix => "error during prefix routing",
        }
    }
}

/// What the proxy does with a request before choosing a backend.
#[derive(Debug)]
pub enum FilterDecision {
    /// The client's application went over its request rate: answer 429 with
    /// `X-Rate-Limit-Limit: limit`, `X-Rate-Limit-Remaining: 0` and
    /// `X-Rate-Limit-Reset: 1`, and close the connection after it.
    RateLimited { limit: i64 },
    /// Answer 404 with the reason's body.
    Reject(RejectReason),
    /// Forward the request to this service.
    Forward(ServiceRuntime),
}

/// The status of a rate-limited answer.
pub const RATE_LIMITED_STATUS: u16 = 429;

impl RevProxy {
    /// Builds the routing table and the load balancers of `config`: one table
    /// entry per distinct host, holding that host's (prefix, service) routes
    /// sorted by prefix (stably), and one balancer per service, in
    /// configuration order, over the set of that service's backends and health
    /// checked every minute.
    pub fn init_from_config(config: &Config) -> (r: (RevProxy, Vec<BalancerSpec>))
        ensures
            table_of(config.services@, r.0.services.hosts@),
            r.1.len() == config.services.len(),
            forall|i: int|
                0 <= i < r.1.len() ==> {
                    &&& (#[trigger] r.1[i]).name@ == config.services@[i].name@
                    &&& backend_set(config.services@[i].backends@, r.1[i].backends@)
                    &&& r.1[i].health_check_secs == HEALTH_CHECK_SECS
                },
    {
        let services = &config.services;
        let hosts = distinct_hosts(services);
        let mut table: Vec<HostRoutes> = Vec::new();
        for j in 0..hosts.len()
            invariant
                string_views(hosts@) == host_order(service_hosts(services@)),
                table.len() == j,
                forall|j2: int|
                    0 <= j2 < j ==> {
                        &&& (#[trigger] table@[j2]).host@ == host_order(service_hosts(services@))[j2]
                        &&& routes_of_host(services@, table@[j2].host@, table@[j2].routes@)
                    },
        {
            assert(string_views(hosts@)[j as int] == hosts@[j as int]@);
            let routes = routes_for_host(services, hosts[j].as_str());
            table.push(HostRoutes { host: hosts[j].clone(), routes });
        }
        let mut balancers: Vec<BalancerSpec> = Vec::new();
        for i in 0..services.len()
            invariant
                balancers.len() == i,
                forall|i2: int|
                    0 <= i2 < i ==> {
                        &&& (#[trigger] balancers@[i2]).name@ == services@[i2].name@
                        &&& backend_set(services@[i2].backends@, balancers@[i2].backends@)
                        &&& balancers@[i2].health_check_secs == HEALTH_CHECK_SECS
                    },
        {
            let backends = balancer_backends(&services[i].backends);
            balancers.push(
                BalancerSpec {
                    name: services[i].name.clone(),
                    backends,
                    health_check_secs: HEALTH_CHECK_SECS,
                },
            );
        }
        (RevProxy { services: RoutingTable { hosts: table } }, balancers)
    }

    /// Decides what happens to a request for `host` and `path`. `rate_count`
    /// is the number of requests of the client's application in the current
    /// window, where the request names one, and `max_per_sec` the most that
    /// the proxy lets through per window.
    ///
    /// In order: a count over the limit is rate limited; a path without a
    /// first segment, an unknown host, or a first segment that no route prefix
    /// begins is rejected; otherwise the request goes to the service of the
    /// host's first route (in prefix order) whose prefix the segment starts
    /// with.
    pub fn request_filter(
        &self,
        rate_count: Option<i64>,
        max_per_sec: i64,
        host: &str,
        path: &str,
    ) -> (d: FilterDecision)
        ensures
            (rate_count matches Some(c) && c > max_per_sec) ==> d == (FilterDecision::RateLimited {
                limit: max_per_sec,
            }),
            !(rate_count matches Some(c) && c > max_per_sec) ==> match index_prefix(path@) {
                None => d == FilterDecision::Reject(RejectReason::PrefixStripping),
                Some(seg) => match host_position(self.services.hosts@, host@, 0) {
                    None => d == FilterDecision::Reject(RejectReason::UnknownHost),
                    Some(j) => {
                        let rs = self.services.hosts@[j].routes@;
                        &&& 0 <= j < self.services.hosts@.len()
                        &&& match first_route(rs, seg, 0) {
                            None => d == FilterDecision::Reject(RejectReason::UnknownPrefix),
                            Some(k) => d matches FilterDecision::Forward(rt) && rt.name@
                                == rs[k].1.name@ && rt.lb == rs[k].1.lb,
                        }
                    },
                },
            },
    {
        if let Some(c) = rate_count {
            if c > max_per_sec {
                return FilterDecision::RateLimited { limit: max_per_sec };
            }
        }
        let seg = match path.strip_index_prefix() {
            Ok(seg) => seg,
            Err(_) => {
                return FilterDecision::Reject(RejectReason::PrefixStripping);
            },
        };
        match self.services.get(host) {
            None => FilterDecision::Reject(RejectReason::UnknownHost),
            Some(routes) => match find_route(routes, seg.as_str()) {
                None => FilterDecision::Reject(RejectReason::UnknownPrefix),
                Some(k) => FilterDecision::Forward(routes[k].1.copy()),
            },
        }
    }
}

/// The state the proxy keeps for one request.
#[derive(Debug)]
pub struct RequestContext {
    /// The service the request is routed to, once decided.
    pub service: Option<ServiceRuntime>,
    /// The request's identifier, for the logs.
    pub request_id: Option<u128>,
    /// The address of the backend the request went to, once chosen.
    pub backend_addr: Option<String>,
}

/// Why no upstream peer could be chosen.
#[derive(Debug, Clone, Copy, PartialEq, Eq, Structural)]
pub enum UpstreamError {
    /// The service's load balancer had no healthy backend.
    NoHealthyBackend,
}

impl UpstreamError {
    /// The message of the error.
    pub fn message(&self) -> (m: &'static str)
        ensures
            m@ == "no healthy backend"@,
    {
        "no healthy backend"
    }
}

impl RevProxy {
    /// A fresh request context: no service, no backend, a new random
    /// (version 4) request identifier.
    pub fn new_ctx(&self) -> (c: RequestContext)
        ensures
            c.service is None,
            c.backend_addr is None,
            c.request_id matches Some(id) && is_v4_uuid(id),
    {
        RequestContext { service: None, request_id: Some(new_uuid()), backend_addr: None }
    }
}

impl RequestContext {
    /// Records the backend that the service's load balancer selected, given as
    /// its address; where it selected none, the request fails with
    /// `NoHealthyBackend` and the context is left as it was.
    pub fn record_upstream(&mut self, selected: Option<String>) -> (r: Result<(), UpstreamError>)
        ensures
            selected is None ==> r == Err::<(), UpstreamError>(UpstreamError::NoHealthyBackend)
                && *final(self) == *old(self),
            selected matches Some(a) ==> r is Ok && final(self).backend_addr == Some(a)
                && final(self).service == old(self).service && final(self).request_id == old(
                self,
            ).request_id,
    {
        match selected {
            None => Err(UpstreamError::NoHealthyBackend),
            Some(a) => {
                self.backend_addr = Some(a);
                Ok(())
            },
        }
    }
}

/// The hosts of `host_order(hs)` are distinct, each host of `hs` is among
/// them, and each of them is a host of `hs`.
pub proof fn lemma_host_order(hs: Seq<Seq<char>>)
    ensures
        forall|a: int, b: int|
            0 <= a < b < host_order(hs).len() ==> #[trigger] host_order(hs)[a] != #[trigger] host_order(
                hs,
            )[b],
        forall|i: int| 0 <= i < hs.len() ==> host_order(hs).contains(#[trigger] hs[i]),
        forall|j: int| 0 <= j < host_order(hs).len() ==> hs.contains(#[trigger] host_order(hs)[j]),
    decreases hs.len(),
{
    if hs.len() > 0 {
        let prev_hs = hs.drop_last();
        lemma_host_order(prev_hs);
        let prev = host_order(prev_hs);
        let ho = host_order(hs);
        assert forall|i: int| 0 <= i < hs.len() implies ho.contains(#[trigger] hs[i]) by {
            if i < hs.len() - 1 {
                assert(prev_hs[i] == hs[i]);
                let q = choose|q: int| 0 <= q < prev.len() && prev[q] == prev_hs[i];
                assert(ho[q] == hs[i]);
            } else if prev.contains(hs.last()) {
            } else {
                assert(ho[prev.len() as int] == hs[i]);
            }
        }
        assert forall|j: int| 0 <= j < ho.len() implies hs.contains(#[trigger] ho[j]) by {
            if j < prev.len() {
                assert(ho[j] == prev[j]);
                let q = choose|q: int| 0 <= q < prev_hs.len() && prev_hs[q] == prev[j];
                assert(hs[q] == ho[j]);
            } else {
                assert(hs[hs.len() - 1] == ho[j]);
            }
        }
        assert forall|a: int, b: int| 0 <= a < b < ho.len() implies #[trigger] ho[a] != #[trigger] ho[b] by {
            if b < prev.len() {
                assert(ho[a] == prev[a] && ho[b] == prev[b]);
            } else {
                assert(ho[a] == prev[a]);
            }
        }
    }
}

/// One routing entry per distinct host: the table built for `services` holds
/// each configured host exactly once, and no other host.
pub proof fn law_one_entry_per_host(services: Seq<ServiceConfig>, hosts: Seq<HostRoutes>)
    requires
        table_of(services, hosts),
    ensures
        forall|a: int, b: int|
            0 <= a < b < hosts.len() ==> (#[trigger] hosts[a]).host@ != (#[trigger] hosts[b]).host@,
        forall|i: int|
            0 <= i < services.len() ==> exists|j: int|
                0 <= j < hosts.len() && (#[trigger] hosts[j]).host@ == (#[trigger] services[i]).host@,
        forall|j: int|
            0 <= j < hosts.len() ==> exists|i: int|
                0 <= i < services.len() && (#[trigger] hosts[j]).host@ == (#[trigger] services[i]).host@,
{
    let hs = service_hosts(services);
    lemma_host_order(hs);
    let ho = host_order(hs);
    assert forall|a: int, b: int| 0 <= a < b < hosts.len() implies (#[trigger] hosts[a]).host@ != (
    #[trigger] hosts[b]).host@ by {
        assert(ho[a] != ho[b]);
    }
    assert forall|i: int| 0 <= i < services.len() implies exists|j: int|
        0 <= j < hosts.len() && (#[trigger] hosts[j]).host@ == (#[trigger] services[i]).host@ by {
        assert(hs[i] == services[i].host@);
        assert(ho.contains(hs[i]));
        let j = choose|j: int| 0 <= j < ho.len() && ho[j] == hs[i];
        assert(hosts[j].host@ == ho[j]);
    }
    assert forall|j: int| 0 <= j < hosts.len() implies exists|i: int|
        0 <= i < services.len() && (#[trigger] hosts[j]).host@ == (#[trigger] services[i]).host@ by {
        assert(hs.contains(ho[j]));
        let i = choose|i: int| 0 <= i < hs.len() && hs[i] == ho[j];
        assert(hs[i] == services[i].host@);
    }
}

/// Routing by the table built for `services` answers the configuration: for
/// host `h` and first path segment `seg`, the table finds no entry exactly when
/// no service has host `h`; it finds no route exactly when no service of host
/// `h` has a prefix that `seg` starts with; and the route it finds leads to a
/// service of host `h` whose prefix `seg` starts with, the first such service
/// by prefix order and then configuration order.
pub proof fn law_routing_answers_config(
    services: Seq<ServiceConfig>,
    hosts: Seq<HostRoutes>,
    h: Seq<char>,
    seg: Seq<char>,
)
    requires
        table_of(services, hosts),
    ensures
        match host_position(hosts, h, 0) {
            None => forall|i: int| 0 <= i < services.len() ==> (#[trigger] services[i]).host@ != h,
            Some(j) => {
                let rs = hosts[j].routes@;
                match first_route(rs, seg, 0) {
                    None => forall|i: int|
                        0 <= i < services.len() && (#[trigger] services[i]).host@ == h
                            ==> !is_prefix(services[i].prefix@, seg),
                    Some(k) => {
                        let i = rs[k].1.lb as int;
                        &&& 0 <= i < services.len()
                        &&& services[i].host@ == h
                        &&& is_prefix(services[i].prefix@, seg)
                        &&& rs[k].1.name@ == services[i].name@
                        &&& forall|i2: int|
                            0 <= i2 < services.len() && (#[trigger] services[i2]).host@ == h
                                && is_prefix(services[i2].prefix@, seg) && i2 != i ==> route_lt(
                                (services[i].prefix@, i),
                                (services[i2].prefix@, i2),
                            )
                    },
                }
            },
        },
{
    lemma_host_position(hosts, h, 0);
    match host_position(hosts, h, 0) {
        None => lemma_unknown_host(services, hosts, h),
        Some(j) => {
            let rs = hosts[j].routes@;
            assert(routes_of_host(services, hosts[j].host@, rs));
            lemma_first_route(rs, seg, 0);
            match first_route(rs, seg, 0) {
                None => lemma_no_route(services, h, rs, seg),
                Some(k) => lemma_found_route(services, h, rs, seg, k),
            }
        },
    }
}

/// A host without table entry is the host of no service.
proof fn lemma_unknown_host(services: Seq<ServiceConfig>, hosts: Seq<HostRoutes>, h: Seq<char>)
    requires
        table_of(services, hosts),
        forall|q: int| 0 <= q < hosts.len() ==> (#[trigger] hosts[q]).host@ != h,
    ensures
        forall|i: int| 0 <= i < services.len() ==> (#[trigger] services[i]).host@ != h,
{
    law_one_entry_per_host(services, hosts);
    assert forall|i: int| 0 <= i < services.len() implies (#[trigger] services[i]).host@ != h by {
        if services[i].host@ == h {
            let j = choose|j: int|
                0 <= j < hosts.len() && (#[trigger] hosts[j]).host@ == services[i].host@;
            assert(hosts[j].host@ != h);
        }
    }
}

/// Where no route of a host matches, no service of that host matches.
proof fn lemma_no_route(
    services: Seq<ServiceConfig>,
    h: Seq<char>,
    rs: Seq<(String, ServiceRuntime)>,
    seg: Seq<char>,
)
    requires
        routes_of_host(services, h, rs),
        forall|q: int| 0 <= q < rs.len() ==> !is_prefix((#[trigger] rs[q]).0@, seg),
    ensures
        forall|i: int|
            0 <= i < services.len() && (#[trigger] services[i]).host@ == h ==> !is_prefix(
                services[i].prefix@,
                seg,
            ),
{
    assert forall|i: int| 0 <= i < services.len() && (#[trigger] services[i]).host@ == h implies !is_prefix(
        services[i].prefix@,
        seg,
    ) by {
        let k = choose|k: int| 0 <= k < rs.len() && (#[trigger] rs[k]).1.lb == i;
        assert(rs[k].0@ == services[i].prefix@);
    }
}

/// The first matching route of a host leads to the first matching service of
/// that host.
proof fn lemma_found_route(
    services: Seq<ServiceConfig>,
    h: Seq<char>,
    rs: Seq<(String, ServiceRuntime)>,
    seg: Seq<char>,
    k: int,
)
    requires
        routes_of_host(services, h, rs),
        0 <= k < rs.len(),
        is_prefix(rs[k].0@, seg),
        forall|q: int| 0 <= q < k ==> !is_prefix((#[trigger] rs[q]).0@, seg),
    ensures
        ({
            let i = rs[k].1.lb as int;
            &&& 0 <= i < services.len()
            &&& services[i].host@ == h
            &&& is_prefix(services[i].prefix@, seg)
            &&& rs[k].1.name@ == services[i].name@
            &&& forall|i2: int|
                0 <= i2 < services.len() && (#[trigger] services[i2]).host@ == h && is_prefix(
                    services[i2].prefix@,
                    seg,
                ) && i2 != i ==> route_lt((services[i].prefix@, i), (services[i2].prefix@, i2))
        }),
{
    let i = rs[k].1.lb as int;
    assert(rs[k].0@ == services[i].prefix@);
    assert forall|i2: int|
        0 <= i2 < services.len() && (#[trigger] services[i2]).host@ == h && is_prefix(
            services[i2].prefix@,
            seg,
        ) && i2 != i implies route_lt((services[i].prefix@, i), (services[i2].prefix@, i2)) by {
        let k2 = choose|k2: int| 0 <= k2 < rs.len() && (#[trigger] rs[k2]).1.lb == i2;
        assert(rs[k2].0@ == services[i2].prefix@);
        assert(route_key(rs[k]) == (services[i].prefix@, i));
        assert(route_key(rs[k2]) == (services[i2].prefix@, i2));
        if k2 < k {
            assert(!is_prefix(rs[k2].0@, seg));
        }
    }
}

} // verus!
