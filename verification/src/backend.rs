//! The pool of backend servers and their runtime state.
use std::sync::atomic::AtomicU64;
use std::sync::Arc;

use arc_swap::ArcSwap;
use vstd::prelude::*;

use crate::config::{BackendConfig, Config, IpAddress, ServiceConfig};

verus! {

/// Health state of a backend server.
#[derive(Debug, Clone, Copy, PartialEq, Eq, Structural)]
pub enum Health {
    Healthy,
    Unhealthy,
    Unknown,
    Draining,
}

/// A backend server as the pool tracks it.
#[derive(Debug)]
pub struct BackendRuntime {
    pub name: String,
    pub host: IpAddress,
    pub port: u16,
    pub weight: u64,
    /// Requests in flight to this backend.
    pub current_requests: AtomicU64,
    pub health: Health,
}

/// What the pool knows of a backend, as a value: name, address, port,
/// weight and health.
pub type RuntimeView = (Seq<char>, IpAddress, u16, u64, Health);

impl BackendRuntime {
    /// This backend as a value.
    pub open spec fn runtime_view(&self) -> RuntimeView {
        (self.name@, self.host, self.port, self.weight, self.health)
    }
}

/// The backends of a pool, as values, in pool order.
pub open spec fn members_view(v: Seq<Arc<BackendRuntime>>) -> Seq<RuntimeView> {
    v.map_values(|b: Arc<BackendRuntime>| (*b).runtime_view())
}

/// A pool of backends that readers load as one snapshot, held in an
/// `arc_swap::ArcSwap`.
#[verifier::external_body]
pub struct BackendPool {
    inner: ArcSwap<Vec<Arc<BackendRuntime>>>,
}

/// The backends that a pool holds, in order.
pub uninterp spec fn pool_members(pool: BackendPool) -> Seq<RuntimeView>;

impl BackendPool {
    /// Calls `ArcSwap::from_pointee`: the pool holds exactly `v`.
    #[verifier::external_body]
    fn from_pointee(v: Vec<Arc<BackendRuntime>>) -> (p: BackendPool)
        ensures
            pool_members(p) == members_view(v@),
    {
        BackendPool { inner: ArcSwap::from_pointee(v) }
    }

    /// Calls `ArcSwap::load_full`: the current snapshot of the pool. This
    /// library never stores into a pool, so the snapshot is what the pool was
    /// made with.
    #[verifier::external_body]
    pub fn load_full(&self) -> (v: Arc<Vec<Arc<BackendRuntime>>>)
        ensures
            members_view((*v)@) == pool_members(*self),
    {
        self.inner.load_full()
    }
}

/// The backends of all services, service by service, in configuration order.
pub open spec fn all_backends(services: Seq<ServiceConfig>) -> Seq<BackendConfig>
    decreases services.len(),
{
    if services.len() == 0 {
        Seq::empty()
    } else {
        all_backends(services.drop_last()) + services.last().backends@
    }
}

/// A configured backend as the pool starts it: health unknown.
pub open spec fn initial_runtime(b: BackendConfig) -> RuntimeView {
    (b.name@, b.host, b.port, b.weight as u64, Health::Unknown)
}

/// The runtime state of a configured backend, with no request in flight and
/// health not yet known.
fn start_backend(b: &BackendConfig) -> (r: Arc<BackendRuntime>)
    ensures
        (*r).runtime_view() == initial_runtime(*b),
        r.name@ == b.name@,
        r.host == b.host,
        r.port == b.port,
        r.weight == b.weight,
        r.health == Health::Unknown,
{
    Arc::new(
        BackendRuntime {
            name: b.name.clone(),
            host: b.host,
            port: b.port,
            weight: b.weight as u64,
            current_requests: AtomicU64::new(0),
            health: Health::Unknown,
        },
    )
}

/// The pool of all configured backends, each with no request in flight and
/// health `Unknown`. The configuration lists backends only under their
/// services (it has no list of its own), so the pool takes the backends of
/// every service, service by service, each service's in its listed order; a
/// backend listed under two services is in the pool twice.
pub fn init_from_config(cfg: &Config) -> (pool: BackendPool)
    ensures
        pool_members(pool) == all_backends(cfg.services@).map_values(
            |b: BackendConfig| initial_runtime(b),
        ),
        pool_members(pool).len() == all_backends(cfg.services@).len(),
        forall|i: int|
            0 <= i < pool_members(pool).len() ==> {
                let b = all_backends(cfg.services@)[i];
                let m = #[trigger] pool_members(pool)[i];
                &&& m.0 == b.name@
                &&& m.1 == b.host
                &&& m.2 == b.port
                &&& m.3 == b.weight
                &&& m.4 == Health::Unknown
            },
{
    let ghost ss = cfg.services@;
    let mut v: Vec<Arc<BackendRuntime>> = Vec::new();
    for i in 0..cfg.services.len()
        invariant
            ss == cfg.services@,
            members_view(v@) == all_backends(ss.take(i as int)).map_values(
                |b: BackendConfig| initial_runtime(b),
            ),
    {
        let bs = &cfg.services[i].backends;
        let ghost before = v@;
        for m in 0..bs.len()
            invariant
                ss == cfg.services@,
                i < ss.len(),
                bs == ss[i as int].backends,
                members_view(v@) == (all_backends(ss.take(i as int)) + bs@.take(m as int)).map_values(
                    |b: BackendConfig| initial_runtime(b),
                ),
        {
            let r = start_backend(&bs[m]);
            let ghost prev = v@;
            let ghost xs = all_backends(ss.take(i as int)) + bs@.take(m as int);
            v.push(r);
            assert(members_view(v@) =~= members_view(prev).push((*r).runtime_view()));
            assert((all_backends(ss.take(i as int)) + bs@.take(m + 1)) =~= xs.push(bs@[m as int]));
            assert(xs.push(bs@[m as int]).map_values(|b: BackendConfig| initial_runtime(b))
                =~= xs.map_values(|b: BackendConfig| initial_runtime(b)).push(
                initial_runtime(bs@[m as int]),
            ));
        }
        assert(ss.take(i + 1).drop_last() =~= ss.take(i as int));
        assert(bs@.take(bs.len() as int) =~= bs@);
    }
    assert(ss.take(cfg.services.len() as int) =~= ss);
    let pool = BackendPool::from_pointee(v);
    proof {
        law_pool_keeps_backends(ss, pool_members(pool));
    }
    pool
}

/// The pool started from a configuration keeps each configured backend as it
/// was configured: the pool has one member per backend of the services, in
/// order, with that backend's name, address, port and weight, and health
/// `Unknown`.
pub proof fn law_pool_keeps_backends(services: Seq<ServiceConfig>, members: Seq<RuntimeView>)
    requires
        members == all_backends(services).map_values(|b: BackendConfig| initial_runtime(b)),
    ensures
        members.len() == all_backends(services).len(),
        forall|i: int|
            0 <= i < members.len() ==> {
                let b = all_backends(services)[i];
                let m = #[trigger] members[i];
                &&& m.0 == b.name@
                &&& m.1 == b.host
                &&& m.2 == b.port
                &&& m.3 == b.weight
                &&& m.4 == Health::Unknown
            },
{
}

} // verus!
