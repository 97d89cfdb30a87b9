use wolfram::config::{BackendConfig, Config, IpAddress, ServiceConfig};
use wolfram::proxy::{FilterDecision, RejectReason, RevProxy, UpstreamError, HEALTH_CHECK_SECS};
use wolfram::routing::{Backend, PrefixIndexable, ToBackend};

const LOCALHOST: IpAddress = IpAddress::V4(0x7F00_0001);

fn backend(name: &str, host: IpAddress, port: u16, weight: usize) -> BackendConfig {
    BackendConfig {
        name: name.to_string(),
        host,
        port,
        weight,
    }
}

fn service(name: &str, host: &str, prefix: &str, backends: Vec<BackendConfig>) -> ServiceConfig {
    ServiceConfig {
        name: name.to_string(),
        host: host.to_string(),
        prefix: prefix.to_string(),
        backends,
    }
}

fn config(services: Vec<ServiceConfig>) -> Config {
    Config { services }
}

#[test]
fn builds_host_and_prefix_routing_table() {
    let cfg = config(vec![
        service(
            "user-service",
            "api.local",
            "/user",
            vec![
                backend("user-backend-1", LOCALHOST, 3001, 1),
                backend("user-backend-2", LOCALHOST, 3002, 1),
            ],
        ),
        service(
            "auth-service",
            "api.local",
            "/auth",
            vec![backend("auth-backend-1", LOCALHOST, 4001, 1)],
        ),
        service(
            "admin-user-service",
            "admin.local",
            "/user",
            vec![backend("admin-user-backend", LOCALHOST, 5001, 1)],
        ),
    ]);

    let (rev_proxy, background_services) = RevProxy::init_from_config(&cfg);

    // One router per distinct host.
    assert_eq!(rev_proxy.services.len(), 2);
    assert!(rev_proxy.services.contains_key("api.local"));
    assert!(rev_proxy.services.contains_key("admin.local"));

    // One background health-check service per configured service.
    assert_eq!(background_services.len(), 3);

    // api.local serves both /user and /auth prefixes.
    let api_router = rev_proxy.services.get("api.local").unwrap();

    assert!(api_router
        .iter()
        .find(|r| r
            .0
            .starts_with("/user/123".strip_index_prefix().unwrap().as_str()))
        .is_some());

    assert!(api_router
        .iter()
        .find(|r| r
            .0
            .starts_with("/auth/login".strip_index_prefix().unwrap().as_str()))
        .is_some());

    let admin_router = rev_proxy.services.get("admin.local").unwrap();

    assert!(admin_router
        .iter()
        .find(|r| r
            .0
            .starts_with("/user/456".strip_index_prefix().unwrap().as_str()))
        .is_some());

    assert!(admin_router
        .iter()
        .find(|r| r
            .0
            .starts_with("/auth/login".strip_index_prefix().unwrap().as_str()))
        .is_none());
}

#[test]
fn unknown_prefix_has_no_match() {
    let cfg = config(vec![service(
        "user-service",
        "api.local",
        "/user",
        vec![backend("user-backend-1", LOCALHOST, 3001, 1)],
    )]);

    let (rev_proxy, _) = RevProxy::init_from_config(&cfg);

    let router = rev_proxy.services.get("api.local").unwrap();

    assert!(router
        .iter()
        .find(|r| r
            .0
            .starts_with("/user/999".strip_index_prefix().unwrap().as_str()))
        .is_some());

    assert!(router
        .iter()
        .find(|r| r
            .0
            .starts_with("/unknown".strip_index_prefix().unwrap().as_str()))
        .is_none());
}

#[test]
fn empty_services_yields_empty_routing_table() {
    let cfg = config(vec![]);

    let (rev_proxy, background_services) = RevProxy::init_from_config(&cfg);

    assert!(rev_proxy.services.is_empty());
    assert!(background_services.is_empty());
}

#[test]
fn strips_first_path_segment() {
    assert_eq!("/user/123".strip_index_prefix().unwrap(), "/user");
    assert_eq!("/auth".strip_index_prefix().unwrap(), "/auth");
    assert_eq!("/".strip_index_prefix().unwrap(), "/");
    assert_eq!("abc/def/ghi".strip_index_prefix().unwrap(), "/def");
    assert_eq!("//x".strip_index_prefix().unwrap(), "/");
    assert_eq!("/ü/ä".strip_index_prefix().unwrap(), "/ü");
    assert!("".strip_index_prefix().is_err());
    assert!("no-slash".strip_index_prefix().is_err());
    let seg = "/user/123".strip_index_prefix().unwrap();
    assert_eq!(seg.as_str().strip_index_prefix().unwrap(), seg);
}

#[test]
fn routes_of_a_host_are_sorted_by_prefix_stably() {
    let cfg = config(vec![
        service("s0", "h", "/zeta", vec![]),
        service("s1", "h", "/alpha", vec![]),
        service("s2", "other", "/alpha", vec![]),
        service("s3", "h", "/alpha", vec![]),
        service("s4", "h", "/beta", vec![]),
    ]);
    let (rev_proxy, balancers) = RevProxy::init_from_config(&cfg);
    assert_eq!(rev_proxy.services.hosts.len(), 2);
    assert_eq!(rev_proxy.services.hosts[0].host, "h");
    assert_eq!(rev_proxy.services.hosts[1].host, "other");
    let routes: Vec<(&str, &str, usize)> = rev_proxy.services.hosts[0]
        .routes
        .iter()
        .map(|r| (r.0.as_str(), r.1.name.as_str(), r.1.lb))
        .collect();
    assert_eq!(
        routes,
        vec![("/alpha", "s1", 1), ("/alpha", "s3", 3), ("/beta", "s4", 4), ("/zeta", "s0", 0)]
    );
    assert_eq!(balancers.len(), 5);
    assert_eq!(balancers[2].name, "s2");
    assert_eq!(balancers[2].health_check_secs, HEALTH_CHECK_SECS);
    assert_eq!(HEALTH_CHECK_SECS, 60);
}

#[test]
fn balancer_backends_are_a_sorted_set() {
    let v6 = IpAddress::V6(1);
    let cfg = config(vec![service(
        "svc",
        "h",
        "/",
        vec![
            backend("b", v6, 8080, 2),
            backend("a", LOCALHOST, 3002, 1),
            backend("dup", LOCALHOST, 3002, 1),
            backend("c", IpAddress::V4(0x0A00_0005), 4001, 2),
            backend("d", LOCALHOST, 3001, 5),
            backend("e", LOCALHOST, 3001, 1),
        ],
    )]);
    let (_, balancers) = RevProxy::init_from_config(&cfg);
    let expected = vec![
        Backend { host: IpAddress::V4(0x0A00_0005), port: 4001, weight: 2 },
        Backend { host: LOCALHOST, port: 3001, weight: 1 },
        Backend { host: LOCALHOST, port: 3001, weight: 5 },
        Backend { host: LOCALHOST, port: 3002, weight: 1 },
        Backend { host: v6, port: 8080, weight: 2 },
    ];
    assert_eq!(balancers[0].backends, expected);
}

#[test]
fn to_backend_keeps_address_and_weight() {
    let b = backend("test", LOCALHOST, 3001, 5).to_backend();
    assert_eq!(b, Backend { host: LOCALHOST, port: 3001, weight: 5 });
    let b = backend("test", IpAddress::V6(1), 8080, 2).to_backend();
    assert_eq!(b.host, IpAddress::V6(1));
    assert_eq!(b.port, 8080);
    assert_eq!(b.weight, 2);
}

/// The `a.b.c.d:port` text of an IPv4 backend, from the octets of its
/// address number.
fn ipv4_socket_text(b: &Backend) -> String {
    match b.host {
        IpAddress::V4(a) => {
            let o = a.to_be_bytes();
            format!("{}.{}.{}.{}:{}", o[0], o[1], o[2], o[3], b.port)
        }
        IpAddress::V6(_) => panic!("not an IPv4 backend"),
    }
}

#[test]
fn converts_ipv4_address_and_weight() {
    let host = IpAddress::V4(u32::from_be_bytes([127, 0, 0, 1]));
    let b = backend("test", host, 3001, 5).to_backend();
    assert_eq!(ipv4_socket_text(&b), "127.0.0.1:3001");
    assert_eq!(b.weight, 5);
}

#[test]
fn converts_ipv6_address_and_weight() {
    let mut loopback = [0u8; 16];
    loopback[15] = 1;
    let b = backend("test", IpAddress::V6(u128::from_be_bytes(loopback)), 8080, 2).to_backend();
    match b.host {
        IpAddress::V6(a) => assert_eq!(a.to_be_bytes(), loopback),
        IpAddress::V4(_) => panic!("not an IPv6 backend"),
    }
    assert_eq!(b.port, 8080);
    assert_eq!(b.weight, 2);
}

fn sample_proxy() -> RevProxy {
    let cfg = config(vec![
        service("user-service", "api.local", "/user", vec![]),
        service("root-service", "api.local", "/", vec![]),
        service("auth-service", "api.local", "/auth", vec![]),
    ]);
    RevProxy::init_from_config(&cfg).0
}

fn forwarded_to(d: FilterDecision) -> Option<(String, usize)> {
    match d {
        FilterDecision::Forward(rt) => Some((rt.name, rt.lb)),
        _ => None,
    }
}

#[test]
fn request_filter_forwards_to_first_matching_route() {
    let proxy = sample_proxy();
    // "/" sorts before "/auth" and "/user" and starts every stripped path.
    assert_eq!(
        forwarded_to(proxy.request_filter(None, 10, "api.local", "/user/1")),
        Some(("root-service".to_string(), 1))
    );
    assert_eq!(
        forwarded_to(proxy.request_filter(Some(10), 10, "api.local", "/auth")),
        Some(("root-service".to_string(), 1))
    );
}

#[test]
fn request_filter_rejections() {
    let cfg = config(vec![service("user-service", "api.local", "/user", vec![])]);
    let (proxy, _) = RevProxy::init_from_config(&cfg);
    assert_eq!(
        forwarded_to(proxy.request_filter(None, 10, "api.local", "/users/7")),
        Some(("user-service".to_string(), 0))
    );
    match proxy.request_filter(Some(11), 10, "api.local", "/user") {
        FilterDecision::RateLimited { limit } => assert_eq!(limit, 10),
        other => panic!("unexpected {:?}", other),
    }
    match proxy.request_filter(None, 10, "api.local", "nopath") {
        FilterDecision::Reject(r) => {
            assert_eq!(r, RejectReason::PrefixStripping);
            assert_eq!(r.status(), 404);
            assert_eq!(
                r.body(),
                "error during prefix routing: Error during the stripping of the prefix"
            );
        }
        other => panic!("unexpected {:?}", other),
    }
    match proxy.request_filter(None, 10, "other.local", "/user") {
        FilterDecision::Reject(r) => {
            assert_eq!(r, RejectReason::UnknownHost);
            assert_eq!(r.body(), "error during host routing");
        }
        other => panic!("unexpected {:?}", other),
    }
    match proxy.request_filter(None, 10, "api.local", "/admin/x") {
        FilterDecision::Reject(r) => {
            assert_eq!(r, RejectReason::UnknownPrefix);
            assert_eq!(r.body(), "error during prefix routing");
        }
        other => panic!("unexpected {:?}", other),
    }
    // The path is checked before the host.
    match proxy.request_filter(None, 10, "other.local", "nopath") {
        FilterDecision::Reject(r) => assert_eq!(r, RejectReason::PrefixStripping),
        other => panic!("unexpected {:?}", other),
    }
}

#[test]
fn request_context_and_upstream() {
    let proxy = sample_proxy();
    let mut ctx = proxy.new_ctx();
    assert!(ctx.service.is_none());
    assert!(ctx.backend_addr.is_none());
    let id = ctx.request_id.unwrap();
    assert_eq!((id >> 76) & 0xF, 4);
    assert_ne!(proxy.new_ctx().request_id, ctx.request_id);
    assert_eq!(ctx.record_upstream(None), Err(UpstreamError::NoHealthyBackend));
    assert!(ctx.backend_addr.is_none());
    assert_eq!(UpstreamError::NoHealthyBackend.message(), "no healthy backend");
    assert_eq!(ctx.record_upstream(Some("127.0.0.1:3001".to_string())), Ok(()));
    assert_eq!(ctx.backend_addr.as_deref(), Some("127.0.0.1:3001"));
}
