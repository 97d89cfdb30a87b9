use wolfram::backend::{init_from_config, Health};
use wolfram::config::{BackendConfig, Config, IpAddress, ServiceConfig};

fn backend(name: &str, port: u16, weight: usize) -> BackendConfig {
    BackendConfig {
        name: name.to_string(),
        host: IpAddress::V4(0x7F00_0001),
        port,
        weight,
    }
}

#[test]
fn test_pool_init() {
    let config = Config {
        services: vec![
            ServiceConfig {
                name: "user-service".to_string(),
                host: "api.local".to_string(),
                prefix: "/user".to_string(),
                backends: vec![backend("user-backend-1", 3001, 1), backend("user-backend-2", 3002, 3)],
            },
            ServiceConfig {
                name: "auth-service".to_string(),
                host: "api.local".to_string(),
                prefix: "/auth".to_string(),
                backends: vec![backend("auth-backend-1", 4001, 2)],
            },
        ],
    };

    let pool = init_from_config(&config);
    let members = pool.load_full();
    assert_eq!(members.len(), 3);
    let names: Vec<&str> = members.iter().map(|b| b.name.as_str()).collect();
    assert_eq!(names, vec!["user-backend-1", "user-backend-2", "auth-backend-1"]);
    assert_eq!(members[1].port, 3002);
    assert_eq!(members[1].weight, 3);
    for b in members.iter() {
        assert_eq!(b.health, Health::Unknown);
        assert_eq!(b.current_requests.load(std::sync::atomic::Ordering::SeqCst), 0);
    }
}

#[test]
fn empty_config_gives_empty_pool() {
    let pool = init_from_config(&Config { services: vec![] });
    assert!(pool.load_full().is_empty());
}
