//! The proxy's configuration: services, the host and path prefix each one
//! answers, and the backends behind it.
use vstd::prelude::*;

verus! {

/// An IP address, held as the number whose big-endian bytes are its octets
/// (`u32` for IPv4, `u128` for IPv6).
#[derive(Clone, Copy, Debug, PartialEq, Eq, Structural)]
pub enum IpAddress {
    V4(u32),
    V6(u128),
}

impl IpAddress {
    /// The address family: 4 or 6.
    pub open spec fn family(self) -> int {
        match self {
            IpAddress::V4(_) => 4,
            IpAddress::V6(_) => 6,
        }
    }

    /// The address as a number.
    pub open spec fn number(self) -> int {
        match self {
            IpAddress::V4(a) => a as int,
            IpAddress::V6(a) => a as int,
        }
    }
}

/// One backend server of a service.
#[derive(Debug)]
pub struct BackendConfig {
    pub name: String,
    pub host: IpAddress,
    pub port: u16,
    pub weight: usize,
}

/// One proxied service: requests for `host` whose path starts with
/// `prefix` go to one of `backends`.
#[derive(Debug)]
pub struct ServiceConfig {
    pub name: String,
    pub host: String,
    pub prefix: String,
    pub backends: Vec<BackendConfig>,
}

/// The whole configuration.
#[derive(Debug)]
pub struct Config {
    pub services: Vec<ServiceConfig>,
}

} // verus!
