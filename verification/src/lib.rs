pub mod auth;
pub mod backend;
pub mod config;
pub mod ids;
pub mod proxy;
pub mod routing;
pub mod text;
