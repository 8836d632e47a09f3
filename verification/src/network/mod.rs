//! The connection to a server, directly or through a proxy.
pub mod connection;
pub mod socks5;
