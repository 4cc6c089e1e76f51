//! A minimal gateway configuration: listeners and their TLS settings.
use vstd::prelude::*;

verus! {

/// A gateway.
#[derive(Debug, Clone, Copy)]
pub struct SgGateway {}

/// A listener: a logical endpoint where the gateway accepts connections.
#[derive(Debug, Clone)]
pub struct SgListener {
    /// The name, unique within a gateway.
    pub name: String,
    /// The network port.
    pub port: u16,
    /// The protocol the listener expects.
    pub protocol: SgProtocol,
    pub tls: SgTlsConfig,
}

/// The application protocol a listener accepts.
#[derive(Debug, Clone, Copy, PartialEq, Eq, Structural)]
pub enum SgProtocol {
    /// Cleartext HTTP/1.1 over TCP.
    Http,
    /// HTTP/1.1 or HTTP/2 over TLS.
    Https,
}

impl Default for SgProtocol {
    fn default() -> (r: Self)
        ensures
            r == SgProtocol::Http,
    {
        SgProtocol::Http
    }
}

/// A TLS configuration.
#[derive(Debug, Clone)]
#[allow(non_snake_case)]
pub struct SgTlsConfig {
    pub nameOrPath: Option<String>,
    pub key: Option<String>,
    pub cert: Option<String>,
}

} // verus!
