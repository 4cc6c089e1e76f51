//! Gateway, listener and TLS configuration.
use vstd::prelude::*;

use crate::config::plugin_filter_dto::SgRouteFilter;
use crate::error::SgError;
use crate::text::{to_lowercase, unicode_lower};

verus! {

/// A gateway: the listeners it binds, with its parameters and the filters
/// of all its requests. The name is unique among gateways.
#[derive(Debug, Clone)]
pub struct SgGateway {
    pub name: String,
    pub parameters: SgParameters,
    pub listeners: Vec<SgListener>,
    pub filters: Option<Vec<SgRouteFilter>>,
}

/// Gateway parameter configuration.
#[derive(Debug)]
pub struct SgParameters {
    /// Redis access Url, Url with permission information.
    pub redis_url: Option<String>,
    /// Gateway Log_Level
    pub log_level: Option<String>,
    /// Gateway language
    pub lang: Option<String>,
    /// Ignore backend tls verification
    pub ignore_tls_verification: Option<bool>,
}

impl Clone for SgParameters {
    /// A copy with the same parameters.
    fn clone(&self) -> (r: Self)
        ensures
            r == *self,
    {
        SgParameters {
            redis_url: self.redis_url.clone(),
            log_level: self.log_level.clone(),
            lang: self.lang.clone(),
            ignore_tls_verification: self.ignore_tls_verification,
        }
    }
}

impl Default for SgParameters {
    fn default() -> (r: Self)
        ensures
            r.redis_url is None,
            r.log_level is None,
            r.lang is None,
            r.ignore_tls_verification is None,
    {
        SgParameters { redis_url: None, log_level: None, lang: None, ignore_tls_verification: None }
    }
}

/// Listener embodies the concept of a logical endpoint where a Gateway
/// accepts network connections.
#[derive(Debug, Clone)]
pub struct SgListener {
    /// Name of the listener, unique within a gateway.
    pub name: Option<String>,
    /// Ip bound to the Listener. Default is 0.0.0.0
    pub ip: Option<String>,
    /// The network port.
    pub port: u16,
    /// The protocol this listener expects to receive.
    pub protocol: SgProtocol,
    /// The TLS configuration of the listener.
    pub tls: Option<SgTlsConfig>,
    /// The host on which the listener accepts requests.
    pub hostname: Option<String>,
}

/// The application protocol accepted by a listener or spoken to a backend.
#[derive(Debug, Clone, Copy, PartialEq, Eq, Structural)]
pub enum SgProtocol {
    /// Cleartext HTTP/1.1 over TCP.
    Http,
    /// HTTP/1.1 or HTTP/2 over TLS.
    Https,
    Ws,
    Wss,
}

impl Default for SgProtocol {
    fn default() -> (r: Self)
        ensures
            r == SgProtocol::Http,
    {
        SgProtocol::Http
    }
}

/// The scheme name of a protocol, as its `Display` writes it.
pub open spec fn protocol_name(p: SgProtocol) -> Seq<char> {
    match p {
        SgProtocol::Http => seq!['h', 't', 't', 'p'],
        SgProtocol::Https => seq!['h', 't', 't', 'p', 's'],
        SgProtocol::Ws => seq!['w', 's'],
        SgProtocol::Wss => seq!['w', 's', 's'],
    }
}

impl SgProtocol {
    /// The scheme name of the protocol ("http", "https", "ws" or "wss").
    pub fn as_str(&self) -> (r: &'static str)
        ensures
            r@ == protocol_name(*self),
    {
        proof {
            reveal_strlit("http");
            reveal_strlit("https");
            reveal_strlit("ws");
            reveal_strlit("wss");
        }
        match self {
            SgProtocol::Http => "http",
            SgProtocol::Https => "https",
            SgProtocol::Ws => "ws",
            SgProtocol::Wss => "wss",
        }
    }
}

/// A TLS configuration of a listener.
#[derive(Debug, Clone)]
pub struct SgTlsConfig {
    pub mode: SgTlsMode,
    pub key: String,
    pub cert: String,
}

/// How a listener handles TLS.
#[derive(Debug, Clone, Copy, PartialEq, Eq, Structural)]
pub enum SgTlsMode {
    Terminate,
    Passthrough,
}

impl Default for SgTlsMode {
    fn default() -> (r: Self)
        ensures
            r == SgTlsMode::Passthrough,
    {
        SgTlsMode::Passthrough
    }
}

/// The TLS mode a name denotes once lower-cased, if any.
pub open spec fn tls_mode_of(lowered: Seq<char>) -> Option<SgTlsMode> {
    if lowered == seq!['t', 'e', 'r', 'm', 'i', 'n', 'a', 't', 'e'] {
        Some(SgTlsMode::Terminate)
    } else if lowered == seq!['p', 'a', 's', 's', 't', 'h', 'r', 'o', 'u', 'g', 'h'] {
        Some(SgTlsMode::Passthrough)
    } else {
        None
    }
}

impl SgTlsMode {
    /// Parses a TLS mode name, ignoring case ("terminate" or "passthrough").
    pub fn from_str(mode: &str) -> (r: Result<SgTlsMode, SgError>)
        ensures
            match tls_mode_of(unicode_lower(mode@)) {
                Some(m) => r == Ok::<SgTlsMode, SgError>(m),
                None => r is Err,
            },
    {
        let level = to_lowercase(mode);
        let l = crate::text::chars_of(level.as_str());
        let terminate: [char; 9] = ['t', 'e', 'r', 'm', 'i', 'n', 'a', 't', 'e'];
        let passthrough: [char; 11] = ['p', 'a', 's', 's', 't', 'h', 'r', 'o', 'u', 'g', 'h'];
        assert(terminate@ == seq!['t', 'e', 'r', 'm', 'i', 'n', 'a', 't', 'e']);
        assert(passthrough@ == seq!['p', 'a', 's', 's', 't', 'h', 'r', 'o', 'u', 'g', 'h']);
        if crate::text::seq_eq(l.as_slice(), terminate.as_slice()) {
            Ok(SgTlsMode::Terminate)
        } else if crate::text::seq_eq(l.as_slice(), passthrough.as_slice()) {
            Ok(SgTlsMode::Passthrough)
        } else {
            Err(SgError::BadRequest)
        }
    }

    /// The TLS mode named by `mode`, if it is present and names one.
    pub fn from(mode: Option<String>) -> (r: Option<Self>)
        ensures
            r == match mode {
                Some(m) => tls_mode_of(unicode_lower(m@)),
                None => None,
            },
    {
        if let Some(mode) = mode {
            if let Ok(mode) = SgTlsMode::from_str(mode.as_str()) {
                return Some(mode);
            }
        }
        None
    }
}

} // verus!
