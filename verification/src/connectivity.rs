//! Configuration of the HTTP serving layer. The network-facing server itself
//! is an external collaborator and lives in the unverified serving shell;
//! only its configuration defaulting is logic of this library.

use vstd::prelude::*;

verus! {

pub const MAX_DEFAULT_HTTP_CONNECTIONS: u32 = 100;

pub const DEFAULT_HTTP_HOST: &'static str = "localhost";

pub const DEFAULT_HTTP_PORT: u16 = 8080;

/// Partial settings for the HTTP server; whatever is absent falls back to the
/// defaults above.
pub struct HTTPTradingServerConfig {
    pub host: Option<&'static str>,
    pub port: Option<u16>,
    pub max_connections: Option<u32>,
}

/// The resolved settings the HTTP server is started with.
pub struct HTTPTradingServer {
    pub host: &'static str,
    pub port: u16,
    pub max_connections: u32,
}

impl HTTPTradingServer {
    pub fn new(cfg: HTTPTradingServerConfig) -> (r: HTTPTradingServer)
        ensures
            r.port == (match cfg.port {
                Option::Some(p) => p,
                Option::None => DEFAULT_HTTP_PORT,
            }),
            r.host == (match cfg.host {
                Option::Some(h) => h,
                Option::None => DEFAULT_HTTP_HOST,
            }),
            r.max_connections == (match cfg.max_connections {
                Option::Some(m) => m,
                Option::None => MAX_DEFAULT_HTTP_CONNECTIONS,
            }),
    {
        HTTPTradingServer {
            port: match cfg.port {
                Some(p) => p,
                None => DEFAULT_HTTP_PORT,
            },
            host: match cfg.host {
                Some(h) => h,
                None => DEFAULT_HTTP_HOST,
            },
            max_connections: match cfg.max_connections {
                Some(m) => m,
                None => MAX_DEFAULT_HTTP_CONNECTIONS,
            },
        }
    }
}

} // verus!
