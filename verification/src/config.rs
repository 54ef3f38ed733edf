//! Where the server listens and where the store is found.

use crate::decimal::{decimal_text, parse_u16, u16_of, u16_to_text};
use vstd::prelude::*;

verus! {

/// The port the server listens on where none is configured.
pub const DEFAULT_SERVER_PORT: u16 = 8080;

/// The port of the store where none is configured.
pub const DEFAULT_REDIS_PORT: u16 = 6379;

/// The settings of one deployment.
#[derive(Debug, Clone)]
pub struct Config {
    pub server_port: u16,
    pub redis_host: String,
    pub redis_port: u16,
}

/// The port that a configured text stands for: the number it writes, or
/// `default` where nothing is configured or the text is no 16-bit number.
pub open spec fn port_or(text: Option<Seq<char>>, default: u16) -> int {
    match text {
        Some(t) => match u16_of(t) {
            Some(v) => v,
            None => default as int,
        },
        None => default as int,
    }
}

/// The address of the store at `host` and `port`.
pub open spec fn redis_url_of(host: Seq<char>, port: u16) -> Seq<char> {
    "redis://"@ + host + ":"@ + decimal_text(port as nat)
}

/// Reads a port from its configured text.
fn port_from(text: &Option<String>, default: u16) -> (port: u16)
    ensures
        port == port_or(
            match text {
                Some(t) => Some(t@),
                None => None,
            },
            default,
        ),
{
    match text {
        Some(t) => match parse_u16(t.as_str()) {
            Some(v) => v,
            None => default,
        },
        None => default,
    }
}

impl Config {
    /// The settings that the environment gives: `port`, `redis_host` and
    /// `redis_port` are the values of `PORT`, `REDIS_HOST` and `REDIS_PORT`,
    /// each `None` where the variable is not set. A port that is missing or
    /// is no 16-bit number falls back to 8080 for the server and 6379 for the
    /// store; a missing host is `localhost`.
    pub fn from_env(port: Option<String>, redis_host: Option<String>, redis_port: Option<String>) -> (c:
        Self)
        ensures
            c.server_port == port_or(
                match port {
                    Some(t) => Some(t@),
                    None => None,
                },
                DEFAULT_SERVER_PORT,
            ),
            c.redis_port == port_or(
                match redis_port {
                    Some(t) => Some(t@),
                    None => None,
                },
                DEFAULT_REDIS_PORT,
            ),
            c.redis_host@ == match redis_host {
                Some(h) => h@,
                None => "localhost"@,
            },
    {
        let server_port = port_from(&port, DEFAULT_SERVER_PORT);
        let store_port = port_from(&redis_port, DEFAULT_REDIS_PORT);
        let host = match redis_host {
            Some(h) => h,
            None => String::from_str("localhost"),
        };
        Config { server_port, redis_host: host, redis_port: store_port }
    }

    /// The address of the store: `redis://`, the host, a colon and the port in
    /// decimal.
    pub fn redis_url(&self) -> (url: String)
        ensures
            url@ == redis_url_of(self.redis_host@, self.redis_port),
    {
        let mut url = String::from_str("redis://");
        url.append(self.redis_host.as_str());
        url.append(":");
        let port = u16_to_text(self.redis_port);
        url.append(port.as_str());
        url
    }
}

} // verus!
