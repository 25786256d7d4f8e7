//! The server's configuration values: an optional listen address and
//! port, with the defaults applied when the configuration leaves them
//! out. Reading the file itself is the caller's concern; this module
//! only holds the values and the defaulting rule.

use vstd::prelude::*;
use vstd::string::StringExecFns;

verus! {

/// The listener settings a configuration may carry.
#[derive(Debug)]
pub struct Server {
    pub ip: Option<String>,
    pub port: Option<String>,
}

/// A parsed configuration: the server section, if present.
#[derive(Debug)]
pub struct Config {
    pub server: Option<Server>,
}

impl Config {
    /// The address to listen on: the configured one, or every interface.
    pub fn bind_ip(&self) -> (r: String)
        ensures
            r@ == (match self.server {
                Some(Server { ip: Some(ip), .. }) => ip@,
                _ => "0.0.0.0"@,
            }),
    {
        match &self.server {
            Some(s) => match &s.ip {
                Some(ip) => ip.clone(),
                None => String::from_str("0.0.0.0"),
            },
            None => String::from_str("0.0.0.0"),
        }
    }

    /// The port to listen on: the configured one, or the game's default.
    pub fn bind_port(&self) -> (r: String)
        ensures
            r@ == (match self.server {
                Some(Server { port: Some(port), .. }) => port@,
                _ => "2277"@,
            }),
    {
        match &self.server {
            Some(s) => match &s.port {
                Some(port) => port.clone(),
                None => String::from_str("2277"),
            },
            None => String::from_str("2277"),
        }
    }
}

} // verus!
