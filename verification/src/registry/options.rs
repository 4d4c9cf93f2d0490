//! Limits of the HTTP transport.

use vstd::prelude::*;

verus! {

/// How the transport to the registry is set up.
#[derive(Debug, Clone, Copy, PartialEq, Eq)]
pub struct RegistryClientOptions {
    /// Idle connections kept per host.
    pub max_sockets: usize,
    /// After how many seconds a request is given up.
    pub timeout: u64,
    /// Whether invalid certificates are refused.
    pub strict_ssl: bool,
}

impl Default for RegistryClientOptions {
    /// Twelve idle connections per host, a timeout of 300000 seconds, and
    /// certificates checked.
    fn default() -> (r: RegistryClientOptions)
        ensures
            r.max_sockets == 12,
            r.timeout == 300_000,
            r.strict_ssl,
    {
        RegistryClientOptions { max_sockets: 12, timeout: 5 * 60 * 1000, strict_ssl: true }
    }
}

} // verus!
