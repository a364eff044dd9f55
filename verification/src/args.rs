//! The service's configuration, as plain resolved values: the shell parses
//! the command line, validates through `Args::validate`, and only then
//! builds the pool from `no_workers`.

use vstd::prelude::*;

verus! {

/// Default port the service listens on.
pub const DEFAULT_PORT: usize = 9999;

/// Default worker count; more workers mean more accelerator memory but more
/// throughput.
pub const DEFAULT_WORKERS: usize = 2;

/// The resolved configuration.
pub struct Args {
    /// Listen on all interfaces rather than loopback only.
    pub listen: bool,
    /// Port number.
    pub port: usize,
    /// Worker-pool size.
    pub no_workers: usize,
    /// Path to the model directory the workers are built from.
    pub model: String,
}

impl Args {
    /// A usable configuration: a real port and at least one worker, so the
    /// pool cannot be built empty.
    pub open spec fn valid_spec(self) -> bool {
        &&& 1 <= self.port <= 65535
        &&& self.no_workers >= 1
    }

    /// Whether the configuration is usable.
    pub fn validate(&self) -> (b: bool)
        ensures
            b == self.valid_spec(),
    {
        1 <= self.port && self.port <= 65535 && self.no_workers >= 1
    }

    /// The interface to bind: all interfaces when `listen` is set, loopback
    /// otherwise.
    pub fn bind_ip(&self) -> (ip: &'static str)
        ensures
            self.listen ==> ip@ == "0.0.0.0"@,
            !self.listen ==> ip@ == "127.0.0.1"@,
    {
        if self.listen {
            "0.0.0.0"
        } else {
            "127.0.0.1"
        }
    }
}

} // verus!
