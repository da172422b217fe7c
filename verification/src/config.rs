//! Process configuration: the address the surrounding server binds to.

use vstd::prelude::*;

verus! {

/// Configuration handed to the server by its environment.
pub struct Config {
    pub server_address: String,
}

impl Config {
    /// Builds a configuration around the given bind address.
    pub fn new(server_address: String) -> (config: Config)
        ensures
            config.server_address@ == server_address@,
    {
        Config { server_address }
    }
}

} // verus!
