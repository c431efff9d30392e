//! Server configuration: where the database lives and where to listen.
//! Reading the environment is the caller's business; this is the assembled
//! result.

use vstd::prelude::*;

verus! {

/// The settings the server starts with: a database connection string, a
/// listening host, and a listening port.
#[derive(Debug)]
pub struct Config {
    pub database_url: String,
    pub server_host: String,
    pub server_port: u16,
}

} // verus!
