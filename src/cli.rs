//! Command-line settings for a node that runs alone: fresh start, log path, seed address and
//! port, each optional.

use vstd::prelude::*;

verus! {

/// Fresh start, log path, seed address and port, as given on the command line.
pub struct Config {
    pub fresh: bool,
    pub path: Option<String>,
    pub ip: Option<String>,
    pub port: Option<u32>,
}

} // verus!
