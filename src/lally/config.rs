//! Command-line settings of a node: fresh start, replay path, seed address, port and quorums,
//! with their defaults.

use vstd::prelude::*;

verus! {

pub fn default_r_quorum() -> (r: usize)
    ensures
        r == 1,
{
    1
}

pub fn default_w_quorum() -> (r: usize)
    ensures
        r == 1,
{
    1
}

pub fn default_port() -> (r: u32)
    ensures
        r == 3000,
{
    3000
}

/// A node's settings as given on the command line.
pub struct Config {
    pub fresh: bool,
    pub path: Option<String>,
    pub ip: Option<String>,
    pub port: u32,
    pub read_quorum: usize,
    pub write_quorum: usize,
}

impl Config {
    pub fn fresh(&self) -> (r: bool)
        ensures
            r == self.fresh,
    {
        self.fresh
    }

    pub fn path(&self) -> (r: Option<&str>)
        ensures
            r matches Some(x) ==> (self.path matches Some(y) && x@ == y@),
            r is None <==> self.path is None,
    {
        match &self.path {
            Some(p) => Some(p.as_str()),
            None => None,
        }
    }

    pub fn ip(&self) -> (r: Option<&str>)
        ensures
            r matches Some(x) ==> (self.ip matches Some(y) && x@ == y@),
            r is None <==> self.ip is None,
    {
        match &self.ip {
            Some(p) => Some(p.as_str()),
            None => None,
        }
    }

    pub fn port(&self) -> (r: u32)
        ensures
            r == self.port,
    {
        self.port
    }

    pub fn read_quorum(&self) -> (r: usize)
        ensures
            r == self.read_quorum,
    {
        self.read_quorum
    }

    pub fn write_quorum(&self) -> (r: usize)
        ensures
            r == self.write_quorum,
    {
        self.write_quorum
    }
}

} // verus!
