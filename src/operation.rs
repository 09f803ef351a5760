//! The operation envelope that every mutation or read travels in, and the result of applying it.

use crate::timestamp::Timestamp;
use vstd::prelude::*;

verus! {

/// One ADD, REMOVE or GET intent, stamped by the node that accepted it.
#[derive(Debug)]
pub struct Operation {
    pub name: String,
    pub level: String,
    pub key: String,
    pub value: Option<String>,
    pub timestamp: Timestamp,
}

/// What applying an operation to the local store reports.
pub struct KVResult {
    pub success: bool,
    pub value: Option<String>,
    pub timestamp: Option<Timestamp>,
}

/// One entry of a store snapshot as it travels between nodes; `valid` is the live flag.
pub struct KvData {
    pub key: String,
    pub value: String,
    pub timestamp: Option<Timestamp>,
    pub valid: bool,
}

/// The view of an optional string.
pub open spec fn opt_view(o: Option<String>) -> Option<Seq<char>> {
    match o {
        Some(s) => Some(s@),
        None => None,
    }
}

} // verus!
