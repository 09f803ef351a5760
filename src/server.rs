//! The request body that a client sends to a node running alone.

use vstd::prelude::*;

verus! {

/// A client request body: a key and, for ADD, a value.
pub struct Payload {
    pub key: String,
    pub value: Option<String>,
}

} // verus!
