//! What the client-facing adapter hands the core: a request body and the operation built from it.

use crate::operation::Operation;
use crate::timestamp::create_timestamp;
use vstd::prelude::*;

verus! {

/// A client request body: a key and, for ADD, a value.
pub struct Payload {
    pub key: String,
    pub value: Option<String>,
}

/// The operation for a client request, stamped now, at level `INFO`.
pub fn build_operation(payload: &Payload, operation_type: &str) -> (r: Operation)
    ensures
        r.key@ == payload.key@,
        r.value matches Some(v) ==> (payload.value matches Some(w) && v@ == w@),
        r.value is None <==> payload.value is None,
        r.level@ == "INFO"@,
        r.name@ == operation_type@,
        0 <= r.timestamp.nanos < 1_000_000_000,
{
    let value = match &payload.value {
        Some(v) => Some(v.clone()),
        None => None,
    };
    Operation {
        key: payload.key.clone(),
        value,
        level: String::from_str("INFO"),
        name: String::from_str(operation_type),
        timestamp: create_timestamp(),
    }
}

} // verus!
