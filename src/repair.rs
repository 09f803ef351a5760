//! Read-repair: after a quorum read, the response with the latest timestamp is authoritative, and
//! every replica that answered with an older timestamp, or none, is sent a corrective write.

use crate::operation::{opt_view, Operation};
use crate::timestamp::{is_newer, ts_le, ts_lt, ts_max, Timestamp};
use vstd::prelude::*;

verus! {

/// A replica's answer to a GET: the live value, if any, and the stored timestamp, if any (a
/// tombstone answers with a timestamp and no value).
pub struct GetKvResponse {
    pub value: Option<String>,
    pub timestamp: Option<Timestamp>,
}

/// The view of a response: who answered, the value, the timestamp.
pub type ReadingView = (Seq<char>, Option<Seq<char>>, Option<Timestamp>);

pub open spec fn reading_view(r: (String, GetKvResponse)) -> ReadingView {
    (r.0@, opt_view(r.1.value), r.1.timestamp)
}

pub open spec fn readings(rs: Seq<(String, GetKvResponse)>) -> Seq<ReadingView> {
    rs.map_values(|r: (String, GetKvResponse)| reading_view(r))
}

/// The latest timestamp among the responses, if any response has one.
pub open spec fn latest(vs: Seq<ReadingView>) -> Option<Timestamp>
    decreases vs.len(),
{
    if vs.len() == 0 {
        None
    } else {
        match (latest(vs.drop_last()), vs.last().2) {
            (None, u) => u,
            (Some(a), None) => Some(a),
            (Some(a), Some(b)) => Some(ts_max(a, b)),
        }
    }
}

/// The value of the first response stamped `t`.
pub open spec fn value_at(vs: Seq<ReadingView>, t: Timestamp) -> Option<Seq<char>>
    decreases vs.len(),
{
    if vs.len() == 0 {
        None
    } else if vs[0].2 == Some(t) {
        vs[0].1
    } else {
        value_at(vs.drop_first(), t)
    }
}

/// The sources, in order, whose responses are not stamped `t`.
pub open spec fn stale_sources(vs: Seq<ReadingView>, t: Timestamp) -> Seq<Seq<char>>
    decreases vs.len(),
{
    if vs.len() == 0 {
        Seq::empty()
    } else if vs.last().2 == Some(t) {
        stale_sources(vs.drop_last(), t)
    } else {
        stale_sources(vs.drop_last(), t).push(vs.last().0)
    }
}

/// The latest timestamp is one of the responses' and no response is later.
pub proof fn lemma_latest(vs: Seq<ReadingView>)
    ensures
        latest(vs) is None <==> forall|i: int| 0 <= i < vs.len() ==> (#[trigger] vs[i]).2 is None,
        latest(vs) matches Some(t) ==> exists|i: int| 0 <= i < vs.len() && (#[trigger] vs[i]).2 == Some(t),
        latest(vs) matches Some(t) ==> forall|i: int|
            0 <= i < vs.len() && (#[trigger] vs[i]).2 is Some ==> ts_le(vs[i].2->0, t),
    decreases vs.len(),
{
    if vs.len() > 0 {
        let init = vs.drop_last();
        lemma_latest(init);
        assert forall|i: int| 0 <= i < init.len() implies #[trigger] init[i] == vs[i] by {}
        let n = vs.len() - 1;
        match latest(vs) {
            Some(t) => {
                match latest(init) {
                    Some(a) => {
                        let k = choose|k: int| 0 <= k < init.len() && (#[trigger] init[k]).2 == Some(a);
                        assert(vs[k] == init[k]);
                        if vs[n].2 == Some(t) {
                        } else {
                            assert(vs[k].2 == Some(t));
                        }
                    },
                    None => {
                        assert(vs[n].2 == Some(t));
                    },
                }
            },
            None => {},
        }
        if let Some(t) = latest(vs) {
            assert forall|i: int| 0 <= i < vs.len() && (#[trigger] vs[i]).2 is Some implies ts_le(
                vs[i].2->0,
                t,
            ) by {
                if i < n {
                    assert(init[i] == vs[i]);
                }
            }
        }
        if latest(vs) is None {
            assert forall|i: int| 0 <= i < vs.len() implies (#[trigger] vs[i]).2 is None by {
                if i < n {
                    assert(init[i] == vs[i]);
                }
            }
        }
    }
}

/// The first response stamped `t` gives the value.
pub proof fn lemma_value_at(vs: Seq<ReadingView>, t: Timestamp)
    requires
        exists|i: int| 0 <= i < vs.len() && (#[trigger] vs[i]).2 == Some(t),
    ensures
        exists|i: int| 0 <= i < vs.len() && (#[trigger] vs[i]).2 == Some(t) && vs[i].1 == value_at(vs, t),
    decreases vs.len(),
{
    if vs[0].2 != Some(t) {
        let k = choose|k: int| 0 <= k < vs.len() && (#[trigger] vs[k]).2 == Some(t);
        assert(vs.drop_first()[k - 1] == vs[k]);
        lemma_value_at(vs.drop_first(), t);
        let j = choose|j: int|
            0 <= j < vs.drop_first().len() && (#[trigger] vs.drop_first()[j]).2 == Some(t) && vs.drop_first()[j].1
                == value_at(vs.drop_first(), t);
        assert(vs[j + 1] == vs.drop_first()[j]);
    } else {
        assert(vs[0].2 == Some(t));
    }
}

/// What a quorum read settles: the answer for the client and the corrective write for replicas.
pub struct RepairPlan {
    /// The authoritative value; `None` when the key is absent or tombstoned everywhere.
    pub value: Option<String>,
    /// The latest timestamp seen, if any replica had one.
    pub timestamp: Option<Timestamp>,
    /// The write that brings a stale replica up to date: ADD of the value, or REMOVE.
    pub correction: Option<Operation>,
    /// The replicas that answered with an older timestamp or none, in response order.
    pub stale: Vec<String>,
}

/// The name of the corrective operation: ADD when there is a value to spread, REMOVE otherwise.
pub open spec fn correction_name(value: Option<Seq<char>>) -> Seq<char> {
    if value is Some {
        "ADD"@
    } else {
        "REMOVE"@
    }
}

fn stamped(ts: Option<Timestamp>, t: Timestamp) -> (r: bool)
    ensures
        r == (ts == Some(t)),
{
    match ts {
        Some(u) => u.seconds == t.seconds && u.nanos == t.nanos,
        None => false,
    }
}

fn copy_value(v: &Option<String>) -> (r: Option<String>)
    ensures
        opt_view(r) == opt_view(*v),
{
    match v {
        Some(s) => Some(s.clone()),
        None => None,
    }
}

/// Settles a quorum read of `key` from the replicas' responses (the local one included): the
/// latest timestamp wins; the first response carrying it gives the value; every response with an
/// older timestamp, or none, names a replica to correct with that value at that timestamp.
pub fn read_repair(key: &String, responses: &Vec<(String, GetKvResponse)>) -> (r: RepairPlan)
    ensures
        ({
            let vs = readings(responses@);
            match latest(vs) {
                None => {
                    &&& r.value is None
                    &&& r.timestamp is None
                    &&& r.correction is None
                    &&& r.stale@.len() == 0
                },
                Some(t) => {
                    &&& r.timestamp == Some(t)
                    &&& opt_view(r.value) == value_at(vs, t)
                    &&& r.correction matches Some(op) && op.key@ == key@ && op.timestamp == t
                        && opt_view(op.value) == value_at(vs, t) && op.name@ == correction_name(
                        value_at(vs, t),
                    ) && op.level@ == "INFO"@
                    &&& r.stale@.map_values(|s: String| s@) == stale_sources(vs, t)
                },
            }
        }),
{
    let ghost vs = readings(responses@);
    let n = responses.len();
    let mut best: Option<Timestamp> = None;
    let mut i: usize = 0;
    while i < n
        invariant
            n == responses@.len(),
            vs == readings(responses@),
            i <= n,
            best == latest(vs.take(i as int)),
        decreases n - i,
    {
        proof {
            assert(vs.take(i + 1).drop_last() =~= vs.take(i as int));
            assert(vs.take(i + 1).last() == reading_view(responses@[i as int]));
        }
        match (best, responses[i].1.timestamp) {
            (None, u) => {
                best = u;
            },
            (Some(a), Some(b)) => {
                if is_newer(&b, &a) {
                    best = Some(b);
                }
            },
            (Some(_), None) => {},
        }
        i = i + 1;
    }
    proof {
        assert(vs.take(n as int) =~= vs);
    }
    let t = match best {
        None => {
            return RepairPlan { value: None, timestamp: None, correction: None, stale: Vec::new() };
        },
        Some(t) => t,
    };
    proof {
        lemma_latest(vs);
    }
    let mut j: usize = 0;
    while j < n && !stamped(responses[j].1.timestamp, t)
        invariant
            n == responses@.len(),
            vs == readings(responses@),
            j <= n,
            latest(vs) == Some(t),
            exists|k: int| j <= k < vs.len() && (#[trigger] vs[k]).2 == Some(t),
            value_at(vs, t) == value_at(vs.skip(j as int), t),
        decreases n - j,
    {
        proof {
            assert(vs.skip(j as int).drop_first() =~= vs.skip(j + 1));
            assert(vs.skip(j as int)[0] == vs[j as int]);
            let k = choose|k: int| j <= k < vs.len() && (#[trigger] vs[k]).2 == Some(t);
            assert(k != j);
        }
        j = j + 1;
    }
    proof {
        if j == n {
            let k = choose|k: int| j <= k < vs.len() && (#[trigger] vs[k]).2 == Some(t);
        }
        assert(vs.skip(j as int)[0] == vs[j as int]);
    }
    let value = copy_value(&responses[j].1.value);
    let name = if value.is_some() {
        String::from_str("ADD")
    } else {
        String::from_str("REMOVE")
    };
    let correction = Operation {
        name,
        level: String::from_str("INFO"),
        key: key.clone(),
        value: copy_value(&value),
        timestamp: t,
    };
    let mut stale: Vec<String> = Vec::new();
    let mut k: usize = 0;
    while k < n
        invariant
            n == responses@.len(),
            vs == readings(responses@),
            k <= n,
            stale@.map_values(|s: String| s@) == stale_sources(vs.take(k as int), t),
        decreases n - k,
    {
        proof {
            assert(vs.take(k + 1).drop_last() =~= vs.take(k as int));
            assert(vs.take(k + 1).last() == reading_view(responses@[k as int]));
        }
        if !stamped(responses[k].1.timestamp, t) {
            let ghost before = stale@.map_values(|s: String| s@);
            stale.push(responses[k].0.clone());
            proof {
                assert(stale@.map_values(|s: String| s@) =~= before.push(responses@[k as int].0@));
            }
        }
        k = k + 1;
    }
    proof {
        assert(vs.take(n as int) =~= vs);
    }
    RepairPlan { value, timestamp: Some(t), correction: Some(correction), stale }
}

} // verus!
