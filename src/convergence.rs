//! Replicas converge under read-repair: after each stale replica applies the corrective write,
//! every replica reads the authoritative value, and a second repair finds nothing to correct.

use crate::repair::{correction_name, latest, lemma_latest, lemma_value_at, stale_sources, value_at, ReadingView};
use crate::operation::{opt_view, Operation};
use crate::round_trip::apply_all;
use crate::store::{add_spec, apply_spec, remove_spec, SlotView};
use crate::timestamp::{lemma_ts_total, ts_le, ts_lt, Timestamp};
use vstd::prelude::*;

verus! {

/// What the replica with table `m` answers, as source `src`, to a GET of `key`.
pub open spec fn reading_of(src: Seq<char>, m: Map<Seq<char>, SlotView>, key: Seq<char>) -> ReadingView {
    if m.contains_key(key) {
        (src, if m[key].2 { Some(m[key].0) } else { None }, Some(m[key].1))
    } else {
        (src, None, None)
    }
}

/// The answers of all replicas, in order.
pub open spec fn cluster_readings(
    srcs: Seq<Seq<char>>,
    reps: Seq<Map<Seq<char>, SlotView>>,
    key: Seq<char>,
) -> Seq<ReadingView> {
    Seq::new(reps.len(), |i: int| reading_of(srcs[i], reps[i], key))
}

/// The replicas' tables after read-repair: each replica whose answer was not stamped `t`
/// applies the corrective write for value `v` at `t`.
pub open spec fn repaired(
    reps: Seq<Map<Seq<char>, SlotView>>,
    vs: Seq<ReadingView>,
    key: Seq<char>,
    t: Timestamp,
    v: Option<Seq<char>>,
) -> Seq<Map<Seq<char>, SlotView>> {
    Seq::new(
        reps.len(),
        |i: int|
            if vs[i].2 == Some(t) {
                reps[i]
            } else {
                apply_spec(reps[i], correction_name(v), key, v, t)
            },
    )
}

proof fn lemma_names_differ()
    ensures
        "REMOVE"@ != "ADD"@,
{
    reveal_strlit("REMOVE");
    reveal_strlit("ADD");
    assert("REMOVE"@.len() != "ADD"@.len());
}

proof fn lemma_all_stamped(vs: Seq<ReadingView>, t: Timestamp)
    requires
        vs.len() > 0,
        forall|i: int| 0 <= i < vs.len() ==> (#[trigger] vs[i]).2 == Some(t),
    ensures
        latest(vs) == Some(t),
        stale_sources(vs, t).len() == 0,
    decreases vs.len(),
{
    lemma_latest(vs);
    assert(vs[0].2 is Some);
    assert(vs.last().2 == Some(t));
    if vs.len() > 1 {
        assert forall|i: int| 0 <= i < vs.drop_last().len() implies (#[trigger] vs.drop_last()[i]).2 == Some(t) by {
            assert(vs.drop_last()[i] == vs[i]);
        }
        lemma_all_stamped(vs.drop_last(), t);
    } else {
        assert(vs.drop_last().len() == 0);
        assert(stale_sources(vs.drop_last(), t).len() == 0);
    }
}

/// A stale replica: its answer is not stamped with the latest timestamp `t`, so it holds `key`
/// at an earlier timestamp or not at all.
proof fn lemma_stale_is_older(vs: Seq<ReadingView>, t: Timestamp, i: int)
    requires
        latest(vs) == Some(t),
        0 <= i < vs.len(),
        vs[i].2 != Some(t),
    ensures
        vs[i].2 matches Some(u) ==> ts_lt(u, t),
{
    lemma_latest(vs);
    if let Some(u) = vs[i].2 {
        lemma_ts_total(u, t);
    }
}

/// Repair converges: with the latest timestamp `t`, and every answer stamped `t` agreeing on the
/// value, every replica reads that value once the stale ones apply the corrective write; the value
/// is the one that an answer with the latest timestamp gave.
pub proof fn lemma_repair_converges(srcs: Seq<Seq<char>>, reps: Seq<Map<Seq<char>, SlotView>>, key: Seq<char>)
    requires
        srcs.len() == reps.len(),
        latest(cluster_readings(srcs, reps, key)) is Some,
        ({
            let vs = cluster_readings(srcs, reps, key);
            let t = latest(vs)->0;
            forall|i: int| 0 <= i < vs.len() && (#[trigger] vs[i]).2 == Some(t) ==> vs[i].1 == value_at(vs, t)
        }),
    ensures
        ({
            let vs = cluster_readings(srcs, reps, key);
            let t = latest(vs)->0;
            let v = value_at(vs, t);
            let after = cluster_readings(srcs, repaired(reps, vs, key, t, v), key);
            &&& exists|i: int| 0 <= i < vs.len() && (#[trigger] vs[i]).2 == Some(t) && vs[i].1 == v
            &&& forall|i: int| 0 <= i < vs.len() && (#[trigger] vs[i]).2 is Some ==> ts_le(vs[i].2->0, t)
            &&& forall|i: int| 0 <= i < after.len() ==> (#[trigger] after[i]).1 == v
        }),
{
    let vs = cluster_readings(srcs, reps, key);
    let t = latest(vs)->0;
    let v = value_at(vs, t);
    let reps2 = repaired(reps, vs, key, t, v);
    let after = cluster_readings(srcs, reps2, key);
    lemma_latest(vs);
    lemma_value_at(vs, t);
    lemma_names_differ();
    assert forall|i: int| 0 <= i < after.len() implies (#[trigger] after[i]).1 == v by {
        assert(vs[i] == reading_of(srcs[i], reps[i], key));
        assert(after[i] == reading_of(srcs[i], reps2[i], key));
        if vs[i].2 != Some(t) {
            lemma_stale_is_older(vs, t, i);
            let m = reps[i];
            if v is Some {
                assert(reps2[i] == add_spec(m, key, v->0, t));
            } else {
                assert(reps2[i] == remove_spec(m, key, t));
            }
        }
    }
}

/// Repair is idempotent: once the stale replicas have applied the corrective write, every
/// replica answers with the latest timestamp, so a second repair corrects nothing. This needs the
/// corrective write to take effect: an ADD always does; a REMOVE on any replica that holds the
/// key, live or as an older tombstone, but not on one that never held it.
pub proof fn lemma_repair_idempotent(srcs: Seq<Seq<char>>, reps: Seq<Map<Seq<char>, SlotView>>, key: Seq<char>)
    requires
        srcs.len() == reps.len(),
        latest(cluster_readings(srcs, reps, key)) is Some,
        ({
            let vs = cluster_readings(srcs, reps, key);
            let t = latest(vs)->0;
            value_at(vs, t) is Some || forall|i: int|
                0 <= i < vs.len() && (#[trigger] vs[i]).2 != Some(t) ==> reps[i].contains_key(key)
        }),
    ensures
        ({
            let vs = cluster_readings(srcs, reps, key);
            let t = latest(vs)->0;
            let v = value_at(vs, t);
            let after = cluster_readings(srcs, repaired(reps, vs, key, t, v), key);
            &&& latest(after) == Some(t)
            &&& stale_sources(after, t).len() == 0
        }),
{
    let vs = cluster_readings(srcs, reps, key);
    let t = latest(vs)->0;
    let v = value_at(vs, t);
    let reps2 = repaired(reps, vs, key, t, v);
    let after = cluster_readings(srcs, reps2, key);
    lemma_latest(vs);
    lemma_names_differ();
    assert forall|i: int| 0 <= i < after.len() implies (#[trigger] after[i]).2 == Some(t) by {
        assert(vs[i] == reading_of(srcs[i], reps[i], key));
        assert(after[i] == reading_of(srcs[i], reps2[i], key));
        if vs[i].2 != Some(t) {
            lemma_stale_is_older(vs, t, i);
            let m = reps[i];
            if v is Some {
                assert(reps2[i] == add_spec(m, key, v->0, t));
            } else {
                assert(reps2[i] == remove_spec(m, key, t));
            }
        }
    }
    lemma_all_stamped(after, t);
}

/// Whether `op` changes the key it names when its timestamp is new enough: an ADD with a value,
/// or a REMOVE.
pub open spec fn is_mutation(op: Operation) -> bool {
    (op.name@ == "ADD"@ && op.value is Some) || op.name@ == "REMOVE"@
}

/// The mutation at index `j` is the latest of those that touch `key`.
pub open spec fn is_latest(ops: Seq<Operation>, key: Seq<char>, j: int) -> bool {
    &&& 0 <= j < ops.len()
    &&& ops[j].key@ == key
    &&& is_mutation(ops[j])
    &&& forall|i: int|
        0 <= i < ops.len() && i != j && (#[trigger] ops[i]).key@ == key && is_mutation(ops[i]) ==> ts_lt(
            ops[i].timestamp,
            ops[j].timestamp,
        )
}

/// Before the latest mutation of `key` is applied, whatever `key` holds is older than it.
proof fn lemma_prefix_older(m: Map<Seq<char>, SlotView>, ops: Seq<Operation>, key: Seq<char>, j: int, n: int)
    requires
        is_latest(ops, key, j),
        0 <= n <= j,
        m.contains_key(key) ==> ts_lt(m[key].1, ops[j].timestamp),
    ensures
        apply_all(m, ops.take(n)).contains_key(key) ==> ts_lt(apply_all(m, ops.take(n))[key].1, ops[j].timestamp),
    decreases n,
{
    if n > 0 {
        lemma_prefix_older(m, ops, key, j, n - 1);
        assert(ops.take(n).drop_last() =~= ops.take(n - 1));
        assert(ops.take(n).last() == ops[n - 1]);
        let op = ops[n - 1];
        if op.key@ == key && is_mutation(op) {
            assert(ts_lt(op.timestamp, ops[j].timestamp));
        }
    }
}

/// After the latest mutation of `key` has been applied, later (older) ones leave `key` alone.
proof fn lemma_suffix_stable(m: Map<Seq<char>, SlotView>, ops: Seq<Operation>, key: Seq<char>, j: int, n: int)
    requires
        is_latest(ops, key, j),
        j < n <= ops.len(),
        apply_all(m, ops.take(j + 1)).contains_key(key),
        apply_all(m, ops.take(j + 1))[key].1 == ops[j].timestamp,
    ensures
        apply_all(m, ops.take(n)).contains_key(key),
        apply_all(m, ops.take(n))[key] == apply_all(m, ops.take(j + 1))[key],
    decreases n,
{
    if n > j + 1 {
        lemma_suffix_stable(m, ops, key, j, n - 1);
        assert(ops.take(n).drop_last() =~= ops.take(n - 1));
        assert(ops.take(n).last() == ops[n - 1]);
        let op = ops[n - 1];
        let before = apply_all(m, ops.take(n - 1));
        if op.key@ == key && is_mutation(op) {
            assert(ts_lt(op.timestamp, ops[j].timestamp));
            lemma_ts_total(op.timestamp, ops[j].timestamp);
        }
        if op.key@ == key {
            if op.name@ == "ADD"@ {
                if let Some(v) = op.value {
                    assert(!ts_lt(before[key].1, op.timestamp));
                }
            }
        }
    }
}

/// Whether the key is held once mutations have been applied: a key, once held, stays held, and an
/// ADD of a missing key inserts it.
proof fn lemma_key_held(m: Map<Seq<char>, SlotView>, ops: Seq<Operation>, key: Seq<char>, n: int)
    requires
        0 <= n <= ops.len(),
        m.contains_key(key) || exists|i: int|
            0 <= i < n && (#[trigger] ops[i]).key@ == key && ops[i].name@ == "ADD"@ && ops[i].value is Some,
    ensures
        apply_all(m, ops.take(n)).contains_key(key),
    decreases n,
{
    if n > 0 {
        assert(ops.take(n).drop_last() =~= ops.take(n - 1));
        assert(ops.take(n).last() == ops[n - 1]);
        let op = ops[n - 1];
        if m.contains_key(key) || exists|i: int|
            0 <= i < n - 1 && (#[trigger] ops[i]).key@ == key && ops[i].name@ == "ADD"@ && ops[i].value is Some {
            lemma_key_held(m, ops, key, n - 1);
        }
    } else {
        assert(ops.take(0) =~= Seq::<Operation>::empty());
    }
}

/// Mutations applied in any order at one node leave each key with the latest of its mutations,
/// stamped with the latest timestamp: the latest value, live, when that mutation is an ADD; a
/// tombstone when it is a REMOVE. The key may start out holding anything older. A REMOVE of a key
/// that was never held changes nothing, so an older ADD applied after it would win: the key must
/// start out held, or an ADD of it must come before the latest mutation.
pub proof fn lemma_latest_mutation_wins(m: Map<Seq<char>, SlotView>, ops: Seq<Operation>, key: Seq<char>, j: int)
    requires
        is_latest(ops, key, j),
        m.contains_key(key) ==> ts_lt(m[key].1, ops[j].timestamp),
        ops[j].name@ == "REMOVE"@ ==> (m.contains_key(key) || exists|i: int|
            0 <= i < j && (#[trigger] ops[i]).key@ == key && ops[i].name@ == "ADD"@ && ops[i].value is Some),
    ensures
        apply_all(m, ops).contains_key(key),
        apply_all(m, ops)[key].1 == ops[j].timestamp,
        ops[j].name@ == "ADD"@ ==> apply_all(m, ops)[key] == (ops[j].value->0@, ops[j].timestamp, true),
        ops[j].name@ == "REMOVE"@ ==> !apply_all(m, ops)[key].2,
{
    lemma_names_differ();
    lemma_prefix_older(m, ops, key, j, j);
    if ops[j].name@ == "REMOVE"@ {
        lemma_key_held(m, ops, key, j);
    }
    assert(ops.take(j + 1).drop_last() =~= ops.take(j));
    assert(ops.take(j + 1).last() == ops[j]);
    let before = apply_all(m, ops.take(j));
    let op = ops[j];
    if op.name@ == "ADD"@ {
        assert(apply_all(m, ops.take(j + 1)) == add_spec(before, key, op.value->0@, op.timestamp));
    } else {
        assert(apply_all(m, ops.take(j + 1)) == remove_spec(before, key, op.timestamp));
    }
    lemma_suffix_stable(m, ops, key, j, ops.len() as int);
    assert(ops.take(ops.len() as int) =~= ops);
}

} // verus!
