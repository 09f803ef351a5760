//! The in-memory store: key to (value, timestamp, live), merged by last-writer-wins.

use crate::operation::{KVResult, KvData, Operation};
use crate::record::{parse_aof_log, record_fields};
use crate::timestamp::rfc3339_reading;
use crate::timestamp::{is_newer, ts_le, ts_lt, Timestamp};
use dashmap::DashMap;
use vstd::prelude::*;

verus! {

/// A stored value, its timestamp, and whether it is live (`false` marks a tombstone).
pub type Slot = (String, Timestamp, bool);

/// The view of a stored slot.
pub type SlotView = (Seq<char>, Timestamp, bool);

pub open spec fn slot_view(s: Slot) -> SlotView {
    (s.0@, s.1, s.2)
}

#[verifier::external_type_specification]
#[verifier::external_body]
#[verifier::reject_recursive_types(K)]
#[verifier::reject_recursive_types(V)]
#[verifier::reject_recursive_types(S)]
pub struct ExDashMap<K, V, S>(DashMap<K, V, S>);

/// What a concurrent table holds: each key with its slot.
pub uninterp spec fn slots_of(m: DashMap<String, Slot>) -> Map<Seq<char>, SlotView>;

/// Relies on `DashMap::new`: a new table is empty.
#[verifier::external_body]
fn table_new() -> (r: DashMap<String, Slot>)
    ensures
        slots_of(r) =~= Map::empty(),
{
    DashMap::new()
}

/// Relies on `DashMap::insert`: the key now maps to the slot, other keys are untouched.
#[verifier::external_body]
fn table_insert(m: &mut DashMap<String, Slot>, key: String, slot: Slot)
    ensures
        slots_of(*final(m)) == slots_of(*old(m)).insert(key@, slot_view(slot)),
{
    m.insert(key, slot);
}

/// Relies on `DashMap::get`: a copy of the key's slot, if it has one.
#[verifier::external_body]
fn table_get(m: &DashMap<String, Slot>, key: &String) -> (r: Option<Slot>)
    ensures
        r is Some <==> slots_of(*m).contains_key(key@),
        r matches Some(s) ==> slots_of(*m)[key@] == slot_view(s),
{
    m.get(key).map(|e| e.value().clone())
}

/// Relies on `DashMap::iter`: every key with its slot, each key once, in no fixed order.
#[verifier::external_body]
fn table_entries(m: &DashMap<String, Slot>) -> (r: Vec<(String, Slot)>)
    ensures
        forall|i: int|
            0 <= i < r@.len() ==> #[trigger] slots_of(*m).contains_key(r@[i].0@) && slots_of(
                *m,
            )[r@[i].0@] == slot_view(r@[i].1),
        forall|k: Seq<char>|
            #[trigger] slots_of(*m).contains_key(k) ==> exists|i: int|
                0 <= i < r@.len() && r@[i].0@ == k,
        forall|i: int, j: int| 0 <= i < j < r@.len() ==> r@[i].0@ != r@[j].0@,
{
    m.iter().map(|e| (e.key().clone(), e.value().clone())).collect()
}

/// The table after an ADD of `value` at `t`: written unless the key holds a timestamp at or
/// after `t`.
pub open spec fn add_spec(m: Map<Seq<char>, SlotView>, key: Seq<char>, value: Seq<char>, t: Timestamp) -> Map<
    Seq<char>,
    SlotView,
> {
    if m.contains_key(key) && !ts_lt(m[key].1, t) {
        m
    } else {
        m.insert(key, (value, t, true))
    }
}

/// Whether a REMOVE at `t` removes something: the key holds a live value older than `t`.
pub open spec fn remove_applies(m: Map<Seq<char>, SlotView>, key: Seq<char>, t: Timestamp) -> bool {
    m.contains_key(key) && m[key].2 && ts_lt(m[key].1, t)
}

/// The table after a REMOVE at `t`: a key held at an older timestamp becomes a tombstone stamped
/// `t`, whether it was live or already a tombstone, so that the stored timestamp stays the latest
/// one seen. A missing key, or one held at `t` or later, is left alone.
pub open spec fn remove_spec(m: Map<Seq<char>, SlotView>, key: Seq<char>, t: Timestamp) -> Map<
    Seq<char>,
    SlotView,
> {
    if m.contains_key(key) && ts_lt(m[key].1, t) {
        m.insert(key, (m[key].0, t, false))
    } else {
        m
    }
}

/// The table after merging one snapshot entry: it wins only with a strictly later timestamp.
pub open spec fn merge_spec(m: Map<Seq<char>, SlotView>, key: Seq<char>, slot: SlotView) -> Map<
    Seq<char>,
    SlotView,
> {
    if m.contains_key(key) && !ts_lt(m[key].1, slot.1) {
        m
    } else {
        m.insert(key, slot)
    }
}

/// The table after importing snapshot entries in order; entries without a timestamp are skipped.
pub open spec fn import_spec(m: Map<Seq<char>, SlotView>, entries: Seq<KvData>) -> Map<
    Seq<char>,
    SlotView,
>
    decreases entries.len(),
{
    if entries.len() == 0 {
        m
    } else {
        let before = import_spec(m, entries.drop_last());
        let d = entries.last();
        match d.timestamp {
            Some(t) => merge_spec(before, d.key@, (d.value@, t, d.valid)),
            None => before,
        }
    }
}

/// The table after a mutation: an ADD with a value or a REMOVE; anything else leaves it as is.
pub open spec fn apply_spec(
    m: Map<Seq<char>, SlotView>,
    name: Seq<char>,
    key: Seq<char>,
    value: Option<Seq<char>>,
    t: Timestamp,
) -> Map<Seq<char>, SlotView> {
    if name == "ADD"@ {
        match value {
            Some(v) => add_spec(m, key, v, t),
            None => m,
        }
    } else if name == "REMOVE"@ {
        remove_spec(m, key, t)
    } else {
        m
    }
}

/// The table after replaying one log line; a line that does not read as a record changes nothing.
pub open spec fn replay_line_spec(m: Map<Seq<char>, SlotView>, line: Seq<char>) -> Map<Seq<char>, SlotView> {
    match record_fields(line) {
        Ok(f) => match rfc3339_reading(f.time) {
            Some(t) => apply_spec(m, f.name, f.key, f.value, t),
            None => m,
        },
        Err(_) => m,
    }
}

/// The table after replaying log lines in order.
pub open spec fn replay_spec(m: Map<Seq<char>, SlotView>, lines: Seq<Seq<char>>) -> Map<Seq<char>, SlotView>
    decreases lines.len(),
{
    if lines.len() == 0 {
        m
    } else {
        replay_line_spec(replay_spec(m, lines.drop_last()), lines.last())
    }
}

/// A mutation or snapshot entry stamped at or before the key's stored timestamp leaves the
/// stored timestamp unchanged: the whole table stays as it was.
pub proof fn lemma_stale_write_keeps_timestamp(
    m: Map<Seq<char>, SlotView>,
    name: Seq<char>,
    key: Seq<char>,
    value: Option<Seq<char>>,
    t: Timestamp,
    live: bool,
)
    requires
        m.contains_key(key),
        ts_le(t, m[key].1),
    ensures
        apply_spec(m, name, key, value, t) == m,
        merge_spec(m, key, (value.unwrap_or(Seq::empty()), t, live)) == m,
        apply_spec(m, name, key, value, t)[key].1 == m[key].1,
{
}

/// Whether a log line reads as a record.
pub open spec fn is_record(line: Seq<char>) -> bool {
    record_fields(line) matches Ok(f) && rfc3339_reading(f.time) is Some
}

/// How many of the lines do not read as records.
pub open spec fn unreadable(lines: Seq<Seq<char>>) -> nat
    decreases lines.len(),
{
    if lines.len() == 0 {
        0
    } else {
        unreadable(lines.drop_last()) + if is_record(lines.last()) {
            0nat
        } else {
            1nat
        }
    }
}

/// The concurrent key-value table of one node.
pub struct Store {
    store: DashMap<String, Slot>,
}

impl View for Store {
    type V = Map<Seq<char>, SlotView>;

    closed spec fn view(&self) -> Map<Seq<char>, SlotView> {
        slots_of(self.store)
    }
}

impl Store {
    /// An empty store.
    pub fn new() -> (s: Store)
        ensures
            s@ == Map::<Seq<char>, SlotView>::empty(),
    {
        Store { store: table_new() }
    }

    /// Applies an ADD: writes the value live at the operation's timestamp unless the key already
    /// holds that timestamp or a later one. Reports whether it wrote, and the timestamp the key
    /// holds afterwards.
    pub fn add(&mut self, operation: &Operation) -> (r: KVResult)
        requires
            operation.value is Some,
        ensures
            final(self)@ == add_spec(
                old(self)@,
                operation.key@,
                operation.value->0@,
                operation.timestamp,
            ),
            r.success == !(old(self)@.contains_key(operation.key@) && !ts_lt(
                old(self)@[operation.key@].1,
                operation.timestamp,
            )),
            r.value is None,
            r.timestamp == Some(final(self)@[operation.key@].1),
    {
        let value = operation.value.as_ref().unwrap();
        let current = table_get(&self.store, &operation.key);
        match current {
            Some(slot) => {
                if !is_newer(&operation.timestamp, &slot.1) {
                    return KVResult { success: false, value: None, timestamp: Some(slot.1) };
                }
            },
            None => {},
        }
        table_insert(&mut self.store, operation.key.clone(), (value.clone(), operation.timestamp, true));
        KVResult { success: true, value: None, timestamp: Some(operation.timestamp) }
    }

    /// Applies a REMOVE: a key held at an older timestamp becomes a tombstone stamped with the
    /// operation's timestamp (an older tombstone is restamped). The result reports success only
    /// when a live value was removed; a missing key, a tombstone, or a value at or after that
    /// timestamp reports failure.
    pub fn remove(&mut self, operation: &Operation) -> (r: KVResult)
        ensures
            final(self)@ == remove_spec(old(self)@, operation.key@, operation.timestamp),
            r.success == remove_applies(old(self)@, operation.key@, operation.timestamp),
            r.value is None,
            r.timestamp == if r.success {
                Some(operation.timestamp)
            } else {
                None
            },
    {
        match table_get(&self.store, &operation.key) {
            Some(slot) => {
                if is_newer(&operation.timestamp, &slot.1) {
                    let was_live = slot.2;
                    table_insert(&mut self.store, operation.key.clone(), (slot.0, operation.timestamp, false));
                    if was_live {
                        KVResult { success: true, value: None, timestamp: Some(operation.timestamp) }
                    } else {
                        KVResult { success: false, value: None, timestamp: None }
                    }
                } else {
                    KVResult { success: false, value: None, timestamp: None }
                }
            },
            None => KVResult { success: false, value: None, timestamp: None },
        }
    }

    /// Reads a key. A live value is returned with its timestamp; a tombstone reads as not found
    /// but still reports its timestamp, so that replicas can be compared; a missing key reports
    /// neither.
    pub fn get(&self, operation: &Operation) -> (r: KVResult)
        ensures
            r.success == (self@.contains_key(operation.key@) && self@[operation.key@].2),
            r.success ==> (r.value matches Some(v) && v@ == self@[operation.key@].0),
            !r.success ==> r.value is None,
            r.timestamp == if self@.contains_key(operation.key@) {
                Some(self@[operation.key@].1)
            } else {
                None
            },
    {
        match table_get(&self.store, &operation.key) {
            Some(slot) => {
                if slot.2 {
                    KVResult { success: true, value: Some(slot.0), timestamp: Some(slot.1) }
                } else {
                    KVResult { success: false, value: None, timestamp: Some(slot.1) }
                }
            },
            None => KVResult { success: false, value: None, timestamp: None },
        }
    }

    /// The whole table, tombstones included, one entry per key in no fixed order.
    pub fn export_store(&self) -> (r: Vec<KvData>)
        ensures
            forall|i: int|
                0 <= i < r@.len() ==> {
                    let d = #[trigger] r@[i];
                    &&& d.timestamp is Some
                    &&& self@.contains_key(d.key@)
                    &&& self@[d.key@] == (d.value@, d.timestamp->0, d.valid)
                },
            forall|k: Seq<char>|
                #[trigger] self@.contains_key(k) ==> exists|i: int| 0 <= i < r@.len() && r@[i].key@ == k,
            forall|i: int, j: int| 0 <= i < j < r@.len() ==> r@[i].key@ != r@[j].key@,
    {
        let entries = table_entries(&self.store);
        let mut result: Vec<KvData> = Vec::new();
        let mut i: usize = 0;
        while i < entries.len()
            invariant
                i <= entries@.len(),
                result@.len() == i,
                forall|j: int|
                    0 <= j < i ==> {
                        let d = #[trigger] result@[j];
                        &&& d.timestamp == Some(entries@[j].1.1)
                        &&& d.key@ == entries@[j].0@
                        &&& d.value@ == entries@[j].1.0@
                        &&& d.valid == entries@[j].1.2
                    },
            decreases entries@.len() - i,
        {
            let (key, slot) = (&entries[i].0, &entries[i].1);
            result.push(
                KvData { key: key.clone(), value: slot.0.clone(), timestamp: Some(slot.1), valid: slot.2 },
            );
            i = i + 1;
        }
        assert forall|k: Seq<char>| #[trigger] self@.contains_key(k) implies exists|i: int|
            0 <= i < result@.len() && result@[i].key@ == k by {
            let j = choose|j: int| 0 <= j < entries@.len() && entries@[j].0@ == k;
            assert(result@[j].key@ == k);
        }
        result
    }

    /// Applies a mutation by its name: ADD (which needs a value) or REMOVE, each under the
    /// timestamp guard. Any other operation changes nothing and reports failure.
    pub fn apply(&mut self, operation: &Operation) -> (r: KVResult)
        ensures
            final(self)@ == apply_spec(
                old(self)@,
                operation.name@,
                operation.key@,
                match operation.value {
                    Some(v) => Some(v@),
                    None => None,
                },
                operation.timestamp,
            ),
            r.value is None,
            operation.name@ == "ADD"@ && operation.value is Some ==> {
                &&& r.success == !(old(self)@.contains_key(operation.key@) && !ts_lt(
                    old(self)@[operation.key@].1,
                    operation.timestamp,
                ))
                &&& r.timestamp == Some(final(self)@[operation.key@].1)
            },
            operation.name@ == "REMOVE"@ ==> {
                &&& r.success == remove_applies(old(self)@, operation.key@, operation.timestamp)
                &&& r.timestamp == if r.success {
                    Some(operation.timestamp)
                } else {
                    None
                }
            },
            !((operation.name@ == "ADD"@ && operation.value is Some) || operation.name@ == "REMOVE"@) ==> (
            !r.success && r.timestamp is None),
    {
        proof {
            reveal_strlit("ADD");
            reveal_strlit("REMOVE");
            assert("ADD"@.len() != "REMOVE"@.len());
        }
        if operation.name == String::from_str("ADD") {
            if operation.value.is_some() {
                self.add(operation)
            } else {
                KVResult { success: false, value: None, timestamp: None }
            }
        } else if operation.name == String::from_str("REMOVE") {
            self.remove(operation)
        } else {
            KVResult { success: false, value: None, timestamp: None }
        }
    }

    /// Replays one log line; reports whether it read as a record.
    pub fn replay_line(&mut self, line: &str) -> (r: bool)
        ensures
            final(self)@ == replay_line_spec(old(self)@, line@),
            r == is_record(line@),
    {
        match parse_aof_log(line) {
            Ok(operation) => {
                self.apply(&operation);
                true
            },
            Err(_) => false,
        }
    }

    /// Replays log lines in order, skipping those that do not read as records. Returns how many
    /// were skipped.
    pub fn replay(&mut self, lines: &Vec<String>) -> (skipped: usize)
        ensures
            final(self)@ == replay_spec(old(self)@, lines@.map_values(|l: String| l@)),
            skipped == unreadable(lines@.map_values(|l: String| l@)),
    {
        let ghost texts = lines@.map_values(|l: String| l@);
        let mut skipped: usize = 0;
        let mut i: usize = 0;
        while i < lines.len()
            invariant
                i <= lines@.len(),
                skipped <= i,
                skipped == unreadable(texts.take(i as int)),
                texts == lines@.map_values(|l: String| l@),
                self@ == replay_spec(old(self)@, texts.take(i as int)),
            decreases lines@.len() - i,
        {
            proof {
                assert(texts.take(i + 1).drop_last() =~= texts.take(i as int));
            }
            if !self.replay_line(lines[i].as_str()) {
                skipped = skipped + 1;
            }
            i = i + 1;
        }
        proof {
            assert(texts.take(lines@.len() as int) =~= texts);
        }
        skipped
    }

    /// Merges a snapshot entry by entry: an entry wins only over an older timestamp or a
    /// missing key; entries without a timestamp are skipped.
    pub fn import_store(&mut self, store: Vec<KvData>)
        ensures
            final(self)@ == import_spec(old(self)@, store@),
    {
        let mut i: usize = 0;
        while i < store.len()
            invariant
                i <= store@.len(),
                self@ == import_spec(old(self)@, store@.subrange(0, i as int)),
            decreases store@.len() - i,
        {
            let d = &store[i];
            proof {
                assert(store@.subrange(0, i + 1).drop_last() =~= store@.subrange(0, i as int));
            }
            match d.timestamp {
                Some(t) => {
                    match table_get(&self.store, &d.key) {
                        Some(slot) => {
                            if is_newer(&t, &slot.1) {
                                table_insert(&mut self.store, d.key.clone(), (d.value.clone(), t, d.valid));
                            }
                        },
                        None => {
                            table_insert(&mut self.store, d.key.clone(), (d.value.clone(), t, d.valid));
                        },
                    }
                },
                None => {},
            }
            i = i + 1;
        }
        proof {
            assert(store@.subrange(0, store@.len() as int) =~= store@);
        }
    }
}

} // verus!
