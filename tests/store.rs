use lally::aol::{format_record, AppendOnlyLog};
use lally::operation::{KvData, Operation};
use lally::store::Store;
use lally::timestamp::Timestamp;

fn ts(seconds: i64) -> Timestamp {
    Timestamp { seconds, nanos: 0 }
}

fn op(name: &str, key: &str, value: Option<&str>, t: Timestamp) -> Operation {
    Operation {
        name: name.to_string(),
        level: "INFO".to_string(),
        key: key.to_string(),
        value: value.map(|v| v.to_string()),
        timestamp: t,
    }
}

fn get(store: &Store, key: &str) -> (bool, Option<String>, Option<Timestamp>) {
    let r = store.get(&op("GET", key, None, ts(0)));
    (r.success, r.value, r.timestamp)
}

#[test]
fn single_node_add_get_remove() {
    let mut store = Store::new();
    let t1 = ts(1_705_322_096);
    let t2 = ts(1_705_322_097);
    let added = store.add(&op("ADD", "a", Some("1"), t1));
    assert!(added.success);
    assert_eq!(added.timestamp, Some(t1));
    assert_eq!(get(&store, "a"), (true, Some("1".to_string()), Some(t1)));
    let removed = store.remove(&op("REMOVE", "a", None, t2));
    assert!(removed.success);
    assert_eq!(removed.timestamp, Some(t2));
    let (found, value, stamp) = get(&store, "a");
    assert!(!found);
    assert_eq!(value, None);
    assert_eq!(stamp, Some(t2));
}

#[test]
fn replay_keeps_tombstone_across_restart() {
    let mut log = AppendOnlyLog::new("aof.txt".to_string(), 100);
    let mut store = Store::new();
    let add = op("ADD", "a", Some("1"), ts(1_705_322_096));
    let remove = op("REMOVE", "a", None, ts(1_705_322_097));
    log.invoke(&add);
    store.add(&add);
    log.invoke(&remove);
    store.remove(&remove);
    let lines = log.drain();
    assert_eq!(lines.len(), 2);
    assert!(log.drain().is_empty());

    let mut restarted = Store::new();
    let skipped = restarted.replay(&lines);
    assert_eq!(skipped, 0);
    let (found, value, stamp) = get(&restarted, "a");
    assert!(!found);
    assert_eq!(value, None);
    assert_eq!(stamp, Some(ts(1_705_322_097)));
}

#[test]
fn out_of_order_add_is_suppressed() {
    let mut store = Store::new();
    let t1 = ts(100);
    let t2 = ts(200);
    assert!(store.add(&op("ADD", "k", Some("v1"), t2)).success);
    let late = store.add(&op("ADD", "k", Some("v0"), t1));
    assert!(!late.success);
    assert_eq!(late.timestamp, Some(t2));
    assert_eq!(get(&store, "k"), (true, Some("v1".to_string()), Some(t2)));
}

#[test]
fn equal_timestamp_add_is_suppressed() {
    let mut store = Store::new();
    store.add(&op("ADD", "k", Some("first"), ts(5)));
    assert!(!store.add(&op("ADD", "k", Some("second"), ts(5))).success);
    assert_eq!(get(&store, "k").1, Some("first".to_string()));
}

#[test]
fn stale_mutations_keep_stored_timestamp() {
    let mut store = Store::new();
    store.add(&op("ADD", "k", Some("v"), ts(50)));
    store.add(&op("ADD", "k", Some("w"), ts(40)));
    assert!(!store.remove(&op("REMOVE", "k", None, ts(50))).success);
    assert!(!store.remove(&op("REMOVE", "k", None, ts(10))).success);
    assert_eq!(get(&store, "k"), (true, Some("v".to_string()), Some(ts(50))));
}

#[test]
fn remove_of_missing_or_tombstoned_key_fails() {
    let mut store = Store::new();
    let r = store.remove(&op("REMOVE", "nope", None, ts(1)));
    assert!(!r.success);
    assert_eq!(r.timestamp, None);
    store.add(&op("ADD", "k", Some("v"), ts(1)));
    assert!(store.remove(&op("REMOVE", "k", None, ts(2))).success);
    assert!(!store.remove(&op("REMOVE", "k", None, ts(3))).success);
    assert_eq!(get(&store, "k").2, Some(ts(3)));
    assert!(!store.remove(&op("REMOVE", "k", None, ts(1))).success);
    assert_eq!(get(&store, "k").2, Some(ts(3)));
}

#[test]
fn newer_remove_restamps_tombstone_against_late_add() {
    let mut store = Store::new();
    store.apply(&op("ADD", "k", Some("v1"), ts(1)));
    store.apply(&op("REMOVE", "k", None, ts(2)));
    store.apply(&op("REMOVE", "k", None, ts(4)));
    assert!(!store.apply(&op("ADD", "k", Some("v3"), ts(3))).success);
    assert_eq!(get(&store, "k"), (false, None, Some(ts(4))));
}

#[test]
fn add_after_tombstone_with_newer_timestamp_revives() {
    let mut store = Store::new();
    store.add(&op("ADD", "k", Some("v"), ts(1)));
    store.remove(&op("REMOVE", "k", None, ts(2)));
    assert!(!store.add(&op("ADD", "k", Some("old"), ts(1))).success);
    assert!(store.add(&op("ADD", "k", Some("new"), ts(3))).success);
    assert_eq!(get(&store, "k"), (true, Some("new".to_string()), Some(ts(3))));
}

#[test]
fn apply_dispatches_by_name() {
    let mut store = Store::new();
    assert!(store.apply(&op("ADD", "k", Some("v"), ts(1))).success);
    assert!(!store.apply(&op("ADD", "j", None, ts(1))).success);
    assert!(!store.apply(&op("UPDATE", "k", Some("x"), ts(9))).success);
    assert!(store.apply(&op("REMOVE", "k", None, ts(2))).success);
    assert!(!get(&store, "k").0);
    assert_eq!(get(&store, "j"), (false, None, None));
}

#[test]
fn join_snapshot_import_matches_seed() {
    let mut seed = Store::new();
    seed.add(&op("ADD", "a", Some("1"), ts(10)));
    seed.add(&op("ADD", "b", Some("x"), ts(15)));
    seed.remove(&op("REMOVE", "b", None, ts(20)));
    let snapshot = seed.export_store();
    assert_eq!(snapshot.len(), 2);
    let mut keys: Vec<(String, bool)> = snapshot.iter().map(|d| (d.key.clone(), d.valid)).collect();
    keys.sort();
    assert_eq!(keys, vec![("a".to_string(), true), ("b".to_string(), false)]);

    let mut joiner = Store::new();
    joiner.import_store(snapshot);
    assert_eq!(get(&joiner, "a"), (true, Some("1".to_string()), Some(ts(10))));
    assert_eq!(get(&joiner, "b"), (false, None, Some(ts(20))));
}

#[test]
fn import_keeps_newer_local_entries() {
    let mut store = Store::new();
    store.add(&op("ADD", "k", Some("local"), ts(30)));
    store.import_store(vec![
        KvData { key: "k".to_string(), value: "remote".to_string(), timestamp: Some(ts(20)), valid: true },
        KvData { key: "k".to_string(), value: "tie".to_string(), timestamp: Some(ts(30)), valid: true },
        KvData { key: "n".to_string(), value: "skip".to_string(), timestamp: None, valid: true },
        KvData { key: "m".to_string(), value: "m1".to_string(), timestamp: Some(ts(5)), valid: true },
        KvData { key: "m".to_string(), value: "m2".to_string(), timestamp: Some(ts(6)), valid: false },
    ]);
    assert_eq!(get(&store, "k"), (true, Some("local".to_string()), Some(ts(30))));
    assert_eq!(get(&store, "n"), (false, None, None));
    assert_eq!(get(&store, "m"), (false, None, Some(ts(6))));
}

#[test]
fn log_round_trip_replays_to_same_table() {
    let ops = vec![
        op("ADD", "x", Some("1"), Timestamp { seconds: 1_705_322_096, nanos: 789_000_000 }),
        op("ADD", "y", Some("2"), ts(1_705_322_097)),
        op("ADD", "x", Some("0"), ts(1_705_322_000)),
        op("REMOVE", "y", None, ts(1_705_322_098)),
        op("ADD", "z", Some("3"), ts(1_705_322_099)),
    ];
    let mut direct = Store::new();
    let mut lines = Vec::new();
    for o in &ops {
        direct.apply(o);
        lines.push(format_record(o));
    }
    let mut replayed = Store::new();
    assert_eq!(replayed.replay(&lines), 0);
    for key in ["x", "y", "z", "w"] {
        assert_eq!(get(&replayed, key), get(&direct, key));
    }
    assert_eq!(get(&replayed, "x"), (true, Some("1".to_string()), Some(Timestamp { seconds: 1_705_322_096, nanos: 789_000_000 })));
}

#[test]
fn replay_skips_bad_lines() {
    let lines = vec![
        "".to_string(),
        "   ".to_string(),
        "garbage".to_string(),
        "timestamp=2024-01-15T12:34:56Z operation=ADD level=INFO key=\"k\" value=\"v\"".to_string(),
        "timestamp=not-a-time operation=ADD level=INFO key=\"k\" value=\"w\"".to_string(),
    ];
    let mut store = Store::new();
    assert_eq!(store.replay(&lines), 4);
    assert_eq!(get(&store, "k"), (true, Some("v".to_string()), Some(ts(1_705_322_096))));
}

#[test]
fn latest_mutation_wins_in_any_order() {
    let mutations = [
        op("ADD", "k", Some("a"), ts(1)),
        op("ADD", "k", Some("b"), ts(2)),
        op("REMOVE", "k", None, ts(4)),
        op("ADD", "k", Some("c"), ts(3)),
    ];
    let orders: [[usize; 4]; 5] = [[0, 1, 2, 3], [3, 1, 0, 2], [1, 2, 0, 3], [0, 3, 2, 1], [1, 2, 2, 0]];
    for order in orders {
        let mut store = Store::new();
        for i in order {
            store.apply(&mutations[i]);
        }
        assert_eq!(get(&store, "k"), (false, None, Some(ts(4))));
    }
}

#[test]
fn remove_that_finds_no_live_value_is_lost() {
    let mut store = Store::new();
    store.apply(&op("REMOVE", "k", None, ts(4)));
    store.apply(&op("ADD", "k", Some("a"), ts(1)));
    assert_eq!(get(&store, "k"), (true, Some("a".to_string()), Some(ts(1))));
}
