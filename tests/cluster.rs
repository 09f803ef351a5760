use lally::config::{
    default_aof_flush_interval, default_grpc_port, default_http_port, default_r_quorum, default_w_quorum, CliArgs,
    Config, ConfigError, LogBootstrap,
};
use lally::http_server::{build_operation, Payload};
use lally::lally::Lally;
use lally::operation::Operation;
use lally::pool::{Pool, PoolError};
use lally::quorum::{needed_votes, removal_confirmed, write_outcome, QuorumTally};
use lally::repair::{read_repair, GetKvResponse, RepairPlan};
use lally::store::Store;
use lally::timestamp::Timestamp;

fn ts(seconds: i64) -> Timestamp {
    Timestamp { seconds, nanos: 0 }
}

fn op(name: &str, key: &str, value: Option<&str>, t: Timestamp) -> Operation {
    Operation {
        name: name.to_string(),
        level: "INFO".to_string(),
        key: key.to_string(),
        value: value.map(|v| v.to_string()),
        timestamp: t,
    }
}

fn answer(store: &Store, key: &str) -> GetKvResponse {
    let r = store.get(&op("GET", key, None, ts(0)));
    GetKvResponse { value: r.value, timestamp: r.timestamp }
}

fn repair(plan: &RepairPlan, stores: &mut [(&str, &mut Store)]) {
    let correction = plan.correction.as_ref().unwrap();
    for source in &plan.stale {
        for (name, store) in stores.iter_mut() {
            if name == source {
                store.apply(correction);
            }
        }
    }
}

#[test]
fn two_node_read_repair_spreads_newer_value() {
    let mut n1 = Store::new();
    let mut n2 = Store::new();
    n1.add(&op("ADD", "k", Some("old"), ts(1)));
    n2.add(&op("ADD", "k", Some("old"), ts(1)));
    n2.add(&op("ADD", "k", Some("new"), ts(2)));
    let responses = vec![("n2".to_string(), answer(&n2, "k")), ("local".to_string(), answer(&n1, "k"))];
    let plan = read_repair(&"k".to_string(), &responses);
    assert_eq!(plan.value, Some("new".to_string()));
    assert_eq!(plan.timestamp, Some(ts(2)));
    assert_eq!(plan.stale, vec!["local".to_string()]);
    let correction = plan.correction.as_ref().unwrap();
    assert_eq!(correction.name, "ADD");
    assert_eq!(correction.timestamp, ts(2));
    repair(&plan, &mut [("local", &mut n1), ("n2", &mut n2)]);
    let after = n1.get(&op("GET", "k", None, ts(0)));
    assert_eq!(after.value, Some("new".to_string()));
    assert_eq!(after.timestamp, Some(ts(2)));
}

#[test]
fn tombstone_read_repair_converges_to_not_found() {
    let mut n1 = Store::new();
    let mut n2 = Store::new();
    n1.add(&op("ADD", "k", Some("v"), ts(1)));
    n2.add(&op("ADD", "k", Some("v"), ts(1)));
    n2.remove(&op("REMOVE", "k", None, ts(2)));
    let responses = vec![("local".to_string(), answer(&n1, "k")), ("n2".to_string(), answer(&n2, "k"))];
    let plan = read_repair(&"k".to_string(), &responses);
    assert_eq!(plan.value, None);
    assert_eq!(plan.timestamp, Some(ts(2)));
    assert_eq!(plan.correction.as_ref().unwrap().name, "REMOVE");
    repair(&plan, &mut [("local", &mut n1), ("n2", &mut n2)]);
    let after = n1.get(&op("GET", "k", None, ts(0)));
    assert!(!after.success);
    assert_eq!(after.timestamp, Some(ts(2)));
}

#[test]
fn older_tombstone_is_restamped_so_repair_settles() {
    let mut n1 = Store::new();
    let mut n2 = Store::new();
    n1.add(&op("ADD", "k", Some("v"), ts(1)));
    n1.remove(&op("REMOVE", "k", None, ts(2)));
    n2.add(&op("ADD", "k", Some("v"), ts(1)));
    n2.remove(&op("REMOVE", "k", None, ts(5)));
    let responses = vec![("local".to_string(), answer(&n1, "k")), ("n2".to_string(), answer(&n2, "k"))];
    let plan = read_repair(&"k".to_string(), &responses);
    assert_eq!(plan.stale, vec!["local".to_string()]);
    repair(&plan, &mut [("local", &mut n1), ("n2", &mut n2)]);
    let again = vec![("local".to_string(), answer(&n1, "k")), ("n2".to_string(), answer(&n2, "k"))];
    let second = read_repair(&"k".to_string(), &again);
    assert!(second.stale.is_empty());
    assert_eq!(second.value, None);
}

#[test]
fn repaired_cluster_needs_no_second_repair() {
    let mut a = Store::new();
    let mut b = Store::new();
    let mut c = Store::new();
    a.add(&op("ADD", "k", Some("v1"), ts(1)));
    b.add(&op("ADD", "k", Some("v3"), ts(3)));
    let responses = vec![
        ("a".to_string(), answer(&a, "k")),
        ("b".to_string(), answer(&b, "k")),
        ("c".to_string(), answer(&c, "k")),
    ];
    let plan = read_repair(&"k".to_string(), &responses);
    assert_eq!(plan.stale, vec!["a".to_string(), "c".to_string()]);
    repair(&plan, &mut [("a", &mut a), ("b", &mut b), ("c", &mut c)]);
    let again = vec![
        ("a".to_string(), answer(&a, "k")),
        ("b".to_string(), answer(&b, "k")),
        ("c".to_string(), answer(&c, "k")),
    ];
    let second = read_repair(&"k".to_string(), &again);
    assert!(second.stale.is_empty());
    assert_eq!(second.value, Some("v3".to_string()));
}

#[test]
fn converged_value_is_latest_mutation_in_any_order() {
    let mutations = [op("ADD", "k", Some("a"), ts(1)), op("ADD", "k", Some("c"), ts(3)), op("ADD", "k", Some("b"), ts(2))];
    let orders: [[usize; 3]; 3] = [[0, 1, 2], [2, 1, 0], [1, 0, 2]];
    let mut stores: Vec<Store> = Vec::new();
    for (i, order) in orders.iter().enumerate() {
        let mut s = Store::new();
        for &j in order.iter().take(i + 1) {
            s.apply(&mutations[j]);
        }
        stores.push(s);
    }
    let responses: Vec<(String, GetKvResponse)> =
        stores.iter().enumerate().map(|(i, s)| (format!("n{i}"), answer(s, "k"))).collect();
    let plan = read_repair(&"k".to_string(), &responses);
    assert_eq!(plan.value, Some("c".to_string()));
    let correction = plan.correction.unwrap();
    for (i, s) in stores.iter_mut().enumerate() {
        if plan.stale.contains(&format!("n{i}")) {
            s.apply(&correction);
        }
        assert_eq!(answer(s, "k").value, Some("c".to_string()));
    }
}

#[test]
fn read_repair_without_any_timestamp_is_not_found() {
    let responses = vec![("local".to_string(), GetKvResponse { value: None, timestamp: None })];
    let plan = read_repair(&"k".to_string(), &responses);
    assert_eq!(plan.value, None);
    assert_eq!(plan.timestamp, None);
    assert!(plan.correction.is_none());
    assert!(plan.stale.is_empty());
    let empty = read_repair(&"k".to_string(), &Vec::new());
    assert!(empty.correction.is_none());
}

fn peer_answer(node: &Lally<u32>, key: &str) -> (String, GetKvResponse) {
    let r = node.get_kv(&op("GET", key, None, ts(0)));
    ("10.0.0.2:50071".to_string(), GetKvResponse { value: r.value, timestamp: r.timestamp })
}

#[test]
fn settle_get_repairs_local_store_with_newer_peer_value() {
    let mut n1: Lally<u32> = Lally::new();
    let mut n2: Lally<u32> = Lally::new();
    n1.store.add(&op("ADD", "k", Some("old"), ts(1)));
    n2.store.add(&op("ADD", "k", Some("old"), ts(1)));
    n2.store.add(&op("ADD", "k", Some("new"), ts(2)));
    let plan = n1.settle_get(&op("GET", "k", None, ts(0)), vec![peer_answer(&n2, "k")]);
    assert_eq!(plan.value, Some("new".to_string()));
    assert_eq!(plan.timestamp, Some(ts(2)));
    assert_eq!(plan.stale, vec!["local".to_string()]);
    let after = n1.get_kv(&op("GET", "k", None, ts(0)));
    assert_eq!((after.value, after.timestamp), (Some("new".to_string()), Some(ts(2))));
}

#[test]
fn settle_get_applies_newer_peer_tombstone_locally() {
    let mut n1: Lally<u32> = Lally::new();
    let mut n2: Lally<u32> = Lally::new();
    n1.store.add(&op("ADD", "k", Some("v"), ts(1)));
    n2.store.add(&op("ADD", "k", Some("v"), ts(1)));
    n2.store.remove(&op("REMOVE", "k", None, ts(2)));
    let plan = n1.settle_get(&op("GET", "k", None, ts(0)), vec![peer_answer(&n2, "k")]);
    assert_eq!(plan.value, None);
    assert_eq!(plan.correction.as_ref().unwrap().name, "REMOVE");
    assert_eq!(plan.stale, vec!["local".to_string()]);
    let after = n1.get_kv(&op("GET", "k", None, ts(0)));
    assert!(!after.success);
    assert_eq!(after.timestamp, Some(ts(2)));
    let again = n1.settle_get(&op("GET", "k", None, ts(0)), vec![peer_answer(&n2, "k")]);
    assert!(again.stale.is_empty());
}

#[test]
fn settle_get_leaves_fresh_local_store_alone() {
    let mut n1: Lally<u32> = Lally::new();
    let n2: Lally<u32> = Lally::new();
    n1.store.add(&op("ADD", "k", Some("v"), ts(3)));
    let plan = n1.settle_get(&op("GET", "k", None, ts(0)), vec![peer_answer(&n2, "k")]);
    assert_eq!(plan.value, Some("v".to_string()));
    assert_eq!(plan.stale, vec!["10.0.0.2:50071".to_string()]);
    let nothing = Lally::<u32>::new().settle_get(&op("GET", "k", None, ts(0)), vec![]);
    assert!(nothing.correction.is_none());
}

#[test]
fn pool_single_dial_and_membership() {
    let mut pool: Pool<u32> = Pool::new();
    let addr = "10.0.0.2:50071".to_string();
    assert_eq!(pool.lookup(&addr), None);
    pool.upsert(addr.clone(), 7);
    assert_eq!(pool.lookup(&addr), Some(&7));
    assert_eq!(pool.lookup(&addr), Some(&7));
    pool.upsert("10.0.0.3:50071".to_string(), 8);
    pool.upsert(addr.clone(), 9);
    assert_eq!(pool.len(), 2);
    assert_eq!(pool.get_ips(), vec![addr.clone(), "10.0.0.3:50071".to_string()]);
    assert_eq!(pool.peer(1), (&"10.0.0.3:50071".to_string(), &8));
    assert_eq!(pool.remove(&addr), Ok("Removed Node".to_string()));
    assert_eq!(pool.remove(&addr), Err(PoolError::UnknownNode));
    assert_eq!(pool.get_ips(), vec!["10.0.0.3:50071".to_string()]);
}

#[test]
fn join_registers_new_node_and_copies_store() {
    let mut seed: Lally<u32> = Lally::new();
    seed.store.add(&op("ADD", "a", Some("1"), ts(1)));
    seed.store.add(&op("ADD", "b", Some("x"), ts(1)));
    seed.store.remove(&op("REMOVE", "b", None, ts(2)));
    let peers_before = seed.pool.get_ips();
    let snapshot = seed.store.export_store();
    seed.pool.upsert("10.0.0.9:50071".to_string(), 1);
    assert!(peers_before.is_empty());
    assert_eq!(seed.pool.get_ips(), vec!["10.0.0.9:50071".to_string()]);

    let mut joiner: Lally<u32> = Lally::new();
    joiner.store.import_store(snapshot);
    let b = joiner.get_kv(&op("GET", "b", None, ts(0)));
    assert!(!b.success);
    assert_eq!(b.value, None);
    let a = joiner.get_kv(&op("GET", "a", None, ts(0)));
    assert_eq!(a.value, Some("1".to_string()));
}

#[test]
fn peer_handlers_log_before_applying() {
    let mut node: Lally<u32> = Lally::new();
    node.hooks.register(lally::aol::AppendOnlyLog::new("aof.txt".to_string(), 100));
    let add = op("ADD", "k", Some("v"), ts(1_705_322_096));
    assert!(node.add_kv(&add).success);
    assert!(node.remove_kv(&op("REMOVE", "k", None, ts(1_705_322_097))).success);
    let lines = node.hooks.drain(0);
    assert_eq!(lines.len(), 2);
    assert!(lines[0].starts_with("timestamp=2024-01-15T12:34:56+00:00 operation=ADD"));
    assert!(lines[1].ends_with("operation=REMOVE level=INFO key=\"k\""));
    assert!(node.hooks.drain(0).is_empty());
}

#[test]
fn quorum_tally_stops_at_needed_votes() {
    assert_eq!(needed_votes(3), 2);
    let mut tally: QuorumTally<&str> = QuorumTally::new(2);
    assert!(!tally.is_met());
    assert!(!tally.record(Some("a")));
    assert!(!tally.record(None));
    assert!(tally.record(Some("b")));
    let (votes, met) = tally.finish();
    assert_eq!(votes, vec!["a", "b"]);
    assert!(met);

    let none_needed: QuorumTally<u8> = QuorumTally::new(needed_votes(1));
    assert!(none_needed.is_met());
    let mut short: QuorumTally<u8> = QuorumTally::new(2);
    short.record(Some(1));
    short.record(None);
    assert_eq!(short.finish(), (vec![1], false));
}

#[test]
fn write_outcome_counts_local_vote() {
    let full = write_outcome(3, 2);
    assert_eq!((full.required, full.achieved, full.met), (3, 3, true));
    let partial = write_outcome(3, 1);
    assert_eq!((partial.achieved, partial.met), (2, false));
    assert!(write_outcome(1, 0).met);
}

#[test]
fn removal_confirmed_by_any_node() {
    assert!(removal_confirmed(true, &vec![]));
    assert!(removal_confirmed(false, &vec![false, true]));
    assert!(!removal_confirmed(false, &vec![false, false]));
}

#[test]
fn config_defaults_overrides_and_bootstrap() {
    assert_eq!(default_r_quorum(), 1);
    assert_eq!(default_w_quorum(), 1);
    assert_eq!(default_http_port(), 3000);
    assert_eq!(default_grpc_port(), 50071);
    assert_eq!(default_aof_flush_interval(), 100);
    let mut config = Config::default();
    assert!(matches!(config.log_bootstrap(), Ok(LogBootstrap::Keep)));
    config.apply_cli(&CliArgs {
        config: None,
        fresh: None,
        replay_log: Some("old.txt".to_string()),
        seed_node: Some("10.0.0.1:50071".to_string()),
        http_port: Some(8080),
        grpc_port: None,
        read_quorum: Some(2),
        write_quorum: None,
        aof_flush_interval: Some(250),
    });
    config.set_aof_file("/data/aof.txt".to_string());
    assert_eq!(config.seed_node(), Some("10.0.0.1:50071"));
    assert_eq!(config.http_port(), 8080);
    assert_eq!(config.grpc_port(), 50071);
    assert_eq!(config.read_quorum(), 2);
    assert_eq!(config.write_quorum(), 1);
    assert_eq!(config.aof_flush_interval(), 250);
    assert_eq!(config.aof_file(), "/data/aof.txt");
    match config.log_bootstrap() {
        Ok(LogBootstrap::CopyFrom(p)) => assert_eq!(p, "old.txt"),
        _ => panic!("expected a copy of the replay log"),
    }
    assert!(config.check_quorums().is_ok());
    config.write_quorum = 0;
    assert_eq!(config.check_quorums(), Err(ConfigError::ZeroQuorum));
    config.write_quorum = 1;
    config.fresh = true;
    assert!(matches!(config.log_bootstrap(), Err(ConfigError::FreshWithReplayLog)));
    config.replay_log = None;
    assert!(matches!(config.log_bootstrap(), Ok(LogBootstrap::Truncate)));
}

#[test]
fn node_settings_getters() {
    let c = lally::lally::config::Config {
        fresh: true,
        path: Some("log.txt".to_string()),
        ip: None,
        port: lally::lally::config::default_port(),
        read_quorum: lally::lally::config::default_r_quorum(),
        write_quorum: lally::lally::config::default_w_quorum(),
    };
    assert!(c.fresh());
    assert_eq!(c.path(), Some("log.txt"));
    assert_eq!(c.ip(), None);
    assert_eq!(c.port(), 3000);
    assert_eq!((c.read_quorum(), c.write_quorum()), (1, 1));
}

#[test]
fn build_operation_stamps_request() {
    let payload = Payload { key: "k".to_string(), value: Some("v".to_string()) };
    let o = build_operation(&payload, "ADD");
    assert_eq!(o.key, "k");
    assert_eq!(o.value, Some("v".to_string()));
    assert_eq!(o.level, "INFO");
    assert_eq!(o.name, "ADD");
    assert!(o.timestamp.seconds > 1_700_000_000);
}
