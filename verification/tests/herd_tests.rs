use buckets::herd::{
    default_check_interval, default_max_restarts, fresh_replica, instance_states, reconcile_replica,
    replica_args, replica_env, restarted, scale_plan, HerdInfo, HerdSpec, HerdState, InstanceStatus,
    Observation, ReplicaAction, RestartPolicy,
};
use buckets::keyed::KeyedMap;

fn spec(net: Option<&str>, command: &[&str]) -> HerdSpec {
    HerdSpec::with_defaults(
        "test".to_string(),
        "node@20".to_string(),
        command.iter().map(|s| s.to_string()).collect(),
        KeyedMap::new(),
        3,
        net.map(|s| s.to_string()),
    )
}

#[test]
fn herd_spec_defaults() {
    let doc: serde_json::Value = serde_json::from_str(
        r#"{
            "name": "test",
            "bucket": "node@20",
            "command": [],
            "env": {},
            "replicas": 3,
            "net": null
        }"#,
    )
    .unwrap();
    let spec = HerdSpec::with_defaults(
        doc["name"].as_str().unwrap().to_string(),
        doc["bucket"].as_str().unwrap().to_string(),
        vec![],
        KeyedMap::new(),
        doc["replicas"].as_u64().unwrap() as u32,
        doc["net"].as_str().map(|s| s.to_string()),
    );
    assert_eq!(spec.check_interval_secs, 5);
    assert_eq!(spec.max_restarts, 10);
    assert_eq!(spec.restart, RestartPolicy::OnFailure);
    assert_eq!(default_check_interval(), 5);
    assert_eq!(default_max_restarts(), 10);
}

#[test]
fn backoff_doubles_up_to_a_minute() {
    let mut e = fresh_replica(100);
    let mut waits = Vec::new();
    for _ in 0..8 {
        let (next, action) = reconcile_replica(RestartPolicy::Always, 10, Some(e), Observation::Exited(Some(1)));
        match action {
            ReplicaAction::Restart { wait_secs } => waits.push(wait_secs),
            other => panic!("expected a restart, got {other:?}"),
        }
        e = restarted(next.unwrap(), 100);
    }
    assert_eq!(waits, vec![1, 2, 4, 8, 16, 32, 60, 60]);
    assert_eq!(e.restart_count, 8);
}

#[test]
fn restart_budget_and_policies() {
    let mut e = fresh_replica(7);
    e.restart_count = 10;
    let (next, action) = reconcile_replica(RestartPolicy::Always, 10, Some(e), Observation::Exited(Some(1)));
    assert_eq!(action, ReplicaAction::GiveUp);
    assert_eq!(next.unwrap().status, InstanceStatus::Failed);
    let f = fresh_replica(7);
    let (_, clean) = reconcile_replica(RestartPolicy::OnFailure, 10, Some(f), Observation::Exited(Some(0)));
    assert_eq!(clean, ReplicaAction::GiveUp);
    let (_, crash) = reconcile_replica(RestartPolicy::OnFailure, 10, Some(f), Observation::Exited(None));
    assert_eq!(crash, ReplicaAction::Restart { wait_secs: 1 });
    let (_, never) = reconcile_replica(RestartPolicy::Never, 10, Some(f), Observation::Exited(Some(1)));
    assert_eq!(never, ReplicaAction::GiveUp);
    assert_eq!(reconcile_replica(RestartPolicy::Never, 10, None, Observation::Missing).1, ReplicaAction::Nothing);
    assert_eq!(reconcile_replica(RestartPolicy::OnFailure, 10, None, Observation::Missing).1, ReplicaAction::Spawn);
    let (alive, nothing) = reconcile_replica(RestartPolicy::OnFailure, 10, Some(f), Observation::Alive);
    assert_eq!(nothing, ReplicaAction::Nothing);
    assert_eq!(alive.unwrap().status, InstanceStatus::Running);
}

#[test]
fn snapshots_report_each_slot() {
    let states = instance_states(&vec![Some(fresh_replica(42)), None, Some(fresh_replica(43))], &vec![false, false, true]);
    assert_eq!(states.len(), 3);
    assert_eq!(states[0].pid, Some(42));
    assert_eq!(states[0].status, InstanceStatus::Running);
    assert_eq!(states[1].status, InstanceStatus::Stopped);
    assert_eq!(states[1].index, 1);
    assert_eq!(states[2].status, InstanceStatus::Failed);
}

#[test]
fn scaling_touches_only_the_difference() {
    let up = scale_plan(3, 5);
    assert_eq!((up.start_from, up.start_to, up.stop_from, up.stop_to), (3, 5, 5, 5));
    let down = scale_plan(5, 2);
    assert_eq!((down.start_from, down.start_to, down.stop_from, down.stop_to), (2, 2, 2, 5));
}

#[test]
fn replica_command_line_and_env() {
    assert_eq!(replica_args(&spec(Some("herd-net"), &["node", "w.js"])), vec!["run", "--net", "herd-net", "node@20", "--", "node", "w.js"]);
    assert_eq!(replica_args(&spec(None, &[])), vec!["run", "node@20"]);
    let mut s = spec(None, &[]);
    s.env.insert("HERD_NAME".to_string(), "overridden".to_string());
    s.env.insert("A".to_string(), "1".to_string());
    let env = replica_env(&s, 2);
    assert_eq!(env.get("A").unwrap(), "1");
    assert_eq!(env.get("HERD_REPLICA_INDEX").unwrap(), "2");
    assert_eq!(env.get("HERD_NAME").unwrap(), "test");
}

#[test]
fn herd_info_from_state() {
    let state = HerdState { spec: spec(Some("n"), &[]), instances: vec![] };
    let info = HerdInfo::from_state(state);
    assert_eq!(info.name, "test");
    assert_eq!(info.bucket, "node@20");
    assert_eq!(info.replicas, 3);
    assert_eq!(info.net.as_deref(), Some("n"));
}
