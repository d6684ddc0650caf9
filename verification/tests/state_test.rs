use nm_monitor::json::Json;
use nm_monitor::net_apply::{NetApplyRun, NetEvent, NetStep, ZbusFailure};
use nm_monitor::netconf::NetStatePlugin;
use nm_monitor::state::{
    plan_changes, ApplyAction, ApplyEvent, ApplyResult, ApplyRun, Checkpoint, DiffMetadata, StateAction, StateDiff,
};

fn s(t: &str) -> String {
    t.to_string()
}

fn checkpoint(plugin: &str) -> Checkpoint {
    Checkpoint { id: format!("{plugin}-1"), plugin: s(plugin), timestamp: 1, state_snapshot: Json::Null, backend_checkpoint: None }
}

fn diff(plugin: &str, n: usize) -> StateDiff {
    let actions = (0..n).map(|i| StateAction::Delete { resource: format!("r{i}") }).collect();
    StateDiff {
        plugin: s(plugin),
        actions,
        metadata: DiffMetadata { timestamp: 0, current_hash: s(""), desired_hash: s("") },
    }
}

fn result_ok() -> ApplyResult {
    ApplyResult { success: true, changes_applied: vec![s("done")], errors: Vec::new(), checkpoint: None }
}

#[test]
fn apply_runs_all_phases_for_registered_plugins() {
    let (mut run, a) = ApplyRun::start(vec![s("docker"), s("net")], vec![s("net")]);
    assert!(matches!(a, ApplyAction::CreateCheckpoint(1)));
    let a = run.step(ApplyEvent::CheckpointDone(Ok(checkpoint("net"))));
    assert!(matches!(a, ApplyAction::QueryCurrent(1)));
    let a = run.step(ApplyEvent::CurrentDone(Ok(Json::Null)));
    assert!(matches!(a, ApplyAction::CalculateDiff(1, Json::Null)));
    let a = run.step(ApplyEvent::DiffDone(Ok(diff("net", 2))));
    assert!(matches!(a, ApplyAction::ApplyDiff(0)));
    let a = run.step(ApplyEvent::ApplyDone(Ok(result_ok())));
    assert!(matches!(a, ApplyAction::VerifyState(1)));
    let a = run.step(ApplyEvent::VerifyDone(Ok(true)));
    assert!(matches!(a, ApplyAction::Finish));
    let report = run.outcome().ok().unwrap();
    assert!(report.success);
    assert_eq!(report.results.len(), 1);
    assert_eq!(report.checkpoints.len(), 1);
    assert_eq!(report.checkpoints[0].0, "net");
}

#[test]
fn apply_with_no_changes_finishes_after_diffing() {
    let (mut run, a) = ApplyRun::start(vec![s("net")], vec![s("net")]);
    assert!(matches!(a, ApplyAction::CreateCheckpoint(0)));
    let a = run.step(ApplyEvent::CheckpointDone(Err(s("unsupported"))));
    assert!(matches!(a, ApplyAction::QueryCurrent(0)));
    run.step(ApplyEvent::CurrentDone(Ok(Json::Null)));
    let a = run.step(ApplyEvent::DiffDone(Ok(diff("net", 0))));
    assert!(matches!(a, ApplyAction::Finish));
    let report = run.outcome().ok().unwrap();
    assert!(report.success && report.results.is_empty() && report.checkpoints.is_empty());
}

#[test]
fn failed_apply_rolls_back_latest_first() {
    let (mut run, _) = ApplyRun::start(vec![s("a"), s("b")], vec![s("a"), s("b")]);
    run.step(ApplyEvent::CheckpointDone(Ok(checkpoint("a"))));
    run.step(ApplyEvent::CheckpointDone(Ok(checkpoint("b"))));
    run.step(ApplyEvent::CurrentDone(Ok(Json::Null)));
    run.step(ApplyEvent::DiffDone(Ok(diff("a", 1))));
    run.step(ApplyEvent::CurrentDone(Ok(Json::Null)));
    let a = run.step(ApplyEvent::DiffDone(Ok(diff("b", 1))));
    assert!(matches!(a, ApplyAction::ApplyDiff(0)));
    let a = run.step(ApplyEvent::ApplyDone(Ok(result_ok())));
    assert!(matches!(a, ApplyAction::ApplyDiff(1)));
    let a = run.step(ApplyEvent::ApplyDone(Err(s("write failed"))));
    assert!(matches!(a, ApplyAction::Rollback(1)));
    let a = run.step(ApplyEvent::RollbackDone);
    assert!(matches!(a, ApplyAction::Rollback(0)));
    let a = run.step(ApplyEvent::RollbackDone);
    assert!(matches!(a, ApplyAction::Finish));
    assert_eq!(run.outcome().err().unwrap(), "write failed");
}

#[test]
fn failed_verification_rolls_back() {
    let (mut run, _) = ApplyRun::start(vec![s("a")], vec![s("a")]);
    run.step(ApplyEvent::CheckpointDone(Ok(checkpoint("a"))));
    run.step(ApplyEvent::CurrentDone(Ok(Json::Null)));
    run.step(ApplyEvent::DiffDone(Ok(diff("a", 1))));
    run.step(ApplyEvent::ApplyDone(Ok(result_ok())));
    let a = run.step(ApplyEvent::VerifyDone(Ok(false)));
    assert!(matches!(a, ApplyAction::Rollback(0)));
    let a = run.step(ApplyEvent::RollbackDone);
    assert!(matches!(a, ApplyAction::Finish));
    assert_eq!(run.outcome().err().unwrap(), "State verification failed");
}

#[test]
fn diff_error_ends_without_rollback() {
    let (mut run, _) = ApplyRun::start(vec![s("a")], vec![s("a")]);
    run.step(ApplyEvent::CheckpointDone(Ok(checkpoint("a"))));
    run.step(ApplyEvent::CurrentDone(Ok(Json::Null)));
    let a = run.step(ApplyEvent::DiffDone(Err(s("bad desired state"))));
    assert!(matches!(a, ApplyAction::Finish));
    assert_eq!(run.outcome().err().unwrap(), "bad desired state");
}

#[test]
fn net_apply_records_changes_and_errors() {
    let plugin = NetStatePlugin::new();
    let d = StateDiff {
        plugin: s("net"),
        actions: vec![
            StateAction::Create { resource: s("eth0"), config: Json::Null },
            StateAction::Delete { resource: s("ovsbr1") },
            StateAction::NoOp { resource: s("x") },
            StateAction::Delete { resource: s("eth9") },
        ],
        metadata: DiffMetadata { timestamp: 0, current_hash: s(""), desired_hash: s("") },
    };
    let (mut run, step) = plugin.begin_apply(&d);
    assert!(matches!(step, NetStep::WriteConfig(0)));
    let step = run.step(NetEvent::Wrote(Ok(())));
    match step {
        NetStep::DeleteBridge(b) => assert_eq!(b, "ovsbr1"),
        _ => panic!("expected a bridge deletion"),
    }
    let step = run.step(NetEvent::BridgeDeleted(Err(s("boom"))));
    match step {
        NetStep::RemoveFiles(a, b) => {
            assert_eq!(a, "/etc/systemd/network/10-ovsbr1.network");
            assert_eq!(b, "/etc/systemd/network/10-ovsbr1.netdev");
        },
        _ => panic!("expected file removal"),
    }
    let step = run.step(NetEvent::FilesRemoved);
    match step {
        NetStep::RemoveFiles(a, _) => assert_eq!(a, "/etc/systemd/network/10-eth9.network"),
        _ => panic!("expected file removal"),
    }
    let step = run.step(NetEvent::FilesRemoved);
    assert!(matches!(step, NetStep::ReloadZbus));
    let step = run.step(NetEvent::ZbusReloaded(Err(ZbusFailure::Connect(s("no bus")))));
    assert!(matches!(step, NetStep::ReloadNetworkctl));
    let step = run.step(NetEvent::NetworkctlReloaded(Err(s("exit 1"))));
    assert!(matches!(step, NetStep::Finish));
    let r = run.outcome().ok().unwrap();
    assert!(!r.success);
    assert_eq!(
        r.changes_applied,
        vec![s("Configured interface: eth0"), s("Removed interface config: ovsbr1"), s("Removed interface config: eth9")]
    );
    assert_eq!(r.errors, vec![s("Failed to delete OVS bridge ovsbr1: boom"), s("Failed to reload networkd (zbus=no bus): exit 1")]);
}

#[test]
fn net_apply_invalid_config_is_an_error() {
    let plugin = NetStatePlugin::new();
    let d = StateDiff {
        plugin: s("net"),
        actions: vec![StateAction::Modify { resource: s("eth0"), changes: Json::Null }],
        metadata: DiffMetadata { timestamp: 0, current_hash: s(""), desired_hash: s("") },
    };
    let (mut run, step) = plugin.begin_apply(&d);
    assert!(matches!(step, NetStep::WriteConfig(0)));
    let step = run.step(NetEvent::ConfigInvalid(s("missing field `type`")));
    assert!(matches!(step, NetStep::Finish));
    assert_eq!(run.outcome().err().unwrap(), "missing field `type`");
}

#[test]
fn net_apply_without_changes_does_not_reload() {
    let plugin = NetStatePlugin::new();
    let d = StateDiff {
        plugin: s("net"),
        actions: vec![StateAction::Create { resource: s("eth0"), config: Json::Null }],
        metadata: DiffMetadata { timestamp: 0, current_hash: s(""), desired_hash: s("") },
    };
    let (mut run, _) = plugin.begin_apply(&d);
    let step = run.step(NetEvent::Wrote(Err(s("denied"))));
    assert!(matches!(step, NetStep::Finish));
    let r = run.outcome().ok().unwrap();
    assert!(!r.success);
    assert!(r.changes_applied.is_empty());
    assert_eq!(r.errors, vec![s("Failed to configure eth0: denied")]);
}

fn entry(key: Option<&str>, name: &str, v: i32) -> (Option<String>, String, Json) {
    (key.map(s), s(name), Json::Object(vec![(s("v"), Json::Number(v.to_string()))]))
}

#[test]
fn plan_changes_creates_modifies_and_deletes() {
    let current = vec![entry(Some("a"), "a", 1), entry(Some("b"), "b", 1), entry(None, "x", 1), entry(Some("c"), "c", 5)];
    let desired = vec![entry(Some("a"), "a", 2), entry(Some("c"), "c", 5), entry(Some("d"), "d", 1), entry(Some("d"), "d2", 3)];
    let actions = plan_changes(&current, &desired, "container:");
    assert_eq!(actions.len(), 3);
    match &actions[0] {
        StateAction::Modify { resource, .. } => assert_eq!(resource, "container:a"),
        _ => panic!("expected a modify"),
    }
    match &actions[1] {
        StateAction::Create { resource, config } => {
            assert_eq!(resource, "container:d2");
            assert!(matches!(config, Json::Object(ms) if matches!(&ms[0].1, Json::Number(n) if n == "3")));
        },
        _ => panic!("expected a create"),
    }
    match &actions[2] {
        StateAction::Delete { resource } => assert_eq!(resource, "container:b"),
        _ => panic!("expected a delete"),
    }
}

#[test]
fn diff_metadata_hashes_both_states_with_md5() {
    let m = nm_monitor::state::diff_metadata(5, "{}", "[]");
    assert_eq!(m.timestamp, 5);
    assert_eq!(m.current_hash, "99914b932bd37a50b983c5e7c90ae93b");
    assert_eq!(m.desired_hash, "d751713988987e9331980363e24189ce");
}
