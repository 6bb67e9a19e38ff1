use device_sync::outbox::local_write_records;
use device_sync::scheduler::SnapshotPolicyState;
use device_sync::outbox::select_pending;
use device_sync::store::{ControlPlane, SyncCursor};
use device_sync::model::{SyncEntity, SyncOperation, SyncOutboxStatus};
use device_sync::outbox::{
    build_outbox_event, is_connect_configured, outbox_due, resolve_payload_key_version, OutboxWriteRequest,
};
use device_sync::store::{
    export_copy_statement, needs_bootstrap, restore_columns, restore_copy_statement, snapshot_table_set, SyncEngineState,
};

fn strings(v: &[&str]) -> Vec<String> {
    v.iter().map(|s| s.to_string()).collect()
}

#[test]
fn outbox_key_version_defaults_to_trusted_max() {
    assert_eq!(resolve_payload_key_version(0, &vec![]), 1);
    assert_eq!(resolve_payload_key_version(0, &vec![3, 10, 7]), 10);
    assert_eq!(resolve_payload_key_version(4, &vec![10]), 4);
    assert_eq!(resolve_payload_key_version(-2, &vec![-5]), 1);
}

#[test]
fn outbox_write_is_noop_without_relay() {
    assert!(!is_connect_configured(None));
    assert!(!is_connect_configured(Some("   ")));
    assert!(is_connect_configured(Some("https://relay.example")));
    let req = OutboxWriteRequest::new(
        SyncEntity::Account,
        "acc-1".to_string(),
        SyncOperation::Create,
        "{\"id\":\"acc-1\"}".to_string(),
        "2026-03-01T10:00:00Z".to_string(),
    );
    assert!(build_outbox_event(req.clone(), false, &vec![2], "evt".to_string(), "now".to_string()).is_none());
    let e = build_outbox_event(req, true, &vec![2], "evt".to_string(), "now".to_string()).unwrap();
    assert_eq!(e.event_id, "evt");
    assert_eq!(e.payload_key_version, 2);
    assert_eq!(e.status, SyncOutboxStatus::Pending);
    assert!(!e.sent);
    assert_eq!(e.retry_count, 0);
    assert!(outbox_due(&e, "2026-03-01T10:00:00Z"));
    let mut later = e.clone();
    later.next_retry_at = Some("2026-03-01T10:05:00Z".to_string());
    assert!(!outbox_due(&later, "2026-03-01T10:00:00Z"));
    assert!(outbox_due(&later, "2026-03-01T10:05:00Z"));
}

#[test]
fn snapshot_tables_must_be_in_catalog() {
    assert_eq!(snapshot_table_set(&vec![]).unwrap().len(), 13);
    assert_eq!(snapshot_table_set(&strings(&["goals", "accounts"])).unwrap(), strings(&["goals", "accounts"]));
    let err = snapshot_table_set(&strings(&["goals", "sqlite_master"])).unwrap_err();
    assert_eq!(err.table, "sqlite_master");
}

#[test]
fn export_statements_filter_calculated_holdings() {
    assert_eq!(export_copy_statement("snap", "accounts"), "CREATE TABLE snap.`accounts` AS SELECT * FROM main.`accounts`");
    assert_eq!(
        export_copy_statement("snap", "holdings_snapshots"),
        "CREATE TABLE snap.`holdings_snapshots` AS SELECT * FROM main.`holdings_snapshots` WHERE source NOT IN ('CALCULATED', 'SYNTHETIC')"
    );
}

#[test]
fn snapshot_restore_uses_common_columns() {
    let target = strings(&["id", "name", "created_at"]);
    let source = strings(&["extra", "name", "id"]);
    assert_eq!(restore_columns(&target, &source), strings(&["id", "name"]));
    assert_eq!(
        restore_copy_statement("assets", "snap", &target, &source).unwrap(),
        "INSERT INTO `assets` (`id`, `name`) SELECT `id`, `name` FROM `snap`.`assets`"
    );
    let err = restore_copy_statement("assets", "snap", &target, &strings(&["other"])).unwrap_err();
    assert_eq!(err.table, "assets");
}

#[test]
fn engine_state_lock_and_errors() {
    let mut st = SyncEngineState::new();
    let v = st.acquire_cycle_lock();
    assert_eq!(v, 1);
    assert!(st.verify_cycle_lock(1));
    assert_eq!(st.acquire_cycle_lock(), 2);
    assert!(!st.verify_cycle_lock(1));
    st.mark_engine_error("boom".to_string());
    st.mark_engine_error("boom".to_string());
    assert_eq!(st.consecutive_failures, 2);
    assert_eq!(st.last_cycle_status.as_deref(), Some("error"));
    st.mark_transfer_completed(false, "t".to_string());
    assert_eq!(st.consecutive_failures, 0);
    assert_eq!(st.last_push_at.as_deref(), Some("t"));
    st.mark_cycle_outcome("push_error".to_string(), 12, Some("later".to_string()));
    assert_eq!(st.next_retry_at.as_deref(), Some("later"));
    assert!(needs_bootstrap(None, true));
    assert!(needs_bootstrap(Some("x"), false));
    assert!(!needs_bootstrap(Some("x"), true));
}

#[test]
fn cursor_advances_and_restore_resets() {
    let mut c = device_sync::store::SyncCursor::new();
    c.advance(10);
    c.advance(5);
    assert_eq!(c.value, 10);
    c.restore(3);
    assert_eq!(c.value, 3);
}

#[test]
fn pending_selection_takes_earliest_due_events() {
    let mk = |id: &str, created: &str, retry: Option<&str>, status: SyncOutboxStatus| {
        let req = OutboxWriteRequest::new(
            SyncEntity::Goal,
            "g".to_string(),
            SyncOperation::Update,
            "{}".to_string(),
            "2026-03-01T10:00:00Z".to_string(),
        );
        let mut e = build_outbox_event(req, true, &vec![], id.to_string(), created.to_string()).unwrap();
        e.next_retry_at = retry.map(|s| s.to_string());
        e.status = status;
        e
    };
    let events = vec![
        mk("a", "2026-03-01T10:00:03Z", None, SyncOutboxStatus::Pending),
        mk("b", "2026-03-01T10:00:01Z", None, SyncOutboxStatus::Pending),
        mk("c", "2026-03-01T10:00:00Z", None, SyncOutboxStatus::Dead),
        mk("d", "2026-03-01T10:00:02Z", Some("2026-03-01T11:00:00Z"), SyncOutboxStatus::Pending),
        mk("e", "2026-03-01T10:00:02Z", None, SyncOutboxStatus::Pending),
    ];
    let now = "2026-03-01T10:30:00Z";
    assert_eq!(select_pending(&events, now, 2), vec![1, 4]);
    assert_eq!(select_pending(&events, now, 10), vec![1, 4, 0]);
    assert_eq!(select_pending(&events, now, 0), Vec::<usize>::new());
}

#[test]
fn restore_settles_control_plane() {
    let mut cp = ControlPlane {
        cursor: SyncCursor { value: 200 },
        outbox_ids: vec!["evt-local".to_string()],
        metadata: vec![],
        applied_ids: vec!["evt-applied-local".to_string()],
    };
    let before = cp.clone();
    cp.settle_restore(false, 600);
    assert_eq!(cp, before);
    cp.settle_restore(true, 123);
    assert_eq!(cp.cursor.value, 123);
    assert!(cp.outbox_ids.is_empty() && cp.metadata.is_empty() && cp.applied_ids.is_empty());
}

#[test]
fn local_write_records_stamp_metadata() {
    let req = OutboxWriteRequest::new(
        SyncEntity::Activity,
        "a1".to_string(),
        SyncOperation::Update,
        "{\"id\":\"a1\",\"amount\":200}".to_string(),
        "2026-03-01T10:00:01Z".to_string(),
    );
    assert!(local_write_records(req.clone(), false, &vec![], "evt-b".to_string(), "now".to_string()).is_none());
    let (e, m) = local_write_records(req, true, &vec![3], "evt-b".to_string(), "now".to_string()).unwrap();
    assert_eq!(e.payload_key_version, 3);
    assert_eq!((m.last_event_id.as_str(), m.last_client_timestamp.as_str(), m.entity_id.as_str()), ("evt-b", "2026-03-01T10:00:01Z", "a1"));
    assert_eq!(m.entity, SyncEntity::Activity);
}

#[test]
fn snapshot_policy_elapsed_time() {
    let mut p = SnapshotPolicyState::new();
    assert_eq!(p.secs_since_upload(100), None);
    assert!(p.is_due(0, 100));
    p.record_upload(100, Some(50), 60);
    assert_eq!(p.secs_since_upload(160), Some(60));
    assert!(!p.is_due(60, 160));
    assert!(p.is_due(1050, 160));
    assert!(p.is_due(60, 100 + 86400));
}
