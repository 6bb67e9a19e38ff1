use device_sync::lww::local_write_metadata;
use device_sync::outbox::{build_outbox_event, OutboxWriteRequest};
use device_sync::cycle::{
    advance_cursor, cycle_result, is_stale_cursor, plan_pull_failure, plan_push_failure, prune_cutoff, screen_pull_batch,
    screen_pulled_event, sent_event_ids, CycleStatus, OutboxDisposition, PulledDisposition, PulledEvent, PushErrorCode,
};
use device_sync::lww::{replay_should_apply, should_apply_lww};
use device_sync::model::{
    event_type_name, is_sync_table, parse_event_operation, sync_entity_from_name, sync_entity_name, SyncEntity,
    SyncEntityMetadata, SyncOperation,
};
use device_sync::retry::{
    backoff_seconds, classify_http_status, is_retryable_snapshot_status, snapshot_backoff_ms, ApiRetryClass,
    DeviceSyncError, SyncRetryClass,
};
use device_sync::scheduler::{jitter_ms, next_delay_ms, snapshot_due, LoopAction, LoopState};
use device_sync::sql::{
    escape_sqlite_str, json_value_to_sql_literal, quote_identifier, replay_statement, validate_payload_columns, JsonValue,
    ReplayError,
};

#[test]
fn classify_http_status_for_retry_policy() {
    assert_eq!(classify_http_status(500), SyncRetryClass::Retryable);
    assert_eq!(classify_http_status(429), SyncRetryClass::Retryable);
    assert_eq!(classify_http_status(401), SyncRetryClass::ReauthRequired);
    assert_eq!(classify_http_status(400), SyncRetryClass::Permanent);
}

#[test]
fn backoff_is_exponential_and_capped() {
    assert_eq!(backoff_seconds(0), 5);
    assert_eq!(backoff_seconds(1), 10);
    assert_eq!(backoff_seconds(2), 20);
    assert_eq!(backoff_seconds(9), backoff_seconds(8));
}

#[test]
fn backoff_cap_and_negative_input() {
    assert_eq!(backoff_seconds(8), 1280);
    assert_eq!(backoff_seconds(100), 1280);
    assert_eq!(backoff_seconds(-3), 5);
}

#[test]
fn snapshot_status_retry_and_backoff() {
    assert!(is_retryable_snapshot_status(408));
    assert!(is_retryable_snapshot_status(503));
    assert!(!is_retryable_snapshot_status(409));
    assert_eq!(snapshot_backoff_ms(1), 250);
    assert_eq!(snapshot_backoff_ms(2), 500);
    assert_eq!(snapshot_backoff_ms(6), 8000);
}

#[test]
fn snapshot_validation_error_detected() {
    let err = DeviceSyncError::api(
        400,
        "Request failed: {\"path\":[\"snapshotId\"],\"message\":\"Invalid UUID\"}".to_string(),
    );
    assert!(err.is_snapshot_id_validation_error());
    assert!(!DeviceSyncError::api(500, "snapshotId Invalid UUID".to_string()).is_snapshot_id_validation_error());
}

#[test]
fn retry_class_for_auth_error_is_reauth() {
    let err = DeviceSyncError::api(401, "unauthorized".to_string());
    assert_eq!(err.retry_class(), ApiRetryClass::ReauthRequired);
    assert_eq!(DeviceSyncError::Http("timeout".to_string()).retry_class(), ApiRetryClass::Retryable);
    assert_eq!(DeviceSyncError::Json("bad".to_string()).retry_class(), ApiRetryClass::Permanent);
}

#[test]
fn lww_newer_timestamp_wins() {
    assert!(should_apply_lww("2026-01-01T00:00:00.000Z", "a", "2026-01-01T00:00:01.000Z", "b"));
}

#[test]
fn lww_event_id_tiebreaker() {
    assert!(should_apply_lww("2026-01-01T00:00:00.000Z", "0001", "2026-01-01T00:00:00.000Z", "0002"));
}

#[test]
fn lww_uses_timestamp_value_not_lexical_format() {
    assert!(should_apply_lww("2026-01-01T01:00:00+01:00", "0001", "2026-01-01T00:00:00Z", "0002"));
}

#[test]
fn lww_equal_timestamp_lower_id_loses() {
    assert!(!should_apply_lww("2026-03-01T10:00:00.000Z", "0002", "2026-03-01T10:00:00.000Z", "0001"));
    assert!(!should_apply_lww("2026-03-01T10:00:00.000Z", "0001", "2026-03-01T10:00:00.000Z", "0001"));
}

#[test]
fn lww_older_timestamp_loses_and_malformed_falls_back_to_text() {
    assert!(!should_apply_lww("2026-03-01T10:00:01Z", "a", "2026-03-01T10:00:00Z", "b"));
    assert!(should_apply_lww("not-a-time", "a", "the-next", "b"));
    assert!(!should_apply_lww("b", "x", "a", "y"));
}

#[test]
fn sync_entity_serialization_matches_backend_contract() {
    let actual: Vec<&str> = [
        SyncEntity::Account,
        SyncEntity::Asset,
        SyncEntity::AssetTaxonomyAssignment,
        SyncEntity::Activity,
        SyncEntity::ActivityImportProfile,
        SyncEntity::Goal,
        SyncEntity::GoalsAllocation,
        SyncEntity::AiThread,
        SyncEntity::AiMessage,
        SyncEntity::AiThreadTag,
        SyncEntity::ContributionLimit,
        SyncEntity::Platform,
        SyncEntity::Snapshot,
    ]
    .iter()
    .map(sync_entity_name)
    .collect();
    let expected = vec![
        "account",
        "asset",
        "asset_taxonomy_assignment",
        "activity",
        "activity_import_profile",
        "goal",
        "goals_allocation",
        "ai_thread",
        "ai_message",
        "ai_thread_tag",
        "contribution_limit",
        "platform",
        "snapshot",
    ];
    assert_eq!(actual, expected);
    for name in expected {
        assert_eq!(sync_entity_name(&sync_entity_from_name(name).unwrap()), name);
    }
    assert_eq!(sync_entity_from_name("invoice"), None);
}

#[test]
fn event_type_round_trip() {
    let t = event_type_name(&SyncEntity::Activity, &SyncOperation::Update);
    assert_eq!(t, "activity.update.v1");
    assert_eq!(parse_event_operation(&t), Some(SyncOperation::Update));
    assert_eq!(parse_event_operation("goal.delete.v1"), Some(SyncOperation::Delete));
    assert_eq!(parse_event_operation("goal"), None);
    assert_eq!(parse_event_operation("goal.archive.v1"), None);
    assert!(is_sync_table("holdings_snapshots"));
    assert!(!is_sync_table("sync_outbox"));
}

#[test]
fn quote_identifier_escapes_backticks() {
    assert_eq!(quote_identifier("col`name"), "`col``name`");
}

#[test]
fn escape_sqlite_str_escapes_single_quotes() {
    assert_eq!(escape_sqlite_str("O'Brien"), "O''Brien");
}

#[test]
fn json_value_to_sql_literal_handles_injection_attempt() {
    let malicious = JsonValue::Str("'; DROP TABLE accounts; --".to_string());
    let sql = json_value_to_sql_literal(&malicious);
    assert_eq!(sql, "'''; DROP TABLE accounts; --'");
}

#[test]
fn sql_literals_for_each_json_kind() {
    assert_eq!(json_value_to_sql_literal(&JsonValue::Null), "NULL");
    assert_eq!(json_value_to_sql_literal(&JsonValue::Bool(true)), "1");
    assert_eq!(json_value_to_sql_literal(&JsonValue::Bool(false)), "0");
    assert_eq!(json_value_to_sql_literal(&JsonValue::Number("12.5".to_string())), "12.5");
    assert_eq!(json_value_to_sql_literal(&JsonValue::Object("{\"a\":\"b'c\"}".to_string())), "'{\"a\":\"b''c\"}'");
}

fn cols(names: &[&str]) -> Vec<String> {
    names.iter().map(|s| s.to_string()).collect()
}

#[test]
fn replay_rejects_unknown_columns() {
    let fields = vec![
        ("name".to_string(), JsonValue::Str("x".to_string())),
        ("nonexistent_column".to_string(), JsonValue::Str("value".to_string())),
    ];
    let known = cols(&["id", "name"]);
    let result = replay_statement(SyncEntity::Account, "acc-unknown-col", SyncOperation::Create, Some(&fields), &known);
    match result {
        Err(ReplayError::UnknownColumn { column, table }) => {
            assert_eq!(column, "nonexistent_column");
            assert_eq!(table, "accounts");
        }
        other => panic!("expected unknown column error, got {:?}", other),
    }
    assert!(validate_payload_columns("accounts", &fields, &known).is_err());
}

#[test]
fn replay_rejects_payload_with_mismatched_pk() {
    let fields = vec![("id".to_string(), JsonValue::Str("different-account-id".to_string()))];
    let known = cols(&["id", "name"]);
    let result = replay_statement(SyncEntity::Account, "account-entity-id", SyncOperation::Update, Some(&fields), &known);
    assert!(matches!(result, Err(ReplayError::PrimaryKeyMismatch { .. })));
}

#[test]
fn replay_upsert_and_delete_statements() {
    let fields = vec![
        ("name".to_string(), JsonValue::Str("O'Hare".to_string())),
        ("is_active".to_string(), JsonValue::Bool(true)),
    ];
    let known = cols(&["id", "name", "is_active"]);
    let sql = replay_statement(SyncEntity::Platform, "p1", SyncOperation::Create, Some(&fields), &known).unwrap();
    assert_eq!(
        sql,
        "INSERT INTO `platforms` (`name`, `is_active`, `id`) VALUES ('O''Hare', 1, 'p1') ON CONFLICT(`id`) DO UPDATE SET `name`=excluded.`name`, `is_active`=excluded.`is_active`, `id`=excluded.`id`"
    );
    let del = replay_statement(SyncEntity::ActivityImportProfile, "a'1", SyncOperation::Delete, None, &known).unwrap();
    assert_eq!(del, "DELETE FROM `activity_import_profiles` WHERE `account_id` = 'a''1'");
    assert_eq!(
        replay_statement(SyncEntity::Goal, "g1", SyncOperation::Update, None, &known),
        Err(ReplayError::PayloadNotObject)
    );
}

fn meta(ts: &str, id: &str) -> SyncEntityMetadata {
    SyncEntityMetadata {
        entity: SyncEntity::Goal,
        entity_id: "g1".to_string(),
        last_event_id: id.to_string(),
        last_client_timestamp: ts.to_string(),
        last_seq: 1,
    }
}

#[test]
fn replay_decision_idempotent_and_tie_break() {
    assert!(replay_should_apply(false, None, "2026-03-01T10:00:00.000Z", "0001"));
    assert!(!replay_should_apply(true, None, "2026-03-01T10:00:00.000Z", "0001"));
    let m = meta("2026-03-01T10:00:00.000Z", "0001");
    assert!(replay_should_apply(false, Some(&m), "2026-03-01T10:00:00.000Z", "0002"));
    let m2 = meta("2026-03-01T10:00:00.000Z", "0002");
    assert!(!replay_should_apply(false, Some(&m2), "2026-03-01T10:00:00.000Z", "0001"));
}

#[test]
fn stale_cursor_boundary() {
    assert!(!is_stale_cursor(500, Some(500)));
    assert!(is_stale_cursor(200, Some(500)));
    assert!(!is_stale_cursor(200, None));
    let r = cycle_result(CycleStatus::StaleCursor, 3, 0, 0, 200);
    assert_eq!(r.status, "stale_cursor");
    assert!(r.needs_bootstrap);
    let ok = cycle_result(CycleStatus::Success, 3, 1, 2, 600);
    assert_eq!(ok.status, "ok");
    assert!(!ok.needs_bootstrap);
}

#[test]
fn cursor_only_moves_forward() {
    assert_eq!(advance_cursor(10, 20), 20);
    assert_eq!(advance_cursor(20, 10), 20);
    assert_eq!(prune_cutoff(20000), None);
    assert_eq!(prune_cutoff(25000), Some(15000));
}

#[test]
fn key_version_mismatch_kills_outbox() {
    let err = DeviceSyncError::api(400, "KEY_VERSION_MISMATCH: payload key version 1 is stale".to_string());
    let plan = plan_push_failure(&err, 2);
    assert_eq!(plan.outbox, OutboxDisposition::Dead);
    assert_eq!(plan.code, PushErrorCode::KeyVersionMismatch);
    assert_eq!(plan.code.as_str(), "key_version_mismatch");
    assert_eq!(plan.status, CycleStatus::KeyVersionMismatch);
    assert_eq!(plan.status.as_str(), "key_version_mismatch");
    assert_eq!(plan.retry_secs, None);
}

#[test]
fn push_failure_classes() {
    let auth = plan_push_failure(&DeviceSyncError::api(401, "no".to_string()), 0);
    assert_eq!(auth.outbox, OutboxDisposition::RetryAfter(30));
    assert_eq!(auth.status, CycleStatus::AuthError);
    let retry = plan_push_failure(&DeviceSyncError::api(503, "busy".to_string()), 2);
    assert_eq!(retry.outbox, OutboxDisposition::RetryAfter(20));
    assert_eq!(retry.status, CycleStatus::PushError);
    assert_eq!(retry.retry_secs, Some(20));
    let perm = plan_push_failure(&DeviceSyncError::api(400, "bad".to_string()), 2);
    assert_eq!(perm.outbox, OutboxDisposition::Dead);
    assert_eq!(perm.code.as_str(), "permanent");
    assert_eq!(plan_pull_failure(&DeviceSyncError::api(403, "x".to_string())), (CycleStatus::AuthError, 30));
    assert_eq!(plan_pull_failure(&DeviceSyncError::Http("x".to_string())), (CycleStatus::PullError, 10));
    assert_eq!(sent_event_ids(vec!["a".to_string()], vec!["b".to_string()]), vec!["a".to_string(), "b".to_string()]);
}

fn pulled(device: &str, entity: &str, event_type: &str) -> PulledEvent {
    PulledEvent {
        event_id: "e".to_string(),
        seq: 1,
        device_id: device.to_string(),
        event_type: event_type.to_string(),
        entity: entity.to_string(),
        entity_id: "x".to_string(),
        client_timestamp: "2026-03-01T10:00:00Z".to_string(),
        payload: String::new(),
        payload_key_version: 1,
    }
}

#[test]
fn replay_blocked_on_unknown_event_type() {
    let events = vec![
        pulled("other", "goal", "goal.update.v1"),
        pulled("other", "invoice", "invoice.create.v1"),
    ];
    assert_eq!(screen_pull_batch(&events, "me"), Err(1));
    assert_eq!(screen_pulled_event(&events[0], "me"), PulledDisposition::Replay(SyncEntity::Goal, SyncOperation::Update));
    assert_eq!(screen_pulled_event(&pulled("me", "goal", "goal.update.v1"), "me"), PulledDisposition::SkipOwn);
    assert_eq!(screen_pulled_event(&pulled("o", "snapshot", "snapshot.request.v1"), "me"), PulledDisposition::SkipSnapshot);
    assert_eq!(screen_pulled_event(&pulled("o", "goal", "goal.frobnicate.v1"), "me"), PulledDisposition::Blocked);
}

#[test]
fn scheduler_delay_and_stop() {
    assert_eq!(jitter_ms(12345), 2345);
    assert_eq!(next_delay_ms(100, None, false), 45100);
    assert_eq!(next_delay_ms(100, Some(0), false), 1000);
    assert_eq!(next_delay_ms(100, Some(5000), false), 5100);
    assert_eq!(next_delay_ms(700, None, true), 2200);
    let mut st = LoopState::new();
    for _ in 0..4 {
        assert_eq!(st.after_cycle(Some(CycleStatus::NotReady), false), LoopAction::Continue { evaluate_snapshot_policy: false });
    }
    assert_eq!(st.after_cycle(Some(CycleStatus::ConfigError), false), LoopAction::Stop);
    let mut st = LoopState::new();
    assert_eq!(st.after_cycle(Some(CycleStatus::NotReady), true), LoopAction::Stop);
    assert_eq!(st.after_cycle(Some(CycleStatus::Success), false), LoopAction::Continue { evaluate_snapshot_policy: true });
    assert_eq!(st.consecutive_not_ready, 0);
}

#[test]
fn snapshot_policy_thresholds() {
    assert!(snapshot_due(0, 0, None));
    assert!(!snapshot_due(999, 0, Some(10)));
    assert!(snapshot_due(1000, 0, Some(10)));
    assert!(snapshot_due(5, 0, Some(86400)));
}

use device_sync::cycle::{effective_key_version, CycleAction, CycleInput, CycleMachine, PulledPage};
use device_sync::options::{OccSymbolError, OptionType};
use device_sync::retry::{
    retry_class_code, should_retry_snapshot_upload, snapshot_backoff_with_jitter, snapshot_jitter_bound_ms,
};

fn run_to_push(m: &mut CycleMachine, lock: i64, cursor: i64, remote: i64, gc: Option<i64>) -> CycleAction {
    assert_eq!(m.step(CycleInput::Identity { has_device_id: true }), CycleAction::ReadSyncState);
    assert_eq!(m.step(CycleInput::SyncState(Some(true))), CycleAction::ReadAccessToken);
    assert_eq!(m.step(CycleInput::AccessToken(true)), CycleAction::AcquireLock);
    assert_eq!(m.step(CycleInput::Lock { version: lock, cursor }), CycleAction::FetchRemoteCursor);
    m.step(CycleInput::RemoteCursor(Some((remote, gc))))
}

#[test]
fn stale_cursor_cycle_then_bootstrap_then_ok() {
    let mut m = CycleMachine::new(200);
    match run_to_push(&mut m, 3, 200, 700, Some(500)) {
        CycleAction::Finish(f) => {
            assert_eq!(f.status, CycleStatus::StaleCursor);
            assert_eq!(f.retry_secs, None);
            let r = m.result(f.status);
            assert_eq!(r.status, "stale_cursor");
            assert!(r.needs_bootstrap);
            assert_eq!(r.cursor, 200);
        }
        other => panic!("expected finish, got {:?}", other),
    }
    let mut m = CycleMachine::new(600);
    assert_eq!(run_to_push(&mut m, 4, 600, 600, Some(500)), CycleAction::PreparePush);
    assert_eq!(
        m.step(CycleInput::PushPrepared { encrypted: true, count: 0, max_retry_count: 0 }),
        CycleAction::VerifyLock
    );
    match m.step(CycleInput::LockHeld(true)) {
        CycleAction::Finish(f) => {
            assert_eq!(f.status, CycleStatus::Success);
            let r = m.result(f.status);
            assert_eq!(r.status, "ok");
            assert_eq!(r.pulled_count, 0);
            assert_eq!(r.cursor, 600);
        }
        other => panic!("expected finish, got {:?}", other),
    }
}

#[test]
fn cycle_blocked_replay_keeps_cursor() {
    let mut m = CycleMachine::new(10);
    assert_eq!(run_to_push(&mut m, 1, 10, 20, None), CycleAction::PreparePush);
    m.step(CycleInput::PushPrepared { encrypted: true, count: 0, max_retry_count: 0 });
    assert_eq!(m.step(CycleInput::LockHeld(true)), CycleAction::Pull { since: 10 });
    let page = PulledPage { next_cursor: 20, has_more: false, gc_watermark: None, blocked: true, decoded: true };
    match m.step(CycleInput::Pulled(Ok(page))) {
        CycleAction::Finish(f) => {
            assert_eq!(f.status, CycleStatus::ReplayBlocked);
            assert_eq!(f.retry_secs, Some(6 * 60 * 60));
            assert_eq!(m.result(f.status).cursor, 10);
        }
        other => panic!("expected finish, got {:?}", other),
    }
}

#[test]
fn cycle_pulls_applies_and_stores_cursor() {
    let mut m = CycleMachine::new(10);
    run_to_push(&mut m, 1, 10, 30, None);
    assert_eq!(m.step(CycleInput::PushPrepared { encrypted: true, count: 2, max_retry_count: 1 }), CycleAction::Push);
    assert_eq!(m.step(CycleInput::PushResult(Ok(2))), CycleAction::VerifyLock);
    assert_eq!(m.step(CycleInput::LockHeld(true)), CycleAction::Pull { since: 10 });
    let page = PulledPage { next_cursor: 20, has_more: true, gc_watermark: Some(5), blocked: false, decoded: true };
    assert_eq!(m.step(CycleInput::Pulled(Ok(page))), CycleAction::ApplyBatch);
    assert_eq!(m.step(CycleInput::Applied(Some(3))), CycleAction::StoreCursor { cursor: 20 });
    assert_eq!(m.step(CycleInput::CursorStored), CycleAction::Pull { since: 20 });
    assert_eq!(m.step(CycleInput::Pulled(Ok(PulledPage { next_cursor: 30, has_more: false, gc_watermark: None, blocked: false, decoded: true }))), CycleAction::ApplyBatch);
    assert_eq!(m.step(CycleInput::Applied(Some(1))), CycleAction::StoreCursor { cursor: 30 });
    match m.step(CycleInput::CursorStored) {
        CycleAction::Finish(f) => {
            assert_eq!(f.status, CycleStatus::Success);
            let r = m.result(f.status);
            assert_eq!((r.pushed_count, r.pulled_count, r.cursor), (2, 4, 30));
        }
        other => panic!("expected finish, got {:?}", other),
    }
}

#[test]
fn cycle_key_version_mismatch_marks_batch_dead() {
    let mut m = CycleMachine::new(0);
    run_to_push(&mut m, 1, 0, 0, None);
    m.step(CycleInput::PushPrepared { encrypted: true, count: 3, max_retry_count: 0 });
    let err = DeviceSyncError::api(409, "KEY_VERSION_MISMATCH: rotate".to_string());
    match m.step(CycleInput::PushResult(Err(err))) {
        CycleAction::Finish(f) => {
            assert_eq!(f.status, CycleStatus::KeyVersionMismatch);
            let plan = f.outbox.unwrap();
            assert_eq!(plan.outbox, OutboxDisposition::Dead);
            assert_eq!(plan.code.as_str(), "key_version_mismatch");
        }
        other => panic!("expected finish, got {:?}", other),
    }
}

#[test]
fn cycle_lost_lock_is_preempted() {
    let mut m = CycleMachine::new(5);
    run_to_push(&mut m, 2, 5, 9, None);
    m.step(CycleInput::PushPrepared { encrypted: true, count: 0, max_retry_count: 0 });
    match m.step(CycleInput::LockHeld(false)) {
        CycleAction::Finish(f) => {
            assert_eq!(f.status, CycleStatus::Preempted);
            assert!(!f.record_error);
            assert_eq!(m.result(f.status).cursor, 5);
        }
        other => panic!("expected finish, got {:?}", other),
    }
}

#[test]
fn cycle_prunes_applied_log_past_twenty_thousand() {
    let mut m = CycleMachine::new(25000);
    run_to_push(&mut m, 1, 25000, 25000, None);
    m.step(CycleInput::PushPrepared { encrypted: true, count: 0, max_retry_count: 0 });
    assert_eq!(m.step(CycleInput::LockHeld(true)), CycleAction::Prune { up_to_seq: 15000 });
    match m.step(CycleInput::Pruned) {
        CycleAction::Finish(f) => assert_eq!(f.status, CycleStatus::Success),
        other => panic!("expected finish, got {:?}", other),
    }
}

#[test]
fn cycle_not_ready_and_missing_identity() {
    let mut m = CycleMachine::new(7);
    m.step(CycleInput::Identity { has_device_id: true });
    match m.step(CycleInput::SyncState(Some(false))) {
        CycleAction::Finish(f) => assert_eq!(f.status, CycleStatus::NotReady),
        other => panic!("expected finish, got {:?}", other),
    }
    let mut m = CycleMachine::new(7);
    match m.step(CycleInput::Identity { has_device_id: false }) {
        CycleAction::Finish(f) => assert_eq!(f.status, CycleStatus::ConfigError),
        other => panic!("expected finish, got {:?}", other),
    }
}

#[test]
fn small_helpers() {
    assert_eq!(effective_key_version(0), 1);
    assert_eq!(effective_key_version(3), 3);
    assert_eq!(OptionType::Call.as_char(), 'C');
    assert_eq!(OptionType::Put.as_char(), 'P');
    assert_eq!(OptionType::try_from_char('p'), Ok(OptionType::Put));
    assert_eq!(OptionType::try_from_char('X'), Err(OccSymbolError::InvalidOptionType('X')));
    assert_eq!(retry_class_code(ApiRetryClass::ReauthRequired), "reauth_required");
    assert_eq!(
        DeviceSyncError::invalid_request("bad".to_string()),
        DeviceSyncError::InvalidRequest("bad".to_string())
    );
    assert_eq!(DeviceSyncError::api(404, "x".to_string()).status_code(), Some(404));
}

fn meta_for(entity: SyncEntity, id: &str, ts: &str, event_id: &str) -> SyncEntityMetadata {
    SyncEntityMetadata {
        entity,
        entity_id: id.to_string(),
        last_event_id: event_id.to_string(),
        last_client_timestamp: ts.to_string(),
        last_seq: 0,
    }
}

#[test]
fn two_device_convergence() {
    let create_ts = "2026-03-01T10:00:00Z";
    let update_ts = "2026-03-01T10:00:01Z";
    // Device A applied its own create, then pulls B's update: it wins.
    let a_meta = meta_for(SyncEntity::Activity, "a1", create_ts, "evt-a");
    assert!(replay_should_apply(false, Some(&a_meta), update_ts, "evt-b"));
    // Device B applied its own update, then pulls A's create: it loses.
    let b_meta = meta_for(SyncEntity::Activity, "a1", update_ts, "evt-b");
    assert!(!replay_should_apply(false, Some(&b_meta), create_ts, "evt-a"));
    // Both end with amount 200 and metadata at the update's timestamp.
    let fields = vec![
        ("id".to_string(), JsonValue::Str("a1".to_string())),
        ("amount".to_string(), JsonValue::Number("200".to_string())),
    ];
    let sql = replay_statement(SyncEntity::Activity, "a1", SyncOperation::Update, Some(&fields), &cols(&["id", "amount"]))
        .unwrap();
    assert_eq!(
        sql,
        "INSERT INTO `activities` (`id`, `amount`) VALUES ('a1', 200) ON CONFLICT(`id`) DO UPDATE SET `id`=excluded.`id`, `amount`=excluded.`amount`"
    );
}

#[test]
fn lww_tie_break_converges() {
    let ts = "2026-03-01T10:00:00.000Z";
    // Device 1 holds 0001 and receives 0002: applies.
    assert!(replay_should_apply(false, Some(&meta_for(SyncEntity::Goal, "g1", ts, "0001")), ts, "0002"));
    // Device 2 holds 0002 and receives 0001: keeps 0002.
    assert!(!replay_should_apply(false, Some(&meta_for(SyncEntity::Goal, "g1", ts, "0002")), ts, "0001"));
}

#[test]
fn snapshot_upload_retry_decisions() {
    assert!(should_retry_snapshot_upload(is_retryable_snapshot_status(500), 1));
    assert!(!should_retry_snapshot_upload(is_retryable_snapshot_status(400), 1));
    assert!(!should_retry_snapshot_upload(true, 5));
    assert_eq!(snapshot_jitter_bound_ms(250), 50);
    assert_eq!(snapshot_backoff_with_jitter(1, 20), 270);
}

#[test]
fn local_write_metadata_protects_newer_local_update() {
    let req = OutboxWriteRequest::new(
        SyncEntity::Activity,
        "a1".to_string(),
        SyncOperation::Update,
        "{\"id\":\"a1\",\"amount\":200}".to_string(),
        "2026-03-01T10:00:01Z".to_string(),
    );
    let local = build_outbox_event(req, true, &vec![1], "evt-b".to_string(), "now".to_string()).unwrap();
    let meta = local_write_metadata(&local, 0);
    assert_eq!(meta.last_client_timestamp, "2026-03-01T10:00:01Z");
    assert_eq!(meta.last_event_id, "evt-b");
    // A's older create arrives at B and does not overwrite B's update.
    assert!(!replay_should_apply(false, Some(&meta), "2026-03-01T10:00:00Z", "evt-a"));
}

#[test]
fn revoked_device_stops_the_loop_on_any_outcome() {
    let mut st = LoopState::new();
    assert_eq!(st.after_cycle(Some(CycleStatus::Success), true), LoopAction::Stop);
    let mut st = LoopState::new();
    assert_eq!(st.after_cycle(None, true), LoopAction::Stop);
}

#[test]
fn replay_errors_name_their_cause() {
    let known = cols(&["id", "name"]);
    let fields = vec![
        ("id".to_string(), JsonValue::Str("acc-unknown-col".to_string())),
        ("nonexistent_column".to_string(), JsonValue::Str("value".to_string())),
    ];
    assert_eq!(
        replay_statement(SyncEntity::Account, "acc-unknown-col", SyncOperation::Create, Some(&fields), &known),
        Err(ReplayError::UnknownColumn { column: "nonexistent_column".to_string(), table: "accounts".to_string() })
    );
    assert_eq!(
        replay_statement(SyncEntity::ActivityImportProfile, "p", SyncOperation::Create, Some(&vec![]), &known),
        Err(ReplayError::UnknownColumn { column: "account_id".to_string(), table: "activity_import_profiles".to_string() })
    );
    let bad_pk = vec![("id".to_string(), JsonValue::Str("other".to_string()))];
    assert_eq!(
        replay_statement(SyncEntity::Account, "acc", SyncOperation::Update, Some(&bad_pk), &known),
        Err(ReplayError::PrimaryKeyMismatch { pk: "id".to_string(), entity_id: "acc".to_string() })
    );
}

#[test]
fn event_type_entity_must_match_entity_field() {
    assert_eq!(screen_pulled_event(&pulled("o", "goal", "invoice.create.v1"), "me"), PulledDisposition::Blocked);
    assert_eq!(screen_pulled_event(&pulled("o", "goal", "account.update.v1"), "me"), PulledDisposition::Blocked);
    assert_eq!(screen_pulled_event(&pulled("o", "goal", "goal"), "me"), PulledDisposition::Blocked);
    assert_eq!(
        screen_pulled_event(&pulled("o", "ai_thread_tag", "ai_thread_tag.request.v1"), "me"),
        PulledDisposition::Replay(SyncEntity::AiThreadTag, SyncOperation::Request)
    );
}
