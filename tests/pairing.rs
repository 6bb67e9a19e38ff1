use device_sync::pairing::{
    claimer_next, issuer_may_send_key, issuer_next, ClaimerEvent, ClaimerState, IssuerEvent, IssuerState,
};
use device_sync::session::{access_token_ttl_secs, CachedAccessToken};
use device_sync::snapshot::{snapshot_upload_progress, SnapshotUploadStage};

#[test]
fn issuer_walks_through_the_handshake() {
    let mut s = IssuerState::PendingCreate;
    for e in [IssuerEvent::Created, IssuerEvent::ClaimSeen, IssuerEvent::SasConfirmed] {
        s = issuer_next(s, e);
    }
    assert_eq!(s, IssuerState::Approved);
    assert!(issuer_may_send_key(s));
    s = issuer_next(s, IssuerEvent::KeyBundlePosted);
    assert_eq!(s, IssuerState::Completed);
    assert_eq!(issuer_next(s, IssuerEvent::Cancel), IssuerState::Completed);
}

#[test]
fn issuer_cannot_skip_the_sas_check() {
    let s = issuer_next(IssuerState::Claimed, IssuerEvent::KeyBundlePosted);
    assert_eq!(s, IssuerState::Claimed);
    assert!(!issuer_may_send_key(s));
    assert_eq!(issuer_next(IssuerState::PendingClaim, IssuerEvent::ExpirySeen), IssuerState::Expired);
    assert_eq!(issuer_next(IssuerState::Expired, IssuerEvent::ClaimSeen), IssuerState::Expired);
}

#[test]
fn claimer_confirms_only_after_claiming() {
    assert_eq!(claimer_next(ClaimerState::PendingClaim, ClaimerEvent::BundleVerified), ClaimerState::PendingClaim);
    let s = claimer_next(ClaimerState::PendingClaim, ClaimerEvent::Claimed);
    assert_eq!(s, ClaimerState::AwaitingKey);
    assert_eq!(claimer_next(s, ClaimerEvent::BundleVerified), ClaimerState::Confirmed);
    assert_eq!(claimer_next(s, ClaimerEvent::Cancel), ClaimerState::Cancelled);
}

#[test]
fn access_token_cache_keeps_a_minute_of_slack() {
    assert_eq!(access_token_ttl_secs(Some(3600)), 3540);
    assert_eq!(access_token_ttl_secs(None), 3540);
    assert_eq!(access_token_ttl_secs(Some(30)), 0);
    assert_eq!(access_token_ttl_secs(Some(-5)), 0);
    let t = CachedAccessToken::new("tok".to_string(), 1_000, Some(120));
    assert_eq!(t.expires_at_ms, 61_000);
    assert!(t.is_fresh(60_999));
    assert!(!t.is_fresh(61_000));
}

#[test]
fn upload_progress_stages() {
    let e = snapshot_upload_progress(SnapshotUploadStage::Uploading, "Uploading snapshot");
    assert_eq!(e.stage, "uploading");
    assert_eq!(e.progress, 70);
    assert_eq!(snapshot_upload_progress(SnapshotUploadStage::Complete, "").progress, 100);
    assert_eq!(snapshot_upload_progress(SnapshotUploadStage::Cancelled, "x").stage, "cancelled");
}

#[test]
fn retry_wait_until_next_retry_time() {
    let base = device_sync::scheduler::millis_until_rfc3339("1970-01-01T00:00:10Z", 4_000);
    assert_eq!(base, Some(6_000));
    assert_eq!(device_sync::scheduler::millis_until_rfc3339("1970-01-01T00:00:01Z", 4_000), Some(0));
    assert_eq!(device_sync::scheduler::millis_until_rfc3339("soon", 0), None);
}

#[test]
fn engine_status_result_carries_flags() {
    let st = device_sync::model::SyncEngineStatus {
        cursor: 9,
        last_push_at: None,
        last_pull_at: Some("t".to_string()),
        last_error: None,
        consecutive_failures: 2,
        next_retry_at: None,
        last_cycle_status: Some("ok".to_string()),
        last_cycle_duration_ms: Some(5),
    };
    let r = device_sync::snapshot::engine_status_result(st, true, false);
    assert_eq!(r.cursor, 9);
    assert_eq!(r.consecutive_failures, 2);
    assert!(r.background_running);
    assert!(!r.bootstrap_required);
}
