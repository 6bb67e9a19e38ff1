use device_sync::snapshot::snapshot_upload_gate;
use device_sync::snapshot::snapshot_upload_headers;
use device_sync::snapshot::{is_first_device, snapshot_upload_outcome};
use device_sync::retry::DeviceSyncError;
use device_sync::snapshot::{latest_snapshot_source, snapshot_from_pointer, LatestSnapshotSource};
use device_sync::snapshot::{
    decode_snapshot_image, is_backend_strict_uuid, is_sqlite_image, is_valid_sha256_checksum, plan_bootstrap,
    prepare_snapshot_upload, snapshot_plaintext, snapshot_upload_cancelled_result, snapshot_upload_key,
    tables_to_restore, verify_snapshot_checksum, BootstrapStep, ChecksumMismatch, InFlightUploads, SnapshotImageError,
    SnapshotLatest, SnapshotUploadHeaders, UploadRejection,
};

const EMPTY_SHA: &str = "sha256:e3b0c44298fc1c149afbf4c8996fb92427ae41e4649b934ca495991b7852b855";
const ABC_SHA: &str = "sha256:ba7816bf8f01cfea414140de5dae2223b00361a396177a9cb410ff61f20015ad";

fn headers(size: i64, checksum: &str, event_id: Option<&str>) -> SnapshotUploadHeaders {
    SnapshotUploadHeaders {
        event_id: event_id.map(|s| s.to_string()),
        schema_version: 1,
        covers_tables: vec!["accounts".to_string()],
        size_bytes: size,
        checksum: checksum.to_string(),
        metadata_payload: "meta".to_string(),
        payload_key_version: 1,
    }
}

#[test]
fn empty_snapshot_upload_is_refused() {
    let r = prepare_snapshot_upload(headers(0, EMPTY_SHA, None), 0, EMPTY_SHA, "fresh".to_string());
    assert_eq!(r, Err(UploadRejection::EmptyPayload));
    assert!(matches!(UploadRejection::EmptyPayload.to_error(), DeviceSyncError::InvalidRequest(_)));
}

#[test]
fn uppercase_checksum_header_is_accepted() {
    let upper = ABC_SHA.to_uppercase().replace("SHA256:", "sha256:");
    let r = prepare_snapshot_upload(headers(3, &upper, None), 3, ABC_SHA, "019bb9fe-f707-71e9-a40d-733575f4f246".to_string())
        .unwrap();
    assert_eq!(r.checksum, ABC_SHA);
    assert_eq!(r.event_id.as_deref(), Some("019bb9fe-f707-71e9-a40d-733575f4f246"));
}

#[test]
fn upload_validation_errors() {
    assert_eq!(
        prepare_snapshot_upload(headers(4, ABC_SHA, None), 3, ABC_SHA, "f".to_string()),
        Err(UploadRejection::SizeMismatch)
    );
    assert_eq!(
        prepare_snapshot_upload(headers(3, "md5:abc", None), 3, ABC_SHA, "f".to_string()),
        Err(UploadRejection::ChecksumFormat)
    );
    assert_eq!(
        prepare_snapshot_upload(headers(3, EMPTY_SHA, None), 3, ABC_SHA, "f".to_string()),
        Err(UploadRejection::ChecksumMismatch)
    );
    assert_eq!(
        prepare_snapshot_upload(headers(3, ABC_SHA, Some("not-a-uuid")), 3, ABC_SHA, "f".to_string()),
        Err(UploadRejection::InvalidEventId)
    );
    let kept = prepare_snapshot_upload(
        headers(3, ABC_SHA, Some("019bb9fe-f707-71e9-a40d-733575f4f246")),
        3,
        ABC_SHA,
        "other".to_string(),
    )
    .unwrap();
    assert_eq!(kept.event_id.as_deref(), Some("019bb9fe-f707-71e9-a40d-733575f4f246"));
}

#[test]
fn checksum_format() {
    assert!(is_valid_sha256_checksum(ABC_SHA));
    assert!(!is_valid_sha256_checksum("sha256:abc"));
    assert!(!is_valid_sha256_checksum(&ABC_SHA.replace("sha256:", "sha512:")));
}

#[test]
fn in_flight_uploads_are_deduplicated() {
    let mut set = InFlightUploads::new();
    let key = snapshot_upload_key("device-1", "evt-1");
    assert_eq!(key, "device-1:evt-1");
    assert!(set.try_begin(key.clone()));
    assert!(!set.try_begin(key.clone()));
    set.finish(&key);
    assert!(set.try_begin(key));
}

#[test]
fn checksum_round_trip_on_download() {
    assert_eq!(verify_snapshot_checksum(ABC_SHA, ABC_SHA, ABC_SHA), Ok(()));
    assert_eq!(verify_snapshot_checksum(ABC_SHA, "  ", ABC_SHA), Ok(()));
    assert_eq!(verify_snapshot_checksum(EMPTY_SHA, "", ABC_SHA), Err(ChecksumMismatch::DownloadHeader));
    assert_eq!(verify_snapshot_checksum(ABC_SHA, EMPTY_SHA, ABC_SHA), Err(ChecksumMismatch::LatestMetadata));
}

#[test]
fn sqlite_image_round_trip_through_base64() {
    let mut image = b"SQLite format 3\0".to_vec();
    image.extend_from_slice(&[1, 2, 3]);
    assert!(is_sqlite_image(&image));
    let text = snapshot_plaintext(&image);
    assert_ne!(text.as_bytes(), image.as_slice());
    assert_eq!(decode_snapshot_image(&format!("  {}\n", text)), Ok(image));
    assert_eq!(decode_snapshot_image("%%%"), Err(SnapshotImageError::NotBase64));
    assert_eq!(decode_snapshot_image(&snapshot_plaintext(b"not-a-sqlite-db")), Err(SnapshotImageError::NotSqliteImage));
}

#[test]
fn strict_uuid_fallback_check() {
    assert!(is_backend_strict_uuid("019bb9fe-f707-71e9-a40d-733575f4f246"));
    assert!(is_backend_strict_uuid(" 00000000-0000-0000-0000-000000000000 "));
    assert!(!is_backend_strict_uuid("snap-1"));
    assert!(!is_backend_strict_uuid("019bb9fe-f707-91e9-a40d-733575f4f246"));
    assert!(!is_backend_strict_uuid("019bb9fe-f707-71e9-c40d-733575f4f246"));
}

fn latest(id: &str, schema: i32) -> SnapshotLatest {
    SnapshotLatest {
        snapshot_id: id.to_string(),
        schema_version: schema,
        covers_tables: vec![],
        oplog_seq: 600,
        size_bytes: 10,
        checksum: String::new(),
        created_at: String::new(),
    }
}

#[test]
fn bootstrap_steps() {
    assert_eq!(plan_bootstrap(false, true, None), BootstrapStep::SkipNotReady);
    assert_eq!(plan_bootstrap(true, false, None), BootstrapStep::SkipAlreadyBootstrapped);
    assert_eq!(plan_bootstrap(true, true, None), BootstrapStep::FirstDevice);
    assert_eq!(plan_bootstrap(true, true, Some(&latest("s", 2))), BootstrapStep::SchemaTooNew);
    assert_eq!(plan_bootstrap(true, true, Some(&latest("  ", 1))), BootstrapStep::RequestFresh);
    assert_eq!(plan_bootstrap(true, true, Some(&latest("s", 1))), BootstrapStep::Download);
}

#[test]
fn restore_tables_are_catalog_tables() {
    let r = tables_to_restore(&vec!["accounts".to_string(), "secrets".to_string(), "goals".to_string()]);
    assert_eq!(r, vec!["accounts".to_string(), "goals".to_string()]);
    let all = tables_to_restore(&vec!["secrets".to_string()]);
    assert_eq!(all.len(), 13);
    assert_eq!(all[0], "accounts");
    let c = snapshot_upload_cancelled_result("stop");
    assert_eq!(c.status, "cancelled");
    assert_eq!(c.message, "stop");
}

#[test]
fn latest_snapshot_falls_back_to_cursor_pointer() {
    let good = latest("019bb9fe-f707-71e9-a40d-733575f4f246", 1);
    assert_eq!(latest_snapshot_source(&Ok(good)), LatestSnapshotSource::Latest);
    assert_eq!(latest_snapshot_source(&Ok(latest("snap-1", 1))), LatestSnapshotSource::CursorPointer);
    let rejected = DeviceSyncError::api(400, "{\"path\":[\"snapshotId\"],\"message\":\"Invalid UUID\"}".to_string());
    assert_eq!(latest_snapshot_source(&Err(rejected)), LatestSnapshotSource::CursorPointer);
    assert_eq!(
        latest_snapshot_source(&Err(DeviceSyncError::api(500, "down".to_string()))),
        LatestSnapshotSource::Fail
    );
    let p = snapshot_from_pointer("snap-2".to_string(), 1, 600);
    assert_eq!(p.oplog_seq, 600);
    assert!(p.checksum.is_empty());
}

#[test]
fn upload_gate_skips_untrusted_and_cancelled() {
    let skipped = snapshot_upload_gate(false, true, false).unwrap();
    assert_eq!(skipped.status, "skipped");
    assert_eq!(skipped.snapshot_id, None);
    let c = snapshot_upload_gate(true, true, false).unwrap();
    assert_eq!((c.status.as_str(), c.message.as_str()), ("cancelled", "Snapshot upload cancelled before export"));
    let c = snapshot_upload_gate(true, true, true).unwrap();
    assert_eq!(c.message, "Snapshot upload cancelled after export");
    assert!(snapshot_upload_gate(true, false, true).is_none());
}

#[test]
fn upload_headers_cover_the_catalog() {
    let h = snapshot_upload_headers("evt".to_string(), 42, ABC_SHA.to_string(), "meta".to_string(), Some(0));
    assert_eq!(h.event_id.as_deref(), Some("evt"));
    assert_eq!(h.schema_version, 1);
    assert_eq!(h.covers_tables.len(), 13);
    assert_eq!(h.covers_tables[12], "holdings_snapshots");
    assert_eq!(h.size_bytes, 42);
    assert_eq!(h.payload_key_version, 1);
    assert_eq!(snapshot_upload_headers("e".to_string(), 1, String::new(), String::new(), Some(7)).payload_key_version, 7);
    assert_eq!(snapshot_upload_headers("e".to_string(), 1, String::new(), String::new(), None).payload_key_version, 1);
}

#[test]
fn upload_outcome_maps_cancellation() {
    let ok = snapshot_upload_outcome(Ok(("snap-1".to_string(), 123))).unwrap();
    assert_eq!((ok.status.as_str(), ok.snapshot_id.as_deref(), ok.oplog_seq), ("uploaded", Some("snap-1"), Some(123)));
    let c = snapshot_upload_outcome(Err(UploadRejection::Cancelled.to_error())).unwrap();
    assert_eq!(c.status, "cancelled");
    let c = snapshot_upload_outcome(Err(DeviceSyncError::Http("request CANCELLED".to_string()))).unwrap();
    assert_eq!(c.message, "Snapshot upload cancelled during transfer");
    let e = DeviceSyncError::api(500, "boom".to_string());
    assert_eq!(snapshot_upload_outcome(Err(e.clone())), Err(e));
    assert!(is_first_device(&DeviceSyncError::api(404, "none".to_string())));
    assert!(!is_first_device(&DeviceSyncError::Http("404".to_string())));
}

#[test]
fn rejection_messages_are_exact() {
    assert_eq!(
        UploadRejection::AlreadyInProgress.to_error(),
        DeviceSyncError::InvalidRequest("Snapshot upload already in progress for this snapshot event".to_string())
    );
    assert!(UploadRejection::AlreadyInProgress.message().contains("already in progress"));
    assert_eq!(UploadRejection::EmptyPayload.message(), "Snapshot payload is empty");
}

#[test]
fn uppercase_download_checksum_is_accepted() {
    let upper = ABC_SHA.to_uppercase().replace("SHA256:", "sha256:");
    assert_eq!(verify_snapshot_checksum(&upper, "", ABC_SHA), Ok(()));
    assert_eq!(verify_snapshot_checksum(ABC_SHA, &upper, ABC_SHA), Ok(()));
    assert_eq!(verify_snapshot_checksum(&upper, EMPTY_SHA, ABC_SHA), Err(ChecksumMismatch::LatestMetadata));
}
