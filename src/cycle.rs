use vstd::prelude::*;
use crate::model::{SyncEntity, SyncOperation, entity_of_name, spec_parse_event_operation, sync_entity_from_name, parse_event_operation};
use crate::retry::{ApiRetryClass, DeviceSyncError, backoff_seconds, error_text, spec_backoff_seconds, spec_retry_class};
use crate::text::{chars_of, contains_seq, contains_str, find_char, first_index_of, lemma_first_index_of, str_eq, string_from_range};

verus! {

/// The closed set of outcomes of one sync cycle.
#[derive(Debug, Clone, Copy, PartialEq, Eq, Structural)]
pub enum CycleStatus {
    Success,
    NotReady,
    ConfigError,
    StateError,
    AuthError,
    CursorError,
    PushError,
    PushPrepareError,
    PullError,
    StaleCursor,
    ReplayError,
    ReplayBlocked,
    Preempted,
    KeyVersionMismatch,
}

pub open spec fn status_name(s: CycleStatus) -> Seq<char> {
    match s {
        CycleStatus::Success => "ok"@,
        CycleStatus::NotReady => "not_ready"@,
        CycleStatus::ConfigError => "config_error"@,
        CycleStatus::StateError => "state_error"@,
        CycleStatus::AuthError => "auth_error"@,
        CycleStatus::CursorError => "cursor_error"@,
        CycleStatus::PushError => "push_error"@,
        CycleStatus::PushPrepareError => "push_prepare_error"@,
        CycleStatus::PullError => "pull_error"@,
        CycleStatus::StaleCursor => "stale_cursor"@,
        CycleStatus::ReplayError => "replay_error"@,
        CycleStatus::ReplayBlocked => "replay_blocked"@,
        CycleStatus::Preempted => "preempted"@,
        CycleStatus::KeyVersionMismatch => "key_version_mismatch"@,
    }
}

impl CycleStatus {
    pub fn as_str(&self) -> (r: &'static str)
        ensures
            r@ == status_name(*self),
    {
        match self {
            CycleStatus::Success => "ok",
            CycleStatus::NotReady => "not_ready",
            CycleStatus::ConfigError => "config_error",
            CycleStatus::StateError => "state_error",
            CycleStatus::AuthError => "auth_error",
            CycleStatus::CursorError => "cursor_error",
            CycleStatus::PushError => "push_error",
            CycleStatus::PushPrepareError => "push_prepare_error",
            CycleStatus::PullError => "pull_error",
            CycleStatus::StaleCursor => "stale_cursor",
            CycleStatus::ReplayError => "replay_error",
            CycleStatus::ReplayBlocked => "replay_blocked",
            CycleStatus::Preempted => "preempted",
            CycleStatus::KeyVersionMismatch => "key_version_mismatch",
        }
    }
}

/// Result of one cycle as reported to callers.
#[derive(Debug, Clone, PartialEq, Eq)]
pub struct SyncCycleResult {
    pub status: String,
    pub lock_version: i64,
    pub pushed_count: usize,
    pub pulled_count: usize,
    pub cursor: i64,
    pub needs_bootstrap: bool,
}

/// Builds a cycle result; only a stale cursor asks for a snapshot bootstrap.
pub fn cycle_result(status: CycleStatus, lock_version: i64, pushed_count: usize, pulled_count: usize, cursor: i64) -> (r: SyncCycleResult)
    ensures
        r.status@ == status_name(status),
        r.lock_version == lock_version,
        r.pushed_count == pushed_count,
        r.pulled_count == pulled_count,
        r.cursor == cursor,
        r.needs_bootstrap == (status == CycleStatus::StaleCursor),
{
    SyncCycleResult {
        status: crate::text::string_of(status.as_str()),
        lock_version,
        pushed_count,
        pulled_count,
        cursor,
        needs_bootstrap: status == CycleStatus::StaleCursor,
    }
}

/// A local cursor behind the relay's garbage-collection watermark can no
/// longer be served incrementally.
pub open spec fn spec_is_stale_cursor(local_cursor: i64, gc_watermark: Option<i64>) -> bool {
    match gc_watermark {
        Some(w) => local_cursor < w,
        None => false,
    }
}

pub fn is_stale_cursor(local_cursor: i64, gc_watermark: Option<i64>) -> (r: bool)
    ensures
        r == spec_is_stale_cursor(local_cursor, gc_watermark),
        gc_watermark == Some(local_cursor) ==> !r,
{
    match gc_watermark {
        Some(w) => local_cursor < w,
        None => false,
    }
}

/// The cursor after a pulled batch was applied: it only moves forward.
pub fn advance_cursor(current: i64, next_cursor: i64) -> (r: i64)
    ensures
        r >= current,
        r == if next_cursor > current { next_cursor } else { current },
{
    if next_cursor > current {
        next_cursor
    } else {
        current
    }
}

/// Applied-event log entries up to this sequence may be pruned: once the
/// cursor passes 20000, everything 10000 or more behind it.
pub fn prune_cutoff(local_cursor: i64) -> (r: Option<i64>)
    ensures
        r == if local_cursor > 20000 {
            Some((local_cursor - 10000) as i64)
        } else {
            None::<i64>
        },
{
    if local_cursor > 20000 {
        Some(local_cursor - 10000)
    } else {
        None
    }
}

/// How the outbox events of a failed push are recorded.
#[derive(Debug, Clone, Copy, PartialEq, Eq, Structural)]
pub enum OutboxDisposition {
    /// Marked dead; never pushed again.
    Dead,
    /// Kept pending and retried after this many seconds.
    RetryAfter(i64),
}

/// Error code stored on the outbox events of a failed push.
#[derive(Debug, Clone, Copy, PartialEq, Eq, Structural)]
pub enum PushErrorCode {
    KeyVersionMismatch,
    Retryable,
    Permanent,
    ReauthRequired,
}

impl PushErrorCode {
    pub fn as_str(&self) -> (r: &'static str)
        ensures
            r@ == (match *self {
                PushErrorCode::KeyVersionMismatch => "key_version_mismatch"@,
                PushErrorCode::Retryable => "retryable"@,
                PushErrorCode::Permanent => "permanent"@,
                PushErrorCode::ReauthRequired => "reauth_required"@,
            }),
    {
        match self {
            PushErrorCode::KeyVersionMismatch => "key_version_mismatch",
            PushErrorCode::Retryable => "retryable",
            PushErrorCode::Permanent => "permanent",
            PushErrorCode::ReauthRequired => "reauth_required",
        }
    }
}

/// What the cycle does after a push failed.
#[derive(Debug, Clone, Copy, PartialEq, Eq, Structural)]
pub struct PushFailurePlan {
    pub outbox: OutboxDisposition,
    pub code: PushErrorCode,
    pub status: CycleStatus,
    /// Seconds until the next cycle should run, when a retry is scheduled.
    pub retry_secs: Option<i64>,
}

pub open spec fn spec_push_failure_plan(e: DeviceSyncError, max_retry_count: i32) -> PushFailurePlan {
    let backoff = spec_backoff_seconds(max_retry_count as int) as i64;
    if contains_seq(error_text(e), "KEY_VERSION_MISMATCH"@) {
        PushFailurePlan {
            outbox: OutboxDisposition::Dead,
            code: PushErrorCode::KeyVersionMismatch,
            status: CycleStatus::KeyVersionMismatch,
            retry_secs: None,
        }
    } else {
        match spec_retry_class(e) {
            ApiRetryClass::ReauthRequired => PushFailurePlan {
                outbox: OutboxDisposition::RetryAfter(30),
                code: PushErrorCode::ReauthRequired,
                status: CycleStatus::AuthError,
                retry_secs: Some(30),
            },
            ApiRetryClass::Retryable => PushFailurePlan {
                outbox: OutboxDisposition::RetryAfter(backoff),
                code: PushErrorCode::Retryable,
                status: CycleStatus::PushError,
                retry_secs: Some(backoff),
            },
            ApiRetryClass::Permanent => PushFailurePlan {
                outbox: OutboxDisposition::Dead,
                code: PushErrorCode::Permanent,
                status: CycleStatus::PushError,
                retry_secs: None,
            },
        }
    }
}

/// Classifies a failed push of a batch whose largest retry count is
/// `max_retry_count`. A key-version mismatch kills the batch and asks for
/// re-pairing; an auth failure retries in 30 s; a retryable failure backs
/// off; any other failure kills the batch.
pub fn plan_push_failure(error: &DeviceSyncError, max_retry_count: i32) -> (r: PushFailurePlan)
    ensures
        r == spec_push_failure_plan(*error, max_retry_count),
{
    let text = error.text();
    let backoff = backoff_seconds(max_retry_count);
    if contains_str(text, "KEY_VERSION_MISMATCH") {
        return PushFailurePlan {
            outbox: OutboxDisposition::Dead,
            code: PushErrorCode::KeyVersionMismatch,
            status: CycleStatus::KeyVersionMismatch,
            retry_secs: None,
        };
    }
    match error.retry_class() {
        ApiRetryClass::ReauthRequired => PushFailurePlan {
            outbox: OutboxDisposition::RetryAfter(30),
            code: PushErrorCode::ReauthRequired,
            status: CycleStatus::AuthError,
            retry_secs: Some(30),
        },
        ApiRetryClass::Retryable => PushFailurePlan {
            outbox: OutboxDisposition::RetryAfter(backoff),
            code: PushErrorCode::Retryable,
            status: CycleStatus::PushError,
            retry_secs: Some(backoff),
        },
        ApiRetryClass::Permanent => PushFailurePlan {
            outbox: OutboxDisposition::Dead,
            code: PushErrorCode::Permanent,
            status: CycleStatus::PushError,
            retry_secs: None,
        },
    }
}

/// Largest retry count of a batch of outbox events (0 for none).
pub fn max_retry_count(retry_counts: &Vec<i32>) -> (r: i32)
    ensures
        r >= 0,
        forall|i: int| 0 <= i < retry_counts@.len() ==> retry_counts@[i] <= r,
        r == 0 || exists|i: int| 0 <= i < retry_counts@.len() && retry_counts@[i] == r,
{
    let mut m: i32 = 0;
    let mut i: usize = 0;
    while i < retry_counts.len()
        invariant
            i <= retry_counts@.len(),
            m >= 0,
            forall|k: int| 0 <= k < i ==> retry_counts@[k] <= m,
            m == 0 || exists|k: int| 0 <= k < i && retry_counts@[k] == m,
        decreases retry_counts.len() - i,
    {
        if retry_counts[i] > m {
            m = retry_counts[i];
        }
        i += 1;
    }
    m
}

/// The key version a payload is encrypted under: at least 1.
pub fn effective_key_version(payload_key_version: i32) -> (r: i32)
    ensures
        r == if payload_key_version < 1 { 1 } else { payload_key_version },
{
    if payload_key_version < 1 {
        1
    } else {
        payload_key_version
    }
}

/// A pulled event as the relay returns it, before decryption.
#[derive(Debug, Clone, PartialEq, Eq)]
pub struct PulledEvent {
    pub event_id: String,
    pub seq: i64,
    pub device_id: String,
    pub event_type: String,
    pub entity: String,
    pub entity_id: String,
    pub client_timestamp: String,
    pub payload: String,
    pub payload_key_version: i32,
}

/// What the pull phase does with one pulled event.
#[derive(Debug, Clone, Copy, PartialEq, Eq, Structural)]
pub enum PulledDisposition {
    /// Written by this device; already applied locally.
    SkipOwn,
    /// A snapshot control signal, not a row.
    SkipSnapshot,
    /// Not understood by this build; replay stops.
    Blocked,
    /// To decrypt and replay.
    Replay(SyncEntity, SyncOperation),
}

pub open spec fn spec_screen_pulled(ev: PulledEvent, self_device_id: Seq<char>) -> PulledDisposition {
    if ev.device_id@ == self_device_id {
        PulledDisposition::SkipOwn
    } else if ev.entity@ == "snapshot"@ {
        PulledDisposition::SkipSnapshot
    } else {
        match (entity_of_name(ev.entity@), spec_parse_event_operation(ev.event_type@)) {
            (Some(e), Some(op)) => if entity_of_name(event_type_entity_segment(ev.event_type@)) == Some(e) {
                PulledDisposition::Replay(e, op)
            } else {
                PulledDisposition::Blocked
            },
            _ => PulledDisposition::Blocked,
        }
    }
}

/// The entity segment of an event type: the text before its first dot.
pub open spec fn event_type_entity_segment(event_type: Seq<char>) -> Seq<char> {
    event_type.subrange(0, first_index_of(event_type, '.'))
}

/// Decides what the pull phase does with one event: skip this device's own
/// events and snapshot signals, block when the entity, or the entity or
/// operation named by the event type, is unknown to this build or the two
/// entities disagree, and replay the rest.
pub fn screen_pulled_event(ev: &PulledEvent, self_device_id: &str) -> (r: PulledDisposition)
    ensures
        r == spec_screen_pulled(*ev, self_device_id@),
{
    if str_eq(ev.device_id.as_str(), self_device_id) {
        return PulledDisposition::SkipOwn;
    }
    if str_eq(ev.entity.as_str(), "snapshot") {
        return PulledDisposition::SkipSnapshot;
    }
    let entity = sync_entity_from_name(ev.entity.as_str());
    let op = parse_event_operation(ev.event_type.as_str());
    let cs = chars_of(ev.event_type.as_str());
    let dot = find_char(&cs, '.');
    proof {
        lemma_first_index_of(cs@, '.');
    }
    let segment = string_from_range(&cs, 0, dot);
    let typed = sync_entity_from_name(segment.as_str());
    match (entity, op) {
        (Some(e), Some(o)) => if typed == Some(e) {
            PulledDisposition::Replay(e, o)
        } else {
            PulledDisposition::Blocked
        },
        _ => PulledDisposition::Blocked,
    }
}

} // verus!

verus! {

pub open spec fn is_blocked(d: PulledDisposition) -> bool {
    d == PulledDisposition::Blocked
}

/// Screens a pulled batch. When no event blocks, gives each event's
/// disposition; otherwise the index of the first event that blocks replay,
/// so that nothing of the batch is applied and the cursor stays put.
pub fn screen_pull_batch(events: &Vec<PulledEvent>, self_device_id: &str) -> (r: Result<Vec<PulledDisposition>, usize>)
    ensures
        match r {
            Ok(d) => d@.len() == events@.len()
                && (forall|i: int| 0 <= i < d@.len() ==> d@[i] == spec_screen_pulled(events@[i], self_device_id@))
                && (forall|i: int| 0 <= i < d@.len() ==> !is_blocked(#[trigger] d@[i])),
            Err(i) => i < events@.len()
                && is_blocked(spec_screen_pulled(events@[i as int], self_device_id@))
                && forall|j: int| 0 <= j < i ==> !is_blocked(#[trigger] spec_screen_pulled(events@[j], self_device_id@)),
        },
{
    let mut out: Vec<PulledDisposition> = Vec::new();
    let mut i: usize = 0;
    while i < events.len()
        invariant
            i <= events@.len(),
            out@.len() == i,
            forall|k: int| 0 <= k < i ==> out@[k] == spec_screen_pulled(events@[k], self_device_id@),
            forall|k: int| 0 <= k < i ==> !is_blocked(#[trigger] out@[k]),
        decreases events.len() - i,
    {
        let d = screen_pulled_event(&events[i], self_device_id);
        if d == PulledDisposition::Blocked {
            assert forall|j: int| 0 <= j < i implies !is_blocked(#[trigger] spec_screen_pulled(events@[j], self_device_id@)) by {
                assert(out@[j] == spec_screen_pulled(events@[j], self_device_id@));
            }
            return Err(i);
        }
        out.push(d);
        i += 1;
    }
    Ok(out)
}

/// Retry hint after replay was blocked by an unknown event type: six hours.
pub const REPLAY_BLOCKED_RETRY_SECS: i64 = 21600;

/// Retry hint after a replay (decrypt, decode or apply) failure.
pub const REPLAY_ERROR_RETRY_SECS: i64 = 10;

/// Status and retry hint after a pull request failed.
pub open spec fn spec_pull_failure(class: ApiRetryClass) -> (CycleStatus, i64) {
    if class == ApiRetryClass::ReauthRequired {
        (CycleStatus::AuthError, 30)
    } else {
        (CycleStatus::PullError, 10)
    }
}

pub fn plan_pull_failure(error: &DeviceSyncError) -> (r: (CycleStatus, i64))
    ensures
        r == spec_pull_failure(spec_retry_class(*error)),
{
    if error.retry_class() == ApiRetryClass::ReauthRequired {
        (CycleStatus::AuthError, 30)
    } else {
        (CycleStatus::PullError, 10)
    }
}

/// Ids recorded as sent after a successful push: accepted, then duplicate.
pub fn sent_event_ids(accepted: Vec<String>, duplicate: Vec<String>) -> (r: Vec<String>)
    ensures
        r@ == accepted@ + duplicate@,
{
    let mut out = accepted;
    let mut dup = duplicate;
    out.append(&mut dup);
    out
}

} // verus!

verus! {

/// Where a cycle stands, waiting for the outcome of the named step.
#[derive(Debug, Clone, Copy, PartialEq, Eq, Structural)]
pub enum CyclePhase {
    LoadIdentity,
    ReadSyncState,
    ReadAccessToken,
    AcquireLock,
    FetchRemoteCursor,
    PreparePush,
    Push,
    VerifyLock,
    Pull,
    ApplyBatch,
    StoreCursor,
    Done,
}

/// One pulled page, as screened and decoded by the caller.
#[derive(Debug, Clone, Copy, PartialEq, Eq, Structural)]
pub struct PulledPage {
    pub next_cursor: i64,
    pub has_more: bool,
    pub gc_watermark: Option<i64>,
    /// Some event of the page has an entity or event type this build does
    /// not know (see `screen_pull_batch`).
    pub blocked: bool,
    /// Every payload of the page decrypted and decoded.
    pub decoded: bool,
}

/// What the caller reports back after performing a step.
#[derive(Debug, PartialEq, Eq)]
pub enum CycleInput {
    Identity { has_device_id: bool },
    SyncState(Option<bool>),
    AccessToken(bool),
    Lock { version: i64, cursor: i64 },
    RemoteCursor(Option<(i64, Option<i64>)>),
    PushPrepared { encrypted: bool, count: usize, max_retry_count: i32 },
    PushResult(Result<usize, DeviceSyncError>),
    LockHeld(bool),
    Pulled(Result<PulledPage, DeviceSyncError>),
    Applied(Option<usize>),
    CursorStored,
    Pruned,
}

/// How a cycle ended.
#[derive(Debug, Clone, Copy, PartialEq, Eq, Structural)]
pub struct CycleFinish {
    pub status: CycleStatus,
    /// Seconds until a retry, recorded as the engine's next retry time.
    pub retry_secs: Option<i64>,
    /// The outcome is recorded as an engine error.
    pub record_error: bool,
    /// How the pushed outbox events are to be recorded after a failed push.
    pub outbox: Option<PushFailurePlan>,
}

/// The next thing the caller does.
#[derive(Debug, Clone, Copy, PartialEq, Eq, Structural)]
pub enum CycleAction {
    LoadIdentity,
    ReadSyncState,
    ReadAccessToken,
    AcquireLock,
    FetchRemoteCursor,
    /// Take up to 500 pending outbox events and encrypt them.
    PreparePush,
    Push,
    /// Mark the pushed events sent, then verify the cycle lock.
    VerifyLock,
    Pull { since: i64 },
    ApplyBatch,
    /// Store the cursor, then pull again or finish.
    StoreCursor { cursor: i64 },
    Prune { up_to_seq: i64 },
    Finish(CycleFinish),
}

/// State of one sync cycle.
#[derive(Debug, Clone, Copy, PartialEq, Eq, Structural)]
pub struct CycleMachine {
    pub phase: CyclePhase,
    pub lock_version: i64,
    pub local_cursor: i64,
    pub remote_cursor: i64,
    pub pushed_count: usize,
    pub pulled_count: usize,
    pub max_retry_count: i32,
    pub page: Option<PulledPage>,
}

pub open spec fn fail(status: CycleStatus, retry_secs: Option<i64>) -> CycleAction {
    CycleAction::Finish(CycleFinish { status, retry_secs, record_error: true, outbox: None })
}

pub open spec fn quiet_finish(status: CycleStatus) -> CycleAction {
    CycleAction::Finish(CycleFinish { status, retry_secs: None, record_error: false, outbox: None })
}

pub open spec fn with_phase(m: CycleMachine, p: CyclePhase) -> CycleMachine {
    CycleMachine { phase: p, ..m }
}

pub open spec fn done(m: CycleMachine) -> CycleMachine {
    with_phase(m, CyclePhase::Done)
}

/// After the cursor check: pull only when the relay is ahead.
pub open spec fn after_lock_verified(m: CycleMachine) -> (CycleMachine, CycleAction) {
    if m.remote_cursor > m.local_cursor {
        (with_phase(m, CyclePhase::Pull), CycleAction::Pull { since: m.local_cursor })
    } else {
        finish_ok(m)
    }
}

/// Ends a successful cycle, pruning the applied-event log first when due.
pub open spec fn finish_ok(m: CycleMachine) -> (CycleMachine, CycleAction) {
    if m.local_cursor > 20000 && m.phase != CyclePhase::Done {
        (done(m), CycleAction::Prune { up_to_seq: (m.local_cursor - 10000) as i64 })
    } else {
        (done(m), quiet_finish(CycleStatus::Success))
    }
}

/// One transition of the cycle: from the state and what the last step
/// produced to the next state and step.
pub open spec fn spec_cycle_step(m: CycleMachine, input: CycleInput) -> (CycleMachine, CycleAction) {
    match (m.phase, input) {
        (CyclePhase::LoadIdentity, CycleInput::Identity { has_device_id }) => if has_device_id {
            (with_phase(m, CyclePhase::ReadSyncState), CycleAction::ReadSyncState)
        } else {
            (done(m), fail(CycleStatus::ConfigError, None))
        },
        (CyclePhase::ReadSyncState, CycleInput::SyncState(s)) => match s {
            None => (done(m), fail(CycleStatus::StateError, Some(15))),
            Some(false) => (done(CycleMachine { lock_version: 0, ..m }), quiet_finish(CycleStatus::NotReady)),
            Some(true) => (with_phase(m, CyclePhase::ReadAccessToken), CycleAction::ReadAccessToken),
        },
        (CyclePhase::ReadAccessToken, CycleInput::AccessToken(ok)) => if ok {
            (with_phase(m, CyclePhase::AcquireLock), CycleAction::AcquireLock)
        } else {
            (done(m), fail(CycleStatus::AuthError, Some(30)))
        },
        (CyclePhase::AcquireLock, CycleInput::Lock { version, cursor }) => (
            CycleMachine { phase: CyclePhase::FetchRemoteCursor, lock_version: version, local_cursor: cursor, ..m },
            CycleAction::FetchRemoteCursor,
        ),
        (CyclePhase::FetchRemoteCursor, CycleInput::RemoteCursor(r)) => match r {
            None => (done(m), fail(CycleStatus::CursorError, Some(10))),
            Some((remote, gc)) => if spec_is_stale_cursor(m.local_cursor, gc) {
                (done(m), fail(CycleStatus::StaleCursor, None))
            } else {
                (CycleMachine { phase: CyclePhase::PreparePush, remote_cursor: remote, ..m }, CycleAction::PreparePush)
            },
        },
        (CyclePhase::PreparePush, CycleInput::PushPrepared { encrypted, count, max_retry_count }) => if !encrypted {
            (done(m), fail(CycleStatus::PushPrepareError, Some(15)))
        } else if count == 0 {
            (with_phase(m, CyclePhase::VerifyLock), CycleAction::VerifyLock)
        } else {
            (CycleMachine { phase: CyclePhase::Push, max_retry_count, ..m }, CycleAction::Push)
        },
        (CyclePhase::Push, CycleInput::PushResult(r)) => match r {
            Ok(sent) => (CycleMachine { phase: CyclePhase::VerifyLock, pushed_count: sent, ..m }, CycleAction::VerifyLock),
            Err(e) => {
                let plan = spec_push_failure_plan(e, m.max_retry_count);
                (done(m), CycleAction::Finish(CycleFinish { status: plan.status, retry_secs: plan.retry_secs, record_error: true, outbox: Some(plan) }))
            },
        },
        (CyclePhase::VerifyLock, CycleInput::LockHeld(held)) => if held {
            after_lock_verified(m)
        } else {
            (done(m), quiet_finish(CycleStatus::Preempted))
        },
        (CyclePhase::Pull, CycleInput::Pulled(r)) => match r {
            Err(e) => {
                let (s, secs) = spec_pull_failure(spec_retry_class(e));
                (done(m), fail(s, Some(secs)))
            },
            Ok(page) => if spec_is_stale_cursor(m.local_cursor, page.gc_watermark) {
                (done(m), fail(CycleStatus::StaleCursor, None))
            } else if page.blocked {
                (done(m), fail(CycleStatus::ReplayBlocked, Some(REPLAY_BLOCKED_RETRY_SECS)))
            } else if !page.decoded {
                (done(m), fail(CycleStatus::ReplayError, Some(REPLAY_ERROR_RETRY_SECS)))
            } else {
                (CycleMachine { phase: CyclePhase::ApplyBatch, page: Some(page), ..m }, CycleAction::ApplyBatch)
            },
        },
        (CyclePhase::ApplyBatch, CycleInput::Applied(r)) => match (r, m.page) {
            (Some(applied), Some(page)) => {
                let cursor = if page.next_cursor > m.local_cursor { page.next_cursor } else { m.local_cursor };
                let pulled: int = m.pulled_count + applied;
                let pulled = if pulled > usize::MAX { usize::MAX } else { pulled as usize };
                (
                    CycleMachine { phase: CyclePhase::StoreCursor, local_cursor: cursor, pulled_count: pulled, ..m },
                    CycleAction::StoreCursor { cursor },
                )
            },
            _ => (done(m), fail(CycleStatus::ReplayError, Some(REPLAY_ERROR_RETRY_SECS))),
        },
        (CyclePhase::StoreCursor, CycleInput::CursorStored) => match m.page {
            Some(p) => if p.has_more {
                (CycleMachine { phase: CyclePhase::Pull, page: None, ..m }, CycleAction::Pull { since: m.local_cursor })
            } else {
                finish_ok(CycleMachine { page: None, ..m })
            },
            None => finish_ok(m),
        },
        (CyclePhase::Done, _) => finish_ok(m),
        _ => (m, CycleAction::Finish(CycleFinish { status: CycleStatus::StateError, retry_secs: Some(15), record_error: true, outbox: None })),
    }
}

impl CycleMachine {
    /// A cycle that starts by loading the local sync identity; `cursor` is
    /// the local cursor read so far.
    pub fn new(cursor: i64) -> (r: Self)
        ensures
            r.phase == CyclePhase::LoadIdentity,
            r.local_cursor == cursor,
            r.lock_version == 0,
            r.pushed_count == 0,
            r.pulled_count == 0,
            r.page is None,
    {
        CycleMachine {
            phase: CyclePhase::LoadIdentity,
            lock_version: 0,
            local_cursor: cursor,
            remote_cursor: cursor,
            pushed_count: 0,
            pulled_count: 0,
            max_retry_count: 0,
            page: None,
        }
    }

    /// The result reported for a cycle that ended with `status`.
    pub fn result(&self, status: CycleStatus) -> (r: SyncCycleResult)
        ensures
            r.status@ == status_name(status),
            r.lock_version == self.lock_version,
            r.pushed_count == self.pushed_count,
            r.pulled_count == self.pulled_count,
            r.cursor == self.local_cursor,
            r.needs_bootstrap == (status == CycleStatus::StaleCursor),
    {
        cycle_result(status, self.lock_version, self.pushed_count, self.pulled_count, self.local_cursor)
    }

    fn finish_ok(&mut self) -> (r: CycleAction)
        ensures
            (*final(self), r) == finish_ok(*old(self)),
    {
        if self.local_cursor > 20000 && self.phase != CyclePhase::Done {
            self.phase = CyclePhase::Done;
            CycleAction::Prune { up_to_seq: self.local_cursor - 10000 }
        } else {
            self.phase = CyclePhase::Done;
            CycleAction::Finish(CycleFinish { status: CycleStatus::Success, retry_secs: None, record_error: false, outbox: None })
        }
    }

    fn fail(&mut self, status: CycleStatus, retry_secs: Option<i64>) -> (r: CycleAction)
        ensures
            *final(self) == done(*old(self)),
            r == fail(status, retry_secs),
    {
        self.phase = CyclePhase::Done;
        CycleAction::Finish(CycleFinish { status, retry_secs, record_error: true, outbox: None })
    }

    /// Advances the cycle with the outcome of the last step. The local
    /// cursor never moves backward.
    pub fn step(&mut self, input: CycleInput) -> (r: CycleAction)
        ensures
            (*final(self), r) == spec_cycle_step(*old(self), input),
            final(self).local_cursor >= old(self).local_cursor || old(self).phase == CyclePhase::AcquireLock,
    {
        match (self.phase, input) {
            (CyclePhase::LoadIdentity, CycleInput::Identity { has_device_id }) => {
                if has_device_id {
                    self.phase = CyclePhase::ReadSyncState;
                    CycleAction::ReadSyncState
                } else {
                    self.fail(CycleStatus::ConfigError, None)
                }
            },
            (CyclePhase::ReadSyncState, CycleInput::SyncState(s)) => match s {
                None => self.fail(CycleStatus::StateError, Some(15)),
                Some(false) => {
                    self.lock_version = 0;
                    self.phase = CyclePhase::Done;
                    CycleAction::Finish(CycleFinish { status: CycleStatus::NotReady, retry_secs: None, record_error: false, outbox: None })
                },
                Some(true) => {
                    self.phase = CyclePhase::ReadAccessToken;
                    CycleAction::ReadAccessToken
                },
            },
            (CyclePhase::ReadAccessToken, CycleInput::AccessToken(ok)) => {
                if ok {
                    self.phase = CyclePhase::AcquireLock;
                    CycleAction::AcquireLock
                } else {
                    self.fail(CycleStatus::AuthError, Some(30))
                }
            },
            (CyclePhase::AcquireLock, CycleInput::Lock { version, cursor }) => {
                self.phase = CyclePhase::FetchRemoteCursor;
                self.lock_version = version;
                self.local_cursor = cursor;
                CycleAction::FetchRemoteCursor
            },
            (CyclePhase::FetchRemoteCursor, CycleInput::RemoteCursor(r)) => match r {
                None => self.fail(CycleStatus::CursorError, Some(10)),
                Some((remote, gc)) => {
                    if is_stale_cursor(self.local_cursor, gc) {
                        self.fail(CycleStatus::StaleCursor, None)
                    } else {
                        self.phase = CyclePhase::PreparePush;
                        self.remote_cursor = remote;
                        CycleAction::PreparePush
                    }
                },
            },
            (CyclePhase::PreparePush, CycleInput::PushPrepared { encrypted, count, max_retry_count }) => {
                if !encrypted {
                    self.fail(CycleStatus::PushPrepareError, Some(15))
                } else if count == 0 {
                    self.phase = CyclePhase::VerifyLock;
                    CycleAction::VerifyLock
                } else {
                    self.phase = CyclePhase::Push;
                    self.max_retry_count = max_retry_count;
                    CycleAction::Push
                }
            },
            (CyclePhase::Push, CycleInput::PushResult(r)) => match r {
                Ok(sent) => {
                    self.phase = CyclePhase::VerifyLock;
                    self.pushed_count = sent;
                    CycleAction::VerifyLock
                },
                Err(e) => {
                    let plan = plan_push_failure(&e, self.max_retry_count);
                    self.phase = CyclePhase::Done;
                    CycleAction::Finish(CycleFinish { status: plan.status, retry_secs: plan.retry_secs, record_error: true, outbox: Some(plan) })
                },
            },
            (CyclePhase::VerifyLock, CycleInput::LockHeld(held)) => {
                if held {
                    if self.remote_cursor > self.local_cursor {
                        self.phase = CyclePhase::Pull;
                        CycleAction::Pull { since: self.local_cursor }
                    } else {
                        self.finish_ok()
                    }
                } else {
                    self.phase = CyclePhase::Done;
                    CycleAction::Finish(CycleFinish { status: CycleStatus::Preempted, retry_secs: None, record_error: false, outbox: None })
                }
            },
            (CyclePhase::Pull, CycleInput::Pulled(r)) => match r {
                Err(e) => {
                    let (s, secs) = plan_pull_failure(&e);
                    self.fail(s, Some(secs))
                },
                Ok(page) => {
                    if is_stale_cursor(self.local_cursor, page.gc_watermark) {
                        self.fail(CycleStatus::StaleCursor, None)
                    } else if page.blocked {
                        self.fail(CycleStatus::ReplayBlocked, Some(REPLAY_BLOCKED_RETRY_SECS))
                    } else if !page.decoded {
                        self.fail(CycleStatus::ReplayError, Some(REPLAY_ERROR_RETRY_SECS))
                    } else {
                        self.phase = CyclePhase::ApplyBatch;
                        self.page = Some(page);
                        CycleAction::ApplyBatch
                    }
                },
            },
            (CyclePhase::ApplyBatch, CycleInput::Applied(r)) => match (r, self.page) {
                (Some(applied), Some(page)) => {
                    let cursor = advance_cursor(self.local_cursor, page.next_cursor);
                    self.local_cursor = cursor;
                    self.pulled_count = self.pulled_count.saturating_add(applied);
                    self.phase = CyclePhase::StoreCursor;
                    CycleAction::StoreCursor { cursor }
                },
                _ => self.fail(CycleStatus::ReplayError, Some(REPLAY_ERROR_RETRY_SECS)),
            },
            (CyclePhase::StoreCursor, CycleInput::CursorStored) => match self.page {
                Some(p) => {
                    if p.has_more {
                        self.phase = CyclePhase::Pull;
                        self.page = None;
                        CycleAction::Pull { since: self.local_cursor }
                    } else {
                        self.page = None;
                        self.finish_ok()
                    }
                },
                None => self.finish_ok(),
            },
            (CyclePhase::Done, _) => self.finish_ok(),
            _ => CycleAction::Finish(CycleFinish { status: CycleStatus::StateError, retry_secs: Some(15), record_error: true, outbox: None }),
        }
    }
}

} // verus!

verus! {

/// Within a cycle the cursor only moves forward: once the lock is held and
/// the stored cursor read, no step lowers it, and every cursor handed out to
/// be stored is at least the one before.
pub proof fn lemma_cycle_cursor_monotonic(m: CycleMachine, input: CycleInput)
    requires
        m.phase != CyclePhase::AcquireLock,
    ensures
        spec_cycle_step(m, input).0.local_cursor >= m.local_cursor,
        spec_cycle_step(m, input).1 matches CycleAction::StoreCursor { cursor } ==> cursor >= m.local_cursor
            && cursor == spec_cycle_step(m, input).0.local_cursor,
{
}

} // verus!
