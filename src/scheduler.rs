use vstd::prelude::*;
use crate::cycle::CycleStatus;

verus! {

pub const FOREGROUND_INTERVAL_SECS: u64 = 45;

pub const INTERVAL_JITTER_SECS: u64 = 5;

pub const SNAPSHOT_INTERVAL_SECS: i64 = 86400;

pub const SNAPSHOT_EVENT_THRESHOLD: i64 = 1000;

/// Consecutive `not_ready` or `config_error` cycles after which the
/// background loop stops.
pub const MAX_CONSECUTIVE_NOT_READY: u32 = 5;

/// Jitter in `[0, 5000)` ms taken from a sample (a clock reading or a random
/// number).
pub fn jitter_ms(sample: u64) -> (r: u64)
    ensures
        r == sample % 5000,
        r < 5000,
{
    sample % 5000
}

/// Delay before the next background cycle: the foreground interval plus
/// jitter; or, when the engine asked to retry after `retry_wait_ms`, that
/// wait plus jitter and at least one second; at most about two seconds while
/// the outbox has pending events.
pub open spec fn spec_next_delay_ms(jitter: u64, retry_wait_ms: Option<u64>, has_pending: bool) -> int {
    let base: int = 45000 + jitter;
    let with_retry: int = match retry_wait_ms {
        Some(w) => {
            let s: int = if w + jitter > u64::MAX { u64::MAX as int } else { w + jitter };
            if s < 1000 { 1000 } else { s }
        },
        None => base,
    };
    let cap: int = 2000 + jitter % 500;
    if has_pending && cap < with_retry {
        cap
    } else {
        with_retry
    }
}

pub fn next_delay_ms(jitter: u64, retry_wait_ms: Option<u64>, has_pending: bool) -> (r: u64)
    requires
        jitter < 5000,
    ensures
        r == spec_next_delay_ms(jitter, retry_wait_ms, has_pending),
{
    let mut delay: u64 = FOREGROUND_INTERVAL_SECS * 1000 + jitter;
    if let Some(w) = retry_wait_ms {
        let s = w.saturating_add(jitter);
        delay = if s < 1000 { 1000 } else { s };
    }
    if has_pending {
        let cap = 2000 + jitter % 500;
        if cap < delay {
            delay = cap;
        }
    }
    delay
}

/// What the background loop does after a cycle.
#[derive(Debug, Clone, Copy, PartialEq, Eq, Structural)]
pub enum LoopAction {
    /// Stop the loop.
    Stop,
    /// Sleep and run again; first evaluate the snapshot policy when asked.
    Continue { evaluate_snapshot_policy: bool },
}

/// State the background loop carries between cycles.
#[derive(Debug, Clone, Copy, PartialEq, Eq, Structural)]
pub struct LoopState {
    pub consecutive_not_ready: u32,
}

pub open spec fn counts_as_not_ready(s: CycleStatus) -> bool {
    s == CycleStatus::NotReady || s == CycleStatus::ConfigError
}

impl LoopState {
    pub fn new() -> (r: Self)
        ensures
            r.consecutive_not_ready == 0,
    {
        LoopState { consecutive_not_ready: 0 }
    }

    /// Records one cycle outcome (`None` when the cycle failed outright) and
    /// decides whether the loop goes on. `device_revoked` tells whether the
    /// local identity holds a device id but no root key; a revoked device
    /// stops the loop whatever the outcome.
    pub fn after_cycle(&mut self, outcome: Option<CycleStatus>, device_revoked: bool) -> (r: LoopAction)
        ensures
            final(self).consecutive_not_ready == match outcome {
                Some(s) => if counts_as_not_ready(s) {
                    if old(self).consecutive_not_ready == u32::MAX { u32::MAX as int } else { old(self).consecutive_not_ready + 1 }
                } else {
                    0
                },
                None => 0,
            },
            r == LoopAction::Stop <==> (device_revoked || final(self).consecutive_not_ready >= MAX_CONSECUTIVE_NOT_READY),
            r != LoopAction::Stop ==> r == (LoopAction::Continue { evaluate_snapshot_policy: outcome == Some(CycleStatus::Success) }),
    {
        match outcome {
            Some(s) => {
                if s == CycleStatus::NotReady || s == CycleStatus::ConfigError {
                    self.consecutive_not_ready = self.consecutive_not_ready.saturating_add(1);
                } else {
                    self.consecutive_not_ready = 0;
                }
            },
            None => {
                self.consecutive_not_ready = 0;
            },
        }
        if device_revoked || self.consecutive_not_ready >= MAX_CONSECUTIVE_NOT_READY {
            return LoopAction::Stop;
        }
        LoopAction::Continue { evaluate_snapshot_policy: outcome == Some(CycleStatus::Success) }
    }
}

/// Whether a fresh snapshot should be uploaded: at least 1000 events applied
/// since the last uploaded cursor, or a day since the last upload (or no
/// upload yet).
pub open spec fn spec_snapshot_due(cursor: i64, last_uploaded_cursor: i64, secs_since_upload: Option<i64>) -> bool {
    let by_time = match secs_since_upload {
        Some(s) => s >= SNAPSHOT_INTERVAL_SECS,
        None => true,
    };
    let delta: int = cursor - last_uploaded_cursor;
    let sat: int = if delta > i64::MAX { i64::MAX as int } else if delta < i64::MIN { i64::MIN as int } else { delta };
    by_time || sat >= SNAPSHOT_EVENT_THRESHOLD
}

pub fn snapshot_due(cursor: i64, last_uploaded_cursor: i64, secs_since_upload: Option<i64>) -> (r: bool)
    ensures
        r == spec_snapshot_due(cursor, last_uploaded_cursor, secs_since_upload),
{
    let by_time = match secs_since_upload {
        Some(s) => s >= SNAPSHOT_INTERVAL_SECS,
        None => true,
    };
    let delta: i128 = cursor as i128 - last_uploaded_cursor as i128;
    by_time || delta >= SNAPSHOT_EVENT_THRESHOLD as i128
}

/// The snapshot policy's memory of the last successful upload.
#[derive(Debug, Clone, Copy, PartialEq, Eq, Structural)]
pub struct SnapshotPolicyState {
    pub last_uploaded_at_secs: Option<i64>,
    pub last_uploaded_cursor: i64,
}

impl SnapshotPolicyState {
    pub fn new() -> (r: Self)
        ensures
            r.last_uploaded_at_secs is None,
            r.last_uploaded_cursor == 0,
    {
        SnapshotPolicyState { last_uploaded_at_secs: None, last_uploaded_cursor: 0 }
    }

    /// Seconds since the last upload at `now_secs` (saturating), or `None`
    /// when nothing was uploaded yet.
    pub fn secs_since_upload(&self, now_secs: i64) -> (r: Option<i64>)
        ensures
            r == match self.last_uploaded_at_secs {
                Some(at) => Some(
                    (if now_secs - at > i64::MAX { i64::MAX as int } else if now_secs - at < i64::MIN { i64::MIN as int } else { now_secs - at }) as i64,
                ),
                None => None::<i64>,
            },
    {
        match self.last_uploaded_at_secs {
            Some(at) => {
                let d: i128 = now_secs as i128 - at as i128;
                Some(if d > i64::MAX as i128 { i64::MAX } else if d < i64::MIN as i128 { i64::MIN } else { d as i64 })
            },
            None => None,
        }
    }

    /// Whether a snapshot upload is due at `now_secs` with the local cursor
    /// at `cursor`.
    pub fn is_due(&self, cursor: i64, now_secs: i64) -> (r: bool)
        ensures
            r == spec_snapshot_due(cursor, self.last_uploaded_cursor, match self.last_uploaded_at_secs {
                Some(at) => Some(
                    (if now_secs - at > i64::MAX { i64::MAX as int } else if now_secs - at < i64::MIN { i64::MIN as int } else { now_secs - at }) as i64,
                ),
                None => None::<i64>,
            }),
    {
        snapshot_due(cursor, self.last_uploaded_cursor, self.secs_since_upload(now_secs))
    }

    /// Records an upload at `now_secs`; the cursor is the snapshot's
    /// sequence when the relay reported one, else the local cursor.
    pub fn record_upload(&mut self, now_secs: i64, oplog_seq: Option<i64>, cursor: i64)
        ensures
            final(self).last_uploaded_at_secs == Some(now_secs),
            final(self).last_uploaded_cursor == match oplog_seq {
                Some(s) => s,
                None => cursor,
            },
    {
        self.last_uploaded_at_secs = Some(now_secs);
        self.last_uploaded_cursor = match oplog_seq {
            Some(s) => s,
            None => cursor,
        };
    }
}

} // verus!

verus! {

/// Milliseconds from `now_ms` until the RFC 3339 instant `target` (0 once
/// it has passed), or `None` when `target` is not RFC 3339.
pub open spec fn spec_millis_until(target: Seq<char>, now_ms: i64) -> Option<int> {
    match crate::lww::rfc3339_millis(target) {
        None => None,
        Some(t) => if t - now_ms <= 0 { Some(0) } else { Some(t - now_ms) },
    }
}

pub fn millis_until_rfc3339(target: &str, now_ms: i64) -> (r: Option<u64>)
    ensures
        match r {
            Some(v) => spec_millis_until(target@, now_ms) == Some(v as int),
            None => spec_millis_until(target@, now_ms) is None,
        },
{
    match crate::lww::parse_rfc3339_millis(target) {
        None => None,
        Some(t) => {
            let diff: i128 = t as i128 - now_ms as i128;
            if diff <= 0 {
                Some(0)
            } else {
                Some(diff as u64)
            }
        },
    }
}

} // verus!
