use vstd::prelude::*;
use crate::text::{contains_seq, contains_str};

verus! {

/// Retry policy classification for failed relay calls.
#[derive(Debug, Clone, Copy, PartialEq, Eq, Structural)]
pub enum SyncRetryClass {
    Retryable,
    Permanent,
    ReauthRequired,
}

/// Retry policy class of an error returned by the relay client.
#[derive(Debug, Clone, Copy, PartialEq, Eq, Structural)]
pub enum ApiRetryClass {
    Retryable,
    Permanent,
    ReauthRequired,
}

/// Cycle metrics reported by the orchestrator.
#[derive(Debug, Clone, PartialEq, Eq)]
pub struct SyncCycleMetrics {
    pub pushed_count: usize,
    pub pulled_count: usize,
    pub duration_ms: i64,
    pub status: String,
}

/// Statuses that a caller may retry later.
pub open spec fn is_retryable_status(status: u16) -> bool {
    status == 408 || status == 409 || status == 423 || status == 425 || status == 429
        || (500 <= status && status <= 599)
}

pub open spec fn is_reauth_status(status: u16) -> bool {
    status == 401 || status == 403
}

pub open spec fn spec_classify_http_status(status: u16) -> SyncRetryClass {
    if is_reauth_status(status) {
        SyncRetryClass::ReauthRequired
    } else if is_retryable_status(status) {
        SyncRetryClass::Retryable
    } else {
        SyncRetryClass::Permanent
    }
}

/// Classifies an HTTP status into retry behavior.
pub fn classify_http_status(status: u16) -> (r: SyncRetryClass)
    ensures
        r == spec_classify_http_status(status),
{
    if status == 401 || status == 403 {
        SyncRetryClass::ReauthRequired
    } else if status == 408 || status == 409 || status == 423 || status == 425 || status == 429 {
        SyncRetryClass::Retryable
    } else if 500 <= status && status <= 599 {
        SyncRetryClass::Retryable
    } else {
        SyncRetryClass::Permanent
    }
}

pub open spec fn pow2(n: nat) -> nat
    decreases n,
{
    if n == 0 {
        1
    } else {
        2 * pow2((n - 1) as nat)
    }
}

/// `failures` clamped into `[0, 8]`.
pub open spec fn backoff_exponent(failures: int) -> nat {
    if failures < 0 {
        0
    } else if failures > 8 {
        8
    } else {
        failures as nat
    }
}

/// Exponential backoff `5 * 2^min(failures, 8)` seconds.
pub open spec fn spec_backoff_seconds(failures: int) -> int {
    (5 * pow2(backoff_exponent(failures))) as int
}

/// Exponential backoff in seconds, capped at 1280.
pub fn backoff_seconds(consecutive_failures: i32) -> (r: i64)
    ensures
        r == spec_backoff_seconds(consecutive_failures as int),
        5 <= r <= 1280,
{
    reveal_with_fuel(pow2, 9);
    let exp: i32 = if consecutive_failures < 0 {
        0
    } else if consecutive_failures > 8 {
        8
    } else {
        consecutive_failures
    };
    let p: i64 = match exp {
        0 => 1,
        1 => 2,
        2 => 4,
        3 => 8,
        4 => 16,
        5 => 32,
        6 => 64,
        7 => 128,
        _ => 256,
    };
    5 * p
}

/// Errors produced by the relay client, with transport and decoding failures
/// carried as their messages.
#[derive(Debug, Clone, PartialEq, Eq)]
pub enum DeviceSyncError {
    Http(String),
    Json(String),
    Api { status: u16, message: String },
    InvalidRequest(String),
    Auth(String),
}

pub open spec fn spec_retry_class(e: DeviceSyncError) -> ApiRetryClass {
    match e {
        DeviceSyncError::Api { status, .. } => if is_reauth_status(status) {
            ApiRetryClass::ReauthRequired
        } else if is_retryable_status(status) {
            ApiRetryClass::Retryable
        } else {
            ApiRetryClass::Permanent
        },
        DeviceSyncError::Http(_) => ApiRetryClass::Retryable,
        DeviceSyncError::Json(_) => ApiRetryClass::Permanent,
        DeviceSyncError::InvalidRequest(_) => ApiRetryClass::Permanent,
        DeviceSyncError::Auth(_) => ApiRetryClass::ReauthRequired,
    }
}

/// The text of an error, as carried by each variant.
pub open spec fn error_text(e: DeviceSyncError) -> Seq<char> {
    match e {
        DeviceSyncError::Http(m) => m@,
        DeviceSyncError::Json(m) => m@,
        DeviceSyncError::Api { message, .. } => message@,
        DeviceSyncError::InvalidRequest(m) => m@,
        DeviceSyncError::Auth(m) => m@,
    }
}

impl DeviceSyncError {
    /// The text the error carries.
    pub fn text(&self) -> (r: &str)
        ensures
            r@ == error_text(*self),
    {
        match self {
            DeviceSyncError::Http(m) => m.as_str(),
            DeviceSyncError::Json(m) => m.as_str(),
            DeviceSyncError::Api { message, .. } => message.as_str(),
            DeviceSyncError::InvalidRequest(m) => m.as_str(),
            DeviceSyncError::Auth(m) => m.as_str(),
        }
    }

    pub fn api(status: u16, message: String) -> (r: Self)
        ensures
            r == (DeviceSyncError::Api { status, message }),
    {
        DeviceSyncError::Api { status, message }
    }

    pub fn invalid_request(message: String) -> (r: Self)
        ensures
            r == DeviceSyncError::InvalidRequest(message),
    {
        DeviceSyncError::InvalidRequest(message)
    }

    pub fn auth(message: String) -> (r: Self)
        ensures
            r == DeviceSyncError::Auth(message),
    {
        DeviceSyncError::Auth(message)
    }

    /// HTTP status if this is an API error.
    pub fn status_code(&self) -> (r: Option<u16>)
        ensures
            r == (match *self {
                DeviceSyncError::Api { status, .. } => Some(status),
                _ => None,
            }),
    {
        match self {
            DeviceSyncError::Api { status, .. } => Some(*status),
            _ => None,
        }
    }

    /// Whether the relay rejected a snapshot id as not being a UUID.
    pub fn is_snapshot_id_validation_error(&self) -> (r: bool)
        ensures
            r == (match *self {
                DeviceSyncError::Api { status, message } => status == 400 && contains_seq(message@, "snapshotId"@)
                    && (contains_seq(message@, "Invalid UUID"@) || contains_seq(message@, "invalid_format"@)),
                _ => false,
            }),
    {
        match self {
            DeviceSyncError::Api { status, message } => {
                *status == 400 && contains_str(message.as_str(), "snapshotId") && (contains_str(message.as_str(), "Invalid UUID")
                    || contains_str(message.as_str(), "invalid_format"))
            },
            _ => false,
        }
    }

    /// Classifies the error for the retry policy.
    pub fn retry_class(&self) -> (r: ApiRetryClass)
        ensures
            r == spec_retry_class(*self),
    {
        match self {
            DeviceSyncError::Api { status, .. } => {
                let s = *status;
                if s == 401 || s == 403 {
                    ApiRetryClass::ReauthRequired
                } else if s == 408 || s == 409 || s == 423 || s == 425 || s == 429 {
                    ApiRetryClass::Retryable
                } else if 500 <= s && s <= 599 {
                    ApiRetryClass::Retryable
                } else {
                    ApiRetryClass::Permanent
                }
            },
            DeviceSyncError::Http(_) => ApiRetryClass::Retryable,
            DeviceSyncError::Json(_) => ApiRetryClass::Permanent,
            DeviceSyncError::InvalidRequest(_) => ApiRetryClass::Permanent,
            DeviceSyncError::Auth(_) => ApiRetryClass::ReauthRequired,
        }
    }
}

/// Short code stored with an outbox event that failed with this class.
pub fn retry_class_code(class: ApiRetryClass) -> (r: &'static str)
    ensures
        r@ == (match class {
            ApiRetryClass::Retryable => "retryable"@,
            ApiRetryClass::Permanent => "permanent"@,
            ApiRetryClass::ReauthRequired => "reauth_required"@,
        }),
{
    match class {
        ApiRetryClass::Retryable => "retryable",
        ApiRetryClass::Permanent => "permanent",
        ApiRetryClass::ReauthRequired => "reauth_required",
    }
}

/// Snapshot uploads retry on 408, 429 and 5xx only.
pub open spec fn spec_is_retryable_snapshot_status(status: u16) -> bool {
    status == 408 || status == 429 || (500 <= status && status <= 599)
}

pub fn is_retryable_snapshot_status(status: u16) -> (r: bool)
    ensures
        r == spec_is_retryable_snapshot_status(status),
{
    status == 408 || status == 429 || (500 <= status && status <= 599)
}

/// Largest number of attempts made for one snapshot upload.
pub const SNAPSHOT_UPLOAD_MAX_ATTEMPTS: usize = 5;

pub const SNAPSHOT_UPLOAD_BASE_BACKOFF_MS: u64 = 250;

pub const SNAPSHOT_UPLOAD_MAX_BACKOFF_MS: u64 = 8000;

/// Backoff before the next snapshot upload attempt, before jitter:
/// `min(250 * 2^min(attempt - 1, 8), 8000)` milliseconds.
pub open spec fn spec_snapshot_backoff_ms(attempt: int) -> int {
    let e = if attempt <= 1 {
        0nat
    } else if attempt - 1 > 8 {
        8nat
    } else {
        (attempt - 1) as nat
    };
    let b: int = (250 * pow2(e)) as int;
    if b > 8000 {
        8000
    } else {
        b
    }
}

pub fn snapshot_backoff_ms(attempt: usize) -> (r: u64)
    ensures
        r == spec_snapshot_backoff_ms(attempt as int),
        250 <= r <= 8000,
{
    reveal_with_fuel(pow2, 9);
    let exp: usize = if attempt <= 1 {
        0
    } else if attempt - 1 > 8 {
        8
    } else {
        attempt - 1
    };
    let p: u64 = match exp {
        0 => 1,
        1 => 2,
        2 => 4,
        3 => 8,
        4 => 16,
        5 => 32,
        6 => 64,
        7 => 128,
        _ => 256,
    };
    let b = 250 * p;
    if b > 8000 {
        8000
    } else {
        b
    }
}

/// Upper bound (inclusive) of the jitter added to a snapshot backoff: a fifth
/// of the backoff, at least 1 ms.
pub fn snapshot_jitter_bound_ms(backoff_ms: u64) -> (r: u64)
    ensures
        r == (if backoff_ms / 5 < 1 { 1 } else { backoff_ms / 5 }),
{
    if backoff_ms / 5 < 1 {
        1
    } else {
        backoff_ms / 5
    }
}

/// Delay before the next snapshot upload attempt, given a jitter drawn in
/// `[0, snapshot_jitter_bound_ms(backoff)]`.
pub fn snapshot_backoff_with_jitter(attempt: usize, jitter_ms: u64) -> (r: u64)
    ensures
        r == (if spec_snapshot_backoff_ms(attempt as int) + jitter_ms > u64::MAX {
            u64::MAX as int
        } else {
            spec_snapshot_backoff_ms(attempt as int) + jitter_ms
        }),
{
    let b = snapshot_backoff_ms(attempt);
    b.saturating_add(jitter_ms)
}

/// Whether an upload that ended after `attempt` attempts with a retryable
/// failure is tried again.
pub fn should_retry_snapshot_upload(retryable: bool, attempt: usize) -> (r: bool)
    ensures
        r == (retryable && attempt < SNAPSHOT_UPLOAD_MAX_ATTEMPTS),
{
    retryable && attempt < SNAPSHOT_UPLOAD_MAX_ATTEMPTS
}

} // verus!
