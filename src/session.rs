use vstd::prelude::*;

verus! {

/// Session tokens handed over by the sign-in flow.
#[derive(Debug, Clone, PartialEq, Eq)]
pub struct StoreSyncSessionRequest {
    pub access_token: Option<String>,
    pub refresh_token: String,
}

/// Whether a sync session is configured.
#[derive(Debug, Clone, Copy, PartialEq, Eq, Structural)]
pub struct SyncSessionStatus {
    pub is_configured: bool,
}

/// Query of the import-runs listing.
#[derive(Debug, Clone, PartialEq, Eq)]
pub struct GetImportRunsQuery {
    pub run_type: Option<String>,
    pub limit: Option<i64>,
    pub offset: Option<i64>,
}

/// Access tokens are refreshed this many seconds before they expire.
pub const TOKEN_EXPIRY_BUFFER_SECS: u64 = 60;

/// Lifetime assumed for a token whose lifetime was not reported.
pub const DEFAULT_TOKEN_TTL_SECS: u64 = 3300;

/// Seconds an access token is cached: its reported lifetime (an hour when
/// none is reported) less the 60 s buffer, floored at 0.
pub open spec fn spec_access_token_ttl(expires_in: Option<i64>) -> int {
    let e: int = match expires_in {
        Some(v) => v as int,
        None => 3600,
    };
    if e < 60 { 0 } else { e - 60 }
}

pub fn access_token_ttl_secs(expires_in: Option<i64>) -> (r: u64)
    ensures
        r == spec_access_token_ttl(expires_in),
{
    let e: i64 = match expires_in {
        Some(v) => v,
        None => 3600,
    };
    if e < 60 {
        0
    } else {
        (e - 60) as u64
    }
}

/// A cached access token and the instant (ms) after which it is refreshed.
#[derive(Debug, Clone, PartialEq, Eq)]
pub struct CachedAccessToken {
    pub token: String,
    pub expires_at_ms: u64,
}

impl CachedAccessToken {
    /// Caches `token` received at `now_ms` with the given reported lifetime.
    pub fn new(token: String, now_ms: u64, expires_in: Option<i64>) -> (r: Self)
        ensures
            r.token == token,
            r.expires_at_ms == if now_ms + spec_access_token_ttl(expires_in) * 1000 > u64::MAX {
                u64::MAX as int
            } else {
                now_ms + spec_access_token_ttl(expires_in) * 1000
            },
    {
        let ttl = access_token_ttl_secs(expires_in);
        let ms: u64 = if ttl > u64::MAX / 1000 { u64::MAX } else { ttl * 1000 };
        CachedAccessToken { token, expires_at_ms: now_ms.saturating_add(ms) }
    }

    /// The token is used only strictly before its refresh instant.
    pub fn is_fresh(&self, now_ms: u64) -> (r: bool)
        ensures
            r == (self.expires_at_ms > now_ms),
    {
        self.expires_at_ms > now_ms
    }
}

} // verus!
