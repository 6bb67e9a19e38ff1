use vstd::prelude::*;
use crate::model::{SyncEntity, SyncOperation, SyncOutboxEvent, SyncOutboxStatus};
use crate::text::{trim, trim_seq};

verus! {

/// A local mutation to be recorded in the outbox. `payload` is the row's
/// JSON text; a key version of 0 asks for the current team key.
#[derive(Debug, Clone, PartialEq)]
pub struct OutboxWriteRequest {
    pub event_id: Option<String>,
    pub entity: SyncEntity,
    pub entity_id: String,
    pub op: SyncOperation,
    pub client_timestamp: String,
    pub payload: String,
    pub payload_key_version: i32,
}

impl OutboxWriteRequest {
    /// A request stamped `client_timestamp`, with a fresh event id and the
    /// current key version to be resolved when written.
    pub fn new(entity: SyncEntity, entity_id: String, op: SyncOperation, payload: String, client_timestamp: String) -> (r: Self)
        ensures
            r.event_id is None,
            r.entity == entity,
            r.entity_id == entity_id,
            r.op == op,
            r.payload == payload,
            r.client_timestamp == client_timestamp,
            r.payload_key_version == 0,
    {
        OutboxWriteRequest { event_id: None, entity, entity_id, op, client_timestamp, payload, payload_key_version: 0 }
    }
}

/// Whether a relay base URL is configured: present and not blank.
pub open spec fn spec_is_connect_configured(api_url: Option<Seq<char>>) -> bool {
    match api_url {
        Some(u) => trim_seq(u).len() > 0,
        None => false,
    }
}

pub fn is_connect_configured(api_url: Option<&str>) -> (r: bool)
    ensures
        r == spec_is_connect_configured(match api_url {
            Some(u) => Some(u@),
            None => None,
        }),
{
    match api_url {
        Some(u) => trim(u).unicode_len() > 0,
        None => false,
    }
}

pub open spec fn max_or_one(vs: Seq<i32>) -> int
    decreases vs.len(),
{
    if vs.len() == 0 {
        1
    } else {
        let rest = max_or_one(vs.drop_last());
        if vs.last() > rest { vs.last() as int } else { rest }
    }
}

/// The key version an outbox event is written with: the requested one when
/// positive, else the greatest key version among trusted devices, at least 1.
pub open spec fn spec_resolve_key_version(requested: i32, trusted_versions: Seq<i32>) -> int {
    if requested > 0 {
        requested as int
    } else {
        max_or_one(trusted_versions)
    }
}

pub fn resolve_payload_key_version(requested: i32, trusted_versions: &Vec<i32>) -> (r: i32)
    ensures
        r == spec_resolve_key_version(requested, trusted_versions@),
        r >= 1,
        requested <= 0 ==> forall|i: int| 0 <= i < trusted_versions@.len() ==> trusted_versions@[i] <= r,
{
    if requested > 0 {
        return requested;
    }
    let mut best: i32 = 1;
    let mut i: usize = 0;
    while i < trusted_versions.len()
        invariant
            i <= trusted_versions@.len(),
            best == max_or_one(trusted_versions@.subrange(0, i as int)),
            best >= 1,
            forall|k: int| 0 <= k < i ==> trusted_versions@[k] <= best,
        decreases trusted_versions.len() - i,
    {
        assert(trusted_versions@.subrange(0, i + 1).drop_last() =~= trusted_versions@.subrange(0, i as int));
        if trusted_versions[i] > best {
            best = trusted_versions[i];
        }
        i += 1;
    }
    assert(trusted_versions@.subrange(0, trusted_versions@.len() as int) =~= trusted_versions@);
    best
}

/// The outbox row for a mutation, or `None` when sync is not configured and
/// the write is a no-op. `fresh_event_id` is used when the request names no
/// id; `now` stamps the row.
pub fn build_outbox_event(
    request: OutboxWriteRequest,
    configured: bool,
    trusted_versions: &Vec<i32>,
    fresh_event_id: String,
    now: String,
) -> (r: Option<SyncOutboxEvent>)
    ensures
        !configured <==> r is None,
        r matches Some(e) ==> {
            &&& e.event_id == match request.event_id {
                Some(id) => id,
                None => fresh_event_id,
            }
            &&& e.entity == request.entity
            &&& e.entity_id == request.entity_id
            &&& e.op == request.op
            &&& e.client_timestamp == request.client_timestamp
            &&& e.payload == request.payload
            &&& e.payload_key_version == spec_resolve_key_version(request.payload_key_version, trusted_versions@)
            &&& !e.sent
            &&& e.status == SyncOutboxStatus::Pending
            &&& e.retry_count == 0
            &&& e.next_retry_at is None
            &&& e.last_error is None
            &&& e.last_error_code is None
            &&& e.created_at == now
        },
{
    if !configured {
        return None;
    }
    let event_id = match request.event_id {
        Some(id) => id,
        None => fresh_event_id,
    };
    let key_version = resolve_payload_key_version(request.payload_key_version, trusted_versions);
    Some(SyncOutboxEvent {
        event_id,
        entity: request.entity,
        entity_id: request.entity_id,
        op: request.op,
        client_timestamp: request.client_timestamp,
        payload: request.payload,
        payload_key_version: key_version,
        sent: false,
        status: SyncOutboxStatus::Pending,
        retry_count: 0,
        next_retry_at: None,
        last_error: None,
        last_error_code: None,
        created_at: now,
    })
}

/// Whether a pending outbox event is due for a push at `now`: never retried
/// yet, or its retry time is not after `now` (RFC 3339 text compared as
/// stored).
pub open spec fn spec_outbox_due(e: SyncOutboxEvent, now: Seq<char>) -> bool {
    e.status == SyncOutboxStatus::Pending && !e.sent && match e.next_retry_at {
        None => true,
        Some(t) => !crate::lww::lex_lt(now, t@),
    }
}

pub fn outbox_due(e: &SyncOutboxEvent, now: &str) -> (r: bool)
    ensures
        r == spec_outbox_due(*e, now@),
{
    if e.status != SyncOutboxStatus::Pending || e.sent {
        return false;
    }
    match &e.next_retry_at {
        None => true,
        Some(t) => !crate::lww::str_lt(now, t.as_str()),
    }
}

} // verus!

verus! {

pub open spec fn created(events: Seq<SyncOutboxEvent>, i: int) -> Seq<char> {
    events[i].created_at@
}

fn index_taken(taken: &Vec<usize>, k: usize) -> (r: bool)
    ensures
        r == taken@.contains(k),
{
    let mut i: usize = 0;
    while i < taken.len()
        invariant
            i <= taken@.len(),
            forall|j: int| 0 <= j < i ==> taken@[j] != k,
        decreases taken.len() - i,
    {
        if taken[i] == k {
            assert(taken@[i as int] == k);
            return true;
        }
        i += 1;
    }
    false
}

/// The outbox events to push: up to `limit` of those due at `now`, by
/// index, earliest `created_at` first (RFC 3339 text compared as stored).
/// When fewer than `limit` are given, every due event is among them.
pub fn select_pending(events: &Vec<SyncOutboxEvent>, now: &str, limit: usize) -> (r: Vec<usize>)
    ensures
        r@.len() <= limit,
        forall|i: int| 0 <= i < r@.len() ==> #[trigger] r@[i] < events@.len() && spec_outbox_due(events@[r@[i] as int], now@),
        forall|i: int, j: int| 0 <= i < j < r@.len() ==> r@[i] != r@[j],
        forall|i: int, j: int| 0 <= i < j < r@.len() ==> !crate::lww::lex_lt(created(events@, r@[j] as int), created(events@, r@[i] as int)),
        forall|k: int, i: int| 0 <= k < events@.len() && spec_outbox_due(events@[k], now@) && !r@.contains(k as usize) && 0 <= i < r@.len()
            ==> !crate::lww::lex_lt(#[trigger] created(events@, k), created(events@, #[trigger] r@[i] as int)),
        r@.len() < limit ==> forall|k: int| 0 <= k < events@.len() && spec_outbox_due(#[trigger] events@[k], now@) ==> r@.contains(k as usize),
{
    let mut taken: Vec<usize> = Vec::new();
    loop
        invariant
            taken@.len() <= limit,
            forall|i: int| 0 <= i < taken@.len() ==> #[trigger] taken@[i] < events@.len() && spec_outbox_due(events@[taken@[i] as int], now@),
            forall|i: int, j: int| 0 <= i < j < taken@.len() ==> taken@[i] != taken@[j],
            forall|i: int, j: int| 0 <= i < j < taken@.len() ==> !crate::lww::lex_lt(created(events@, taken@[j] as int), created(events@, taken@[i] as int)),
            forall|k: int, i: int| 0 <= k < events@.len() && spec_outbox_due(events@[k], now@) && !taken@.contains(k as usize) && 0 <= i < taken@.len()
                ==> !crate::lww::lex_lt(#[trigger] created(events@, k), created(events@, #[trigger] taken@[i] as int)),
        ensures
            taken@.len() <= limit,
            forall|i: int| 0 <= i < taken@.len() ==> #[trigger] taken@[i] < events@.len() && spec_outbox_due(events@[taken@[i] as int], now@),
            forall|i: int, j: int| 0 <= i < j < taken@.len() ==> taken@[i] != taken@[j],
            forall|i: int, j: int| 0 <= i < j < taken@.len() ==> !crate::lww::lex_lt(created(events@, taken@[j] as int), created(events@, taken@[i] as int)),
            forall|k: int, i: int| 0 <= k < events@.len() && spec_outbox_due(events@[k], now@) && !taken@.contains(k as usize) && 0 <= i < taken@.len()
                ==> !crate::lww::lex_lt(#[trigger] created(events@, k), created(events@, #[trigger] taken@[i] as int)),
            taken@.len() < limit ==> forall|k: int| 0 <= k < events@.len() && spec_outbox_due(#[trigger] events@[k], now@) ==> taken@.contains(k as usize),
        decreases limit - taken@.len(),
    {
        if taken.len() >= limit {
            break;
        }
        // Earliest due event not taken yet.
        let mut best: Option<usize> = None;
        let mut k: usize = 0;
        while k < events.len()
            invariant
                k <= events@.len(),
                match best {
                    Some(b) => b < k && spec_outbox_due(events@[b as int], now@) && !taken@.contains(b)
                        && forall|j: int| 0 <= j < k && spec_outbox_due(events@[j], now@) && !taken@.contains(j as usize)
                            ==> !crate::lww::lex_lt(#[trigger] created(events@, j), created(events@, b as int)),
                    None => forall|j: int| 0 <= j < k ==> !(spec_outbox_due(#[trigger] events@[j], now@) && !taken@.contains(j as usize)),
                },
            decreases events@.len() - k,
        {
            if outbox_due(&events[k], now) && !index_taken(&taken, k) {
                match best {
                    None => {
                        proof {
                            crate::lww::lemma_lex_lt_irreflexive(created(events@, k as int));
                        }
                        best = Some(k);
                    },
                    Some(b) => {
                        if crate::lww::str_lt(events[k].created_at.as_str(), events[b].created_at.as_str()) {
                            proof {
                                crate::lww::lemma_lex_lt_irreflexive(created(events@, k as int));
                                assert forall|j: int| 0 <= j < k + 1 && spec_outbox_due(events@[j], now@) && !taken@.contains(j as usize)
                                    implies !crate::lww::lex_lt(#[trigger] created(events@, j), created(events@, k as int)) by {
                                    if j < k && crate::lww::lex_lt(created(events@, j), created(events@, k as int)) {
                                        crate::lww::lemma_lex_lt_transitive(created(events@, j), created(events@, k as int), created(events@, b as int));
                                    }
                                }
                            }
                            best = Some(k);
                        }
                    },
                }
            }
            k += 1;
        }
        match best {
            None => {
                break;
            },
            Some(b) => {
                let ghost before = taken@;
                taken.push(b);
                proof {
                    assert forall|x: int| 0 <= x < events@.len() && spec_outbox_due(events@[x], now@) && !taken@.contains(x as usize)
                        implies !before.contains(x as usize) by {
                        if before.contains(x as usize) {
                            let i = choose|i: int| 0 <= i < before.len() && before[i] == x as usize;
                            assert(taken@[i] == x as usize);
                        }
                    }
                    assert forall|i: int| 0 <= i < before.len() implies #[trigger] taken@[i] != b by {
                        assert(before.contains(taken@[i]));
                    }
                    assert forall|x: int| 0 <= x < events@.len() && spec_outbox_due(events@[x], now@) && x as usize != b && !before.contains(x as usize)
                        implies !taken@.contains(x as usize) by {
                        if taken@.contains(x as usize) {
                            let i = choose|i: int| 0 <= i < taken@.len() && taken@[i] == x as usize;
                            if i < before.len() {
                                assert(before[i] == x as usize);
                            }
                        }
                    }
                }
            },
        }
    }
    taken
}

} // verus!

verus! {

/// What a local mutation of a syncable row writes besides the row itself,
/// in the same transaction: its outbox event and the row's LWW metadata
/// stamped with that event, so that an older remote event does not
/// overwrite it. `None` when sync is not configured.
pub fn local_write_records(
    request: OutboxWriteRequest,
    configured: bool,
    trusted_versions: &Vec<i32>,
    fresh_event_id: String,
    now: String,
) -> (r: Option<(SyncOutboxEvent, crate::model::SyncEntityMetadata)>)
    ensures
        !configured <==> r is None,
        r matches Some((e, m)) ==> {
            &&& e.event_id == match request.event_id {
                Some(id) => id,
                None => fresh_event_id,
            }
            &&& e.entity == request.entity
            &&& e.entity_id == request.entity_id
            &&& e.op == request.op
            &&& e.client_timestamp == request.client_timestamp
            &&& e.payload == request.payload
            &&& e.payload_key_version == spec_resolve_key_version(request.payload_key_version, trusted_versions@)
            &&& !e.sent && e.status == SyncOutboxStatus::Pending && e.retry_count == 0
            &&& e.next_retry_at is None && e.last_error is None && e.last_error_code is None
            &&& e.created_at == now
            &&& m.entity == e.entity && m.entity_id@ == e.entity_id@
            &&& m.last_event_id@ == e.event_id@ && m.last_client_timestamp@ == e.client_timestamp@
            &&& m.last_seq == 0
        },
{
    match build_outbox_event(request, configured, trusted_versions, fresh_event_id, now) {
        None => None,
        Some(e) => {
            let m = crate::lww::local_write_metadata(&e, 0);
            Some((e, m))
        },
    }
}

} // verus!
