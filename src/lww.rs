use vstd::prelude::*;
use crate::model::{SyncEntity, SyncOperation, SyncEntityMetadata, SyncOutboxEvent};
use crate::text::chars_of;

verus! {

/// The instant, in milliseconds since the Unix epoch, that an RFC 3339 text
/// denotes, or `None` when the text is not RFC 3339.
pub uninterp spec fn rfc3339_millis(s: Seq<char>) -> Option<i64>;

/// Relies on `chrono::DateTime::parse_from_rfc3339` followed by
/// `timestamp_millis`: the parsed instant, or `None` when parsing fails.
#[verifier::external_body]
pub(crate) fn parse_rfc3339_millis(s: &str) -> (r: Option<i64>)
    ensures
        r == rfc3339_millis(s@),
{
    chrono::DateTime::parse_from_rfc3339(s).ok().map(|dt| dt.timestamp_millis())
}

/// Strict lexicographic order of two strings by code point, which is the
/// byte order of their UTF-8 encodings.
pub open spec fn lex_lt(a: Seq<char>, b: Seq<char>) -> bool
    decreases a.len(),
{
    if b.len() == 0 {
        false
    } else if a.len() == 0 {
        true
    } else if a[0] < b[0] {
        true
    } else if a[0] > b[0] {
        false
    } else {
        lex_lt(a.drop_first(), b.drop_first())
    }
}

pub proof fn lemma_lex_lt_irreflexive(a: Seq<char>)
    ensures
        !lex_lt(a, a),
    decreases a.len(),
{
    if a.len() > 0 {
        lemma_lex_lt_irreflexive(a.drop_first());
    }
}

pub proof fn lemma_lex_lt_transitive(a: Seq<char>, b: Seq<char>, c: Seq<char>)
    requires
        lex_lt(a, b),
        lex_lt(b, c),
    ensures
        lex_lt(a, c),
    decreases a.len(),
{
    if a.len() > 0 && b.len() > 0 && c.len() > 0 && a[0] == b[0] && b[0] == c[0] {
        lemma_lex_lt_transitive(a.drop_first(), b.drop_first(), c.drop_first());
    }
}

pub proof fn lemma_lex_lt_total(a: Seq<char>, b: Seq<char>)
    requires
        a != b,
    ensures
        lex_lt(a, b) || lex_lt(b, a),
    decreases a.len(),
{
    if a.len() > 0 && b.len() > 0 && a[0] == b[0] {
        if a.drop_first() == b.drop_first() {
            assert(a =~= seq![a[0]] + a.drop_first());
            assert(b =~= seq![b[0]] + b.drop_first());
        }
        lemma_lex_lt_total(a.drop_first(), b.drop_first());
    } else if a.len() > 0 && b.len() > 0 {
        assert(a[0] != b[0]);
    } else if a.len() == 0 && b.len() == 0 {
        assert(a =~= b);
    }
}

pub proof fn lemma_lex_lt_asymmetric(a: Seq<char>, b: Seq<char>)
    requires
        lex_lt(a, b),
    ensures
        !lex_lt(b, a),
{
    if lex_lt(b, a) {
        lemma_lex_lt_transitive(a, b, a);
        lemma_lex_lt_irreflexive(a);
    }
}

/// `a < b` in the order of `lex_lt`.
pub fn str_lt(a: &str, b: &str) -> (r: bool)
    ensures
        r == lex_lt(a@, b@),
{
    let x = chars_of(a);
    let y = chars_of(b);
    let mut i: usize = 0;
    assert(a@.subrange(0, a@.len() as int) =~= a@);
    assert(b@.subrange(0, b@.len() as int) =~= b@);
    while i < x.len() && i < y.len()
        invariant
            x@ == a@,
            y@ == b@,
            i <= x@.len(),
            i <= y@.len(),
            x@.subrange(0, i as int) == y@.subrange(0, i as int),
            lex_lt(a@, b@) == lex_lt(a@.subrange(i as int, a@.len() as int), b@.subrange(i as int, b@.len() as int)),
        decreases x.len() - i,
    {
        let cx = x[i];
        let cy = y[i];
        let ghost sa = a@.subrange(i as int, a@.len() as int);
        let ghost sb = b@.subrange(i as int, b@.len() as int);
        if cx < cy {
            return true;
        }
        if cx > cy {
            return false;
        }
        assert(sa.drop_first() =~= a@.subrange(i + 1, a@.len() as int));
        assert(sb.drop_first() =~= b@.subrange(i + 1, b@.len() as int));
        assert(x@.subrange(0, i + 1) =~= x@.subrange(0, i as int).push(cx));
        assert(y@.subrange(0, i + 1) =~= y@.subrange(0, i as int).push(cy));
        assert(cx == cy);
        i += 1;
    }
    y.len() > i
}

/// Last-writer-wins: whether a remote mutation stamped
/// `(remote_ts, remote_id)` overwrites the local one stamped
/// `(local_ts, local_id)`. Timestamps are compared as instants when both are
/// RFC 3339, and as text otherwise; equal timestamps fall back to the event
/// ids.
pub open spec fn spec_should_apply_lww(
    local_ts: Seq<char>,
    local_id: Seq<char>,
    remote_ts: Seq<char>,
    remote_id: Seq<char>,
) -> bool {
    match (rfc3339_millis(local_ts), rfc3339_millis(remote_ts)) {
        (Some(l), Some(r)) => r > l || (r == l && lex_lt(local_id, remote_id)),
        _ => lex_lt(local_ts, remote_ts) || (local_ts == remote_ts && lex_lt(local_id, remote_id)),
    }
}

/// Decides whether an incoming remote mutation overwrites local state.
pub fn should_apply_lww(
    local_client_timestamp: &str,
    local_event_id: &str,
    remote_client_timestamp: &str,
    remote_event_id: &str,
) -> (r: bool)
    ensures
        r == spec_should_apply_lww(
            local_client_timestamp@,
            local_event_id@,
            remote_client_timestamp@,
            remote_event_id@,
        ),
{
    let local_parsed = parse_rfc3339_millis(local_client_timestamp);
    let remote_parsed = parse_rfc3339_millis(remote_client_timestamp);
    match (local_parsed, remote_parsed) {
        (Some(l), Some(r)) => {
            if r > l {
                return true;
            }
            if r == l {
                return str_lt(local_event_id, remote_event_id);
            }
            false
        },
        _ => {
            if str_lt(local_client_timestamp, remote_client_timestamp) {
                return true;
            }
            if crate::text::str_eq(remote_client_timestamp, local_client_timestamp) {
                return str_lt(local_event_id, remote_event_id);
            }
            false
        },
    }
}

/// The stamp `(client timestamp, event id)` that last won for a row.
pub struct Stamp {
    pub ts: Seq<char>,
    pub event_id: Seq<char>,
}

/// A row is keyed by its entity and entity id.
pub struct RowKey {
    pub entity: SyncEntity,
    pub entity_id: Seq<char>,
}

/// A remote event as the replay applier sees it.
pub struct EventModel {
    pub entity: SyncEntity,
    pub entity_id: Seq<char>,
    pub op: SyncOperation,
    pub event_id: Seq<char>,
    pub ts: Seq<char>,
    pub payload: Seq<char>,
}

/// The replicated part of a local store: the applied-event log, the winning
/// stamp of each row, and each live row's content. A winning event replaces
/// the row as a whole; the upsert that applies it does so when its payload
/// carries every column (`sql::lemma_full_upsert_replaces_row`).
pub struct ReplicaModel {
    pub applied: Set<Seq<char>>,
    pub stamps: Map<RowKey, Stamp>,
    pub rows: Map<RowKey, Seq<char>>,
}

pub open spec fn event_key(e: EventModel) -> RowKey {
    RowKey { entity: e.entity, entity_id: e.entity_id }
}

pub open spec fn metadata_stamp(m: SyncEntityMetadata) -> Stamp {
    Stamp { ts: m.last_client_timestamp@, event_id: m.last_event_id@ }
}

/// Whether an event with this stamp replaces the row whose stamp is `prev`
/// (no stamp: no row has been written through sync yet).
pub open spec fn stamp_wins(prev: Option<Stamp>, ts: Seq<char>, event_id: Seq<char>) -> bool {
    match prev {
        Some(p) => spec_should_apply_lww(p.ts, p.event_id, ts, event_id),
        None => true,
    }
}

/// Whether replaying an event writes it: not applied before, and winning LWW.
pub open spec fn replay_decision(
    already_applied: bool,
    prev: Option<Stamp>,
    ts: Seq<char>,
    event_id: Seq<char>,
) -> bool {
    !already_applied && stamp_wins(prev, ts, event_id)
}

pub open spec fn stamp_of(m: ReplicaModel, k: RowKey) -> Option<Stamp> {
    if m.stamps.contains_key(k) {
        Some(m.stamps[k])
    } else {
        None
    }
}

/// Whether replaying `e` on `m` writes it.
pub open spec fn replay_applies(m: ReplicaModel, e: EventModel) -> bool {
    replay_decision(m.applied.contains(e.event_id), stamp_of(m, event_key(e)), e.ts, e.event_id)
}

/// The store after replaying `e`: a winning event replaces (or, for a delete,
/// removes) the row and its stamp; every event is logged as applied.
pub open spec fn replay(m: ReplicaModel, e: EventModel) -> ReplicaModel {
    if m.applied.contains(e.event_id) {
        m
    } else if replay_applies(m, e) {
        ReplicaModel {
            applied: m.applied.insert(e.event_id),
            stamps: m.stamps.insert(event_key(e), Stamp { ts: e.ts, event_id: e.event_id }),
            rows: if e.op == SyncOperation::Delete {
                m.rows.remove(event_key(e))
            } else {
                m.rows.insert(event_key(e), e.payload)
            },
        }
    } else {
        ReplicaModel { applied: m.applied.insert(e.event_id), ..m }
    }
}

/// Decides one replay step from what the store holds for the event: whether
/// its id is in the applied-event log, and the row's LWW metadata.
pub fn replay_should_apply(
    already_applied: bool,
    existing: Option<&SyncEntityMetadata>,
    client_timestamp: &str,
    event_id: &str,
) -> (r: bool)
    ensures
        r == replay_decision(
            already_applied,
            match existing {
                Some(m) => Some(metadata_stamp(*m)),
                None => None,
            },
            client_timestamp@,
            event_id@,
        ),
{
    if already_applied {
        return false;
    }
    match existing {
        Some(meta) => should_apply_lww(
            meta.last_client_timestamp.as_str(),
            meta.last_event_id.as_str(),
            client_timestamp,
            event_id,
        ),
        None => true,
    }
}

/// Replaying an event that has already been replayed changes nothing and
/// does not apply it again; a fresh event on a row that sync has never
/// written is applied.
pub proof fn lemma_replay_idempotent(m: ReplicaModel, e: EventModel)
    ensures
        replay(replay(m, e), e) == replay(m, e),
        !replay_applies(replay(m, e), e),
        !m.applied.contains(e.event_id) && !m.stamps.contains_key(event_key(e)) ==> replay_applies(m, e),
{
}

/// With equal client timestamps, the event with the greater id wins.
pub proof fn lemma_equal_timestamp_tie_break(ts: Seq<char>, local_id: Seq<char>, remote_id: Seq<char>)
    ensures
        spec_should_apply_lww(ts, local_id, ts, remote_id) == lex_lt(local_id, remote_id),
{
    lemma_lex_lt_irreflexive(ts);
}

/// Order of stamps when both timestamps are RFC 3339.
pub open spec fn stamp_lt(a: Stamp, b: Stamp) -> bool {
    let x = rfc3339_millis(a.ts).unwrap();
    let y = rfc3339_millis(b.ts).unwrap();
    x < y || (x == y && lex_lt(a.event_id, b.event_id))
}

pub open spec fn well_stamped(s: Seq<char>) -> bool {
    rfc3339_millis(s) is Some
}

/// Every stamp of the store carries an RFC 3339 timestamp.
pub open spec fn replica_well_stamped(m: ReplicaModel) -> bool {
    forall|k: RowKey| #[trigger] m.stamps.contains_key(k) ==> well_stamped(m.stamps[k].ts)
}

proof fn lemma_stamp_order(a: Stamp, b: Stamp, c: Stamp)
    requires
        well_stamped(a.ts),
        well_stamped(b.ts),
        well_stamped(c.ts),
    ensures
        spec_should_apply_lww(a.ts, a.event_id, b.ts, b.event_id) == stamp_lt(a, b),
        stamp_lt(a, b) && stamp_lt(b, c) ==> stamp_lt(a, c),
        stamp_lt(a, b) ==> !stamp_lt(b, a),
        a.event_id != b.event_id ==> stamp_lt(a, b) || stamp_lt(b, a),
{
    if stamp_lt(a, b) && stamp_lt(b, c) {
        if lex_lt(a.event_id, b.event_id) && lex_lt(b.event_id, c.event_id) {
            lemma_lex_lt_transitive(a.event_id, b.event_id, c.event_id);
        }
    }
    if stamp_lt(a, b) && lex_lt(a.event_id, b.event_id) {
        lemma_lex_lt_asymmetric(a.event_id, b.event_id);
    }
    if a.event_id != b.event_id {
        lemma_lex_lt_total(a.event_id, b.event_id);
    }
}

pub open spec fn event_stamp(e: EventModel) -> Stamp {
    Stamp { ts: e.ts, event_id: e.event_id }
}

/// Replay order does not matter: two distinct events (or the same event
/// twice) replayed in either order leave the store in the same state, when
/// every timestamp involved is RFC 3339.
pub proof fn lemma_replay_commutes(m: ReplicaModel, e1: EventModel, e2: EventModel)
    requires
        replica_well_stamped(m),
        well_stamped(e1.ts),
        well_stamped(e2.ts),
        e1.event_id != e2.event_id || e1 == e2,
    ensures
        replay(replay(m, e1), e2) == replay(replay(m, e2), e1),
{
    if e1 == e2 {
        return;
    }
    let k1 = event_key(e1);
    let k2 = event_key(e2);
    let s1 = event_stamp(e1);
    let s2 = event_stamp(e2);
    let a = replay(replay(m, e1), e2);
    let b = replay(replay(m, e2), e1);
    lemma_stamp_order(s1, s2, s1);
    lemma_stamp_order(s2, s1, s2);
    if m.stamps.contains_key(k1) {
        let p = m.stamps[k1];
        lemma_stamp_order(p, s1, s2);
        lemma_stamp_order(p, s2, s1);
        lemma_stamp_order(s1, p, s2);
        lemma_stamp_order(s2, p, s1);
    }
    if m.stamps.contains_key(k2) {
        let p = m.stamps[k2];
        lemma_stamp_order(p, s1, s2);
        lemma_stamp_order(p, s2, s1);
    }
    assert(a.applied =~= b.applied);
    assert(a.stamps =~= b.stamps);
    assert(a.rows =~= b.rows);
}

} // verus!

verus! {

/// The store after replaying `evs` in order.
pub open spec fn replay_all(m: ReplicaModel, evs: Seq<EventModel>) -> ReplicaModel
    decreases evs.len(),
{
    if evs.len() == 0 {
        m
    } else {
        replay(replay_all(m, evs.drop_last()), evs.last())
    }
}

/// Events with RFC 3339 timestamps and pairwise distinct ids, as the relay
/// hands them out.
pub open spec fn events_well_formed(evs: Seq<EventModel>) -> bool {
    &&& forall|i: int| 0 <= i < evs.len() ==> well_stamped(#[trigger] evs[i].ts)
    &&& forall|i: int, j: int| 0 <= i < evs.len() && 0 <= j < evs.len() && i != j ==> #[trigger] evs[i].event_id != #[trigger] evs[j].event_id
}

proof fn lemma_replay_keeps_well_stamped(m: ReplicaModel, e: EventModel)
    requires
        replica_well_stamped(m),
        well_stamped(e.ts),
    ensures
        replica_well_stamped(replay(m, e)),
{
    let r = replay(m, e);
    assert forall|k: RowKey| #[trigger] r.stamps.contains_key(k) implies well_stamped(r.stamps[k].ts) by {
        if k != event_key(e) {
            assert(m.stamps.contains_key(k));
        }
    }
}

proof fn lemma_replay_all_well_stamped(m: ReplicaModel, evs: Seq<EventModel>)
    requires
        replica_well_stamped(m),
        forall|i: int| 0 <= i < evs.len() ==> well_stamped(#[trigger] evs[i].ts),
    ensures
        replica_well_stamped(replay_all(m, evs)),
    decreases evs.len(),
{
    if evs.len() > 0 {
        let p = evs.drop_last();
        assert forall|i: int| 0 <= i < p.len() implies well_stamped(#[trigger] p[i].ts) by {
            assert(p[i] == evs[i]);
        }
        lemma_replay_all_well_stamped(m, p);
        lemma_replay_keeps_well_stamped(replay_all(m, p), evs.last());
    }
}

proof fn lemma_well_formed_remove(evs: Seq<EventModel>, j: int)
    requires
        events_well_formed(evs),
        0 <= j < evs.len(),
    ensures
        events_well_formed(evs.remove(j)),
{
    let r = evs.remove(j);
    assert forall|i: int| 0 <= i < r.len() implies well_stamped(#[trigger] r[i].ts) by {
        if i < j {
            assert(r[i] == evs[i]);
        } else {
            assert(r[i] == evs[i + 1]);
        }
    }
    assert forall|a: int, b: int| 0 <= a < r.len() && 0 <= b < r.len() && a != b implies #[trigger] r[a].event_id != #[trigger] r[b].event_id by {
        let ia = if a < j { a } else { a + 1 };
        let ib = if b < j { b } else { b + 1 };
        assert(r[a] == evs[ia]);
        assert(r[b] == evs[ib]);
    }
}

/// Replaying an event last gives what replaying it at position `j` gives.
proof fn lemma_move_to_end(m: ReplicaModel, s: Seq<EventModel>, j: int)
    requires
        replica_well_stamped(m),
        events_well_formed(s),
        0 <= j < s.len(),
    ensures
        replay_all(m, s) == replay(replay_all(m, s.remove(j)), s[j]),
    decreases s.len(),
{
    if j == s.len() - 1 {
        assert(s.remove(j) =~= s.drop_last());
    } else {
        let p = s.drop_last();
        let y = s.last();
        let x = s[j];
        lemma_well_formed_remove(s, s.len() - 1);
        assert(s.remove(s.len() - 1) =~= p);
        assert(p[j] == x);
        lemma_move_to_end(m, p, j);
        let q = p.remove(j);
        lemma_well_formed_remove(p, j);
        lemma_replay_all_well_stamped(m, q);
        assert(x.event_id != y.event_id) by {
            assert(s[j].event_id != s[s.len() - 1].event_id);
        }
        assert(well_stamped(x.ts)) by {
            assert(well_stamped(s[j].ts));
        }
        assert(well_stamped(y.ts)) by {
            assert(well_stamped(s[s.len() - 1].ts));
        }
        lemma_replay_commutes(replay_all(m, q), x, y);
        assert(s.remove(j) =~= q.push(y));
        assert(q.push(y).drop_last() =~= q);
    }
}

/// Index of an element of a sequence.
proof fn lemma_index_of(s: Seq<EventModel>, e: EventModel) -> (j: int)
    requires
        s.contains(e),
    ensures
        0 <= j < s.len(),
        s[j] == e,
{
    choose|j: int| 0 <= j < s.len() && s[j] == e
}

/// Convergence: two replicas that start equal and replay the same set of
/// events, each in its own order, end equal. Events carry RFC 3339
/// timestamps and distinct ids.
pub proof fn lemma_replay_converges(m: ReplicaModel, evs1: Seq<EventModel>, evs2: Seq<EventModel>)
    requires
        replica_well_stamped(m),
        events_well_formed(evs1),
        events_well_formed(evs2),
        evs1.len() == evs2.len(),
        forall|e: EventModel| evs1.contains(e) <==> evs2.contains(e),
    ensures
        replay_all(m, evs1) == replay_all(m, evs2),
    decreases evs1.len(),
{
    if evs1.len() > 0 {
        let a = evs1.drop_last();
        let x = evs1.last();
        assert(evs1.contains(x)) by {
            assert(evs1[evs1.len() - 1] == x);
        }
        let j = lemma_index_of(evs2, x);
        let b = evs2.remove(j);
        lemma_well_formed_remove(evs1, evs1.len() - 1);
        assert(evs1.remove(evs1.len() - 1) =~= a);
        lemma_well_formed_remove(evs2, j);
        assert forall|e: EventModel| a.contains(e) <==> b.contains(e) by {
            if a.contains(e) {
                let i = choose|i: int| 0 <= i < a.len() && a[i] == e;
                assert(evs1[i] == e);
                assert(e != x) by {
                    assert(evs1[i].event_id != evs1[evs1.len() - 1].event_id);
                }
                assert(evs1.contains(e));
                let k = lemma_index_of(evs2, e);
                assert(k != j);
                if k < j {
                    assert(b[k] == e);
                } else {
                    assert(b[k - 1] == e);
                }
            }
            if b.contains(e) {
                let i = choose|i: int| 0 <= i < b.len() && b[i] == e;
                let k = if i < j { i } else { i + 1 };
                assert(evs2[k] == e);
                assert(k != j);
                assert(e != x) by {
                    assert(evs2[k].event_id != evs2[j].event_id);
                }
                assert(evs2.contains(e));
                let h = lemma_index_of(evs1, e);
                assert(h != evs1.len() - 1);
                assert(a[h] == e);
            }
        }
        lemma_replay_converges(m, a, b);
        lemma_move_to_end(m, evs2, j);
    }
}

} // verus!

verus! {

/// The store after a local write of `e`: the row and its stamp are replaced
/// (a delete removes the row) and the event is logged, so that its own
/// echo from the relay is not replayed.
pub open spec fn local_write(m: ReplicaModel, e: EventModel) -> ReplicaModel {
    ReplicaModel {
        applied: m.applied.insert(e.event_id),
        stamps: m.stamps.insert(event_key(e), Stamp { ts: e.ts, event_id: e.event_id }),
        rows: if e.op == SyncOperation::Delete {
            m.rows.remove(event_key(e))
        } else {
            m.rows.insert(event_key(e), e.payload)
        },
    }
}

/// LWW metadata recorded, in the same transaction, for a local write of an
/// outbox event; `seq` is the sequence known for it (0 before the relay
/// assigned one).
pub fn local_write_metadata(event: &SyncOutboxEvent, seq: i64) -> (r: SyncEntityMetadata)
    ensures
        r.entity == event.entity,
        r.entity_id@ == event.entity_id@,
        r.last_event_id@ == event.event_id@,
        r.last_client_timestamp@ == event.client_timestamp@,
        r.last_seq == seq,
        metadata_stamp(r) == (Stamp { ts: event.client_timestamp@, event_id: event.event_id@ }),
{
    SyncEntityMetadata {
        entity: event.entity,
        entity_id: crate::text::string_of(event.entity_id.as_str()),
        last_event_id: crate::text::string_of(event.event_id.as_str()),
        last_client_timestamp: crate::text::string_of(event.client_timestamp.as_str()),
        last_seq: seq,
    }
}

/// A local write that is the newest write of its row is exactly what
/// replaying the same event would do; devices whose own writes were the
/// newest when made therefore fall under `lemma_replay_converges`.
pub proof fn lemma_local_write_is_replay(m: ReplicaModel, e: EventModel)
    requires
        !m.applied.contains(e.event_id),
        stamp_wins(stamp_of(m, event_key(e)), e.ts, e.event_id),
    ensures
        local_write(m, e) == replay(m, e),
{
}

/// A remote event older than a local write of the same row does not
/// overwrite it: the row and its stamp stay as the local write left them.
pub proof fn lemma_older_remote_loses_to_local_write(m: ReplicaModel, local: EventModel, remote: EventModel)
    requires
        event_key(local) == event_key(remote),
        well_stamped(local.ts),
        well_stamped(remote.ts),
        stamp_lt(event_stamp(remote), event_stamp(local)),
    ensures
        replay(local_write(m, local), remote).rows == local_write(m, local).rows,
        replay(local_write(m, local), remote).stamps == local_write(m, local).stamps,
{
    lemma_stamp_order(event_stamp(local), event_stamp(remote), event_stamp(local));
}

} // verus!
