use vstd::prelude::*;
use crate::model::{app_sync_tables, is_sync_table, sync_tables};
use crate::sql::{join_comma, quoted_identifier, quoted_list, quote_identifier};
use crate::text::{append_str, str_eq, string_of};

verus! {

/// A table outside the sync catalog was named.
#[derive(Debug, Clone, PartialEq, Eq)]
pub struct UnsupportedTable {
    pub table: String,
}

pub open spec fn names_of(v: Seq<String>) -> Seq<Seq<char>> {
    Seq::new(v.len(), |i: int| v[i]@)
}

/// Tables a snapshot export or restore works on: the given ones, all from
/// the catalog, or the whole catalog when none are given.
pub fn snapshot_table_set(tables: &Vec<String>) -> (r: Result<Vec<String>, UnsupportedTable>)
    ensures
        match r {
            Ok(v) => if tables@.len() == 0 {
                names_of(v@) == sync_tables()
            } else {
                names_of(v@) == names_of(tables@) && forall|i: int| 0 <= i < tables@.len() ==> sync_tables().contains(#[trigger] tables@[i]@)
            },
            Err(u) => exists|i: int| 0 <= i < tables@.len() && !sync_tables().contains(#[trigger] tables@[i]@) && u.table@ == tables@[i]@,
        },
{
    let mut out: Vec<String> = Vec::new();
    if tables.len() == 0 {
        let all = app_sync_tables();
        let mut k: usize = 0;
        while k < all.len()
            invariant
                all@.len() == sync_tables().len(),
                forall|m: int| 0 <= m < all@.len() ==> all@[m]@ == sync_tables()[m],
                k <= all@.len(),
                out@.len() == k,
                forall|m: int| 0 <= m < k ==> out@[m]@ == sync_tables()[m],
            decreases all.len() - k,
        {
            out.push(string_of(all[k]));
            k += 1;
        }
        assert(names_of(out@) =~= sync_tables());
        return Ok(out);
    }
    let mut i: usize = 0;
    while i < tables.len()
        invariant
            i <= tables@.len(),
            out@.len() == i,
            forall|m: int| 0 <= m < i ==> out@[m]@ == tables@[m]@,
            forall|m: int| 0 <= m < i ==> sync_tables().contains(#[trigger] tables@[m]@),
        decreases tables.len() - i,
    {
        if !is_sync_table(tables[i].as_str()) {
            return Err(UnsupportedTable { table: string_of(tables[i].as_str()) });
        }
        out.push(string_of(tables[i].as_str()));
        i += 1;
    }
    assert(names_of(out@) =~= names_of(tables@));
    Ok(out)
}

/// Rows of calculated or synthetic holdings snapshots are not exported.
pub open spec fn export_filter(table: Seq<char>) -> Option<Seq<char>> {
    if table == "holdings_snapshots"@ {
        Some("source NOT IN ('CALCULATED', 'SYNTHETIC')"@)
    } else {
        None
    }
}

/// Statement that copies `table` into the attached export database `alias`.
pub open spec fn export_copy_sql(alias: Seq<char>, table: Seq<char>) -> Seq<char> {
    let base = "CREATE TABLE "@ + alias + "."@ + quoted_identifier(table) + " AS SELECT * FROM main."@ + quoted_identifier(table);
    match export_filter(table) {
        Some(f) => base + " WHERE "@ + f,
        None => base,
    }
}

pub fn export_copy_statement(alias: &str, table: &str) -> (r: String)
    ensures
        r@ == export_copy_sql(alias@, table@),
{
    let q = quote_identifier(table);
    let mut s = string_of("CREATE TABLE ");
    append_str(&mut s, alias);
    append_str(&mut s, ".");
    append_str(&mut s, q.as_str());
    append_str(&mut s, " AS SELECT * FROM main.");
    append_str(&mut s, q.as_str());
    if str_eq(table, "holdings_snapshots") {
        append_str(&mut s, " WHERE ");
        append_str(&mut s, "source NOT IN ('CALCULATED', 'SYNTHETIC')");
    }
    s
}

pub open spec fn in_names(v: Seq<String>, c: Seq<char>) -> bool {
    exists|i: int| 0 <= i < v.len() && v[i]@ == c
}

/// The target table's columns that the snapshot's table also has, in the
/// target's order.
pub open spec fn common_columns(target: Seq<String>, source: Seq<String>) -> Seq<Seq<char>>
    decreases target.len(),
{
    if target.len() == 0 {
        Seq::empty()
    } else if in_names(source, target.last()@) {
        common_columns(target.drop_last(), source).push(target.last()@)
    } else {
        common_columns(target.drop_last(), source)
    }
}

fn has_name(v: &Vec<String>, c: &str) -> (r: bool)
    ensures
        r == in_names(v@, c@),
{
    let mut i: usize = 0;
    while i < v.len()
        invariant
            i <= v@.len(),
            forall|k: int| 0 <= k < i ==> v@[k]@ != c@,
        decreases v.len() - i,
    {
        if str_eq(v[i].as_str(), c) {
            return true;
        }
        i += 1;
    }
    false
}

pub fn restore_columns(target: &Vec<String>, source: &Vec<String>) -> (r: Vec<String>)
    ensures
        names_of(r@) == common_columns(target@, source@),
{
    let mut out: Vec<String> = Vec::new();
    let mut i: usize = 0;
    while i < target.len()
        invariant
            i <= target@.len(),
            names_of(out@) == common_columns(target@.subrange(0, i as int), source@),
        decreases target.len() - i,
    {
        assert(target@.subrange(0, i + 1).drop_last() =~= target@.subrange(0, i as int));
        if has_name(source, target[i].as_str()) {
            let ghost before = out@;
            out.push(string_of(target[i].as_str()));
            assert(names_of(out@) =~= names_of(before).push(target@[i as int]@));
        }
        i += 1;
    }
    assert(target@.subrange(0, target@.len() as int) =~= target@);
    out
}

/// No column of the target table exists in the snapshot's table.
#[derive(Debug, Clone, PartialEq, Eq)]
pub struct NoCompatibleColumns {
    pub table: String,
}

pub open spec fn restore_copy_sql(table: Seq<char>, alias: Seq<char>, columns: Seq<Seq<char>>) -> Seq<char> {
    let cols = join_comma(quoted_list(columns));
    "INSERT INTO "@ + quoted_identifier(table) + " ("@ + cols + ") SELECT "@ + cols + " FROM "@ + quoted_identifier(alias) + "."@
        + quoted_identifier(table)
}

fn join_quoted(columns: &Vec<String>) -> (r: String)
    ensures
        r@ == join_comma(quoted_list(names_of(columns@))),
{
    let mut out = String::new();
    let mut i: usize = 0;
    while i < columns.len()
        invariant
            i <= columns@.len(),
            out@ == join_comma(quoted_list(names_of(columns@.subrange(0, i as int)))),
        decreases columns.len() - i,
    {
        let q = quote_identifier(columns[i].as_str());
        proof {
            let n0 = names_of(columns@.subrange(0, i as int));
            let n1 = names_of(columns@.subrange(0, i + 1));
            assert(n1 =~= n0.push(columns@[i as int]@));
            assert(n1.drop_last() =~= n0);
            crate::sql::lemma_quoted_list_len(n0);
            assert(quoted_list(n1).drop_last() =~= quoted_list(n0));
        }
        if i > 0 {
            append_str(&mut out, ", ");
        }
        append_str(&mut out, q.as_str());
        i += 1;
    }
    assert(columns@.subrange(0, columns@.len() as int) =~= columns@);
    out
}

/// The statement that copies a snapshot table into the local one, over the
/// columns both have; fails when they share none.
pub fn restore_copy_statement(table: &str, alias: &str, target: &Vec<String>, source: &Vec<String>) -> (r: Result<String, NoCompatibleColumns>)
    ensures
        match r {
            Ok(s) => common_columns(target@, source@).len() > 0 && s@ == restore_copy_sql(table@, alias@, common_columns(target@, source@)),
            Err(e) => common_columns(target@, source@).len() == 0 && e.table@ == table@,
        },
{
    let cols = restore_columns(target, source);
    if cols.len() == 0 {
        return Err(NoCompatibleColumns { table: string_of(table) });
    }
    let joined = join_quoted(&cols);
    let qt = quote_identifier(table);
    let qa = quote_identifier(alias);
    let mut s = string_of("INSERT INTO ");
    append_str(&mut s, qt.as_str());
    append_str(&mut s, " (");
    append_str(&mut s, joined.as_str());
    append_str(&mut s, ") SELECT ");
    append_str(&mut s, joined.as_str());
    append_str(&mut s, " FROM ");
    append_str(&mut s, qa.as_str());
    append_str(&mut s, ".");
    append_str(&mut s, qt.as_str());
    Ok(s)
}

/// The single-row engine state.
#[derive(Debug, Clone, PartialEq, Eq)]
pub struct SyncEngineState {
    pub lock_version: i64,
    pub last_push_at: Option<String>,
    pub last_pull_at: Option<String>,
    pub last_error: Option<String>,
    pub consecutive_failures: i32,
    pub next_retry_at: Option<String>,
    pub last_cycle_status: Option<String>,
    pub last_cycle_duration_ms: Option<i64>,
}

impl SyncEngineState {
    pub fn new() -> (r: Self)
        ensures
            r.lock_version == 0,
            r.consecutive_failures == 0,
            r.last_error is None,
            r.next_retry_at is None,
    {
        SyncEngineState {
            lock_version: 0,
            last_push_at: None,
            last_pull_at: None,
            last_error: None,
            consecutive_failures: 0,
            next_retry_at: None,
            last_cycle_status: None,
            last_cycle_duration_ms: None,
        }
    }

    /// Takes the cycle lock: a new, higher lock version.
    pub fn acquire_cycle_lock(&mut self) -> (r: i64)
        requires
            old(self).lock_version < i64::MAX,
        ensures
            r == old(self).lock_version + 1,
            final(self).lock_version == r,
            final(self).last_push_at == old(self).last_push_at,
            final(self).consecutive_failures == old(self).consecutive_failures,
    {
        self.lock_version = self.lock_version + 1;
        self.lock_version
    }

    /// Whether the lock taken with `expected` is still held.
    pub fn verify_cycle_lock(&self, expected: i64) -> (r: bool)
        ensures
            r == (self.lock_version == expected),
    {
        self.lock_version == expected
    }

    /// Records a successful push (`pull` false) or pull at `now`: the error
    /// and the failure count are cleared.
    pub fn mark_transfer_completed(&mut self, pull: bool, now: String)
        ensures
            final(self).lock_version == old(self).lock_version,
            pull ==> final(self).last_pull_at == Some(now) && final(self).last_push_at == old(self).last_push_at,
            !pull ==> final(self).last_push_at == Some(now) && final(self).last_pull_at == old(self).last_pull_at,
            final(self).last_error is None,
            final(self).consecutive_failures == 0,
            final(self).next_retry_at is None,
            final(self).last_cycle_status matches Some(s) && s@ == "ok"@,
            final(self).last_cycle_duration_ms == old(self).last_cycle_duration_ms,
    {
        if pull {
            self.last_pull_at = Some(now);
        } else {
            self.last_push_at = Some(now);
        }
        self.last_error = None;
        self.consecutive_failures = 0;
        self.next_retry_at = None;
        self.last_cycle_status = Some(string_of("ok"));
    }

    /// Records an engine error: one more consecutive failure.
    pub fn mark_engine_error(&mut self, message: String)
        ensures
            final(self).last_error == Some(message),
            final(self).consecutive_failures == if old(self).consecutive_failures == i32::MAX {
                i32::MAX as int
            } else {
                old(self).consecutive_failures + 1
            },
            final(self).last_cycle_status matches Some(s) && s@ == "error"@,
            final(self).lock_version == old(self).lock_version,
            final(self).next_retry_at == old(self).next_retry_at,
    {
        self.last_error = Some(message);
        if self.consecutive_failures < i32::MAX {
            self.consecutive_failures = self.consecutive_failures + 1;
        }
        self.last_cycle_status = Some(string_of("error"));
    }

    /// Records how a cycle ended and when to retry.
    pub fn mark_cycle_outcome(&mut self, status: String, duration_ms: i64, next_retry_at: Option<String>)
        ensures
            final(self).last_cycle_status == Some(status),
            final(self).last_cycle_duration_ms == Some(duration_ms),
            final(self).next_retry_at == next_retry_at,
            final(self).lock_version == old(self).lock_version,
            final(self).consecutive_failures == old(self).consecutive_failures,
            final(self).last_error == old(self).last_error,
    {
        self.last_cycle_status = Some(status);
        self.last_cycle_duration_ms = Some(duration_ms);
        self.next_retry_at = next_retry_at;
    }
}

/// A device needs a snapshot bootstrap until one is recorded for it.
pub fn needs_bootstrap(last_bootstrap_at: Option<&str>, has_config: bool) -> (r: bool)
    ensures
        r == (!has_config || last_bootstrap_at is None),
{
    !has_config || last_bootstrap_at.is_none()
}

} // verus!

verus! {

/// The single-row cursor: the highest relay sequence applied locally.
#[derive(Debug, Clone, Copy, PartialEq, Eq, Structural)]
pub struct SyncCursor {
    pub value: i64,
}

impl SyncCursor {
    pub fn new() -> (r: Self)
        ensures
            r.value == 0,
    {
        SyncCursor { value: 0 }
    }

    /// Records an applied batch; the cursor never moves backward.
    pub fn advance(&mut self, next: i64)
        ensures
            final(self).value == if next > old(self).value { next } else { old(self).value },
            final(self).value >= old(self).value,
    {
        if next > self.value {
            self.value = next;
        }
    }

    /// A snapshot restore resets the cursor to the snapshot's sequence,
    /// together with the cleared control-plane state; this is the one step
    /// that may move it backward.
    pub fn restore(&mut self, oplog_seq: i64)
        ensures
            final(self).value == oplog_seq,
    {
        self.value = oplog_seq;
    }
}

} // verus!

verus! {

/// The sync control plane of a local store: cursor, pending outbox event
/// ids, LWW metadata and the applied-event log.
#[derive(Debug, Clone, PartialEq, Eq)]
pub struct ControlPlane {
    pub cursor: SyncCursor,
    pub outbox_ids: Vec<String>,
    pub metadata: Vec<crate::model::SyncEntityMetadata>,
    pub applied_ids: Vec<String>,
}

impl ControlPlane {
    /// Settles a snapshot restore in one step. When the restore committed,
    /// the cursor becomes the snapshot's sequence (it may move backward) and
    /// the outbox, metadata and applied log are emptied together; when it
    /// failed, nothing changes.
    pub fn settle_restore(&mut self, restored: bool, oplog_seq: i64)
        ensures
            restored ==> final(self).cursor.value == oplog_seq && final(self).outbox_ids@.len() == 0
                && final(self).metadata@.len() == 0 && final(self).applied_ids@.len() == 0,
            !restored ==> *final(self) == *old(self),
    {
        if restored {
            self.cursor.restore(oplog_seq);
            self.outbox_ids = Vec::new();
            self.metadata = Vec::new();
            self.applied_ids = Vec::new();
        }
    }
}

} // verus!
