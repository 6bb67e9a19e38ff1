use vstd::prelude::*;
use crate::text::{str_eq, chars_of, find_char, first_index_of, lemma_first_index_of, string_from_range};

verus! {

/// Entities carried by incremental sync events.
#[derive(Debug, Clone, Copy, PartialEq, Eq, Hash, Structural)]
pub enum SyncEntity {
    Account,
    Asset,
    AssetTaxonomyAssignment,
    Activity,
    ActivityImportProfile,
    Goal,
    GoalsAllocation,
    AiThread,
    AiMessage,
    AiThreadTag,
    ContributionLimit,
    Platform,
    Snapshot,
}

/// Operations of a sync event.
#[derive(Debug, Clone, Copy, PartialEq, Eq, Hash, Structural)]
pub enum SyncOperation {
    Create,
    Update,
    Delete,
    Request,
}

/// Lifecycle of an outbox row.
#[derive(Debug, Clone, Copy, PartialEq, Eq, Hash, Structural)]
pub enum SyncOutboxStatus {
    Pending,
    Sent,
    Dead,
}

/// A sync event stored locally before it is pushed.
#[derive(Debug, Clone, PartialEq)]
pub struct SyncOutboxEvent {
    pub event_id: String,
    pub entity: SyncEntity,
    pub entity_id: String,
    pub op: SyncOperation,
    pub client_timestamp: String,
    pub payload: String,
    pub payload_key_version: i32,
    pub sent: bool,
    pub status: SyncOutboxStatus,
    pub retry_count: i32,
    pub next_retry_at: Option<String>,
    pub last_error: Option<String>,
    pub last_error_code: Option<String>,
    pub created_at: String,
}

/// Last-writer-wins metadata of one entity row.
#[derive(Debug, Clone, PartialEq, Eq)]
pub struct SyncEntityMetadata {
    pub entity: SyncEntity,
    pub entity_id: String,
    pub last_event_id: String,
    pub last_client_timestamp: String,
    pub last_seq: i64,
}

/// Engine state as recorded by the local store.
#[derive(Debug, Clone, PartialEq, Eq)]
pub struct SyncEngineStatus {
    pub cursor: i64,
    pub last_push_at: Option<String>,
    pub last_pull_at: Option<String>,
    pub last_error: Option<String>,
    pub consecutive_failures: i32,
    pub next_retry_at: Option<String>,
    pub last_cycle_status: Option<String>,
    pub last_cycle_duration_ms: Option<i64>,
}

/// Outcome of replaying one pulled event.
#[derive(Debug, Clone, PartialEq, Eq)]
pub struct SyncReplayResult {
    pub event_id: String,
    pub entity: SyncEntity,
    pub entity_id: String,
    pub applied: bool,
    pub skipped_reason: Option<String>,
}

/// Envelope of an encrypted sync payload.
#[derive(Debug, Clone, PartialEq, Eq)]
pub struct SyncEnvelopeV1 {
    pub version: i32,
    pub entity: SyncEntity,
    pub op: SyncOperation,
    pub body: String,
}

/// What started a sync cycle.
#[derive(Debug, Clone, Copy, PartialEq, Eq, Structural)]
pub enum SyncCycleTrigger {
    Startup,
    Foreground,
    LocalMutation,
    Periodic,
    Manual,
}

/// Where an event being applied comes from.
#[derive(Debug, Clone, Copy, PartialEq, Eq, Structural)]
pub enum SyncApplyContext {
    LocalMutation,
    RemoteReplay,
}

/// Wire name of an entity.
pub open spec fn entity_name(e: SyncEntity) -> Seq<char> {
    match e {
        SyncEntity::Account => "account"@,
        SyncEntity::Asset => "asset"@,
        SyncEntity::AssetTaxonomyAssignment => "asset_taxonomy_assignment"@,
        SyncEntity::Activity => "activity"@,
        SyncEntity::ActivityImportProfile => "activity_import_profile"@,
        SyncEntity::Goal => "goal"@,
        SyncEntity::GoalsAllocation => "goals_allocation"@,
        SyncEntity::AiThread => "ai_thread"@,
        SyncEntity::AiMessage => "ai_message"@,
        SyncEntity::AiThreadTag => "ai_thread_tag"@,
        SyncEntity::ContributionLimit => "contribution_limit"@,
        SyncEntity::Platform => "platform"@,
        SyncEntity::Snapshot => "snapshot"@,
    }
}

/// Wire name of an operation.
pub open spec fn operation_name(op: SyncOperation) -> Seq<char> {
    match op {
        SyncOperation::Create => "create"@,
        SyncOperation::Update => "update"@,
        SyncOperation::Delete => "delete"@,
        SyncOperation::Request => "request"@,
    }
}

pub fn sync_entity_name(entity: &SyncEntity) -> (r: &'static str)
    ensures
        r@ == entity_name(*entity),
{
    match entity {
        SyncEntity::Account => "account",
        SyncEntity::Asset => "asset",
        SyncEntity::AssetTaxonomyAssignment => "asset_taxonomy_assignment",
        SyncEntity::Activity => "activity",
        SyncEntity::ActivityImportProfile => "activity_import_profile",
        SyncEntity::Goal => "goal",
        SyncEntity::GoalsAllocation => "goals_allocation",
        SyncEntity::AiThread => "ai_thread",
        SyncEntity::AiMessage => "ai_message",
        SyncEntity::AiThreadTag => "ai_thread_tag",
        SyncEntity::ContributionLimit => "contribution_limit",
        SyncEntity::Platform => "platform",
        SyncEntity::Snapshot => "snapshot",
    }
}

pub fn sync_operation_name(op: &SyncOperation) -> (r: &'static str)
    ensures
        r@ == operation_name(*op),
{
    match op {
        SyncOperation::Create => "create",
        SyncOperation::Update => "update",
        SyncOperation::Delete => "delete",
        SyncOperation::Request => "request",
    }
}

/// The entity whose wire name is `name`, if any.
pub open spec fn entity_of_name(name: Seq<char>) -> Option<SyncEntity> {
    if name == "account"@ {
        Some(SyncEntity::Account)
    } else if name == "asset"@ {
        Some(SyncEntity::Asset)
    } else if name == "asset_taxonomy_assignment"@ {
        Some(SyncEntity::AssetTaxonomyAssignment)
    } else if name == "activity"@ {
        Some(SyncEntity::Activity)
    } else if name == "activity_import_profile"@ {
        Some(SyncEntity::ActivityImportProfile)
    } else if name == "goal"@ {
        Some(SyncEntity::Goal)
    } else if name == "goals_allocation"@ {
        Some(SyncEntity::GoalsAllocation)
    } else if name == "ai_thread"@ {
        Some(SyncEntity::AiThread)
    } else if name == "ai_message"@ {
        Some(SyncEntity::AiMessage)
    } else if name == "ai_thread_tag"@ {
        Some(SyncEntity::AiThreadTag)
    } else if name == "contribution_limit"@ {
        Some(SyncEntity::ContributionLimit)
    } else if name == "platform"@ {
        Some(SyncEntity::Platform)
    } else if name == "snapshot"@ {
        Some(SyncEntity::Snapshot)
    } else {
        None
    }
}

pub fn sync_entity_from_name(name: &str) -> (r: Option<SyncEntity>)
    ensures
        r == entity_of_name(name@),
        match r {
            Some(e) => entity_name(e) == name@,
            None => forall|e: SyncEntity| entity_name(e) != name@,
        },
{
    if str_eq(name, "account") {
        Some(SyncEntity::Account)
    } else if str_eq(name, "asset") {
        Some(SyncEntity::Asset)
    } else if str_eq(name, "asset_taxonomy_assignment") {
        Some(SyncEntity::AssetTaxonomyAssignment)
    } else if str_eq(name, "activity") {
        Some(SyncEntity::Activity)
    } else if str_eq(name, "activity_import_profile") {
        Some(SyncEntity::ActivityImportProfile)
    } else if str_eq(name, "goal") {
        Some(SyncEntity::Goal)
    } else if str_eq(name, "goals_allocation") {
        Some(SyncEntity::GoalsAllocation)
    } else if str_eq(name, "ai_thread") {
        Some(SyncEntity::AiThread)
    } else if str_eq(name, "ai_message") {
        Some(SyncEntity::AiMessage)
    } else if str_eq(name, "ai_thread_tag") {
        Some(SyncEntity::AiThreadTag)
    } else if str_eq(name, "contribution_limit") {
        Some(SyncEntity::ContributionLimit)
    } else if str_eq(name, "platform") {
        Some(SyncEntity::Platform)
    } else if str_eq(name, "snapshot") {
        Some(SyncEntity::Snapshot)
    } else {
        None
    }
}

/// The operation whose wire name is `name`, if any.
pub open spec fn operation_of_name(name: Seq<char>) -> Option<SyncOperation> {
    if name == "create"@ {
        Some(SyncOperation::Create)
    } else if name == "update"@ {
        Some(SyncOperation::Update)
    } else if name == "delete"@ {
        Some(SyncOperation::Delete)
    } else if name == "request"@ {
        Some(SyncOperation::Request)
    } else {
        None
    }
}

/// The second dot-separated segment of an event type, if there is one.
pub open spec fn event_type_op_segment(event_type: Seq<char>) -> Option<Seq<char>> {
    let i = first_index_of(event_type, '.');
    if i >= event_type.len() {
        None
    } else {
        let rest = event_type.subrange(i + 1, event_type.len() as int);
        Some(rest.subrange(0, first_index_of(rest, '.')))
    }
}

/// The operation named by an event type `<entity>.<op>.v1`.
pub open spec fn spec_parse_event_operation(event_type: Seq<char>) -> Option<SyncOperation> {
    match event_type_op_segment(event_type) {
        Some(seg) => operation_of_name(seg),
        None => None,
    }
}

/// Reads the operation out of an event type such as `activity.update.v1`.
pub fn parse_event_operation(event_type: &str) -> (r: Option<SyncOperation>)
    ensures
        r == spec_parse_event_operation(event_type@),
{
    let cs = chars_of(event_type);
    let i = find_char(&cs, '.');
    proof {
        lemma_first_index_of(cs@, '.');
    }
    if i >= cs.len() {
        return None;
    }
    let rest = string_from_range(&cs, i + 1, cs.len());
    let rest_cs = chars_of(rest.as_str());
    let j = find_char(&rest_cs, '.');
    proof {
        lemma_first_index_of(rest_cs@, '.');
    }
    let seg = string_from_range(&rest_cs, 0, j);
    let seg_s = seg.as_str();
    if str_eq(seg_s, "create") {
        Some(SyncOperation::Create)
    } else if str_eq(seg_s, "update") {
        Some(SyncOperation::Update)
    } else if str_eq(seg_s, "delete") {
        Some(SyncOperation::Delete)
    } else if str_eq(seg_s, "request") {
        Some(SyncOperation::Request)
    } else {
        None
    }
}

/// Wire event type `<entity>.<op>.v1`.
pub open spec fn event_type_of(e: SyncEntity, op: SyncOperation) -> Seq<char> {
    entity_name(e) + "."@ + operation_name(op) + ".v1"@
}

pub fn event_type_name(entity: &SyncEntity, op: &SyncOperation) -> (r: String)
    ensures
        r@ == event_type_of(*entity, *op),
{
    let mut s = crate::text::string_of(sync_entity_name(entity));
    crate::text::append_str(&mut s, ".");
    crate::text::append_str(&mut s, sync_operation_name(op));
    crate::text::append_str(&mut s, ".v1");
    s
}

/// Table and primary-key column that store an entity.
pub open spec fn storage_table(e: SyncEntity) -> Seq<char> {
    match e {
        SyncEntity::Account => "accounts"@,
        SyncEntity::Asset => "assets"@,
        SyncEntity::AssetTaxonomyAssignment => "asset_taxonomy_assignments"@,
        SyncEntity::Activity => "activities"@,
        SyncEntity::ActivityImportProfile => "activity_import_profiles"@,
        SyncEntity::Goal => "goals"@,
        SyncEntity::GoalsAllocation => "goals_allocation"@,
        SyncEntity::AiThread => "ai_threads"@,
        SyncEntity::AiMessage => "ai_messages"@,
        SyncEntity::AiThreadTag => "ai_thread_tags"@,
        SyncEntity::ContributionLimit => "contribution_limits"@,
        SyncEntity::Platform => "platforms"@,
        SyncEntity::Snapshot => "holdings_snapshots"@,
    }
}

pub open spec fn storage_pk(e: SyncEntity) -> Seq<char> {
    match e {
        SyncEntity::ActivityImportProfile => "account_id"@,
        _ => "id"@,
    }
}

pub fn entity_storage_mapping(entity: &SyncEntity) -> (r: (&'static str, &'static str))
    ensures
        r.0@ == storage_table(*entity),
        r.1@ == storage_pk(*entity),
{
    match entity {
        SyncEntity::Account => ("accounts", "id"),
        SyncEntity::Asset => ("assets", "id"),
        SyncEntity::AssetTaxonomyAssignment => ("asset_taxonomy_assignments", "id"),
        SyncEntity::Activity => ("activities", "id"),
        SyncEntity::ActivityImportProfile => ("activity_import_profiles", "account_id"),
        SyncEntity::Goal => ("goals", "id"),
        SyncEntity::GoalsAllocation => ("goals_allocation", "id"),
        SyncEntity::AiThread => ("ai_threads", "id"),
        SyncEntity::AiMessage => ("ai_messages", "id"),
        SyncEntity::AiThreadTag => ("ai_thread_tags", "id"),
        SyncEntity::ContributionLimit => ("contribution_limits", "id"),
        SyncEntity::Platform => ("platforms", "id"),
        SyncEntity::Snapshot => ("holdings_snapshots", "id"),
    }
}

/// The ordered catalog of tables that take part in device sync.
pub open spec fn sync_tables() -> Seq<Seq<char>> {
    seq![
        "accounts"@,
        "assets"@,
        "asset_taxonomy_assignments"@,
        "activities"@,
        "activity_import_profiles"@,
        "goals"@,
        "goals_allocation"@,
        "ai_threads"@,
        "ai_messages"@,
        "ai_thread_tags"@,
        "contribution_limits"@,
        "platforms"@,
        "holdings_snapshots"@,
    ]
}

pub fn app_sync_tables() -> (r: Vec<&'static str>)
    ensures
        r@.len() == sync_tables().len(),
        forall|i: int| 0 <= i < r@.len() ==> r@[i]@ == sync_tables()[i],
{
    let v = vec![
        "accounts",
        "assets",
        "asset_taxonomy_assignments",
        "activities",
        "activity_import_profiles",
        "goals",
        "goals_allocation",
        "ai_threads",
        "ai_messages",
        "ai_thread_tags",
        "contribution_limits",
        "platforms",
        "holdings_snapshots",
    ];
    v
}

/// Whether `table` is in the catalog of sync tables.
pub fn is_sync_table(table: &str) -> (r: bool)
    ensures
        r == sync_tables().contains(table@),
{
    let tables = app_sync_tables();
    let mut i: usize = 0;
    while i < tables.len()
        invariant
            tables@.len() == sync_tables().len(),
            forall|k: int| 0 <= k < tables@.len() ==> tables@[k]@ == sync_tables()[k],
            i <= tables@.len(),
            forall|k: int| 0 <= k < i ==> sync_tables()[k] != table@,
        decreases tables.len() - i,
    {
        if str_eq(tables[i], table) {
            return true;
        }
        i += 1;
    }
    false
}

} // verus!
