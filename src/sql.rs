use vstd::prelude::*;
use crate::model::{SyncEntity, SyncOperation, storage_table, storage_pk, entity_storage_mapping};
use crate::text::{push_char, append_str, chars_of, str_eq};

verus! {

/// A JSON value of a replayed payload. Numbers carry their JSON text, and
/// arrays and objects their serialized JSON text.
#[derive(Debug, Clone, PartialEq, Eq)]
pub enum JsonValue {
    Null,
    Bool(bool),
    Number(String),
    Str(String),
    Array(String),
    Object(String),
}

/// `s` with every `q` doubled.
pub open spec fn double_char(s: Seq<char>, q: char) -> Seq<char>
    decreases s.len(),
{
    if s.len() == 0 {
        Seq::empty()
    } else {
        double_char(s.drop_last(), q) + if s.last() == q {
            seq![q, q]
        } else {
            seq![s.last()]
        }
    }
}

fn push_doubled(out: &mut String, s: &str, q: char)
    ensures
        final(out)@ == old(out)@ + double_char(s@, q),
{
    let cs = chars_of(s);
    let ghost start = out@;
    let mut i: usize = 0;
    while i < cs.len()
        invariant
            cs@ == s@,
            i <= cs@.len(),
            out@ == start + double_char(s@.subrange(0, i as int), q),
        decreases cs.len() - i,
    {
        let c = cs[i];
        assert(s@.subrange(0, i + 1).drop_last() =~= s@.subrange(0, i as int));
        push_char(out, c);
        if c == q {
            push_char(out, c);
        }
        i += 1;
        assert(out@ =~= start + double_char(s@.subrange(0, i as int), q));
    }
    assert(s@.subrange(0, cs@.len() as int) =~= s@);
}

/// Escapes single quotes for a SQLite string literal.
pub fn escape_sqlite_str(value: &str) -> (r: String)
    ensures
        r@ == double_char(value@, '\''),
{
    let mut out = String::new();
    push_doubled(&mut out, value, '\'');
    assert(out@ =~= double_char(value@, '\''));
    out
}

pub open spec fn quoted_identifier(s: Seq<char>) -> Seq<char> {
    seq!['`'] + double_char(s, '`') + seq!['`']
}

/// Quotes a SQLite identifier with backticks.
pub fn quote_identifier(value: &str) -> (r: String)
    ensures
        r@ == quoted_identifier(value@),
{
    let mut out = String::new();
    push_char(&mut out, '`');
    push_doubled(&mut out, value, '`');
    push_char(&mut out, '`');
    assert(out@ =~= quoted_identifier(value@));
    out
}

pub open spec fn string_literal(s: Seq<char>) -> Seq<char> {
    seq!['\''] + double_char(s, '\'') + seq!['\'']
}

/// The SQL literal for a JSON value: `NULL`, `1`/`0` for booleans, numbers
/// verbatim, and strings, arrays and objects as quoted text.
pub open spec fn sql_literal(v: JsonValue) -> Seq<char> {
    match v {
        JsonValue::Null => "NULL"@,
        JsonValue::Bool(b) => if b {
            "1"@
        } else {
            "0"@
        },
        JsonValue::Number(n) => n@,
        JsonValue::Str(s) => string_literal(s@),
        JsonValue::Array(t) => string_literal(t@),
        JsonValue::Object(t) => string_literal(t@),
    }
}

fn quoted_literal(s: &str) -> (r: String)
    ensures
        r@ == string_literal(s@),
{
    let mut out = String::new();
    push_char(&mut out, '\'');
    push_doubled(&mut out, s, '\'');
    push_char(&mut out, '\'');
    assert(out@ =~= string_literal(s@));
    out
}

pub fn json_value_to_sql_literal(value: &JsonValue) -> (r: String)
    ensures
        r@ == sql_literal(*value),
{
    match value {
        JsonValue::Null => crate::text::string_of("NULL"),
        JsonValue::Bool(b) => if *b {
            crate::text::string_of("1")
        } else {
            crate::text::string_of("0")
        },
        JsonValue::Number(n) => crate::text::string_of(n.as_str()),
        JsonValue::Str(s) => quoted_literal(s.as_str()),
        JsonValue::Array(t) => quoted_literal(t.as_str()),
        JsonValue::Object(t) => quoted_literal(t.as_str()),
    }
}

/// Whether a payload's primary-key value names the entity id.
pub open spec fn spec_pk_matches(v: JsonValue, entity_id: Seq<char>) -> bool {
    match v {
        JsonValue::Str(s) => s@ == entity_id,
        JsonValue::Number(n) => n@ == entity_id,
        JsonValue::Bool(b) => (if b {
            "true"@
        } else {
            "false"@
        }) == entity_id,
        _ => false,
    }
}

pub fn payload_value_matches_entity_id(value: &JsonValue, entity_id: &str) -> (r: bool)
    ensures
        r == spec_pk_matches(*value, entity_id@),
{
    match value {
        JsonValue::Str(s) => str_eq(s.as_str(), entity_id),
        JsonValue::Number(n) => str_eq(n.as_str(), entity_id),
        JsonValue::Bool(b) => if *b {
            str_eq("true", entity_id)
        } else {
            str_eq("false", entity_id)
        },
        _ => false,
    }
}

/// Why a replayed event could not be turned into a statement.
#[derive(Debug, Clone, PartialEq, Eq)]
pub enum ReplayError {
    /// The payload of an upsert is not a JSON object.
    PayloadNotObject,
    /// The payload's primary-key field names another row.
    PrimaryKeyMismatch { pk: String, entity_id: String },
    /// A payload key is not a column of the target table.
    UnknownColumn { column: String, table: String },
}

pub open spec fn column_known(known: Seq<String>, c: Seq<char>) -> bool {
    exists|i: int| 0 <= i < known.len() && known[i]@ == c
}

/// Index of the first field whose name is not a known column, if any.
pub open spec fn first_unknown_column(fields: Seq<(String, JsonValue)>, known: Seq<String>, i: int) -> bool {
    0 <= i < fields.len() && !column_known(known, fields[i].0@)
        && forall|j: int| 0 <= j < i ==> column_known(known, #[trigger] fields[j].0@)
}

/// The payload's primary-key field names another row.
pub open spec fn pk_conflict(fields: Seq<(String, JsonValue)>, pk: Seq<char>, entity_id: Seq<char>) -> bool {
    match lookup_field(fields, pk) {
        Some(v) => !spec_pk_matches(v, entity_id),
        None => false,
    }
}

/// `i` is the first of `cols` that is not a known column.
pub open spec fn first_unknown_in(cols: Seq<Seq<char>>, known: Seq<String>, i: int) -> bool {
    0 <= i < cols.len() && !column_known(known, cols[i]) && forall|j: int| 0 <= j < i ==> column_known(known, #[trigger] cols[j])
}

pub open spec fn all_columns_known(fields: Seq<(String, JsonValue)>, known: Seq<String>) -> bool {
    forall|j: int| 0 <= j < fields.len() ==> column_known(known, #[trigger] fields[j].0@)
}

fn is_known_column(known: &Vec<String>, c: &str) -> (r: bool)
    ensures
        r == column_known(known@, c@),
{
    let mut i: usize = 0;
    while i < known.len()
        invariant
            i <= known@.len(),
            forall|k: int| 0 <= k < i ==> known@[k]@ != c@,
        decreases known.len() - i,
    {
        if str_eq(known[i].as_str(), c) {
            return true;
        }
        i += 1;
    }
    false
}

/// Checks that every payload key is a column of `table_name`; `known_columns`
/// are the table's actual columns. On failure the first unknown key is named.
pub fn validate_payload_columns(
    table_name: &str,
    fields: &Vec<(String, JsonValue)>,
    known_columns: &Vec<String>,
) -> (r: Result<(), ReplayError>)
    ensures
        r is Ok <==> all_columns_known(fields@, known_columns@),
        r matches Err(ReplayError::UnknownColumn { column, table }) ==> table@ == table_name@
            && exists|i: int| first_unknown_column(fields@, known_columns@, i) && fields@[i].0@ == column@,
        !(r matches Err(ReplayError::PayloadNotObject)),
        !(r matches Err(ReplayError::PrimaryKeyMismatch { .. })),
{
    let mut i: usize = 0;
    while i < fields.len()
        invariant
            i <= fields@.len(),
            forall|j: int| 0 <= j < i ==> column_known(known_columns@, #[trigger] fields@[j].0@),
        decreases fields.len() - i,
    {
        if !is_known_column(known_columns, fields[i].0.as_str()) {
            let column = crate::text::string_of(fields[i].0.as_str());
            let table = crate::text::string_of(table_name);
            assert(first_unknown_column(fields@, known_columns@, i as int));
            return Err(ReplayError::UnknownColumn { column, table });
        }
        i += 1;
    }
    Ok(())
}

} // verus!

verus! {

/// The value of the first field named `key`, if any.
pub open spec fn lookup_field(fields: Seq<(String, JsonValue)>, key: Seq<char>) -> Option<JsonValue>
    decreases fields.len(),
{
    if fields.len() == 0 {
        None
    } else if fields[0].0@ == key {
        Some(fields[0].1)
    } else {
        lookup_field(fields.drop_first(), key)
    }
}

fn find_field<'a>(fields: &'a Vec<(String, JsonValue)>, key: &str) -> (r: Option<&'a JsonValue>)
    ensures
        match r {
            Some(v) => lookup_field(fields@, key@) == Some(*v),
            None => lookup_field(fields@, key@) is None,
        },
{
    let mut i: usize = 0;
    assert(fields@.subrange(0, fields@.len() as int) =~= fields@);
    while i < fields.len()
        invariant
            i <= fields@.len(),
            lookup_field(fields@, key@) == lookup_field(fields@.subrange(i as int, fields@.len() as int), key@),
        decreases fields.len() - i,
    {
        assert(fields@.subrange(i as int, fields@.len() as int).drop_first() =~= fields@.subrange(i + 1, fields@.len() as int));
        if str_eq(fields[i].0.as_str(), key) {
            return Some(&fields[i].1);
        }
        i += 1;
    }
    None
}

/// Parts joined by `", "`.
pub open spec fn join_comma(parts: Seq<Seq<char>>) -> Seq<char>
    decreases parts.len(),
{
    if parts.len() == 0 {
        Seq::empty()
    } else if parts.len() == 1 {
        parts[0]
    } else {
        join_comma(parts.drop_last()) + ", "@ + parts.last()
    }
}

pub open spec fn field_names(fields: Seq<(String, JsonValue)>) -> Seq<Seq<char>>
    decreases fields.len(),
{
    if fields.len() == 0 {
        Seq::empty()
    } else {
        field_names(fields.drop_last()).push(fields.last().0@)
    }
}

pub open spec fn field_literals(fields: Seq<(String, JsonValue)>) -> Seq<Seq<char>>
    decreases fields.len(),
{
    if fields.len() == 0 {
        Seq::empty()
    } else {
        field_literals(fields.drop_last()).push(sql_literal(fields.last().1))
    }
}

pub open spec fn quoted_list(cols: Seq<Seq<char>>) -> Seq<Seq<char>>
    decreases cols.len(),
{
    if cols.len() == 0 {
        Seq::empty()
    } else {
        quoted_list(cols.drop_last()).push(quoted_identifier(cols.last()))
    }
}

pub open spec fn excluded_list(cols: Seq<Seq<char>>) -> Seq<Seq<char>>
    decreases cols.len(),
{
    if cols.len() == 0 {
        Seq::empty()
    } else {
        excluded_list(cols.drop_last()).push(excluded_assignment(cols.last()))
    }
}

proof fn lemma_field_names(fields: Seq<(String, JsonValue)>)
    ensures
        field_names(fields).len() == fields.len(),
        forall|j: int| 0 <= j < fields.len() ==> #[trigger] field_names(fields)[j] == fields[j].0@,
    decreases fields.len(),
{
    if fields.len() > 0 {
        lemma_field_names(fields.drop_last());
    }
}

/// Columns written by an upsert: the payload's keys, and the primary key
/// when the payload lacks it.
pub open spec fn upsert_columns(fields: Seq<(String, JsonValue)>, pk: Seq<char>) -> Seq<Seq<char>> {
    if lookup_field(fields, pk) is Some {
        field_names(fields)
    } else {
        field_names(fields).push(pk)
    }
}

pub open spec fn upsert_values(fields: Seq<(String, JsonValue)>, pk: Seq<char>, entity_id: Seq<char>) -> Seq<Seq<char>> {
    if lookup_field(fields, pk) is Some {
        field_literals(fields)
    } else {
        field_literals(fields).push(string_literal(entity_id))
    }
}

pub open spec fn excluded_assignment(c: Seq<char>) -> Seq<char> {
    quoted_identifier(c) + "=excluded."@ + quoted_identifier(c)
}

pub open spec fn upsert_sql(table: Seq<char>, pk: Seq<char>, cols: Seq<Seq<char>>, vals: Seq<Seq<char>>) -> Seq<char> {
    "INSERT INTO "@ + quoted_identifier(table) + " ("@ + join_comma(quoted_list(cols))
        + ") VALUES ("@ + join_comma(vals) + ") ON CONFLICT("@ + quoted_identifier(pk) + ") DO UPDATE SET "@
        + join_comma(excluded_list(cols))
}

pub open spec fn delete_sql(table: Seq<char>, pk: Seq<char>, entity_id: Seq<char>) -> Seq<char> {
    "DELETE FROM "@ + quoted_identifier(table) + " WHERE "@ + quoted_identifier(pk) + " = "@ + string_literal(entity_id)
}

/// What replaying a winning event does to the entity's table: the statement,
/// or why none can be made. `payload` holds the payload's fields when it is a
/// JSON object; `known_columns` are the target table's columns.
pub open spec fn spec_replay_statement(
    entity: SyncEntity,
    entity_id: Seq<char>,
    op: SyncOperation,
    payload: Option<Seq<(String, JsonValue)>>,
    known_columns: Seq<String>,
) -> Result<Seq<char>, ()> {
    let table = storage_table(entity);
    let pk = storage_pk(entity);
    if op == SyncOperation::Delete {
        Ok(delete_sql(table, pk, entity_id))
    } else {
        match payload {
            None => Err(()),
            Some(f) => if lookup_field(f, pk) matches Some(v) && !spec_pk_matches(v, entity_id) {
                Err(())
            } else if !(forall|j: int| 0 <= j < upsert_columns(f, pk).len() ==> column_known(known_columns, #[trigger] upsert_columns(f, pk)[j])) {
                Err(())
            } else {
                Ok(upsert_sql(table, pk, upsert_columns(f, pk), upsert_values(f, pk, entity_id)))
            },
        }
    }
}

pub open spec fn payload_view(payload: Option<&Vec<(String, JsonValue)>>) -> Option<Seq<(String, JsonValue)>> {
    match payload {
        Some(p) => Some(p@),
        None => None,
    }
}

struct UpsertParts {
    cols: String,
    vals: String,
    sets: String,
}

fn append_joined(out: &mut String, part: &str, first: bool)
    ensures
        final(out)@ == if first {
            old(out)@ + part@
        } else {
            old(out)@ + ", "@ + part@
        },
{
    if !first {
        append_str(out, ", ");
    }
    append_str(out, part);
}

proof fn lemma_join_push(parts: Seq<Seq<char>>, x: Seq<char>)
    ensures
        join_comma(parts.push(x)) == if parts.len() == 0 {
            x
        } else {
            join_comma(parts) + ", "@ + x
        },
{
    assert(parts.push(x).drop_last() =~= parts);
}

proof fn lemma_push_parts(cols: Seq<Seq<char>>, x: Seq<char>)
    ensures
        join_comma(quoted_list(cols.push(x))) == if cols.len() == 0 {
            quoted_identifier(x)
        } else {
            join_comma(quoted_list(cols)) + ", "@ + quoted_identifier(x)
        },
        join_comma(excluded_list(cols.push(x))) == if cols.len() == 0 {
            excluded_assignment(x)
        } else {
            join_comma(excluded_list(cols)) + ", "@ + excluded_assignment(x)
        },
{
    assert(cols.push(x).drop_last() =~= cols);
    lemma_list_len(cols);
    lemma_join_push(quoted_list(cols), quoted_identifier(x));
    lemma_join_push(excluded_list(cols), excluded_assignment(x));
}

pub proof fn lemma_list_len(cols: Seq<Seq<char>>)
    ensures
        quoted_list(cols).len() == cols.len(),
        excluded_list(cols).len() == cols.len(),
    decreases cols.len(),
{
    if cols.len() > 0 {
        lemma_list_len(cols.drop_last());
    }
}

proof fn lemma_field_literals_len(fields: Seq<(String, JsonValue)>)
    ensures
        field_literals(fields).len() == fields.len(),
    decreases fields.len(),
{
    if fields.len() > 0 {
        lemma_field_literals_len(fields.drop_last());
    }
}

fn excluded_of(name: &str) -> (r: String)
    ensures
        r@ == excluded_assignment(name@),
{
    let mut s = quote_identifier(name);
    append_str(&mut s, "=excluded.");
    let q = quote_identifier(name);
    append_str(&mut s, q.as_str());
    s
}

fn build_upsert_parts(fields: &Vec<(String, JsonValue)>, pk: &str, entity_id: &str, inject_pk: bool) -> (r: UpsertParts)
    ensures
        ({
            let cols = if inject_pk { field_names(fields@).push(pk@) } else { field_names(fields@) };
            let vals = if inject_pk { field_literals(fields@).push(string_literal(entity_id@)) } else { field_literals(fields@) };
            &&& r.cols@ == join_comma(quoted_list(cols))
            &&& r.vals@ == join_comma(vals)
            &&& r.sets@ == join_comma(excluded_list(cols))
        }),
{
    let mut cols = String::new();
    let mut vals = String::new();
    let mut sets = String::new();
    let mut i: usize = 0;
    while i < fields.len()
        invariant
            i <= fields@.len(),
            cols@ == join_comma(quoted_list(field_names(fields@.subrange(0, i as int)))),
            vals@ == join_comma(field_literals(fields@.subrange(0, i as int))),
            sets@ == join_comma(excluded_list(field_names(fields@.subrange(0, i as int)))),
        decreases fields.len() - i,
    {
        let name = fields[i].0.as_str();
        let q = quote_identifier(name);
        append_joined(&mut cols, q.as_str(), i == 0);
        let lit = json_value_to_sql_literal(&fields[i].1);
        append_joined(&mut vals, lit.as_str(), i == 0);
        let ex = excluded_of(name);
        append_joined(&mut sets, ex.as_str(), i == 0);
        proof {
            let f0 = fields@.subrange(0, i as int);
            let f1 = fields@.subrange(0, i + 1);
            assert(f1.drop_last() =~= f0);
            lemma_field_names(f0);
            lemma_push_parts(field_names(f0), name@);
            lemma_join_push(field_literals(f0), lit@);
        }
        i += 1;
    }
    assert(fields@.subrange(0, fields@.len() as int) =~= fields@);
    if inject_pk {
        let q = quote_identifier(pk);
        append_joined(&mut cols, q.as_str(), fields.len() == 0);
        let lit = quoted_literal(entity_id);
        append_joined(&mut vals, lit.as_str(), fields.len() == 0);
        let ex = excluded_of(pk);
        append_joined(&mut sets, ex.as_str(), fields.len() == 0);
        proof {
            lemma_field_names(fields@);
            lemma_push_parts(field_names(fields@), pk@);
            lemma_join_push(field_literals(fields@), lit@);
            lemma_field_literals_len(fields@);
        }
    }
    UpsertParts { cols, vals, sets }
}

/// Builds the statement that replays a winning event into the entity's
/// table: a delete by primary key, or an upsert of the payload's fields with
/// the primary key added when absent. Fails, before any statement exists,
/// when an upsert's payload is not an object, names another row in its
/// primary-key field, or holds a key that is not a column of the table.
pub fn replay_statement(
    entity: SyncEntity,
    entity_id: &str,
    op: SyncOperation,
    payload: Option<&Vec<(String, JsonValue)>>,
    known_columns: &Vec<String>,
) -> (r: Result<String, ReplayError>)
    ensures
        match r {
            Ok(s) => spec_replay_statement(entity, entity_id@, op, payload_view(payload), known_columns@) == Ok::<Seq<char>, ()>(s@),
            Err(_) => spec_replay_statement(entity, entity_id@, op, payload_view(payload), known_columns@) is Err,
        },
        r matches Err(ReplayError::UnknownColumn { .. }) ==> op != SyncOperation::Delete,
        op != SyncOperation::Delete && payload is None ==> r == Err::<String, ReplayError>(ReplayError::PayloadNotObject),
        op != SyncOperation::Delete && payload is Some ==> match r {
            Err(ReplayError::PayloadNotObject) => false,
            Err(ReplayError::PrimaryKeyMismatch { pk, entity_id: id }) => pk@ == storage_pk(entity) && id@ == entity_id@
                && pk_conflict(payload_view(payload).unwrap(), storage_pk(entity), entity_id@),
            Err(ReplayError::UnknownColumn { column, table }) => table@ == storage_table(entity)
                && !pk_conflict(payload_view(payload).unwrap(), storage_pk(entity), entity_id@)
                && exists|i: int| first_unknown_in(upsert_columns(payload_view(payload).unwrap(), storage_pk(entity)), known_columns@, i)
                    && upsert_columns(payload_view(payload).unwrap(), storage_pk(entity))[i] == column@,
            Ok(_) => true,
        },
{
    let (table, pk) = entity_storage_mapping(&entity);
    let qt = quote_identifier(table);
    let qp = quote_identifier(pk);
    if op == SyncOperation::Delete {
        let mut s = crate::text::string_of("DELETE FROM ");
        append_str(&mut s, qt.as_str());
        append_str(&mut s, " WHERE ");
        append_str(&mut s, qp.as_str());
        append_str(&mut s, " = ");
        let lit = quoted_literal(entity_id);
        append_str(&mut s, lit.as_str());
        return Ok(s);
    }
    let fields = match payload {
        None => {
            return Err(ReplayError::PayloadNotObject);
        },
        Some(f) => f,
    };
    let existing = find_field(fields, pk);
    if let Some(v) = existing {
        if !payload_value_matches_entity_id(v, entity_id) {
            return Err(ReplayError::PrimaryKeyMismatch {
                pk: crate::text::string_of(pk),
                entity_id: crate::text::string_of(entity_id),
            });
        }
    }
    let inject = existing.is_none();
    proof {
        lemma_field_names(fields@);
    }
    let checked = validate_payload_columns(table, fields, known_columns);
    if let Err(e) = checked {
        proof {
            assert(!all_columns_known(fields@, known_columns@));
            let j = choose|j: int| 0 <= j < fields@.len() && !column_known(known_columns@, #[trigger] fields@[j].0@);
            assert(upsert_columns(fields@, pk@)[j] == fields@[j].0@);
            if let ReplayError::UnknownColumn { ref column, ref table } = e {
                let i = choose|i: int| first_unknown_column(fields@, known_columns@, i) && fields@[i].0@ == column@;
                assert(upsert_columns(fields@, pk@)[i] == fields@[i].0@);
                assert forall|k: int| 0 <= k < i implies column_known(known_columns@, #[trigger] upsert_columns(fields@, pk@)[k]) by {
                    assert(upsert_columns(fields@, pk@)[k] == fields@[k].0@);
                }
                assert(first_unknown_in(upsert_columns(fields@, pk@), known_columns@, i));
            }
        }
        return Err(e);
    }
    if inject && !is_known_column(known_columns, pk) {
        proof {
            let n = fields@.len() as int;
            assert(upsert_columns(fields@, pk@)[n] == pk@);
            assert(all_columns_known(fields@, known_columns@));
            assert forall|k: int| 0 <= k < n implies column_known(known_columns@, #[trigger] upsert_columns(fields@, pk@)[k]) by {
                assert(upsert_columns(fields@, pk@)[k] == fields@[k].0@);
            }
            assert(first_unknown_in(upsert_columns(fields@, pk@), known_columns@, n));
        }
        return Err(ReplayError::UnknownColumn { column: crate::text::string_of(pk), table: crate::text::string_of(table) });
    }
    proof {
        assert forall|j: int| 0 <= j < upsert_columns(fields@, pk@).len() implies column_known(known_columns@, #[trigger] upsert_columns(fields@, pk@)[j]) by {
            if j < fields@.len() {
                assert(upsert_columns(fields@, pk@)[j] == fields@[j].0@);
            }
        }
    }
    let parts = build_upsert_parts(fields, pk, entity_id, inject);
    let mut s = crate::text::string_of("INSERT INTO ");
    append_str(&mut s, qt.as_str());
    append_str(&mut s, " (");
    append_str(&mut s, parts.cols.as_str());
    append_str(&mut s, ") VALUES (");
    append_str(&mut s, parts.vals.as_str());
    append_str(&mut s, ") ON CONFLICT(");
    append_str(&mut s, qp.as_str());
    append_str(&mut s, ") DO UPDATE SET ");
    append_str(&mut s, parts.sets.as_str());
    Ok(s)
}

} // verus!

verus! {

pub proof fn lemma_quoted_list_len(cols: Seq<Seq<char>>)
    ensures
        quoted_list(cols).len() == cols.len(),
{
    lemma_list_len(cols);
}

} // verus!

verus! {

/// Replaying an upsert whose payload holds a key that is not a column of the
/// target table yields no statement.
pub proof fn lemma_unknown_column_yields_no_statement(
    entity: SyncEntity,
    entity_id: Seq<char>,
    op: SyncOperation,
    fields: Seq<(String, JsonValue)>,
    known_columns: Seq<String>,
    i: int,
)
    requires
        op != SyncOperation::Delete,
        0 <= i < fields.len(),
        !column_known(known_columns, fields[i].0@),
    ensures
        spec_replay_statement(entity, entity_id, op, Some(fields), known_columns) is Err,
{
    lemma_field_names(fields);
    let pk = storage_pk(entity);
    assert(upsert_columns(fields, pk)[i] == fields[i].0@);
}

} // verus!

verus! {

/// A row, column name to SQL literal, after an upsert that assigns `vals[i]`
/// to `cols[i]` in order.
pub open spec fn upserted_row(row: Map<Seq<char>, Seq<char>>, cols: Seq<Seq<char>>, vals: Seq<Seq<char>>) -> Map<Seq<char>, Seq<char>>
    decreases cols.len(),
{
    if cols.len() == 0 || vals.len() == 0 {
        row
    } else {
        upserted_row(row, cols.drop_last(), vals.drop_last()).insert(cols.last(), vals.last())
    }
}

proof fn lemma_upserted_row(row: Map<Seq<char>, Seq<char>>, cols: Seq<Seq<char>>, vals: Seq<Seq<char>>)
    requires
        cols.len() == vals.len(),
    ensures
        forall|k: Seq<char>| #[trigger] upserted_row(row, cols, vals).contains_key(k) <==> (row.contains_key(k) || cols.contains(k)),
        forall|k: Seq<char>| cols.contains(k) ==> #[trigger] upserted_row(row, cols, vals)[k] == upserted_row(Map::empty(), cols, vals)[k],
    decreases cols.len(),
{
    if cols.len() > 0 {
        let c0 = cols.drop_last();
        let v0 = vals.drop_last();
        let x = cols.last();
        lemma_upserted_row(row, c0, v0);
        lemma_upserted_row(Map::empty(), c0, v0);
        assert forall|k: Seq<char>| cols.contains(k) <==> (c0.contains(k) || k == x) by {
            if cols.contains(k) {
                let i = choose|i: int| 0 <= i < cols.len() && cols[i] == k;
                if i < cols.len() - 1 {
                    assert(c0[i] == k);
                }
            }
            if c0.contains(k) {
                let i = choose|i: int| 0 <= i < c0.len() && c0[i] == k;
                assert(cols[i] == k);
            }
            if k == x {
                assert(cols[cols.len() - 1] == k);
            }
        }
        let u = upserted_row(row, cols, vals);
        let e = upserted_row(Map::empty(), cols, vals);
        assert(u == upserted_row(row, c0, v0).insert(x, vals.last()));
        assert(e == upserted_row(Map::empty(), c0, v0).insert(x, vals.last()));
        assert forall|k: Seq<char>| #[trigger] u.contains_key(k) <==> (row.contains_key(k) || cols.contains(k)) by {
            assert(cols.contains(k) <==> (c0.contains(k) || k == x));
        }
        assert forall|k: Seq<char>| cols.contains(k) implies #[trigger] u[k] == e[k] by {
            assert(cols.contains(k) <==> (c0.contains(k) || k == x));
            if k != x {
                assert(c0.contains(k));
            }
        }
    } else {
        assert forall|k: Seq<char>| #[trigger] upserted_row(row, cols, vals).contains_key(k) <==> (row.contains_key(k) || cols.contains(k)) by {
            if cols.contains(k) {
                let i = choose|i: int| 0 <= i < cols.len() && cols[i] == k;
            }
        }
    }
}

/// An upsert that writes every column the row already has leaves exactly
/// the columns and values it writes: the old content is replaced as a
/// whole, which is how the replica model treats a winning event.
pub proof fn lemma_full_upsert_replaces_row(row: Map<Seq<char>, Seq<char>>, cols: Seq<Seq<char>>, vals: Seq<Seq<char>>)
    requires
        cols.len() == vals.len(),
        forall|k: Seq<char>| row.contains_key(k) ==> cols.contains(k),
    ensures
        upserted_row(row, cols, vals) == upserted_row(Map::empty(), cols, vals),
{
    lemma_upserted_row(row, cols, vals);
    lemma_upserted_row(Map::empty(), cols, vals);
    assert(upserted_row(row, cols, vals) =~= upserted_row(Map::empty(), cols, vals));
}

/// The columns and values of a replayed upsert line up one to one, so the
/// statement of `spec_replay_statement` writes `upserted_row` of them.
pub proof fn lemma_upsert_columns_match_values(fields: Seq<(String, JsonValue)>, pk: Seq<char>, entity_id: Seq<char>)
    ensures
        upsert_columns(fields, pk).len() == upsert_values(fields, pk, entity_id).len(),
{
    lemma_field_names(fields);
    lemma_field_literals_len(fields);
}

} // verus!
