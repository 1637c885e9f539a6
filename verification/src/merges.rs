//! Undoing a merge of two entities: the statements that put back what the
//! merge's snapshot recorded of both.

use vstd::prelude::*;
use crate::hashing::hex_digit;
use crate::structured::{json_document, json_get, json_serialized, json_str, json_text, Json};
use crate::text::concat;

verus! {

/// Errors of the store.
#[derive(Clone, Debug, PartialEq)]
pub enum StorageError {
    Internal(String),
}

/// A parameter of a statement.
#[derive(Clone, Debug, PartialEq)]
pub enum SqlParam {
    Text(String),
    Int(i64),
}

/// A statement with its parameters, bound in order to `?1`, `?2`, ...
#[derive(Clone, Debug, PartialEq)]
pub struct SqlStatement {
    pub sql: String,
    pub params: Vec<SqlParam>,
}

/// The mathematical value of a parameter.
pub enum ParamV {
    Text(Seq<char>),
    Int(i64),
}

/// The mathematical value of a statement.
pub struct StatementV {
    pub sql: Seq<char>,
    pub params: Seq<ParamV>,
}

impl View for SqlParam {
    type V = ParamV;

    open spec fn view(&self) -> ParamV {
        match self {
            SqlParam::Text(s) => ParamV::Text(s@),
            SqlParam::Int(i) => ParamV::Int(*i),
        }
    }
}

impl View for SqlStatement {
    type V = StatementV;

    open spec fn view(&self) -> StatementV {
        StatementV { sql: self.sql@, params: self.params@.map_values(|p: SqlParam| p@) }
    }
}

/// The mathematical value of a list of statements.
pub open spec fn statements_view(v: Seq<SqlStatement>) -> Seq<StatementV> {
    v.map_values(|s: SqlStatement| s@)
}

/// The last `n` hexadecimal digits of `v`, lower case, most significant first.
pub open spec fn hex_digits(v: nat, n: nat) -> Seq<char>
    decreases n,
{
    if n == 0 {
        Seq::empty()
    } else {
        hex_digits(v / 16, (n - 1) as nat).push(hex_digit((v % 16) as u8))
    }
}

/// The canonical text of the UUID `id`: its 32 lower-case hexadecimal
/// digits, most significant first, in groups of 8, 4, 4, 4 and 12 joined
/// by hyphens.
pub open spec fn uuid_text(id: u128) -> Seq<char> {
    let d = hex_digits(id as nat, 32);
    d.subrange(0, 8) + "-"@ + d.subrange(8, 12) + "-"@ + d.subrange(12, 16) + "-"@ + d.subrange(16, 20)
        + "-"@ + d.subrange(20, 32)
}

/// `uuid::Uuid::from_u128(id).to_string()`. Claimed: the result is the
/// hyphenated lower-case form `uuid_text` of `id` (the form `Display`
/// writes for a `Uuid`, whose bytes are `id` in big-endian order).
#[verifier::external_body]
fn uuid_string(id: u128) -> (r: String)
    ensures
        r@ == uuid_text(id),
{
    uuid::Uuid::from_u128(id).to_string()
}

/// The string at `key` of a JSON object, else `default`.
pub open spec fn str_or(v: Option<Json>, key: Seq<char>, default: Seq<char>) -> Seq<char> {
    match json_str(json_get(v, key)) {
        Some(s) => s,
        None => default,
    }
}

/// The integer at `key` of a JSON object, when it is an `i64`, else `default`.
pub open spec fn int_or(v: Option<Json>, key: Seq<char>, default: i64) -> i64 {
    match json_get(v, key) {
        Some(Json::Number(_, Some(i), _)) => i,
        _ => default,
    }
}

/// The boolean at `key` of a JSON object, else `default`, as 1 or 0.
pub open spec fn flag_or(v: Option<Json>, key: Seq<char>, default: bool) -> i64 {
    let b = match json_get(v, key) {
        Some(Json::Bool(b)) => b,
        _ => default,
    };
    if b { 1 } else { 0 }
}

/// The serialization of the value at `key` (`null` when there is none).
pub open spec fn value_text(v: Option<Json>, key: Seq<char>) -> Seq<char> {
    match json_get(v, key) {
        Some(x) => json_serialized(x),
        None => json_serialized(Json::Null),
    }
}

/// The items of a JSON array, or none for anything else.
pub open spec fn array_items(v: Option<Json>) -> Seq<Json> {
    match v {
        Some(Json::Array(items)) => items@,
        _ => Seq::empty(),
    }
}

/// The statement that puts back the recorded component `c` of `owner`.
pub open spec fn component_restore(c: Json, owner: Seq<char>) -> StatementV {
    StatementV {
        sql: "INSERT OR REPLACE INTO components (id, entity_id, component_type, data, created_at, version) VALUES (?1, ?2, ?3, ?4, ?5, ?6)"@,
        params: seq![
            ParamV::Text(str_or(Some(c), "id"@, ""@)),
            ParamV::Text(owner),
            ParamV::Text(str_or(Some(c), "component_type"@, ""@)),
            ParamV::Text(value_text(Some(c), "data"@)),
            ParamV::Text(str_or(Some(c), "created_at"@, ""@)),
            ParamV::Int(int_or(Some(c), "version"@, 1)),
        ],
    }
}

/// The statement that puts back the recorded relationship `r` from `owner`.
pub open spec fn relationship_restore(r: Json, owner: Seq<char>) -> StatementV {
    StatementV {
        sql: "INSERT OR REPLACE INTO relationships (id, source_id, target_id, relationship_type, is_active, created_at) VALUES (?1, ?2, ?3, ?4, ?5, ?6)"@,
        params: seq![
            ParamV::Text(str_or(Some(r), "id"@, ""@)),
            ParamV::Text(owner),
            ParamV::Text(str_or(Some(r), "target_id"@, ""@)),
            ParamV::Text(str_or(Some(r), "relationship_type"@, ""@)),
            ParamV::Int(flag_or(Some(r), "is_active"@, true)),
            ParamV::Text(str_or(Some(r), "created_at"@, ""@)),
        ],
    }
}

/// The statement that puts back the recorded entity `e` as `id`; times it
/// did not record are `now`.
pub open spec fn entity_restore(e: Option<Json>, id: Seq<char>, now: Seq<char>) -> StatementV {
    StatementV {
        sql: "INSERT OR REPLACE INTO entities (id, entity_type, is_active, created_at, updated_at, version) VALUES (?1, ?2, ?3, ?4, ?5, ?6)"@,
        params: seq![
            ParamV::Text(id),
            ParamV::Text(str_or(e, "entity_type"@, "Article"@)),
            ParamV::Int(flag_or(e, "is_active"@, true)),
            ParamV::Text(str_or(e, "created_at"@, now)),
            ParamV::Text(str_or(e, "updated_at"@, now)),
            ParamV::Int(int_or(e, "version"@, 1)),
        ],
    }
}

/// The statements that put back the recorded components `items` of `owner`.
pub open spec fn component_restores(items: Seq<Json>, owner: Seq<char>) -> Seq<StatementV>
    decreases items.len(),
{
    if items.len() == 0 {
        Seq::empty()
    } else {
        component_restores(items.drop_last(), owner).push(component_restore(items.last(), owner))
    }
}

/// The statements that put back the recorded relationships `items` from `owner`.
pub open spec fn relationship_restores(items: Seq<Json>, owner: Seq<char>) -> Seq<StatementV>
    decreases items.len(),
{
    if items.len() == 0 {
        Seq::empty()
    } else {
        relationship_restores(items.drop_last(), owner).push(relationship_restore(items.last(), owner))
    }
}

/// A statement with one text parameter.
pub open spec fn keyed(sql: Seq<char>, key: Seq<char>) -> StatementV {
    StatementV { sql, params: seq![ParamV::Text(key)] }
}

/// The statements that undo a merge, from its snapshot: the target's
/// components and relationships are replaced by the recorded ones, the
/// source entity and its components are put back, and the merge's log
/// entry is removed.
pub open spec fn undo_statements(snapshot: Json, merge_id: u128, source_id: u128, target_id: u128, now: Seq<char>) -> Seq<StatementV> {
    let target = json_get(Some(snapshot), "target"@);
    let source = json_get(Some(snapshot), "source"@);
    let t = uuid_text(target_id);
    let s = uuid_text(source_id);
    seq![keyed("DELETE FROM components WHERE entity_id = ?1"@, t)]
        + component_restores(array_items(json_get(target, "components"@)), t)
        + seq![keyed("DELETE FROM relationships WHERE source_id = ?1 OR target_id = ?1"@, t)]
        + relationship_restores(array_items(json_get(target, "relationships"@)), t)
        + seq![entity_restore(source, s, now)]
        + component_restores(array_items(json_get(source, "components"@)), s)
        + seq![keyed("DELETE FROM resolution_log WHERE id = ?1"@, uuid_text(merge_id))]
}

/// The plan that undoes a merge, or why there is none: no snapshot was
/// recorded, or it is not well-formed JSON.
pub open spec fn undo_plan(snapshot: Option<Seq<char>>, merge_id: u128, source_id: u128, target_id: u128, now: Seq<char>) -> Result<Seq<StatementV>, Seq<char>> {
    match snapshot {
        None => Err("No snapshot available for undo"@),
        Some(text) => match json_document(text) {
            Err(e) => Err("Invalid snapshot: "@ + e),
            Ok(p) => Ok(undo_statements(p.0, merge_id, source_id, target_id, now)),
        },
    }
}

pub(crate) fn str_field(v: Option<&Json>, key: &str, default: &str) -> (r: String)
    ensures
        r@ == str_or(match v { Some(x) => Some(*x), None => None }, key@, default@),
{
    match crate::structured::get_of(v, key) {
        Some(Json::Text(s)) => s.clone(),
        _ => default.to_string(),
    }
}

fn int_field(v: Option<&Json>, key: &str, default: i64) -> (r: i64)
    ensures
        r == int_or(match v { Some(x) => Some(*x), None => None }, key@, default),
{
    match crate::structured::get_of(v, key) {
        Some(Json::Number(_, Some(i), _)) => *i,
        _ => default,
    }
}

fn flag_field(v: Option<&Json>, key: &str, default: bool) -> (r: i64)
    ensures
        r == flag_or(match v { Some(x) => Some(*x), None => None }, key@, default),
{
    let b = match crate::structured::get_of(v, key) {
        Some(Json::Bool(b)) => *b,
        _ => default,
    };
    if b { 1 } else { 0 }
}

fn value_field(v: Option<&Json>, key: &str) -> (r: String)
    ensures
        r@ == value_text(match v { Some(x) => Some(*x), None => None }, key@),
{
    match crate::structured::get_of(v, key) {
        Some(x) => json_text(x),
        None => json_text(&Json::Null),
    }
}

fn text_param(s: String) -> (p: SqlParam)
    ensures
        p@ == ParamV::Text(s@),
{
    SqlParam::Text(s)
}

fn statement(sql: &str, params: Vec<SqlParam>) -> (s: SqlStatement)
    ensures
        s@ == (StatementV { sql: sql@, params: params@.map_values(|p: SqlParam| p@) }),
{
    SqlStatement { sql: sql.to_string(), params }
}

fn restore_component(c: &Json, owner: &str) -> (s: SqlStatement)
    ensures
        s@ == component_restore(*c, owner@),
{
    let mut p: Vec<SqlParam> = Vec::new();
    p.push(text_param(str_field(Some(c), "id", "")));
    p.push(text_param(owner.to_string()));
    p.push(text_param(str_field(Some(c), "component_type", "")));
    p.push(text_param(value_field(Some(c), "data")));
    p.push(text_param(str_field(Some(c), "created_at", "")));
    p.push(SqlParam::Int(int_field(Some(c), "version", 1)));
    let s = statement(
        "INSERT OR REPLACE INTO components (id, entity_id, component_type, data, created_at, version) VALUES (?1, ?2, ?3, ?4, ?5, ?6)",
        p,
    );
    assert(s@.params =~= component_restore(*c, owner@).params);
    s
}

fn restore_relationship(r: &Json, owner: &str) -> (s: SqlStatement)
    ensures
        s@ == relationship_restore(*r, owner@),
{
    let mut p: Vec<SqlParam> = Vec::new();
    p.push(text_param(str_field(Some(r), "id", "")));
    p.push(text_param(owner.to_string()));
    p.push(text_param(str_field(Some(r), "target_id", "")));
    p.push(text_param(str_field(Some(r), "relationship_type", "")));
    p.push(SqlParam::Int(flag_field(Some(r), "is_active", true)));
    p.push(text_param(str_field(Some(r), "created_at", "")));
    let s = statement(
        "INSERT OR REPLACE INTO relationships (id, source_id, target_id, relationship_type, is_active, created_at) VALUES (?1, ?2, ?3, ?4, ?5, ?6)",
        p,
    );
    assert(s@.params =~= relationship_restore(*r, owner@).params);
    s
}

fn restore_entity(e: Option<&Json>, id: &str, now: &str) -> (s: SqlStatement)
    ensures
        s@ == entity_restore(match e { Some(x) => Some(*x), None => None }, id@, now@),
{
    let mut p: Vec<SqlParam> = Vec::new();
    p.push(text_param(id.to_string()));
    p.push(text_param(str_field(e, "entity_type", "Article")));
    p.push(SqlParam::Int(flag_field(e, "is_active", true)));
    p.push(text_param(str_field(e, "created_at", now)));
    p.push(text_param(str_field(e, "updated_at", now)));
    p.push(SqlParam::Int(int_field(e, "version", 1)));
    let s = statement(
        "INSERT OR REPLACE INTO entities (id, entity_type, is_active, created_at, updated_at, version) VALUES (?1, ?2, ?3, ?4, ?5, ?6)",
        p,
    );
    assert(s@.params =~= entity_restore(match e { Some(x) => Some(*x), None => None }, id@, now@).params);
    s
}

fn keyed_statement(sql: &str, key: String) -> (s: SqlStatement)
    ensures
        s@ == keyed(sql@, key@),
{
    let mut p: Vec<SqlParam> = Vec::new();
    p.push(text_param(key));
    let s = statement(sql, p);
    assert(s@.params =~= seq![ParamV::Text(key@)]);
    s
}

fn items_of(v: Option<&Json>) -> (r: Option<&Vec<Json>>)
    ensures
        match r {
            Some(items) => array_items(match v { Some(x) => Some(*x), None => None }) == items@,
            None => array_items(match v { Some(x) => Some(*x), None => None }) == Seq::<Json>::empty(),
        },
{
    match v {
        Some(Json::Array(items)) => Some(items),
        _ => None,
    }
}

fn push_components(out: &mut Vec<SqlStatement>, items: Option<&Vec<Json>>, owner: &str)
    ensures
        statements_view(final(out)@) == statements_view(old(out)@) + component_restores(
            match items {
                Some(v) => v@,
                None => Seq::<Json>::empty(),
            },
            owner@,
        ),
{
    let ghost start = statements_view(out@);
    match items {
        None => {
            assert(statements_view(out@) =~= start + component_restores(Seq::<Json>::empty(), owner@));
        },
        Some(v) => {
            let mut i: usize = 0;
            assert(v@.take(0) =~= Seq::<Json>::empty());
            assert(statements_view(out@) =~= start + component_restores(v@.take(0), owner@));
            while i < v.len()
                invariant
                    i <= v@.len(),
                    statements_view(out@) == start + component_restores(v@.take(i as int), owner@),
                decreases v@.len() - i,
            {
                let ghost prev = out@;
                out.push(restore_component(&v[i], owner));
                proof {
                    assert(statements_view(out@) =~= statements_view(prev).push(component_restore(v@[i as int], owner@)));
                    assert(v@.take(i + 1).drop_last() =~= v@.take(i as int));
                    assert(v@.take(i + 1).last() == v@[i as int]);
                    assert(statements_view(out@) =~= start + component_restores(v@.take(i + 1), owner@));
                }
                i += 1;
            }
            assert(v@.take(v@.len() as int) =~= v@);
        },
    }
}

fn push_relationships(out: &mut Vec<SqlStatement>, items: Option<&Vec<Json>>, owner: &str)
    ensures
        statements_view(final(out)@) == statements_view(old(out)@) + relationship_restores(
            match items {
                Some(v) => v@,
                None => Seq::<Json>::empty(),
            },
            owner@,
        ),
{
    let ghost start = statements_view(out@);
    match items {
        None => {
            assert(statements_view(out@) =~= start + relationship_restores(Seq::<Json>::empty(), owner@));
        },
        Some(v) => {
            let mut i: usize = 0;
            assert(v@.take(0) =~= Seq::<Json>::empty());
            assert(statements_view(out@) =~= start + relationship_restores(v@.take(0), owner@));
            while i < v.len()
                invariant
                    i <= v@.len(),
                    statements_view(out@) == start + relationship_restores(v@.take(i as int), owner@),
                decreases v@.len() - i,
            {
                let ghost prev = out@;
                out.push(restore_relationship(&v[i], owner));
                proof {
                    assert(statements_view(out@) =~= statements_view(prev).push(relationship_restore(v@[i as int], owner@)));
                    assert(v@.take(i + 1).drop_last() =~= v@.take(i as int));
                    assert(v@.take(i + 1).last() == v@[i as int]);
                    assert(statements_view(out@) =~= start + relationship_restores(v@.take(i + 1), owner@));
                }
                i += 1;
            }
            assert(v@.take(v@.len() as int) =~= v@);
        },
    }
}

/// The statements that undo the merge `merge_id` of `source_id` into
/// `target_id`, from its parsed snapshot `snap` (see `undo_statements`);
/// the times the snapshot did not record are `now`.
pub fn undo_statements_of(snap: &Json, merge_id: u128, source_id: u128, target_id: u128, now: &str) -> (r: Vec<SqlStatement>)
    ensures
        statements_view(r@) == undo_statements(*snap, merge_id, source_id, target_id, now@),
{
    let target = crate::structured::get_of(Some(snap), "target");
    let source = crate::structured::get_of(Some(snap), "source");
    let t = uuid_string(target_id);
    let s = uuid_string(source_id);
    let ghost tj = json_get(Some(*snap), "target"@);
    let ghost sj = json_get(Some(*snap), "source"@);
    let ghost tv = t@;
    let ghost sv = s@;
    let mut out: Vec<SqlStatement> = Vec::new();
    out.push(keyed_statement("DELETE FROM components WHERE entity_id = ?1", t.clone()));
    let ghost v1 = seq![keyed("DELETE FROM components WHERE entity_id = ?1"@, tv)];
    assert(statements_view(out@) =~= v1);
    let tc = items_of(crate::structured::get_of(target, "components"));
    push_components(&mut out, tc, t.as_str());
    let ghost v2 = v1 + component_restores(array_items(json_get(tj, "components"@)), tv);
    assert(statements_view(out@) =~= v2);
    let ghost p3 = out@;
    out.push(keyed_statement("DELETE FROM relationships WHERE source_id = ?1 OR target_id = ?1", t.clone()));
    let ghost v3 = v2 + seq![keyed("DELETE FROM relationships WHERE source_id = ?1 OR target_id = ?1"@, tv)];
    assert(statements_view(out@) =~= statements_view(p3).push(keyed("DELETE FROM relationships WHERE source_id = ?1 OR target_id = ?1"@, tv)));
    assert(statements_view(out@) =~= v3);
    let tr = items_of(crate::structured::get_of(target, "relationships"));
    push_relationships(&mut out, tr, t.as_str());
    let ghost v4 = v3 + relationship_restores(array_items(json_get(tj, "relationships"@)), tv);
    assert(statements_view(out@) =~= v4);
    let ghost p5 = out@;
    out.push(restore_entity(source, s.as_str(), now));
    let ghost v5 = v4 + seq![entity_restore(sj, sv, now@)];
    assert(statements_view(out@) =~= statements_view(p5).push(entity_restore(sj, sv, now@)));
    assert(statements_view(out@) =~= v5);
    let sc = items_of(crate::structured::get_of(source, "components"));
    push_components(&mut out, sc, s.as_str());
    let ghost v6 = v5 + component_restores(array_items(json_get(sj, "components"@)), sv);
    assert(statements_view(out@) =~= v6);
    let ghost p7 = out@;
    out.push(keyed_statement("DELETE FROM resolution_log WHERE id = ?1", uuid_string(merge_id)));
    assert(statements_view(out@) =~= statements_view(p7).push(keyed("DELETE FROM resolution_log WHERE id = ?1"@, uuid_text(merge_id))));
    assert(statements_view(out@) =~= undo_statements(*snap, merge_id, source_id, target_id, now@));
    out
}

/// The statements that undo the merge `merge_id` of `source_id` into
/// `target_id`, from the snapshot it recorded (see `undo_plan`); the times
/// the snapshot did not record are `now`. They are meant to run in one
/// transaction.
pub fn undo_merge_plan(snapshot: Option<String>, merge_id: u128, source_id: u128, target_id: u128, now: &str) -> (r: Result<Vec<SqlStatement>, StorageError>)
    ensures
        match undo_plan(crate::model::opt_view(snapshot), merge_id, source_id, target_id, now@) {
            Ok(v) => r matches Ok(x) && statements_view(x@) == v,
            Err(m) => r matches Err(StorageError::Internal(e)) && e@ == m,
        },
{
    let text = match snapshot {
        None => return Err(StorageError::Internal("No snapshot available for undo".to_string())),
        Some(t) => t,
    };
    let (snap, _) = match crate::structured::parse_json(text.as_str()) {
        Err(e) => return Err(StorageError::Internal(concat("Invalid snapshot: ", e.as_str()))),
        Ok(p) => p,
    };
    Ok(undo_statements_of(&snap, merge_id, source_id, target_id, now))
}

} // verus!
