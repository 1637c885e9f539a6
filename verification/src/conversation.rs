//! Conversations as the store keeps them: the records of a conversation
//! and its messages, built from the JSON data of their components.

use vstd::prelude::*;
use crate::structured::{json_document, json_get, json_str, parse_json_value, Json};
use crate::text::{same_text, to_chars};

verus! {

/// Who wrote a message.
#[derive(Clone, Copy, Debug, PartialEq, Eq, Structural)]
pub enum MessageRole {
    User,
    Assistant,
    System,
}

/// A conversation in a list of conversations.
#[derive(Clone, Debug, PartialEq)]
pub struct ConversationSummary {
    pub id: u128,
    pub title: String,
    pub message_count: u32,
    pub last_message_preview: Option<String>,
    pub last_message_at: Option<String>,
    pub created_at: String,
    pub updated_at: String,
}

/// An entity that a message cites, numbered by its place among the
/// message's references.
#[derive(Clone, Debug, PartialEq)]
pub struct CitationSource {
    pub number: usize,
    pub entity_id: u128,
    pub entity_type: String,
    pub title: String,
    pub snippet: String,
}

/// A message of a conversation.
#[derive(Clone, Debug, PartialEq)]
pub struct MessageDetail {
    pub id: u128,
    pub role: MessageRole,
    pub text: String,
    pub entity_refs: Vec<u128>,
    pub citations: Vec<CitationSource>,
    pub created_at: String,
}

/// A conversation with its messages.
#[derive(Clone, Debug, PartialEq)]
pub struct ConversationDetail {
    pub id: u128,
    pub title: String,
    pub messages: Vec<MessageDetail>,
    pub created_at: String,
    pub updated_at: String,
}

/// The JSON value of component data, when it is well-formed JSON.
pub open spec fn data_value(data: Option<Seq<char>>) -> Option<Json> {
    match data {
        Some(d) => match json_document(d) {
            Ok(p) => Some(p.0),
            Err(_) => None,
        },
        None => None,
    }
}

/// The title held by component data: a JSON string, else the string at
/// `name`, else `Untitled`.
pub open spec fn data_title(data: Option<Seq<char>>) -> Seq<char> {
    match data_value(data) {
        Some(v) => match json_str(Some(v)) {
            Some(t) => t,
            None => match json_str(json_get(Some(v), "name"@)) {
                Some(t) => t,
                None => "Untitled"@,
            },
        },
        None => "Untitled"@,
    }
}

fn data_json(data: Option<String>) -> (r: Option<Json>)
    ensures
        r == data_value(crate::model::opt_view(data)),
{
    match data {
        Some(d) => parse_json_value(d.as_str()),
        None => None,
    }
}

/// The title held by component data (see `data_title`).
pub fn title_from_data(data: Option<String>) -> (r: String)
    ensures
        r@ == data_title(crate::model::opt_view(data)),
{
    match data_json(data) {
        Some(v) => match &v {
            Json::Text(t) => t.clone(),
            _ => match crate::structured::get_of(Some(&v), "name") {
                Some(Json::Text(t)) => t.clone(),
                _ => "Untitled".to_string(),
            },
        },
        None => "Untitled".to_string(),
    }
}

/// The role named by a message's data: `user` and `assistant` by name, any
/// other name `System`, and `User` when it names none.
pub open spec fn data_role(v: Option<Json>) -> MessageRole {
    match json_str(json_get(v, "role"@)) {
        Some(r) => if r == "user"@ {
            MessageRole::User
        } else if r == "assistant"@ {
            MessageRole::Assistant
        } else {
            MessageRole::System
        },
        None => MessageRole::User,
    }
}

/// The text of a message's data: the string at `content` (or, when there is
/// no `content`, at `text`), else empty.
pub open spec fn data_text(v: Option<Json>) -> Seq<char> {
    let c = match json_get(v, "content"@) {
        Some(x) => Some(x),
        None => json_get(v, "text"@),
    };
    match json_str(c) {
        Some(t) => t,
        None => Seq::empty(),
    }
}

/// The role and text of a message's data; `User` and no text when the data
/// is missing or is not JSON.
pub open spec fn role_and_text(data: Option<Seq<char>>) -> (MessageRole, Seq<char>) {
    match data_value(data) {
        Some(v) => (data_role(Some(v)), data_text(Some(v))),
        None => (MessageRole::User, Seq::empty()),
    }
}

/// The role and text of a message's data (see `role_and_text`).
pub fn extract_role_and_text(data: Option<String>) -> (r: (MessageRole, String))
    ensures
        (r.0, r.1@) == role_and_text(crate::model::opt_view(data)),
{
    match data_json(data) {
        Some(v) => {
            let role = match crate::structured::get_of(Some(&v), "role") {
                Some(Json::Text(r)) => if same_text(r.as_str(), "user") {
                    MessageRole::User
                } else if same_text(r.as_str(), "assistant") {
                    MessageRole::Assistant
                } else {
                    MessageRole::System
                },
                _ => MessageRole::User,
            };
            let c = match crate::structured::get_of(Some(&v), "content") {
                Some(x) => Some(x),
                None => crate::structured::get_of(Some(&v), "text"),
            };
            let text = match c {
                Some(Json::Text(t)) => t.clone(),
                _ => String::new(),
            };
            (role, text)
        },
        None => (MessageRole::User, String::new()),
    }
}

/// The value of the UUID written as `s` in any of the forms that
/// `uuid::Uuid::parse_str` reads, if it is one.
pub uninterp spec fn uuid_of(s: Seq<char>) -> Option<u128>;

/// `uuid::Uuid::parse_str`, as a number. Claimed: the result is `uuid_of` of `s`.
#[verifier::external_body]
fn parse_uuid(s: &str) -> (r: Option<u128>)
    ensures
        r == uuid_of(s@),
{
    uuid::Uuid::parse_str(s).ok().map(|u| u.as_u128())
}

/// The UUIDs of the items of a JSON array: every item a string naming a
/// UUID, else none at all.
pub open spec fn uuids_of(items: Seq<Json>) -> Option<Seq<u128>>
    decreases items.len(),
{
    if items.len() == 0 {
        Some(Seq::empty())
    } else {
        match (uuids_of(items.drop_last()), items.last()) {
            (Some(ids), Json::Text(s)) => match uuid_of(s@) {
                Some(u) => Some(ids.push(u)),
                None => None,
            },
            _ => None,
        }
    }
}

/// The entities that a message refers to: the UUIDs at `refs` (or, when
/// there is no `refs`, at `entity_ids`), or none when any is not a UUID.
pub open spec fn data_entity_ids(data: Option<Seq<char>>) -> Seq<u128> {
    let v = data_value(data);
    let ids = match json_get(v, "refs"@) {
        Some(x) => Some(x),
        None => json_get(v, "entity_ids"@),
    };
    match ids {
        Some(Json::Array(items)) => match uuids_of(items@) {
            Some(u) => u,
            None => Seq::empty(),
        },
        _ => Seq::empty(),
    }
}

fn uuids_in(items: &Vec<Json>) -> (r: Option<Vec<u128>>)
    ensures
        match uuids_of(items@) {
            Some(u) => r matches Some(x) && x@ == u,
            None => r is None,
        },
{
    let mut out: Vec<u128> = Vec::new();
    let mut i: usize = 0;
    assert(items@.take(0) =~= Seq::<Json>::empty());
    while i < items.len()
        invariant
            i <= items@.len(),
            uuids_of(items@.take(i as int)) == Some(out@),
        decreases items@.len() - i,
    {
        proof {
            assert(items@.take(i + 1).drop_last() =~= items@.take(i as int));
            assert(items@.take(i + 1).last() == items@[i as int]);
        }
        match &items[i] {
            Json::Text(s) => match parse_uuid(s.as_str()) {
                Some(u) => out.push(u),
                None => {
                    proof {
                        lemma_uuids_none_stays(items@, (i + 1) as nat);
                    }
                    return None;
                },
            },
            _ => {
                proof {
                    lemma_uuids_none_stays(items@, (i + 1) as nat);
                }
                return None;
            },
        }
        i += 1;
    }
    assert(items@.take(items@.len() as int) =~= items@);
    Some(out)
}

proof fn lemma_uuids_none_stays(items: Seq<Json>, k: nat)
    requires
        k <= items.len(),
        uuids_of(items.take(k as int)) is None,
    ensures
        uuids_of(items) is None,
    decreases items.len() - k,
{
    if k < items.len() {
        let t = items.take((k + 1) as int);
        assert(t.drop_last() =~= items.take(k as int));
        lemma_uuids_none_stays(items, k + 1);
    } else {
        assert(items.take(k as int) =~= items);
    }
}

/// The entities that a message refers to (see `data_entity_ids`).
pub fn extract_entity_ids(data: Option<String>) -> (r: Vec<u128>)
    ensures
        r@ == data_entity_ids(crate::model::opt_view(data)),
{
    let v = data_json(data);
    let ids = match crate::structured::get_of(v.as_ref(), "refs") {
        Some(x) => Some(x),
        None => crate::structured::get_of(v.as_ref(), "entity_ids"),
    };
    match ids {
        Some(Json::Array(items)) => match uuids_in(items) {
            Some(u) => u,
            None => Vec::new(),
        },
        _ => Vec::new(),
    }
}

/// The first `n` characters of `s` (all of them when it is shorter).
pub open spec fn first_chars(s: Seq<char>, n: nat) -> Seq<char> {
    if s.len() <= n {
        s
    } else {
        s.take(n as int)
    }
}

/// `s` with each newline replaced by a space.
pub open spec fn flatten_lines(s: Seq<char>) -> Seq<char> {
    s.map_values(|c: char| if c == '\n' { ' ' } else { c })
}

/// The preview of a message: its first hundred characters, on one line.
pub open spec fn message_preview(s: Seq<char>) -> Seq<char> {
    flatten_lines(first_chars(s, 100))
}

fn preview_of(s: &str) -> (r: String)
    ensures
        r@ == message_preview(s@),
{
    let v = to_chars(s);
    let n: usize = if v.len() < 100 { v.len() } else { 100 };
    let mut out = String::new();
    let mut i: usize = 0;
    while i < n
        invariant
            n <= v@.len(),
            n == first_chars(v@, 100).len(),
            i <= n,
            out@ == flatten_lines(first_chars(v@, 100).take(i as int)),
        decreases n - i,
    {
        let c = v[i];
        proof {
            assert(first_chars(v@, 100)[i as int] == c);
            assert(flatten_lines(first_chars(v@, 100).take(i + 1)) =~= flatten_lines(first_chars(v@, 100).take(i as int)).push(
                if c == '\n' { ' ' } else { c },
            ));
        }
        if c == '\n' {
            out.push(' ');
        } else {
            out.push(c);
        }
        i += 1;
    }
    assert(first_chars(v@, 100).take(n as int) =~= first_chars(v@, 100));
    out
}

fn prefix_of(s: &str, n: usize) -> (r: String)
    ensures
        r@ == first_chars(s@, n as nat),
{
    let v = to_chars(s);
    let k: usize = if v.len() < n { v.len() } else { n };
    let r = crate::text::string_of(&v, 0, k);
    assert(v@.subrange(0, k as int) =~= first_chars(s@, n as nat));
    r
}

/// The summary of a conversation from what the store holds of it: its
/// title's data, its number of messages, and the data and time of its
/// latest message, if any.
pub fn conversation_summary(
    id: u128,
    title_data: Option<String>,
    message_count: i64,
    last_message_at: Option<String>,
    last_message_content: Option<String>,
    created_at: String,
    updated_at: String,
) -> (r: ConversationSummary)
    ensures
        r.id == id,
        r.title@ == data_title(crate::model::opt_view(title_data)),
        r.message_count == message_count as u32,
        match last_message_content {
            Some(c) => r.last_message_preview matches Some(p) && p@ == message_preview(c@)
                && r.last_message_at == last_message_at,
            None => r.last_message_preview is None && r.last_message_at is None,
        },
        r.created_at == created_at,
        r.updated_at == updated_at,
{
    let title = title_from_data(title_data);
    let (preview, at) = match last_message_content {
        Some(c) => (Some(preview_of(c.as_str())), last_message_at),
        None => (None, None),
    };
    ConversationSummary {
        id,
        title,
        message_count: message_count as u32,
        last_message_preview: preview,
        last_message_at: at,
        created_at,
        updated_at,
    }
}

/// The text of a JSON string value, else empty (`serde_json::from_str`
/// into a `String`, defaulting).
pub open spec fn json_string_or_empty(data: Option<Seq<char>>) -> Seq<char> {
    match data_value(data) {
        Some(Json::Text(s)) => s@,
        _ => Seq::empty(),
    }
}

fn string_or_empty(data: Option<String>) -> (r: String)
    ensures
        r@ == json_string_or_empty(crate::model::opt_view(data)),
{
    match data_json(data) {
        Some(Json::Text(s)) => s,
        _ => String::new(),
    }
}

/// A citation of the entity `entity_id`, numbered `number`, from its type
/// (JSON-encoded), its title's data and its content's data: the snippet is
/// the content's first two hundred characters.
pub fn citation(number: usize, entity_id: u128, entity_type_json: String, title_data: Option<String>, content_data: Option<String>) -> (r: CitationSource)
    ensures
        r.number == number,
        r.entity_id == entity_id,
        r.entity_type@ == json_string_or_empty(Some(entity_type_json@)),
        r.title@ == data_title(crate::model::opt_view(title_data)),
        r.snippet@ == first_chars(json_string_or_empty(crate::model::opt_view(content_data)), 200),
{
    let entity_type = string_or_empty(Some(entity_type_json));
    let title = title_from_data(title_data);
    let content = string_or_empty(content_data);
    CitationSource { number, entity_id, entity_type, title, snippet: prefix_of(content.as_str(), 200) }
}

/// A message from its identity, its content's data, the entities it
/// refers to and the citations found for them.
pub fn message_detail(id: u128, content_data: Option<String>, entity_refs: Vec<u128>, citations: Vec<CitationSource>, created_at: String) -> (r: MessageDetail)
    ensures
        r.id == id,
        (r.role, r.text@) == role_and_text(crate::model::opt_view(content_data)),
        r.entity_refs == entity_refs,
        r.citations == citations,
        r.created_at == created_at,
{
    let (role, text) = extract_role_and_text(content_data);
    MessageDetail { id, role, text, entity_refs, citations, created_at }
}

/// The mathematical value of a citation.
pub struct CitationV {
    pub number: int,
    pub entity_id: u128,
    pub entity_type: Seq<char>,
    pub title: Seq<char>,
    pub snippet: Seq<char>,
}

impl View for CitationSource {
    type V = CitationV;

    open spec fn view(&self) -> CitationV {
        CitationV {
            number: self.number as int,
            entity_id: self.entity_id,
            entity_type: self.entity_type@,
            title: self.title@,
            snippet: self.snippet@,
        }
    }
}

/// What the store holds of an active entity that a message refers to: its
/// type (JSON-encoded), and the data of its title and of its content
/// component, when it has them.
#[derive(Clone, Debug, PartialEq)]
pub struct StoredEntity {
    pub entity_type_json: String,
    pub title_data: Option<String>,
    pub content_data: Option<String>,
}

/// The mathematical value of a stored entity.
pub open spec fn stored_view(e: StoredEntity) -> (Seq<char>, Option<Seq<char>>, Option<Seq<char>>) {
    (e.entity_type_json@, crate::model::opt_view(e.title_data), crate::model::opt_view(e.content_data))
}

/// What the store holds of a message of a conversation: its id, the data
/// of its message-content and entity-references components, when it has
/// them, and when it was created.
#[derive(Clone, Debug, PartialEq)]
pub struct StoredMessage {
    pub id: u128,
    pub content_data: Option<String>,
    pub entity_refs_data: Option<String>,
    pub created_at: String,
}

/// The stored entity with id `id` in `table`: the first entry for it.
pub open spec fn entity_lookup(
    table: Seq<(u128, StoredEntity)>,
    id: u128,
) -> Option<(Seq<char>, Option<Seq<char>>, Option<Seq<char>>)>
    decreases table.len(),
{
    if table.len() == 0 {
        None
    } else if table[0].0 == id {
        Some(stored_view(table[0].1))
    } else {
        entity_lookup(table.drop_first(), id)
    }
}

/// The citation numbered `number` of the entity `id` that the store holds as `e`.
pub open spec fn citation_v(number: int, id: u128, e: (Seq<char>, Option<Seq<char>>, Option<Seq<char>>)) -> CitationV {
    CitationV {
        number,
        entity_id: id,
        entity_type: json_string_or_empty(Some(e.0)),
        title: data_title(e.1),
        snippet: first_chars(json_string_or_empty(e.2), 200),
    }
}

/// The citations of a message that refers to `ids`: the reference at
/// place `i` (from 0) is numbered `i + 1`, and a reference to an entity
/// the store does not hold active is passed over (its number stays unused).
pub open spec fn citations_v(ids: Seq<u128>, table: Seq<(u128, StoredEntity)>) -> Seq<CitationV>
    decreases ids.len(),
{
    if ids.len() == 0 {
        Seq::empty()
    } else {
        let prev = citations_v(ids.drop_last(), table);
        match entity_lookup(table, ids.last()) {
            Some(e) => prev.push(citation_v(ids.len() as int, ids.last(), e)),
            None => prev,
        }
    }
}

/// The mathematical value of a list of citations.
pub open spec fn citations_view(v: Seq<CitationSource>) -> Seq<CitationV> {
    v.map_values(|c: CitationSource| c@)
}

/// The title of a conversation: from its title component's data when it
/// has one (see `data_title`), else `Untitled`.
pub open spec fn conversation_title(title_data: Option<Seq<char>>) -> Seq<char> {
    match title_data {
        Some(d) => data_title(Some(d)),
        None => "Untitled"@,
    }
}

/// Whether `m` is the message that the store's record `s` describes, its
/// citations taken from the entities in `table`.
pub open spec fn message_from(m: MessageDetail, s: StoredMessage, table: Seq<(u128, StoredEntity)>) -> bool {
    let ids = data_entity_ids(crate::model::opt_view(s.entity_refs_data));
    &&& m.id == s.id
    &&& (m.role, m.text@) == role_and_text(crate::model::opt_view(s.content_data))
    &&& m.entity_refs@ == ids
    &&& citations_view(m.citations@) == citations_v(ids, table)
    &&& m.created_at == s.created_at
}

fn find_entity(table: &Vec<(u128, StoredEntity)>, id: u128) -> (r: Option<&StoredEntity>)
    ensures
        match r {
            Some(e) => entity_lookup(table@, id) == Some(stored_view(*e)),
            None => entity_lookup(table@, id) is None,
        },
{
    let mut i: usize = 0;
    assert(table@.skip(0) =~= table@);
    while i < table.len()
        invariant
            i <= table@.len(),
            entity_lookup(table@, id) == entity_lookup(table@.skip(i as int), id),
        decreases table@.len() - i,
    {
        assert(table@.skip(i as int)[0] == table@[i as int]);
        if table[i].0 == id {
            return Some(&table[i].1);
        }
        assert(table@.skip(i as int).drop_first() =~= table@.skip(i + 1));
        i += 1;
    }
    None
}

fn copy_opt(s: &Option<String>) -> (r: Option<String>)
    ensures
        crate::model::opt_view(r) == crate::model::opt_view(*s),
{
    match s {
        Some(x) => Some(x.clone()),
        None => None,
    }
}

/// The citations of a message that refers to `ids` (see `citations_v`).
pub fn citations_for(ids: &Vec<u128>, table: &Vec<(u128, StoredEntity)>) -> (r: Vec<CitationSource>)
    ensures
        citations_view(r@) == citations_v(ids@, table@),
{
    let mut out: Vec<CitationSource> = Vec::new();
    let mut i: usize = 0;
    assert(ids@.take(0) =~= Seq::<u128>::empty());
    while i < ids.len()
        invariant
            i <= ids@.len(),
            citations_view(out@) == citations_v(ids@.take(i as int), table@),
        decreases ids@.len() - i,
    {
        let id = ids[i];
        proof {
            assert(ids@.take(i + 1).drop_last() =~= ids@.take(i as int));
            assert(ids@.take(i + 1).last() == id);
        }
        match find_entity(table, id) {
            Some(e) => {
                let c = citation(
                    i + 1,
                    id,
                    e.entity_type_json.clone(),
                    copy_opt(&e.title_data),
                    copy_opt(&e.content_data),
                );
                let ghost before = citations_view(out@);
                out.push(c);
                assert(c@ == citation_v(i + 1, id, stored_view(*e)));
                assert(citations_view(out@) =~= before.push(c@));
            },
            None => {},
        }
        i += 1;
    }
    assert(ids@.take(ids@.len() as int) =~= ids@);
    out
}

/// A conversation as the store holds it: its id and times, the data of
/// its title component when it has one, its messages oldest first, and the
/// active entities its messages refer to. Each message gets its role and
/// text, the entities it refers to and the citations of those the store
/// holds (numbered by their place among the references); the title is
/// `Untitled` when there is no title component.
pub fn conversation_detail(
    id: u128,
    created_at: String,
    updated_at: String,
    title_data: Option<String>,
    messages: Vec<StoredMessage>,
    entities: &Vec<(u128, StoredEntity)>,
) -> (r: ConversationDetail)
    ensures
        r.id == id,
        r.created_at == created_at,
        r.updated_at == updated_at,
        r.title@ == conversation_title(crate::model::opt_view(title_data)),
        r.messages@.len() == messages@.len(),
        forall|k: int| 0 <= k < messages@.len() ==> message_from(#[trigger] r.messages@[k], messages@[k], entities@),
{
    let title = match title_data {
        Some(d) => title_from_data(Some(d)),
        None => "Untitled".to_string(),
    };
    let mut out: Vec<MessageDetail> = Vec::new();
    let mut k: usize = 0;
    while k < messages.len()
        invariant
            k <= messages@.len(),
            out@.len() == k,
            forall|j: int| 0 <= j < k ==> message_from(#[trigger] out@[j], messages@[j], entities@),
        decreases messages@.len() - k,
    {
        let m = &messages[k];
        let ids = extract_entity_ids(copy_opt(&m.entity_refs_data));
        let citations = citations_for(&ids, entities);
        let detail = message_detail(m.id, copy_opt(&m.content_data), ids, citations, m.created_at.clone());
        out.push(detail);
        k += 1;
    }
    ConversationDetail { id, title, messages: out, created_at, updated_at }
}

} // verus!
