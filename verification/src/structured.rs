//! Structured data files (JSON, XML, YAML) and Notion page exports.

use vstd::prelude::*;
use crate::clock::now_rfc3339;
use crate::documents::{article, document_outcome, make_article, ImportErrorV};
use crate::importers::{JsonImporter, NotionJsonImporter, XmlImporter, YamlImporter};
use crate::model::{
    plain_result, provenance, provenance_v, text_component, text_v, Component, ComponentType,
    ImportError, ImportResult, ResultV,
};

use crate::text::{append_str, same_text};
use crate::xml::{decode_utf8, events_view, scan_xml, unescape_xml, utf8_text, xml_events, xml_unescaped, XmlEvent, XmlEventV};

verus! {

/// A JSON value as the library reads it: a number keeps its text and its
/// value as an `i64` and as a `u64` where it is one, and an object keeps its
/// fields in the order the parser gives them.
pub enum Json {
    Null,
    Bool(bool),
    Number(String, Option<i64>, Option<u64>),
    Text(String),
    Array(Vec<Json>),
    Object(Vec<(String, Json)>),
}

#[verifier::external_type_specification]
#[verifier::external_body]
pub struct ExJsonValue(serde_json::Value);

/// A JSON document as `serde_json` reads it: the value, and its compact
/// serialization (`Value::to_string`); or the parser's error.
pub uninterp spec fn json_document(content: Seq<char>) -> Result<(Json, Seq<char>), Seq<char>>;

/// The value of a `serde_json::Value`, converted one for one.
#[verifier::external_body]
fn json_tree(v: serde_json::Value) -> Json {
    match v {
        serde_json::Value::Null => Json::Null,
        serde_json::Value::Bool(b) => Json::Bool(b),
        serde_json::Value::Number(n) => Json::Number(n.to_string(), n.as_i64(), n.as_u64()),
        serde_json::Value::String(s) => Json::Text(s),
        serde_json::Value::Array(a) => Json::Array(a.into_iter().map(json_tree).collect()),
        serde_json::Value::Object(m) => Json::Object(m.into_iter().map(|(k, x)| (k, json_tree(x))).collect()),
    }
}

/// The compact serialization of a JSON value (`Value::to_string`).
pub uninterp spec fn json_serialized(v: Json) -> Seq<char>;

/// The `serde_json::Value` of a JSON value, converted one for one.
#[verifier::external_body]
fn serde_value(v: &Json) -> serde_json::Value {
    match v {
        Json::Null => serde_json::Value::Null,
        Json::Bool(b) => serde_json::Value::Bool(*b),
        Json::Number(n, _, _) => n.parse().map(serde_json::Value::Number).unwrap_or(serde_json::Value::Null),
        Json::Text(s) => serde_json::Value::String(s.clone()),
        Json::Array(a) => serde_json::Value::Array(a.iter().map(serde_value).collect()),
        Json::Object(m) => serde_json::Value::Object(m.iter().map(|(k, x)| (k.clone(), serde_value(x))).collect()),
    }
}

/// `serde_json::Value::to_string` of the value. Claimed: the result is
/// `json_serialized` of `v`.
#[verifier::external_body]
pub(crate) fn json_text(v: &Json) -> (r: String)
    ensures
        r@ == json_serialized(*v),
{
    serde_value(v).to_string()
}

/// `serde_json::from_str` into a `serde_json::Value`, with the value's
/// `to_string`. Claimed: the result is `json_document` of `content`.
#[verifier::external_body]
pub(crate) fn parse_json(content: &str) -> (r: Result<(Json, String), String>)
    ensures
        match r {
            Ok(p) => json_document(content@) == Ok::<(Json, Seq<char>), Seq<char>>((p.0, p.1@)),
            Err(e) => json_document(content@) == Err::<(Json, Seq<char>), Seq<char>>(e@),
        },
{
    let v: serde_json::Value = serde_json::from_str(content).map_err(|e| e.to_string())?;
    let compact = v.to_string();
    Ok((json_tree(v), compact))
}

/// The value of the JSON document `content`, when it is well-formed.
pub(crate) fn parse_json_value(content: &str) -> (r: Option<Json>)
    ensures
        r == match json_document(content@) {
            Ok(p) => Some(p.0),
            Err(_) => None::<Json>,
        },
{
    match parse_json(content) {
        Ok((v, _)) => Some(v),
        Err(_) => None,
    }
}

/// The article of a JSON document: its compact serialization, or the
/// parser's error.
pub open spec fn json_import(content: Seq<char>, source: Seq<char>, t: Seq<char>) -> Result<ResultV, ImportErrorV> {
    match json_document(content) {
        Err(e) => Err(ImportErrorV::Parse(e)),
        Ok(p) => Ok(article(source, p.1, "json"@, t)),
    }
}

impl JsonImporter {
    /// The article of the JSON document `content` read from `source_path`.
    pub fn import_at(&self, content: &str, source_path: &str, imported_at: &str) -> (r: Result<ImportResult, ImportError>)
        ensures
            document_outcome(r, json_import(content@, source_path@, imported_at@)),
    {
        match parse_json(content) {
            Err(e) => Err(ImportError::Parse(e)),
            Ok((_, compact)) => Ok(make_article(source_path, compact, "json", imported_at)),
        }
    }

    /// The article of a JSON document, stamped with the current time.
    pub fn import(&self, content: &str, source_path: &str) -> (r: Result<ImportResult, ImportError>)
        ensures
            exists|t: Seq<char>| #[trigger] document_outcome(r, json_import(content@, source_path@, t)),
    {
        let now = now_rfc3339();
        self.import_at(content, source_path, now.as_str())
    }
}

/// The value of the first field named `key` among `fields`.
pub open spec fn json_field(fields: Seq<(String, Json)>, key: Seq<char>) -> Option<Json>
    decreases fields.len(),
{
    if fields.len() == 0 {
        None
    } else if fields[0].0@ == key {
        Some(fields[0].1)
    } else {
        json_field(fields.drop_first(), key)
    }
}

/// The value at `key` of an object (`Value::get`); `None` for anything else.
pub open spec fn json_get(v: Option<Json>, key: Seq<char>) -> Option<Json> {
    match v {
        Some(Json::Object(fields)) => json_field(fields@, key),
        _ => None,
    }
}

/// The first element of an array (`as_array` then `first`).
pub open spec fn json_first(v: Option<Json>) -> Option<Json> {
    match v {
        Some(Json::Array(items)) => if items@.len() > 0 { Some(items@[0]) } else { None },
        _ => None,
    }
}

/// The text of a string value (`as_str`).
pub open spec fn json_str(v: Option<Json>) -> Option<Seq<char>> {
    match v {
        Some(Json::Text(s)) => Some(s@),
        _ => None,
    }
}

/// The title of a Notion page: the plain text of the first piece of its
/// title property, else its id, else `Untitled`.
pub open spec fn notion_title(page: Json) -> Seq<char> {
    let p = Some(page);
    match json_str(json_get(json_first(json_get(json_get(json_get(p, "properties"@), "title"@), "title"@)), "plain_text"@)) {
        Some(s) => s,
        None => match json_str(json_get(p, "id"@)) {
            Some(s) => s,
            None => "Untitled"@,
        },
    }
}

/// The page of a Notion export that is imported: the first element of an
/// array, or the object itself; or the error for anything else.
pub open spec fn notion_page(v: Json) -> Result<Json, Seq<char>> {
    match v {
        Json::Array(items) => if items@.len() > 0 {
            Ok(items@[0])
        } else {
            Err("No pages found in Notion JSON"@)
        },
        Json::Object(_) => Ok(v),
        _ => Err("Notion JSON must be an object or array"@),
    }
}

/// The page imported from a Notion export: titled by its first page, its
/// content the whole document's compact serialization.
pub open spec fn notion_import(content: Seq<char>, source: Seq<char>, t: Seq<char>) -> Result<ResultV, ImportErrorV> {
    match json_document(content) {
        Err(e) => Err(ImportErrorV::Parse(e)),
        Ok(p) => match notion_page(p.0) {
            Err(m) => Err(ImportErrorV::Parse(m)),
            Ok(page) => Ok(
                ResultV {
                    entity_type: "Page"@,
                    components: seq![
                        text_v(ComponentType::Title, notion_title(page)),
                        text_v(ComponentType::Content, p.1),
                        provenance_v(source, t, "notion"@),
                    ],
                    cross_references: Seq::empty(),
                },
            ),
        },
    }
}

fn field_of<'a>(fields: &'a Vec<(String, Json)>, key: &str) -> (r: Option<&'a Json>)
    ensures
        match json_field(fields@, key@) {
            Some(v) => r == Some(&v),
            None => r is None,
        },
{
    let mut i: usize = 0;
    assert(fields@.skip(0) =~= fields@);
    while i < fields.len()
        invariant
            i <= fields@.len(),
            json_field(fields@, key@) == json_field(fields@.skip(i as int), key@),
        decreases fields@.len() - i,
    {
        let ghost rest = fields@.skip(i as int);
        assert(rest[0] == fields@[i as int]);
        if same_text(fields[i].0.as_str(), key) {
            return Some(&fields[i].1);
        }
        assert(rest.drop_first() =~= fields@.skip(i + 1));
        i += 1;
    }
    None
}

pub(crate) fn get_of<'a>(v: Option<&'a Json>, key: &str) -> (r: Option<&'a Json>)
    ensures
        match json_get(match v { Some(x) => Some(*x), None => None }, key@) {
            Some(x) => r == Some(&x),
            None => r is None,
        },
{
    match v {
        Some(Json::Object(fields)) => field_of(fields, key),
        _ => None,
    }
}

fn first_of<'a>(v: Option<&'a Json>) -> (r: Option<&'a Json>)
    ensures
        match json_first(match v { Some(x) => Some(*x), None => None }) {
            Some(x) => r == Some(&x),
            None => r is None,
        },
{
    match v {
        Some(Json::Array(items)) => if items.len() > 0 { Some(&items[0]) } else { None },
        _ => None,
    }
}

fn str_of(v: Option<&Json>) -> (r: Option<String>)
    ensures
        crate::model::opt_view(r) == json_str(match v { Some(x) => Some(*x), None => None }),
{
    match v {
        Some(Json::Text(s)) => Some(s.clone()),
        _ => None,
    }
}

fn page_title(page: &Json) -> (r: String)
    ensures
        r@ == notion_title(*page),
{
    let props = get_of(Some(page), "properties");
    let t1 = get_of(props, "title");
    let t2 = get_of(t1, "title");
    let f = first_of(t2);
    let plain = get_of(f, "plain_text");
    match str_of(plain) {
        Some(s) => s,
        None => match str_of(get_of(Some(page), "id")) {
            Some(s) => s,
            None => "Untitled".to_string(),
        },
    }
}

impl NotionJsonImporter {
    /// The page of the Notion export `content` read from `source_path`
    /// (see `notion_import`).
    pub fn import_at(&self, content: &str, source_path: &str, imported_at: &str) -> (r: Result<ImportResult, ImportError>)
        ensures
            document_outcome(r, notion_import(content@, source_path@, imported_at@)),
    {
        let (value, compact) = match parse_json(content) {
            Err(e) => return Err(ImportError::Parse(e)),
            Ok(p) => p,
        };
        let page: &Json = match &value {
            Json::Array(items) => {
                if items.len() == 0 {
                    return Err(ImportError::Parse("No pages found in Notion JSON".to_string()));
                }
                &items[0]
            },
            Json::Object(_) => &value,
            _ => return Err(ImportError::Parse("Notion JSON must be an object or array".to_string())),
        };
        let title = page_title(page);
        let mut components: Vec<Component> = Vec::new();
        let ghost tv = title@;
        let ghost cv = compact@;
        components.push(text_component(ComponentType::Title, title));
        components.push(text_component(ComponentType::Content, compact));
        components.push(provenance(source_path, imported_at, "notion"));
        let r = plain_result("Page", components);
        assert(r@.components =~= seq![
            text_v(ComponentType::Title, tv),
            text_v(ComponentType::Content, cv),
            provenance_v(source_path@, imported_at@, "notion"@),
        ]);
        Ok(r)
    }

    /// The page of a Notion export, stamped with the current time.
    pub fn import(&self, content: &str, source_path: &str) -> (r: Result<ImportResult, ImportError>)
        ensures
            exists|t: Seq<char>| #[trigger] document_outcome(r, notion_import(content@, source_path@, t)),
    {
        let now = now_rfc3339();
        self.import_at(content, source_path, now.as_str())
    }
}

/// The text of an XML document as the XML importer renders it: each
/// element's opening tag `<name>`, the text inside elements each followed
/// by a space, and each closing tag `</name>` on the end of a line
/// (reading stops at an XML error).
pub open spec fn xml_render_step(s: (Seq<char>, bool), e: XmlEventV) -> (Seq<char>, bool) {
    match e {
        XmlEventV::Text(raw) => if s.1 {
            match xml_unescaped(raw) {
                Some(x) => ((s.0 + x).push(' '), s.1),
                None => s,
            }
        } else {
            s
        },
        XmlEventV::Start(n) => (
            match utf8_text(n) {
                Some(name) => s.0 + "<"@ + name + ">"@,
                None => s.0,
            },
            true,
        ),
        XmlEventV::End(n) => (
            match utf8_text(n) {
                Some(name) => s.0 + "</"@ + name + ">\n"@,
                None => s.0,
            },
            false,
        ),
        _ => s,
    }
}

/// The rendered text after the events `es`.
pub open spec fn xml_render_fold(es: Seq<XmlEventV>) -> (Seq<char>, bool)
    decreases es.len(),
{
    if es.len() == 0 {
        (Seq::empty(), false)
    } else {
        xml_render_step(xml_render_fold(es.drop_last()), es.last())
    }
}

/// The rendered text of an XML document.
pub open spec fn xml_render(content: Seq<char>) -> Seq<char> {
    xml_render_fold(xml_events(vstd::utf8::encode_utf8(content)).0).0
}

fn render_xml(content: &str) -> (r: String)
    ensures
        r@ == xml_render(content@),
{
    let (events, _error) = scan_xml(content.as_bytes());
    let ghost es = events_view(events@);
    let mut text = String::new();
    let mut in_element = false;
    let mut i: usize = 0;
    assert(es.take(0) =~= Seq::<XmlEventV>::empty());
    while i < events.len()
        invariant
            i <= events@.len(),
            es == events_view(events@),
            xml_render_fold(es.take(i as int)) == (text@, in_element),
        decreases events@.len() - i,
    {
        proof {
            assert(es.take(i + 1).drop_last() =~= es.take(i as int));
            assert(es.take(i + 1).last() == events@[i as int]@);
            reveal_strlit("<");
            reveal_strlit(">");
            reveal_strlit("</");
            reveal_strlit(">\n");
        }
        match &events[i] {
            XmlEvent::Text(raw) => {
                if in_element {
                    match unescape_xml(raw.as_slice()) {
                        Some(x) => {
                            append_str(&mut text, x.as_str());
                            text.push(' ');
                        },
                        None => {},
                    }
                }
            },
            XmlEvent::Start(n) => {
                in_element = true;
                match decode_utf8(n.as_slice()) {
                    Some(name) => {
                        append_str(&mut text, "<");
                        append_str(&mut text, name.as_str());
                        append_str(&mut text, ">");
                    },
                    None => {},
                }
            },
            XmlEvent::End(n) => {
                match decode_utf8(n.as_slice()) {
                    Some(name) => {
                        append_str(&mut text, "</");
                        append_str(&mut text, name.as_str());
                        append_str(&mut text, ">\n");
                    },
                    None => {},
                }
                in_element = false;
            },
            XmlEvent::Empty(_) => {},
            XmlEvent::Other => {},
        }
        i += 1;
    }
    assert(es.take(events@.len() as int) =~= es);
    text
}

impl XmlImporter {
    /// The article of the XML document `content` read from `source_path`
    /// (see `xml_render`).
    pub fn import_at(&self, content: &str, source_path: &str, imported_at: &str) -> (r: ImportResult)
        ensures
            r@ == article(source_path@, xml_render(content@), "xml"@, imported_at@),
    {
        make_article(source_path, render_xml(content), "xml", imported_at)
    }

    /// The article of an XML document, stamped with the current time.
    pub fn import(&self, content: &str, source_path: &str) -> (r: ImportResult)
        ensures
            exists|t: Seq<char>| #[trigger] article(source_path@, xml_render(content@), "xml"@, t) == r@,
    {
        let now = now_rfc3339();
        self.import_at(content, source_path, now.as_str())
    }
}

/// The `Debug` form of the YAML document `content` as `serde_yaml` reads it
/// into a `serde_yaml::Value`, or the parser's error.
pub uninterp spec fn yaml_debug_form(content: Seq<char>) -> Result<Seq<char>, Seq<char>>;

/// `serde_yaml::from_str` into a `serde_yaml::Value`, written with `{:?}`.
/// Claimed: the result is `yaml_debug_form` of `content`.
#[verifier::external_body]
fn yaml_debug(content: &str) -> (r: Result<String, String>)
    ensures
        match r {
            Ok(s) => yaml_debug_form(content@) == Ok::<Seq<char>, Seq<char>>(s@),
            Err(e) => yaml_debug_form(content@) == Err::<Seq<char>, Seq<char>>(e@),
        },
{
    serde_yaml::from_str::<serde_yaml::Value>(content).map(|v| format!("{:?}", v)).map_err(|e| e.to_string())
}

/// The article of a YAML document: the debug form of its value, or the
/// parser's error.
pub open spec fn yaml_import(content: Seq<char>, source: Seq<char>, t: Seq<char>) -> Result<ResultV, ImportErrorV> {
    match yaml_debug_form(content) {
        Err(e) => Err(ImportErrorV::Parse(e)),
        Ok(d) => Ok(article(source, d, "yaml"@, t)),
    }
}

impl YamlImporter {
    /// The article of the YAML document `content` read from `source_path`.
    pub fn import_at(&self, content: &str, source_path: &str, imported_at: &str) -> (r: Result<ImportResult, ImportError>)
        ensures
            document_outcome(r, yaml_import(content@, source_path@, imported_at@)),
    {
        match yaml_debug(content) {
            Err(e) => Err(ImportError::Parse(e)),
            Ok(d) => Ok(make_article(source_path, d, "yaml", imported_at)),
        }
    }

    /// The article of a YAML document, stamped with the current time.
    pub fn import(&self, content: &str, source_path: &str) -> (r: Result<ImportResult, ImportError>)
        ensures
            exists|t: Seq<char>| #[trigger] document_outcome(r, yaml_import(content@, source_path@, t)),
    {
        let now = now_rfc3339();
        self.import_at(content, source_path, now.as_str())
    }
}

} // verus!
