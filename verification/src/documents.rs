//! Importing office documents (OpenDocument, iWork, Office Open XML,
//! spreadsheets, PDF) and structured data files as articles.

use vstd::prelude::*;
use std::io::Read;
use crate::clock::now_rfc3339;
use crate::importers::{
    KeynoteImporter, NumbersImporter, OdgImporter, OdpImporter, OdsImporter, OdtImporter,
    OtpImporter, OtsImporter, OttImporter, PagesImporter,
};

use crate::model::{plain_result, provenance, provenance_v, text_component, text_v, Component, ComponentType, ImportError, ImportResult, ResultV};
use crate::paths::{extension, file_stem_or, stem_or};
use crate::text::{append_str, concat, to_chars};
use crate::xml::{events_view, name_is, named, scan_xml, unescape_xml, xml_events, xml_unescaped, XmlEvent, XmlEventV};

verus! {

/// An imported document: an article titled by the file stem of its path
/// (`Untitled` when it has none), holding its text, with its provenance.
pub open spec fn article(source: Seq<char>, text: Seq<char>, format: Seq<char>, t: Seq<char>) -> ResultV {
    ResultV {
        entity_type: "Article"@,
        components: seq![
            text_v(ComponentType::Title, stem_or(source, "Untitled"@)),
            text_v(ComponentType::Content, text),
            provenance_v(source, t, format),
        ],
        cross_references: Seq::empty(),
    }
}

/// The article of a document (see `article`).
pub fn make_article(source: &str, text: String, format: &str, t: &str) -> (r: ImportResult)
    ensures
        r@ == article(source@, text@, format@, t@),
{
    let ghost tv = text@;
    let mut components: Vec<Component> = Vec::new();
    components.push(text_component(ComponentType::Title, file_stem_or(source, "Untitled")));
    components.push(text_component(ComponentType::Content, text));
    components.push(provenance(source, t, format));
    let r = plain_result("Article", components);
    assert(r@.components =~= article(source@, tv, format@, t@).components);
    r
}

/// The outcome of reading the entry `name` of the ZIP archive `data`: the
/// archive's error, no such entry, a read error, or the entry's content.
pub uninterp spec fn zip_entry(data: Seq<u8>, name: Seq<char>) -> Result<Option<Result<Seq<u8>, Seq<char>>>, Seq<char>>;

/// The entry's content decoded as UTF-8 text (`Read::read_to_string`).
pub uninterp spec fn zip_text_entry(data: Seq<u8>, name: Seq<char>) -> Result<
    Option<Result<Seq<char>, Seq<char>>>,
    Seq<char>,
>;

/// The mathematical value of a read outcome.
pub open spec fn read_view<T: View>(r: Result<Option<Result<T, String>>, String>) -> Result<
    Option<Result<T::V, Seq<char>>>,
    Seq<char>,
> {
    match r {
        Err(e) => Err(e@),
        Ok(None) => Ok(None),
        Ok(Some(Err(e))) => Ok(Some(Err(e@))),
        Ok(Some(Ok(x))) => Ok(Some(Ok(x@))),
    }
}

/// `zip::ZipArchive::new` over `data`, then `by_name(name)` and
/// `read_to_end`; a failed `by_name` is `None`. Claimed: the result is
/// `zip_entry` of the arguments.
#[verifier::external_body]
fn zip_bytes(data: &[u8], name: &str) -> (r: Result<Option<Result<Vec<u8>, String>>, String>)
    ensures
        read_view(r) == zip_entry(data@, name@),
{
    let mut archive = zip::ZipArchive::new(std::io::Cursor::new(data)).map_err(|e| e.to_string())?;
    let Ok(mut entry) = archive.by_name(name) else { return Ok(None) };
    let mut buf = Vec::new();
    Ok(Some(entry.read_to_end(&mut buf).map(|_| buf).map_err(|e| e.to_string())))
}

/// `zip::ZipArchive::new` over `data`, then `by_name(name)` and
/// `read_to_string`; a failed `by_name` is `None`. Claimed: the result is
/// `zip_text_entry` of the arguments.
#[verifier::external_body]
fn zip_text(data: &[u8], name: &str) -> (r: Result<Option<Result<String, String>>, String>)
    ensures
        read_view(r) == zip_text_entry(data@, name@),
{
    let mut archive = zip::ZipArchive::new(std::io::Cursor::new(data)).map_err(|e| e.to_string())?;
    let Ok(mut entry) = archive.by_name(name) else { return Ok(None) };
    let mut text = String::new();
    Ok(Some(entry.read_to_string(&mut text).map(|_| text).map_err(|e| e.to_string())))
}

/// `str::to_lowercase` of `s`.
pub uninterp spec fn unicode_lower(s: Seq<char>) -> Seq<char>;

/// `str::to_lowercase`. Claimed: the result is `unicode_lower` of `s`.
#[verifier::external_body]
fn to_lowercase(s: &str) -> (r: String)
    ensures
        r@ == unicode_lower(s@),
{
    s.to_lowercase()
}

/// Which text of an OpenDocument `content.xml` is kept: the text inside
/// `text:p`, `text:h` and `text:span` (the last opened element decides),
/// with a newline after each paragraph and heading.
pub open spec fn odf_text_step(s: (Seq<char>, bool), e: XmlEventV) -> (Seq<char>, bool) {
    match e {
        XmlEventV::Start(n) => (s.0, named(n, "text:p"@) || named(n, "text:h"@) || named(n, "text:span"@)),
        XmlEventV::Text(raw) => if s.1 {
            match xml_unescaped(raw) {
                Some(x) => (s.0 + x, s.1),
                None => s,
            }
        } else {
            s
        },
        XmlEventV::End(n) => if named(n, "text:p"@) || named(n, "text:h"@) {
            (s.0.push('\n'), s.1)
        } else {
            s
        },
        _ => s,
    }
}

/// The kept text after the events `es`.
pub open spec fn odf_text_fold(es: Seq<XmlEventV>) -> (Seq<char>, bool)
    decreases es.len(),
{
    if es.len() == 0 {
        (Seq::empty(), false)
    } else {
        odf_text_step(odf_text_fold(es.drop_last()), es.last())
    }
}

/// The text of an OpenDocument `content.xml` (reading stops at an XML error).
pub open spec fn odf_text(content: Seq<char>) -> Seq<char> {
    odf_text_fold(xml_events(vstd::utf8::encode_utf8(content)).0).0
}

/// The text of an OpenDocument `content.xml` (see `odf_text`).
pub fn strip_xml_tags(xml: &str) -> (r: String)
    ensures
        r@ == odf_text(xml@),
{
    let (events, _error) = scan_xml(xml.as_bytes());
    let ghost es = events_view(events@);
    let mut text = String::new();
    let mut in_text = false;
    let mut i: usize = 0;
    assert(es.take(0) =~= Seq::<XmlEventV>::empty());
    while i < events.len()
        invariant
            i <= events@.len(),
            es == events_view(events@),
            odf_text_fold(es.take(i as int)) == (text@, in_text),
        decreases events@.len() - i,
    {
        proof {
            assert(es.take(i + 1).drop_last() =~= es.take(i as int));
            assert(es.take(i + 1).last() == events@[i as int]@);
        }
        match &events[i] {
            XmlEvent::Start(n) => {
                in_text = name_is(n, "text:p") || name_is(n, "text:h") || name_is(n, "text:span");
            },
            XmlEvent::Text(raw) => {
                if in_text {
                    match unescape_xml(raw.as_slice()) {
                        Some(x) => append_str(&mut text, x.as_str()),
                        None => {},
                    }
                }
            },
            XmlEvent::End(n) => {
                if name_is(n, "text:p") || name_is(n, "text:h") {
                    text.push('\n');
                }
            },
            XmlEvent::Other => {},
            XmlEvent::Empty(_) => {},
        }
        i += 1;
    }
    assert(es.take(events@.len() as int) =~= es);
    text
}

/// Which text of a spreadsheet `content.xml` is kept: text inside cells
/// and paragraphs, a tab after each cell and a newline after each row.
pub open spec fn ods_text_step(s: (Seq<char>, bool), e: XmlEventV) -> (Seq<char>, bool) {
    match e {
        XmlEventV::Start(n) => if named(n, "table:table-cell"@) || named(n, "text:p"@) {
            (s.0, true)
        } else {
            s
        },
        XmlEventV::Text(raw) => if s.1 {
            match xml_unescaped(raw) {
                Some(x) => (s.0 + x, s.1),
                None => s,
            }
        } else {
            s
        },
        XmlEventV::End(n) => {
            let t = if named(n, "table:table-cell"@) {
                s.0.push('\t')
            } else if named(n, "table:table-row"@) {
                s.0.push('\n')
            } else {
                s.0
            };
            (t, if named(n, "table:table-cell"@) || named(n, "text:p"@) { false } else { s.1 })
        },
        _ => s,
    }
}

/// The kept spreadsheet text after the events `es`.
pub open spec fn ods_text_fold(es: Seq<XmlEventV>) -> (Seq<char>, bool)
    decreases es.len(),
{
    if es.len() == 0 {
        (Seq::empty(), false)
    } else {
        ods_text_step(ods_text_fold(es.drop_last()), es.last())
    }
}

/// The text of a spreadsheet's `content.xml` (reading stops at an XML error).
pub open spec fn ods_text(content: Seq<char>) -> Seq<char> {
    ods_text_fold(xml_events(vstd::utf8::encode_utf8(content)).0).0
}

fn ods_cells_text(xml: &str) -> (r: String)
    ensures
        r@ == ods_text(xml@),
{
    let (events, _error) = scan_xml(xml.as_bytes());
    let ghost es = events_view(events@);
    let mut text = String::new();
    let mut in_cell = false;
    let mut i: usize = 0;
    assert(es.take(0) =~= Seq::<XmlEventV>::empty());
    while i < events.len()
        invariant
            i <= events@.len(),
            es == events_view(events@),
            ods_text_fold(es.take(i as int)) == (text@, in_cell),
        decreases events@.len() - i,
    {
        proof {
            assert(es.take(i + 1).drop_last() =~= es.take(i as int));
            assert(es.take(i + 1).last() == events@[i as int]@);
        }
        match &events[i] {
            XmlEvent::Start(n) => {
                if name_is(n, "table:table-cell") || name_is(n, "text:p") {
                    in_cell = true;
                }
            },
            XmlEvent::Text(raw) => {
                if in_cell {
                    match unescape_xml(raw.as_slice()) {
                        Some(x) => append_str(&mut text, x.as_str()),
                        None => {},
                    }
                }
            },
            XmlEvent::End(n) => {
                let cell = name_is(n, "table:table-cell");
                if cell {
                    text.push('\t');
                } else if name_is(n, "table:table-row") {
                    text.push('\n');
                }
                if cell || name_is(n, "text:p") {
                    in_cell = false;
                }
            },
            XmlEvent::Other => {},
            XmlEvent::Empty(_) => {},
        }
        i += 1;
    }
    assert(es.take(events@.len() as int) =~= es);
    text
}

/// The text of the `content.xml` entry of an OpenDocument file, read with
/// `read` (`odf_text` or `ods_text`), or the error: not a ZIP archive
/// (named by `kind`), a missing entry, or a read error.
pub open spec fn odf_content(data: Seq<u8>, kind: Seq<char>, sheet: bool) -> Result<Seq<char>, ImportErrorV> {
    match zip_text_entry(data, "content.xml"@) {
        Err(e) => Err(ImportErrorV::Parse("not a valid ZIP/"@ + kind + ": "@ + e)),
        Ok(None) => Err(ImportErrorV::Parse("missing content.xml"@)),
        Ok(Some(Err(e))) => Err(ImportErrorV::Io(e)),
        Ok(Some(Ok(c))) => Ok(if sheet { ods_text(c) } else { odf_text(c) }),
    }
}

/// The mathematical value of an import error.
pub enum ImportErrorV {
    Io(Seq<char>),
    Parse(Seq<char>),
}

/// Whether an import gave the wanted article, or the wanted error.
pub open spec fn document_outcome(r: Result<ImportResult, ImportError>, want: Result<ResultV, ImportErrorV>) -> bool {
    match want {
        Ok(v) => r matches Ok(x) && x@ == v,
        Err(ImportErrorV::Parse(m)) => r matches Err(ImportError::Parse(e)) && e@ == m,
        Err(ImportErrorV::Io(m)) => r matches Err(ImportError::Io(e)) && e@ == m,
    }
}

fn read_odf(data: &[u8], kind: &str, sheet: bool) -> (r: Result<String, ImportError>)
    ensures
        match odf_content(data@, kind@, sheet) {
            Ok(t) => r matches Ok(x) && x@ == t,
            Err(ImportErrorV::Parse(m)) => r matches Err(ImportError::Parse(e)) && e@ == m,
            Err(ImportErrorV::Io(m)) => r matches Err(ImportError::Io(e)) && e@ == m,
        },
{
    match zip_text(data, "content.xml") {
        Err(e) => {
            let a = concat("not a valid ZIP/", kind);
            let b = concat(a.as_str(), ": ");
            Err(ImportError::Parse(concat(b.as_str(), e.as_str())))
        },
        Ok(None) => Err(ImportError::Parse("missing content.xml".to_string())),
        Ok(Some(Err(e))) => Err(ImportError::Io(e)),
        Ok(Some(Ok(c))) => Ok(if sheet { ods_cells_text(c.as_str()) } else { strip_xml_tags(c.as_str()) }),
    }
}

/// The article of an OpenDocument file, or its error.
pub open spec fn odf_import(data: Seq<u8>, kind: Seq<char>, sheet: bool, format: Seq<char>, source: Seq<char>, t: Seq<char>) -> Result<ResultV, ImportErrorV> {
    match odf_content(data, kind, sheet) {
        Err(e) => Err(e),
        Ok(text) => Ok(article(source, text, format, t)),
    }
}

/// The format of an OpenDocument file named by its extension, lower-cased,
/// or `default` when it has none.
pub open spec fn ext_format(source: Seq<char>, default: Seq<char>) -> Seq<char> {
    unicode_lower(match extension(source) {
        Some(e) => e,
        None => default,
    })
}

fn format_from_ext(source: &str, default: &str) -> (r: String)
    ensures
        r@ == ext_format(source@, default@),
{
    let v = to_chars(source);
    match crate::paths::extension_bounds(&v) {
        Some((a, b)) => {
            let e = crate::text::string_of(&v, a, b);
            to_lowercase(e.as_str())
        },
        None => to_lowercase(default),
    }
}

fn import_odf(data: &[u8], kind: &str, sheet: bool, format: &str, source: &str, t: &str) -> (r: Result<ImportResult, ImportError>)
    ensures
        document_outcome(r, odf_import(data@, kind@, sheet, format@, source@, t@)),
{
    match read_odf(data, kind, sheet) {
        Err(e) => Err(e),
        Ok(text) => Ok(make_article(source, text, format, t)),
    }
}

impl OdtImporter {
    /// The article of an OpenDocument text (`.odt`, `.ott`) file read from
    /// `source_path`, its format named by its extension.
    pub fn import_at(&self, data: &[u8], source_path: &str, imported_at: &str) -> (r: Result<ImportResult, ImportError>)
        ensures
            document_outcome(r, odf_import(data@, "ODF"@, false, ext_format(source_path@, "odt"@), source_path@, imported_at@)),
    {
        let f = format_from_ext(source_path, "odt");
        import_odf(data, "ODF", false, f.as_str(), source_path, imported_at)
    }

    /// The article of the file, stamped with the current time.
    pub fn import(&self, data: &[u8], source_path: &str) -> (r: Result<ImportResult, ImportError>)
        ensures
            exists|t: Seq<char>| #[trigger] document_outcome(r, odf_import(data@, "ODF"@, false, ext_format(source_path@, "odt"@), source_path@, t)),
    {
        let now = now_rfc3339();
        self.import_at(data, source_path, now.as_str())
    }
}

impl OdsImporter {
    /// The article of an OpenDocument spreadsheet (`.ods`, `.ots`) file
    /// read from `source_path`, its format named by its extension.
    pub fn import_at(&self, data: &[u8], source_path: &str, imported_at: &str) -> (r: Result<ImportResult, ImportError>)
        ensures
            document_outcome(r, odf_import(data@, "ODS"@, true, ext_format(source_path@, "ods"@), source_path@, imported_at@)),
    {
        let f = format_from_ext(source_path, "ods");
        import_odf(data, "ODS", true, f.as_str(), source_path, imported_at)
    }

    /// The article of the file, stamped with the current time.
    pub fn import(&self, data: &[u8], source_path: &str) -> (r: Result<ImportResult, ImportError>)
        ensures
            exists|t: Seq<char>| #[trigger] document_outcome(r, odf_import(data@, "ODS"@, true, ext_format(source_path@, "ods"@), source_path@, t)),
    {
        let now = now_rfc3339();
        self.import_at(data, source_path, now.as_str())
    }
}

impl OdpImporter {
    /// The article of an OpenDocument presentation (`.odp`, `.otp`) file
    /// read from `source_path`, its format named by its extension.
    pub fn import_at(&self, data: &[u8], source_path: &str, imported_at: &str) -> (r: Result<ImportResult, ImportError>)
        ensures
            document_outcome(r, odf_import(data@, "ODF"@, false, ext_format(source_path@, "odp"@), source_path@, imported_at@)),
    {
        let f = format_from_ext(source_path, "odp");
        import_odf(data, "ODF", false, f.as_str(), source_path, imported_at)
    }

    /// The article of the file, stamped with the current time.
    pub fn import(&self, data: &[u8], source_path: &str) -> (r: Result<ImportResult, ImportError>)
        ensures
            exists|t: Seq<char>| #[trigger] document_outcome(r, odf_import(data@, "ODF"@, false, ext_format(source_path@, "odp"@), source_path@, t)),
    {
        let now = now_rfc3339();
        self.import_at(data, source_path, now.as_str())
    }
}

impl OdgImporter {
    /// The article of an OpenDocument drawing (`.odg`) file read from `source_path`.
    pub fn import_at(&self, data: &[u8], source_path: &str, imported_at: &str) -> (r: Result<ImportResult, ImportError>)
        ensures
            document_outcome(r, odf_import(data@, "ODF"@, false, "odg"@, source_path@, imported_at@)),
    {
        import_odf(data, "ODF", false, "odg", source_path, imported_at)
    }

    /// The article of the file, stamped with the current time.
    pub fn import(&self, data: &[u8], source_path: &str) -> (r: Result<ImportResult, ImportError>)
        ensures
            exists|t: Seq<char>| #[trigger] document_outcome(r, odf_import(data@, "ODF"@, false, "odg"@, source_path@, t)),
    {
        let now = now_rfc3339();
        self.import_at(data, source_path, now.as_str())
    }
}

impl OttImporter {
    /// The article of an OpenDocument text template (`.ott`) file read from `source_path`.
    pub fn import_at(&self, data: &[u8], source_path: &str, imported_at: &str) -> (r: Result<ImportResult, ImportError>)
        ensures
            document_outcome(r, odf_import(data@, "ODF"@, false, "ott"@, source_path@, imported_at@)),
    {
        import_odf(data, "ODF", false, "ott", source_path, imported_at)
    }

    /// The article of the file, stamped with the current time.
    pub fn import(&self, data: &[u8], source_path: &str) -> (r: Result<ImportResult, ImportError>)
        ensures
            exists|t: Seq<char>| #[trigger] document_outcome(r, odf_import(data@, "ODF"@, false, "ott"@, source_path@, t)),
    {
        let now = now_rfc3339();
        self.import_at(data, source_path, now.as_str())
    }
}

impl OtsImporter {
    /// The article of an OpenDocument spreadsheet template (`.ots`) file read from `source_path`.
    pub fn import_at(&self, data: &[u8], source_path: &str, imported_at: &str) -> (r: Result<ImportResult, ImportError>)
        ensures
            document_outcome(r, odf_import(data@, "ODS"@, true, "ots"@, source_path@, imported_at@)),
    {
        import_odf(data, "ODS", true, "ots", source_path, imported_at)
    }

    /// The article of the file, stamped with the current time.
    pub fn import(&self, data: &[u8], source_path: &str) -> (r: Result<ImportResult, ImportError>)
        ensures
            exists|t: Seq<char>| #[trigger] document_outcome(r, odf_import(data@, "ODS"@, true, "ots"@, source_path@, t)),
    {
        let now = now_rfc3339();
        self.import_at(data, source_path, now.as_str())
    }
}

impl OtpImporter {
    /// The article of an OpenDocument presentation template (`.otp`) file read from `source_path`.
    pub fn import_at(&self, data: &[u8], source_path: &str, imported_at: &str) -> (r: Result<ImportResult, ImportError>)
        ensures
            document_outcome(r, odf_import(data@, "ODF"@, false, "otp"@, source_path@, imported_at@)),
    {
        import_odf(data, "ODF", false, "otp", source_path, imported_at)
    }

    /// The article of the file, stamped with the current time.
    pub fn import(&self, data: &[u8], source_path: &str) -> (r: Result<ImportResult, ImportError>)
        ensures
            exists|t: Seq<char>| #[trigger] document_outcome(r, odf_import(data@, "ODF"@, false, "otp"@, source_path@, t)),
    {
        let now = now_rfc3339();
        self.import_at(data, source_path, now.as_str())
    }
}

/// Which text of an iWork `index.xml` is kept: the text inside `sf:p` and
/// `sf:span`, with a newline after each paragraph.
pub open spec fn iwork_text_step(s: (Seq<char>, bool), e: XmlEventV) -> (Seq<char>, bool) {
    match e {
        XmlEventV::Start(n) => if named(n, "sf:p"@) || named(n, "sf:span"@) {
            (s.0, true)
        } else {
            s
        },
        XmlEventV::Text(raw) => if s.1 {
            match xml_unescaped(raw) {
                Some(x) => (s.0 + x, s.1),
                None => s,
            }
        } else {
            s
        },
        XmlEventV::End(n) => {
            let t = if named(n, "sf:p"@) { s.0.push('\n') } else { s.0 };
            (t, if named(n, "sf:p"@) || named(n, "sf:span"@) { false } else { s.1 })
        },
        _ => s,
    }
}

/// The kept iWork text after the events `es`.
pub open spec fn iwork_text_fold(es: Seq<XmlEventV>) -> (Seq<char>, bool)
    decreases es.len(),
{
    if es.len() == 0 {
        (Seq::empty(), false)
    } else {
        iwork_text_step(iwork_text_fold(es.drop_last()), es.last())
    }
}

/// The text of an iWork index document (reading stops at an XML error).
pub open spec fn iwork_text(bytes: Seq<u8>) -> Seq<char> {
    iwork_text_fold(xml_events(bytes).0).0
}

/// The text of an iWork index document (see `iwork_text`).
fn index_xml_text(bytes: &[u8]) -> (r: String)
    ensures
        r@ == iwork_text(bytes@),
{
    let (events, _error) = scan_xml(bytes);
    let ghost es = events_view(events@);
    let mut text = String::new();
    let mut in_sf = false;
    let mut i: usize = 0;
    assert(es.take(0) =~= Seq::<XmlEventV>::empty());
    while i < events.len()
        invariant
            i <= events@.len(),
            es == events_view(events@),
            iwork_text_fold(es.take(i as int)) == (text@, in_sf),
        decreases events@.len() - i,
    {
        proof {
            assert(es.take(i + 1).drop_last() =~= es.take(i as int));
            assert(es.take(i + 1).last() == events@[i as int]@);
        }
        match &events[i] {
            XmlEvent::Start(n) => {
                if name_is(n, "sf:p") || name_is(n, "sf:span") {
                    in_sf = true;
                }
            },
            XmlEvent::Text(raw) => {
                if in_sf {
                    match unescape_xml(raw.as_slice()) {
                        Some(x) => append_str(&mut text, x.as_str()),
                        None => {},
                    }
                }
            },
            XmlEvent::End(n) => {
                let p = name_is(n, "sf:p");
                if p {
                    text.push('\n');
                }
                if p || name_is(n, "sf:span") {
                    in_sf = false;
                }
            },
            XmlEvent::Other => {},
            XmlEvent::Empty(_) => {},
        }
        i += 1;
    }
    assert(es.take(events@.len() as int) =~= es);
    text
}

/// The text of an iWork package: its `index.xml`, else its
/// `Index/Document.iwa`, read as an index document; or the error: not a ZIP
/// archive, neither entry, or a read error.
pub open spec fn iwork_content(data: Seq<u8>) -> Result<Seq<char>, ImportErrorV> {
    match zip_entry(data, "index.xml"@) {
        Err(e) => Err(ImportErrorV::Parse("not a valid ZIP/iWork: "@ + e)),
        Ok(Some(Err(e))) => Err(ImportErrorV::Io(e)),
        Ok(Some(Ok(b))) => Ok(iwork_text(b)),
        Ok(None) => match zip_entry(data, "Index/Document.iwa"@) {
            Err(e) => Err(ImportErrorV::Parse("not a valid ZIP/iWork: "@ + e)),
            Ok(None) => Err(ImportErrorV::Parse("missing index.xml or Document.iwa"@)),
            Ok(Some(Err(e))) => Err(ImportErrorV::Io(e)),
            Ok(Some(Ok(b))) => Ok(iwork_text(b)),
        },
    }
}

/// The article of an iWork package, or its error.
pub open spec fn iwork_import(data: Seq<u8>, format: Seq<char>, source: Seq<char>, t: Seq<char>) -> Result<ResultV, ImportErrorV> {
    match iwork_content(data) {
        Err(e) => Err(e),
        Ok(text) => Ok(article(source, text, format, t)),
    }
}

fn iwork_entry_text(r: Result<Option<Result<Vec<u8>, String>>, String>) -> (out: Option<Result<String, ImportError>>)
    ensures
        match read_view(r) {
            Err(e) => out matches Some(Err(ImportError::Parse(m))) && m@ == "not a valid ZIP/iWork: "@ + e,
            Ok(None) => out is None,
            Ok(Some(Err(e))) => out matches Some(Err(ImportError::Io(m))) && m@ == e,
            Ok(Some(Ok(b))) => out matches Some(Ok(x)) && x@ == iwork_text(b),
        },
{
    match r {
        Err(e) => Some(Err(ImportError::Parse(concat("not a valid ZIP/iWork: ", e.as_str())))),
        Ok(None) => None,
        Ok(Some(Err(e))) => Some(Err(ImportError::Io(e))),
        Ok(Some(Ok(b))) => Some(Ok(index_xml_text(b.as_slice()))),
    }
}

fn read_iwork(data: &[u8]) -> (r: Result<String, ImportError>)
    ensures
        match iwork_content(data@) {
            Ok(t) => r matches Ok(x) && x@ == t,
            Err(ImportErrorV::Parse(m)) => r matches Err(ImportError::Parse(e)) && e@ == m,
            Err(ImportErrorV::Io(m)) => r matches Err(ImportError::Io(e)) && e@ == m,
        },
{
    match iwork_entry_text(zip_bytes(data, "index.xml")) {
        Some(r) => r,
        None => match iwork_entry_text(zip_bytes(data, "Index/Document.iwa")) {
            Some(r) => r,
            None => Err(ImportError::Parse("missing index.xml or Document.iwa".to_string())),
        },
    }
}

fn import_iwork(data: &[u8], format: &str, source: &str, t: &str) -> (r: Result<ImportResult, ImportError>)
    ensures
        document_outcome(r, iwork_import(data@, format@, source@, t@)),
{
    match read_iwork(data) {
        Err(e) => Err(e),
        Ok(text) => Ok(make_article(source, text, format, t)),
    }
}

impl PagesImporter {
    /// The article of a Pages document read from `source_path`.
    pub fn import_at(&self, data: &[u8], source_path: &str, imported_at: &str) -> (r: Result<ImportResult, ImportError>)
        ensures
            document_outcome(r, iwork_import(data@, "pages"@, source_path@, imported_at@)),
    {
        import_iwork(data, "pages", source_path, imported_at)
    }

    /// The article of a Pages document, stamped with the current time.
    pub fn import(&self, data: &[u8], source_path: &str) -> (r: Result<ImportResult, ImportError>)
        ensures
            exists|t: Seq<char>| #[trigger] document_outcome(r, iwork_import(data@, "pages"@, source_path@, t)),
    {
        let now = now_rfc3339();
        self.import_at(data, source_path, now.as_str())
    }
}

impl NumbersImporter {
    /// The article of a Numbers spreadsheet read from `source_path`.
    pub fn import_at(&self, data: &[u8], source_path: &str, imported_at: &str) -> (r: Result<ImportResult, ImportError>)
        ensures
            document_outcome(r, iwork_import(data@, "numbers"@, source_path@, imported_at@)),
    {
        import_iwork(data, "numbers", source_path, imported_at)
    }

    /// The article of a Numbers spreadsheet, stamped with the current time.
    pub fn import(&self, data: &[u8], source_path: &str) -> (r: Result<ImportResult, ImportError>)
        ensures
            exists|t: Seq<char>| #[trigger] document_outcome(r, iwork_import(data@, "numbers"@, source_path@, t)),
    {
        let now = now_rfc3339();
        self.import_at(data, source_path, now.as_str())
    }
}

impl KeynoteImporter {
    /// The article of a Keynote presentation read from `source_path`.
    pub fn import_at(&self, data: &[u8], source_path: &str, imported_at: &str) -> (r: Result<ImportResult, ImportError>)
        ensures
            document_outcome(r, iwork_import(data@, "keynote"@, source_path@, imported_at@)),
    {
        import_iwork(data, "keynote", source_path, imported_at)
    }

    /// The article of a Keynote presentation, stamped with the current time.
    pub fn import(&self, data: &[u8], source_path: &str) -> (r: Result<ImportResult, ImportError>)
        ensures
            exists|t: Seq<char>| #[trigger] document_outcome(r, iwork_import(data@, "keynote"@, source_path@, t)),
    {
        let now = now_rfc3339();
        self.import_at(data, source_path, now.as_str())
    }
}

} // verus!
