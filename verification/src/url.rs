//! Importing web pages: what the fetched response becomes.

use vstd::prelude::*;
use crate::clock::now_rfc3339;
use crate::importers::UrlImporter;
use crate::markup::{plain_text_amp, strip_markup_amp};
use crate::model::{
    components_view, fields_view, opt_view, plain_result, text_component, text_field, text_v,
    Component, ComponentData, ComponentType, DataV, Field, ImportError, ImportResult, ResultV,
    ScalarV,
};
use crate::text::{concat, contains_sub, str_contains, to_chars, trim, trim_string};
use crate::model::{provenance, provenance_v};

verus! {

/// Capture group 1 of the first match of the regular expression `pattern`
/// in `text`.
pub uninterp spec fn first_capture(pattern: Seq<char>, text: Seq<char>) -> Option<Seq<char>>;

/// `regex::Regex::new(pattern)` then `captures(text)`: the text of group 1
/// of the first match. Claimed: the result is `first_capture` of the
/// arguments; `None` when the pattern does not compile, nothing matches,
/// or group 1 took no part in the match.
#[verifier::external_body]
fn capture_first(pattern: &str, text: &str) -> (r: Option<String>)
    ensures
        opt_view(r) == first_capture(pattern@, text@),
{
    let re = regex::Regex::new(pattern).ok()?;
    re.captures(text)?.get(1).map(|m| m.as_str().to_string())
}

/// The pattern that finds a page's title: the text of a `<title>` element,
/// in any letter case.
pub open spec fn title_pattern() -> Seq<char> {
    "(?i)<title[^>]*>([^<]+)</title>"@
}

/// The title of a web page: the text of its first `<title>` element
/// (found by `title_pattern`), trimmed.
pub open spec fn page_title(html: Seq<char>) -> Option<Seq<char>> {
    match first_capture(title_pattern(), html) {
        Some(t) => Some(trim(t)),
        None => None,
    }
}

/// The title of a web page (see `page_title`).
pub fn extract_html_title(html: &str) -> (r: Option<String>)
    ensures
        opt_view(r) == page_title(html@),
{
    match capture_first("(?i)<title[^>]*>([^<]+)</title>", html) {
        Some(t) => Some(trim_string(t.as_str())),
        None => None,
    }
}

/// The words of a web page outside its tags, joined by single spaces;
/// `&` also separates words.
pub fn html_to_text(html: &str) -> (r: String)
    ensures
        r@ == plain_text_amp(html@),
{
    strip_markup_amp(html)
}

/// Whether a content type is HTML.
pub open spec fn is_html_type(content_type: Seq<char>) -> bool {
    contains_sub(content_type, "html"@)
}

/// The provenance of a fetched page: its URL, when, the format `url`, and
/// the content type of the response.
pub open spec fn page_provenance_v(url: Seq<char>, t: Seq<char>, content_type: Seq<char>) -> (
    ComponentType,
    DataV,
) {
    (
        ComponentType::Provenance,
        DataV::Object(
            seq![
                ("source"@, ScalarV::Text(url)),
                ("imported_at"@, ScalarV::Text(t)),
                ("format"@, ScalarV::Text("url"@)),
                ("content_type"@, ScalarV::Text(content_type)),
            ],
        ),
    )
}

/// The timeline of a fetched page: when it was imported.
pub open spec fn imported_timeline_v(t: Seq<char>) -> (ComponentType, DataV) {
    (ComponentType::Timeline, DataV::Object(seq![("imported_at"@, ScalarV::Text(t))]))
}

/// The article imported from a fetched page: for an HTML page, its title
/// (else the URL) and its text; otherwise the URL and the body as it is;
/// then provenance, timeline and the language `en`.
pub open spec fn page_article(content: Seq<char>, url: Seq<char>, content_type: Seq<char>, t: Seq<char>) -> ResultV {
    let html = is_html_type(content_type);
    let title = if html {
        match page_title(content) {
            Some(x) => x,
            None => url,
        }
    } else {
        url
    };
    let text = if html {
        plain_text_amp(content)
    } else {
        content
    };
    ResultV {
        entity_type: "Article"@,
        components: seq![
            text_v(ComponentType::Title, title),
            text_v(ComponentType::Content, text),
            page_provenance_v(url, t, content_type),
            imported_timeline_v(t),
            text_v(ComponentType::Language, "en"@),
        ],
        cross_references: Seq::empty(),
    }
}

impl UrlImporter {
    /// The article imported from the body of a page fetched from `url`
    /// with the given content type, at `imported_at` (see `page_article`).
    pub fn import_from_content_at(&self, content: &str, url: &str, content_type: &str, imported_at: &str) -> (r:
        ImportResult)
        ensures
            r@ == page_article(content@, url@, content_type@, imported_at@),
    {
        let html = str_contains(content_type, "html");
        let title = if html {
            match extract_html_title(content) {
                Some(t) => t,
                None => url.to_string(),
            }
        } else {
            url.to_string()
        };
        let text = if html {
            html_to_text(content)
        } else {
            content.to_string()
        };
        let mut prov: Vec<Field> = Vec::new();
        prov.push(text_field("source", url.to_string()));
        prov.push(text_field("imported_at", imported_at.to_string()));
        prov.push(text_field("format", "url".to_string()));
        prov.push(text_field("content_type", content_type.to_string()));
        let mut timeline: Vec<Field> = Vec::new();
        timeline.push(text_field("imported_at", imported_at.to_string()));
        let ghost pf = fields_view(prov@);
        let ghost tf = fields_view(timeline@);
        let mut components: Vec<Component> = Vec::new();
        components.push(text_component(ComponentType::Title, title));
        components.push(text_component(ComponentType::Content, text));
        components.push(
            Component { component_type: ComponentType::Provenance, data: ComponentData::Object(prov) },
        );
        components.push(
            Component { component_type: ComponentType::Timeline, data: ComponentData::Object(timeline) },
        );
        components.push(text_component(ComponentType::Language, "en".to_string()));
        let r = plain_result("Article", components);
        proof {
            assert(pf =~= seq![
                ("source"@, ScalarV::Text(url@)),
                ("imported_at"@, ScalarV::Text(imported_at@)),
                ("format"@, ScalarV::Text("url"@)),
                ("content_type"@, ScalarV::Text(content_type@)),
            ]);
            assert(tf =~= seq![("imported_at"@, ScalarV::Text(imported_at@))]);
            assert(r@.components =~= page_article(content@, url@, content_type@, imported_at@).components);
        }
        r
    }

    /// The article imported from the body of a page fetched from `url`,
    /// stamped with the current time.
    pub fn import_from_content(&self, content: &str, url: &str, content_type: &str) -> (r: Result<
        ImportResult,
        ImportError,
    >)
        ensures
            r matches Ok(res) && exists|t: Seq<char>| res@ == page_article(
                content@,
                url@,
                content_type@,
                t,
            ),
    {
        let now = now_rfc3339();
        Ok(self.import_from_content_at(content, url, content_type, now.as_str()))
    }
}

/// Whether `s` ends with `suffix`.
pub open spec fn ends_with(s: Seq<char>, suffix: Seq<char>) -> bool {
    suffix.len() <= s.len() && s.skip(s.len() - suffix.len()) == suffix
}

/// Whether `s` ends with `suffix`.
pub fn str_ends_with(s: &str, suffix: &str) -> (b: bool)
    ensures
        b == ends_with(s@, suffix@),
{
    let v = to_chars(s);
    let p = to_chars(suffix);
    if p.len() > v.len() {
        return false;
    }
    let off = v.len() - p.len();
    let mut i: usize = 0;
    while i < p.len()
        invariant
            off + p.len() == v.len(),
            v@ == s@,
            p@ == suffix@,
            i <= p.len(),
            forall|j: int| 0 <= j < i ==> v@[off + j] == p@[j],
        decreases p.len() - i,
    {
        if v[off + i] != p[i] {
            assert(v@.skip(off as int)[i as int] == v@[off + i]);
            return false;
        }
        i += 1;
    }
    assert(v@.skip(off as int) =~= p@);
    true
}

/// Whether a fetched response is a PDF: its content type mentions `pdf`,
/// or the URL ends in `.pdf`.
pub fn is_pdf_response(content_type: &str, url: &str) -> (b: bool)
    ensures
        b == (contains_sub(content_type@, "pdf"@) || ends_with(url@, ".pdf"@)),
{
    str_contains(content_type, "pdf") || str_ends_with(url, ".pdf")
}

/// The content type of a response: its `content-type` header, or
/// `text/html` when it has none.
pub fn content_type_or_html(header: Option<String>) -> (r: String)
    ensures
        r@ == match header {
            Some(h) => h@,
            None => "text/html"@,
        },
{
    match header {
        Some(h) => h,
        None => "text/html".to_string(),
    }
}

/// The error for a response whose status is not a success.
pub fn http_status_error(status: &str, url: &str) -> (e: ImportError)
    ensures
        e matches ImportError::Network(m) && m@ == "HTTP "@ + status@ + " from "@ + url@,
{
    let m = concat("HTTP ", status);
    let m = concat(m.as_str(), " from ");
    ImportError::Network(concat(m.as_str(), url))
}

/// The components with every provenance replaced by `p`.
pub open spec fn replace_provenance(cs: Seq<(ComponentType, DataV)>, p: (ComponentType, DataV)) -> Seq<
    (ComponentType, DataV),
> {
    cs.map_values(
        |c: (ComponentType, DataV)|
            if c.0 == ComponentType::Provenance {
                p
            } else {
                c
            },
    )
}

/// A PDF downloaded from `url` and imported: its provenance components
/// now name the URL, the time `imported_at`, and the format `url-pdf`.
pub fn with_url_provenance(result: ImportResult, url: &str, imported_at: &str) -> (r: ImportResult)
    ensures
        r@.entity_type == result@.entity_type,
        r@.cross_references == result@.cross_references,
        r@.components == replace_provenance(result@.components, provenance_v(url@, imported_at@, "url-pdf"@)),
{
    let ghost input = components_view(result.components@);
    let ghost p = provenance_v(url@, imported_at@, "url-pdf"@);
    let ImportResult { entity, components, cross_references } = result;
    let mut rest = components;
    let mut out: Vec<Component> = Vec::new();
    let ghost mut i: int = 0;
    assert(input.skip(0) =~= input);
    while rest.len() > 0
        invariant
            0 <= i <= input.len(),
            components_view(rest@) == input.skip(i),
            components_view(out@) == replace_provenance(input.take(i), p),
            p == provenance_v(url@, imported_at@, "url-pdf"@),
        decreases rest.len(),
    {
        let ghost old_rest = rest@;
        let c = rest.remove(0);
        proof {
            assert(components_view(old_rest).len() == old_rest.len());
            assert(components_view(old_rest)[0] == c@);
            assert(input.skip(i)[0] == input[i]);
        }
        let ghost before = components_view(out@);
        if c.component_type == ComponentType::Provenance {
            out.push(provenance(url, imported_at, "url-pdf"));
        } else {
            out.push(c);
        }
        proof {
            assert(components_view(out@) =~= before.push(
                if input[i].0 == ComponentType::Provenance { p } else { input[i] },
            ));
            assert(replace_provenance(input.take(i + 1), p) =~= replace_provenance(input.take(i), p).push(
                if input[i].0 == ComponentType::Provenance { p } else { input[i] },
            ));
            assert(rest@ =~= old_rest.drop_first());
            assert(components_view(old_rest.drop_first()) =~= components_view(old_rest).drop_first());
            assert(input.skip(i).drop_first() =~= input.skip(i + 1));
            i = i + 1;
        }
    }
    assert(input.take(input.len() as int) =~= input);
    ImportResult { entity, components: out, cross_references }
}

impl UrlImporter {
    /// The article of a PDF downloaded from `url`, read as the file
    /// `tmp_path` dated `file_date` (see `pdf_import`), with its provenance
    /// naming the URL instead.
    pub fn import_pdf_from_bytes_at(&self, bytes: &[u8], url: &str, tmp_path: &str, file_date: &str, imported_at: &str) -> (r: Result<
        ImportResult,
        ImportError,
    >)
        ensures
            match crate::pdf::pdf_import(bytes@, tmp_path@, bytes@.len() as u64, file_date@, imported_at@) {
                Ok(v) => r matches Ok(x) && x@.entity_type == v.entity_type && x@.cross_references == v.cross_references
                    && x@.components == replace_provenance(v.components, provenance_v(url@, imported_at@, "url-pdf"@)),
                Err(crate::documents::ImportErrorV::Parse(m)) => r matches Err(ImportError::Parse(e)) && e@ == m,
                Err(crate::documents::ImportErrorV::Io(m)) => r matches Err(ImportError::Io(e)) && e@ == m,
            },
    {
        let size = bytes.len() as u64;
        match crate::importers::PdfImporter::new().import_at(bytes, tmp_path, size, file_date, imported_at) {
            Ok(result) => Ok(with_url_provenance(result, url, imported_at)),
            Err(e) => Err(e),
        }
    }
}

} // verus!
