//! Importing HTML documents: their metadata, their text, and the links
//! they make to other documents.

use vstd::prelude::*;
use crate::clock::now_rfc3339;
use crate::importers::HtmlImporter;
use crate::markup::{plain_text, strip_markup};
use crate::model::{
    opt_view, provenance, provenance_v, strings_view, text_component, text_field, text_v,
    Component, ComponentData, ComponentType, CrossReference, DataV, Entity, Field, ImportError,
    ImportResult, RefV, ResultV, ScalarV, components_view, fields_view, refs_view,
};
use crate::paths::{file_stem_or, join, join_path, parent_of, path_parent, stem_or};
use crate::text::{
    concat, find_char, split_on, split_trimmed, starts_with, to_chars, trim, trim_string,
    trimmed_nonempty, string_of,
};
use crate::importers::str_starts_with;

verus! {

/// The text of the first element that CSS `selector` matches in `html`
/// parsed as a fragment.
pub uninterp spec fn selected_text(html: Seq<char>, selector: Seq<char>) -> Option<Seq<char>>;

/// The value of attribute `attr` of the first element that CSS `selector`
/// matches in `html` parsed as a fragment.
pub uninterp spec fn selected_attr(html: Seq<char>, selector: Seq<char>, attr: Seq<char>) -> Option<
    Seq<char>,
>;

/// The anchors `a[href]` of `html` parsed as a fragment, in document
/// order: each one's `href` value and its text.
pub uninterp spec fn anchors(html: Seq<char>) -> Seq<(Option<Seq<char>>, Seq<char>)>;

/// The plain-text rendering of `html` by html2text, if it succeeds.
pub uninterp spec fn rendered_text(html: Seq<char>) -> Option<Seq<char>>;

/// `scraper`: parses `html` as a fragment (`Html::parse_fragment`) and
/// collects the text of the first element that `selector` matches.
/// Claimed: the result is `selected_text` of the arguments; `None` also
/// when `selector` does not parse.
#[verifier::external_body]
fn select_text(html: &str, selector: &str) -> (r: Option<String>)
    ensures
        opt_view(r) == selected_text(html@, selector@),
{
    let document = scraper::Html::parse_fragment(html);
    let sel = scraper::Selector::parse(selector).ok()?;
    document.select(&sel).next().map(|el| el.text().collect::<String>())
}

/// `scraper`: parses `html` as a fragment and reads attribute `attr` of the
/// first element that `selector` matches. Claimed: the result is
/// `selected_attr` of the arguments.
#[verifier::external_body]
fn select_attr(html: &str, selector: &str, attr: &str) -> (r: Option<String>)
    ensures
        opt_view(r) == selected_attr(html@, selector@, attr@),
{
    let document = scraper::Html::parse_fragment(html);
    let sel = scraper::Selector::parse(selector).ok()?;
    document.select(&sel).next().and_then(|el| el.value().attr(attr)).map(|s| s.to_string())
}

/// `scraper`: parses `html` as a fragment and lists the elements that
/// `a[href]` matches, each with its `href` attribute and its text.
/// Claimed: the result is `anchors` of `html`.
#[verifier::external_body]
fn select_anchors(html: &str) -> (r: Vec<(Option<String>, String)>)
    ensures
        r@.map_values(|x: (Option<String>, String)| (opt_view(x.0), x.1@)) == anchors(html@),
{
    let document = scraper::Html::parse_fragment(html);
    match scraper::Selector::parse("a[href]") {
        Ok(sel) => document.select(&sel).map(
            |el| (el.value().attr("href").map(|s| s.to_string()), el.text().collect::<String>()),
        ).collect(),
        Err(_) => Vec::new(),
    }
}

/// `html2text::config::plain().string_from_read` with unbounded width.
/// Claimed: the result is `rendered_text` of `html`; `None` when
/// html2text reports an error.
#[verifier::external_body]
fn render_text(html: &str) -> (r: Option<String>)
    ensures
        opt_view(r) == rendered_text(html@),
{
    html2text::config::plain().string_from_read(html.as_bytes(), usize::MAX).ok()
}

/// A text trimmed, and kept only when something is left.
pub open spec fn nonblank(o: Option<Seq<char>>) -> Option<Seq<char>> {
    match o {
        Some(t) => if trim(t).len() > 0 {
            Some(trim(t))
        } else {
            None
        },
        None => None,
    }
}

/// A text kept only when it is not empty.
pub open spec fn nonempty(o: Option<Seq<char>>) -> Option<Seq<char>> {
    match o {
        Some(t) => if t.len() > 0 {
            Some(t)
        } else {
            None
        },
        None => None,
    }
}

/// The first of two optional values that is present.
pub open spec fn or_else<A>(a: Option<A>, b: Option<A>) -> Option<A> {
    match a {
        Some(x) => Some(x),
        None => b,
    }
}

fn trimmed_nonblank(o: Option<String>) -> (r: Option<String>)
    ensures
        opt_view(r) == nonblank(opt_view(o)),
{
    match o {
        Some(t) => {
            let s = trim_string(t.as_str());
            if s.as_str().is_empty() {
                None
            } else {
                Some(s)
            }
        },
        None => None,
    }
}

fn keep_nonempty(o: Option<String>) -> (r: Option<String>)
    ensures
        opt_view(r) == nonempty(opt_view(o)),
{
    match o {
        Some(t) => if t.as_str().is_empty() {
            None
        } else {
            Some(t)
        },
        None => None,
    }
}

/// The `<title>` of `html`, trimmed, unless it is blank.
pub open spec fn html_title(html: Seq<char>) -> Option<Seq<char>> {
    nonblank(selected_text(html, "title"@))
}

/// The first `<h1>` of `html`, trimmed, unless it is blank.
pub open spec fn first_h1(html: Seq<char>) -> Option<Seq<char>> {
    nonblank(selected_text(html, "h1"@))
}

/// The non-empty `content` of the `<meta name="...">` element with the given name.
pub open spec fn meta_named(html: Seq<char>, name: Seq<char>) -> Option<Seq<char>> {
    nonempty(selected_attr(html, "meta[name=\""@ + name + "\"]"@, "content"@))
}

/// The non-empty `content` of the Open Graph `<meta property="og:...">` element.
pub open spec fn og_property(html: Seq<char>, property: Seq<char>) -> Option<Seq<char>> {
    nonempty(selected_attr(html, "meta[property=\"og:"@ + property + "\"]"@, "content"@))
}

/// The title of an HTML document: its `<title>` text, trimmed, unless blank.
pub fn extract_html_title(html: &str) -> (r: Option<String>)
    ensures
        opt_view(r) == html_title(html@),
{
    trimmed_nonblank(select_text(html, "title"))
}

fn extract_first_h1(html: &str) -> (r: Option<String>)
    ensures
        opt_view(r) == first_h1(html@),
{
    trimmed_nonblank(select_text(html, "h1"))
}

fn meta_content(html: &str, name: &str) -> (r: Option<String>)
    ensures
        opt_view(r) == meta_named(html@, name@),
{
    let sel = concat("meta[name=\"", name);
    let sel = concat(sel.as_str(), "\"]");
    assert(sel@ == "meta[name=\""@ + name@ + "\"]"@);
    keep_nonempty(select_attr(html, sel.as_str(), "content"))
}

fn og_content(html: &str, property: &str) -> (r: Option<String>)
    ensures
        opt_view(r) == og_property(html@, property@),
{
    let sel = concat("meta[property=\"og:", property);
    let sel = concat(sel.as_str(), "\"]");
    keep_nonempty(select_attr(html, sel.as_str(), "content"))
}

/// Metadata read from an HTML document's head.
#[derive(Clone, Debug, PartialEq)]
pub struct HtmlMetadata {
    pub title: Option<String>,
    pub author: Option<String>,
    pub description: Option<String>,
    pub language: Option<String>,
    pub keywords: Vec<String>,
}

/// The mathematical value of HTML metadata.
pub struct MetadataV {
    pub title: Option<Seq<char>>,
    pub author: Option<Seq<char>>,
    pub description: Option<Seq<char>>,
    pub language: Option<Seq<char>>,
    pub keywords: Seq<Seq<char>>,
}

impl View for HtmlMetadata {
    type V = MetadataV;

    open spec fn view(&self) -> MetadataV {
        MetadataV {
            title: opt_view(self.title),
            author: opt_view(self.author),
            description: opt_view(self.description),
            language: opt_view(self.language),
            keywords: strings_view(self.keywords@),
        }
    }
}

/// The metadata of `html`: the title; the author from `meta name=author`,
/// else `dc.creator`; the description from `meta name=description`, else
/// Open Graph `og:description`; the `lang` of the `html` element; and the
/// comma-separated `keywords`, trimmed, empty ones left out.
pub open spec fn html_metadata(html: Seq<char>) -> MetadataV {
    MetadataV {
        title: html_title(html),
        author: or_else(meta_named(html, "author"@), meta_named(html, "dc.creator"@)),
        description: or_else(meta_named(html, "description"@), og_property(html, "description"@)),
        language: selected_attr(html, "html[lang]"@, "lang"@),
        keywords: match meta_named(html, "keywords"@) {
            Some(k) => trimmed_nonempty(split_on(k, ","@)),
            None => Seq::empty(),
        },
    }
}

/// Read the metadata of an HTML document (see `html_metadata`).
pub fn extract_html_metadata(html: &str) -> (m: HtmlMetadata)
    ensures
        m@ == html_metadata(html@),
{
    let title = extract_html_title(html);
    let author = match meta_content(html, "author") {
        Some(a) => Some(a),
        None => meta_content(html, "dc.creator"),
    };
    let description = match meta_content(html, "description") {
        Some(d) => Some(d),
        None => og_content(html, "description"),
    };
    let language = select_attr(html, "html[lang]", "lang");
    let keywords = match meta_content(html, "keywords") {
        Some(k) => {
            proof {
                reveal_strlit(",");
            }
            split_trimmed(k.as_str(), ",")
        },
        None => Vec::new(),
    };
    let m = HtmlMetadata { title, author, description, language, keywords };
    assert(strings_view(m.keywords@) =~= html_metadata(html@).keywords);
    m
}

/// The words of `html` outside its tags, joined by single spaces; used
/// when html2text cannot render a document.
pub fn html_to_text_fallback(html: &str) -> (r: String)
    ensures
        r@ == plain_text(html@),
{
    strip_markup(html)
}

/// The text of `html` as html2text renders it, or else its plain words.
pub open spec fn html_text(html: Seq<char>) -> Seq<char> {
    match rendered_text(html) {
        Some(t) => t,
        None => plain_text(html),
    }
}

/// The plain text of an HTML document (see `html_text`).
pub fn html_to_text(html: &str) -> (r: String)
    ensures
        r@ == html_text(html@),
{
    match render_text(html) {
        Some(t) => t,
        None => html_to_text_fallback(html),
    }
}

/// The body of an HTML document as imported: its plain text (see `html_text`).
pub fn html_to_markdown(html: &str) -> (r: String)
    ensures
        r@ == html_text(html@),
{
    match render_text(html) {
        Some(t) => t,
        None => html_to_text_fallback(html),
    }
}

/// The directory of `source`, or `.` when it has none.
pub open spec fn dir_or_dot(source: Seq<char>) -> Seq<char> {
    match path_parent(source) {
        Some(d) => d,
        None => "."@,
    }
}

/// The cross-reference that an anchor with the given `href` and text makes
/// from the document at `source`: web links are URL references; `mailto:`
/// links and in-page anchors are none; `file#section` is a section of a
/// file beside the document (of the document itself when the file part is
/// empty); anything else is a file beside the document. Blank anchor text
/// is replaced by the `href`.
pub open spec fn link_ref(href: Seq<char>, text: Seq<char>, source: Seq<char>) -> Option<RefV> {
    let lt = if trim(text).len() == 0 {
        href
    } else {
        trim(text)
    };
    if starts_with(href, "http://"@) || starts_with(href, "https://"@) {
        Some(RefV::Url { url: href, link_text: lt })
    } else if starts_with(href, "mailto:"@) || starts_with(href, "#"@) {
        None
    } else {
        match find_char(href, '#') {
            Some(i) => {
                let file_part = href.take(i);
                let target = if file_part.len() == 0 {
                    source
                } else {
                    join_path(dir_or_dot(source), file_part)
                };
                Some(RefV::Section { target_path: target, section: href.skip(i + 1), link_text: lt })
            },
            None => Some(RefV::File { target_path: join_path(dir_or_dot(source), href), link_text: lt }),
        }
    }
}

/// The cross-references made by a list of anchors, in order; anchors
/// without an `href`, or with an empty one, make none.
pub open spec fn links_refs(links: Seq<(Option<Seq<char>>, Seq<char>)>, source: Seq<char>) -> Seq<
    RefV,
>
    decreases links.len(),
{
    if links.len() == 0 {
        Seq::empty()
    } else {
        let prev = links_refs(links.drop_last(), source);
        match links.last().0 {
            Some(h) => if h.len() > 0 {
                match link_ref(h, links.last().1, source) {
                    Some(r) => prev.push(r),
                    None => prev,
                }
            } else {
                prev
            },
            None => prev,
        }
    }
}

fn dir_or_dot_of(source: &str) -> (r: String)
    ensures
        r@ == dir_or_dot(source@),
{
    match parent_of(source) {
        Some(d) => d,
        None => ".".to_string(),
    }
}

/// A web link is a URL reference to exactly its `href`: whatever the
/// document's path, an anchor whose `href` begins with `http://` or
/// `https://` gives a URL cross-reference whose url is the `href` and
/// whose text is the anchor's trimmed text (the `href` when that is blank).
pub proof fn law_web_links_are_urls(href: Seq<char>, text: Seq<char>, source: Seq<char>)
    requires
        "http://"@.is_prefix_of(href) || "https://"@.is_prefix_of(href),
    ensures
        link_ref(href, text, source) == Some(
            RefV::Url { url: href, link_text: if trim(text).len() == 0 { href } else { trim(text) } },
        ),
{
    if "http://"@.is_prefix_of(href) {
        assert(href.take("http://"@.len() as int) =~= "http://"@);
    } else {
        assert(href.take("https://"@.len() as int) =~= "https://"@);
    }
}

fn make_link_ref(href: &str, text: &str, source: &str) -> (r: Option<CrossReference>)
    ensures
        match r {
            Some(c) => link_ref(href@, text@, source@) == Some(c@),
            None => link_ref(href@, text@, source@) is None,
        },
{
    let t = trim_string(text);
    let link_text = if t.as_str().is_empty() {
        href.to_string()
    } else {
        t
    };
    if str_starts_with(href, "http://") || str_starts_with(href, "https://") {
        return Some(CrossReference::UrlRef { url: href.to_string(), link_text });
    }
    if str_starts_with(href, "mailto:") || str_starts_with(href, "#") {
        return None;
    }
    let v = to_chars(href);
    let mut i: usize = 0;
    assert(v@.skip(0) =~= v@);
    while i < v.len() && v[i] != '#'
        invariant
            i <= v.len(),
            v@ == href@,
            find_char(v@, '#') == match find_char(v@.skip(i as int), '#') {
                Some(j) => Some(j + i),
                None => None,
            },
        decreases v.len() - i,
    {
        assert(v@.skip(i as int).drop_first() =~= v@.skip(i + 1));
        i += 1;
    }
    if i < v.len() {
        assert(v@.skip(i as int)[0] == '#');
        let file_part = string_of(&v, 0, i);
        let section = string_of(&v, i + 1, v.len());
        assert(file_part@ =~= href@.take(i as int));
        assert(section@ =~= href@.skip(i + 1));
        let target_path = if i == 0 {
            source.to_string()
        } else {
            let d = dir_or_dot_of(source);
            join(d.as_str(), file_part.as_str())
        };
        Some(CrossReference::SectionRef { target_path, section, link_text })
    } else {
        proof {
            assert(v@.skip(i as int).len() == 0);
        }
        let d = dir_or_dot_of(source);
        Some(CrossReference::FileRef { target_path: join(d.as_str(), href), link_text })
    }
}

/// The cross-references that the anchors of `html` make from the document
/// at `source_path` (see `link_ref`).
pub fn extract_html_links(html: &str, source_path: &str) -> (r: Vec<CrossReference>)
    ensures
        refs_view(r@) == links_refs(anchors(html@), source_path@),
{
    let links = select_anchors(html);
    let ghost lv = links@.map_values(|x: (Option<String>, String)| (opt_view(x.0), x.1@));
    let mut refs: Vec<CrossReference> = Vec::new();
    let mut i: usize = 0;
    assert(lv.take(0) =~= Seq::<(Option<Seq<char>>, Seq<char>)>::empty());
    while i < links.len()
        invariant
            i <= links.len(),
            lv == links@.map_values(|x: (Option<String>, String)| (opt_view(x.0), x.1@)),
            refs_view(refs@) == links_refs(lv.take(i as int), source_path@),
        decreases links.len() - i,
    {
        let (href, text) = &links[i];
        proof {
            assert(lv.take(i + 1).drop_last() =~= lv.take(i as int));
            assert(lv.take(i + 1).last() == lv[i as int]);
        }
        let ghost before = refs_view(refs@);
        match href {
            Some(h) => {
                if !h.as_str().is_empty() {
                    match make_link_ref(h.as_str(), text.as_str(), source_path) {
                        Some(c) => {
                            refs.push(c);
                            assert(refs_view(refs@) =~= before.push(c@));
                        },
                        None => {},
                    }
                }
            },
            None => {},
        }
        i += 1;
    }
    assert(lv.take(links.len() as int) =~= lv);
    refs
}

/// The timeline component of an imported document: when it was created and imported.
pub open spec fn created_timeline_v(created_at: Seq<char>, imported_at: Seq<char>) -> (
    ComponentType,
    DataV,
) {
    (
        ComponentType::Timeline,
        DataV::Object(
            seq![
                ("created_at"@, ScalarV::Text(created_at)),
                ("imported_at"@, ScalarV::Text(imported_at)),
            ],
        ),
    )
}

/// The timeline component of an imported document.
pub fn created_timeline(created_at: &str, imported_at: &str) -> (c: Component)
    ensures
        c@ == created_timeline_v(created_at@, imported_at@),
{
    let mut fields: Vec<Field> = Vec::new();
    fields.push(text_field("created_at", created_at.to_string()));
    fields.push(text_field("imported_at", imported_at.to_string()));
    assert(fields_view(fields@) =~= seq![
        ("created_at"@, ScalarV::Text(created_at@)),
        ("imported_at"@, ScalarV::Text(imported_at@)),
    ]);
    Component { component_type: ComponentType::Timeline, data: ComponentData::Object(fields) }
}

/// The title of an imported HTML document: its `<title>`, else its first
/// `<h1>`, else the file stem of its path, else `Untitled`.
pub open spec fn html_doc_title(content: Seq<char>, source: Seq<char>) -> Seq<char> {
    match or_else(html_title(content), first_h1(content)) {
        Some(t) => t,
        None => stem_or(source, "Untitled"@),
    }
}

/// The components of an imported HTML document, in order: title, text,
/// author, keywords as tags, description (the last three when present),
/// timeline, language (`en` when undeclared) and provenance.
pub open spec fn html_components(content: Seq<char>, source: Seq<char>, created_at: Seq<char>, t: Seq<char>) -> Seq<
    (ComponentType, DataV),
> {
    let m = html_metadata(content);
    let base = seq![
        text_v(ComponentType::Title, html_doc_title(content, source)),
        text_v(ComponentType::Content, html_text(content)),
    ];
    let a = match m.author {
        Some(x) => base.push(text_v(ComponentType::Author, x)),
        None => base,
    };
    let k = if m.keywords.len() > 0 {
        a.push((ComponentType::Tags, DataV::List(m.keywords)))
    } else {
        a
    };
    let d = match m.description {
        Some(x) => k.push(text_v(ComponentType::Description, x)),
        None => k,
    };
    let lang = match m.language {
        Some(l) => l,
        None => "en"@,
    };
    d.push(created_timeline_v(created_at, t)).push(text_v(ComponentType::Language, lang)).push(
        provenance_v(source, t, "html"@),
    )
}

/// The article imported from an HTML document.
pub open spec fn html_article(content: Seq<char>, source: Seq<char>, created_at: Seq<char>, t: Seq<char>) -> ResultV {
    ResultV {
        entity_type: "Article"@,
        components: html_components(content, source, created_at, t),
        cross_references: links_refs(anchors(content), source),
    }
}

impl HtmlImporter {
    /// Import the HTML document `content` read from `source_path`, created
    /// at `created_at` and imported at `imported_at` (see `html_article`).
    pub fn import_content_at(&self, content: &str, source_path: &str, created_at: &str, imported_at: &str) -> (r:
        ImportResult)
        ensures
            r@ == html_article(content@, source_path@, created_at@, imported_at@),
    {
        let metadata = extract_html_metadata(content);
        let ghost m = metadata@;
        let title = match metadata.title {
            Some(t) => t,
            None => match extract_first_h1(content) {
                Some(h) => h,
                None => file_stem_or(source_path, "Untitled"),
            },
        };
        let body = html_to_markdown(content);
        let mut components: Vec<Component> = Vec::new();
        components.push(text_component(ComponentType::Title, title));
        components.push(text_component(ComponentType::Content, body));
        let ghost c0 = components_view(components@);
        match metadata.author {
            Some(a) => components.push(text_component(ComponentType::Author, a)),
            None => {},
        }
        let ghost c1 = components_view(components@);
        if metadata.keywords.len() > 0 {
            components.push(
                Component { component_type: ComponentType::Tags, data: ComponentData::List(metadata.keywords) },
            );
        }
        let ghost c2 = components_view(components@);
        match metadata.description {
            Some(d) => components.push(text_component(ComponentType::Description, d)),
            None => {},
        }
        let ghost c3 = components_view(components@);
        components.push(created_timeline(created_at, imported_at));
        let language = match metadata.language {
            Some(l) => l,
            None => "en".to_string(),
        };
        components.push(text_component(ComponentType::Language, language));
        components.push(provenance(source_path, imported_at, "html"));
        let cross_references = extract_html_links(content, source_path);
        let r = ImportResult {
            entity: Entity { entity_type: "Article".to_string() },
            components,
            cross_references,
        };
        proof {
            let ghost want = html_components(content@, source_path@, created_at@, imported_at@);
            assert(c0 =~= seq![
                text_v(ComponentType::Title, html_doc_title(content@, source_path@)),
                text_v(ComponentType::Content, html_text(content@)),
            ]);
            assert(c1 == match m.author {
                Some(x) => c0.push(text_v(ComponentType::Author, x)),
                None => c0,
            });
            assert(c2 == if m.keywords.len() > 0 {
                c1.push((ComponentType::Tags, DataV::List(m.keywords)))
            } else {
                c1
            });
            assert(components_view(r.components@) =~= want);
        }
        r
    }

    /// Import the HTML document `content` read from `source_path`, created
    /// at `created_at`, stamped with the current time.
    pub fn import_content(&self, content: &str, source_path: &str, created_at: &str) -> (r: Result<
        ImportResult,
        ImportError,
    >)
        ensures
            r matches Ok(res) && exists|t: Seq<char>| res@ == html_article(
                content@,
                source_path@,
                created_at@,
                t,
            ),
    {
        let now = now_rfc3339();
        Ok(self.import_content_at(content, source_path, created_at, now.as_str()))
    }
}

} // verus!
