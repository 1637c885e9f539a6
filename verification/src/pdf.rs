//! PDF documents: the text of their pages and their XMP metadata.

use vstd::prelude::*;
use pdf_oxide::extractors::xmp::XmpExtractor;
use crate::clock::now_rfc3339;
use crate::documents::{document_outcome, ImportErrorV};
use crate::importers::PdfImporter;
use crate::model::{
    components_view, opt_view, plain_result, provenance, provenance_v, strings_view, text_component,
    text_field, text_v, Component, ComponentData, ComponentType, DataV, Field, ImportError,
    ImportResult, ResultV, Scalar, ScalarV,
};
use crate::paths::{file_stem_or, stem_or};
use crate::text::{append_str, trim, trim_string};

verus! {

/// The XMP metadata of a PDF: its title, its creators and its creation date.
pub struct PdfXmp {
    pub title: Option<String>,
    pub creators: Vec<String>,
    pub create_date: Option<String>,
}

/// What a PDF reader finds in a document: the text of each page (`None`
/// where it could not be extracted) and the XMP metadata, if any.
pub struct PdfContent {
    pub pages: Vec<Option<String>>,
    pub xmp: Option<PdfXmp>,
}

/// The mathematical value of XMP metadata.
pub struct PdfXmpV {
    pub title: Option<Seq<char>>,
    pub creators: Seq<Seq<char>>,
    pub create_date: Option<Seq<char>>,
}

/// The mathematical value of what a PDF reader finds.
pub struct PdfContentV {
    pub pages: Seq<Option<Seq<char>>>,
    pub xmp: Option<PdfXmpV>,
}

impl View for PdfXmp {
    type V = PdfXmpV;

    open spec fn view(&self) -> PdfXmpV {
        PdfXmpV {
            title: opt_view(self.title),
            creators: strings_view(self.creators@),
            create_date: opt_view(self.create_date),
        }
    }
}

impl View for PdfContent {
    type V = PdfContentV;

    open spec fn view(&self) -> PdfContentV {
        PdfContentV {
            pages: self.pages@.map_values(|p: Option<String>| opt_view(p)),
            xmp: match self.xmp {
                Some(x) => Some(x@),
                None => None,
            },
        }
    }
}

/// What `pdf_oxide` reads from the PDF `data`, or its error.
pub uninterp spec fn pdf_read(data: Seq<u8>) -> Result<PdfContentV, Seq<char>>;

/// `pdf_oxide::PdfDocument::from_bytes`, then `extract_text` of each of its
/// `page_indices` and `XmpExtractor::extract` (an error or no metadata both
/// being `None`). Claimed: the result is `pdf_read` of `data`.
#[verifier::external_body]
fn read_pdf(data: &[u8]) -> (r: Result<PdfContent, String>)
    ensures
        match r {
            Ok(c) => pdf_read(data@) == Ok::<PdfContentV, Seq<char>>(c@),
            Err(e) => pdf_read(data@) == Err::<PdfContentV, Seq<char>>(e@),
        },
{
    let doc = pdf_oxide::PdfDocument::from_bytes(data.to_vec()).map_err(|e| e.to_string())?;
    let pages = doc.page_indices().map(|i| doc.extract_text(i).ok()).collect();
    let xmp = XmpExtractor::extract(&doc).ok().flatten().map(|x| PdfXmp {
        title: x.dc_title,
        creators: x.dc_creator,
        create_date: x.xmp_create_date,
    });
    Ok(PdfContent { pages, xmp })
}

/// The text of the pages that could be read, each followed by a newline.
pub open spec fn pages_text(pages: Seq<Option<Seq<char>>>) -> Seq<char>
    decreases pages.len(),
{
    if pages.len() == 0 {
        Seq::empty()
    } else {
        pages_text(pages.drop_last()) + match pages.last() {
            Some(t) => t.push('\n'),
            None => Seq::empty(),
        }
    }
}

/// The text of one page: its text and a newline, or nothing when it could
/// not be read.
pub open spec fn page_piece(p: Option<Seq<char>>) -> Seq<char> {
    match p {
        Some(t) => t.push('\n'),
        None => Seq::empty(),
    }
}

/// The total length of the readable pages' texts, one more for each.
pub open spec fn pages_len(pages: Seq<Option<Seq<char>>>) -> int
    decreases pages.len(),
{
    if pages.len() == 0 {
        0
    } else {
        pages_len(pages.drop_last()) + match pages.last() {
            Some(t) => t.len() + 1,
            None => 0,
        }
    }
}

/// Every page counts, in order: the text of two runs of pages is the text
/// of the first followed by that of the second; one readable page gives
/// its text and a newline, an unreadable one nothing, and no pages no text.
pub proof fn law_pages_text_concatenates(a: Seq<Option<Seq<char>>>, b: Seq<Option<Seq<char>>>)
    ensures
        pages_text(a + b) == pages_text(a) + pages_text(b),
        forall|p: Option<Seq<char>>| #[trigger] pages_text(seq![p]) == page_piece(p),
        pages_text(Seq::empty()) == Seq::<char>::empty(),
    decreases b.len(),
{
    assert forall|p: Option<Seq<char>>| #[trigger] pages_text(seq![p]) == page_piece(p) by {
        assert(seq![p].drop_last() =~= Seq::<Option<Seq<char>>>::empty());
        assert(pages_text(Seq::<Option<Seq<char>>>::empty()) + page_piece(p) =~= page_piece(p));
    }
    if b.len() == 0 {
        assert(a + b =~= a);
        assert(pages_text(a) + pages_text(b) =~= pages_text(a));
    } else {
        law_pages_text_concatenates(a, b.drop_last());
        assert((a + b).drop_last() =~= a + b.drop_last());
        assert((a + b).last() == b.last());
        assert(pages_text(a) + pages_text(b.drop_last()) + page_piece(b.last()) =~= pages_text(a) + (
        pages_text(b.drop_last()) + page_piece(b.last())));
    }
}

/// The text of the pages is as long as all readable pages' texts together,
/// with one newline for each readable page.
pub proof fn law_pages_text_length(pages: Seq<Option<Seq<char>>>)
    ensures
        pages_text(pages).len() == pages_len(pages),
    decreases pages.len(),
{
    if pages.len() > 0 {
        law_pages_text_length(pages.drop_last());
    }
}

/// The title, creator and creation date of the XMP metadata, if any.
pub open spec fn xmp_title(x: Option<PdfXmpV>) -> Option<Seq<char>> {
    match x {
        Some(m) => m.title,
        None => None,
    }
}

/// The first creator of the XMP metadata, if any.
pub open spec fn xmp_author(x: Option<PdfXmpV>) -> Option<Seq<char>> {
    match x {
        Some(m) => if m.creators.len() > 0 { Some(m.creators[0]) } else { None },
        None => None,
    }
}

/// The creation date of the XMP metadata, if any.
pub open spec fn xmp_date(x: Option<PdfXmpV>) -> Option<Seq<char>> {
    match x {
        Some(m) => m.create_date,
        None => None,
    }
}

/// The components of an imported PDF read from `source`, of `size` bytes,
/// its file dated `file_date`, imported at `t`: the title (the metadata's,
/// else the file stem, else `Untitled PDF`); the text, when there is any
/// besides whitespace; a reference to the file; the first author; when it
/// was created (the metadata's date, else the file's) and imported; its
/// language; and its provenance.
pub open spec fn pdf_components(c: PdfContentV, source: Seq<char>, size: u64, file_date: Seq<char>, t: Seq<char>) -> Seq<(ComponentType, DataV)> {
    seq![text_v(ComponentType::Title, pdf_title(c, source))] + pdf_content_part(c) + seq![pdf_binary(source, size)]
        + pdf_author_part(c) + seq![
        pdf_timeline(c, file_date, t),
        text_v(ComponentType::Language, "en"@),
        provenance_v(source, t, "pdf"@),
    ]
}

/// The title of a PDF: the metadata's, else the file stem, else `Untitled PDF`.
pub open spec fn pdf_title(c: PdfContentV, source: Seq<char>) -> Seq<char> {
    match xmp_title(c.xmp) {
        Some(x) => x,
        None => stem_or(source, "Untitled PDF"@),
    }
}

/// The content component of a PDF, when its text is not only whitespace.
pub open spec fn pdf_content_part(c: PdfContentV) -> Seq<(ComponentType, DataV)> {
    if trim(pages_text(c.pages)).len() > 0 {
        seq![text_v(ComponentType::Content, pages_text(c.pages))]
    } else {
        Seq::empty()
    }
}

/// The reference to the PDF file.
pub open spec fn pdf_binary(source: Seq<char>, size: u64) -> (ComponentType, DataV) {
    (
        ComponentType::BinaryContent,
        DataV::Object(
            seq![
                ("reference"@, ScalarV::Text(source)),
                ("mime_type"@, ScalarV::Text("application/pdf"@)),
                ("size"@, ScalarV::Number(size)),
            ],
        ),
    )
}

/// The author component of a PDF, when its metadata names a creator.
pub open spec fn pdf_author_part(c: PdfContentV) -> Seq<(ComponentType, DataV)> {
    match xmp_author(c.xmp) {
        Some(a) => seq![text_v(ComponentType::Author, a)],
        None => Seq::empty(),
    }
}

/// When a PDF was created (the metadata's date, else `file_date`) and imported.
pub open spec fn pdf_timeline(c: PdfContentV, file_date: Seq<char>, t: Seq<char>) -> (ComponentType, DataV) {
    let created = match xmp_date(c.xmp) {
        Some(d) => d,
        None => file_date,
    };
    (
        ComponentType::Timeline,
        DataV::Object(seq![("created_at"@, ScalarV::Text(created)), ("imported_at"@, ScalarV::Text(t))]),
    )
}

/// The article of a PDF, or the reader's error.
pub open spec fn pdf_import(data: Seq<u8>, source: Seq<char>, size: u64, file_date: Seq<char>, t: Seq<char>) -> Result<ResultV, ImportErrorV> {
    match pdf_read(data) {
        Err(e) => Err(ImportErrorV::Parse(e)),
        Ok(c) => Ok(
            ResultV {
                entity_type: "Article"@,
                components: pdf_components(c, source, size, file_date, t),
                cross_references: Seq::empty(),
            },
        ),
    }
}

fn join_pages(pages: &Vec<Option<String>>) -> (r: String)
    ensures
        r@ == pages_text(pages@.map_values(|p: Option<String>| opt_view(p))),
{
    let ghost pv = pages@.map_values(|p: Option<String>| opt_view(p));
    let mut text = String::new();
    let mut i: usize = 0;
    assert(pv.take(0) =~= Seq::<Option<Seq<char>>>::empty());
    while i < pages.len()
        invariant
            i <= pages@.len(),
            pv == pages@.map_values(|p: Option<String>| opt_view(p)),
            text@ == pages_text(pv.take(i as int)),
        decreases pages@.len() - i,
    {
        proof {
            assert(pv.take(i + 1).drop_last() =~= pv.take(i as int));
            assert(pv.take(i + 1).last() == pv[i as int]);
        }
        match &pages[i] {
            Some(t) => {
                append_str(&mut text, t.as_str());
                text.push('\n');
            },
            None => {},
        }
        proof {
            assert(text@ =~= pages_text(pv.take(i + 1)));
        }
        i += 1;
    }
    assert(pv.take(pages@.len() as int) =~= pv);
    text
}

fn object_component(t: ComponentType, fields: Vec<Field>) -> (c: Component)
    ensures
        c@ == (t, DataV::Object(crate::model::fields_view(fields@))),
{
    Component { component_type: t, data: ComponentData::Object(fields) }
}

impl PdfImporter {
    /// The article of the PDF `data` read from `source_path`, a file of
    /// `file_size` bytes dated `file_date`, imported at `imported_at`
    /// (see `pdf_import`).
    pub fn import_at(&self, data: &[u8], source_path: &str, file_size: u64, file_date: &str, imported_at: &str) -> (r: Result<ImportResult, ImportError>)
        ensures
            document_outcome(r, pdf_import(data@, source_path@, file_size, file_date@, imported_at@)),
    {
        let content = match read_pdf(data) {
            Err(e) => return Err(ImportError::Parse(e)),
            Ok(c) => c,
        };
        let ghost cv = content@;
        let text = join_pages(&content.pages);
        let has_text = !trim_string(text.as_str()).as_str().is_empty();
        let ghost tv = text@;
        assert(tv == pages_text(cv.pages));
        let mut title: Option<String> = None;
        let mut author: Option<String> = None;
        let mut created: Option<String> = None;
        match &content.xmp {
            Some(x) => {
                title = x.title.clone();
                if x.creators.len() > 0 {
                    author = Some(x.creators[0].clone());
                }
                created = x.create_date.clone();
            },
            None => {},
        }
        assert(opt_view(title) == xmp_title(cv.xmp));
        assert(opt_view(author) == xmp_author(cv.xmp));
        assert(opt_view(created) == xmp_date(cv.xmp));
        let ghost ttl = match xmp_title(cv.xmp) {
            Some(x) => x,
            None => stem_or(source_path@, "Untitled PDF"@),
        };
        let mut components: Vec<Component> = Vec::new();
        let title_text = match title {
            Some(x) => x,
            None => file_stem_or(source_path, "Untitled PDF"),
        };
        components.push(text_component(ComponentType::Title, title_text));
        let ghost head = seq![text_v(ComponentType::Title, ttl)];
        assert(components_view(components@) =~= head);
        assert(has_text == (trim(tv).len() > 0));
        if has_text {
            components.push(text_component(ComponentType::Content, text));
        }
        let ghost content = if trim(tv).len() > 0 { seq![text_v(ComponentType::Content, tv)] } else { Seq::empty() };
        assert(components_view(components@) =~= head + content);
        let mut binary: Vec<Field> = Vec::new();
        binary.push(text_field("reference", source_path.to_string()));
        binary.push(text_field("mime_type", "application/pdf".to_string()));
        binary.push(Field { key: "size".to_string(), value: Scalar::Number(file_size) });
        let ghost bfields = seq![
            ("reference"@, ScalarV::Text(source_path@)),
            ("mime_type"@, ScalarV::Text("application/pdf"@)),
            ("size"@, ScalarV::Number(file_size)),
        ];
        assert(crate::model::fields_view(binary@) =~= bfields);
        components.push(object_component(ComponentType::BinaryContent, binary));
        let ghost bin = (ComponentType::BinaryContent, DataV::Object(bfields));
        assert(components_view(components@) =~= head + content + seq![bin]);
        match author {
            Some(a) => components.push(text_component(ComponentType::Author, a)),
            None => {},
        }
        let ghost auth = match xmp_author(cv.xmp) {
            Some(a) => seq![text_v(ComponentType::Author, a)],
            None => Seq::empty(),
        };
        assert(components_view(components@) =~= head + content + seq![bin] + auth);
        let created_at = match created {
            Some(d) => d,
            None => file_date.to_string(),
        };
        let mut timeline: Vec<Field> = Vec::new();
        timeline.push(text_field("created_at", created_at));
        timeline.push(text_field("imported_at", imported_at.to_string()));
        let ghost cdate = match xmp_date(cv.xmp) {
            Some(d) => d,
            None => file_date@,
        };
        let ghost tfields = seq![
            ("created_at"@, ScalarV::Text(cdate)),
            ("imported_at"@, ScalarV::Text(imported_at@)),
        ];
        assert(crate::model::fields_view(timeline@) =~= tfields);
        components.push(object_component(ComponentType::Timeline, timeline));
        components.push(text_component(ComponentType::Language, "en".to_string()));
        components.push(provenance(source_path, imported_at, "pdf"));
        assert(components_view(components@) =~= head + content + seq![bin] + auth + seq![
            (ComponentType::Timeline, DataV::Object(tfields)),
            text_v(ComponentType::Language, "en"@),
            provenance_v(source_path@, imported_at@, "pdf"@),
        ]);
        let r = plain_result("Article", components);
        assert(ttl == pdf_title(cv, source_path@));
        assert(content == pdf_content_part(cv));
        assert(bin == pdf_binary(source_path@, file_size));
        assert(auth == pdf_author_part(cv));
        assert((ComponentType::Timeline, DataV::Object(tfields)) == pdf_timeline(cv, file_date@, imported_at@));
        assert(components_view(components@) =~= pdf_components(cv, source_path@, file_size, file_date@, imported_at@));
        Ok(r)
    }

    /// The article of a PDF, imported now.
    pub fn import(&self, data: &[u8], source_path: &str, file_size: u64, file_date: &str) -> (r: Result<ImportResult, ImportError>)
        ensures
            exists|t: Seq<char>| #[trigger] document_outcome(r, pdf_import(data@, source_path@, file_size, file_date@, t)),
    {
        let now = now_rfc3339();
        self.import_at(data, source_path, file_size, file_date, now.as_str())
    }
}

} // verus!
