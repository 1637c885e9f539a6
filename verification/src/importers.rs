//! The importers and the file types each of them reads.

use vstd::prelude::*;
use crate::paths::{file_stem, has_ext, path_has_ext, stem_bounds};
use crate::text::{lower, starts_with, to_chars, to_lower};
use crate::model::{ImportError, ImportResult};

verus! {

/// The strings of a list of string slices.
pub open spec fn strs_view(v: Seq<&str>) -> Seq<Seq<char>> {
    v.map_values(|s: &str| s@)
}

/// Importer for iCalendar (`.ics`) files; one entity per event.
pub struct IcsImporter;

impl IcsImporter {
    pub fn new() -> (r: Self) {
        IcsImporter
    }

    /// Whether the file at `path` has one of the extensions this importer reads.
    pub fn can_import(&self, path: &str) -> (b: bool)
        ensures
            b == (has_ext(path@, "ics"@)),
    {
        path_has_ext(path, "ics")
    }

    /// The file extensions this importer supports.
    pub fn supported_extensions(&self) -> (r: Vec<&'static str>)
        ensures
            strs_view(r@) == seq!["ics"@],
    {
        let r = vec!["ics"];
        assert(strs_view(r@) =~= seq!["ics"@]);
        r
    }
}

/// Importer for vCard (`.vcf`) files; one entity per contact.
pub struct VcfImporter;

impl VcfImporter {
    pub fn new() -> (r: Self) {
        VcfImporter
    }

    /// Whether the file at `path` has one of the extensions this importer reads.
    pub fn can_import(&self, path: &str) -> (b: bool)
        ensures
            b == (has_ext(path@, "vcf"@)),
    {
        path_has_ext(path, "vcf")
    }

    /// The file extensions this importer supports.
    pub fn supported_extensions(&self) -> (r: Vec<&'static str>)
        ensures
            strs_view(r@) == seq!["vcf"@],
    {
        let r = vec!["vcf"];
        assert(strs_view(r@) =~= seq!["vcf"@]);
        r
    }
}

/// Importer for Word (`.docx`) documents.
pub struct DocxImporter;

impl DocxImporter {
    pub fn new() -> (r: Self) {
        DocxImporter
    }

    /// Whether the file at `path` has one of the extensions this importer reads.
    pub fn can_import(&self, path: &str) -> (b: bool)
        ensures
            b == (has_ext(path@, "docx"@)),
    {
        path_has_ext(path, "docx")
    }

    /// The file extensions this importer supports.
    pub fn supported_extensions(&self) -> (r: Vec<&'static str>)
        ensures
            strs_view(r@) == seq!["docx"@],
    {
        let r = vec!["docx"];
        assert(strs_view(r@) =~= seq!["docx"@]);
        r
    }
}

/// Importer for single e-mail messages (`.eml`).
pub struct EmlImporter;

impl EmlImporter {
    pub fn new() -> (r: Self) {
        EmlImporter
    }

    /// Whether the file at `path` has one of the extensions this importer reads.
    pub fn can_import(&self, path: &str) -> (b: bool)
        ensures
            b == (has_ext(path@, "eml"@)),
    {
        path_has_ext(path, "eml")
    }

    /// The file extensions this importer supports.
    pub fn supported_extensions(&self) -> (r: Vec<&'static str>)
        ensures
            strs_view(r@) == seq!["eml"@],
    {
        let r = vec!["eml"];
        assert(strs_view(r@) =~= seq!["eml"@]);
        r
    }
}

/// Importer for Outlook messages (`.msg`).
pub struct MsgImporter;

impl MsgImporter {
    pub fn new() -> (r: Self) {
        MsgImporter
    }

    /// Whether the file at `path` has one of the extensions this importer reads.
    pub fn can_import(&self, path: &str) -> (b: bool)
        ensures
            b == (has_ext(path@, "msg"@)),
    {
        path_has_ext(path, "msg")
    }

    /// The file extensions this importer supports.
    pub fn supported_extensions(&self) -> (r: Vec<&'static str>)
        ensures
            strs_view(r@) == seq!["msg"@],
    {
        let r = vec!["msg"];
        assert(strs_view(r@) =~= seq!["msg"@]);
        r
    }
}

/// Importer for HTML pages.
pub struct HtmlImporter;

impl HtmlImporter {
    pub fn new() -> (r: Self) {
        HtmlImporter
    }

    /// Whether the file at `path` has one of the extensions this importer reads.
    pub fn can_import(&self, path: &str) -> (b: bool)
        ensures
            b == (has_ext(path@, "html"@) || has_ext(path@, "htm"@)),
    {
        path_has_ext(path, "html") || path_has_ext(path, "htm")
    }

    /// The file extensions this importer supports.
    pub fn supported_extensions(&self) -> (r: Vec<&'static str>)
        ensures
            strs_view(r@) == seq!["html"@, "htm"@],
    {
        let r = vec!["html", "htm"];
        assert(strs_view(r@) =~= seq!["html"@, "htm"@]);
        r
    }
}

/// Importer for Apple Pages documents.
pub struct PagesImporter;

impl PagesImporter {
    pub fn new() -> (r: Self) {
        PagesImporter
    }

    /// Whether the file at `path` has one of the extensions this importer reads.
    pub fn can_import(&self, path: &str) -> (b: bool)
        ensures
            b == (has_ext(path@, "pages"@)),
    {
        path_has_ext(path, "pages")
    }

    /// The file extensions this importer supports.
    pub fn supported_extensions(&self) -> (r: Vec<&'static str>)
        ensures
            strs_view(r@) == seq!["pages"@],
    {
        let r = vec!["pages"];
        assert(strs_view(r@) =~= seq!["pages"@]);
        r
    }
}

/// Importer for Apple Numbers spreadsheets.
pub struct NumbersImporter;

impl NumbersImporter {
    pub fn new() -> (r: Self) {
        NumbersImporter
    }

    /// Whether the file at `path` has one of the extensions this importer reads.
    pub fn can_import(&self, path: &str) -> (b: bool)
        ensures
            b == (has_ext(path@, "numbers"@)),
    {
        path_has_ext(path, "numbers")
    }

    /// The file extensions this importer supports.
    pub fn supported_extensions(&self) -> (r: Vec<&'static str>)
        ensures
            strs_view(r@) == seq!["numbers"@],
    {
        let r = vec!["numbers"];
        assert(strs_view(r@) =~= seq!["numbers"@]);
        r
    }
}

/// Importer for Apple Keynote presentations.
pub struct KeynoteImporter;

impl KeynoteImporter {
    pub fn new() -> (r: Self) {
        KeynoteImporter
    }

    /// Whether the file at `path` has one of the extensions this importer reads.
    pub fn can_import(&self, path: &str) -> (b: bool)
        ensures
            b == (has_ext(path@, "key"@)),
    {
        path_has_ext(path, "key")
    }

    /// The file extensions this importer supports.
    pub fn supported_extensions(&self) -> (r: Vec<&'static str>)
        ensures
            strs_view(r@) == seq!["key"@],
    {
        let r = vec!["key"];
        assert(strs_view(r@) =~= seq!["key"@]);
        r
    }
}

/// Importer for legacy Word (`.doc`) files, which are refused.
pub struct DocImporter;

impl DocImporter {
    pub fn new() -> (r: Self) {
        DocImporter
    }

    /// Whether the file at `path` has one of the extensions this importer reads.
    pub fn can_import(&self, path: &str) -> (b: bool)
        ensures
            b == (has_ext(path@, "doc"@)),
    {
        path_has_ext(path, "doc")
    }

    /// The file extensions this importer supports.
    pub fn supported_extensions(&self) -> (r: Vec<&'static str>)
        ensures
            strs_view(r@) == seq!["doc"@],
    {
        let r = vec!["doc"];
        assert(strs_view(r@) =~= seq!["doc"@]);
        r
    }
}

/// Importer for legacy Excel (`.xls`) workbooks.
pub struct XlsImporter;

impl XlsImporter {
    pub fn new() -> (r: Self) {
        XlsImporter
    }

    /// Whether the file at `path` has one of the extensions this importer reads.
    pub fn can_import(&self, path: &str) -> (b: bool)
        ensures
            b == (has_ext(path@, "xls"@)),
    {
        path_has_ext(path, "xls")
    }

    /// The file extensions this importer supports.
    pub fn supported_extensions(&self) -> (r: Vec<&'static str>)
        ensures
            strs_view(r@) == seq!["xls"@],
    {
        let r = vec!["xls"];
        assert(strs_view(r@) =~= seq!["xls"@]);
        r
    }
}

/// Importer for legacy PowerPoint (`.ppt`) files, which are refused.
pub struct PptImporter;

impl PptImporter {
    pub fn new() -> (r: Self) {
        PptImporter
    }

    /// Whether the file at `path` has one of the extensions this importer reads.
    pub fn can_import(&self, path: &str) -> (b: bool)
        ensures
            b == (has_ext(path@, "ppt"@)),
    {
        path_has_ext(path, "ppt")
    }

    /// The file extensions this importer supports.
    pub fn supported_extensions(&self) -> (r: Vec<&'static str>)
        ensures
            strs_view(r@) == seq!["ppt"@],
    {
        let r = vec!["ppt"];
        assert(strs_view(r@) =~= seq!["ppt"@]);
        r
    }
}

/// Importer for legacy PowerPoint shows (`.pps`), which are refused.
pub struct PpsImporter;

impl PpsImporter {
    pub fn new() -> (r: Self) {
        PpsImporter
    }

    /// Whether the file at `path` has one of the extensions this importer reads.
    pub fn can_import(&self, path: &str) -> (b: bool)
        ensures
            b == (has_ext(path@, "pps"@)),
    {
        path_has_ext(path, "pps")
    }

    /// The file extensions this importer supports.
    pub fn supported_extensions(&self) -> (r: Vec<&'static str>)
        ensures
            strs_view(r@) == seq!["pps"@],
    {
        let r = vec!["pps"];
        assert(strs_view(r@) =~= seq!["pps"@]);
        r
    }
}

/// Importer for mailbox (`.mbox`) files; one entity per message.
pub struct MboxImporter;

impl MboxImporter {
    pub fn new() -> (r: Self) {
        MboxImporter
    }

    /// Whether the file at `path` has one of the extensions this importer reads.
    pub fn can_import(&self, path: &str) -> (b: bool)
        ensures
            b == (has_ext(path@, "mbox"@)),
    {
        path_has_ext(path, "mbox")
    }

    /// The file extensions this importer supports.
    pub fn supported_extensions(&self) -> (r: Vec<&'static str>)
        ensures
            strs_view(r@) == seq!["mbox"@],
    {
        let r = vec!["mbox"];
        assert(strs_view(r@) =~= seq!["mbox"@]);
        r
    }
}

/// Importer for Evernote exports (`.enex`); one entity per note.
pub struct EnexImporter;

impl EnexImporter {
    pub fn new() -> (r: Self) {
        EnexImporter
    }

    /// Whether the file at `path` has one of the extensions this importer reads.
    pub fn can_import(&self, path: &str) -> (b: bool)
        ensures
            b == (has_ext(path@, "enex"@)),
    {
        path_has_ext(path, "enex")
    }

    /// The file extensions this importer supports.
    pub fn supported_extensions(&self) -> (r: Vec<&'static str>)
        ensures
            strs_view(r@) == seq!["enex"@],
    {
        let r = vec!["enex"];
        assert(strs_view(r@) =~= seq!["enex"@]);
        r
    }
}

/// Importer for outlines (`.opml`); one entity per outline item.
pub struct OpmlImporter;

impl OpmlImporter {
    pub fn new() -> (r: Self) {
        OpmlImporter
    }

    /// Whether the file at `path` has one of the extensions this importer reads.
    pub fn can_import(&self, path: &str) -> (b: bool)
        ensures
            b == (has_ext(path@, "opml"@)),
    {
        path_has_ext(path, "opml")
    }

    /// The file extensions this importer supports.
    pub fn supported_extensions(&self) -> (r: Vec<&'static str>)
        ensures
            strs_view(r@) == seq!["opml"@],
    {
        let r = vec!["opml"];
        assert(strs_view(r@) =~= seq!["opml"@]);
        r
    }
}

/// Importer for OpenDocument text documents and templates.
pub struct OdtImporter;

impl OdtImporter {
    pub fn new() -> (r: Self) {
        OdtImporter
    }

    /// Whether the file at `path` has one of the extensions this importer reads.
    pub fn can_import(&self, path: &str) -> (b: bool)
        ensures
            b == (has_ext(path@, "odt"@) || has_ext(path@, "ott"@)),
    {
        path_has_ext(path, "odt") || path_has_ext(path, "ott")
    }

    /// The file extensions this importer supports.
    pub fn supported_extensions(&self) -> (r: Vec<&'static str>)
        ensures
            strs_view(r@) == seq!["odt"@, "ott"@],
    {
        let r = vec!["odt", "ott"];
        assert(strs_view(r@) =~= seq!["odt"@, "ott"@]);
        r
    }
}

/// Importer for OpenDocument spreadsheets and templates.
pub struct OdsImporter;

impl OdsImporter {
    pub fn new() -> (r: Self) {
        OdsImporter
    }

    /// Whether the file at `path` has one of the extensions this importer reads.
    pub fn can_import(&self, path: &str) -> (b: bool)
        ensures
            b == (has_ext(path@, "ods"@) || has_ext(path@, "ots"@)),
    {
        path_has_ext(path, "ods") || path_has_ext(path, "ots")
    }

    /// The file extensions this importer supports.
    pub fn supported_extensions(&self) -> (r: Vec<&'static str>)
        ensures
            strs_view(r@) == seq!["ods"@, "ots"@],
    {
        let r = vec!["ods", "ots"];
        assert(strs_view(r@) =~= seq!["ods"@, "ots"@]);
        r
    }
}

/// Importer for OpenDocument presentations and templates.
pub struct OdpImporter;

impl OdpImporter {
    pub fn new() -> (r: Self) {
        OdpImporter
    }

    /// Whether the file at `path` has one of the extensions this importer reads.
    pub fn can_import(&self, path: &str) -> (b: bool)
        ensures
            b == (has_ext(path@, "odp"@) || has_ext(path@, "otp"@)),
    {
        path_has_ext(path, "odp") || path_has_ext(path, "otp")
    }

    /// The file extensions this importer supports.
    pub fn supported_extensions(&self) -> (r: Vec<&'static str>)
        ensures
            strs_view(r@) == seq!["odp"@, "otp"@],
    {
        let r = vec!["odp", "otp"];
        assert(strs_view(r@) =~= seq!["odp"@, "otp"@]);
        r
    }
}

/// Importer for OpenDocument drawings.
pub struct OdgImporter;

impl OdgImporter {
    pub fn new() -> (r: Self) {
        OdgImporter
    }

    /// Whether the file at `path` has one of the extensions this importer reads.
    pub fn can_import(&self, path: &str) -> (b: bool)
        ensures
            b == (has_ext(path@, "odg"@)),
    {
        path_has_ext(path, "odg")
    }

    /// The file extensions this importer supports.
    pub fn supported_extensions(&self) -> (r: Vec<&'static str>)
        ensures
            strs_view(r@) == seq!["odg"@],
    {
        let r = vec!["odg"];
        assert(strs_view(r@) =~= seq!["odg"@]);
        r
    }
}

/// Importer for OpenDocument text templates.
pub struct OttImporter;

impl OttImporter {
    pub fn new() -> (r: Self) {
        OttImporter
    }

    /// Whether the file at `path` has one of the extensions this importer reads.
    pub fn can_import(&self, path: &str) -> (b: bool)
        ensures
            b == (has_ext(path@, "ott"@)),
    {
        path_has_ext(path, "ott")
    }

    /// The file extensions this importer supports.
    pub fn supported_extensions(&self) -> (r: Vec<&'static str>)
        ensures
            strs_view(r@) == seq!["ott"@],
    {
        let r = vec!["ott"];
        assert(strs_view(r@) =~= seq!["ott"@]);
        r
    }
}

/// Importer for OpenDocument spreadsheet templates.
pub struct OtsImporter;

impl OtsImporter {
    pub fn new() -> (r: Self) {
        OtsImporter
    }

    /// Whether the file at `path` has one of the extensions this importer reads.
    pub fn can_import(&self, path: &str) -> (b: bool)
        ensures
            b == (has_ext(path@, "ots"@)),
    {
        path_has_ext(path, "ots")
    }

    /// The file extensions this importer supports.
    pub fn supported_extensions(&self) -> (r: Vec<&'static str>)
        ensures
            strs_view(r@) == seq!["ots"@],
    {
        let r = vec!["ots"];
        assert(strs_view(r@) =~= seq!["ots"@]);
        r
    }
}

/// Importer for OpenDocument presentation templates.
pub struct OtpImporter;

impl OtpImporter {
    pub fn new() -> (r: Self) {
        OtpImporter
    }

    /// Whether the file at `path` has one of the extensions this importer reads.
    pub fn can_import(&self, path: &str) -> (b: bool)
        ensures
            b == (has_ext(path@, "otp"@)),
    {
        path_has_ext(path, "otp")
    }

    /// The file extensions this importer supports.
    pub fn supported_extensions(&self) -> (r: Vec<&'static str>)
        ensures
            strs_view(r@) == seq!["otp"@],
    {
        let r = vec!["otp"];
        assert(strs_view(r@) =~= seq!["otp"@]);
        r
    }
}

/// Importer for PDF documents.
pub struct PdfImporter;

impl PdfImporter {
    pub fn new() -> (r: Self) {
        PdfImporter
    }

    /// Whether the file at `path` has one of the extensions this importer reads.
    pub fn can_import(&self, path: &str) -> (b: bool)
        ensures
            b == (has_ext(path@, "pdf"@)),
    {
        path_has_ext(path, "pdf")
    }

    /// The file extensions this importer supports.
    pub fn supported_extensions(&self) -> (r: Vec<&'static str>)
        ensures
            strs_view(r@) == seq!["pdf"@],
    {
        let r = vec!["pdf"];
        assert(strs_view(r@) =~= seq!["pdf"@]);
        r
    }
}

/// Importer for PowerPoint (`.pptx`) presentations.
pub struct PptxImporter;

impl PptxImporter {
    pub fn new() -> (r: Self) {
        PptxImporter
    }

    /// Whether the file at `path` has one of the extensions this importer reads.
    pub fn can_import(&self, path: &str) -> (b: bool)
        ensures
            b == (has_ext(path@, "pptx"@) || has_ext(path@, "pps"@)),
    {
        path_has_ext(path, "pptx") || path_has_ext(path, "pps")
    }

    /// The file extensions this importer supports.
    pub fn supported_extensions(&self) -> (r: Vec<&'static str>)
        ensures
            strs_view(r@) == seq!["pptx"@],
    {
        let r = vec!["pptx"];
        assert(strs_view(r@) =~= seq!["pptx"@]);
        r
    }
}

/// Importer for CSV tables; rows become entities through a column mapping.
pub struct CsvImporter;

impl CsvImporter {
    pub fn new() -> (r: Self) {
        CsvImporter
    }

    /// Whether the file at `path` has one of the extensions this importer reads.
    pub fn can_import(&self, path: &str) -> (b: bool)
        ensures
            b == (has_ext(path@, "csv"@)),
    {
        path_has_ext(path, "csv")
    }

    /// The file extensions this importer supports.
    pub fn supported_extensions(&self) -> (r: Vec<&'static str>)
        ensures
            strs_view(r@) == seq!["csv"@],
    {
        let r = vec!["csv"];
        assert(strs_view(r@) =~= seq!["csv"@]);
        r
    }
}

/// Importer for JSON documents.
pub struct JsonImporter;

impl JsonImporter {
    pub fn new() -> (r: Self) {
        JsonImporter
    }

    /// Whether the file at `path` has one of the extensions this importer reads.
    pub fn can_import(&self, path: &str) -> (b: bool)
        ensures
            b == (has_ext(path@, "json"@)),
    {
        path_has_ext(path, "json")
    }

    /// The file extensions this importer supports.
    pub fn supported_extensions(&self) -> (r: Vec<&'static str>)
        ensures
            strs_view(r@) == seq!["json"@],
    {
        let r = vec!["json"];
        assert(strs_view(r@) =~= seq!["json"@]);
        r
    }
}

/// Importer for XML documents.
pub struct XmlImporter;

impl XmlImporter {
    pub fn new() -> (r: Self) {
        XmlImporter
    }

    /// Whether the file at `path` has one of the extensions this importer reads.
    pub fn can_import(&self, path: &str) -> (b: bool)
        ensures
            b == (has_ext(path@, "xml"@)),
    {
        path_has_ext(path, "xml")
    }

    /// The file extensions this importer supports.
    pub fn supported_extensions(&self) -> (r: Vec<&'static str>)
        ensures
            strs_view(r@) == seq!["xml"@],
    {
        let r = vec!["xml"];
        assert(strs_view(r@) =~= seq!["xml"@]);
        r
    }
}

/// Importer for YAML documents.
pub struct YamlImporter;

impl YamlImporter {
    pub fn new() -> (r: Self) {
        YamlImporter
    }

    /// Whether the file at `path` has one of the extensions this importer reads.
    pub fn can_import(&self, path: &str) -> (b: bool)
        ensures
            b == (has_ext(path@, "yaml"@) || has_ext(path@, "yml"@)),
    {
        path_has_ext(path, "yaml") || path_has_ext(path, "yml")
    }

    /// The file extensions this importer supports.
    pub fn supported_extensions(&self) -> (r: Vec<&'static str>)
        ensures
            strs_view(r@) == seq!["yaml"@, "yml"@],
    {
        let r = vec!["yaml", "yml"];
        assert(strs_view(r@) =~= seq!["yaml"@, "yml"@]);
        r
    }
}

/// Importer for Excel workbooks.
pub struct XlsxImporter;

impl XlsxImporter {
    pub fn new() -> (r: Self) {
        XlsxImporter
    }

    /// Whether the file at `path` has one of the extensions this importer reads.
    pub fn can_import(&self, path: &str) -> (b: bool)
        ensures
            b == (has_ext(path@, "xlsx"@) || has_ext(path@, "xls"@) || has_ext(path@, "xlsm"@)),
    {
        path_has_ext(path, "xlsx") || path_has_ext(path, "xls") || path_has_ext(path, "xlsm")
    }

    /// The file extensions this importer supports.
    pub fn supported_extensions(&self) -> (r: Vec<&'static str>)
        ensures
            strs_view(r@) == seq!["xlsx"@, "xls"@, "xlsm"@],
    {
        let r = vec!["xlsx", "xls", "xlsm"];
        assert(strs_view(r@) =~= seq!["xlsx"@, "xls"@, "xlsm"@]);
        r
    }
}

/// Whether `needle` occurs in `hay` with `hay` lower-cased (ASCII).
pub open spec fn contains_lower(hay: Seq<char>, needle: Seq<char>) -> bool {
    exists|i: int| 0 <= i && i + needle.len() <= hay.len() && #[trigger] lower_match_at(hay, needle, i)
}

/// Whether `needle` occurs at index `i` of `hay` lower-cased (ASCII).
pub open spec fn lower_match_at(hay: Seq<char>, needle: Seq<char>, i: int) -> bool {
    forall|j: int| 0 <= j < needle.len() ==> #[trigger] lower(hay[i + j]) == needle[j]
}

/// Whether `v[lo..hi]`, lower-cased (ASCII), contains `needle`.
fn range_contains_lower(v: &Vec<char>, lo: usize, hi: usize, needle: &str) -> (b: bool)
    requires
        lo <= hi <= v.len(),
    ensures
        b == contains_lower(v@.subrange(lo as int, hi as int), needle@),
{
    let n = to_chars(needle);
    let ghost hay = v@.subrange(lo as int, hi as int);
    if n.len() > hi - lo {
        return false;
    }
    let mut i: usize = 0;
    while i <= (hi - lo) - n.len()
        invariant
            lo <= hi <= v.len(),
            n@ == needle@,
            n.len() <= hi - lo,
            hay == v@.subrange(lo as int, hi as int),
            i <= hi - lo - n.len() + 1,
            forall|k: int| 0 <= k < i ==> !#[trigger] lower_match_at(hay, needle@, k),
        decreases hi - lo - i,
    {
        let mut j: usize = 0;
        let mut ok = true;
        while j < n.len()
            invariant
                lo <= hi <= v.len(),
                i + n.len() <= hi - lo,
                hay == v@.subrange(lo as int, hi as int),
                j <= n.len(),
                ok == (forall|m: int| 0 <= m < j ==> #[trigger] lower(hay[i + m]) == n@[m]),
            decreases n.len() - j,
        {
            assert(hay[i + j] == v@[lo + i + j]);
            if to_lower(v[lo + i + j]) != n[j] {
                ok = false;
            }
            j += 1;
        }
        if ok {
            assert(lower_match_at(hay, needle@, i as int));
            return true;
        }
        i += 1;
    }
    proof {
        assert forall|k: int|
            0 <= k && k + needle@.len() <= hay.len() implies !#[trigger] lower_match_at(
                hay,
                needle@,
                k,
            ) by {
            assert(k < i);
        }
    }
    false
}

/// Whether the file stem mentions Notion, in any ASCII case.
pub open spec fn notion_stem(p: Seq<char>) -> bool {
    match file_stem(p) {
        Some(s) => contains_lower(s, "notion"@),
        None => false,
    }
}

/// Importer for Notion JSON exports: JSON files whose name mentions Notion.
pub struct NotionJsonImporter;

impl NotionJsonImporter {
    pub fn new() -> (r: Self) {
        NotionJsonImporter
    }

    /// A `.json` file whose stem contains `notion` in any ASCII case.
    pub fn can_import(&self, path: &str) -> (b: bool)
        ensures
            b == (has_ext(path@, "json"@) && notion_stem(path@)),
    {
        if !path_has_ext(path, "json") {
            return false;
        }
        let v = to_chars(path);
        match stem_bounds(&v) {
            Some((a, b)) => range_contains_lower(&v, a, b, "notion"),
            None => false,
        }
    }

    pub fn supported_extensions(&self) -> (r: Vec<&'static str>)
        ensures
            strs_view(r@) == seq!["json"@],
    {
        let r = vec!["json"];
        assert(strs_view(r@) =~= seq!["json"@]);
        r
    }
}

/// Importer for text and HTML pasted from the clipboard; it reads no files.
pub struct ClipboardImporter;

impl ClipboardImporter {
    pub fn new() -> (r: Self) {
        ClipboardImporter
    }

    pub fn can_import(&self, path: &str) -> (b: bool)
        ensures
            !b,
    {
        false
    }

    pub fn supported_extensions(&self) -> (r: Vec<&'static str>)
        ensures
            r@.len() == 0,
    {
        Vec::new()
    }
}

/// Importer for an Obsidian vault: a directory of Markdown notes.
pub struct ObsidianVaultImporter;

impl ObsidianVaultImporter {
    pub fn new() -> (r: Self) {
        ObsidianVaultImporter
    }

    /// A vault is a directory: whether the path to import names one, as
    /// the file system answered (`is_directory`).
    pub fn can_import(&self, is_directory: bool) -> (b: bool)
        ensures
            b == is_directory,
    {
        is_directory
    }

    /// A vault holds many notes: importing it as one item is refused.
    pub fn import(&self, path: &str) -> (r: Result<ImportResult, ImportError>)
        ensures
            r matches Err(ImportError::Parse(m)) && m@
                == "Obsidian vault import creates multiple entities. Use import_vault() for multi-entity import."@,
    {
        Err(
            ImportError::Parse(
                "Obsidian vault import creates multiple entities. Use import_vault() for multi-entity import.".to_string(),
            ),
        )
    }

    pub fn supported_extensions(&self) -> (r: Vec<&'static str>)
        ensures
            r@.len() == 0,
    {
        Vec::new()
    }
}

/// Whether `path` is a web address.
pub open spec fn is_url(path: Seq<char>) -> bool {
    starts_with(path, "http://"@) || starts_with(path, "https://"@)
}

/// Whether `s` begins with `pre`.
pub fn str_starts_with(s: &str, pre: &str) -> (b: bool)
    ensures
        b == starts_with(s@, pre@),
{
    let v = to_chars(s);
    let p = to_chars(pre);
    if p.len() > v.len() {
        return false;
    }
    let mut i: usize = 0;
    while i < p.len()
        invariant
            p.len() <= v.len(),
            v@ == s@,
            p@ == pre@,
            i <= p.len(),
            forall|j: int| 0 <= j < i ==> v@[j] == p@[j],
        decreases p.len() - i,
    {
        if v[i] != p[i] {
            assert(v@.take(p.len() as int)[i as int] == v@[i as int]);
            assert(v@.take(p.len() as int)[i as int] != p@[i as int]);
            return false;
        }
        i += 1;
    }
    assert(v@.take(p.len() as int) =~= p@);
    true
}

/// Importer for web pages given by their URL.
pub struct UrlImporter;

impl UrlImporter {
    pub fn new() -> (r: Self) {
        UrlImporter
    }

    /// Whether `path` is an `http://` or `https://` address.
    pub fn can_import(&self, path: &str) -> (b: bool)
        ensures
            b == is_url(path@),
    {
        str_starts_with(path, "http://") || str_starts_with(path, "https://")
    }

    pub fn supported_extensions(&self) -> (r: Vec<&'static str>)
        ensures
            r@.len() == 0,
    {
        Vec::new()
    }
}

} // verus!
