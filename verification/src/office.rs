//! Word documents and workbooks: the text of a document's runs and the
//! cells of a workbook's first sheet.

use vstd::prelude::*;
use calamine::{Data, Reader};
use docx_rs::{DocumentChild, ParagraphChild, RunChild};
use crate::clock::now_rfc3339;
use crate::documents::{article, document_outcome, make_article, ImportErrorV};
use crate::importers::{DocImporter, DocxImporter, PpsImporter, PptImporter, XlsImporter, XlsxImporter};
use crate::model::{ImportError, ImportResult, ResultV};
use crate::paths::{extension, extension_bounds, has_ext, path_has_ext};
use crate::text::{append_str, same_text, string_of, to_chars};

verus! {

/// A child of a paragraph: a run, with each of its children's text (`None`
/// for a child that is not text), or anything else.
pub enum DocInline {
    Run(Vec<Option<String>>),
    Other,
}

/// A child of a document body: a paragraph with its children, or anything else.
pub enum DocBlock {
    Paragraph(Vec<DocInline>),
    Other,
}

/// The mathematical value of a paragraph child.
pub enum DocInlineV {
    Run(Seq<Option<Seq<char>>>),
    Other,
}

/// The mathematical value of a body child.
pub enum DocBlockV {
    Paragraph(Seq<DocInlineV>),
    Other,
}

impl View for DocInline {
    type V = DocInlineV;

    open spec fn view(&self) -> DocInlineV {
        match self {
            DocInline::Run(t) => DocInlineV::Run(t@.map_values(|x: Option<String>| crate::model::opt_view(x))),
            DocInline::Other => DocInlineV::Other,
        }
    }
}

impl View for DocBlock {
    type V = DocBlockV;

    open spec fn view(&self) -> DocBlockV {
        match self {
            DocBlock::Paragraph(c) => DocBlockV::Paragraph(c@.map_values(|x: DocInline| x@)),
            DocBlock::Other => DocBlockV::Other,
        }
    }
}

/// The body of the Word document `bytes` as `docx_rs::read_docx` reads it,
/// or the reader's error.
pub uninterp spec fn docx_body(bytes: Seq<u8>) -> Result<Seq<DocBlockV>, Seq<char>>;

/// `docx_rs::read_docx`, its body's children converted one for one.
/// Claimed: the result is `docx_body` of `bytes`.
#[verifier::external_body]
fn read_docx_body(bytes: &[u8]) -> (r: Result<Vec<DocBlock>, String>)
    ensures
        match r {
            Ok(b) => docx_body(bytes@) == Ok::<Seq<DocBlockV>, Seq<char>>(b@.map_values(|x: DocBlock| x@)),
            Err(e) => docx_body(bytes@) == Err::<Seq<DocBlockV>, Seq<char>>(e@),
        },
{
    let doc = docx_rs::read_docx(bytes).map_err(|e| e.to_string())?;
    Ok(doc.document.children.into_iter().map(|c| match c {
        DocumentChild::Paragraph(p) => DocBlock::Paragraph(p.children.into_iter().map(|c| match c {
            ParagraphChild::Run(r) => DocInline::Run(r.children.into_iter().map(|c| match c {
                RunChild::Text(t) => Some(t.text),
                _ => None,
            }).collect()),
            _ => DocInline::Other,
        }).collect()),
        _ => DocBlock::Other,
    }).collect())
}

/// The text of a run's children: each text followed by a newline.
pub open spec fn run_text(c: Seq<Option<Seq<char>>>) -> Seq<char>
    decreases c.len(),
{
    if c.len() == 0 {
        Seq::empty()
    } else {
        run_text(c.drop_last()) + match c.last() {
            Some(t) => t.push('\n'),
            None => Seq::empty(),
        }
    }
}

/// The text of a paragraph's runs.
pub open spec fn paragraph_text(c: Seq<DocInlineV>) -> Seq<char>
    decreases c.len(),
{
    if c.len() == 0 {
        Seq::empty()
    } else {
        paragraph_text(c.drop_last()) + match c.last() {
            DocInlineV::Run(t) => run_text(t),
            DocInlineV::Other => Seq::empty(),
        }
    }
}

/// The text of a document body's paragraphs.
pub open spec fn body_text(b: Seq<DocBlockV>) -> Seq<char>
    decreases b.len(),
{
    if b.len() == 0 {
        Seq::empty()
    } else {
        body_text(b.drop_last()) + match b.last() {
            DocBlockV::Paragraph(c) => paragraph_text(c),
            DocBlockV::Other => Seq::empty(),
        }
    }
}

fn push_run_text(text: &mut String, run: &Vec<Option<String>>)
    ensures
        final(text)@ == old(text)@ + run_text(run@.map_values(|x: Option<String>| crate::model::opt_view(x))),
{
    let ghost rv = run@.map_values(|x: Option<String>| crate::model::opt_view(x));
    let ghost start = text@;
    let mut i: usize = 0;
    assert(rv.take(0) =~= Seq::<Option<Seq<char>>>::empty());
    assert(start + Seq::<char>::empty() =~= start);
    while i < run.len()
        invariant
            i <= run@.len(),
            rv == run@.map_values(|x: Option<String>| crate::model::opt_view(x)),
            text@ == start + run_text(rv.take(i as int)),
        decreases run@.len() - i,
    {
        proof {
            assert(rv.take(i + 1).drop_last() =~= rv.take(i as int));
            assert(rv.take(i + 1).last() == rv[i as int]);
        }
        match &run[i] {
            Some(t) => {
                append_str(text, t.as_str());
                text.push('\n');
            },
            None => {},
        }
        proof {
            assert(text@ =~= start + run_text(rv.take(i + 1)));
        }
        i += 1;
    }
    assert(rv.take(run@.len() as int) =~= rv);
}

fn push_paragraph_text(text: &mut String, p: &Vec<DocInline>)
    ensures
        final(text)@ == old(text)@ + paragraph_text(p@.map_values(|x: DocInline| x@)),
{
    let ghost pv = p@.map_values(|x: DocInline| x@);
    let ghost start = text@;
    let mut i: usize = 0;
    assert(pv.take(0) =~= Seq::<DocInlineV>::empty());
    assert(start + Seq::<char>::empty() =~= start);
    while i < p.len()
        invariant
            i <= p@.len(),
            pv == p@.map_values(|x: DocInline| x@),
            text@ == start + paragraph_text(pv.take(i as int)),
        decreases p@.len() - i,
    {
        proof {
            assert(pv.take(i + 1).drop_last() =~= pv.take(i as int));
            assert(pv.take(i + 1).last() == pv[i as int]);
        }
        match &p[i] {
            DocInline::Run(r) => push_run_text(text, r),
            DocInline::Other => {},
        }
        proof {
            assert(text@ =~= start + paragraph_text(pv.take(i + 1)));
        }
        i += 1;
    }
    assert(pv.take(p@.len() as int) =~= pv);
}

/// The text of a document body (see `body_text`).
fn docx_text(body: &Vec<DocBlock>) -> (r: String)
    ensures
        r@ == body_text(body@.map_values(|x: DocBlock| x@)),
{
    let ghost bv = body@.map_values(|x: DocBlock| x@);
    let mut text = String::new();
    let mut i: usize = 0;
    assert(bv.take(0) =~= Seq::<DocBlockV>::empty());
    while i < body.len()
        invariant
            i <= body@.len(),
            bv == body@.map_values(|x: DocBlock| x@),
            text@ == body_text(bv.take(i as int)),
        decreases body@.len() - i,
    {
        proof {
            assert(bv.take(i + 1).drop_last() =~= bv.take(i as int));
            assert(bv.take(i + 1).last() == bv[i as int]);
        }
        match &body[i] {
            DocBlock::Paragraph(p) => push_paragraph_text(&mut text, p),
            DocBlock::Other => {},
        }
        proof {
            assert(text@ =~= body_text(bv.take(i + 1)));
        }
        i += 1;
    }
    assert(bv.take(body@.len() as int) =~= bv);
    text
}

/// The article of a Word document, or the reader's error.
pub open spec fn docx_import(data: Seq<u8>, source: Seq<char>, t: Seq<char>) -> Result<ResultV, ImportErrorV> {
    match docx_body(data) {
        Err(e) => Err(ImportErrorV::Parse(e)),
        Ok(b) => Ok(article(source, body_text(b), "docx"@, t)),
    }
}

impl DocxImporter {
    /// The article of a Word document read from `source_path`: the text of
    /// each run of each paragraph, each followed by a newline.
    pub fn import_at(&self, data: &[u8], source_path: &str, imported_at: &str) -> (r: Result<ImportResult, ImportError>)
        ensures
            document_outcome(r, docx_import(data@, source_path@, imported_at@)),
    {
        match read_docx_body(data) {
            Err(e) => Err(ImportError::Parse(e)),
            Ok(body) => Ok(make_article(source_path, docx_text(&body), "docx", imported_at)),
        }
    }

    /// The article of a Word document, stamped with the current time.
    pub fn import(&self, data: &[u8], source_path: &str) -> (r: Result<ImportResult, ImportError>)
        ensures
            exists|t: Seq<char>| #[trigger] document_outcome(r, docx_import(data@, source_path@, t)),
    {
        let now = now_rfc3339();
        self.import_at(data, source_path, now.as_str())
    }
}

/// A cell of a worksheet: its value as text, or the debug form of an error value.
pub enum SheetCell {
    Text(String),
    Error(String),
}

/// The mathematical value of a cell.
pub enum SheetCellV {
    Text(Seq<char>),
    Error(Seq<char>),
}

impl View for SheetCell {
    type V = SheetCellV;

    open spec fn view(&self) -> SheetCellV {
        match self {
            SheetCell::Text(s) => SheetCellV::Text(s@),
            SheetCell::Error(e) => SheetCellV::Error(e@),
        }
    }
}

/// The mathematical value of the rows of a sheet.
pub open spec fn rows_view(rows: Seq<Vec<SheetCell>>) -> Seq<Seq<SheetCellV>> {
    rows.map_values(|r: Vec<SheetCell>| r@.map_values(|c: SheetCell| c@))
}

/// Whether a reading of a first sheet is the given one.
pub open spec fn sheet_outcome(
    r: Result<Option<Vec<Vec<SheetCell>>>, String>,
    want: Result<Option<Seq<Seq<SheetCellV>>>, Seq<char>>,
) -> bool {
    match r {
        Ok(Some(rows)) => want == Ok::<Option<Seq<Seq<SheetCellV>>>, Seq<char>>(Some(rows_view(rows@))),
        Ok(None) => want == Ok::<Option<Seq<Seq<SheetCellV>>>, Seq<char>>(None),
        Err(e) => want == Err::<Option<Seq<Seq<SheetCellV>>>, Seq<char>>(e@),
    }
}

/// The rows of cells of the first sheet of the workbook `data`, its format
/// detected from its content (tried as `xls`, `xlsx`, `xlsb`, then `ods`);
/// `None` when it has no sheet; or the error of opening it or of reading
/// the sheet.
pub uninterp spec fn first_sheet_cells(data: Seq<u8>) -> Result<Option<Seq<Seq<SheetCellV>>>, Seq<char>>;

/// `calamine::open_workbook_auto_from_rs`, then `worksheet_range` of the
/// first of its `sheet_names`, each cell by its `Display` form, or the
/// `Debug` form of an error value. Claimed: the result is
/// `first_sheet_cells` of `data`.
#[verifier::external_body]
fn first_sheet(data: &[u8]) -> (r: Result<Option<Vec<Vec<SheetCell>>>, String>)
    ensures
        sheet_outcome(r, first_sheet_cells(data@)),
{
    let mut wb = calamine::open_workbook_auto_from_rs(std::io::Cursor::new(data.to_vec())).map_err(|e| e.to_string())?;
    let Some(name) = wb.sheet_names().first().cloned() else { return Ok(None) };
    let range = wb.worksheet_range(&name).map_err(|e| e.to_string())?;
    Ok(Some(range.rows().map(|row| row.iter().map(|c| match c {
        Data::Error(e) => SheetCell::Error(format!("{:?}", e)),
        other => SheetCell::Text(other.to_string()),
    }).collect()).collect()))
}

/// The rows of cells of the first sheet of `data` read as an Excel 97-2003 workbook
/// (`calamine::Xls`); `None` when it has no sheet; or the error of
/// opening it or of reading the sheet, as calamine's `Error::Xls` writes it.
pub uninterp spec fn xls_sheet_cells(data: Seq<u8>) -> Result<Option<Seq<Seq<SheetCellV>>>, Seq<char>>;

/// `calamine::open_workbook_from_rs` as `Xls`, then `worksheet_range` of
/// the first of its `sheet_names`, each cell by its `Display` form, or the
/// `Debug` form of an error value; errors through `calamine::Error::Xls`.
/// Claimed: the result is `xls_sheet_cells` of `data`.
#[verifier::external_body]
fn xls_sheet(data: &[u8]) -> (r: Result<Option<Vec<Vec<SheetCell>>>, String>)
    ensures
        sheet_outcome(r, xls_sheet_cells(data@)),
{
    let mut wb: calamine::Xls<_> = calamine::open_workbook_from_rs(std::io::Cursor::new(data.to_vec()))
        .map_err(|e| calamine::Error::Xls(e).to_string())?;
    let Some(name) = wb.sheet_names().first().cloned() else { return Ok(None) };
    let range = wb.worksheet_range(&name).map_err(|e| calamine::Error::Xls(e).to_string())?;
    Ok(Some(range.rows().map(|row| row.iter().map(|c| match c {
        Data::Error(e) => SheetCell::Error(format!("{:?}", e)),
        other => SheetCell::Text(other.to_string()),
    }).collect()).collect()))
}

/// The rows of cells of the first sheet of `data` read as an Office Open XML workbook
/// (`calamine::Xlsx`); `None` when it has no sheet; or the error of
/// opening it or of reading the sheet, as calamine's `Error::Xlsx` writes it.
pub uninterp spec fn xlsx_sheet_cells(data: Seq<u8>) -> Result<Option<Seq<Seq<SheetCellV>>>, Seq<char>>;

/// `calamine::open_workbook_from_rs` as `Xlsx`, then `worksheet_range` of
/// the first of its `sheet_names`, each cell by its `Display` form, or the
/// `Debug` form of an error value; errors through `calamine::Error::Xlsx`.
/// Claimed: the result is `xlsx_sheet_cells` of `data`.
#[verifier::external_body]
fn xlsx_sheet(data: &[u8]) -> (r: Result<Option<Vec<Vec<SheetCell>>>, String>)
    ensures
        sheet_outcome(r, xlsx_sheet_cells(data@)),
{
    let mut wb: calamine::Xlsx<_> = calamine::open_workbook_from_rs(std::io::Cursor::new(data.to_vec()))
        .map_err(|e| calamine::Error::Xlsx(e).to_string())?;
    let Some(name) = wb.sheet_names().first().cloned() else { return Ok(None) };
    let range = wb.worksheet_range(&name).map_err(|e| calamine::Error::Xlsx(e).to_string())?;
    Ok(Some(range.rows().map(|row| row.iter().map(|c| match c {
        Data::Error(e) => SheetCell::Error(format!("{:?}", e)),
        other => SheetCell::Text(other.to_string()),
    }).collect()).collect()))
}

/// The rows of cells of the first sheet of `data` read as a binary Excel workbook
/// (`calamine::Xlsb`); `None` when it has no sheet; or the error of
/// opening it or of reading the sheet, as calamine's `Error::Xlsb` writes it.
pub uninterp spec fn xlsb_sheet_cells(data: Seq<u8>) -> Result<Option<Seq<Seq<SheetCellV>>>, Seq<char>>;

/// `calamine::open_workbook_from_rs` as `Xlsb`, then `worksheet_range` of
/// the first of its `sheet_names`, each cell by its `Display` form, or the
/// `Debug` form of an error value; errors through `calamine::Error::Xlsb`.
/// Claimed: the result is `xlsb_sheet_cells` of `data`.
#[verifier::external_body]
fn xlsb_sheet(data: &[u8]) -> (r: Result<Option<Vec<Vec<SheetCell>>>, String>)
    ensures
        sheet_outcome(r, xlsb_sheet_cells(data@)),
{
    let mut wb: calamine::Xlsb<_> = calamine::open_workbook_from_rs(std::io::Cursor::new(data.to_vec()))
        .map_err(|e| calamine::Error::Xlsb(e).to_string())?;
    let Some(name) = wb.sheet_names().first().cloned() else { return Ok(None) };
    let range = wb.worksheet_range(&name).map_err(|e| calamine::Error::Xlsb(e).to_string())?;
    Ok(Some(range.rows().map(|row| row.iter().map(|c| match c {
        Data::Error(e) => SheetCell::Error(format!("{:?}", e)),
        other => SheetCell::Text(other.to_string()),
    }).collect()).collect()))
}

/// The rows of cells of the first sheet of `data` read as an OpenDocument spreadsheet
/// (`calamine::Ods`); `None` when it has no sheet; or the error of
/// opening it or of reading the sheet, as calamine's `Error::Ods` writes it.
pub uninterp spec fn ods_sheet_cells(data: Seq<u8>) -> Result<Option<Seq<Seq<SheetCellV>>>, Seq<char>>;

/// `calamine::open_workbook_from_rs` as `Ods`, then `worksheet_range` of
/// the first of its `sheet_names`, each cell by its `Display` form, or the
/// `Debug` form of an error value; errors through `calamine::Error::Ods`.
/// Claimed: the result is `ods_sheet_cells` of `data`.
#[verifier::external_body]
fn ods_sheet(data: &[u8]) -> (r: Result<Option<Vec<Vec<SheetCell>>>, String>)
    ensures
        sheet_outcome(r, ods_sheet_cells(data@)),
{
    let mut wb: calamine::Ods<_> = calamine::open_workbook_from_rs(std::io::Cursor::new(data.to_vec()))
        .map_err(|e| calamine::Error::Ods(e).to_string())?;
    let Some(name) = wb.sheet_names().first().cloned() else { return Ok(None) };
    let range = wb.worksheet_range(&name).map_err(|e| calamine::Error::Ods(e).to_string())?;
    Ok(Some(range.rows().map(|row| row.iter().map(|c| match c {
        Data::Error(e) => SheetCell::Error(format!("{:?}", e)),
        other => SheetCell::Text(other.to_string()),
    }).collect()).collect()))
}

/// The reader a workbook is opened with, chosen by the extension of its
/// path as written (`xls`/`xla`, `xlsx`/`xlsm`/`xlam`, `xlsb`, `ods`);
/// any other path has its format detected from the content.
pub open spec fn workbook_cells(data: Seq<u8>, source: Seq<char>) -> Result<Option<Seq<Seq<SheetCellV>>>, Seq<char>> {
    let e = extension(source);
    if e == Some("xls"@) || e == Some("xla"@) {
        xls_sheet_cells(data)
    } else if e == Some("xlsx"@) || e == Some("xlsm"@) || e == Some("xlam"@) {
        xlsx_sheet_cells(data)
    } else if e == Some("xlsb"@) {
        xlsb_sheet_cells(data)
    } else if e == Some("ods"@) {
        ods_sheet_cells(data)
    } else {
        first_sheet_cells(data)
    }
}

/// The first sheet of the workbook `data` read from `source` (see `workbook_cells`).
fn read_workbook(data: &[u8], source: &str) -> (r: Result<Option<Vec<Vec<SheetCell>>>, String>)
    ensures
        sheet_outcome(r, workbook_cells(data@, source@)),
{
    let v = to_chars(source);
    let ext = match extension_bounds(&v) {
        Some((a, e)) => string_of(&v, a, e),
        None => {
            assert(extension(source@) is None);
            return first_sheet(data);
        },
    };
    let x = ext.as_str();
    if same_text(x, "xls") || same_text(x, "xla") {
        xls_sheet(data)
    } else if same_text(x, "xlsx") || same_text(x, "xlsm") || same_text(x, "xlam") {
        xlsx_sheet(data)
    } else if same_text(x, "xlsb") {
        xlsb_sheet(data)
    } else if same_text(x, "ods") {
        ods_sheet(data)
    } else {
        first_sheet(data)
    }
}

/// The text of a cell: its value, or `ERROR:` and the error.
pub open spec fn cell_text(c: SheetCellV) -> Seq<char> {
    match c {
        SheetCellV::Text(s) => s,
        SheetCellV::Error(e) => "ERROR:"@ + e,
    }
}

/// The texts of the cells of a row, separated by tabs.
pub open spec fn row_line(cells: Seq<SheetCellV>) -> Seq<char>
    decreases cells.len(),
{
    if cells.len() == 0 {
        Seq::empty()
    } else if cells.len() == 1 {
        cell_text(cells[0])
    } else {
        row_line(cells.drop_last()) + "\t"@ + cell_text(cells.last())
    }
}

/// The lines of the rows of a sheet, each followed by a newline.
pub open spec fn sheet_text(rows: Seq<Seq<SheetCellV>>) -> Seq<char>
    decreases rows.len(),
{
    if rows.len() == 0 {
        Seq::empty()
    } else {
        sheet_text(rows.drop_last()) + row_line(rows.last()).push('\n')
    }
}

fn push_row_line(text: &mut String, row: &Vec<SheetCell>)
    ensures
        final(text)@ == old(text)@ + row_line(row@.map_values(|c: SheetCell| c@)),
{
    let ghost cv = row@.map_values(|c: SheetCell| c@);
    let ghost start = text@;
    let mut j: usize = 0;
    assert(cv.take(0) =~= Seq::<SheetCellV>::empty());
    assert(start + Seq::<char>::empty() =~= start);
    while j < row.len()
        invariant
            j <= row@.len(),
            cv == row@.map_values(|c: SheetCell| c@),
            text@ == start + row_line(cv.take(j as int)),
        decreases row@.len() - j,
    {
        proof {
            assert(cv.take(j + 1).drop_last() =~= cv.take(j as int));
            assert(cv.take(j + 1).last() == cv[j as int]);
            reveal_strlit("\t");
            reveal_strlit("ERROR:");
        }
        if j > 0 {
            text.push('\t');
        }
        match &row[j] {
            SheetCell::Text(s) => append_str(text, s.as_str()),
            SheetCell::Error(e) => {
                append_str(text, "ERROR:");
                append_str(text, e.as_str());
            },
        }
        proof {
            if j == 0 {
                assert(cv.take(1)[0] == cv[0]);
            }
            assert(text@ =~= start + row_line(cv.take(j + 1)));
        }
        j += 1;
    }
    assert(cv.take(row@.len() as int) =~= cv);
}

/// The text of the rows of a sheet (see `sheet_text`).
fn rows_text(rows: &Vec<Vec<SheetCell>>) -> (r: String)
    ensures
        r@ == sheet_text(rows_view(rows@)),
{
    let ghost rv = rows_view(rows@);
    let mut text = String::new();
    let mut i: usize = 0;
    assert(rv.take(0) =~= Seq::<Seq<SheetCellV>>::empty());
    while i < rows.len()
        invariant
            i <= rows@.len(),
            rv == rows_view(rows@),
            text@ == sheet_text(rv.take(i as int)),
        decreases rows@.len() - i,
    {
        proof {
            assert(rv.take(i + 1).drop_last() =~= rv.take(i as int));
            assert(rv.take(i + 1).last() == rv[i as int]);
        }
        push_row_line(&mut text, &rows[i]);
        text.push('\n');
        proof {
            assert(text@ =~= sheet_text(rv.take(i + 1)));
        }
        i += 1;
    }
    assert(rv.take(rows@.len() as int) =~= rv);
    text
}

/// The article of a workbook read from `source`, its text the first
/// sheet's rows (the reader chosen by the path, see `workbook_cells`); or
/// the error: the workbook or sheet could not be read, or it has no sheet.
pub open spec fn workbook_import(data: Seq<u8>, format: Seq<char>, source: Seq<char>, t: Seq<char>) -> Result<ResultV, ImportErrorV> {
    match workbook_cells(data, source) {
        Err(e) => Err(ImportErrorV::Parse(e)),
        Ok(None) => Err(ImportErrorV::Parse("workbook has no sheets"@)),
        Ok(Some(rows)) => Ok(article(source, sheet_text(rows), format, t)),
    }
}

fn import_workbook(data: &[u8], format: &str, source: &str, t: &str) -> (r: Result<ImportResult, ImportError>)
    ensures
        document_outcome(r, workbook_import(data@, format@, source@, t@)),
{
    match read_workbook(data, source) {
        Err(e) => Err(ImportError::Parse(e)),
        Ok(None) => Err(ImportError::Parse("workbook has no sheets".to_string())),
        Ok(Some(rows)) => Ok(make_article(source, rows_text(&rows), format, t)),
    }
}

/// The format of a workbook named by its path: `xlsm` for a macro-enabled
/// workbook, else `xlsx`.
pub open spec fn workbook_format(source: Seq<char>) -> Seq<char> {
    if has_ext(source, "xlsm"@) {
        "xlsm"@
    } else {
        "xlsx"@
    }
}

impl XlsxImporter {
    /// The article of a workbook read from `source_path` (see `workbook_import`).
    pub fn import_at(&self, data: &[u8], source_path: &str, imported_at: &str) -> (r: Result<ImportResult, ImportError>)
        ensures
            document_outcome(r, workbook_import(data@, workbook_format(source_path@), source_path@, imported_at@)),
    {
        let format = if path_has_ext(source_path, "xlsm") { "xlsm" } else { "xlsx" };
        import_workbook(data, format, source_path, imported_at)
    }

    /// The article of a workbook, stamped with the current time.
    pub fn import(&self, data: &[u8], source_path: &str) -> (r: Result<ImportResult, ImportError>)
        ensures
            exists|t: Seq<char>| #[trigger] document_outcome(
                r,
                workbook_import(data@, workbook_format(source_path@), source_path@, t),
            ),
    {
        let now = now_rfc3339();
        self.import_at(data, source_path, now.as_str())
    }
}

impl XlsImporter {
    /// The article of a legacy Excel workbook read from `source_path`.
    pub fn import_at(&self, data: &[u8], source_path: &str, imported_at: &str) -> (r: Result<ImportResult, ImportError>)
        ensures
            document_outcome(r, workbook_import(data@, "xls"@, source_path@, imported_at@)),
    {
        import_workbook(data, "xls", source_path, imported_at)
    }

    /// The article of a legacy Excel workbook, stamped with the current time.
    pub fn import(&self, data: &[u8], source_path: &str) -> (r: Result<ImportResult, ImportError>)
        ensures
            exists|t: Seq<char>| #[trigger] document_outcome(r, workbook_import(data@, "xls"@, source_path@, t)),
    {
        let now = now_rfc3339();
        self.import_at(data, source_path, now.as_str())
    }
}

impl DocImporter {
    /// Legacy Word documents are refused, with advice to convert them.
    pub fn import(&self, path: &str) -> (r: Result<ImportResult, ImportError>)
        ensures
            r matches Err(ImportError::UnsupportedFormat(m)) && m@
                == "Legacy .doc format is not supported. Please convert to .docx using Word, LibreOffice, or cloud services like Google Docs."@,
    {
        Err(
            ImportError::UnsupportedFormat(
                "Legacy .doc format is not supported. Please convert to .docx using Word, LibreOffice, or cloud services like Google Docs.".to_string(),
            ),
        )
    }
}

impl PptImporter {
    /// Legacy PowerPoint presentations are refused, with advice to convert them.
    pub fn import(&self, path: &str) -> (r: Result<ImportResult, ImportError>)
        ensures
            r matches Err(ImportError::UnsupportedFormat(m)) && m@
                == "Legacy .ppt format is not supported. Please convert to .pptx using PowerPoint, LibreOffice, or Google Slides."@,
    {
        Err(
            ImportError::UnsupportedFormat(
                "Legacy .ppt format is not supported. Please convert to .pptx using PowerPoint, LibreOffice, or Google Slides.".to_string(),
            ),
        )
    }
}

impl PpsImporter {
    /// Legacy PowerPoint shows are refused, with advice to convert them.
    pub fn import(&self, path: &str) -> (r: Result<ImportResult, ImportError>)
        ensures
            r matches Err(ImportError::UnsupportedFormat(m)) && m@
                == "Legacy .pps format is not supported. Please convert to .pptx using PowerPoint, LibreOffice, or Google Slides."@,
    {
        Err(
            ImportError::UnsupportedFormat(
                "Legacy .pps format is not supported. Please convert to .pptx using PowerPoint, LibreOffice, or Google Slides.".to_string(),
            ),
        )
    }
}

} // verus!
