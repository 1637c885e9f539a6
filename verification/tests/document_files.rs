use std::io::Write;

use knowledge_os::importers::{
    DocImporter, DocxImporter, KeynoteImporter, NumbersImporter, OdgImporter, OdsImporter,
    OdtImporter, PagesImporter, PpsImporter, PptImporter, PptxImporter, XlsImporter, XlsxImporter,
};
use knowledge_os::model::{Component, ComponentData, ComponentType, Field, ImportError, ImportResult, Scalar};

fn zip_of(entries: &[(&str, &[u8])]) -> Vec<u8> {
    let mut w = zip::ZipWriter::new(std::io::Cursor::new(Vec::new()));
    let opts = zip::write::SimpleFileOptions::default().compression_method(zip::CompressionMethod::Stored);
    for (name, data) in entries {
        w.start_file(*name, opts).unwrap();
        w.write_all(data).unwrap();
    }
    w.finish().unwrap().into_inner()
}

fn text_of(c: &Component) -> String {
    match &c.data {
        ComponentData::Text(s) => s.clone(),
        other => panic!("not text: {:?}", other),
    }
}

fn field(c: &Component, key: &str) -> Scalar {
    match &c.data {
        ComponentData::Object(fields) => fields.iter().find(|f: &&Field| f.key == key).unwrap().value.clone(),
        other => panic!("not an object: {:?}", other),
    }
}

fn check_article(r: &ImportResult, title: &str, content: &str, source: &str, format: &str, at: &str) {
    assert_eq!(r.entity.entity_type, "Article");
    assert_eq!(r.components.len(), 3);
    assert_eq!(r.components[0].component_type, ComponentType::Title);
    assert_eq!(text_of(&r.components[0]), title);
    assert_eq!(r.components[1].component_type, ComponentType::Content);
    assert_eq!(text_of(&r.components[1]), content);
    assert_eq!(r.components[2].component_type, ComponentType::Provenance);
    assert_eq!(field(&r.components[2], "source"), Scalar::Text(source.to_string()));
    assert_eq!(field(&r.components[2], "imported_at"), Scalar::Text(at.to_string()));
    assert_eq!(field(&r.components[2], "format"), Scalar::Text(format.to_string()));
    assert!(r.cross_references.is_empty());
}

fn parse_message(r: Result<ImportResult, ImportError>) -> String {
    match r {
        Err(ImportError::Parse(m)) => m,
        other => panic!("expected a parse error, got {:?}", other),
    }
}

const AT: &str = "2024-01-01T00:00:00+00:00";

#[test]
fn odt_text_keeps_paragraphs_headings_and_spans() {
    let content = b"<office:document-content><office:body><office:text><text:h>Title</text:h><text:p>Hello <text:span>World</text:span></text:p><other>skip</other></office:text></office:body></office:document-content>";
    let data = zip_of(&[("content.xml", content)]);
    let r = OdtImporter::new().import_at(&data, "/docs/report.odt", AT).unwrap();
    check_article(&r, "report", "Title\nHello World\n", "/docs/report.odt", "odt", AT);
}

#[test]
fn odt_format_follows_the_extension_lower_cased() {
    let data = zip_of(&[("content.xml", b"<text:p>x</text:p>")]);
    let r = OdtImporter::new().import_at(&data, "/docs/Template.OTT", AT).unwrap();
    check_article(&r, "Template", "x\n", "/docs/Template.OTT", "ott", AT);
}

#[test]
fn ods_cells_are_tab_separated_rows() {
    let content = b"<table:table><table:table-row><table:table-cell><text:p>a</text:p></table:table-cell><table:table-cell><text:p>b &amp; c</text:p></table:table-cell></table:table-row><table:table-row><table:table-cell><text:p>d</text:p></table:table-cell></table:table-row></table:table>";
    let data = zip_of(&[("content.xml", content)]);
    let r = OdsImporter::new().import_at(&data, "sheet.ods", AT).unwrap();
    check_article(&r, "sheet", "a\tb & c\t\nd\t\n", "sheet.ods", "ods", AT);
}

#[test]
fn odf_errors() {
    let m = parse_message(OdtImporter::new().import_at(b"not a zip", "a.odt", AT));
    assert!(m.starts_with("not a valid ZIP/ODF: "));
    let m = parse_message(OdsImporter::new().import_at(b"not a zip", "a.ods", AT));
    assert!(m.starts_with("not a valid ZIP/ODS: "));
    let data = zip_of(&[("other.xml", b"<a/>")]);
    assert_eq!(parse_message(OdgImporter::new().import_at(&data, "a.odg", AT)), "missing content.xml");
}

#[test]
fn odg_format_is_fixed() {
    let data = zip_of(&[("content.xml", b"<text:p>drawn</text:p>")]);
    let r = OdgImporter::new().import_at(&data, "pic.ODG", AT).unwrap();
    check_article(&r, "pic", "drawn\n", "pic.ODG", "odg", AT);
}

#[test]
fn odt_import_stamps_the_current_time() {
    let data = zip_of(&[("content.xml", b"<text:p>x</text:p>")]);
    let r = OdtImporter::new().import(&data, "a.odt").unwrap();
    assert_eq!(text_of(&r.components[1]), "x\n");
}

#[test]
fn pages_index_xml_paragraphs() {
    let data = zip_of(&[("index.xml", b"<sf:document><sf:p>One <sf:span>two</sf:span> three</sf:p><sf:p>Four</sf:p></sf:document>")]);
    let r = PagesImporter::new().import_at(&data, "/x/Letter.pages", AT).unwrap();
    check_article(&r, "Letter", "One two\nFour\n", "/x/Letter.pages", "pages", AT);
}

#[test]
fn keynote_falls_back_to_document_iwa() {
    let data = zip_of(&[("Index/Document.iwa", b"<sf:p>Slide</sf:p>")]);
    let r = KeynoteImporter::new().import_at(&data, "deck.key", AT).unwrap();
    check_article(&r, "deck", "Slide\n", "deck.key", "keynote", AT);
}

#[test]
fn iwork_errors() {
    let data = zip_of(&[("Data/x.png", b"png")]);
    assert_eq!(
        parse_message(NumbersImporter::new().import_at(&data, "n.numbers", AT)),
        "missing index.xml or Document.iwa"
    );
    let m = parse_message(PagesImporter::new().import_at(b"plain", "p.pages", AT));
    assert!(m.starts_with("not a valid ZIP/iWork: "));
}

#[test]
fn pptx_slides_in_slide_order() {
    let data = zip_of(&[
        ("ppt/slides/slide10.xml", b"<p:sld><a:t>Ten</a:t></p:sld>"),
        ("ppt/slides/slide2.xml", b"<p:sld><a:t>Second</a:t></p:sld>"),
        ("ppt/presentation.xml", b"<p:presentation><a:t>not a slide</a:t></p:presentation>"),
        ("ppt/slides/slide1.xml", b"<p:sld><a:t>First</a:t><a:r>x</a:r><a:t>Again &lt;3</a:t></p:sld>"),
    ]);
    let r = PptxImporter::new().import_at(&data, "talk.pptx", AT).unwrap();
    check_article(
        &r,
        "talk",
        "--- Slide 1 ---\nFirst\nAgain <3\n--- Slide 2 ---\nSecond\n--- Slide 10 ---\nTen\n",
        "talk.pptx",
        "pptx",
        AT,
    );
}

#[test]
fn pptx_unnumbered_slide_counts_as_zero() {
    let data = zip_of(&[
        ("ppt/slides/slide3.xml", b"<a:t>three</a:t>"),
        ("ppt/slides/slideX.xml", b"<a:t>x</a:t>"),
    ]);
    let r = PptxImporter::new().import_at(&data, "t.pptx", AT).unwrap();
    assert_eq!(text_of(&r.components[1]), "--- Slide 0 ---\nx\n--- Slide 3 ---\nthree\n");
}

#[test]
fn pptx_errors() {
    let m = parse_message(PptxImporter::new().import_at(b"nope", "t.pptx", AT));
    assert!(m.starts_with("not a valid ZIP/PPTX: "));
    let data = zip_of(&[("ppt/slides/slide1.xml", b"<a:t>open</b>")]);
    let m = parse_message(PptxImporter::new().import_at(&data, "t.pptx", AT));
    assert!(m.starts_with("XML error: "));
}

#[test]
fn docx_runs_each_on_a_line() {
    let mut buf = std::io::Cursor::new(Vec::new());
    docx_rs::Docx::new()
        .add_paragraph(
            docx_rs::Paragraph::new()
                .add_run(docx_rs::Run::new().add_text("Hello"))
                .add_run(docx_rs::Run::new().add_text("World")),
        )
        .add_paragraph(docx_rs::Paragraph::new().add_run(docx_rs::Run::new().add_text("Bye")))
        .build()
        .pack(&mut buf)
        .unwrap();
    let r = DocxImporter::new().import_at(buf.get_ref(), "/d/Memo.docx", AT).unwrap();
    check_article(&r, "Memo", "Hello\nWorld\nBye\n", "/d/Memo.docx", "docx", AT);
}

#[test]
fn docx_error_is_a_parse_error() {
    assert!(matches!(DocxImporter::new().import_at(b"garbage", "m.docx", AT), Err(ImportError::Parse(_))));
}

fn ods_workbook(tables: &str) -> Vec<u8> {
    let content = format!(
        "<office:document-content xmlns:office=\"urn:oasis:names:tc:opendocument:xmlns:office:1.0\" xmlns:table=\"urn:oasis:names:tc:opendocument:xmlns:table:1.0\" xmlns:text=\"urn:oasis:names:tc:opendocument:xmlns:text:1.0\"><office:body><office:spreadsheet>{}</office:spreadsheet></office:body></office:document-content>",
        tables
    );
    zip_of(&[
        ("mimetype", b"application/vnd.oasis.opendocument.spreadsheet"),
        ("META-INF/manifest.xml", b"<manifest:manifest></manifest:manifest>"),
        ("content.xml", content.as_bytes()),
    ])
}

#[test]
fn workbook_first_sheet_rows() {
    let data = ods_workbook(
        "<table:table table:name=\"S1\"><table:table-row><table:table-cell office:value-type=\"string\"><text:p>a</text:p></table:table-cell><table:table-cell office:value-type=\"string\"><text:p>b</text:p></table:table-cell></table:table-row><table:table-row><table:table-cell office:value-type=\"string\"><text:p>c</text:p></table:table-cell><table:table-cell office:value-type=\"string\"><text:p>d</text:p></table:table-cell></table:table-row></table:table>",
    );
    let r = XlsxImporter::new().import_at(&data, "/w/Book.ods", AT).unwrap();
    check_article(&r, "Book", "a\tb\nc\td\n", "/w/Book.ods", "xlsx", AT);
    let r = XlsxImporter::new().import_at(&data, "/w/Book", AT).unwrap();
    check_article(&r, "Book", "a\tb\nc\td\n", "/w/Book", "xlsx", AT);
    let r = XlsImporter::new().import_at(&data, "old.ODS", AT).unwrap();
    check_article(&r, "old", "a\tb\nc\td\n", "old.ODS", "xls", AT);
}

#[test]
fn workbook_reader_follows_the_extension() {
    let data = ods_workbook("<table:table table:name=\"S1\"></table:table>");
    assert!(parse_message(XlsxImporter::new().import_at(&data, "/w/Book.xlsm", AT)).starts_with("Xlsx error: "));
    assert!(parse_message(XlsxImporter::new().import_at(&data, "/w/Book.xlsx", AT)).starts_with("Xlsx error: "));
    assert!(parse_message(XlsImporter::new().import_at(&data, "old.xls", AT)).starts_with("Xls error: "));
    assert!(parse_message(XlsImporter::new().import_at(&data, "old.xlsb", AT)).starts_with("Xlsb error: "));
}

#[test]
fn workbook_without_sheets() {
    let data = ods_workbook("");
    assert_eq!(parse_message(XlsxImporter::new().import_at(&data, "e.ods", AT)), "workbook has no sheets");
}

#[test]
fn workbook_that_cannot_be_read() {
    assert!(matches!(XlsImporter::new().import_at(b"garbage", "g.xls", AT), Err(ImportError::Parse(_))));
}

#[test]
fn test_legacy_doc_import_returns_unsupported() {
    let importer = DocImporter::new();
    let result = importer.import("test.doc");
    assert!(result.is_err());
    match result.unwrap_err() {
        ImportError::UnsupportedFormat(msg) => assert!(msg.contains("convert")),
        _ => panic!("Expected UnsupportedFormat error"),
    }
}

#[test]
fn test_legacy_ppt_import_returns_unsupported() {
    let importer = PptImporter::new();
    let result = importer.import("test.ppt");
    assert!(result.is_err());
    match result.unwrap_err() {
        ImportError::UnsupportedFormat(msg) => assert!(msg.contains("convert")),
        _ => panic!("Expected UnsupportedFormat error"),
    }
}

#[test]
fn legacy_pps_import_returns_unsupported() {
    match PpsImporter::new().import("show.pps") {
        Err(ImportError::UnsupportedFormat(msg)) => assert_eq!(
            msg,
            "Legacy .pps format is not supported. Please convert to .pptx using PowerPoint, LibreOffice, or Google Slides."
        ),
        other => panic!("unexpected {:?}", other),
    }
}
