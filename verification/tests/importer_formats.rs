use knowledge_os::importers::{
    CsvImporter, DocImporter, DocxImporter, EmlImporter, EnexImporter, HtmlImporter,
    JsonImporter, KeynoteImporter, MboxImporter, MsgImporter, NotionJsonImporter,
    NumbersImporter, ObsidianVaultImporter, OdgImporter, OdpImporter, OdsImporter, OdtImporter,
    OpmlImporter, OtpImporter, OtsImporter, OttImporter, PagesImporter, PdfImporter,
    PpsImporter, PptImporter, PptxImporter, UrlImporter, XlsImporter, XlsxImporter, XmlImporter,
    YamlImporter, ClipboardImporter,
};

#[test]
fn docx_test_can_import() {
    let importer = DocxImporter::new();
    assert!(importer.can_import("test.docx"));
    assert!(importer.can_import("test.DOCX"));
    assert!(!importer.can_import("test.txt"));
    assert!(!importer.can_import("test.pdf"));
}

#[test]
fn docx_test_supported_extensions() {
    let importer = DocxImporter::new();
    assert_eq!(importer.supported_extensions(), &["docx"]);
}

#[test]
fn test_eml_can_import() {
    let importer = EmlImporter::new();
    assert!(importer.can_import("test.eml"));
    assert!(importer.can_import("test.EML"));
    assert!(!importer.can_import("test.txt"));
}

#[test]
fn test_msg_can_import() {
    let importer = MsgImporter::new();
    assert!(importer.can_import("test.msg"));
    assert!(!importer.can_import("test.txt"));
}

#[test]
fn test_eml_supported_extensions() {
    let importer = EmlImporter::new();
    assert_eq!(importer.supported_extensions(), &["eml"]);
}

#[test]
fn test_msg_supported_extensions() {
    let importer = MsgImporter::new();
    assert_eq!(importer.supported_extensions(), &["msg"]);
}

#[test]
fn html_test_can_import() {
    let importer = HtmlImporter::new();
    assert!(importer.can_import("page.html"));
    assert!(importer.can_import("page.htm"));
    assert!(importer.can_import("page.HTML"));
    assert!(!importer.can_import("page.md"));
    assert!(!importer.can_import("page.pdf"));
}

#[test]
fn html_test_supported_extensions() {
    let importer = HtmlImporter::new();
    assert_eq!(importer.supported_extensions(), &["html", "htm"]);
}

#[test]
fn test_pages_can_import() {
    let importer = PagesImporter::new();
    assert!(importer.can_import("test.pages"));
    assert!(importer.can_import("test.PAGES"));
    assert!(!importer.can_import("test.pdf"));
}

#[test]
fn test_numbers_can_import() {
    let importer = NumbersImporter::new();
    assert!(importer.can_import("test.numbers"));
    assert!(!importer.can_import("test.pdf"));
}

#[test]
fn test_keynote_can_import() {
    let importer = KeynoteImporter::new();
    assert!(importer.can_import("test.key"));
    assert!(!importer.can_import("test.pdf"));
}

#[test]
fn test_iwork_supported_extensions() {
    assert_eq!(PagesImporter::new().supported_extensions(), &["pages"]);
    assert_eq!(NumbersImporter::new().supported_extensions(), &["numbers"]);
    assert_eq!(KeynoteImporter::new().supported_extensions(), &["key"]);
}

#[test]
fn test_iwork_unsupported_format() {
    let importer = PagesImporter::new();
    assert!(!importer.can_import("test.txt"));
}

#[test]
fn test_doc_unsupported() {
    let importer = DocImporter::new();
    assert!(importer.can_import("test.doc"));
    assert!(!importer.can_import("test.docx"));
}

#[test]
fn test_ppt_unsupported() {
    let importer = PptImporter::new();
    assert!(importer.can_import("test.ppt"));
    assert!(!importer.can_import("test.pptx"));
}

#[test]
fn test_pps_unsupported() {
    let importer = PpsImporter::new();
    assert!(importer.can_import("test.pps"));
    assert!(!importer.can_import("test.pptx"));
}

#[test]
fn test_xls_supported() {
    let importer = XlsImporter::new();
    assert!(importer.can_import("test.xls"));
    assert!(!importer.can_import("test.xlsx"));
}

#[test]
fn mbox_test_can_import() {
    let importer = MboxImporter::new();
    assert!(importer.can_import("test.mbox"));
    assert!(!importer.can_import("test.txt"));
}

#[test]
fn mbox_test_supported_extensions() {
    let importer = MboxImporter::new();
    assert_eq!(importer.supported_extensions(), &["mbox"]);
}

#[test]
fn test_enex_can_import() {
    let importer = EnexImporter::new();
    assert!(importer.can_import("test.enex"));
    assert!(!importer.can_import("test.txt"));
}

#[test]
fn test_opml_can_import() {
    let importer = OpmlImporter::new();
    assert!(importer.can_import("test.opml"));
    assert!(!importer.can_import("test.txt"));
}

#[test]
fn test_notion_can_import() {
    let importer = NotionJsonImporter::new();
    assert!(importer.can_import("notion_export.json"));
    assert!(!importer.can_import("test.json"));
}

#[test]
fn notion_name_in_any_case() {
    let importer = NotionJsonImporter::new();
    assert!(importer.can_import("exports/My-NOTION-pages.JSON"));
    assert!(!importer.can_import("notion_export.yaml"));
    assert!(!importer.can_import("notion/pages.json"));
}

#[test]
fn test_can_import_directory() {
    let importer = ObsidianVaultImporter::new();
    assert!(importer.can_import(std::path::Path::new("/tmp").is_dir()));
    assert!(!importer.can_import(std::path::Path::new("nonexistent.md").is_dir()));
}

#[test]
fn test_odt_can_import() {
    let importer = OdtImporter::new();
    assert!(importer.can_import("test.odt"));
    assert!(importer.can_import("test.ODT"));
    assert!(!importer.can_import("test.pdf"));
}

#[test]
fn test_odt_supported_extensions() {
    let importer = OdtImporter::new();
    assert_eq!(importer.supported_extensions(), &["odt", "ott"]);
}

#[test]
fn test_ods_can_import() {
    let importer = OdsImporter::new();
    assert!(importer.can_import("test.ods"));
    assert!(!importer.can_import("test.pdf"));
}

#[test]
fn test_odp_can_import() {
    let importer = OdpImporter::new();
    assert!(importer.can_import("test.odp"));
    assert!(!importer.can_import("test.pdf"));
}

#[test]
fn test_ott_treated_as_odt_template() {
    let importer = OdtImporter::new();
    assert!(importer.can_import("test.ott"));
    let importer_ott = OttImporter::new();
    assert!(importer_ott.can_import("test.ott"));
}

#[test]
fn test_odf_unsupported_format() {
    let importer = OdtImporter::new();
    assert!(!importer.can_import("test.txt"));
}

#[test]
fn odf_templates_and_drawings() {
    assert!(OtsImporter::new().can_import("sheet.OTS"));
    assert!(OtpImporter::new().can_import("deck.otp"));
    assert!(OdgImporter::new().can_import("figure.odg"));
    assert!(OdsImporter::new().can_import("sheet.ots"));
    assert!(OdpImporter::new().can_import("deck.otp"));
    assert!(!OdgImporter::new().can_import("figure.odt"));
}

#[test]
fn test_pdf_adapter_can_import() {
    let adapter = PdfImporter::new();
    assert!(adapter.can_import("test.pdf"));
    assert!(adapter.can_import("test.PDF"));
    assert!(!adapter.can_import("test.md"));
    assert!(!adapter.can_import("test.txt"));
}

#[test]
fn test_pdf_supported_extensions() {
    let adapter = PdfImporter::new();
    assert_eq!(adapter.supported_extensions(), &["pdf"]);
}

#[test]
fn pptx_test_can_import() {
    let importer = PptxImporter::new();
    assert!(importer.can_import("test.pptx"));
    assert!(importer.can_import("test.PPTX"));
    assert!(!importer.can_import("test.txt"));
}

#[test]
fn pptx_test_supported_extensions() {
    let importer = PptxImporter::new();
    assert_eq!(importer.supported_extensions(), &["pptx"]);
}

#[test]
fn test_csv_can_import() {
    let importer = CsvImporter::new();
    assert!(importer.can_import("test.csv"));
    assert!(!importer.can_import("test.txt"));
}

#[test]
fn test_json_can_import() {
    let importer = JsonImporter::new();
    assert!(importer.can_import("test.json"));
    assert!(!importer.can_import("test.txt"));
}

#[test]
fn test_xml_can_import() {
    let importer = XmlImporter::new();
    assert!(importer.can_import("test.xml"));
    assert!(!importer.can_import("test.txt"));
}

#[test]
fn test_yaml_can_import() {
    let importer = YamlImporter::new();
    assert!(importer.can_import("test.yaml"));
    assert!(importer.can_import("test.yml"));
    assert!(!importer.can_import("test.txt"));
}

#[test]
fn xlsx_test_can_import() {
    let importer = XlsxImporter::new();
    assert!(importer.can_import("test.xlsx"));
    assert!(importer.can_import("test.XLSX"));
    assert!(importer.can_import("test.xls"));
    assert!(importer.can_import("test.xlsm"));
    assert!(!importer.can_import("test.txt"));
}

#[test]
fn xlsx_test_supported_extensions() {
    let importer = XlsxImporter::new();
    assert_eq!(importer.supported_extensions(), &["xlsx", "xls", "xlsm"]);
}

#[test]
fn extension_edge_cases() {
    let importer = PdfImporter::new();
    assert!(importer.can_import("dir.v2/report.pdf"));
    assert!(importer.can_import("archive.tar.pdf"));
    assert!(importer.can_import("/abs/path/report.pdf/"));
    assert!(!importer.can_import(".pdf"));
    assert!(!importer.can_import("pdf"));
    assert!(!importer.can_import("report.pdf/.."));
    assert!(!importer.can_import(""));
}

#[test]
fn url_and_clipboard_can_import() {
    let importer = UrlImporter::new();
    assert!(importer.can_import("https://example.com"));
    assert!(importer.can_import("http://example.com/page"));
    assert!(!importer.can_import("file.md"));
    assert!(importer.supported_extensions().is_empty());
    assert!(!ClipboardImporter::new().can_import("notes.txt"));
    assert!(ClipboardImporter::new().supported_extensions().is_empty());
}
