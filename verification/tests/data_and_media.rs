use knowledge_os::adapters::{
    html_plugin, image_plugin, pdf_plugin, safe_call_outcome, url_plugin, PluginAdapter, PluginCall,
    PluginMetadata,
};
use knowledge_os::database::{
    column_schemas, connection_info, count_query, preview_query, row_values, sqlite_connect_string,
    table_info, table_preview, DatabaseError, DbColumnValue, MySqlDatabaseSource,
    PostgresDatabaseSource, SqliteDatabaseSource,
};
use knowledge_os::images::{mime_for_extension, ImageImporter};
use knowledge_os::importers::{
    JsonImporter, NotionJsonImporter, ObsidianVaultImporter, PdfImporter, UrlImporter, XmlImporter,
    YamlImporter,
};
use knowledge_os::model::{Component, ComponentData, ComponentType, Field, ImportError, ImportResult, Scalar};
use knowledge_os::registry::{Plugin, PluginError};

const AT: &str = "2024-01-01T00:00:00+00:00";

fn find(result: &ImportResult, t: ComponentType) -> &Component {
    result.components.iter().find(|c| c.component_type == t).unwrap()
}

fn text_of(c: &Component) -> String {
    match &c.data {
        ComponentData::Text(s) => s.clone(),
        other => panic!("not text: {:?}", other),
    }
}

fn field(c: &Component, key: &str) -> Scalar {
    match &c.data {
        ComponentData::Object(fields) => fields.iter().find(|f: &&Field| f.key == key).unwrap().value.clone(),
        other => panic!("not an object: {:?}", other),
    }
}

fn minimal_pdf(content: &str) -> Vec<u8> {
    format!(
        "%PDF-1.4\n1 0 obj\n<< /Type /Catalog /Pages 2 0 R >>\nendobj\n\n2 0 obj\n<< /Type /Pages /Kids [3 0 R] /Count 1 >>\nendobj\n\n3 0 obj\n<< /Type /Page /Parent 2 0 R /MediaBox [0 0 612 792] /Contents 4 0 R /Resources << /Font << /F1 5 0 R >> >> >>\nendobj\n\n4 0 obj\n<< /Length 44 >>\nstream\nBT /F1 12 Tf 100 700 Td ({}) Tj ET\nendstream\nendobj\n\n5 0 obj\n<< /Type /Font /Subtype /Type1 /BaseFont /Helvetica >>\nendobj\n\nxref\n0 6\n0000000000 65535 f \n0000000009 00000 n \n0000000058 00000 n \n0000000115 00000 n \n0000000266 00000 n \n0000000340 00000 n \n\ntrailer\n<< /Size 6 /Root 1 0 R >>\nstartxref\n409\n%%EOF",
        content
    )
    .into_bytes()
}

#[test]
fn test_pdf_import_basic() {
    let data = minimal_pdf("Hello World");
    let adapter = PdfImporter::new();
    let result = adapter.import_at(&data, "/tmp/Test PDF.pdf", 512, "2023-05-01T00:00:00+00:00", AT).unwrap();
    assert_eq!(result.entity.entity_type, "Article");
    let title = find(&result, ComponentType::Title);
    assert!(matches!(title.data, ComponentData::Text(_)));
    let binary = find(&result, ComponentType::BinaryContent);
    assert_eq!(field(binary, "mime_type"), Scalar::Text("application/pdf".to_string()));
    assert_eq!(field(binary, "size"), Scalar::Number(512));
    assert_eq!(field(binary, "reference"), Scalar::Text("/tmp/Test PDF.pdf".to_string()));
    let provenance = find(&result, ComponentType::Provenance);
    assert_eq!(field(provenance, "format"), Scalar::Text("pdf".to_string()));
    assert_eq!(text_of(find(&result, ComponentType::Language)), "en");
    let timeline = find(&result, ComponentType::Timeline);
    assert_eq!(field(timeline, "imported_at"), Scalar::Text(AT.to_string()));
}

#[test]
fn pdf_that_cannot_be_read() {
    let r = PdfImporter::new().import_at(b"not a pdf", "x.pdf", 9, AT, AT);
    assert!(matches!(r, Err(ImportError::Parse(_))));
}

#[test]
fn json_content_is_compact() {
    let r = JsonImporter::new().import_at("{ \"items\" : [ { \"name\" : \"test\" } ] }", "/d/data.json", AT).unwrap();
    assert_eq!(r.entity.entity_type, "Article");
    assert_eq!(text_of(&r.components[0]), "data");
    assert_eq!(text_of(&r.components[1]), "{\"items\":[{\"name\":\"test\"}]}");
    assert_eq!(field(&r.components[2], "format"), Scalar::Text("json".to_string()));
}

#[test]
fn test_json_array_imports_objects() {
    let json = r#"{"items":[{"name":"test"}]}"#;
    let importer = JsonImporter::new();
    let result = importer.import(json, "/tmp/items.json").unwrap();
    assert_eq!(result.entity.entity_type, "Article");
}

#[test]
fn json_parse_error() {
    assert!(matches!(JsonImporter::new().import_at("{oops", "a.json", AT), Err(ImportError::Parse(_))));
}

#[test]
fn test_yaml_imports_mapping() {
    let yaml = "name: test\nvalue: 123\n";
    let importer = YamlImporter::new();
    let result = importer.import(yaml, "/tmp/conf.yaml").unwrap();
    assert_eq!(result.entity.entity_type, "Article");
}

#[test]
fn yaml_content_is_the_debug_form() {
    let r = YamlImporter::new().import_at("a: 1\n", "c.yml", AT).unwrap();
    let v: serde_yaml::Value = serde_yaml::from_str("a: 1\n").unwrap();
    assert_eq!(text_of(&r.components[1]), format!("{:?}", v));
    assert_eq!(field(&r.components[2], "format"), Scalar::Text("yaml".to_string()));
    assert!(matches!(YamlImporter::new().import_at("a: [1", "c.yml", AT), Err(ImportError::Parse(_))));
}

#[test]
fn xml_renders_tags_and_text() {
    let r = XmlImporter::new().import_at("<?xml version=\"1.0\"?><root><a>x &amp; y</a><b/>tail</root>", "/x/doc.xml", AT);
    assert_eq!(text_of(&r.components[0]), "doc");
    assert_eq!(text_of(&r.components[1]), "<root><a>x & y </a>\n</root>\n");
    assert_eq!(field(&r.components[2], "format"), Scalar::Text("xml".to_string()));
}

#[test]
fn test_notion_imports_pages() {
    let notion = r#"{
  "object": "page",
  "id": "abc123",
  "properties": {
    "title": {
      "title": [
        { "plain_text": "My Notion Page" }
      ]
    }
  }
}"#;
    let importer = NotionJsonImporter::new();
    let result = importer.import(notion, "/tmp/notion_export.json").unwrap();
    let title = find(&result, ComponentType::Title);
    assert_eq!(text_of(title), "My Notion Page");
}

#[test]
fn notion_title_falls_back_to_id_then_untitled() {
    let r = NotionJsonImporter::new().import_at("[{\"id\": \"p1\"}, {\"id\": \"p2\"}]", "notion.json", AT).unwrap();
    assert_eq!(r.entity.entity_type, "Page");
    assert_eq!(text_of(&r.components[0]), "p1");
    assert_eq!(text_of(&r.components[1]), "[{\"id\":\"p1\"},{\"id\":\"p2\"}]");
    assert_eq!(field(&r.components[2], "format"), Scalar::Text("notion".to_string()));
    let r = NotionJsonImporter::new().import_at("{\"id\": 7}", "notion.json", AT).unwrap();
    assert_eq!(text_of(&r.components[0]), "Untitled");
}

#[test]
fn notion_errors() {
    match NotionJsonImporter::new().import_at("[]", "notion.json", AT) {
        Err(ImportError::Parse(m)) => assert_eq!(m, "No pages found in Notion JSON"),
        other => panic!("unexpected {:?}", other),
    }
    match NotionJsonImporter::new().import_at("42", "notion.json", AT) {
        Err(ImportError::Parse(m)) => assert_eq!(m, "Notion JSON must be an object or array"),
        other => panic!("unexpected {:?}", other),
    }
}

#[test]
fn obsidian_single_import_is_refused() {
    match ObsidianVaultImporter::new().import("/vault") {
        Err(ImportError::Parse(m)) => assert!(m.contains("import_vault()")),
        other => panic!("unexpected {:?}", other),
    }
}

#[test]
fn image_mime_types() {
    assert_eq!(mime_for_extension("a.PNG"), Some("image/png".to_string()));
    assert_eq!(mime_for_extension("a.jpeg"), Some("image/jpeg".to_string()));
    assert_eq!(mime_for_extension("a.jpg"), Some("image/jpeg".to_string()));
    assert_eq!(mime_for_extension("a.gif"), Some("image/gif".to_string()));
    assert_eq!(mime_for_extension("a.bmp"), Some("image/bmp".to_string()));
    assert_eq!(mime_for_extension("a.tiff"), None);
}

#[test]
fn image_import_without_ocr() {
    let r = ImageImporter::new().import_at(&[1, 2, 3], "/p/photo.png", Some(Ok("ignored".to_string())), AT).unwrap();
    assert_eq!(r.entity.entity_type, "Image");
    assert_eq!(r.components.len(), 3);
    assert_eq!(text_of(&r.components[0]), "photo");
    assert_eq!(field(&r.components[1], "mime_type"), Scalar::Text("image/png".to_string()));
    assert_eq!(field(&r.components[1], "size"), Scalar::Number(3));
    assert_eq!(field(&r.components[2], "format"), Scalar::Text("image".to_string()));
}

#[test]
fn image_import_with_ocr() {
    let r = ImageImporter::with_ocr().import_at(&[0; 10], "scan.jpg", Some(Ok("OCR extracted text".to_string())), AT).unwrap();
    let content = find(&r, ComponentType::Content);
    assert_eq!(field(content, "markdown"), Scalar::Text("OCR extracted text".to_string()));
    let r = ImageImporter::with_ocr().import_at(&[0; 10], "scan.jpg", Some(Err("down".to_string())), AT).unwrap();
    assert!(r.components.iter().all(|c| c.component_type != ComponentType::Content));
}

#[test]
fn image_of_unknown_type_is_refused() {
    match ImageImporter::new().import_at(&[1], "a.tiff", None, AT) {
        Err(ImportError::UnsupportedFormat(m)) => assert_eq!(m, "unknown image mime type"),
        other => panic!("unexpected {:?}", other),
    }
}

#[test]
fn image_importer_lists_its_extensions() {
    let i = ImageImporter::new();
    assert_eq!(i.supported_extensions(), vec!["png", "jpg", "jpeg", "gif", "bmp"]);
    assert!(i.can_import("x.JPG"));
    assert!(!i.can_import("x.pdf"));
    assert_eq!(i.manifest().name, "image-importer");
}

#[test]
fn database_queries_and_names() {
    assert_eq!(sqlite_connect_string("/tmp/kos.db"), "sqlite:////tmp/kos.db?mode=rwc");
    assert_eq!(count_query("test"), "SELECT COUNT(*) FROM \"test\"");
    assert_eq!(preview_query("test"), "SELECT * FROM \"test\" LIMIT ?");
    let s = SqliteDatabaseSource::new("/tmp/data/kos.db".to_string());
    assert_eq!(s.connect_string(), "sqlite:////tmp/data/kos.db?mode=rwc");
    assert_eq!(s.database_name(), "kos.db");
    assert_eq!(PostgresDatabaseSource::new("postgres://h/db".to_string()).database_name(), "postgres");
    assert_eq!(MySqlDatabaseSource::new("mysql://h/db".to_string()).database_name(), "mysql");
}

#[test]
fn database_records() {
    let cols = column_schemas(vec![
        ("id".to_string(), "INTEGER".to_string(), true),
        ("name".to_string(), "TEXT".to_string(), false),
    ]);
    assert_eq!(cols.len(), 2);
    assert!(!cols[0].nullable);
    assert!(cols[1].nullable);
    assert_eq!(cols[1].data_type, "TEXT");
    let t = table_info("test".to_string(), cols.clone(), 2);
    assert_eq!(t.row_count, 2);
    let values = row_values(vec![Some("hello".to_string()), None]);
    assert_eq!(values, vec![DbColumnValue::Text("hello".to_string()), DbColumnValue::Null]);
    let p = table_preview(cols, vec![values], 2);
    assert_eq!(p.columns.len(), 2);
    assert_eq!(p.total_rows, 2);
    let info = connection_info("3.45.0".to_string(), "kos.db".to_string(), 4);
    assert!(info.reachable);
    assert_eq!(info.server_version, "3.45.0");
}

#[test]
fn database_operations_not_offered() {
    let pg = PostgresDatabaseSource::new("postgres://invalid:5432/nonexistent".to_string());
    assert_eq!(
        pg.list_tables().unwrap_err(),
        DatabaseError::NotFound("PostgreSQL list_tables not yet implemented".to_string())
    );
    assert_eq!(
        pg.preview_table("t", 5).unwrap_err(),
        DatabaseError::NotFound("PostgreSQL preview_table not yet implemented".to_string())
    );
    let my = MySqlDatabaseSource::new("mysql://invalid:3306/nonexistent".to_string());
    assert_eq!(my.list_tables().unwrap_err(), DatabaseError::NotFound("MySQL list_tables not yet implemented".to_string()));
    assert_eq!(
        my.preview_table("t", 5).unwrap_err(),
        DatabaseError::NotFound("MySQL preview_table not yet implemented".to_string())
    );
}

#[test]
fn test_pdf_plugin_adapter() {
    let plugin = pdf_plugin();
    let manifest = plugin.manifest();
    assert_eq!(manifest.name, "pdf-importer");
    assert!(plugin.can_import("test.pdf"));
    assert!(!plugin.can_import("test.md"));
}

#[test]
fn test_url_plugin_adapter() {
    let plugin = url_plugin();
    let manifest = plugin.manifest();
    assert_eq!(manifest.name, "url-importer");
    assert!(plugin.can_import("https://example.com"));
    assert!(plugin.can_import("http://example.com"));
    assert!(!plugin.can_import("test.md"));
}

#[test]
fn plugin_adapters_keep_manifests() {
    let h = html_plugin();
    assert_eq!(h.manifest().name, "html-importer");
    assert!(h.can_import("a.htm"));
    assert!(h.activate().is_ok());
    assert!(h.deactivate().is_ok());
    let i = image_plugin();
    assert_eq!(i.manifest().version, "0.1.0");
    assert!(!i.inner().ocr);
    let p = PluginAdapter::new(PdfImporter::new());
    assert_eq!(p.manifest().author, "Knowledge OS");
    assert_eq!(p.manifest(), &PdfImporter::new().manifest());
}

#[test]
fn test_safe_call_success() {
    assert_eq!(safe_call_outcome("test", PluginCall::Finished(Ok(42)), 30), Ok(Some(42)));
}

#[test]
fn test_safe_call_plugin_error_returns_none() {
    let r: Result<Option<i32>, PluginError> =
        safe_call_outcome("test", PluginCall::Finished(Err(PluginError::ExecutionFailed("boom".to_string()))), 30);
    assert_eq!(r, Ok(None));
}

#[test]
fn test_safe_call_timeout() {
    let r: Result<Option<()>, PluginError> = safe_call_outcome("test", PluginCall::TimedOut, 0);
    match r.unwrap_err() {
        PluginError::Timeout(msg) => {
            assert!(msg.contains("test"));
            assert_eq!(msg, "Plugin 'test' exceeded 0s timeout");
        },
        other => panic!("Expected Timeout, got {:?}", other),
    }
    let r: Result<Option<()>, PluginError> = safe_call_outcome("slow", PluginCall::TimedOut, 30);
    assert_eq!(r, Err(PluginError::Timeout("Plugin 'slow' exceeded 30s timeout".to_string())));
}

#[test]
fn pdf_downloaded_from_a_url_names_the_url() {
    let data = minimal_pdf("Remote");
    let r = UrlImporter::new()
        .import_pdf_from_bytes_at(&data, "https://example.com/a.pdf", "/tmp/dl.pdf", AT, AT)
        .unwrap();
    let provenance = find(&r, ComponentType::Provenance);
    assert_eq!(field(provenance, "source"), Scalar::Text("https://example.com/a.pdf".to_string()));
    assert_eq!(field(provenance, "format"), Scalar::Text("url-pdf".to_string()));
    let binary = find(&r, ComponentType::BinaryContent);
    assert_eq!(field(binary, "size"), Scalar::Number(data.len() as u64));
    assert!(UrlImporter::new().import_pdf_from_bytes_at(b"nope", "https://x/a.pdf", "/tmp/x.pdf", AT, AT).is_err());
}
