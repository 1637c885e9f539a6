use knowledge_os::html::{
    extract_html_links, extract_html_metadata, extract_html_title, html_to_markdown,
    html_to_text, html_to_text_fallback,
};
use knowledge_os::adapters::PluginMetadata;
use knowledge_os::importers::{HtmlImporter, UrlImporter};
use knowledge_os::model::{
    Component, ComponentData, ComponentType, CrossReference, Field, ImportResult, Scalar,
};
use knowledge_os::url;

fn find(result: &ImportResult, t: ComponentType) -> &Component {
    result.components.iter().find(|c| c.component_type == t).unwrap()
}

fn text_of(c: &Component) -> String {
    match &c.data {
        ComponentData::Text(s) => s.clone(),
        other => panic!("not text: {:?}", other),
    }
}

fn field(c: &Component, key: &str) -> String {
    match &c.data {
        ComponentData::Object(fields) => {
            let f: &Field = fields.iter().find(|f| f.key == key).unwrap();
            match &f.value {
                Scalar::Text(s) => s.clone(),
                other => panic!("not text: {:?}", other),
            }
        }
        other => panic!("not an object: {:?}", other),
    }
}

fn import(html: &str, path: &str) -> ImportResult {
    HtmlImporter::new()
        .import_content(html, path, "2024-01-01T00:00:00+00:00")
        .unwrap()
}

#[test]
fn test_import_basic_html() {
    let html = r#"<!DOCTYPE html>
<html lang="en">
<head><title>Test Page</title></head>
<body><p>Hello world.</p></body>
</html>"#;
    let result = import(html, "test.html");
    assert_eq!(result.entity.entity_type, "Article");
    assert_eq!(text_of(find(&result, ComponentType::Title)), "Test Page");
    assert_eq!(text_of(find(&result, ComponentType::Language)), "en");
    assert_eq!(field(find(&result, ComponentType::Provenance), "format"), "html");
}

#[test]
fn test_import_html_with_metadata() {
    let html = r#"<html lang="fr">
<head>
    <title>Mon Article</title>
    <meta name="author" content="Jean Dupont">
    <meta name="keywords" content="rust, web, html">
    <meta name="description" content="Un article de test">
</head>
<body><p>Contenu ici.</p></body>
</html>"#;
    let result = import(html, "article.html");
    assert_eq!(text_of(find(&result, ComponentType::Title)), "Mon Article");
    assert_eq!(text_of(find(&result, ComponentType::Author)), "Jean Dupont");
    assert_eq!(
        find(&result, ComponentType::Tags).data,
        ComponentData::List(vec!["rust".to_string(), "web".to_string(), "html".to_string()])
    );
    assert_eq!(text_of(find(&result, ComponentType::Description)), "Un article de test");
    assert_eq!(text_of(find(&result, ComponentType::Language)), "fr");
}

#[test]
fn test_import_html_fallback_to_h1() {
    let html = r#"<html>
<head></head>
<body><h1>My Heading</h1><p>Content.</p></body>
</html>"#;
    let result = import(html, "no-title.html");
    assert_eq!(text_of(find(&result, ComponentType::Title)), "My Heading");
}

#[test]
fn test_import_html_fallback_to_filename() {
    let html = "<html><body><p>No title anywhere.</p></body></html>";
    let result = import(html, "my-page.html");
    assert_eq!(text_of(find(&result, ComponentType::Title)), "my-page");
}

#[test]
fn html_import_timeline_and_order() {
    let importer = HtmlImporter::new();
    let r = importer.import_content_at("<p>x</p>", "dir/a.html", "2020-01-01", "2024-02-02");
    let kinds: Vec<ComponentType> = r.components.iter().map(|c| c.component_type).collect();
    assert_eq!(
        kinds,
        vec![
            ComponentType::Title,
            ComponentType::Content,
            ComponentType::Timeline,
            ComponentType::Language,
            ComponentType::Provenance
        ]
    );
    let tl = find(&r, ComponentType::Timeline);
    assert_eq!(field(tl, "created_at"), "2020-01-01");
    assert_eq!(field(tl, "imported_at"), "2024-02-02");
    assert_eq!(field(find(&r, ComponentType::Provenance), "source"), "dir/a.html");
}

#[test]
fn test_extract_links() {
    let html = r##"<html><body>
<a href="https://example.com">Example</a>
<a href="other.html">Other Page</a>
<a href="docs/guide.html#intro">Guide</a>
<a href="#section">Skip</a>
</body></html>"##;
    let result = import(html, "test.html");
    assert_eq!(result.cross_references.len(), 3);
    let url_ref = result.cross_references[0].as_url_ref().unwrap();
    assert_eq!(url_ref.0, "https://example.com");
    assert_eq!(url_ref.1, "Example");
    let file_ref = result.cross_references[1].as_file_ref().unwrap();
    assert!(file_ref.0.contains("other.html"));
    let section_ref = result.cross_references[2].as_section_ref().unwrap();
    assert!(section_ref.0.contains("guide.html"));
    assert_eq!(section_ref.1, "intro");
}

#[test]
fn links_resolve_against_the_document_directory() {
    let html = r##"<a href="b.html"> </a><a href="#top">t</a><a href="mailto:x@y">m</a><a href="c.html#s2">C</a><a href="#">e</a><a href="/abs.html">A</a><a href="">z</a>"##;
    let refs = extract_html_links(html, "notes/dir/a.html");
    assert_eq!(
        refs,
        vec![
            CrossReference::FileRef {
                target_path: "notes/dir/b.html".to_string(),
                link_text: "b.html".to_string()
            },
            CrossReference::SectionRef {
                target_path: "notes/dir/c.html".to_string(),
                section: "s2".to_string(),
                link_text: "C".to_string()
            },
            CrossReference::FileRef {
                target_path: "/abs.html".to_string(),
                link_text: "A".to_string()
            },
        ]
    );
    let same = extract_html_links(r#"<a href="x#y">L</a>"#, "/top.html");
    assert_eq!(
        same,
        vec![CrossReference::SectionRef {
            target_path: "/x".to_string(),
            section: "y".to_string(),
            link_text: "L".to_string()
        }]
    );
    let own = extract_html_links(r##"<a href="#q">L</a><a href="?a#q">M</a>"##, "p.html");
    assert_eq!(
        own,
        vec![CrossReference::SectionRef {
            target_path: "?a".to_string(),
            section: "q".to_string(),
            link_text: "M".to_string()
        }]
    );
}

#[test]
fn test_extract_html_title_fn() {
    assert_eq!(
        extract_html_title("<html><head><title>Hello</title></head></html>"),
        Some("Hello".to_string())
    );
    assert_eq!(extract_html_title("<html><head></head></html>"), None);
}

#[test]
fn test_html_to_text_fn() {
    let text = html_to_text("<h1>Title</h1><p>Some text.</p>");
    assert!(text.contains("Title"));
    assert!(text.contains("Some text."));
}

#[test]
fn test_html_to_markdown_fn() {
    let md = html_to_markdown("<p>Hello <strong>world</strong>.</p>");
    assert!(md.contains("Hello"));
    assert!(md.contains("world"));
}

#[test]
fn test_og_description() {
    let html = r#"<html><head>
<meta property="og:description" content="OG desc here">
</head><body></body></html>"#;
    let metadata = extract_html_metadata(html);
    assert_eq!(metadata.description, Some("OG desc here".to_string()));
}

#[test]
fn metadata_prefers_named_meta_and_skips_empty_keywords() {
    let html = r#"<html><head>
<meta name="dc.creator" content="Ada">
<meta name="description" content="named">
<meta property="og:description" content="og">
<meta name="keywords" content=" a , ,b,">
</head></html>"#;
    let m = extract_html_metadata(html);
    assert_eq!(m.author, Some("Ada".to_string()));
    assert_eq!(m.description, Some("named".to_string()));
    assert_eq!(m.keywords, vec!["a".to_string(), "b".to_string()]);
    assert_eq!(m.title, None);
}

#[test]
fn fallback_text_joins_words() {
    assert_eq!(html_to_text_fallback("<p>a</p>\n<b>b  c</b>"), "a b c");
}

#[test]
fn html_manifest() {
    let m = HtmlImporter::new().manifest();
    assert_eq!(m.name, "html-importer");
    assert_eq!(m.description, "Import HTML files as knowledge entities");
}

#[test]
fn test_can_import_url() {
    let importer = UrlImporter::new();
    assert!(importer.can_import("https://example.com"));
    assert!(importer.can_import("http://example.com/page"));
    assert!(!importer.can_import("file.md"));
}

#[test]
fn test_extract_html_title() {
    let html = r#"<!DOCTYPE html>
<html>
<head><title>My Page Title</title></head>
<body></body>
</html>"#;
    assert_eq!(url::extract_html_title(html), Some("My Page Title".to_string()));
}

#[test]
fn test_html_to_text() {
    let html = "<h1>Hello</h1><p>This is a <strong>test</strong>.</p>";
    let text = url::html_to_text(html);
    assert!(text.contains("Hello"));
    assert!(text.contains("test"));
    assert_eq!(text, "Hello This is a test .");
    assert_eq!(url::html_to_text("a&amp;b"), "a amp;b");
}

#[test]
fn test_import_from_content() {
    let importer = UrlImporter::new();
    let html = r#"<!DOCTYPE html>
<html>
<head><title>Test Page</title></head>
<body><p>Some content here.</p></body>
</html>"#;
    let result = importer
        .import_from_content(html, "https://example.com/test", "text/html")
        .unwrap();
    assert_eq!(result.entity.entity_type, "Article");
    assert!(!result.components.is_empty());
    assert_eq!(text_of(find(&result, ComponentType::Title)), "Test Page");
}

#[test]
fn non_html_pages_keep_their_body() {
    let importer = UrlImporter::new();
    let r = importer.import_from_content_at("plain <b>body</b>", "https://x.org/a.txt", "text/plain", "T");
    assert_eq!(text_of(find(&r, ComponentType::Title)), "https://x.org/a.txt");
    assert_eq!(text_of(find(&r, ComponentType::Content)), "plain <b>body</b>");
    let p = find(&r, ComponentType::Provenance);
    assert_eq!(field(p, "format"), "url");
    assert_eq!(field(p, "content_type"), "text/plain");
    assert_eq!(field(find(&r, ComponentType::Timeline), "imported_at"), "T");
    assert_eq!(text_of(find(&r, ComponentType::Language)), "en");
}

#[test]
fn url_response_decisions() {
    assert!(url::is_pdf_response("application/pdf", "https://x"));
    assert!(url::is_pdf_response("text/html", "https://x/a.pdf"));
    assert!(!url::is_pdf_response("text/html", "https://x/a"));
    assert_eq!(url::content_type_or_html(None), "text/html");
    assert_eq!(url::content_type_or_html(Some("text/plain".to_string())), "text/plain");
    assert_eq!(
        url::http_status_error("404 Not Found", "https://x"),
        knowledge_os::model::ImportError::Network("HTTP 404 Not Found from https://x".to_string())
    );
}

#[test]
fn downloaded_pdf_names_its_url() {
    let importer = UrlImporter::new();
    let r = importer.import_from_content_at("x", "https://x", "text/plain", "T");
    let r = url::with_url_provenance(r, "https://x/doc.pdf", "T2");
    let p = find(&r, ComponentType::Provenance);
    assert_eq!(field(p, "source"), "https://x/doc.pdf");
    assert_eq!(field(p, "format"), "url-pdf");
    assert_eq!(field(p, "imported_at"), "T2");
    assert_eq!(r.components.len(), 5);
}
