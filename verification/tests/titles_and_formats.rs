use knowledge_os::clipboard::strip_html_tags;
use knowledge_os::fuzzy::{normalize_title, split_words, titles_match_normalized, word_overlap};
use knowledge_os::hashing::{content_hash, detect_conflicts, to_hex};
use knowledge_os::importers::ClipboardImporter;
use knowledge_os::magic::{detect_format_from_header, DetectedFormat};
use knowledge_os::model::{ComponentData, ComponentType, ImportError};

#[test]
fn test_normalize_title() {
    assert_eq!(normalize_title("Hello World"), "hello world");
    assert_eq!(normalize_title("  Hello   World  "), "hello world");
    assert_eq!(normalize_title("HELLO WORLD!"), "hello world");
    assert_eq!(normalize_title("Attention Is All You Need"), "attention is all you need");
    assert_eq!(
        normalize_title("Attention Is All You Need (2017)"),
        "attention is all you need 2017"
    );
}

#[test]
fn normalize_title_of_empty_and_punctuation_only() {
    assert_eq!(normalize_title(""), "");
    assert_eq!(normalize_title("!!! ... ???"), "");
    assert_eq!(normalize_title("a--b"), "a b");
}

#[test]
fn titles_match_after_normalization() {
    assert!(titles_match_normalized("Hello World", "hello world"));
    assert!(titles_match_normalized("Hello  World", "hello world"));
    assert!(!titles_match_normalized("Hello", "World"));
}

#[test]
fn test_magic_bytes_detects_pdf() {
    assert_eq!(detect_format_from_header(b"%PDF-1.4\n..."), DetectedFormat::Pdf);
}

#[test]
fn test_magic_bytes_unknown() {
    assert_eq!(detect_format_from_header(b"not a known format"), DetectedFormat::Unknown);
}

#[test]
fn test_magic_bytes_empty_file() {
    assert_eq!(detect_format_from_header(b""), DetectedFormat::Unknown);
}

#[test]
fn magic_bytes_zip_and_office_markers() {
    assert_eq!(detect_format_from_header(&[0x50, 0x4B, 0x03, 0x04]), DetectedFormat::Zip);
    assert_eq!(
        detect_format_from_header(&[0x50, 0x4B, 0x03, 0x04, 0x14, 0x00, 0x61, 0x00]),
        DetectedFormat::Docx
    );
    assert_eq!(
        detect_format_from_header(&[0x50, 0x4B, 0x03, 0x04, 0x14, 0x00, 0x62, 0x00]),
        DetectedFormat::Xlsx
    );
    assert_eq!(
        detect_format_from_header(&[0x50, 0x4B, 0x03, 0x04, 0x14, 0x00, 0x63, 0x00]),
        DetectedFormat::Pptx
    );
    assert_eq!(
        detect_format_from_header(&[0x50, 0x4B, 0x03, 0x04, 0x00, 0x00, 0x61, 0x00]),
        DetectedFormat::Zip
    );
    assert_eq!(detect_format_from_header(b"%PD"), DetectedFormat::Unknown);
}

fn content_text(r: &knowledge_os::model::ImportResult) -> String {
    let c = r
        .components
        .iter()
        .find(|c| c.component_type == ComponentType::Content)
        .unwrap();
    match &c.data {
        ComponentData::Text(s) => s.clone(),
        _ => panic!("content is not text"),
    }
}

#[test]
fn test_clipboard_imports_text() {
    let importer = ClipboardImporter::new();
    let result = importer.import_text("Hello, world!", "manual-paste").unwrap();
    assert_eq!(content_text(&result), "Hello, world!");
}

#[test]
fn test_clipboard_imports_html() {
    let importer = ClipboardImporter::new();
    let result = importer
        .import_html("<h1>Title</h1><p>Content</p>", "manual-paste")
        .unwrap();
    let text = content_text(&result);
    assert!(text.contains("Title"));
    assert!(text.contains("Content"));
}

#[test]
fn clipboard_import_of_a_file_is_refused() {
    let importer = ClipboardImporter::new();
    assert!(matches!(importer.import("x.txt"), Err(ImportError::UnsupportedFormat(_))));
}

#[test]
fn strip_html_tags_joins_words() {
    assert_eq!(strip_html_tags("<h1>Title</h1><p>Content</p>"), "Title Content");
    assert_eq!(strip_html_tags("  a <b>b</b>\n c "), "a b c");
}

#[test]
fn hex_and_content_hash() {
    assert_eq!(to_hex(&[0x00, 0xff, 0x1a]), "00ff1a");
    assert_eq!(
        content_hash(b"abc"),
        "ba7816bf8f01cfea414140de5dae2223b00361a396177a9cb410ff61f20015ad"
    );
}

#[test]
fn conflicts_are_found_by_hash() {
    let files = vec![
        ("a.md".to_string(), Some(b"abc".to_vec())),
        ("b.md".to_string(), Some(b"abd".to_vec())),
        ("c.md".to_string(), None),
    ];
    let previous = vec![
        ("old.md".to_string(), content_hash(b"abc")),
        ("abc".to_string(), "abc".to_string()),
    ];
    let r = detect_conflicts(&files, &previous);
    assert_eq!(
        r,
        vec![
            ("a.md".to_string(), true),
            ("b.md".to_string(), false),
            ("c.md".to_string(), false)
        ]
    );
}

#[test]
fn words_and_their_overlap() {
    assert_eq!(split_words("  hello\tworld \n again "), vec!["hello", "world", "again"]);
    assert_eq!(split_words("x\u{3000}y"), vec!["x", "y"]);
    assert!(split_words(" \n ").is_empty());
    assert_eq!(word_overlap("a b a", "b c"), (1, 3));
    assert_eq!(word_overlap("the cat sat", "the cat sat"), (3, 3));
    assert_eq!(word_overlap("", ""), (0, 0));
    assert_eq!(word_overlap("one", ""), (0, 1));
}

#[test]
fn normalize_title_lowercases_beyond_ascii() {
    assert_eq!(normalize_title("École Normale"), "école normale");
    assert_eq!(normalize_title("ÜBER—ALLES"), "über alles");
    assert_eq!(normalize_title("İstanbul"), "i\u{307}stanbul");
    assert!(titles_match_normalized("ÉCOLE", "école"));
    assert!(!titles_match_normalized("École", "ecole"));
}
