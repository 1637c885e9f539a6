use knowledge_os::importers::{EnexImporter, OpmlImporter};
use knowledge_os::model::{ComponentData, ComponentType, ImportError, ImportResult};
use knowledge_os::xml::XmlEvent;

fn title(r: &ImportResult) -> String {
    let c = r.components.iter().find(|c| c.component_type == ComponentType::Title).unwrap();
    match &c.data {
        ComponentData::Text(s) => s.clone(),
        other => panic!("{:?}", other),
    }
}

#[test]
fn test_enex_imports_notes() {
    let enex = r#"<?xml version="1.0" encoding="UTF-8"?>
<!DOCTYPE en-export SYSTEM "http://xml.evernote.com/pub/evernote-export3.dtd">
<en-export>
<note><title>Note 1</title><content>Content 1</content><tag>tag1</tag></note>
<note><title>Note 2</title><content>Content 2</content></note>
</en-export>"#;
    let results = EnexImporter::new().import_enex(enex.as_bytes(), "notes.enex").unwrap();
    assert_eq!(results.len(), 2);
    assert_eq!(title(&results[0]), "Note 1");
    let tags = results[0].components.iter().find(|c| c.component_type == ComponentType::Tags);
    assert!(tags.is_some());
    assert_eq!(tags.unwrap().data, ComponentData::List(vec!["tag1".to_string()]));
    assert!(results[1].components.iter().all(|c| c.component_type != ComponentType::Tags));
    assert_eq!(results[0].entity.entity_type, "Note");
}

#[test]
fn enex_untitled_note_and_entities() {
    let enex = "<en-export><note><title></title><content>A &amp; B</content></note></en-export>";
    let results = EnexImporter::new().import_enex_at(enex.as_bytes(), "x.enex", "T").unwrap();
    assert_eq!(title(&results[0]), "Untitled Note");
    let c = results[0].components.iter().find(|c| c.component_type == ComponentType::Content).unwrap();
    assert_eq!(c.data, ComponentData::Text("A & B".to_string()));
}

#[test]
fn enex_without_notes_is_an_error() {
    let r = EnexImporter::new().import_enex_at(b"<en-export></en-export>", "x.enex", "T");
    assert_eq!(r, Err(ImportError::Parse("No notes found in ENEX file".to_string())));
    assert!(matches!(EnexImporter::new().import("x.enex"), Err(ImportError::Parse(_))));
}

#[test]
fn test_opml_imports_outline_hierarchy() {
    let opml = r#"<?xml version="1.0" encoding="UTF-8"?>
<opml version="2.0">
<body>
<outline text="Topic 1"/>
<outline text="Topic 2"/>
</body>
</opml>"#;
    let results = OpmlImporter::new().import_opml(opml.as_bytes(), "o.opml").unwrap();
    assert_eq!(results.len(), 2);
    assert_eq!(title(&results[0]), "Topic 1");
}

#[test]
fn opml_nested_outlines_close_in_order() {
    let opml = r#"<opml><body><outline text="Parent"><outline text="Child"/></outline><outline text=""/></body></opml>"#;
    let results = OpmlImporter::new().import_opml_at(opml.as_bytes(), "o.opml", "T").unwrap();
    let titles: Vec<String> = results.iter().map(title).collect();
    assert_eq!(titles, vec!["Child".to_string(), "Child".to_string()]);
}

#[test]
fn opml_errors() {
    let r = OpmlImporter::new().import_opml_at(b"<opml></opml>", "o.opml", "T");
    assert_eq!(r, Err(ImportError::Parse("No outlines found in OPML file".to_string())));
    let dup = OpmlImporter::new().import_opml_at(br#"<opml><outline text="a" text="b"/></opml>"#, "o.opml", "T");
    assert!(matches!(dup, Err(ImportError::Parse(_))));
    assert!(matches!(OpmlImporter::new().import("o.opml"), Err(ImportError::Parse(_))));
}

#[test]
fn enex_notes_from_xml_events() {
    let ev = |k: &str, b: &str| match k {
        "s" => XmlEvent::Start(b.as_bytes().to_vec()),
        "e" => XmlEvent::End(b.as_bytes().to_vec()),
        _ => XmlEvent::Text(b.as_bytes().to_vec()),
    };
    let events = vec![
        ev("s", "note"),
        ev("s", "title"),
        ev("t", "Fish &amp; chips"),
        ev("e", "title"),
        ev("s", "tag"),
        ev("t", "food"),
        ev("e", "tag"),
        ev("e", "note"),
        XmlEvent::Other,
    ];
    let notes = EnexImporter::new().import_events_at(&events, "x.enex", "T").unwrap();
    assert_eq!(notes.len(), 1);
    assert_eq!(title(&notes[0]), "Fish & chips");
    let tags = notes[0].components.iter().find(|c| c.component_type == ComponentType::Tags).unwrap();
    assert_eq!(tags.data, ComponentData::List(vec!["food".to_string()]));
    match EnexImporter::new().import_events_at(&vec![ev("s", "title")], "x.enex", "T") {
        Err(ImportError::Parse(m)) => assert_eq!(m, "No notes found in ENEX file"),
        other => panic!("{:?}", other),
    }
}

#[test]
fn opml_outlines_from_xml_events_and_their_texts() {
    let events = vec![
        XmlEvent::Start(b"opml".to_vec()),
        XmlEvent::Empty(b"outline".to_vec()),
        XmlEvent::Start(b"outline".to_vec()),
        XmlEvent::End(b"outline".to_vec()),
        XmlEvent::Empty(b"outline".to_vec()),
        XmlEvent::End(b"opml".to_vec()),
    ];
    let texts: Vec<Result<String, String>> = vec![
        Ok(String::new()),
        Ok("First".to_string()),
        Ok("Second".to_string()),
        Ok(String::new()),
        Ok(String::new()),
    ];
    let outlines = OpmlImporter::new().import_outline_events_at(&events, &texts, "x.opml", "T").unwrap();
    assert_eq!(outlines.len(), 2);
    assert_eq!(title(&outlines[0]), "First");
    assert_eq!(title(&outlines[1]), "Second");
    let broken: Vec<Result<String, String>> = vec![Ok(String::new()), Err("bad attribute".to_string())];
    assert_eq!(
        OpmlImporter::new().import_outline_events_at(&events, &broken, "x.opml", "T"),
        Err(ImportError::Parse("bad attribute".to_string()))
    );
}
