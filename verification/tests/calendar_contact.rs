use knowledge_os::calendar::{extract_ics_field, extract_vcf_field};
use knowledge_os::importers::{IcsImporter, VcfImporter};
use knowledge_os::model::{ComponentData, ComponentType, Field, ImportError, Scalar};

#[test]
fn test_ics_can_import() {
    let importer = IcsImporter::new();
    assert!(importer.can_import("test.ics"));
    assert!(!importer.can_import("test.txt"));
}

#[test]
fn test_vcf_can_import() {
    let importer = VcfImporter::new();
    assert!(importer.can_import("test.vcf"));
    assert!(!importer.can_import("test.txt"));
}

#[test]
fn test_extract_ics_field() {
    let block = "SUMMARY:Test Event\nDTSTART:20240101T120000\n";
    assert_eq!(
        extract_ics_field(block, "SUMMARY"),
        Some("Test Event".to_string())
    );
    assert_eq!(
        extract_ics_field(block, "DTSTART"),
        Some("20240101T120000".to_string())
    );
    assert_eq!(extract_ics_field(block, "LOCATION"), None);
}

#[test]
fn test_extract_vcf_field() {
    let block = "FN:John Doe\nEMAIL:john@example.com\n";
    assert_eq!(extract_vcf_field(block, "FN"), Some("John Doe".to_string()));
    assert_eq!(
        extract_vcf_field(block, "EMAIL"),
        Some("john@example.com".to_string())
    );
}

#[test]
fn extract_field_with_parameters_and_padding() {
    let block = "  DTSTART;TZID=Europe/Paris:20240101T090000  \r\nSUMMARY:   \nSUMMARY: Second \n";
    assert_eq!(
        extract_ics_field(block, "DTSTART"),
        Some("20240101T090000".to_string())
    );
    // An empty value does not count; a later line gives the value.
    assert_eq!(extract_ics_field(block, "SUMMARY"), Some("Second".to_string()));
    assert_eq!(extract_ics_field("", "SUMMARY"), None);
}

#[test]
fn ics_events_become_entities() {
    let cal = "BEGIN:VCALENDAR\nBEGIN:VEVENT\nSUMMARY:Standup\nDTSTART:20240101T090000\nDTEND:20240101T091500\nEND:VEVENT\nBEGIN:VEVENT\nDESCRIPTION:no title\nEND:VEVENT\nBEGIN:VEVENT\nSUMMARY:unfinished\nEND:VCALENDAR\n";
    let events = IcsImporter::new().import_ical_at(cal, "cal.ics", "2024-01-01T00:00:00+00:00");
    assert_eq!(events.len(), 2);
    assert_eq!(events[0].entity.entity_type, "Event");
    assert_eq!(events[0].components[0].component_type, ComponentType::Title);
    assert_eq!(events[0].components[0].data, ComponentData::Text("Standup".to_string()));
    assert_eq!(events[0].components[1].data, ComponentData::Text(String::new()));
    assert_eq!(events[0].components[3].component_type, ComponentType::Timeline);
    assert_eq!(
        events[0].components[3].data,
        ComponentData::Object(vec![
            Field { key: "imported_at".to_string(), value: Scalar::Text("2024-01-01T00:00:00+00:00".to_string()) },
            Field { key: "created_at".to_string(), value: Scalar::Text("20240101T090000".to_string()) },
            Field { key: "ended_at".to_string(), value: Scalar::Text("20240101T091500".to_string()) },
        ])
    );
    assert_eq!(events[1].components[0].data, ComponentData::Text("Untitled Event".to_string()));
    assert_eq!(events[1].components[1].data, ComponentData::Text("no title".to_string()));
    assert_eq!(events[1].components.len(), 3);
}

#[test]
fn vcards_become_people() {
    let book = "BEGIN:VCARD\nN:Doe;Jane\nTEL;TYPE=cell:+1 555\nEND:VCARD\nBEGIN:VCARD\nFN:Bob\nEMAIL:bob@example.com\nORG:Acme\nEND:VCARD\n";
    let people = VcfImporter::new().import_vcards(book, "book.vcf");
    assert_eq!(people.len(), 2);
    assert_eq!(people[0].entity.entity_type, "Person");
    assert_eq!(people[0].components[0].data, ComponentData::Text("Doe;Jane".to_string()));
    assert_eq!(
        people[0].components[2].data,
        ComponentData::Object(vec![Field { key: "phone".to_string(), value: Scalar::Text("+1 555".to_string()) }])
    );
    assert_eq!(people[1].components[0].data, ComponentData::Text("Bob".to_string()));
    assert_eq!(
        people[1].components[2].data,
        ComponentData::Object(vec![
            Field { key: "email".to_string(), value: Scalar::Text("bob@example.com".to_string()) },
            Field { key: "organization".to_string(), value: Scalar::Text("Acme".to_string()) },
        ])
    );
}

#[test]
fn calendar_single_import_is_refused() {
    match IcsImporter::new().import("cal.ics") {
        Err(ImportError::Parse(m)) => assert!(m.contains("import_ical")),
        _ => panic!("expected a parse error"),
    }
    match VcfImporter::new().import("book.vcf") {
        Err(ImportError::Parse(m)) => assert!(m.contains("import_vcards")),
        _ => panic!("expected a parse error"),
    }
}
