use knowledge_os::importers::CsvImporter;
use knowledge_os::model::{ComponentData, ComponentType, Field, ImportError, Scalar};
use knowledge_os::tabular::{ColumnMapping, ColumnValue, FieldMapping};

fn mapping(fm: Vec<(&str, FieldMapping)>, skip: Vec<&str>, et: Option<&str>) -> ColumnMapping {
    ColumnMapping {
        field_mappings: fm.into_iter().map(|(c, m)| (c.to_string(), m)).collect(),
        skip_columns: skip.into_iter().map(|s| s.to_string()).collect(),
        entity_type_override: et.map(|s| s.to_string()),
    }
}

fn text(d: &ComponentData) -> String {
    match d {
        ComponentData::Text(s) => s.clone(),
        other => panic!("not text {:?}", other),
    }
}

fn field(d: &ComponentData, key: &str) -> String {
    match d {
        ComponentData::Object(fs) => {
            let f: &Field = fs.iter().find(|f| f.key == key).unwrap();
            match &f.value {
                Scalar::Text(s) => s.clone(),
                other => panic!("{:?}", other),
            }
        }
        other => panic!("not object {:?}", other),
    }
}

#[test]
fn csv_rows_become_entities() {
    let data = b"name,desc,tags,date,extra\nAlpha,First one, a; b ;;c,2024-01-01,x1\nBeta,Second,,2024-02-02,x2\n";
    let m = mapping(
        vec![
            ("name", FieldMapping::Title),
            ("desc", FieldMapping::Description),
            ("tags", FieldMapping::Tags { separator: ";".to_string() }),
            ("date", FieldMapping::TimelineDate),
            ("extra", FieldMapping::CustomComponent { component_name: "code".to_string() }),
            ("missing", FieldMapping::Content),
        ],
        vec![],
        Some("Record"),
    );
    let rs = CsvImporter::new().import_with_mapping_at(data, "data.csv", &m, "T").unwrap();
    assert_eq!(rs.len(), 2);
    let a = &rs[0];
    assert_eq!(a.entity.entity_type, "Record");
    let kinds: Vec<ComponentType> = a.components.iter().map(|c| c.component_type).collect();
    assert_eq!(
        kinds,
        vec![
            ComponentType::Title,
            ComponentType::Provenance,
            ComponentType::Description,
            ComponentType::Tags,
            ComponentType::Timeline,
            ComponentType::Provenance
        ]
    );
    assert_eq!(text(&a.components[0].data), "Alpha");
    assert_eq!(field(&a.components[1].data, "format"), "csv");
    assert_eq!(field(&a.components[1].data, "source"), "data.csv");
    assert_eq!(text(&a.components[2].data), "First one");
    assert_eq!(
        a.components[3].data,
        ComponentData::List(vec!["a".to_string(), "b".to_string(), "c".to_string()])
    );
    assert_eq!(field(&a.components[4].data, "created_at"), "2024-01-01");
    assert_eq!(field(&a.components[5].data, "custom_field"), "code");
    assert_eq!(field(&a.components[5].data, "value"), "x1");
    assert_eq!(rs[1].components[3].data, ComponentData::List(vec![]));
}

#[test]
fn csv_without_title_mapping_is_untitled_and_skips_columns() {
    let data = b"a,b\n1,2\n";
    let m = mapping(
        vec![("a", FieldMapping::Content), ("b", FieldMapping::Description)],
        vec!["b"],
        None,
    );
    let rs = CsvImporter::new().import_with_mapping_at(data, "f.csv", &m, "T").unwrap();
    assert_eq!(rs[0].entity.entity_type, "Article");
    assert_eq!(text(&rs[0].components[0].data), "Untitled");
    assert_eq!(rs[0].components.len(), 3);
    assert_eq!(text(&rs[0].components[2].data), "1");
}

#[test]
fn skipped_title_column_still_names_the_entity() {
    let data = b"t\nHello\n";
    let m = mapping(vec![("t", FieldMapping::Title)], vec!["t"], None);
    let rs = CsvImporter::new().import_with_mapping_at(data, "f.csv", &m, "T").unwrap();
    assert_eq!(text(&rs[0].components[0].data), "Hello");
}

#[test]
fn empty_tag_separator_splits_characters() {
    let data = b"t\na b\n";
    let m = mapping(vec![("t", FieldMapping::Tags { separator: String::new() })], vec![], None);
    let rs = CsvImporter::new().import_with_mapping_at(data, "f.csv", &m, "T").unwrap();
    assert_eq!(
        rs[0].components[2].data,
        ComponentData::List(vec!["a".to_string(), "b".to_string()])
    );
}

#[test]
fn uneven_record_is_a_row_error() {
    let data = b"a,b\n1,2\n3\n";
    let m = mapping(vec![("a", FieldMapping::Title)], vec![], None);
    match CsvImporter::new().import_with_mapping_at(data, "f.csv", &m, "T") {
        Err(ImportError::Parse(msg)) => assert!(msg.starts_with("CSV row 1: "), "{}", msg),
        other => panic!("unexpected {:?}", other),
    }
}

#[test]
fn csv_single_import_is_refused() {
    assert!(matches!(CsvImporter::new().import("x.csv"), Err(ImportError::Parse(_))));
}

#[test]
fn csv_preview_samples_and_counts_the_rest() {
    let data = b"x,y\n1,2\n3,4\n5,6\n7,8\n";
    let p = CsvImporter::new().preview(data, 2).unwrap();
    assert_eq!(p.columns.len(), 2);
    assert_eq!(p.columns[0].name, "x");
    assert_eq!(p.columns[1].data_type, "text");
    assert!(p.columns[1].nullable);
    assert_eq!(p.sample_rows.len(), 2);
    assert_eq!(p.sample_rows[1], vec![ColumnValue::Text("3".to_string()), ColumnValue::Text("4".to_string())]);
    assert_eq!(p.row_count, 1);
    let all = CsvImporter::new().preview(data, 10).unwrap();
    assert_eq!(all.sample_rows.len(), 4);
    assert_eq!(all.row_count, 0);
}

#[test]
fn test_csv_preview_returns_columns_and_sample() {
    let csv = "Name,Description\nAlpha,First item\nBeta,Second item\n";
    let importer = CsvImporter::new();
    let preview = importer.preview(csv.as_bytes(), 10).unwrap();
    assert_eq!(preview.columns.len(), 2);
    assert_eq!(preview.columns[0].name, "Name");
    assert_eq!(preview.sample_rows.len(), 2);
}

#[test]
fn test_csv_import_with_mapping_creates_entities() {
    let csv = "Name,Description\nAlpha,First item\n";
    let importer = CsvImporter::new();
    let m = mapping(vec![("Name", FieldMapping::Title), ("Description", FieldMapping::Content)], vec![], None);
    let results = importer.import_with_mapping(csv.as_bytes(), "/tmp/items.csv", &m).unwrap();
    assert_eq!(results.len(), 1);
    let title = results[0].components.iter().find(|c| c.component_type == ComponentType::Title).unwrap();
    assert_eq!(text(&title.data), "Alpha");
}

#[test]
fn test_csv_skip_columns_excluded() {
    let csv = "Name,Description,Internal\nAlpha,First item,secret\n";
    let importer = CsvImporter::new();
    let m = mapping(vec![("Name", FieldMapping::Title), ("Description", FieldMapping::Content)], vec!["Internal"], None);
    let results = importer.import_with_mapping(csv.as_bytes(), "/tmp/items.csv", &m).unwrap();
    assert_eq!(results.len(), 1);
}

#[test]
fn test_csv_tags_with_separator_splits_correctly() {
    let csv = "Name,Tags\nAlpha,rust;testing\n";
    let importer = CsvImporter::new();
    let m = mapping(
        vec![("Name", FieldMapping::Title), ("Tags", FieldMapping::Tags { separator: ";".to_string() })],
        vec![],
        None,
    );
    let results = importer.import_with_mapping(csv.as_bytes(), "/tmp/items.csv", &m).unwrap();
    assert_eq!(results.len(), 1);
    let tags = results[0].components.iter().find(|c| c.component_type == ComponentType::Tags).unwrap();
    assert_eq!(tags.data, ComponentData::List(vec!["rust".to_string(), "testing".to_string()]));
}

#[test]
fn mapping_validity_forbids_repeated_columns() {
    assert!(mapping(vec![("Name", FieldMapping::Title), ("Body", FieldMapping::Content)], vec!["X", "Y"], None).is_valid());
    assert!(!mapping(vec![("Name", FieldMapping::Title), ("Name", FieldMapping::Content)], vec![], None).is_valid());
    assert!(!mapping(vec![], vec!["X", "X"], None).is_valid());
    assert!(mapping(vec![], vec![], None).is_valid());
}

#[test]
fn parsed_records_become_entities_or_the_first_row_error() {
    let importer = CsvImporter::new();
    let m = mapping(vec![("Name", FieldMapping::Title)], vec![], Some("Note"));
    let headers = vec!["Name".to_string()];
    let good: Vec<Result<Vec<String>, String>> = vec![Ok(vec!["Alpha".to_string()]), Ok(vec!["Beta".to_string()])];
    let results = importer.import_parsed_records(&headers, &good, "/tmp/x.csv", &m, "T").unwrap();
    assert_eq!(results.len(), 2);
    assert_eq!(results[1].entity.entity_type, "Note");
    let title = results[1].components.iter().find(|c| c.component_type == ComponentType::Title).unwrap();
    assert_eq!(text(&title.data), "Beta");
    let bad: Vec<Result<Vec<String>, String>> = vec![Ok(vec!["Alpha".to_string()]), Err("broken".to_string())];
    assert_eq!(
        importer.import_parsed_records(&headers, &bad, "/tmp/x.csv", &m, "T"),
        Err(ImportError::Parse("CSV row 1: broken".to_string()))
    );
}
