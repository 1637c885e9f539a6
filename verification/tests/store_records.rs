use knowledge_os::ignore_rules::{choose_ignore_patterns, default_ignore_patterns, read_patterns};
use knowledge_os::model::{Component, ComponentData, ComponentType};
use knowledge_os::search_index::{search_fields, tags_contain};
use knowledge_os::conversation::{
    citation, citations_for, conversation_detail, conversation_summary, extract_entity_ids,
    extract_role_and_text, message_detail, title_from_data, MessageRole, StoredEntity, StoredMessage,
};
use knowledge_os::merges::{undo_merge_plan, undo_statements_of, SqlParam, StorageError};
use knowledge_os::structured::Json;

const A: &str = "67e55044-10b1-426f-9247-bb680e5fe0c8";
const B: &str = "16fd2706-8baf-433b-82eb-8c7fada847da";

fn id(s: &str) -> u128 {
    uuid::Uuid::parse_str(s).unwrap().as_u128()
}

#[test]
fn titles_from_component_data() {
    assert_eq!(title_from_data(Some("\"Hello\"".to_string())), "Hello");
    assert_eq!(title_from_data(Some("{\"name\": \"Named\"}".to_string())), "Named");
    assert_eq!(title_from_data(Some("{\"x\": 1}".to_string())), "Untitled");
    assert_eq!(title_from_data(Some("not json".to_string())), "Untitled");
    assert_eq!(title_from_data(None), "Untitled");
}

#[test]
fn roles_and_texts_of_messages() {
    assert_eq!(
        extract_role_and_text(Some("{\"role\": \"assistant\", \"content\": \"hi\"}".to_string())),
        (MessageRole::Assistant, "hi".to_string())
    );
    assert_eq!(
        extract_role_and_text(Some("{\"role\": \"tool\", \"text\": \"t\"}".to_string())),
        (MessageRole::System, "t".to_string())
    );
    assert_eq!(
        extract_role_and_text(Some("{\"role\": \"user\", \"content\": 5, \"text\": \"x\"}".to_string())),
        (MessageRole::User, String::new())
    );
    assert_eq!(extract_role_and_text(Some("{}".to_string())), (MessageRole::User, String::new()));
    assert_eq!(extract_role_and_text(None), (MessageRole::User, String::new()));
}

#[test]
fn entity_ids_of_messages() {
    let data = format!("{{\"refs\": [\"{}\", \"{}\"]}}", A, B);
    assert_eq!(extract_entity_ids(Some(data)), vec![id(A), id(B)]);
    let data = format!("{{\"entity_ids\": [\"{}\"]}}", B);
    assert_eq!(extract_entity_ids(Some(data)), vec![id(B)]);
    let data = format!("{{\"refs\": [\"{}\", \"nope\"]}}", A);
    assert!(extract_entity_ids(Some(data)).is_empty());
    assert!(extract_entity_ids(Some("{\"refs\": 3}".to_string())).is_empty());
    assert!(extract_entity_ids(None).is_empty());
}

#[test]
fn summary_previews_the_last_message() {
    let long: String = "line\n".repeat(30);
    let s = conversation_summary(
        7,
        Some("\"Chat\"".to_string()),
        3,
        Some("2024-02-02T00:00:00+00:00".to_string()),
        Some(long),
        "2024-01-01T00:00:00+00:00".to_string(),
        "2024-01-03T00:00:00+00:00".to_string(),
    );
    assert_eq!(s.title, "Chat");
    assert_eq!(s.message_count, 3);
    assert_eq!(s.last_message_preview, Some("line ".repeat(20)));
    assert_eq!(s.last_message_at, Some("2024-02-02T00:00:00+00:00".to_string()));
    let s = conversation_summary(7, None, 0, Some("t".to_string()), None, "c".to_string(), "u".to_string());
    assert_eq!(s.title, "Untitled");
    assert_eq!(s.last_message_preview, None);
    assert_eq!(s.last_message_at, None);
}

#[test]
fn citations_and_messages() {
    let content = format!("\"{}\"", "x".repeat(250));
    let c = citation(2, id(A), "\"Article\"".to_string(), Some("\"Doc\"".to_string()), Some(content));
    assert_eq!(c.number, 2);
    assert_eq!(c.entity_type, "Article");
    assert_eq!(c.title, "Doc");
    assert_eq!(c.snippet, "x".repeat(200));
    let c = citation(1, id(B), "bad".to_string(), None, Some("{}".to_string()));
    assert_eq!(c.entity_type, "");
    assert_eq!(c.title, "Untitled");
    assert_eq!(c.snippet, "");
    let m = message_detail(5, Some("{\"role\": \"user\", \"text\": \"q\"}".to_string()), vec![id(A)], vec![], "now".to_string());
    assert_eq!(m.role, MessageRole::User);
    assert_eq!(m.text, "q");
    assert_eq!(m.entity_refs, vec![id(A)]);
}

#[test]
fn undo_needs_a_snapshot() {
    assert_eq!(
        undo_merge_plan(None, 1, 2, 3, "now"),
        Err(StorageError::Internal("No snapshot available for undo".to_string()))
    );
    match undo_merge_plan(Some("{".to_string()), 1, 2, 3, "now") {
        Err(StorageError::Internal(m)) => assert!(m.starts_with("Invalid snapshot: ")),
        other => panic!("unexpected {:?}", other),
    }
}

#[test]
fn undo_restores_the_snapshot() {
    let snapshot = r#"{
        "source": {"entity_type": "Note", "is_active": false, "created_at": "c0", "version": 4,
                   "components": [{"id": "s1", "component_type": "Title", "data": "Old", "created_at": "c1", "version": 2}]},
        "target": {"components": [{"id": "t1", "component_type": "Content", "data": {"a": [1, 2]}}],
                   "relationships": [{"id": "r1", "target_id": "x", "relationship_type": "Links", "created_at": "c2"}]}
    }"#;
    let plan = undo_merge_plan(Some(snapshot.to_string()), id(B), id(A), id(B), "now").unwrap();
    assert_eq!(plan.len(), 7);
    assert_eq!(plan[0].sql, "DELETE FROM components WHERE entity_id = ?1");
    assert_eq!(plan[0].params, vec![SqlParam::Text(B.to_string())]);
    assert_eq!(
        plan[1].params,
        vec![
            SqlParam::Text("t1".to_string()),
            SqlParam::Text(B.to_string()),
            SqlParam::Text("Content".to_string()),
            SqlParam::Text("{\"a\":[1,2]}".to_string()),
            SqlParam::Text(String::new()),
            SqlParam::Int(1),
        ]
    );
    assert_eq!(plan[2].sql, "DELETE FROM relationships WHERE source_id = ?1 OR target_id = ?1");
    assert_eq!(
        plan[3].params,
        vec![
            SqlParam::Text("r1".to_string()),
            SqlParam::Text(B.to_string()),
            SqlParam::Text("x".to_string()),
            SqlParam::Text("Links".to_string()),
            SqlParam::Int(1),
            SqlParam::Text("c2".to_string()),
        ]
    );
    assert_eq!(
        plan[4].params,
        vec![
            SqlParam::Text(A.to_string()),
            SqlParam::Text("Note".to_string()),
            SqlParam::Int(0),
            SqlParam::Text("c0".to_string()),
            SqlParam::Text("now".to_string()),
            SqlParam::Int(4),
        ]
    );
    assert_eq!(plan[5].params[3], SqlParam::Text("\"Old\"".to_string()));
    assert_eq!(plan[5].params[5], SqlParam::Int(2));
    assert_eq!(plan[6].sql, "DELETE FROM resolution_log WHERE id = ?1");
    assert_eq!(plan[6].params, vec![SqlParam::Text(B.to_string())]);
}

#[test]
fn undo_with_an_empty_snapshot_only_clears_and_restores_the_source() {
    let plan = undo_merge_plan(Some("{}".to_string()), 9, id(A), id(B), "now").unwrap();
    assert_eq!(plan.len(), 4);
    assert_eq!(
        plan[2].params,
        vec![
            SqlParam::Text(A.to_string()),
            SqlParam::Text("Article".to_string()),
            SqlParam::Int(1),
            SqlParam::Text("now".to_string()),
            SqlParam::Text("now".to_string()),
            SqlParam::Int(1),
        ]
    );
}


#[test]
fn ignore_file_patterns() {
    assert_eq!(read_patterns("target/\n*.log\n"), Some(vec!["target/".to_string(), "*.log".to_string()]));
    assert_eq!(
        read_patterns("# comment\n\n  *.tmp  \r\n#x\nbuild/"),
        Some(vec!["*.tmp".to_string(), "build/".to_string()])
    );
    assert_eq!(read_patterns("# only comments\n\n"), None);
    assert_eq!(read_patterns(""), None);
}

#[test]
fn ignore_patterns_prefer_the_import_kosignore() {
    assert_eq!(choose_ignore_patterns(Some("*.secret\n"), Some("*.log\n"), None), vec!["*.secret".to_string()]);
    assert_eq!(choose_ignore_patterns(Some("# none\n"), Some("*.log\n"), Some("*.tmp")), vec!["*.log".to_string()]);
    assert_eq!(choose_ignore_patterns(None, None, Some("*.tmp\n")), vec!["*.tmp".to_string()]);
    let d = choose_ignore_patterns(None, Some(""), None);
    assert_eq!(d, default_ignore_patterns());
    assert_eq!(d.len(), 12);
    assert!(d.contains(&"node_modules/".to_string()));
}

#[test]
fn index_fields_of_an_entity() {
    let comps = vec![
        Component { component_type: ComponentType::Tags, data: ComponentData::List(vec!["rust".to_string(), "notes".to_string()]) },
        Component { component_type: ComponentType::Content, data: ComponentData::List(vec![]) },
        Component { component_type: ComponentType::Title, data: ComponentData::Text("First".to_string()) },
        Component { component_type: ComponentType::Title, data: ComponentData::Text("Second".to_string()) },
        Component { component_type: ComponentType::Content, data: ComponentData::Text("body".to_string()) },
    ];
    assert_eq!(search_fields(&comps), ("First".to_string(), String::new(), "rust, notes".to_string()));
    assert_eq!(search_fields(&vec![]), (String::new(), String::new(), String::new()));
}

#[test]
fn indexed_tags_match_whole_tags() {
    assert!(tags_contain("rust, notes", "notes"));
    assert!(tags_contain("rust", "rust"));
    assert!(!tags_contain("rust, notes", "not"));
    assert!(!tags_contain("", "x"));
    assert!(tags_contain("", ""));
}

#[test]
fn undo_statements_from_a_parsed_snapshot() {
    let plan = undo_statements_of(&Json::Object(Vec::new()), 9, id(A), id(B), "now");
    assert_eq!(plan, undo_merge_plan(Some("{}".to_string()), 9, id(A), id(B), "now").unwrap());
    assert_eq!(plan.len(), 4);
    assert_eq!(plan[3].params, vec![SqlParam::Text("00000000-0000-0000-0000-000000000009".to_string())]);
}

fn stored(kind: &str, title: Option<&str>, content: Option<&str>) -> StoredEntity {
    StoredEntity {
        entity_type_json: kind.to_string(),
        title_data: title.map(|t| t.to_string()),
        content_data: content.map(|t| t.to_string()),
    }
}

#[test]
fn conversation_detail_numbers_citations_by_reference_place() {
    let refs = format!("{{\"refs\": [\"{}\", \"{}\", \"{}\"]}}", A, B, "00000000-0000-0000-0000-00000000000c");
    let messages = vec![
        StoredMessage {
            id: 1,
            content_data: Some("{\"role\": \"assistant\", \"content\": \"see these\"}".to_string()),
            entity_refs_data: Some(refs),
            created_at: "t1".to_string(),
        },
        StoredMessage { id: 2, content_data: None, entity_refs_data: None, created_at: "t2".to_string() },
    ];
    let entities = vec![
        (id(A), stored("\"Note\"", Some("\"First\""), Some("\"body\""))),
        (0xc, stored("\"Paper\"", None, None)),
    ];
    let d = conversation_detail(7, "c".to_string(), "u".to_string(), None, messages, &entities);
    assert_eq!(d.id, 7);
    assert_eq!(d.title, "Untitled");
    assert_eq!(d.created_at, "c");
    assert_eq!(d.updated_at, "u");
    assert_eq!(d.messages.len(), 2);
    let m = &d.messages[0];
    assert_eq!(m.role, MessageRole::Assistant);
    assert_eq!(m.text, "see these");
    assert_eq!(m.entity_refs, vec![id(A), id(B), 0xc]);
    assert_eq!(m.citations.len(), 2);
    assert_eq!(m.citations[0].number, 1);
    assert_eq!(m.citations[0].entity_type, "Note");
    assert_eq!(m.citations[0].title, "First");
    assert_eq!(m.citations[0].snippet, "body");
    assert_eq!(m.citations[1].number, 3);
    assert_eq!(m.citations[1].entity_id, 0xc);
    assert_eq!(m.citations[1].title, "Untitled");
    assert_eq!(m.citations[1].snippet, "");
    assert_eq!(d.messages[1].role, MessageRole::User);
    assert!(d.messages[1].citations.is_empty());
    let titled = conversation_detail(7, "c".to_string(), "u".to_string(), Some("\"Chat\"".to_string()), Vec::new(), &entities);
    assert_eq!(titled.title, "Chat");
    assert!(citations_for(&vec![5], &entities).is_empty());
}
