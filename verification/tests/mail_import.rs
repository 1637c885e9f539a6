use knowledge_os::importers::{EmlImporter, MboxImporter, MsgImporter};
use knowledge_os::model::{ComponentData, ComponentType, Field, ImportError, ImportResult, Scalar};

fn text(r: &ImportResult, t: ComponentType) -> Option<String> {
    r.components.iter().find(|c| c.component_type == t).map(|c| match &c.data {
        ComponentData::Text(s) => s.clone(),
        ComponentData::Object(fs) => {
            let f: &Field = fs.iter().find(|f| f.key == "created_at" || f.key == "format").unwrap();
            match &f.value {
                Scalar::Text(s) => s.clone(),
                other => panic!("{:?}", other),
            }
        }
        other => panic!("{:?}", other),
    })
}

const EML: &[u8] = b"Subject: Hello there\r\nFrom: Ada <ada@example.com>\r\nDate: Mon, 1 Jan 2024 10:00:00 +0000\r\nContent-Type: text/plain\r\n\r\nBody text\r\n";

#[test]
fn eml_subject_sender_date_and_body() {
    let r = EmlImporter::new().import_at(EML, "mail/hello.eml", "T").unwrap();
    assert_eq!(r.entity.entity_type, "Email");
    assert_eq!(text(&r, ComponentType::Title).unwrap(), "Hello there");
    assert_eq!(text(&r, ComponentType::Author).unwrap(), "Ada <ada@example.com>");
    assert_eq!(text(&r, ComponentType::Timeline).unwrap(), "Mon, 1 Jan 2024 10:00:00 +0000");
    assert_eq!(text(&r, ComponentType::Provenance).unwrap(), "eml");
    assert_eq!(text(&r, ComponentType::Content).unwrap(), "");
}

#[test]
fn multipart_body_comes_from_the_first_part() {
    let data = b"Subject: Parts
Content-Type: multipart/alternative; boundary=XX

--XX
Content-Type: text/plain

plain part
--XX
Content-Type: text/html

<p>html</p>
--XX--
";
    let r = EmlImporter::new().import_at(data, "p.eml", "T").unwrap();
    assert!(text(&r, ComponentType::Content).unwrap().contains("plain part"));
}

#[test]
fn eml_without_subject_uses_file_stem() {
    let r = EmlImporter::new().import(b"From: x@y\r\n\r\nhi\r\n", "dir/note.eml").unwrap();
    assert_eq!(text(&r, ComponentType::Title).unwrap(), "note");
}

#[test]
fn msg_has_no_timeline() {
    let r = MsgImporter::new().import_at(EML, "m.msg", "T").unwrap();
    assert_eq!(text(&r, ComponentType::Provenance).unwrap(), "msg");
    assert!(text(&r, ComponentType::Timeline).is_none());
}

#[test]
fn mbox_splits_messages() {
    let mbox = "From a@b Mon Jan 1 00:00:00 2024\nSubject: First\n\nbody one\n\nFrom c@d Tue Jan 2 00:00:00 2024\nFrom: c@d\n\nbody two\n";
    let rs = MboxImporter::new().import_mbox_at(mbox, "box.mbox", "T").unwrap();
    assert_eq!(rs.len(), 2);
    assert_eq!(text(&rs[0], ComponentType::Title).unwrap(), "First");
    assert_eq!(text(&rs[1], ComponentType::Title).unwrap(), "Message 2");
    assert_eq!(text(&rs[1], ComponentType::Author).unwrap(), "c@d");
    assert!(MboxImporter::new().import_mbox_at("  \n ", "e.mbox", "T").unwrap().is_empty());
    assert!(matches!(MboxImporter::new().import("b.mbox"), Err(ImportError::Parse(_))));
}
