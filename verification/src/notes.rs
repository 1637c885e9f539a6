//! Importing exports of note-taking apps: Evernote (ENEX) notes and OPML
//! outlines, read as XML event streams.

use vstd::prelude::*;
use crate::clock::now_rfc3339;
use crate::importers::{EnexImporter, OpmlImporter};
use crate::model::{
    components_view, opt_view, plain_result, provenance, provenance_v, results_view, strings_view,
    text_component, text_v, Component, ComponentData, ComponentType, DataV, ImportError,
    ImportResult, ResultV,
};
use crate::text::{append_str, same_text};
use crate::xml::{
    attrs_view, attributes_at, events_view, name_is, named, scan_xml, unescape_xml,
    xml_attributes, xml_events, xml_unescaped, XmlEvent, XmlEventV,
};

verus! {

/// The state of reading an ENEX export: which elements of a note are
/// open, what the current note has so far, and the notes finished.
pub struct EnexState {
    pub in_note: bool,
    pub in_title: bool,
    pub in_content: bool,
    pub in_tag: bool,
    pub title: Seq<char>,
    pub content: Seq<char>,
    pub tags: Seq<Seq<char>>,
    pub notes: Seq<ResultV>,
}

/// The note made of a finished `<note>`: its title (`Untitled Note` when
/// empty), its content, its provenance, and its tags when it has any.
pub open spec fn enex_note(title: Seq<char>, content: Seq<char>, tags: Seq<Seq<char>>, source: Seq<char>, t: Seq<char>) -> ResultV {
    let base = seq![
        text_v(ComponentType::Title, if title.len() == 0 { "Untitled Note"@ } else { title }),
        text_v(ComponentType::Content, content),
        provenance_v(source, t, "enex"@),
    ];
    ResultV {
        entity_type: "Note"@,
        components: if tags.len() > 0 {
            base.push((ComponentType::Tags, DataV::List(tags)))
        } else {
            base
        },
        cross_references: Seq::empty(),
    }
}

/// The state after one event: a `<note>` starts a new note; `<title>`,
/// `<content>` and `<tag>` inside a note are opened and closed; text goes
/// to the open title, else content, else becomes a tag; `</note>` finishes
/// the note.
pub open spec fn enex_step(s: EnexState, e: XmlEventV, source: Seq<char>, t: Seq<char>) -> EnexState {
    match e {
        XmlEventV::Start(n) => if named(n, "note"@) {
            EnexState { in_note: true, title: Seq::empty(), content: Seq::empty(), tags: Seq::empty(), ..s }
        } else if s.in_note && named(n, "title"@) {
            EnexState { in_title: true, ..s }
        } else if s.in_note && named(n, "content"@) {
            EnexState { in_content: true, ..s }
        } else if s.in_note && named(n, "tag"@) {
            EnexState { in_tag: true, ..s }
        } else {
            s
        },
        XmlEventV::Text(raw) => match xml_unescaped(raw) {
            Some(x) => if s.in_title {
                EnexState { title: s.title + x, ..s }
            } else if s.in_content {
                EnexState { content: s.content + x, ..s }
            } else if s.in_tag {
                EnexState { tags: s.tags.push(x), ..s }
            } else {
                s
            },
            None => s,
        },
        XmlEventV::End(n) => if named(n, "title"@) {
            EnexState { in_title: false, ..s }
        } else if named(n, "content"@) {
            EnexState { in_content: false, ..s }
        } else if named(n, "tag"@) {
            EnexState { in_tag: false, ..s }
        } else if named(n, "note"@) && s.in_note {
            EnexState {
                in_note: false,
                notes: s.notes.push(enex_note(s.title, s.content, s.tags, source, t)),
                ..s
            }
        } else {
            s
        },
        _ => s,
    }
}

/// The state after the events `es`, from the start.
pub open spec fn enex_fold(es: Seq<XmlEventV>, source: Seq<char>, t: Seq<char>) -> EnexState
    decreases es.len(),
{
    if es.len() == 0 {
        EnexState {
            in_note: false,
            in_title: false,
            in_content: false,
            in_tag: false,
            title: Seq::empty(),
            content: Seq::empty(),
            tags: Seq::empty(),
            notes: Seq::empty(),
        }
    } else {
        enex_step(enex_fold(es.drop_last(), source, t), es.last(), source, t)
    }
}

/// The state after the events `es`, from the state `s`.
pub open spec fn enex_run(s: EnexState, es: Seq<XmlEventV>, source: Seq<char>, t: Seq<char>) -> EnexState
    decreases es.len(),
{
    if es.len() == 0 {
        s
    } else {
        enex_step(enex_run(s, es.drop_last(), source, t), es.last(), source, t)
    }
}

/// The events of `<tag>` elements named `tag`, holding the texts `raws` in order.
pub open spec fn tag_events(tag: Seq<u8>, raws: Seq<Seq<u8>>) -> Seq<XmlEventV>
    decreases raws.len(),
{
    if raws.len() == 0 {
        Seq::empty()
    } else {
        tag_events(tag, raws.drop_last()) + seq![
            XmlEventV::Start(tag),
            XmlEventV::Text(raws.last()),
            XmlEventV::End(tag),
        ]
    }
}

proof fn lemma_enex_run_split(s: EnexState, a: Seq<XmlEventV>, b: Seq<XmlEventV>, source: Seq<char>, t: Seq<char>)
    ensures
        enex_run(s, a + b, source, t) == enex_run(enex_run(s, a, source, t), b, source, t),
    decreases b.len(),
{
    if b.len() == 0 {
        assert(a + b =~= a);
    } else {
        lemma_enex_run_split(s, a, b.drop_last(), source, t);
        assert((a + b).drop_last() =~= a + b.drop_last());
        assert((a + b).last() == b.last());
    }
}

proof fn lemma_enex_fold_run(es: Seq<XmlEventV>, source: Seq<char>, t: Seq<char>)
    ensures
        enex_fold(es, source, t) == enex_run(enex_fold(Seq::empty(), source, t), es, source, t),
    decreases es.len(),
{
    if es.len() > 0 {
        lemma_enex_fold_run(es.drop_last(), source, t);
    }
}

proof fn lemma_names_differ()
    ensures
        "tag"@ != "note"@,
        "tag"@ != "title"@,
        "tag"@ != "content"@,
        "note"@ != "title"@,
        "note"@ != "content"@,
        "note"@ != "tag"@,
{
    reveal_strlit("tag");
    reveal_strlit("note");
    reveal_strlit("title");
    reveal_strlit("content");
    assert("tag"@[0] != "note"@[0]);
    assert("tag"@[1] != "title"@[1]);
    assert("tag"@[0] != "content"@[0]);
    assert("note"@[0] != "title"@[0]);
    assert("note"@[0] != "content"@[0]);
}

proof fn lemma_run_tags(
    s: EnexState,
    tag: Seq<u8>,
    raws: Seq<Seq<u8>>,
    xs: Seq<Seq<char>>,
    source: Seq<char>,
    t: Seq<char>,
)
    requires
        s.in_note,
        !s.in_title,
        !s.in_content,
        !s.in_tag,
        named(tag, "tag"@),
        raws.len() == xs.len(),
        forall|i: int| 0 <= i < raws.len() ==> xml_unescaped(#[trigger] raws[i]) == Some(xs[i]),
    ensures
        enex_run(s, tag_events(tag, raws), source, t) == (EnexState { tags: s.tags + xs, ..s }),
    decreases raws.len(),
{
    lemma_names_differ();
    if raws.len() == 0 {
        assert(tag_events(tag, raws) =~= Seq::<XmlEventV>::empty());
        assert(s.tags + xs =~= s.tags);
        assert(enex_run(s, tag_events(tag, raws), source, t) == s);
    } else {
        let r0 = raws.drop_last();
        let x0 = xs.drop_last();
        assert forall|i: int| 0 <= i < r0.len() implies xml_unescaped(#[trigger] r0[i]) == Some(x0[i]) by {
            assert(r0[i] == raws[i]);
        }
        lemma_run_tags(s, tag, r0, x0, source, t);
        let three = seq![XmlEventV::Start(tag), XmlEventV::Text(raws.last()), XmlEventV::End(tag)];
        assert(tag_events(tag, raws) == tag_events(tag, r0) + three);
        lemma_enex_run_split(s, tag_events(tag, r0), three, source, t);
        let s1 = EnexState { tags: s.tags + x0, ..s };
        let x = xs.last();
        assert(xml_unescaped(raws[raws.len() - 1]) == Some(xs[xs.len() - 1]));
        assert(!named(tag, "note"@) && !named(tag, "title"@) && !named(tag, "content"@));
        let a1 = EnexState { in_tag: true, ..s1 };
        let a2 = EnexState { tags: s1.tags.push(x), ..a1 };
        let a3 = EnexState { in_tag: false, ..a2 };
        assert(enex_step(s1, XmlEventV::Start(tag), source, t) == a1);
        assert(enex_step(a1, XmlEventV::Text(raws.last()), source, t) == a2);
        assert(enex_step(a2, XmlEventV::End(tag), source, t) == a3);
        assert(three.drop_last().drop_last().drop_last() =~= Seq::<XmlEventV>::empty());
        assert(three.drop_last().drop_last() =~= seq![XmlEventV::Start(tag)]);
        assert(three.drop_last() =~= seq![XmlEventV::Start(tag), XmlEventV::Text(raws.last())]);
        assert(enex_run(s1, three.drop_last().drop_last().drop_last(), source, t) == s1);
        assert(enex_run(s1, three.drop_last().drop_last(), source, t) == a1);
        assert(enex_run(s1, three.drop_last(), source, t) == a2);
        assert(enex_run(s1, three, source, t) == a3);
        assert((s.tags + x0).push(x) =~= s.tags + xs);
        assert(a3 == EnexState { tags: s.tags + xs, ..s });
    }
}

/// A note's tags are all its `<tag>` texts, in order: a `<note>` made of
/// tags whose texts read `xs`, met where no title, content or tag is
/// open, adds one note whose tags are exactly `xs` (no title, no content).
pub proof fn law_note_keeps_every_tag(
    es: Seq<XmlEventV>,
    note: Seq<u8>,
    tag: Seq<u8>,
    raws: Seq<Seq<u8>>,
    xs: Seq<Seq<char>>,
    source: Seq<char>,
    t: Seq<char>,
)
    requires
        !enex_fold(es, source, t).in_title,
        !enex_fold(es, source, t).in_content,
        !enex_fold(es, source, t).in_tag,
        named(note, "note"@),
        named(tag, "tag"@),
        raws.len() == xs.len(),
        forall|i: int| 0 <= i < raws.len() ==> xml_unescaped(#[trigger] raws[i]) == Some(xs[i]),
    ensures
        enex_fold(
            es + seq![XmlEventV::Start(note)] + tag_events(tag, raws) + seq![XmlEventV::End(note)],
            source,
            t,
        ).notes == enex_fold(es, source, t).notes.push(enex_note(Seq::empty(), Seq::empty(), xs, source, t)),
{
    lemma_names_differ();
    let s0 = enex_fold(es, source, t);
    let all = es + seq![XmlEventV::Start(note)] + tag_events(tag, raws) + seq![XmlEventV::End(note)];
    let e0 = enex_fold(Seq::empty(), source, t);
    lemma_enex_fold_run(all, source, t);
    lemma_enex_fold_run(es, source, t);
    let mid = seq![XmlEventV::Start(note)] + tag_events(tag, raws) + seq![XmlEventV::End(note)];
    assert(all =~= es + mid);
    lemma_enex_run_split(e0, es, mid, source, t);
    lemma_enex_run_split(s0, seq![XmlEventV::Start(note)] + tag_events(tag, raws), seq![XmlEventV::End(note)], source, t);
    lemma_enex_run_split(s0, seq![XmlEventV::Start(note)], tag_events(tag, raws), source, t);
    assert(seq![XmlEventV::Start(note)].drop_last() =~= Seq::<XmlEventV>::empty());
    assert(enex_run(s0, Seq::<XmlEventV>::empty(), source, t) == s0);
    let s1 = EnexState { in_note: true, title: Seq::empty(), content: Seq::empty(), tags: Seq::empty(), ..s0 };
    assert(enex_step(s0, XmlEventV::Start(note), source, t) == s1);
    assert(enex_run(s0, seq![XmlEventV::Start(note)], source, t) == s1);
    lemma_run_tags(s1, tag, raws, xs, source, t);
    assert(Seq::<Seq<char>>::empty() + xs =~= xs);
    let s2 = EnexState { tags: xs, ..s1 };
    assert(enex_run(s0, seq![XmlEventV::Start(note)] + tag_events(tag, raws), source, t) == s2);
    assert(seq![XmlEventV::End(note)].drop_last() =~= Seq::<XmlEventV>::empty());
    assert(enex_run(s2, Seq::<XmlEventV>::empty(), source, t) == s2);
    assert(!named(note, "title"@) && !named(note, "content"@) && !named(note, "tag"@));
    assert(enex_step(s2, XmlEventV::End(note), source, t).notes == s0.notes.push(
        enex_note(Seq::empty(), Seq::empty(), xs, source, t),
    ));
    assert(enex_run(s2, seq![XmlEventV::End(note)], source, t).notes == s0.notes.push(
        enex_note(Seq::empty(), Seq::empty(), xs, source, t),
    ));
}

/// The notes of an ENEX export (reading stops at the first XML error), or
/// an error when it holds none.
pub open spec fn enex_notes(data: Seq<u8>, source: Seq<char>, t: Seq<char>) -> Result<Seq<ResultV>, Seq<char>> {
    enex_event_notes(xml_events(data).0, source, t)
}

/// The notes that the XML events `es` of an ENEX export describe, or an
/// error when they describe none.
pub open spec fn enex_event_notes(es: Seq<XmlEventV>, source: Seq<char>, t: Seq<char>) -> Result<Seq<ResultV>, Seq<char>> {
    let notes = enex_fold(es, source, t).notes;
    if notes.len() == 0 {
        Err("No notes found in ENEX file"@)
    } else {
        Ok(notes)
    }
}

/// Whether an import gave the wanted notes, or the wanted parse error.
pub open spec fn notes_outcome(r: Result<Vec<ImportResult>, ImportError>, want: Result<Seq<ResultV>, Seq<char>>) -> bool {
    match want {
        Ok(v) => r matches Ok(x) && results_view(x@) == v,
        Err(m) => r matches Err(ImportError::Parse(e)) && e@ == m,
    }
}

fn make_enex_note(title: &String, content: &String, tags: &Vec<String>, source: &str, t: &str) -> (r: ImportResult)
    ensures
        r@ == enex_note(title@, content@, strings_view(tags@), source@, t@),
{
    let mut components: Vec<Component> = Vec::new();
    let shown = if title.as_str().is_empty() {
        "Untitled Note".to_string()
    } else {
        title.clone()
    };
    components.push(text_component(ComponentType::Title, shown));
    components.push(text_component(ComponentType::Content, content.clone()));
    components.push(provenance(source, t, "enex"));
    let ghost base = components_view(components@);
    if tags.len() > 0 {
        let mut list: Vec<String> = Vec::new();
        let mut i: usize = 0;
        while i < tags.len()
            invariant
                i <= tags.len(),
                strings_view(list@) == strings_view(tags@).take(i as int),
            decreases tags.len() - i,
        {
            let ghost before = strings_view(list@);
            let c = tags[i].clone();
            list.push(c);
            assert(strings_view(list@) =~= before.push(tags@[i as int]@));
            assert(strings_view(tags@).take(i + 1) =~= strings_view(tags@).take(i as int).push(
                tags@[i as int]@,
            ));
            i += 1;
        }
        assert(strings_view(tags@).take(tags.len() as int) =~= strings_view(tags@));
        components.push(Component { component_type: ComponentType::Tags, data: ComponentData::List(list) });
    }
    let r = plain_result("Note", components);
    assert(r@.components =~= enex_note(title@, content@, strings_view(tags@), source@, t@).components);
    r
}

impl EnexImporter {
    /// The notes of an ENEX export read from `source_path`, imported at
    /// `imported_at` (see `enex_notes`).
    pub fn import_enex_at(&self, data: &[u8], source_path: &str, imported_at: &str) -> (r: Result<
        Vec<ImportResult>,
        ImportError,
    >)
        ensures
            notes_outcome(r, enex_notes(data@, source_path@, imported_at@)),
    {
        let (events, _error) = scan_xml(data);
        self.import_events_at(&events, source_path, imported_at)
    }

    /// The notes that the XML events of an ENEX export read from
    /// `source_path` describe, imported at `imported_at` (see `enex_event_notes`).
    pub fn import_events_at(&self, events: &Vec<XmlEvent>, source_path: &str, imported_at: &str) -> (r:
        Result<Vec<ImportResult>, ImportError>)
        ensures
            notes_outcome(r, enex_event_notes(events_view(events@), source_path@, imported_at@)),
    {
        let ghost es = events_view(events@);
        let mut in_note = false;
        let mut in_title = false;
        let mut in_content = false;
        let mut in_tag = false;
        let mut title = String::new();
        let mut content = String::new();
        let mut tags: Vec<String> = Vec::new();
        let mut notes: Vec<ImportResult> = Vec::new();
        let mut i: usize = 0;
        assert(es.take(0) =~= Seq::<XmlEventV>::empty());
        assert(strings_view(tags@) =~= Seq::<Seq<char>>::empty());
        assert(results_view(notes@) =~= Seq::<ResultV>::empty());
        while i < events.len()
            invariant
                i <= events@.len(),
                es == events_view(events@),
                enex_fold(es.take(i as int), source_path@, imported_at@) == (EnexState {
                    in_note,
                    in_title,
                    in_content,
                    in_tag,
                    title: title@,
                    content: content@,
                    tags: strings_view(tags@),
                    notes: results_view(notes@),
                }),
            decreases events@.len() - i,
        {
            proof {
                assert(es.take(i + 1).drop_last() =~= es.take(i as int));
                assert(es.take(i + 1).last() == events@[i as int]@);
            }
            match &events[i] {
                XmlEvent::Start(n) => {
                    if name_is(n, "note") {
                        in_note = true;
                        title = String::new();
                        content = String::new();
                        tags = Vec::new();
                        assert(strings_view(tags@) =~= Seq::<Seq<char>>::empty());
                    } else if in_note && name_is(n, "title") {
                        in_title = true;
                    } else if in_note && name_is(n, "content") {
                        in_content = true;
                    } else if in_note && name_is(n, "tag") {
                        in_tag = true;
                    }
                },
                XmlEvent::Text(raw) => {
                    match unescape_xml(raw.as_slice()) {
                        Some(x) => {
                            if in_title {
                                append_str(&mut title, x.as_str());
                            } else if in_content {
                                append_str(&mut content, x.as_str());
                            } else if in_tag {
                                let ghost before = strings_view(tags@);
                                let ghost xv = x@;
                                tags.push(x);
                                assert(strings_view(tags@) =~= before.push(xv));
                            }
                        },
                        None => {},
                    }
                },
                XmlEvent::End(n) => {
                    if name_is(n, "title") {
                        in_title = false;
                    } else if name_is(n, "content") {
                        in_content = false;
                    } else if name_is(n, "tag") {
                        in_tag = false;
                    } else if name_is(n, "note") && in_note {
                        in_note = false;
                        let note = make_enex_note(&title, &content, &tags, source_path, imported_at);
                        let ghost before = results_view(notes@);
                        notes.push(note);
                        assert(results_view(notes@) =~= before.push(note@));
                    }
                },
                _ => {},
            }
            i += 1;
        }
        assert(es.take(events@.len() as int) =~= es);
        if notes.len() == 0 {
            return Err(ImportError::Parse("No notes found in ENEX file".to_string()));
        }
        Ok(notes)
    }

    /// The notes of an ENEX export, stamped with the current time.
    pub fn import_enex(&self, data: &[u8], source_path: &str) -> (r: Result<Vec<ImportResult>, ImportError>)
        ensures
            exists|t: Seq<char>| #[trigger] notes_outcome(r, enex_notes(data@, source_path@, t)),
    {
        let now = now_rfc3339();
        self.import_enex_at(data, source_path, now.as_str())
    }

    /// An export holds many notes, so a single-entity import is refused.
    pub fn import(&self, path: &str) -> (r: Result<ImportResult, ImportError>)
        ensures
            r matches Err(ImportError::Parse(m)) && m@
                == "ENEX import creates multiple entities. Use import_enex() for multi-entity import."@,
    {
        Err(
            ImportError::Parse(
                "ENEX import creates multiple entities. Use import_enex() for multi-entity import.".to_string(),
            ),
        )
    }
}

/// The `text` attribute of an outline tag: the value of its last readable
/// `text` attribute (empty when there is none), or the message of the
/// first attribute that cannot be read.
pub open spec fn outline_text(attrs: Seq<Result<(Option<Seq<char>>, Option<Seq<char>>), Seq<char>>>) -> Result<
    Seq<char>,
    Seq<char>,
>
    decreases attrs.len(),
{
    if attrs.len() == 0 {
        Ok(Seq::empty())
    } else {
        match outline_text(attrs.drop_last()) {
            Err(m) => Err(m),
            Ok(t) => match attrs.last() {
                Err(m) => Err(m),
                Ok(kv) => if kv.0 == Some("text"@) && kv.1 is Some {
                    Ok(kv.1->0)
                } else {
                    Ok(t)
                },
            },
        }
    }
}

/// The state of reading an OPML document: the text of the current
/// outline, the outlines imported, and the attribute error that stopped
/// the reading, if any.
pub struct OpmlState {
    pub text: Seq<char>,
    pub outlines: Seq<ResultV>,
    pub error: Option<Seq<char>>,
}

/// The article made of an outline with the given text.
pub open spec fn opml_outline(text: Seq<char>, source: Seq<char>, t: Seq<char>) -> ResultV {
    ResultV {
        entity_type: "Article"@,
        components: seq![text_v(ComponentType::Title, text), provenance_v(source, t, "opml"@)],
        cross_references: Seq::empty(),
    }
}

/// The state after the event `e`, whose outline text (when it opens an
/// outline) is `text`: a self-closing outline with a text becomes an
/// article; an opening outline sets the current text, which its closing
/// tag turns into an article (when not empty) and clears. An unreadable
/// attribute stops the reading.
pub open spec fn opml_step(s: OpmlState, e: XmlEventV, text: Result<Seq<char>, Seq<char>>, source: Seq<char>, t: Seq<char>) -> OpmlState {
    if s.error is Some {
        s
    } else {
        match e {
            XmlEventV::Empty(n) => if named(n, "outline"@) {
                match text {
                    Err(m) => OpmlState { error: Some(m), ..s },
                    Ok(x) => OpmlState {
                        text: x,
                        outlines: if x.len() > 0 {
                            s.outlines.push(opml_outline(x, source, t))
                        } else {
                            s.outlines
                        },
                        ..s
                    },
                }
            } else {
                s
            },
            XmlEventV::Start(n) => if named(n, "outline"@) {
                match text {
                    Err(m) => OpmlState { error: Some(m), ..s },
                    Ok(x) => OpmlState { text: x, ..s },
                }
            } else {
                s
            },
            XmlEventV::End(n) => if named(n, "outline"@) {
                OpmlState {
                    text: Seq::empty(),
                    outlines: if s.text.len() > 0 {
                        s.outlines.push(opml_outline(s.text, source, t))
                    } else {
                        s.outlines
                    },
                    ..s
                }
            } else {
                s
            },
            _ => s,
        }
    }
}

/// The outline text given for the event at position `i`: `texts[i]`, or
/// an empty text past the end of `texts`.
pub open spec fn text_at(texts: Seq<Result<Seq<char>, Seq<char>>>, i: int) -> Result<Seq<char>, Seq<char>> {
    if 0 <= i < texts.len() {
        texts[i]
    } else {
        Ok(Seq::empty())
    }
}

/// The state after the events `es`, the event at position `i` having the
/// outline text `text_at(texts, i)`.
pub open spec fn opml_fold(es: Seq<XmlEventV>, texts: Seq<Result<Seq<char>, Seq<char>>>, source: Seq<char>, t: Seq<char>) -> OpmlState
    decreases es.len(),
{
    if es.len() == 0 {
        OpmlState { text: Seq::empty(), outlines: Seq::empty(), error: None }
    } else {
        opml_step(opml_fold(es.drop_last(), texts, source, t), es.last(), text_at(texts, es.len() - 1), source, t)
    }
}

/// Whether `e` opens an outline (self-closing or not).
pub open spec fn opens_outline(e: XmlEventV) -> bool {
    match e {
        XmlEventV::Start(n) => named(n, "outline"@),
        XmlEventV::Empty(n) => named(n, "outline"@),
        _ => false,
    }
}

/// The outline text of each event of `es`, the events of `data`: for an
/// event that opens an outline, the `text` of its attributes (see
/// `outline_text`); for any other, an empty text.
pub open spec fn outline_texts(data: Seq<u8>, es: Seq<XmlEventV>) -> Seq<Result<Seq<char>, Seq<char>>> {
    Seq::new(
        es.len(),
        |i: int|
            if opens_outline(es[i]) {
                outline_text(xml_attributes(data, i as nat))
            } else {
                Ok(Seq::empty())
            },
    )
}

/// The outlines that the XML events `es` describe, the event at position
/// `i` having the outline text `text_at(texts, i)`, as articles; or the
/// error of an unreadable attribute, or an error when there are none.
pub open spec fn opml_event_outlines(
    es: Seq<XmlEventV>,
    texts: Seq<Result<Seq<char>, Seq<char>>>,
    source: Seq<char>,
    t: Seq<char>,
) -> Result<Seq<ResultV>, Seq<char>> {
    let s = opml_fold(es, texts, source, t);
    match s.error {
        Some(m) => Err(m),
        None => if s.outlines.len() == 0 {
            Err("No outlines found in OPML file"@)
        } else {
            Ok(s.outlines)
        },
    }
}

/// The outlines of an OPML document as articles (reading stops at the
/// first XML error), or the error of an unreadable attribute, or an error
/// when it holds none.
pub open spec fn opml_outlines(data: Seq<u8>, source: Seq<char>, t: Seq<char>) -> Result<Seq<ResultV>, Seq<char>> {
    let es = xml_events(data).0;
    opml_event_outlines(es, outline_texts(data, es), source, t)
}

/// The mathematical value of a list of outline texts.
pub open spec fn texts_view(v: Seq<Result<String, String>>) -> Seq<Result<Seq<char>, Seq<char>>> {
    v.map_values(|x: Result<String, String>| match x {
        Ok(s) => Ok(s@),
        Err(m) => Err(m@),
    })
}

fn key_is(k: &Option<String>, name: &str) -> (b: bool)
    ensures
        b == (opt_view(*k) == Some(name@)),
{
    match k {
        Some(x) => same_text(x.as_str(), name),
        None => false,
    }
}

fn read_outline_text(data: &[u8], index: usize) -> (r: Result<String, String>)
    ensures
        match r {
            Ok(x) => outline_text(xml_attributes(data@, index as nat)) == Ok::<Seq<char>, Seq<char>>(x@),
            Err(m) => outline_text(xml_attributes(data@, index as nat)) == Err::<Seq<char>, Seq<char>>(m@),
        },
{
    let attrs = attributes_at(data, index);
    let ghost av = attrs_view(attrs@);
    let mut text = String::new();
    let mut i: usize = 0;
    assert(av.take(0) =~= Seq::<Result<(Option<Seq<char>>, Option<Seq<char>>), Seq<char>>>::empty());
    while i < attrs.len()
        invariant
            i <= attrs.len(),
            av == attrs_view(attrs@),
            av == xml_attributes(data@, index as nat),
            outline_text(av.take(i as int)) == Ok::<Seq<char>, Seq<char>>(text@),
        decreases attrs.len() - i,
    {
        proof {
            assert(av.take(i + 1).drop_last() =~= av.take(i as int));
            assert(av.take(i + 1).last() == av[i as int]);
        }
        match &attrs[i] {
            Err(m) => {
                proof {
                    lemma_outline_text_stops(av, i + 1);
                }
                return Err(m.clone());
            },
            Ok((k, v)) => {
                if key_is(k, "text") {
                    match v {
                        Some(x) => {
                            text = x.clone();
                        },
                        None => {},
                    }
                }
            },
        }
        i += 1;
    }
    assert(av.take(attrs.len() as int) =~= av);
    Ok(text)
}

proof fn lemma_outline_text_stops(
    a: Seq<Result<(Option<Seq<char>>, Option<Seq<char>>), Seq<char>>>,
    n: int,
)
    requires
        0 <= n <= a.len(),
        outline_text(a.take(n)) is Err,
    ensures
        outline_text(a) == outline_text(a.take(n)),
    decreases a.len() - n,
{
    if n < a.len() {
        assert(a.take(n + 1).drop_last() =~= a.take(n));
        lemma_outline_text_stops(a, n + 1);
    } else {
        assert(a.take(n) =~= a);
    }
}

proof fn lemma_opml_fold_stops(
    es: Seq<XmlEventV>,
    texts: Seq<Result<Seq<char>, Seq<char>>>,
    source: Seq<char>,
    t: Seq<char>,
    n: int,
)
    requires
        0 <= n <= es.len(),
        opml_fold(es.take(n), texts, source, t).error is Some,
    ensures
        opml_fold(es, texts, source, t) == opml_fold(es.take(n), texts, source, t),
    decreases es.len() - n,
{
    if n < es.len() {
        assert(es.take(n + 1).drop_last() =~= es.take(n));
        lemma_opml_fold_stops(es, texts, source, t, n + 1);
    } else {
        assert(es.take(n) =~= es);
    }
}

fn make_outline(text: &String, source: &str, t: &str) -> (r: ImportResult)
    ensures
        r@ == opml_outline(text@, source@, t@),
{
    let mut components: Vec<Component> = Vec::new();
    components.push(text_component(ComponentType::Title, text.clone()));
    components.push(provenance(source, t, "opml"));
    let r = plain_result("Article", components);
    assert(r@.components =~= opml_outline(text@, source@, t@).components);
    r
}

impl OpmlImporter {
    /// The outlines of an OPML document read from `source_path`, imported
    /// at `imported_at` (see `opml_outlines`).
    pub fn import_opml_at(&self, data: &[u8], source_path: &str, imported_at: &str) -> (r: Result<
        Vec<ImportResult>,
        ImportError,
    >)
        ensures
            notes_outcome(r, opml_outlines(data@, source_path@, imported_at@)),
    {
        let (events, _error) = scan_xml(data);
        let ghost es = events_view(events@);
        let mut texts: Vec<Result<String, String>> = Vec::new();
        let mut i: usize = 0;
        while i < events.len()
            invariant
                i <= events@.len(),
                es == events_view(events@),
                texts@.len() == i,
                forall|k: int| 0 <= k < i ==> #[trigger] texts_view(texts@)[k] == outline_texts(data@, es)[k],
            decreases events@.len() - i,
        {
            let opens = match &events[i] {
                XmlEvent::Start(n) => name_is(n, "outline"),
                XmlEvent::Empty(n) => name_is(n, "outline"),
                _ => false,
            };
            assert(opens == opens_outline(es[i as int]));
            let ghost before = texts@;
            if opens {
                texts.push(read_outline_text(data, i));
            } else {
                texts.push(Ok(String::new()));
            }
            assert(texts_view(texts@)[i as int] == outline_texts(data@, es)[i as int]);
            assert forall|k: int| 0 <= k < i implies #[trigger] texts_view(texts@)[k] == outline_texts(
                data@,
                es,
            )[k] by {
                assert(texts@[k] == before[k]);
                assert(texts_view(before)[k] == outline_texts(data@, es)[k]);
            }
            i += 1;
        }
        assert(texts_view(texts@) =~= outline_texts(data@, es));
        self.import_outline_events_at(&events, &texts, source_path, imported_at)
    }

    /// The outlines that the XML events of an OPML document read from
    /// `source_path` describe, each event given its outline text
    /// (`texts`, see `opml_event_outlines`), imported at `imported_at`.
    pub fn import_outline_events_at(
        &self,
        events: &Vec<XmlEvent>,
        texts: &Vec<Result<String, String>>,
        source_path: &str,
        imported_at: &str,
    ) -> (r: Result<Vec<ImportResult>, ImportError>)
        ensures
            notes_outcome(
                r,
                opml_event_outlines(events_view(events@), texts_view(texts@), source_path@, imported_at@),
            ),
    {
        let ghost es = events_view(events@);
        let ghost tv = texts_view(texts@);
        let mut text = String::new();
        let mut outlines: Vec<ImportResult> = Vec::new();
        let mut i: usize = 0;
        assert(es.take(0) =~= Seq::<XmlEventV>::empty());
        assert(results_view(outlines@) =~= Seq::<ResultV>::empty());
        while i < events.len()
            invariant
                i <= events@.len(),
                es == events_view(events@),
                tv == texts_view(texts@),
                opml_fold(es.take(i as int), tv, source_path@, imported_at@) == (OpmlState {
                    text: text@,
                    outlines: results_view(outlines@),
                    error: None,
                }),
            decreases events@.len() - i,
        {
            proof {
                assert(es.take(i + 1).drop_last() =~= es.take(i as int));
                assert(es.take(i + 1).last() == events@[i as int]@);
            }
            let given = if i < texts.len() {
                match &texts[i] {
                    Ok(x) => Ok(x.clone()),
                    Err(m) => Err(m.clone()),
                }
            } else {
                Ok(String::new())
            };
            assert(match given {
                Ok(x) => text_at(tv, i as int) == Ok::<Seq<char>, Seq<char>>(x@),
                Err(m) => text_at(tv, i as int) == Err::<Seq<char>, Seq<char>>(m@),
            });
            match &events[i] {
                XmlEvent::Empty(n) => {
                    if name_is(n, "outline") {
                        match given {
                            Err(m) => {
                                proof {
                                    lemma_opml_fold_stops(es, tv, source_path@, imported_at@, i + 1);
                                }
                                return Err(ImportError::Parse(m));
                            },
                            Ok(x) => {
                                text = x;
                                if !text.as_str().is_empty() {
                                    let o = make_outline(&text, source_path, imported_at);
                                    let ghost before = results_view(outlines@);
                                    outlines.push(o);
                                    assert(results_view(outlines@) =~= before.push(o@));
                                }
                            },
                        }
                    }
                },
                XmlEvent::Start(n) => {
                    if name_is(n, "outline") {
                        match given {
                            Err(m) => {
                                proof {
                                    lemma_opml_fold_stops(es, tv, source_path@, imported_at@, i + 1);
                                }
                                return Err(ImportError::Parse(m));
                            },
                            Ok(x) => {
                                text = x;
                            },
                        }
                    }
                },
                XmlEvent::End(n) => {
                    if name_is(n, "outline") {
                        if !text.as_str().is_empty() {
                            let o = make_outline(&text, source_path, imported_at);
                            let ghost before = results_view(outlines@);
                            outlines.push(o);
                            assert(results_view(outlines@) =~= before.push(o@));
                        }
                        text = String::new();
                    }
                },
                _ => {},
            }
            i += 1;
        }
        assert(es.take(events@.len() as int) =~= es);
        if outlines.len() == 0 {
            return Err(ImportError::Parse("No outlines found in OPML file".to_string()));
        }
        Ok(outlines)
    }

    /// The outlines of an OPML document, stamped with the current time.
    pub fn import_opml(&self, data: &[u8], source_path: &str) -> (r: Result<Vec<ImportResult>, ImportError>)
        ensures
            exists|t: Seq<char>| #[trigger] notes_outcome(r, opml_outlines(data@, source_path@, t)),
    {
        let now = now_rfc3339();
        self.import_opml_at(data, source_path, now.as_str())
    }

    /// A document holds many outlines, so a single-entity import is refused.
    pub fn import(&self, path: &str) -> (r: Result<ImportResult, ImportError>)
        ensures
            r matches Err(ImportError::Parse(m)) && m@
                == "OPML import creates multiple entities. Use import_opml() for multi-entity import."@,
    {
        Err(
            ImportError::Parse(
                "OPML import creates multiple entities. Use import_opml() for multi-entity import.".to_string(),
            ),
        )
    }
}

} // verus!
