//! Importing text and HTML pasted from the clipboard.

use vstd::prelude::*;
use crate::clock::now_rfc3339;
use crate::importers::ClipboardImporter;
use crate::markup::{plain_text, strip_markup};
use crate::model::{
    plain_result, provenance, provenance_v, text_component, text_v, Component, ComponentType,
    ImportError, ImportResult, ResultV,
};

verus! {

/// The words of `html` outside its tags, joined by single spaces.
pub fn strip_html_tags(html: &str) -> (r: String)
    ensures
        r@ == plain_text(html@),
{
    strip_markup(html)
}

/// The note imported from clipboard content `text` in the given format.
pub open spec fn clipboard_note_v(text: Seq<char>, source: Seq<char>, t: Seq<char>, format: Seq<char>) -> ResultV {
    ResultV {
        entity_type: "Note"@,
        components: seq![
            text_v(ComponentType::Title, "Clipboard Content"@),
            text_v(ComponentType::Content, text),
            provenance_v(source, t, format),
        ],
        cross_references: Seq::empty(),
    }
}

fn clipboard_note(text: String, source: &str, imported_at: &str, format: &str) -> (r: ImportResult)
    ensures
        r@ == clipboard_note_v(text@, source@, imported_at@, format@),
{
    let ghost tv = text@;
    let mut components: Vec<Component> = Vec::new();
    components.push(text_component(ComponentType::Title, "Clipboard Content".to_string()));
    components.push(text_component(ComponentType::Content, text));
    components.push(provenance(source, imported_at, format));
    let r = plain_result("Note", components);
    assert(r@.components =~= clipboard_note_v(tv, source@, imported_at@, format@).components);
    r
}

impl ClipboardImporter {
    /// A note holding `text` as it was pasted, stamped with `imported_at`.
    pub fn import_text_at(&self, text: &str, source: &str, imported_at: &str) -> (r: ImportResult)
        ensures
            r@ == clipboard_note_v(text@, source@, imported_at@, "clipboard-text"@),
    {
        clipboard_note(text.to_string(), source, imported_at, "clipboard-text")
    }

    /// A note holding the text of pasted `html`, stamped with `imported_at`.
    pub fn import_html_at(&self, html: &str, source: &str, imported_at: &str) -> (r: ImportResult)
        ensures
            r@ == clipboard_note_v(plain_text(html@), source@, imported_at@, "clipboard-html"@),
    {
        clipboard_note(strip_html_tags(html), source, imported_at, "clipboard-html")
    }

    /// A note holding `text` as it was pasted, stamped with the current time.
    pub fn import_text(&self, text: &str, source: &str) -> (r: Result<ImportResult, ImportError>)
        ensures
            r matches Ok(res) && exists|t: Seq<char>| res@ == clipboard_note_v(
                text@,
                source@,
                t,
                "clipboard-text"@,
            ),
    {
        let now = now_rfc3339();
        Ok(self.import_text_at(text, source, now.as_str()))
    }

    /// A note holding the text of pasted `html`, stamped with the current time.
    pub fn import_html(&self, html: &str, source: &str) -> (r: Result<ImportResult, ImportError>)
        ensures
            r matches Ok(res) && exists|t: Seq<char>| res@ == clipboard_note_v(
                plain_text(html@),
                source@,
                t,
                "clipboard-html"@,
            ),
    {
        let now = now_rfc3339();
        Ok(self.import_html_at(html, source, now.as_str()))
    }

    /// The clipboard importer reads no files.
    pub fn import(&self, path: &str) -> (r: Result<ImportResult, ImportError>)
        ensures
            r matches Err(ImportError::UnsupportedFormat(m)) && m@
                == "ClipboardImporter does not support file import. Use import_text() or import_html()."@,
    {
        Err(
            ImportError::UnsupportedFormat(
                "ClipboardImporter does not support file import. Use import_text() or import_html().".to_string(),
            ),
        )
    }
}

} // verus!
