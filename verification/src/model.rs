//! What an import produces: an entity, its components and the
//! cross-references found in the imported content.

use vstd::prelude::*;

verus! {

/// Kinds of component that importers attach to an entity.
#[derive(PartialEq, Eq, Structural, Clone, Copy, Debug)]
pub enum ComponentType {
    Title,
    Content,
    Provenance,
    Timeline,
    Author,
    Tags,
    Description,
    Language,
    BinaryContent,
}

/// A scalar field value of an object component.
#[derive(Clone, Debug, PartialEq)]
pub enum Scalar {
    Text(String),
    Number(u64),
}

/// One `key: value` field of an object component.
#[derive(Clone, Debug, PartialEq)]
pub struct Field {
    pub key: String,
    pub value: Scalar,
}

/// The data of a component: a string, a list of strings, or a flat object.
#[derive(Clone, Debug, PartialEq)]
pub enum ComponentData {
    Text(String),
    List(Vec<String>),
    Object(Vec<Field>),
}

/// One component of an imported entity.
#[derive(Clone, Debug, PartialEq)]
pub struct Component {
    pub component_type: ComponentType,
    pub data: ComponentData,
}

/// The imported entity; its identity is assigned when it is stored.
#[derive(Clone, Debug, PartialEq)]
pub struct Entity {
    pub entity_type: String,
}

/// A cross-reference extracted from imported content.
#[derive(Clone, Debug, PartialEq)]
pub enum CrossReference {
    /// Standard Markdown link: `[text](path)`
    FileRef { target_path: String, link_text: String },
    /// URL link: `[text](https://...)`
    UrlRef { url: String, link_text: String },
    /// Wikilink: `[[name]]`
    WikilinkRef { target_name: String, link_text: String },
    /// `@mention`
    MentionRef { target_name: String },
    /// Section anchor: `path#section`
    SectionRef { target_path: String, section: String, link_text: String },
}

/// Result of importing one item.
#[derive(Clone, Debug, PartialEq)]
pub struct ImportResult {
    pub entity: Entity,
    pub components: Vec<Component>,
    pub cross_references: Vec<CrossReference>,
}

/// Errors that can occur during import.
#[derive(Clone, Debug, PartialEq)]
pub enum ImportError {
    Io(String),
    Parse(String),
    UnsupportedFormat(String),
    ScannedPdf,
    Network(String),
}

/// Mathematical value of a scalar.
pub enum ScalarV {
    Text(Seq<char>),
    Number(u64),
}

/// Mathematical value of component data.
pub enum DataV {
    Text(Seq<char>),
    List(Seq<Seq<char>>),
    Object(Seq<(Seq<char>, ScalarV)>),
}

/// Mathematical value of a cross-reference.
pub enum RefV {
    File { target_path: Seq<char>, link_text: Seq<char> },
    Url { url: Seq<char>, link_text: Seq<char> },
    Wikilink { target_name: Seq<char>, link_text: Seq<char> },
    Mention { target_name: Seq<char> },
    Section { target_path: Seq<char>, section: Seq<char>, link_text: Seq<char> },
}

/// Mathematical value of an import result.
pub struct ResultV {
    pub entity_type: Seq<char>,
    pub components: Seq<(ComponentType, DataV)>,
    pub cross_references: Seq<RefV>,
}

impl View for Scalar {
    type V = ScalarV;

    open spec fn view(&self) -> ScalarV {
        match self {
            Scalar::Text(s) => ScalarV::Text(s@),
            Scalar::Number(n) => ScalarV::Number(*n),
        }
    }
}

pub open spec fn strings_view(v: Seq<String>) -> Seq<Seq<char>> {
    v.map_values(|s: String| s@)
}

pub open spec fn fields_view(v: Seq<Field>) -> Seq<(Seq<char>, ScalarV)> {
    v.map_values(|f: Field| (f.key@, f.value@))
}

impl View for ComponentData {
    type V = DataV;

    open spec fn view(&self) -> DataV {
        match self {
            ComponentData::Text(s) => DataV::Text(s@),
            ComponentData::List(v) => DataV::List(strings_view(v@)),
            ComponentData::Object(v) => DataV::Object(fields_view(v@)),
        }
    }
}

impl View for Component {
    type V = (ComponentType, DataV);

    open spec fn view(&self) -> (ComponentType, DataV) {
        (self.component_type, self.data@)
    }
}

impl View for CrossReference {
    type V = RefV;

    open spec fn view(&self) -> RefV {
        match self {
            CrossReference::FileRef { target_path, link_text } => RefV::File {
                target_path: target_path@,
                link_text: link_text@,
            },
            CrossReference::UrlRef { url, link_text } => RefV::Url {
                url: url@,
                link_text: link_text@,
            },
            CrossReference::WikilinkRef { target_name, link_text } => RefV::Wikilink {
                target_name: target_name@,
                link_text: link_text@,
            },
            CrossReference::MentionRef { target_name } => RefV::Mention {
                target_name: target_name@,
            },
            CrossReference::SectionRef { target_path, section, link_text } => RefV::Section {
                target_path: target_path@,
                section: section@,
                link_text: link_text@,
            },
        }
    }
}

pub open spec fn components_view(v: Seq<Component>) -> Seq<(ComponentType, DataV)> {
    v.map_values(|c: Component| c@)
}

pub open spec fn refs_view(v: Seq<CrossReference>) -> Seq<RefV> {
    v.map_values(|r: CrossReference| r@)
}

impl View for ImportResult {
    type V = ResultV;

    open spec fn view(&self) -> ResultV {
        ResultV {
            entity_type: self.entity.entity_type@,
            components: components_view(self.components@),
            cross_references: refs_view(self.cross_references@),
        }
    }
}

pub open spec fn results_view(v: Seq<ImportResult>) -> Seq<ResultV> {
    v.map_values(|r: ImportResult| r@)
}

/// The text of an optional string.
pub open spec fn opt_view(o: Option<String>) -> Option<Seq<char>> {
    match o {
        Some(s) => Some(s@),
        None => None,
    }
}

/// A text component of the given type.
pub open spec fn text_v(t: ComponentType, s: Seq<char>) -> (ComponentType, DataV) {
    (t, DataV::Text(s))
}

/// The provenance component: where the item came from, when, and in which format.
pub open spec fn provenance_v(source: Seq<char>, imported_at: Seq<char>, format: Seq<char>) -> (
    ComponentType,
    DataV,
) {
    (
        ComponentType::Provenance,
        DataV::Object(
            seq![
                ("source"@, ScalarV::Text(source)),
                ("imported_at"@, ScalarV::Text(imported_at)),
                ("format"@, ScalarV::Text(format)),
            ],
        ),
    )
}

impl CrossReference {
    pub fn as_file_ref(&self) -> (r: Option<(&String, &str)>)
        ensures
            match self {
                CrossReference::FileRef { target_path, link_text } => r matches Some(p) && p.0
                    == target_path && p.1@ == link_text@,
                _ => r is None,
            },
    {
        match self {
            CrossReference::FileRef { target_path, link_text } => Some(
                (target_path, link_text.as_str()),
            ),
            _ => None,
        }
    }

    pub fn as_url_ref(&self) -> (r: Option<(&str, &str)>)
        ensures
            match self {
                CrossReference::UrlRef { url, link_text } => r matches Some(p) && p.0@ == url@
                    && p.1@ == link_text@,
                _ => r is None,
            },
    {
        match self {
            CrossReference::UrlRef { url, link_text } => Some((url.as_str(), link_text.as_str())),
            _ => None,
        }
    }

    pub fn as_wikilink_ref(&self) -> (r: Option<(&str, &str)>)
        ensures
            match self {
                CrossReference::WikilinkRef { target_name, link_text } => r matches Some(p) && p.0@
                    == target_name@ && p.1@ == link_text@,
                _ => r is None,
            },
    {
        match self {
            CrossReference::WikilinkRef { target_name, link_text } => Some(
                (target_name.as_str(), link_text.as_str()),
            ),
            _ => None,
        }
    }

    pub fn as_mention_ref(&self) -> (r: Option<&str>)
        ensures
            match self {
                CrossReference::MentionRef { target_name } => r matches Some(p) && p@
                    == target_name@,
                _ => r is None,
            },
    {
        match self {
            CrossReference::MentionRef { target_name } => Some(target_name.as_str()),
            _ => None,
        }
    }

    pub fn as_section_ref(&self) -> (r: Option<(&String, &str, &str)>)
        ensures
            match self {
                CrossReference::SectionRef { target_path, section, link_text } => r matches Some(
                    p,
                ) && p.0 == target_path && p.1@ == section@ && p.2@ == link_text@,
                _ => r is None,
            },
    {
        match self {
            CrossReference::SectionRef { target_path, section, link_text } => Some(
                (target_path, section.as_str(), link_text.as_str()),
            ),
            _ => None,
        }
    }
}

/// A text component of the given type.
pub fn text_component(t: ComponentType, s: String) -> (c: Component)
    ensures
        c@ == text_v(t, s@),
{
    Component { component_type: t, data: ComponentData::Text(s) }
}

/// A text field of an object component.
pub fn text_field(key: &str, value: String) -> (f: Field)
    ensures
        f.key@ == key@,
        f.value@ == ScalarV::Text(value@),
{
    Field { key: key.to_string(), value: Scalar::Text(value) }
}

/// The provenance component of an imported item.
pub fn provenance(source: &str, imported_at: &str, format: &str) -> (c: Component)
    ensures
        c@ == provenance_v(source@, imported_at@, format@),
{
    let mut fields: Vec<Field> = Vec::new();
    fields.push(text_field("source", source.to_string()));
    fields.push(text_field("imported_at", imported_at.to_string()));
    fields.push(text_field("format", format.to_string()));
    let c = Component { component_type: ComponentType::Provenance, data: ComponentData::Object(fields) };
    assert(fields_view(fields@) =~= seq![
        ("source"@, ScalarV::Text(source@)),
        ("imported_at"@, ScalarV::Text(imported_at@)),
        ("format"@, ScalarV::Text(format@)),
    ]);
    c
}

/// An import result with no cross-references.
pub fn plain_result(entity_type: &str, components: Vec<Component>) -> (r: ImportResult)
    ensures
        r@.entity_type == entity_type@,
        r@.components == components_view(components@),
        r@.cross_references == Seq::<RefV>::empty(),
{
    let r = ImportResult {
        entity: Entity { entity_type: entity_type.to_string() },
        components,
        cross_references: Vec::new(),
    };
    assert(refs_view(r.cross_references@) =~= Seq::<RefV>::empty());
    r
}

} // verus!
