//! Importing CSV files: previewing their columns, and turning each row
//! into an entity according to a mapping from columns to components.

use vstd::prelude::*;
use crate::clock::now_rfc3339;
use crate::importers::CsvImporter;
use crate::model::{
    components_view, fields_view, opt_view, plain_result, provenance, provenance_v, results_view,
    strings_view, text_component, text_field, text_v, Component, ComponentData, ComponentType,
    DataV, Field, ImportError, ImportResult, ResultV, ScalarV,
};
use crate::html::created_timeline_v;
use crate::text::{concat, decimal, decimal_string, same_text, split_on, string_of, to_chars, trim, trimmed_nonempty};

verus! {

/// What CSV parsing makes of `data`: the header row, then each later
/// record, each as its fields or as an error message.
pub uninterp spec fn csv_records(data: Seq<u8>) -> (
    Result<Seq<Seq<char>>, Seq<char>>,
    Seq<Result<Seq<Seq<char>>, Seq<char>>>,
);

/// The mathematical value of a parsed record.
pub open spec fn record_view(r: Result<Vec<String>, String>) -> Result<Seq<Seq<char>>, Seq<char>> {
    match r {
        Ok(v) => Ok(strings_view(v@)),
        Err(e) => Err(e@),
    }
}

/// `csv::ReaderBuilder::new().from_reader(data)`: its `headers()`, then
/// every record of `records()`, with errors as their messages. Claimed:
/// the result is `csv_records` of `data`.
#[verifier::external_body]
fn read_csv(data: &[u8]) -> (r: (Result<Vec<String>, String>, Vec<Result<Vec<String>, String>>))
    ensures
        (record_view(r.0), r.1@.map_values(|x: Result<Vec<String>, String>| record_view(x)))
            == csv_records(data@),
{
    let mut reader = csv::ReaderBuilder::new().from_reader(data);
    let headers = reader.headers().map(|h| h.iter().map(|s| s.to_string()).collect()).map_err(
        |e| e.to_string(),
    );
    let records = reader.records().map(
        |r| r.map(|rec| rec.iter().map(|s| s.to_string()).collect()).map_err(|e| e.to_string()),
    ).collect();
    (headers, records)
}

/// How a CSV column is imported.
#[derive(Clone, Debug, PartialEq)]
pub enum FieldMapping {
    /// The entity's title.
    Title,
    /// A description component.
    Description,
    /// A content component.
    Content,
    /// Tags, split on the separator.
    Tags { separator: String },
    /// The creation date of a timeline component.
    TimelineDate,
    /// A custom field, kept in a provenance component.
    CustomComponent { component_name: String },
}

/// The mathematical value of a field mapping.
pub enum MappingV {
    Title,
    Description,
    Content,
    Tags { separator: Seq<char> },
    TimelineDate,
    CustomComponent { component_name: Seq<char> },
}

impl View for FieldMapping {
    type V = MappingV;

    open spec fn view(&self) -> MappingV {
        match self {
            FieldMapping::Title => MappingV::Title,
            FieldMapping::Description => MappingV::Description,
            FieldMapping::Content => MappingV::Content,
            FieldMapping::Tags { separator } => MappingV::Tags { separator: separator@ },
            FieldMapping::TimelineDate => MappingV::TimelineDate,
            FieldMapping::CustomComponent { component_name } => MappingV::CustomComponent {
                component_name: component_name@,
            },
        }
    }
}

/// Which columns become which components, and the entity type to import as.
#[derive(Clone, Debug, PartialEq)]
pub struct ColumnMapping {
    /// `(column name, mapping)` pairs, applied in order.
    pub field_mappings: Vec<(String, FieldMapping)>,
    /// Columns whose mappings are left out (the title lookup still sees them).
    pub skip_columns: Vec<String>,
    /// The entity type of the imported rows; `Article` when absent.
    pub entity_type_override: Option<String>,
}

/// Whether no text occurs twice in `names`.
pub open spec fn distinct_texts(names: Seq<Seq<char>>) -> bool {
    forall|i: int, j: int| 0 <= i < j < names.len() ==> #[trigger] names[i] != #[trigger] names[j]
}

impl ColumnMapping {
    /// A column mapping is valid when it maps each column at most once and
    /// skips each column at most once.
    pub open spec fn wf(&self) -> bool {
        &&& distinct_texts(mappings_view(self.field_mappings@).map_values(|x: (Seq<char>, MappingV)| x.0))
        &&& distinct_texts(strings_view(self.skip_columns@))
    }

    /// Whether the mapping is valid (see `wf`).
    pub fn is_valid(&self) -> (b: bool)
        ensures
            b == self.wf(),
    {
        let mut keys: Vec<String> = Vec::new();
        let mut k: usize = 0;
        while k < self.field_mappings.len()
            invariant
                k <= self.field_mappings@.len(),
                strings_view(keys@) == mappings_view(self.field_mappings@).map_values(
                    |x: (Seq<char>, MappingV)| x.0,
                ).take(k as int),
            decreases self.field_mappings@.len() - k,
        {
            let ghost before = strings_view(keys@);
            keys.push(self.field_mappings[k].0.clone());
            assert(strings_view(keys@) =~= before.push(self.field_mappings@[k as int].0@));
            assert(mappings_view(self.field_mappings@).map_values(|x: (Seq<char>, MappingV)| x.0).take(k + 1)
                =~= mappings_view(self.field_mappings@).map_values(|x: (Seq<char>, MappingV)| x.0).take(
                k as int,
            ).push(self.field_mappings@[k as int].0@));
            k += 1;
        }
        assert(mappings_view(self.field_mappings@).map_values(|x: (Seq<char>, MappingV)| x.0).take(
            self.field_mappings@.len() as int,
        ) =~= mappings_view(self.field_mappings@).map_values(|x: (Seq<char>, MappingV)| x.0));
        distinct(&keys) && distinct(&self.skip_columns)
    }
}

/// Whether no text occurs twice in `names`.
fn distinct(names: &Vec<String>) -> (b: bool)
    ensures
        b == distinct_texts(strings_view(names@)),
{
    let ghost v = strings_view(names@);
    let mut j: usize = 0;
    while j < names.len()
        invariant
            j <= names@.len(),
            v == strings_view(names@),
            forall|a: int, c: int| 0 <= a < c < j ==> #[trigger] v[a] != #[trigger] v[c],
        decreases names@.len() - j,
    {
        let mut i: usize = 0;
        while i < j
            invariant
                i <= j < names@.len(),
                v == strings_view(names@),
                forall|a: int| 0 <= a < i ==> #[trigger] v[a] != v[j as int],
            decreases j - i,
        {
            if same_text(names[i].as_str(), names[j].as_str()) {
                assert(v[i as int] == v[j as int]);
                return false;
            }
            i += 1;
        }
        j += 1;
    }
    true
}

/// The mathematical value of the mappings of a column mapping.
pub open spec fn mappings_view(v: Seq<(String, FieldMapping)>) -> Seq<(Seq<char>, MappingV)> {
    v.map_values(|x: (String, FieldMapping)| (x.0@, x.1@))
}

/// The index of the first occurrence of `x` in `s`.
pub open spec fn first_index(s: Seq<Seq<char>>, x: Seq<char>) -> Option<int>
    decreases s.len(),
{
    if s.len() == 0 {
        None
    } else {
        match first_index(s.drop_last(), x) {
            Some(i) => Some(i),
            None => if s.last() == x {
                Some(s.len() - 1)
            } else {
                None
            },
        }
    }
}

/// The field of `row` under the column named `col`, if both exist.
pub open spec fn cell(headers: Seq<Seq<char>>, row: Seq<Seq<char>>, col: Seq<char>) -> Option<Seq<char>> {
    match first_index(headers, col) {
        Some(i) => if 0 <= i < row.len() {
            Some(row[i])
        } else {
            None
        },
        None => None,
    }
}

/// The first mapping of `fm` to the title, if any.
pub open spec fn title_column(fm: Seq<(Seq<char>, MappingV)>) -> Option<Seq<char>>
    decreases fm.len(),
{
    if fm.len() == 0 {
        None
    } else {
        match title_column(fm.drop_last()) {
            Some(c) => Some(c),
            None => if fm.last().1 is Title {
                Some(fm.last().0)
            } else {
                None
            },
        }
    }
}

/// `s` split on `pat` as `str::split` does; an empty `pat` splits before
/// and after every character.
pub open spec fn split_str(s: Seq<char>, pat: Seq<char>) -> Seq<Seq<char>> {
    if pat.len() == 0 {
        seq![Seq::<char>::empty()] + s.map_values(|c: char| seq![c]) + seq![Seq::<char>::empty()]
    } else {
        split_on(s, pat)
    }
}

/// The tags of a field: its pieces between separators, trimmed, empty ones left out.
pub open spec fn tags_of(val: Seq<char>, separator: Seq<char>) -> Seq<Seq<char>> {
    trimmed_nonempty(split_str(val, separator))
}

/// A custom field of a row, kept in a provenance component.
pub open spec fn custom_field_v(source: Seq<char>, t: Seq<char>, name: Seq<char>, val: Seq<char>) -> (
    ComponentType,
    DataV,
) {
    (
        ComponentType::Provenance,
        DataV::Object(
            seq![
                ("source"@, ScalarV::Text(source)),
                ("imported_at"@, ScalarV::Text(t)),
                ("format"@, ScalarV::Text("csv"@)),
                ("custom_field"@, ScalarV::Text(name)),
                ("value"@, ScalarV::Text(val)),
            ],
        ),
    )
}

/// The components after applying one mapping to a row.
pub open spec fn apply_mapping(
    comps: Seq<(ComponentType, DataV)>,
    headers: Seq<Seq<char>>,
    row: Seq<Seq<char>>,
    skip: Seq<Seq<char>>,
    source: Seq<char>,
    t: Seq<char>,
    m: (Seq<char>, MappingV),
) -> Seq<(ComponentType, DataV)> {
    if skip.contains(m.0) {
        comps
    } else {
        match cell(headers, row, m.0) {
            None => comps,
            Some(val) => match m.1 {
                MappingV::Title => comps.update(0, text_v(ComponentType::Title, val)),
                MappingV::Description => comps.push(text_v(ComponentType::Description, val)),
                MappingV::Content => comps.push(text_v(ComponentType::Content, val)),
                MappingV::Tags { separator } => comps.push(
                    (ComponentType::Tags, DataV::List(tags_of(val, separator))),
                ),
                MappingV::TimelineDate => comps.push(created_timeline_v(val, t)),
                MappingV::CustomComponent { component_name } => comps.push(
                    custom_field_v(source, t, component_name, val),
                ),
            },
        }
    }
}

/// The components after applying the mappings `fm` in order.
pub open spec fn apply_mappings(
    comps: Seq<(ComponentType, DataV)>,
    headers: Seq<Seq<char>>,
    row: Seq<Seq<char>>,
    skip: Seq<Seq<char>>,
    source: Seq<char>,
    t: Seq<char>,
    fm: Seq<(Seq<char>, MappingV)>,
) -> Seq<(ComponentType, DataV)>
    decreases fm.len(),
{
    if fm.len() == 0 {
        comps
    } else {
        apply_mapping(
            apply_mappings(comps, headers, row, skip, source, t, fm.drop_last()),
            headers,
            row,
            skip,
            source,
            t,
            fm.last(),
        )
    }
}

/// The entity imported from one CSV row: titled by the first title
/// mapping's column (`Untitled` when there is none or the row lacks it),
/// with a provenance component, then each mapping applied in order.
pub open spec fn csv_row_result(
    headers: Seq<Seq<char>>,
    row: Seq<Seq<char>>,
    fm: Seq<(Seq<char>, MappingV)>,
    skip: Seq<Seq<char>>,
    entity_type: Option<Seq<char>>,
    source: Seq<char>,
    t: Seq<char>,
) -> ResultV {
    let title = match title_column(fm) {
        Some(c) => match cell(headers, row, c) {
            Some(v) => v,
            None => "Untitled"@,
        },
        None => "Untitled"@,
    };
    let base = seq![text_v(ComponentType::Title, title), provenance_v(source, t, "csv"@)];
    ResultV {
        entity_type: match entity_type {
            Some(e) => e,
            None => "Article"@,
        },
        components: apply_mappings(base, headers, row, skip, source, t, fm),
        cross_references: Seq::empty(),
    }
}

/// The pieces of `s` split on `pat` (see `split_str`).
fn split_pieces(s: &str, pat: &str) -> (r: Vec<String>)
    ensures
        strings_view(r@) == split_str(s@, pat@),
{
    let p = to_chars(pat);
    if p.len() > 0 {
        let v = to_chars(s);
        let ranges = crate::text::split_ranges(&v, &p);
        let mut r: Vec<String> = Vec::new();
        let mut i: usize = 0;
        while i < ranges.len()
            invariant
                i <= ranges.len(),
                forall|k: int| 0 <= k < ranges.len() ==> #[trigger] ranges@[k].0 <= ranges@[k].1 <= v.len(),
                strings_view(r@) == ranges@.take(i as int).map_values(
                    |x: (usize, usize)| v@.subrange(x.0 as int, x.1 as int),
                ),
            decreases ranges.len() - i,
        {
            let (lo, hi) = ranges[i];
            let ghost before = strings_view(r@);
            r.push(string_of(&v, lo, hi));
            assert(strings_view(r@) =~= before.push(v@.subrange(lo as int, hi as int)));
            assert(ranges@.take(i + 1).map_values(|x: (usize, usize)| v@.subrange(x.0 as int, x.1 as int))
                =~= ranges@.take(i as int).map_values(
                |x: (usize, usize)| v@.subrange(x.0 as int, x.1 as int),
            ).push(v@.subrange(lo as int, hi as int)));
            i += 1;
        }
        assert(ranges@.take(ranges.len() as int) =~= ranges@);
        r
    } else {
        let v = to_chars(s);
        let mut r: Vec<String> = Vec::new();
        r.push(String::new());
        let mut i: usize = 0;
        while i < v.len()
            invariant
                i <= v.len(),
                v@ == s@,
                strings_view(r@) == seq![Seq::<char>::empty()] + v@.take(i as int).map_values(
                    |c: char| seq![c],
                ),
            decreases v.len() - i,
        {
            let mut one = String::new();
            one.push(v[i]);
            let ghost before = strings_view(r@);
            r.push(one);
            assert(strings_view(r@) =~= before.push(seq![v@[i as int]]));
            assert(v@.take(i + 1).map_values(|c: char| seq![c]) =~= v@.take(i as int).map_values(
                |c: char| seq![c],
            ).push(seq![v@[i as int]]));
            assert(seq![Seq::<char>::empty()] + v@.take(i + 1).map_values(|c: char| seq![c]) =~= (seq![
                Seq::<char>::empty(),
            ] + v@.take(i as int).map_values(|c: char| seq![c])).push(seq![v@[i as int]]));
            i += 1;
        }
        r.push(String::new());
        assert(v@.take(v.len() as int) =~= v@);
        assert(strings_view(r@) =~= split_str(s@, pat@));
        r
    }
}

/// The tags of a field (see `tags_of`).
fn split_tags(val: &str, separator: &str) -> (r: Vec<String>)
    ensures
        strings_view(r@) == tags_of(val@, separator@),
{
    let pieces = split_pieces(val, separator);
    let ghost pv = strings_view(pieces@);
    let mut r: Vec<String> = Vec::new();
    let mut i: usize = 0;
    assert(pv.take(0) =~= Seq::<Seq<char>>::empty());
    while i < pieces.len()
        invariant
            i <= pieces.len(),
            pv == strings_view(pieces@),
            strings_view(r@) == trimmed_nonempty(pv.take(i as int)),
        decreases pieces.len() - i,
    {
        let ghost before = strings_view(r@);
        proof {
            assert(pv.take(i + 1).drop_last() =~= pv.take(i as int));
            assert(pv.take(i + 1).last() == pieces@[i as int]@);
        }
        let t = crate::text::trim_string(pieces[i].as_str());
        if !t.as_str().is_empty() {
            r.push(t);
            assert(strings_view(r@) =~= before.push(trim(pv[i as int])));
        }
        i += 1;
    }
    assert(pv.take(pieces.len() as int) =~= pv);
    r
}

/// The position of the first header equal to `col`.
fn header_index(headers: &Vec<String>, col: &str) -> (r: Option<usize>)
    ensures
        match r {
            Some(i) => first_index(strings_view(headers@), col@) == Some(i as int),
            None => first_index(strings_view(headers@), col@) is None,
        },
{
    let ghost hv = strings_view(headers@);
    let mut i: usize = 0;
    assert(hv.take(0) =~= Seq::<Seq<char>>::empty());
    while i < headers.len()
        invariant
            i <= headers.len(),
            hv == strings_view(headers@),
            first_index(hv.take(i as int), col@) is None,
        decreases headers.len() - i,
    {
        proof {
            assert(hv.take(i + 1).drop_last() =~= hv.take(i as int));
            assert(hv.take(i + 1).last() == headers@[i as int]@);
        }
        if same_text(headers[i].as_str(), col) {
            proof {
                lemma_first_index_prefix(hv, col@, i + 1);
            }
            return Some(i);
        }
        i += 1;
    }
    assert(hv.take(headers.len() as int) =~= hv);
    None
}

proof fn lemma_first_index_prefix(s: Seq<Seq<char>>, x: Seq<char>, n: int)
    requires
        0 <= n <= s.len(),
        first_index(s.take(n), x) is Some,
    ensures
        first_index(s, x) == first_index(s.take(n), x),
    decreases s.len() - n,
{
    if n < s.len() {
        assert(s.take(n + 1).drop_last() =~= s.take(n));
        lemma_first_index_prefix(s, x, n + 1);
    } else {
        assert(s.take(n) =~= s);
    }
}

/// The field of `row` under column `col` (see `cell`).
fn cell_of(headers: &Vec<String>, row: &Vec<String>, col: &str) -> (r: Option<String>)
    ensures
        match r {
            Some(v) => cell(strings_view(headers@), strings_view(row@), col@) == Some(v@),
            None => cell(strings_view(headers@), strings_view(row@), col@) is None,
        },
{
    match header_index(headers, col) {
        Some(i) => if i < row.len() {
            Some(row[i].clone())
        } else {
            None
        },
        None => None,
    }
}

fn contains_string(list: &Vec<String>, x: &str) -> (b: bool)
    ensures
        b == strings_view(list@).contains(x@),
{
    let mut i: usize = 0;
    while i < list.len()
        invariant
            i <= list.len(),
            forall|j: int| 0 <= j < i ==> list@[j]@ != x@,
        decreases list.len() - i,
    {
        if same_text(list[i].as_str(), x) {
            assert(strings_view(list@)[i as int] == x@);
            return true;
        }
        i += 1;
    }
    proof {
        if strings_view(list@).contains(x@) {
            let j = choose|j: int| 0 <= j < strings_view(list@).len() && strings_view(list@)[j] == x@;
            assert(list@[j]@ == x@);
        }
    }
    false
}

/// The first title mapping's column.
fn find_title_column(fm: &Vec<(String, FieldMapping)>) -> (r: Option<&String>)
    ensures
        match r {
            Some(c) => title_column(mappings_view(fm@)) == Some(c@),
            None => title_column(mappings_view(fm@)) is None,
        },
{
    let ghost mv = mappings_view(fm@);
    let mut i: usize = 0;
    assert(mv.take(0) =~= Seq::<(Seq<char>, MappingV)>::empty());
    while i < fm.len()
        invariant
            i <= fm.len(),
            mv == mappings_view(fm@),
            title_column(mv.take(i as int)) is None,
        decreases fm.len() - i,
    {
        proof {
            assert(mv.take(i + 1).drop_last() =~= mv.take(i as int));
            assert(mv.take(i + 1).last() == mv[i as int]);
        }
        match &fm[i].1 {
            FieldMapping::Title => {
                proof {
                    lemma_title_column_prefix(mv, i + 1);
                }
                return Some(&fm[i].0);
            },
            _ => {},
        }
        i += 1;
    }
    assert(mv.take(fm.len() as int) =~= mv);
    None
}

proof fn lemma_title_column_prefix(s: Seq<(Seq<char>, MappingV)>, n: int)
    requires
        0 <= n <= s.len(),
        title_column(s.take(n)) is Some,
    ensures
        title_column(s) == title_column(s.take(n)),
    decreases s.len() - n,
{
    if n < s.len() {
        assert(s.take(n + 1).drop_last() =~= s.take(n));
        lemma_title_column_prefix(s, n + 1);
    } else {
        assert(s.take(n) =~= s);
    }
}

/// The custom field component of a row.
fn custom_field(source: &str, t: &str, name: &str, val: String) -> (c: Component)
    ensures
        c@ == custom_field_v(source@, t@, name@, val@),
{
    let ghost vv = val@;
    let mut fields: Vec<Field> = Vec::new();
    fields.push(text_field("source", source.to_string()));
    fields.push(text_field("imported_at", t.to_string()));
    fields.push(text_field("format", "csv".to_string()));
    fields.push(text_field("custom_field", name.to_string()));
    fields.push(text_field("value", val));
    assert(fields_view(fields@) =~= seq![
        ("source"@, ScalarV::Text(source@)),
        ("imported_at"@, ScalarV::Text(t@)),
        ("format"@, ScalarV::Text("csv"@)),
        ("custom_field"@, ScalarV::Text(name@)),
        ("value"@, ScalarV::Text(vv)),
    ]);
    Component { component_type: ComponentType::Provenance, data: ComponentData::Object(fields) }
}

/// The entity imported from one CSV row (see `csv_row_result`).
pub fn import_row(
    headers: &Vec<String>,
    row: &Vec<String>,
    mapping: &ColumnMapping,
    source: &str,
    imported_at: &str,
) -> (r: ImportResult)
    requires
        mapping.wf(),
    ensures
        r@ == csv_row_result(
            strings_view(headers@),
            strings_view(row@),
            mappings_view(mapping.field_mappings@),
            strings_view(mapping.skip_columns@),
            opt_view(mapping.entity_type_override),
            source@,
            imported_at@,
        ),
{
    let ghost hv = strings_view(headers@);
    let ghost rv = strings_view(row@);
    let ghost fmv = mappings_view(mapping.field_mappings@);
    let ghost skv = strings_view(mapping.skip_columns@);
    let title = match find_title_column(&mapping.field_mappings) {
        Some(c) => match cell_of(headers, row, c.as_str()) {
            Some(v) => v,
            None => "Untitled".to_string(),
        },
        None => "Untitled".to_string(),
    };
    let mut components: Vec<Component> = Vec::new();
    components.push(text_component(ComponentType::Title, title));
    components.push(provenance(source, imported_at, "csv"));
    let ghost base = components_view(components@);
    proof {
        let want_title = match title_column(fmv) {
            Some(c) => match cell(hv, rv, c) {
                Some(v) => v,
                None => "Untitled"@,
            },
            None => "Untitled"@,
        };
        assert(base =~= seq![text_v(ComponentType::Title, want_title), provenance_v(source@, imported_at@, "csv"@)]);
    }
    let mut i: usize = 0;
    assert(fmv.take(0) =~= Seq::<(Seq<char>, MappingV)>::empty());
    while i < mapping.field_mappings.len()
        invariant
            i <= mapping.field_mappings@.len(),
            fmv == mappings_view(mapping.field_mappings@),
            hv == strings_view(headers@),
            rv == strings_view(row@),
            skv == strings_view(mapping.skip_columns@),
            components@.len() >= 1,
            components_view(components@) == apply_mappings(
                base,
                hv,
                rv,
                skv,
                source@,
                imported_at@,
                fmv.take(i as int),
            ),
        decreases mapping.field_mappings@.len() - i,
    {
        let (col, fm) = &mapping.field_mappings[i];
        proof {
            assert(fmv.take(i + 1).drop_last() =~= fmv.take(i as int));
            assert(fmv.take(i + 1).last() == (col@, fm@));
        }
        let ghost before = components_view(components@);
        if !contains_string(&mapping.skip_columns, col.as_str()) {
            match cell_of(headers, row, col.as_str()) {
                Some(val) => {
                    match fm {
                        FieldMapping::Title => {
                            components.set(0, text_component(ComponentType::Title, val));
                            assert(components_view(components@) =~= before.update(
                                0,
                                text_v(ComponentType::Title, cell(hv, rv, col@)->0),
                            ));
                        },
                        FieldMapping::Description => {
                            components.push(text_component(ComponentType::Description, val));
                            assert(components_view(components@) =~= before.push(
                                text_v(ComponentType::Description, cell(hv, rv, col@)->0),
                            ));
                        },
                        FieldMapping::Content => {
                            components.push(text_component(ComponentType::Content, val));
                            assert(components_view(components@) =~= before.push(
                                text_v(ComponentType::Content, cell(hv, rv, col@)->0),
                            ));
                        },
                        FieldMapping::Tags { separator } => {
                            let tags = split_tags(val.as_str(), separator.as_str());
                            let c = Component {
                                component_type: ComponentType::Tags,
                                data: ComponentData::List(tags),
                            };
                            components.push(c);
                            assert(components_view(components@) =~= before.push(c@));
                        },
                        FieldMapping::TimelineDate => {
                            let c = crate::html::created_timeline(val.as_str(), imported_at);
                            components.push(c);
                            assert(components_view(components@) =~= before.push(c@));
                        },
                        FieldMapping::CustomComponent { component_name } => {
                            let c = custom_field(source, imported_at, component_name.as_str(), val);
                            components.push(c);
                            assert(components_view(components@) =~= before.push(c@));
                        },
                    }
                },
                None => {},
            }
        }
        i += 1;
    }
    assert(fmv.take(mapping.field_mappings@.len() as int) =~= fmv);
    let entity_type = match &mapping.entity_type_override {
        Some(e) => e.as_str(),
        None => "Article",
    };
    plain_result(entity_type, components)
}

/// The message for an unreadable record: its index and the parser's message.
pub open spec fn row_error(i: nat, e: Seq<char>) -> Seq<char> {
    "CSV row "@ + decimal(i) + ": "@ + e
}

/// The mathematical value of the records read from a CSV file.
pub open spec fn csv_rows_view(v: Seq<Result<Vec<String>, String>>) -> Seq<Result<Seq<Seq<char>>, Seq<char>>> {
    v.map_values(|x: Result<Vec<String>, String>| record_view(x))
}

/// The entities imported from the records `recs` in order, or the message
/// of the first unreadable one.
pub open spec fn import_records(
    headers: Seq<Seq<char>>,
    recs: Seq<Result<Seq<Seq<char>>, Seq<char>>>,
    fm: Seq<(Seq<char>, MappingV)>,
    skip: Seq<Seq<char>>,
    entity_type: Option<Seq<char>>,
    source: Seq<char>,
    t: Seq<char>,
) -> Result<Seq<ResultV>, Seq<char>>
    decreases recs.len(),
{
    if recs.len() == 0 {
        Ok(Seq::empty())
    } else {
        match import_records(headers, recs.drop_last(), fm, skip, entity_type, source, t) {
            Err(e) => Err(e),
            Ok(prev) => match recs.last() {
                Ok(row) => Ok(prev.push(csv_row_result(headers, row, fm, skip, entity_type, source, t))),
                Err(e) => Err(row_error((recs.len() - 1) as nat, e)),
            },
        }
    }
}

/// What importing CSV `data` with a column mapping gives: one entity per
/// record, or the error message of the header row or of the first
/// unreadable record.
pub open spec fn csv_import(
    data: Seq<u8>,
    fm: Seq<(Seq<char>, MappingV)>,
    skip: Seq<Seq<char>>,
    entity_type: Option<Seq<char>>,
    source: Seq<char>,
    t: Seq<char>,
) -> Result<Seq<ResultV>, Seq<char>> {
    match csv_records(data).0 {
        Err(e) => Err(e),
        Ok(headers) => import_records(headers, csv_records(data).1, fm, skip, entity_type, source, t),
    }
}

/// Whether an import outcome is the given one, its error being a parse error.
pub open spec fn import_outcome(r: Result<Vec<ImportResult>, ImportError>, want: Result<Seq<ResultV>, Seq<char>>) -> bool {
    match want {
        Ok(v) => r matches Ok(x) && results_view(x@) == v,
        Err(m) => r matches Err(ImportError::Parse(e)) && e@ == m,
    }
}

fn row_error_message(i: usize, e: &str) -> (m: String)
    ensures
        m@ == row_error(i as nat, e@),
{
    let n = decimal_string(i);
    let a = concat("CSV row ", n.as_str());
    let b = concat(a.as_str(), ": ");
    concat(b.as_str(), e)
}

/// A column of a CSV preview.
#[derive(Clone, Debug, PartialEq)]
pub struct ColumnInfo {
    pub name: String,
    pub data_type: String,
    pub nullable: bool,
}

/// A value in a CSV preview.
#[derive(Clone, Debug, PartialEq)]
pub enum ColumnValue {
    Text(String),
}

/// The text of a preview value.
pub open spec fn value_text(v: ColumnValue) -> Seq<char> {
    match v {
        ColumnValue::Text(x) => x@,
    }
}

/// The first rows and the columns of a CSV file.
#[derive(Clone, Debug, PartialEq)]
pub struct ImportPreview {
    pub columns: Vec<ColumnInfo>,
    pub sample_rows: Vec<Vec<ColumnValue>>,
    pub row_count: u64,
}

/// The records left after a preview has read `sample` of them: reading
/// stops by taking one record more when there are more, so those left
/// are the rest after that one.
pub open spec fn rows_left(n: nat, sample: nat) -> nat {
    if n > sample {
        (n - sample - 1) as nat
    } else {
        0
    }
}

/// The first unreadable record among the first `k` records, if any: its
/// index and message.
pub open spec fn first_bad(recs: Seq<Result<Seq<Seq<char>>, Seq<char>>>, k: int) -> Option<(nat, Seq<char>)>
    decreases k,
{
    if k <= 0 {
        None
    } else {
        match first_bad(recs, k - 1) {
            Some(b) => Some(b),
            None => match recs[k - 1] {
                Err(e) => Some(((k - 1) as nat, e)),
                Ok(_) => None,
            },
        }
    }
}

impl CsvImporter {
    /// A single-entity import of a CSV file is refused: rows need a column mapping.
    pub fn import(&self, path: &str) -> (r: Result<ImportResult, ImportError>)
        ensures
            r matches Err(ImportError::Parse(m)) && m@
                == "CSV import requires column mapping. Use preview() then import_with_mapping()."@,
    {
        Err(
            ImportError::Parse(
                "CSV import requires column mapping. Use preview() then import_with_mapping().".to_string(),
            ),
        )
    }

    /// Import the records read from a CSV file at `source_path`, under the
    /// header row `headers`, each as an entity according to `mapping`, at
    /// `imported_at`; or the error of the first unreadable record (see
    /// `import_records`).
    pub fn import_parsed_records(
        &self,
        headers: &Vec<String>,
        records: &Vec<Result<Vec<String>, String>>,
        source_path: &str,
        mapping: &ColumnMapping,
        imported_at: &str,
    ) -> (r: Result<Vec<ImportResult>, ImportError>)
        requires
            mapping.wf(),
        ensures
            import_outcome(
                r,
                import_records(
                    strings_view(headers@),
                    csv_rows_view(records@),
                    mappings_view(mapping.field_mappings@),
                    strings_view(mapping.skip_columns@),
                    opt_view(mapping.entity_type_override),
                    source_path@,
                    imported_at@,
                ),
            ),
    {
        let ghost fmv = mappings_view(mapping.field_mappings@);
        let ghost skv = strings_view(mapping.skip_columns@);
        let ghost et = opt_view(mapping.entity_type_override);
        let ghost recs = csv_rows_view(records@);
        let ghost hv = strings_view(headers@);
        let mut results: Vec<ImportResult> = Vec::new();
        assert(results_view(results@) =~= Seq::<ResultV>::empty());
        let mut i: usize = 0;
        assert(recs.take(0) =~= Seq::<Result<Seq<Seq<char>>, Seq<char>>>::empty());
        while i < records.len()
            invariant
                i <= records.len(),
                mapping.wf(),
                recs == csv_rows_view(records@),
                hv == strings_view(headers@),
                fmv == mappings_view(mapping.field_mappings@),
                skv == strings_view(mapping.skip_columns@),
                et == opt_view(mapping.entity_type_override),
                import_records(hv, recs.take(i as int), fmv, skv, et, source_path@, imported_at@)
                    == Ok::<Seq<ResultV>, Seq<char>>(results_view(results@)),
            decreases records.len() - i,
        {
            proof {
                assert(recs.take(i + 1).drop_last() =~= recs.take(i as int));
                assert(recs.take(i + 1).last() == record_view(records@[i as int]));
            }
            match &records[i] {
                Ok(row) => {
                    let res = import_row(headers, row, mapping, source_path, imported_at);
                    let ghost before = results_view(results@);
                    results.push(res);
                    assert(results_view(results@) =~= before.push(res@));
                },
                Err(e) => {
                    let m = row_error_message(i, e.as_str());
                    proof {
                        assert(import_records(hv, recs.take(i + 1), fmv, skv, et, source_path@, imported_at@)
                            == Err::<Seq<ResultV>, Seq<char>>(row_error(i as nat, e@)));
                        lemma_import_records_stops(hv, recs, fmv, skv, et, source_path@, imported_at@, i + 1);
                    }
                    return Err(ImportError::Parse(m));
                },
            }
            i += 1;
        }
        assert(recs.take(records.len() as int) =~= recs);
        Ok(results)
    }

    /// Import each record of CSV `data`, read from `source_path`, as an
    /// entity according to `mapping`, at `imported_at` (see `csv_import`).
    pub fn import_with_mapping_at(
        &self,
        data: &[u8],
        source_path: &str,
        mapping: &ColumnMapping,
        imported_at: &str,
    ) -> (r: Result<Vec<ImportResult>, ImportError>)
        requires
            mapping.wf(),
        ensures
            import_outcome(
                r,
                csv_import(
                    data@,
                    mappings_view(mapping.field_mappings@),
                    strings_view(mapping.skip_columns@),
                    opt_view(mapping.entity_type_override),
                    source_path@,
                    imported_at@,
                ),
            ),
    {
        let (headers, records) = read_csv(data);
        let ghost head = record_view(headers);
        match headers {
            Ok(h) => {
                assert(head == Ok::<Seq<Seq<char>>, Seq<char>>(strings_view(h@)));
                self.import_parsed_records(&h, &records, source_path, mapping, imported_at)
            },
            Err(e) => Err(ImportError::Parse(e)),
        }
    }

    /// Import each record of CSV `data` as an entity according to
    /// `mapping`, stamped with the current time.
    pub fn import_with_mapping(&self, data: &[u8], source_path: &str, mapping: &ColumnMapping) -> (r:
        Result<Vec<ImportResult>, ImportError>)
        requires
            mapping.wf(),
        ensures
            exists|t: Seq<char>|
                import_outcome(
                    r,
                    #[trigger] csv_import(
                        data@,
                        mappings_view(mapping.field_mappings@),
                        strings_view(mapping.skip_columns@),
                        opt_view(mapping.entity_type_override),
                        source_path@,
                        t,
                    ),
                ),
    {
        let now = now_rfc3339();
        self.import_with_mapping_at(data, source_path, mapping, now.as_str())
    }

    /// The columns of CSV `data` (all text, nullable), its first
    /// `sample_size` records as text, and how many records are left after
    /// them (see `rows_left`); or the error of the header row or of the
    /// first unreadable sampled record.
    pub fn preview(&self, data: &[u8], sample_size: usize) -> (r: Result<ImportPreview, ImportError>)
        ensures
            match csv_records(data@).0 {
                Err(e) => r matches Err(ImportError::Parse(m)) && m@ == e,
                Ok(headers) => {
                    let recs = csv_records(data@).1;
                    let k = if recs.len() < sample_size { recs.len() as int } else { sample_size as int };
                    match first_bad(recs, k) {
                        Some(b) => r matches Err(ImportError::Parse(m)) && m@ == row_error(b.0, b.1),
                        None => r matches Ok(p) && p.row_count == rows_left(recs.len(), sample_size as nat)
                            && p.columns@.len() == headers.len()
                            && (forall|j: int| 0 <= j < headers.len() ==> (#[trigger] p.columns@[j]).name@ == headers[j]
                                && p.columns@[j].data_type@ == "text"@ && p.columns@[j].nullable)
                            && p.sample_rows@.len() == k
                            && (forall|j: int| 0 <= j < k ==> (#[trigger] p.sample_rows@[j])@.len() == recs[j]->Ok_0.len()
                                && forall|c: int| 0 <= c < recs[j]->Ok_0.len() ==> value_text(p.sample_rows@[j]@[c]) == recs[j]->Ok_0[c]),
                    }
                },
            },
    {
        let (headers, records) = read_csv(data);
        let ghost recs = records@.map_values(|x: Result<Vec<String>, String>| record_view(x));
        let ghost head = record_view(headers);
        let headers = match headers {
            Ok(h) => h,
            Err(e) => {
                return Err(ImportError::Parse(e));
            },
        };
        assert(head == Ok::<Seq<Seq<char>>, Seq<char>>(strings_view(headers@)));
        let k = if records.len() < sample_size { records.len() } else { sample_size };
        let mut rows: Vec<Vec<ColumnValue>> = Vec::new();
        let mut i: usize = 0;
        while i < k
            invariant
                i <= k <= records.len(),
                k == if recs.len() < sample_size { recs.len() as int } else { sample_size as int },
                csv_records(data@).1 == recs,
                csv_records(data@).0 is Ok,
                recs == records@.map_values(|x: Result<Vec<String>, String>| record_view(x)),
                first_bad(recs, i as int) is None,
                rows@.len() == i,
                forall|j: int| 0 <= j < i ==> (#[trigger] rows@[j])@.len() == recs[j]->Ok_0.len()
                    && forall|c: int| 0 <= c < recs[j]->Ok_0.len() ==> value_text(rows@[j]@[c]) == recs[j]->Ok_0[c],
            decreases k - i,
        {
            assert(recs[i as int] == record_view(records@[i as int]));
            match &records[i] {
                Ok(fields) => {
                    let mut vals: Vec<ColumnValue> = Vec::new();
                    let mut c: usize = 0;
                    while c < fields.len()
                        invariant
                            c <= fields.len(),
                            vals@.len() == c,
                            forall|q: int| 0 <= q < c ==> value_text(#[trigger] vals@[q]) == fields@[q]@,
                        decreases fields.len() - c,
                    {
                        vals.push(ColumnValue::Text(fields[c].clone()));
                        c += 1;
                    }
                    rows.push(vals);
                },
                Err(e) => {
                    assert(first_bad(recs, i + 1) == Some(((i as nat), e@)));
                    proof {
                        lemma_first_bad_stays(recs, i + 1, k as int);
                    }
                    return Err(ImportError::Parse(row_error_message(i, e.as_str())));
                },
            }
            i += 1;
        }
        let mut columns: Vec<ColumnInfo> = Vec::new();
        let mut j: usize = 0;
        while j < headers.len()
            invariant
                j <= headers.len(),
                columns@.len() == j,
                forall|q: int| 0 <= q < j ==> (#[trigger] columns@[q]).name@ == headers@[q]@
                    && columns@[q].data_type@ == "text"@ && columns@[q].nullable,
            decreases headers.len() - j,
        {
            columns.push(ColumnInfo { name: headers[j].clone(), data_type: "text".to_string(), nullable: true });
            j += 1;
        }
        let left: usize = if records.len() > sample_size { records.len() - sample_size - 1 } else { 0 };
        Ok(ImportPreview { columns, sample_rows: rows, row_count: left as u64 })
    }
}

proof fn lemma_first_bad_stays(recs: Seq<Result<Seq<Seq<char>>, Seq<char>>>, a: int, b: int)
    requires
        0 <= a <= b,
        first_bad(recs, a) is Some,
    ensures
        first_bad(recs, b) == first_bad(recs, a),
    decreases b - a,
{
    if a < b {
        lemma_first_bad_stays(recs, a, b - 1);
    }
}

proof fn lemma_import_records_stops(
    headers: Seq<Seq<char>>,
    recs: Seq<Result<Seq<Seq<char>>, Seq<char>>>,
    fm: Seq<(Seq<char>, MappingV)>,
    skip: Seq<Seq<char>>,
    entity_type: Option<Seq<char>>,
    source: Seq<char>,
    t: Seq<char>,
    n: int,
)
    requires
        0 <= n <= recs.len(),
        import_records(headers, recs.take(n), fm, skip, entity_type, source, t) is Err,
    ensures
        import_records(headers, recs, fm, skip, entity_type, source, t) == import_records(
            headers,
            recs.take(n),
            fm,
            skip,
            entity_type,
            source,
            t,
        ),
    decreases recs.len() - n,
{
    if n < recs.len() {
        assert(recs.take(n + 1).drop_last() =~= recs.take(n));
        lemma_import_records_stops(headers, recs, fm, skip, entity_type, source, t, n + 1);
    } else {
        assert(recs.take(n) =~= recs);
    }
}

} // verus!
