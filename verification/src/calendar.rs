//! iCalendar events and vCard contacts: the property values of a block of
//! lines, and the entities built from each `VEVENT` or `VCARD` block.

use vstd::prelude::*;
use crate::clock::now_rfc3339;
use crate::importers::{IcsImporter, VcfImporter};
use crate::model::{
    fields_view, opt_view, plain_result, ImportError, provenance, provenance_v, results_view, text_component,
    text_field, text_v, Component, ComponentData, ComponentType, DataV, Field, ImportResult,
    ResultV, ScalarV,
};
use crate::text::{
    contains_sub, find_char, range_contains, split_on, split_ranges, starts_with, string_of,
    to_chars, trim, trim_bounds,
};

verus! {

/// End of the first line of `s`: the index of its first `\n`, or its length.
pub open spec fn line_end(s: Seq<char>) -> int {
    match find_char(s, '\n') {
        Some(i) => i,
        None => s.len() as int,
    }
}

/// The value that one line gives to the property `field`: the trimmed
/// line must begin with the property name, followed either by `:` and the
/// value, or by `;`, parameters, `:` and the value. Empty values do not count.
pub open spec fn field_value(line: Seq<char>, field: Seq<char>) -> Option<Seq<char>> {
    let t = trim(line);
    if starts_with(t, field) {
        let after = t.skip(field.len() as int);
        if after.len() > 0 && after[0] == ':' {
            let v = trim(after.skip(1));
            if v.len() > 0 {
                Some(v)
            } else {
                None
            }
        } else if after.len() > 0 && after[0] == ';' {
            match find_char(after, ':') {
                Some(k) => {
                    let v = trim(after.skip(k + 1));
                    if v.len() > 0 {
                        Some(v)
                    } else {
                        None
                    }
                },
                None => None,
            }
        } else {
            None
        }
    } else {
        None
    }
}

/// The value of property `field` on the first line of `s` that gives it one.
pub open spec fn extract_field_spec(s: Seq<char>, field: Seq<char>) -> Option<Seq<char>>
    decreases s.len(),
{
    if s.len() == 0 {
        None
    } else {
        let k = line_end(s);
        match field_value(s.take(k), field) {
            Some(v) => Some(v),
            None => if 0 <= k < s.len() {
                extract_field_spec(s.skip(k + 1), field)
            } else {
                None
            },
        }
    }
}

/// First index of `c` in `v[lo..hi]`, relative to `lo`.
fn find_char_in(v: &Vec<char>, lo: usize, hi: usize, c: char) -> (r: Option<usize>)
    requires
        lo <= hi <= v.len(),
    ensures
        match r {
            Some(i) => find_char(v@.subrange(lo as int, hi as int), c) == Some(i as int) && lo + i
                < hi,
            None => find_char(v@.subrange(lo as int, hi as int), c) is None,
        },
{
    let mut i = lo;
    while i < hi
        invariant
            lo <= i <= hi <= v.len(),
            find_char(v@.subrange(lo as int, hi as int), c) == match find_char(
                v@.subrange(i as int, hi as int),
                c,
            ) {
                Some(k) => Some(k + (i - lo)),
                None => None,
            },
        decreases hi - i,
    {
        let ghost t = v@.subrange(i as int, hi as int);
        assert(t[0] == v@[i as int]);
        if v[i] == c {
            return Some(i - lo);
        }
        assert(t.drop_first() =~= v@.subrange(i + 1, hi as int));
        i += 1;
    }
    None
}

/// Whether `v[lo..hi]` begins with `p`.
fn range_starts_with(v: &Vec<char>, lo: usize, hi: usize, p: &Vec<char>) -> (b: bool)
    requires
        lo <= hi <= v.len(),
    ensures
        b == starts_with(v@.subrange(lo as int, hi as int), p@),
{
    let ghost t = v@.subrange(lo as int, hi as int);
    if p.len() > hi - lo {
        return false;
    }
    let mut j: usize = 0;
    while j < p.len()
        invariant
            lo <= hi <= v.len(),
            p.len() <= hi - lo,
            t == v@.subrange(lo as int, hi as int),
            j <= p.len(),
            forall|m: int| 0 <= m < j ==> t[m] == p@[m],
        decreases p.len() - j,
    {
        assert(t[j as int] == v@[lo + j]);
        if v[lo + j] != p[j] {
            assert(t.take(p.len() as int)[j as int] != p@[j as int]);
            return false;
        }
        j += 1;
    }
    assert(t.take(p.len() as int) =~= p@);
    true
}

/// The value range that the line `v[lo..hi]` gives to the property `f`.
fn field_value_range(v: &Vec<char>, lo: usize, hi: usize, f: &Vec<char>) -> (r: Option<
    (usize, usize),
>)
    requires
        lo <= hi <= v.len(),
    ensures
        match r {
            Some((a, b)) => a <= b <= v.len() && field_value(
                v@.subrange(lo as int, hi as int),
                f@,
            ) == Some(v@.subrange(a as int, b as int)),
            None => field_value(v@.subrange(lo as int, hi as int), f@) is None,
        },
{
    let ghost line = v@.subrange(lo as int, hi as int);
    let (a, b) = trim_bounds(v, lo, hi);
    let ghost t = v@.subrange(a as int, b as int);
    assert(t == trim(line));
    if !range_starts_with(v, a, b, f) {
        return None;
    }
    let s = a + f.len();
    let ghost after = t.skip(f.len() as int);
    assert(after =~= v@.subrange(s as int, b as int));
    if s < b && v[s] == ':' {
        assert(after[0] == v@[s as int]);
        let (c, d) = trim_bounds(v, s + 1, b);
        assert(after.skip(1) =~= v@.subrange(s + 1, b as int));
        if c < d {
            Some((c, d))
        } else {
            None
        }
    } else if s < b && v[s] == ';' {
        assert(after[0] == v@[s as int]);
        proof {
            if s < b {
                assert(after[0] == v@[s as int]);
            }
        }
        match find_char_in(v, s, b, ':') {
            Some(k) => {
                let (c, d) = trim_bounds(v, s + k + 1, b);
                assert(after.skip(k + 1) =~= v@.subrange(s + k + 1, b as int));
                if c < d {
                    Some((c, d))
                } else {
                    None
                }
            },
            None => None,
        }
    } else {
        proof {
            if s < b {
                assert(after[0] == v@[s as int]);
            }
        }
        None
    }
}

/// The value of property `field` in a block of property lines: the first
/// line whose trimmed text is `FIELD:value` or `FIELD;params:value` with a
/// non-empty value gives it, trimmed.
pub fn extract_field(block: &str, field: &str) -> (r: Option<String>)
    ensures
        match r {
            Some(s) => extract_field_spec(block@, field@) == Some(s@),
            None => extract_field_spec(block@, field@) is None,
        },
{
    let v = to_chars(block);
    let f = to_chars(field);
    let mut pos: usize = 0;
    assert(v@.skip(0) =~= v@);
    while pos < v.len()
        invariant
            pos <= v.len(),
            v@ == block@,
            f@ == field@,
            extract_field_spec(block@, field@) == extract_field_spec(v@.skip(pos as int), f@),
        decreases v.len() - pos,
    {
        let ghost s = v@.skip(pos as int);
        assert(s =~= v@.subrange(pos as int, v.len() as int));
        let end = match find_char_in(&v, pos, v.len(), '\n') {
            Some(k) => pos + k,
            None => v.len(),
        };
        assert(s.take(end - pos) =~= v@.subrange(pos as int, end as int));
        match field_value_range(&v, pos, end, &f) {
            Some((a, b)) => {
                return Some(string_of(&v, a, b));
            },
            None => {
                if end < v.len() {
                    assert(s.skip(end - pos + 1) =~= v@.skip(end + 1));
                    pos = end + 1;
                } else {
                    return None;
                }
            },
        }
    }
    None
}

/// The value of iCalendar property `field` in an event block.
pub fn extract_ics_field(event_block: &str, field: &str) -> (r: Option<String>)
    ensures
        match r {
            Some(s) => extract_field_spec(event_block@, field@) == Some(s@),
            None => extract_field_spec(event_block@, field@) is None,
        },
{
    extract_field(event_block, field)
}

/// The value of vCard property `field` in a card block.
pub fn extract_vcf_field(card_block: &str, field: &str) -> (r: Option<String>)
    ensures
        match r {
            Some(s) => extract_field_spec(card_block@, field@) == Some(s@),
            None => extract_field_spec(card_block@, field@) is None,
        },
{
    extract_field(card_block, field)
}


/// `o`'s value, or `d` when there is none.
pub open spec fn or_default(o: Option<Seq<char>>, d: Seq<char>) -> Seq<char> {
    match o {
        Some(v) => v,
        None => d,
    }
}

/// The timeline component of an event: when it was imported, when it
/// starts and, if known, when it ends.
pub open spec fn event_timeline_v(imported_at: Seq<char>, start: Seq<char>, end: Option<Seq<char>>) -> (
    ComponentType,
    DataV,
) {
    let base = seq![
        ("imported_at"@, ScalarV::Text(imported_at)),
        ("created_at"@, ScalarV::Text(start)),
    ];
    (
        ComponentType::Timeline,
        DataV::Object(
            match end {
                Some(e) => base.push(("ended_at"@, ScalarV::Text(e))),
                None => base,
            },
        ),
    )
}

/// The entity imported from one `VEVENT` block.
pub open spec fn ics_event_v(block: Seq<char>, source: Seq<char>, t: Seq<char>) -> ResultV {
    let summary = or_default(extract_field_spec(block, "SUMMARY"@), "Untitled Event"@);
    let description = or_default(extract_field_spec(block, "DESCRIPTION"@), Seq::empty());
    let base = seq![
        text_v(ComponentType::Title, summary),
        text_v(ComponentType::Content, description),
        provenance_v(source, t, "ics"@),
    ];
    ResultV {
        entity_type: "Event"@,
        components: match extract_field_spec(block, "DTSTART"@) {
            Some(start) => base.push(
                event_timeline_v(t, start, extract_field_spec(block, "DTEND"@)),
            ),
            None => base,
        },
        cross_references: Seq::empty(),
    }
}

/// The events of the pieces of a calendar: one per piece that holds `END:VEVENT`.
pub open spec fn ics_events_of(pieces: Seq<Seq<char>>, source: Seq<char>, t: Seq<char>) -> Seq<
    ResultV,
>
    decreases pieces.len(),
{
    if pieces.len() == 0 {
        Seq::empty()
    } else {
        let r = ics_events_of(pieces.drop_last(), source, t);
        if contains_sub(pieces.last(), "END:VEVENT"@) {
            r.push(ics_event_v(pieces.last(), source, t))
        } else {
            r
        }
    }
}

/// The events of a calendar: the text is split at each `BEGIN:VEVENT`,
/// and each piece that holds `END:VEVENT` becomes one event.
pub open spec fn ics_events(content: Seq<char>, source: Seq<char>, t: Seq<char>) -> Seq<ResultV> {
    ics_events_of(split_on(content, "BEGIN:VEVENT"@), source, t)
}

/// The contact details of a card, as an object with the fields it has.
pub open spec fn contact_v(email: Option<Seq<char>>, tel: Option<Seq<char>>, org: Option<Seq<char>>) -> Seq<
    (Seq<char>, ScalarV),
> {
    let a = match email {
        Some(e) => seq![("email"@, ScalarV::Text(e))],
        None => Seq::empty(),
    };
    let b = match tel {
        Some(p) => a.push(("phone"@, ScalarV::Text(p))),
        None => a,
    };
    match org {
        Some(o) => b.push(("organization"@, ScalarV::Text(o))),
        None => b,
    }
}

/// The name of a card: its `FN`, else its `N`, else a placeholder.
pub open spec fn card_name(block: Seq<char>) -> Seq<char> {
    match extract_field_spec(block, "FN"@) {
        Some(n) => n,
        None => or_default(extract_field_spec(block, "N"@), "Untitled Contact"@),
    }
}

/// The person imported from one `VCARD` block.
pub open spec fn vcard_v(block: Seq<char>, source: Seq<char>, t: Seq<char>) -> ResultV {
    ResultV {
        entity_type: "Person"@,
        components: seq![
            text_v(ComponentType::Title, card_name(block)),
            provenance_v(source, t, "vcf"@),
            (
                ComponentType::Content,
                DataV::Object(
                    contact_v(
                        extract_field_spec(block, "EMAIL"@),
                        extract_field_spec(block, "TEL"@),
                        extract_field_spec(block, "ORG"@),
                    ),
                ),
            ),
        ],
        cross_references: Seq::empty(),
    }
}

/// A card's formatted name titles the person: when the block has a
/// (non-empty) `FN` property, the imported person's title is that value,
/// whatever `N` holds.
pub proof fn law_formatted_name_is_the_title(block: Seq<char>, source: Seq<char>, t: Seq<char>, name: Seq<char>)
    requires
        extract_field_spec(block, "FN"@) == Some(name),
    ensures
        vcard_v(block, source, t).components[0] == text_v(ComponentType::Title, name),
        vcard_v(block, source, t).entity_type == "Person"@,
{
}

/// The structured name is used only without a formatted name: when the
/// block has no `FN` property but has an `N`, the title is the `N` value;
/// with neither, it is `Untitled Contact`.
pub proof fn law_structured_name_only_without_formatted(block: Seq<char>, source: Seq<char>, t: Seq<char>)
    requires
        extract_field_spec(block, "FN"@) is None,
    ensures
        vcard_v(block, source, t).components[0] == text_v(
            ComponentType::Title,
            match extract_field_spec(block, "N"@) {
                Some(n) => n,
                None => "Untitled Contact"@,
            },
        ),
{
}

/// The contacts of the pieces of an address book: one per piece that holds `END:VCARD`.
pub open spec fn vcards_of(pieces: Seq<Seq<char>>, source: Seq<char>, t: Seq<char>) -> Seq<ResultV>
    decreases pieces.len(),
{
    if pieces.len() == 0 {
        Seq::empty()
    } else {
        let r = vcards_of(pieces.drop_last(), source, t);
        if contains_sub(pieces.last(), "END:VCARD"@) {
            r.push(vcard_v(pieces.last(), source, t))
        } else {
            r
        }
    }
}

/// The contacts of an address book: the text is split at each
/// `BEGIN:VCARD`, and each piece that holds `END:VCARD` becomes one contact.
pub open spec fn vcards(content: Seq<char>, source: Seq<char>, t: Seq<char>) -> Seq<ResultV> {
    vcards_of(split_on(content, "BEGIN:VCARD"@), source, t)
}

/// A text component holding an extracted value, or `default`.
fn value_or(v: Option<String>, default: &str) -> (r: String)
    ensures
        r@ == match v {
            Some(s) => s@,
            None => default@,
        },
{
    match v {
        Some(s) => s,
        None => default.to_string(),
    }
}

/// The entity imported from one event block.
fn ics_event(block: &str, source: &str, imported_at: &str) -> (r: ImportResult)
    ensures
        r@ == ics_event_v(block@, source@, imported_at@),
{
    let summary = value_or(extract_ics_field(block, "SUMMARY"), "Untitled Event");
    let description = value_or(extract_ics_field(block, "DESCRIPTION"), "");
    let dtstart = extract_ics_field(block, "DTSTART");
    let dtend = extract_ics_field(block, "DTEND");
    let mut components: Vec<Component> = Vec::new();
    components.push(text_component(ComponentType::Title, summary));
    components.push(text_component(ComponentType::Content, description));
    components.push(provenance(source, imported_at, "ics"));
    let ghost base = components@;
    if let Some(start) = dtstart {
        let mut fields: Vec<Field> = Vec::new();
        fields.push(text_field("imported_at", imported_at.to_string()));
        fields.push(text_field("created_at", start));
        let ghost two = fields@;
        let ghost end_v = opt_view(dtend);
        if let Some(end) = dtend {
            fields.push(text_field("ended_at", end));
        }
        proof {
            let base_v = seq![
                ("imported_at"@, ScalarV::Text(imported_at@)),
                ("created_at"@, ScalarV::Text(start@)),
            ];
            assert(fields_view(two) =~= base_v);
            match end_v {
                Some(e) => assert(fields_view(fields@) =~= base_v.push(
                    ("ended_at"@, ScalarV::Text(e)),
                )),
                None => assert(fields_view(fields@) =~= base_v),
            }
        }
        components.push(
            Component { component_type: ComponentType::Timeline, data: ComponentData::Object(fields) },
        );
    }
    let r = plain_result("Event", components);
    proof {
        assert("" @ =~= Seq::<char>::empty()) by {
            reveal_strlit("");
        }
        let expected = ics_event_v(block@, source@, imported_at@);
        assert(r@.components =~= expected.components);
    }
    r
}

/// The person imported from one card block.
fn vcard(block: &str, source: &str, imported_at: &str) -> (r: ImportResult)
    ensures
        r@ == vcard_v(block@, source@, imported_at@),
{
    let name = match extract_vcf_field(block, "FN") {
        Some(n) => n,
        None => value_or(extract_vcf_field(block, "N"), "Untitled Contact"),
    };
    let email = extract_vcf_field(block, "EMAIL");
    let tel = extract_vcf_field(block, "TEL");
    let org = extract_vcf_field(block, "ORG");
    let mut fields: Vec<Field> = Vec::new();
    let ghost e_v = opt_view(email);
    let ghost t_v = opt_view(tel);
    let ghost o_v = opt_view(org);
    if let Some(e) = email {
        fields.push(text_field("email", e));
    }
    assert(fields_view(fields@) =~= contact_v(e_v, None, None));
    if let Some(p) = tel {
        fields.push(text_field("phone", p));
    }
    assert(fields_view(fields@) =~= contact_v(e_v, t_v, None));
    if let Some(o) = org {
        fields.push(text_field("organization", o));
    }
    assert(fields_view(fields@) =~= contact_v(e_v, t_v, o_v));
    let mut components: Vec<Component> = Vec::new();
    components.push(text_component(ComponentType::Title, name));
    components.push(provenance(source, imported_at, "vcf"));
    components.push(
        Component { component_type: ComponentType::Content, data: ComponentData::Object(fields) },
    );
    let r = plain_result("Person", components);
    proof {
        let expected = vcard_v(block@, source@, imported_at@);
        assert(r@.components =~= expected.components);
    }
    r
}

impl IcsImporter {
    /// The events of a calendar's text, stamped with `imported_at`.
    pub fn import_ical_at(&self, content: &str, source: &str, imported_at: &str) -> (r: Vec<
        ImportResult,
    >)
        ensures
            results_view(r@) == ics_events(content@, source@, imported_at@),
    {
        let v = to_chars(content);
        let pat = to_chars("BEGIN:VEVENT");
        let end_pat = to_chars("END:VEVENT");
        proof {
            reveal_strlit("BEGIN:VEVENT");
            reveal_strlit("END:VEVENT");
        }
        let pieces = split_ranges(&v, &pat);
        let ghost ps = pieces@.map_values(|x: (usize, usize)| v@.subrange(x.0 as int, x.1 as int));
        let mut out: Vec<ImportResult> = Vec::new();
        let mut i: usize = 0;
        while i < pieces.len()
            invariant
                i <= pieces.len(),
                v@ == content@,
                end_pat@ == "END:VEVENT"@,
                end_pat.len() > 0,
                ps == split_on(content@, "BEGIN:VEVENT"@),
                ps == pieces@.map_values(|x: (usize, usize)| v@.subrange(x.0 as int, x.1 as int)),
                forall|k: int| 0 <= k < pieces.len() ==> #[trigger] pieces@[k].0 <= pieces@[k].1 <= v.len(),
                results_view(out@) == ics_events_of(ps.take(i as int), source@, imported_at@),
            decreases pieces.len() - i,
        {
            let (a, b) = pieces[i];
            assert(ps.take(i + 1).drop_last() =~= ps.take(i as int));
            assert(ps.take(i + 1).last() == v@.subrange(a as int, b as int));
            if range_contains(&v, a, b, &end_pat) {
                let block = string_of(&v, a, b);
                let e = ics_event(block.as_str(), source, imported_at);
                let ghost before = out@;
                out.push(e);
                assert(results_view(out@) =~= results_view(before).push(e@));
            }
            i += 1;
        }
        assert(ps.take(pieces.len() as int) =~= ps);
        out
    }
}


impl IcsImporter {
    /// The events of a calendar's text, stamped with the current time.
    pub fn import_ical(&self, content: &str, source: &str) -> (r: Vec<ImportResult>)
        ensures
            exists|t: Seq<char>| results_view(r@) == ics_events(content@, source@, t),
    {
        let now = now_rfc3339();
        self.import_ical_at(content, source, now.as_str())
    }

    /// A calendar holds many events, so a single-entity import is refused.
    pub fn import(&self, path: &str) -> (r: Result<ImportResult, ImportError>)
        ensures
            r matches Err(ImportError::Parse(m)) && m@
                == "ICS import creates multiple entities. Use import_ical() for multi-entity import."@,
    {
        Err(
            ImportError::Parse(
                "ICS import creates multiple entities. Use import_ical() for multi-entity import.".to_string(),
            ),
        )
    }
}

impl VcfImporter {
    /// The contacts of an address book's text, stamped with `imported_at`.
    pub fn import_vcards_at(&self, content: &str, source: &str, imported_at: &str) -> (r: Vec<
        ImportResult,
    >)
        ensures
            results_view(r@) == vcards(content@, source@, imported_at@),
    {
        let v = to_chars(content);
        let pat = to_chars("BEGIN:VCARD");
        let end_pat = to_chars("END:VCARD");
        proof {
            reveal_strlit("BEGIN:VCARD");
            reveal_strlit("END:VCARD");
        }
        let pieces = split_ranges(&v, &pat);
        let ghost ps = pieces@.map_values(|x: (usize, usize)| v@.subrange(x.0 as int, x.1 as int));
        let mut out: Vec<ImportResult> = Vec::new();
        let mut i: usize = 0;
        while i < pieces.len()
            invariant
                i <= pieces.len(),
                v@ == content@,
                end_pat@ == "END:VCARD"@,
                end_pat.len() > 0,
                ps == split_on(content@, "BEGIN:VCARD"@),
                ps == pieces@.map_values(|x: (usize, usize)| v@.subrange(x.0 as int, x.1 as int)),
                forall|k: int| 0 <= k < pieces.len() ==> #[trigger] pieces@[k].0 <= pieces@[k].1 <= v.len(),
                results_view(out@) == vcards_of(ps.take(i as int), source@, imported_at@),
            decreases pieces.len() - i,
        {
            let (a, b) = pieces[i];
            assert(ps.take(i + 1).drop_last() =~= ps.take(i as int));
            assert(ps.take(i + 1).last() == v@.subrange(a as int, b as int));
            if range_contains(&v, a, b, &end_pat) {
                let block = string_of(&v, a, b);
                let e = vcard(block.as_str(), source, imported_at);
                let ghost before = out@;
                out.push(e);
                assert(results_view(out@) =~= results_view(before).push(e@));
            }
            i += 1;
        }
        assert(ps.take(pieces.len() as int) =~= ps);
        out
    }

    /// The contacts of an address book's text, stamped with the current time.
    pub fn import_vcards(&self, content: &str, source: &str) -> (r: Vec<ImportResult>)
        ensures
            exists|t: Seq<char>| results_view(r@) == vcards(content@, source@, t),
    {
        let now = now_rfc3339();
        self.import_vcards_at(content, source, now.as_str())
    }

    /// An address book holds many contacts, so a single-entity import is refused.
    pub fn import(&self, path: &str) -> (r: Result<ImportResult, ImportError>)
        ensures
            r matches Err(ImportError::Parse(m)) && m@
                == "VCF import creates multiple entities. Use import_vcards() for multi-entity import."@,
    {
        Err(
            ImportError::Parse(
                "VCF import creates multiple entities. Use import_vcards() for multi-entity import.".to_string(),
            ),
        )
    }
}

} // verus!
