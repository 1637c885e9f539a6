//! Presentations in the Office Open XML format: the text of their slides,
//! in slide order.

use vstd::prelude::*;
use std::io::Read;
use crate::clock::now_rfc3339;
use crate::documents::{article, document_outcome, make_article, ImportErrorV};
use crate::importers::{str_starts_with, PptxImporter};
use crate::model::{ImportError, ImportResult, ResultV};
use crate::text::{append_str, concat, decimal, decimal_string, starts_with, to_chars};
use crate::url::{ends_with, str_ends_with};
use crate::xml::{events_view, name_is, named, scan_xml, unescape_xml, xml_events, xml_unescaped, XmlEvent, XmlEventV};

verus! {

/// `s` without every leading repetition of `p` (`str::trim_start_matches`).
pub open spec fn strip_prefixes(s: Seq<char>, p: Seq<char>) -> Seq<char>
    decreases s.len(),
{
    if p.len() > 0 && starts_with(s, p) {
        strip_prefixes(s.skip(p.len() as int), p)
    } else {
        s
    }
}

/// `s` without every trailing repetition of `p` (`str::trim_end_matches`).
pub open spec fn strip_suffixes(s: Seq<char>, p: Seq<char>) -> Seq<char>
    decreases s.len(),
{
    if p.len() > 0 && ends_with(s, p) {
        strip_suffixes(s.take(s.len() - p.len()), p)
    } else {
        s
    }
}

/// Whether `c` is an ASCII decimal digit.
pub open spec fn is_digit(c: char) -> bool {
    '0' <= c && c <= '9'
}

/// Whether every character of `s` is a decimal digit.
pub open spec fn all_digits(s: Seq<char>) -> bool {
    forall|i: int| 0 <= i < s.len() ==> #[trigger] is_digit(s[i])
}

/// The value of the decimal digits `s`.
pub open spec fn digits_value(s: Seq<char>) -> nat
    decreases s.len(),
{
    if s.len() == 0 {
        0
    } else {
        digits_value(s.drop_last()) * 10 + (s.last() as int - '0' as int) as nat
    }
}

/// `str::parse::<usize>`: an optional `+`, then at least one decimal digit
/// and nothing else, of a value that fits in a `usize`.
pub open spec fn parse_usize(s: Seq<char>) -> Option<nat> {
    let d = if s.len() > 0 && s[0] == '+' { s.drop_first() } else { s };
    if d.len() > 0 && all_digits(d) && digits_value(d) <= usize::MAX {
        Some(digits_value(d))
    } else {
        None
    }
}

/// Whether `p` stands in `v` at `lo`, ending at or before `hi`.
fn matches_at(v: &Vec<char>, lo: usize, hi: usize, p: &Vec<char>) -> (b: bool)
    requires
        lo <= hi <= v.len(),
    ensures
        b == (lo + p.len() <= hi && v@.subrange(lo as int, lo + p.len()) == p@),
{
    if p.len() > hi - lo {
        return false;
    }
    let mut i: usize = 0;
    while i < p.len()
        invariant
            i <= p.len(),
            lo + p.len() <= hi <= v.len(),
            forall|k: int| 0 <= k < i ==> v@[lo + k] == p@[k],
        decreases p.len() - i,
    {
        if v[lo + i] != p[i] {
            assert(v@.subrange(lo as int, lo + p.len())[i as int] != p@[i as int]);
            return false;
        }
        i += 1;
    }
    assert(v@.subrange(lo as int, lo + p.len()) =~= p@);
    true
}

/// `str::parse::<usize>` of the characters of `v` from `lo` to `hi`.
fn parse_range(v: &Vec<char>, lo: usize, hi: usize) -> (r: Option<usize>)
    requires
        lo <= hi <= v.len(),
    ensures
        match parse_usize(v@.subrange(lo as int, hi as int)) {
            Some(n) => r == Some(n as usize),
            None => r is None,
        },
{
    let ghost s = v@.subrange(lo as int, hi as int);
    let mut start = lo;
    if lo < hi && v[lo] == '+' {
        start = lo + 1;
    }
    let ghost d = v@.subrange(start as int, hi as int);
    assert(d =~= (if s.len() > 0 && s[0] == '+' { s.drop_first() } else { s }));
    if start == hi {
        return None;
    }
    let mut acc: usize = 0;
    let mut over = false;
    let mut j = start;
    assert(v@.subrange(start as int, start as int) =~= Seq::<char>::empty());
    while j < hi
        invariant
            lo <= start <= j <= hi <= v.len(),
            d == v@.subrange(start as int, hi as int),
            s == v@.subrange(lo as int, hi as int),
            d == (if s.len() > 0 && s[0] == '+' { s.drop_first() } else { s }),
            all_digits(v@.subrange(start as int, j as int)),
            !over ==> acc == digits_value(v@.subrange(start as int, j as int)),
            over ==> digits_value(v@.subrange(start as int, j as int)) > usize::MAX,
        decreases hi - j,
    {
        let c = v[j];
        if !('0' <= c && c <= '9') {
            assert(d[j - start] == v@[j as int]);
            assert(!is_digit(d[j - start]));
            assert(!all_digits(d));
            assert(parse_usize(s) is None);
            return None;
        }
        let ghost prev = v@.subrange(start as int, j as int);
        let ghost next = v@.subrange(start as int, j + 1);
        assert(next.drop_last() =~= prev);
        let dg: usize = (c as u32 - '0' as u32) as usize;
        assert(dg == (next.last() as int - '0' as int));
        if !over {
            match acc.checked_mul(10) {
                Some(m) => match m.checked_add(dg) {
                    Some(a) => {
                        acc = a;
                    },
                    None => {
                        over = true;
                    },
                },
                None => {
                    over = true;
                },
            }
        }
        assert(all_digits(next)) by {
            assert forall|i: int| 0 <= i < next.len() implies #[trigger] is_digit(next[i]) by {
                if i < prev.len() {
                    assert(next[i] == prev[i]);
                }
            }
        }
        j += 1;
    }
    assert(v@.subrange(start as int, j as int) =~= d);
    if over {
        None
    } else {
        Some(acc)
    }
}

/// The number of a slide named `ppt/slides/slideN.xml`: `N`, or 0 when it
/// is not a number.
pub open spec fn slide_number(name: Seq<char>) -> nat {
    match parse_usize(strip_suffixes(strip_prefixes(name, "ppt/slides/slide"@), ".xml"@)) {
        Some(n) => n,
        None => 0,
    }
}

/// Whether an archive entry holds a slide.
pub open spec fn is_slide_name(name: Seq<char>) -> bool {
    starts_with(name, "ppt/slides/slide"@) && ends_with(name, ".xml"@)
}

fn slide_num(name: &str) -> (r: usize)
    ensures
        r == slide_number(name@),
{
    let v = to_chars(name);
    let p = to_chars("ppt/slides/slide");
    let x = to_chars(".xml");
    proof {
        reveal_strlit("ppt/slides/slide");
        reveal_strlit(".xml");
    }
    let ghost pre = "ppt/slides/slide"@;
    let ghost suf = ".xml"@;
    let mut lo: usize = 0;
    assert(v@.subrange(0, v@.len() as int) =~= v@);
    while matches_at(&v, lo, v.len(), &p)
        invariant
            lo <= v.len(),
            p@ == pre,
            pre.len() > 0,
            strip_prefixes(name@, pre) == strip_prefixes(v@.subrange(lo as int, v@.len() as int), pre),
        decreases v.len() - lo,
    {
        let ghost t = v@.subrange(lo as int, v@.len() as int);
        assert(t.take(pre.len() as int) =~= v@.subrange(lo as int, lo + pre.len()));
        assert(t.skip(pre.len() as int) =~= v@.subrange(lo + pre.len(), v@.len() as int));
        lo = lo + p.len();
    }
    proof {
        let t = v@.subrange(lo as int, v@.len() as int);
        if pre.len() <= t.len() {
            assert(t.take(pre.len() as int) =~= v@.subrange(lo as int, lo + pre.len()));
        }
    }
    let mut hi: usize = v.len();
    while hi - lo >= x.len() && matches_at(&v, hi - x.len(), hi, &x)
        invariant
            lo <= hi <= v.len(),
            x@ == suf,
            suf.len() > 0,
            strip_suffixes(v@.subrange(lo as int, v@.len() as int), suf) == strip_suffixes(v@.subrange(lo as int, hi as int), suf),
        decreases hi,
    {
        let ghost t = v@.subrange(lo as int, hi as int);
        assert(t.skip(t.len() - suf.len()) =~= v@.subrange(hi - suf.len(), hi as int));
        assert(t.take(t.len() - suf.len()) =~= v@.subrange(lo as int, hi - suf.len()));
        hi = hi - x.len();
    }
    proof {
        let t = v@.subrange(lo as int, hi as int);
        if suf.len() <= t.len() {
            assert(t.skip(t.len() - suf.len()) =~= v@.subrange(hi - suf.len(), hi as int));
        }
    }
    match parse_range(&v, lo, hi) {
        Some(n) => n,
        None => 0,
    }
}

/// Which text of a slide is kept: the text inside `a:t` runs, each piece
/// followed by a newline.
pub open spec fn slide_text_step(s: (Seq<char>, bool), e: XmlEventV) -> (Seq<char>, bool) {
    match e {
        XmlEventV::Start(n) => if named(n, "a:t"@) { (s.0, true) } else { s },
        XmlEventV::Empty(n) => if named(n, "a:t"@) { (s.0, true) } else { s },
        XmlEventV::Text(raw) => if s.1 {
            match xml_unescaped(raw) {
                Some(x) => ((s.0 + x).push('\n'), s.1),
                None => s,
            }
        } else {
            s
        },
        XmlEventV::End(n) => if named(n, "a:t"@) { (s.0, false) } else { s },
        XmlEventV::Other => s,
    }
}

/// The kept slide text after the events `es`.
pub open spec fn slide_text_fold(es: Seq<XmlEventV>) -> (Seq<char>, bool)
    decreases es.len(),
{
    if es.len() == 0 {
        (Seq::empty(), false)
    } else {
        slide_text_step(slide_text_fold(es.drop_last()), es.last())
    }
}

/// The text of a slide document, or `XML error: ` and the reader's error.
pub open spec fn slide_text(xml: Seq<u8>) -> Result<Seq<char>, Seq<char>> {
    match xml_events(xml).1 {
        Some(m) => Err("XML error: "@ + m),
        None => Ok(slide_text_fold(xml_events(xml).0).0),
    }
}

/// The text of a slide document (see `slide_text`).
fn extract_text_from_slide(xml: &[u8]) -> (r: Result<String, String>)
    ensures
        match slide_text(xml@) {
            Ok(t) => r matches Ok(x) && x@ == t,
            Err(m) => r matches Err(x) && x@ == m,
        },
{
    let (events, error) = scan_xml(xml);
    if let Some(e) = error {
        return Err(concat("XML error: ", e.as_str()));
    }
    let ghost es = events_view(events@);
    let mut text = String::new();
    let mut in_t = false;
    let mut i: usize = 0;
    assert(es.take(0) =~= Seq::<XmlEventV>::empty());
    while i < events.len()
        invariant
            i <= events@.len(),
            es == events_view(events@),
            slide_text_fold(es.take(i as int)) == (text@, in_t),
        decreases events@.len() - i,
    {
        proof {
            assert(es.take(i + 1).drop_last() =~= es.take(i as int));
            assert(es.take(i + 1).last() == events@[i as int]@);
        }
        match &events[i] {
            XmlEvent::Start(n) => {
                if name_is(n, "a:t") {
                    in_t = true;
                }
            },
            XmlEvent::Empty(n) => {
                if name_is(n, "a:t") {
                    in_t = true;
                }
            },
            XmlEvent::Text(raw) => {
                if in_t {
                    match unescape_xml(raw.as_slice()) {
                        Some(x) => {
                            append_str(&mut text, x.as_str());
                            text.push('\n');
                        },
                        None => {},
                    }
                }
            },
            XmlEvent::End(n) => {
                if name_is(n, "a:t") {
                    in_t = false;
                }
            },
            XmlEvent::Other => {},
        }
        i += 1;
    }
    assert(es.take(events@.len() as int) =~= es);
    Ok(text)
}

/// The number of entries of the ZIP archive `data`, or the archive's error.
pub uninterp spec fn zip_entry_count(data: Seq<u8>) -> Result<nat, Seq<char>>;

/// The name of the entry at `index` of the ZIP archive `data`, or the error
/// of opening the archive, of getting the entry or of decoding its name.
pub uninterp spec fn zip_entry_name(data: Seq<u8>, index: nat) -> Result<Seq<char>, Seq<char>>;

/// The content of the entry at `index` of the ZIP archive `data`, or the
/// error of opening the archive, of getting the entry or of reading it.
pub uninterp spec fn zip_entry_bytes(data: Seq<u8>, index: nat) -> Result<Seq<u8>, Seq<char>>;

/// `zip::ZipArchive::new` over `data`, then `len`. Claimed: the result is
/// `zip_entry_count` of `data`.
#[verifier::external_body]
fn zip_len(data: &[u8]) -> (r: Result<usize, String>)
    ensures
        match r {
            Ok(n) => zip_entry_count(data@) == Ok::<nat, Seq<char>>(n as nat),
            Err(e) => zip_entry_count(data@) == Err::<nat, Seq<char>>(e@),
        },
{
    zip::ZipArchive::new(std::io::Cursor::new(data)).map(|a| a.len()).map_err(|e| e.to_string())
}

/// `zip::ZipArchive::new` over `data`, then `by_index(index)` and `name`.
/// Claimed: the result is `zip_entry_name` of the arguments.
#[verifier::external_body]
fn zip_name_at(data: &[u8], index: usize) -> (r: Result<String, String>)
    ensures
        match r {
            Ok(n) => zip_entry_name(data@, index as nat) == Ok::<Seq<char>, Seq<char>>(n@),
            Err(e) => zip_entry_name(data@, index as nat) == Err::<Seq<char>, Seq<char>>(e@),
        },
{
    let mut archive = zip::ZipArchive::new(std::io::Cursor::new(data)).map_err(|e| e.to_string())?;
    let entry = archive.by_index(index).map_err(|e| e.to_string())?;
    entry.name().map(|n| n.into_owned()).map_err(|e| e.to_string())
}

/// `zip::ZipArchive::new` over `data`, then `by_index(index)` and
/// `read_to_end`. Claimed: the result is `zip_entry_bytes` of the arguments.
#[verifier::external_body]
fn zip_read_at(data: &[u8], index: usize) -> (r: Result<Vec<u8>, String>)
    ensures
        match r {
            Ok(b) => zip_entry_bytes(data@, index as nat) == Ok::<Seq<u8>, Seq<char>>(b@),
            Err(e) => zip_entry_bytes(data@, index as nat) == Err::<Seq<u8>, Seq<char>>(e@),
        },
{
    let mut archive = zip::ZipArchive::new(std::io::Cursor::new(data)).map_err(|e| e.to_string())?;
    let mut entry = archive.by_index(index).map_err(|e| e.to_string())?;
    let mut buf = Vec::new();
    entry.read_to_end(&mut buf).map(|_| buf).map_err(|e| e.to_string())
}

/// The slides among the first `n` entries of the archive `data`, in entry
/// order, each with its number and text; or the first error: an entry that
/// cannot be opened, a slide that cannot be read, or a slide that is not
/// well-formed XML.
pub open spec fn slides_upto(data: Seq<u8>, n: nat) -> Result<Seq<(nat, Seq<char>)>, ImportErrorV>
    decreases n,
{
    if n == 0 {
        Ok(Seq::empty())
    } else {
        match slides_upto(data, (n - 1) as nat) {
            Err(e) => Err(e),
            Ok(acc) => match zip_entry_name(data, (n - 1) as nat) {
                Err(m) => Err(ImportErrorV::Parse(m)),
                Ok(name) => if is_slide_name(name) {
                    match zip_entry_bytes(data, (n - 1) as nat) {
                        Err(m) => Err(ImportErrorV::Io(m)),
                        Ok(b) => match slide_text(b) {
                            Err(m) => Err(ImportErrorV::Parse(m)),
                            Ok(t) => Ok(acc.push((slide_number(name), t))),
                        },
                    }
                } else {
                    Ok(acc)
                },
            },
        }
    }
}

/// The position at which a slide numbered `k` goes in the ordered slides
/// `s`: after every slide whose number is at most `k`.
pub open spec fn insert_position(s: Seq<(nat, Seq<char>)>, k: nat) -> int
    decreases s.len(),
{
    if s.len() == 0 {
        0
    } else if s[0].0 > k {
        0
    } else {
        1 + insert_position(s.drop_first(), k)
    }
}

/// The slides `s` ordered by number, slides of equal number in their order
/// in `s` (a stable sort).
pub open spec fn sort_slides(s: Seq<(nat, Seq<char>)>) -> Seq<(nat, Seq<char>)>
    decreases s.len(),
{
    if s.len() == 0 {
        s
    } else {
        let r = sort_slides(s.drop_last());
        r.insert(insert_position(r, s.last().0), s.last())
    }
}

/// The text of the ordered slides `s`: each slide's header line
/// `--- Slide N ---` followed by its text.
pub open spec fn slides_text(s: Seq<(nat, Seq<char>)>) -> Seq<char>
    decreases s.len(),
{
    if s.len() == 0 {
        Seq::empty()
    } else {
        slides_text(s.drop_last()) + "--- Slide "@ + decimal(s.last().0) + " ---\n"@ + s.last().1
    }
}

/// The text of a presentation, or its error.
pub open spec fn pptx_content(data: Seq<u8>) -> Result<Seq<char>, ImportErrorV> {
    match zip_entry_count(data) {
        Err(e) => Err(ImportErrorV::Parse("not a valid ZIP/PPTX: "@ + e)),
        Ok(n) => match slides_upto(data, n) {
            Err(e) => Err(e),
            Ok(s) => Ok(slides_text(sort_slides(s))),
        },
    }
}

/// The article of a presentation, or its error.
pub open spec fn pptx_import(data: Seq<u8>, source: Seq<char>, t: Seq<char>) -> Result<ResultV, ImportErrorV> {
    match pptx_content(data) {
        Err(e) => Err(e),
        Ok(text) => Ok(article(source, text, "pptx"@, t)),
    }
}

proof fn lemma_slides_error_stays(data: Seq<u8>, k: nat, n: nat)
    requires
        k <= n,
        slides_upto(data, k) is Err,
    ensures
        slides_upto(data, n) == slides_upto(data, k),
    decreases n - k,
{
    if k < n {
        lemma_slides_error_stays(data, k, (n - 1) as nat);
    }
}

proof fn lemma_insert_position(s: Seq<(nat, Seq<char>)>, k: nat, j: int)
    requires
        0 <= j <= s.len(),
        forall|i: int| 0 <= i < j ==> #[trigger] s[i].0 <= k,
        j < s.len() ==> s[j].0 > k,
    ensures
        insert_position(s, k) == j,
    decreases j,
{
    if j > 0 {
        assert forall|i: int| 0 <= i < j - 1 implies #[trigger] s.drop_first()[i].0 <= k by {
            assert(s.drop_first()[i] == s[i + 1]);
        }
        if j - 1 < s.drop_first().len() {
            assert(s.drop_first()[j - 1] == s[j]);
        }
        lemma_insert_position(s.drop_first(), k, j - 1);
    }
}

/// Whether slides are ordered by number.
pub open spec fn slides_ordered(s: Seq<(nat, Seq<char>)>) -> bool {
    forall|i: int, j: int| 0 <= i < j < s.len() ==> s[i].0 <= s[j].0
}

proof fn lemma_position_bounds(s: Seq<(nat, Seq<char>)>, k: nat)
    ensures
        0 <= insert_position(s, k) <= s.len(),
        forall|i: int| 0 <= i < insert_position(s, k) ==> #[trigger] s[i].0 <= k,
        insert_position(s, k) < s.len() ==> s[insert_position(s, k)].0 > k,
    decreases s.len(),
{
    if s.len() > 0 && s[0].0 <= k {
        lemma_position_bounds(s.drop_first(), k);
        assert forall|i: int| 0 <= i < insert_position(s, k) implies #[trigger] s[i].0 <= k by {
            if i > 0 {
                assert(s[i] == s.drop_first()[i - 1]);
            }
        }
        if insert_position(s, k) < s.len() {
            assert(s[insert_position(s, k)] == s.drop_first()[insert_position(s.drop_first(), k)]);
        }
    }
}

/// Ordering slides by number gives each slide once, and in order: a
/// presentation's slides come out in slide order, none lost or repeated.
pub proof fn law_slides_in_order(s: Seq<(nat, Seq<char>)>)
    ensures
        slides_ordered(sort_slides(s)),
        sort_slides(s).to_multiset() == s.to_multiset(),
    decreases s.len(),
{
    broadcast use vstd::seq_lib::to_multiset_insert, vstd::seq_lib::to_multiset_build;

    if s.len() > 0 {
        let r = sort_slides(s.drop_last());
        law_slides_in_order(s.drop_last());
        let x = s.last();
        let p = insert_position(r, x.0);
        lemma_position_bounds(r, x.0);
        let t = r.insert(p, x);
        assert forall|i: int, j: int| 0 <= i < j < t.len() implies t[i].0 <= t[j].0 by {
            if j < p {
                assert(t[i] == r[i] && t[j] == r[j]);
            } else if j == p {
                assert(t[i] == r[i]);
            } else if i < p {
                assert(t[i] == r[i] && t[j] == r[j - 1]);
            } else if i == p {
                assert(t[j] == r[j - 1]);
            } else {
                assert(t[i] == r[i - 1] && t[j] == r[j - 1]);
            }
        }
        assert(s.drop_last().push(x) =~= s);
    }
}

/// The mathematical value of numbered slides.
pub open spec fn slides_view(v: Seq<(usize, String)>) -> Seq<(nat, Seq<char>)> {
    v.map_values(|p: (usize, String)| (p.0 as nat, p.1@))
}

fn insert_slide(sorted: &mut Vec<(usize, String)>, num: usize, text: String)
    ensures
        slides_view(final(sorted)@) == slides_view(old(sorted)@).insert(
            insert_position(slides_view(old(sorted)@), num as nat),
            (num as nat, text@),
        ),
{
    let ghost sv = slides_view(sorted@);
    let mut j: usize = 0;
    while j < sorted.len() && sorted[j].0 <= num
        invariant
            j <= sorted@.len(),
            sv == slides_view(sorted@),
            forall|i: int| 0 <= i < j ==> #[trigger] sv[i].0 <= num,
        decreases sorted@.len() - j,
    {
        j += 1;
    }
    proof {
        lemma_insert_position(sv, num as nat, j as int);
    }
    let ghost tv = text@;
    sorted.insert(j, (num, text));
    assert(slides_view(sorted@) =~= sv.insert(j as int, (num as nat, tv)));
}

fn pptx_text(data: &[u8]) -> (r: Result<String, ImportError>)
    ensures
        match pptx_content(data@) {
            Ok(t) => r matches Ok(x) && x@ == t,
            Err(ImportErrorV::Parse(m)) => r matches Err(ImportError::Parse(e)) && e@ == m,
            Err(ImportErrorV::Io(m)) => r matches Err(ImportError::Io(e)) && e@ == m,
        },
{
    let n = match zip_len(data) {
        Err(e) => return Err(ImportError::Parse(concat("not a valid ZIP/PPTX: ", e.as_str()))),
        Ok(n) => n,
    };
    let mut sorted: Vec<(usize, String)> = Vec::new();
    let ghost mut acc: Seq<(nat, Seq<char>)> = Seq::empty();
    let mut i: usize = 0;
    while i < n
        invariant
            i <= n,
            zip_entry_count(data@) == Ok::<nat, Seq<char>>(n as nat),
            slides_upto(data@, i as nat) == Ok::<Seq<(nat, Seq<char>)>, ImportErrorV>(acc),
            slides_view(sorted@) == sort_slides(acc),
        decreases n - i,
    {
        let name = match zip_name_at(data, i) {
            Err(m) => {
                proof {
                    lemma_slides_error_stays(data@, (i + 1) as nat, n as nat);
                }
                return Err(ImportError::Parse(m));
            },
            Ok(x) => x,
        };
        if str_starts_with(name.as_str(), "ppt/slides/slide") && str_ends_with(name.as_str(), ".xml") {
            let content = match zip_read_at(data, i) {
                Err(m) => {
                    proof {
                        lemma_slides_error_stays(data@, (i + 1) as nat, n as nat);
                    }
                    return Err(ImportError::Io(m));
                },
                Ok(b) => b,
            };
            let text = match extract_text_from_slide(content.as_slice()) {
                Err(m) => {
                    proof {
                        lemma_slides_error_stays(data@, (i + 1) as nat, n as nat);
                    }
                    return Err(ImportError::Parse(m));
                },
                Ok(t) => t,
            };
            let num = slide_num(name.as_str());
            let ghost entry = (num as nat, text@);
            proof {
                assert(acc.push(entry).drop_last() =~= acc);
            }
            insert_slide(&mut sorted, num, text);
            proof {
                acc = acc.push(entry);
            }
        }
        i += 1;
    }
    let ghost ordered = sort_slides(acc);
    let mut full = String::new();
    let mut k: usize = 0;
    assert(ordered.take(0) =~= Seq::<(nat, Seq<char>)>::empty());
    while k < sorted.len()
        invariant
            k <= sorted@.len(),
            ordered == slides_view(sorted@),
            full@ == slides_text(ordered.take(k as int)),
        decreases sorted@.len() - k,
    {
        proof {
            assert(ordered.take(k + 1).drop_last() =~= ordered.take(k as int));
            assert(ordered.take(k + 1).last() == ordered[k as int]);
        }
        append_str(&mut full, "--- Slide ");
        let d = decimal_string(sorted[k].0);
        append_str(&mut full, d.as_str());
        append_str(&mut full, " ---\n");
        append_str(&mut full, sorted[k].1.as_str());
        proof {
            reveal_strlit("--- Slide ");
            reveal_strlit(" ---\n");
        }
        k += 1;
    }
    assert(ordered.take(sorted@.len() as int) =~= ordered);
    Ok(full)
}

impl PptxImporter {
    /// The article of a presentation read from `source_path`: the text of
    /// its slides in slide order, each under a `--- Slide N ---` line.
    pub fn import_at(&self, data: &[u8], source_path: &str, imported_at: &str) -> (r: Result<ImportResult, ImportError>)
        ensures
            document_outcome(r, pptx_import(data@, source_path@, imported_at@)),
    {
        match pptx_text(data) {
            Err(e) => Err(e),
            Ok(text) => Ok(make_article(source_path, text, "pptx", imported_at)),
        }
    }

    /// The article of a presentation, stamped with the current time.
    pub fn import(&self, data: &[u8], source_path: &str) -> (r: Result<ImportResult, ImportError>)
        ensures
            exists|t: Seq<char>| #[trigger] document_outcome(r, pptx_import(data@, source_path@, t)),
    {
        let now = now_rfc3339();
        self.import_at(data, source_path, now.as_str())
    }
}

} // verus!
