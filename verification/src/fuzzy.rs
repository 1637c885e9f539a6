//! Title normalization and word overlap, used to recognise the same
//! entity under different spellings of its title or text.

use vstd::prelude::*;
use crate::text::{is_whitespace, is_ws, lower, same_text, string_of, to_chars, trim, trim_bounds, trim_end, trim_start};

verus! {

/// What `char::is_alphanumeric` answers for `c` (Unicode `Alphabetic` or `Numeric`).
pub uninterp spec fn alphanumeric(c: char) -> bool;

/// `char::is_alphanumeric`. Claimed: the result is the named property of
/// `c`, and for ASCII characters it holds exactly of digits and letters.
#[verifier::external_body]
fn is_alphanumeric(c: char) -> (b: bool)
    ensures
        b == alphanumeric(c),
        (c as u32) < 128 ==> (b <==> ('0' <= c <= '9' || 'a' <= c <= 'z' || 'A' <= c <= 'Z')),
{
    c.is_alphanumeric()
}

/// What `char::to_lowercase` yields for `c`: its lower-case mapping.
pub uninterp spec fn char_lowercase(c: char) -> Seq<char>;

/// `char::to_lowercase`, collected. Claimed: the result is the named
/// mapping of `c`; it is one or more characters (as the documentation of
/// `to_lowercase` says); and for an ASCII character it is the single
/// character that ASCII lower-casing gives.
#[verifier::external_body]
fn lowercase_of(c: char) -> (r: Vec<char>)
    ensures
        r@ == char_lowercase(c),
        r@.len() >= 1,
        (c as u32) < 128 ==> r@ == seq![lower(c)],
{
    c.to_lowercase().collect()
}

/// Scanning a title left to right: letters and digits are kept, each
/// replaced by its lower-case mapping, and each run of other characters
/// after the first kept one becomes a single space. The flag records that
/// the last output was such a space.
pub open spec fn normalize_scan(s: Seq<char>) -> (Seq<char>, bool)
    decreases s.len(),
{
    if s.len() == 0 {
        (Seq::empty(), false)
    } else {
        let (r, prev_space) = normalize_scan(s.drop_last());
        let c = s.last();
        if alphanumeric(c) {
            (r + char_lowercase(c), false)
        } else if !prev_space && r.len() > 0 {
            (r.push(' '), true)
        } else {
            (r, prev_space)
        }
    }
}

/// The normalized form of a title: lower-cased letters and digits, with
/// punctuation and whitespace collapsed to single inner spaces.
pub open spec fn normalized_title(s: Seq<char>) -> Seq<char> {
    trim(normalize_scan(s).0)
}

/// Whether `x` is a character of the lower-case mapping of a letter or digit.
pub open spec fn lowered_alphanumeric(x: char) -> bool {
    exists|c: char, j: int| alphanumeric(c) && 0 <= j < char_lowercase(c).len() && #[trigger] char_lowercase(c)[j] == x
}

/// Each character of `r` is a space or comes from lower-casing a letter or digit.
pub open spec fn title_chars(r: Seq<char>) -> bool {
    forall|i: int| 0 <= i < r.len() ==> #[trigger] r[i] == ' ' || lowered_alphanumeric(r[i])
}

/// `r` neither starts nor ends with a space.
pub open spec fn title_ends(r: Seq<char>) -> bool {
    r.len() > 0 ==> r[0] != ' ' && r.last() != ' '
}

/// No two spaces of `r` are adjacent.
pub open spec fn title_spacing(r: Seq<char>) -> bool {
    forall|i: int, j: int| 0 <= i && j == i + 1 && j < r.len() ==> !(#[trigger] r[i] == ' ' && #[trigger] r[j] == ' ')
}

/// Whether `r` has the shape of a normalized title: each character is a
/// space or a lower-cased letter or digit, it neither starts nor ends with
/// a space, and no two spaces are adjacent.
pub open spec fn title_shape(r: Seq<char>) -> bool {
    title_chars(r) && title_ends(r) && title_spacing(r)
}

/// Whether the lower-case mapping of each letter or digit of `s` is one or
/// more characters, none of them a space.
pub open spec fn lowering_spaceless(s: Seq<char>) -> bool {
    forall|k: int| 0 <= k < s.len() && alphanumeric(#[trigger] s[k]) ==> {
        &&& char_lowercase(s[k]).len() >= 1
        &&& forall|j: int| 0 <= j < char_lowercase(s[k]).len() ==> char_lowercase(s[k])[j] != ' '
    }
}

/// Whether every character of `s` is ASCII.
pub open spec fn ascii_text(s: Seq<char>) -> bool {
    forall|k: int| 0 <= k < s.len() ==> (#[trigger] s[k] as u32) < 128
}

proof fn lemma_lower_not_space(c: char)
    ensures
        lower(c) == ' ' ==> c == ' ',
{
    if 'A' <= c <= 'Z' {
        let x = (c as u32) + 32;
        assert(97 <= x <= 122);
        assert((x as char) as u32 == x);
    }
}

proof fn lemma_scan_chars(s: Seq<char>)
    ensures
        title_chars(normalize_scan(s).0),
    decreases s.len(),
{
    if s.len() > 0 {
        let t = s.drop_last();
        lemma_scan_chars(t);
        let (r, f) = normalize_scan(t);
        let c = s.last();
        if alphanumeric(c) {
            let l = char_lowercase(c);
            let q = r + l;
            assert forall|i: int| 0 <= i < q.len() implies #[trigger] q[i] == ' ' || lowered_alphanumeric(q[i]) by {
                if i >= r.len() {
                    assert(l[i - r.len()] == q[i]);
                } else {
                    assert(q[i] == r[i]);
                }
            }
        } else if !f && r.len() > 0 {
            let q = r.push(' ');
            assert forall|i: int| 0 <= i < q.len() implies #[trigger] q[i] == ' ' || lowered_alphanumeric(q[i]) by {
                if i < r.len() {
                    assert(q[i] == r[i]);
                }
            }
        }
    }
}

proof fn lemma_scan_spacing(s: Seq<char>)
    requires
        lowering_spaceless(s),
    ensures
        ({
            let (r, f) = normalize_scan(s);
            &&& title_spacing(r)
            &&& f <==> (r.len() > 0 && r.last() == ' ')
        }),
    decreases s.len(),
{
    if s.len() > 0 {
        let t = s.drop_last();
        assert forall|k: int| 0 <= k < t.len() && alphanumeric(#[trigger] t[k]) implies {
            &&& char_lowercase(t[k]).len() >= 1
            &&& forall|j: int| 0 <= j < char_lowercase(t[k]).len() ==> char_lowercase(t[k])[j] != ' '
        } by {
            assert(t[k] == s[k]);
        }
        lemma_scan_spacing(t);
        let (r, f) = normalize_scan(t);
        let c = s.last();
        assert(c == s[s.len() - 1]);
        if alphanumeric(c) {
            let l = char_lowercase(c);
            let q = r + l;
            assert forall|i: int, j: int| 0 <= i && j == i + 1 && j < q.len() implies !(#[trigger] q[i] == ' '
                && #[trigger] q[j] == ' ') by {
                if i >= r.len() {
                    assert(q[j] == l[j - r.len()]);
                } else if j >= r.len() {
                    assert(q[j] == l[j - r.len()]);
                } else {
                    assert(q[i] == r[i] && q[j] == r[j]);
                }
            }
            assert(q.last() == l[l.len() - 1]);
        } else if !f && r.len() > 0 {
            let q = r.push(' ');
            assert forall|i: int, j: int| 0 <= i && j == i + 1 && j < q.len() implies !(#[trigger] q[i] == ' '
                && #[trigger] q[j] == ' ') by {
                if j < r.len() {
                    assert(q[i] == r[i] && q[j] == r[j]);
                } else {
                    assert(q[i] == r[r.len() - 1]);
                }
            }
        }
    }
}

proof fn lemma_trim_start_at(s: Seq<char>) -> (a: int)
    ensures
        0 <= a <= s.len(),
        trim_start(s) == s.skip(a),
        a < s.len() ==> !is_ws(s[a]),
    decreases s.len(),
{
    if s.len() > 0 && is_ws(s[0]) {
        let a = lemma_trim_start_at(s.drop_first());
        assert(s.drop_first().skip(a) =~= s.skip(a + 1));
        a + 1
    } else {
        assert(s.skip(0) =~= s);
        0
    }
}

proof fn lemma_trim_end_at(s: Seq<char>) -> (b: int)
    ensures
        0 <= b <= s.len(),
        trim_end(s) == s.take(b),
        b > 0 ==> !is_ws(s[b - 1]),
    decreases s.len(),
{
    if s.len() > 0 && is_ws(s.last()) {
        let b = lemma_trim_end_at(s.drop_last());
        assert(s.drop_last().take(b) =~= s.take(b));
        b
    } else {
        assert(s.take(s.len() as int) =~= s);
        s.len() as int
    }
}

proof fn lemma_normalized_shape(s: Seq<char>)
    ensures
        title_chars(normalized_title(s)),
        title_ends(normalized_title(s)),
        lowering_spaceless(s) ==> title_spacing(normalized_title(s)),
{
    lemma_scan_chars(s);
    if lowering_spaceless(s) {
        lemma_scan_spacing(s);
    }
    let r0 = normalize_scan(s).0;
    let a = lemma_trim_start_at(r0);
    let t = trim_start(r0);
    let b = lemma_trim_end_at(t);
    let r = normalized_title(s);
    assert(r == t.take(b));
    assert forall|i: int| 0 <= i < r.len() implies #[trigger] r[i] == r0[a + i] by {
        assert(t[i] == r0[a + i]);
    }
    assert forall|i: int| 0 <= i < r.len() implies #[trigger] r[i] == ' ' || lowered_alphanumeric(r[i]) by {
        assert(r[i] == r0[a + i]);
    }
    if lowering_spaceless(s) {
        assert forall|i: int, j: int| 0 <= i && j == i + 1 && j < r.len() implies !(#[trigger] r[i] == ' '
            && #[trigger] r[j] == ' ') by {
            assert(r[i] == r0[a + i]);
            assert(r[j] == r0[a + j]);
        }
    }
    if r.len() > 0 {
        assert(r[0] == t[0]);
        assert(r[r.len() - 1] == t[b - 1]);
    }
}

/// Normalize a title for comparison: lowercase, collapse whitespace, strip
/// punctuation. Each letter or digit is replaced by its lower-case mapping
/// (`char::to_lowercase`). The result starts and ends with no space and is
/// made of spaces and lower-cased letters and digits; its spaces are single
/// wherever no lower-case mapping of a letter of the title holds a space
/// (so always for an ASCII title). Of the ASCII characters of the title
/// exactly the digits and letters count as letters or digits, and they are
/// lower-cased as ASCII.
pub fn normalize_title(title: &str) -> (r: String)
    ensures
        r@ == normalized_title(title@),
        title_chars(r@),
        title_ends(r@),
        lowering_spaceless(title@) ==> title_spacing(r@),
        ascii_text(title@) ==> lowering_spaceless(title@),
        forall|k: int|
            0 <= k < title@.len() && (#[trigger] title@[k] as u32) < 128 ==> (alphanumeric(title@[k])
                <==> ('0' <= title@[k] <= '9' || 'a' <= title@[k] <= 'z' || 'A' <= title@[k] <= 'Z')),
        forall|k: int|
            0 <= k < title@.len() && (#[trigger] title@[k] as u32) < 128 && alphanumeric(title@[k])
                ==> char_lowercase(title@[k]) == seq![lower(title@[k])],
{
    let v = to_chars(title);
    let mut out: Vec<char> = Vec::new();
    let mut prev_space = false;
    let mut i: usize = 0;
    while i < v.len()
        invariant
            i <= v.len(),
            v@ == title@,
            (out@, prev_space) == normalize_scan(v@.take(i as int)),
            forall|k: int|
                0 <= k < i && (#[trigger] v@[k] as u32) < 128 ==> (alphanumeric(v@[k]) <==> ('0' <= v@[k]
                    <= '9' || 'a' <= v@[k] <= 'z' || 'A' <= v@[k] <= 'Z')),
            forall|k: int|
                0 <= k < i && (#[trigger] v@[k] as u32) < 128 && alphanumeric(v@[k]) ==> char_lowercase(v@[k])
                    == seq![lower(v@[k])],
        decreases v.len() - i,
    {
        let c = v[i];
        proof {
            assert(v@.take(i + 1).drop_last() =~= v@.take(i as int));
            assert(v@.take(i + 1).last() == c);
        }
        if is_alphanumeric(c) {
            let l = lowercase_of(c);
            let ghost before = out@;
            let mut j: usize = 0;
            while j < l.len()
                invariant
                    j <= l@.len(),
                    out@ == before + l@.take(j as int),
                decreases l@.len() - j,
            {
                out.push(l[j]);
                assert(l@.take(j + 1) =~= l@.take(j as int).push(l@[j as int]));
                j += 1;
            }
            assert(l@.take(l@.len() as int) =~= l@);
            prev_space = false;
        } else if !prev_space && out.len() > 0 {
            out.push(' ');
            prev_space = true;
        }
        i += 1;
    }
    assert(v@.take(v.len() as int) =~= v@);
    proof {
        lemma_normalized_shape(v@);
        if ascii_text(v@) {
            assert forall|k: int| 0 <= k < v@.len() && alphanumeric(#[trigger] v@[k]) implies {
                &&& char_lowercase(v@[k]).len() >= 1
                &&& forall|j: int| 0 <= j < char_lowercase(v@[k]).len() ==> char_lowercase(v@[k])[j] != ' '
            } by {
                assert((v@[k] as u32) < 128);
                lemma_lower_not_space(v@[k]);
                assert(v@[k] != ' ');
            }
        }
    }
    let (a, b) = trim_bounds(&out, 0, out.len());
    assert(out@.subrange(0, out.len() as int) =~= out@);
    string_of(&out, a, b)
}

/// Whether two titles are the same once normalized; this is the
/// normalized-match strategy of entity resolution.
pub fn titles_match_normalized(a: &str, b: &str) -> (r: bool)
    ensures
        r == (normalized_title(a@) == normalized_title(b@)),
{
    let na = normalize_title(a);
    let nb = normalize_title(b);
    na == nb
}

/// Scanning a text left to right: its words so far (maximal runs of
/// non-whitespace characters, as `str::split_whitespace` gives them), and
/// whether the scan is inside a word.
pub open spec fn word_scan(s: Seq<char>) -> (Seq<Seq<char>>, bool)
    decreases s.len(),
{
    if s.len() == 0 {
        (Seq::empty(), false)
    } else {
        let (w, inside) = word_scan(s.drop_last());
        let c = s.last();
        if is_ws(c) {
            (w, false)
        } else if inside {
            (w.drop_last().push(w.last().push(c)), true)
        } else {
            (w.push(seq![c]), true)
        }
    }
}

/// The words of a text.
pub open spec fn words(s: Seq<char>) -> Seq<Seq<char>> {
    word_scan(s).0
}

proof fn lemma_inside_has_word(s: Seq<char>)
    ensures
        word_scan(s).1 ==> word_scan(s).0.len() > 0,
    decreases s.len(),
{
    if s.len() > 0 {
        lemma_inside_has_word(s.drop_last());
    }
}

/// A text with no whitespace is one word: itself. So a character that is
/// not whitespace (a `.`, a `,`) never ends a word.
pub proof fn law_unbroken_text_is_one_word(s: Seq<char>)
    requires
        s.len() > 0,
        forall|i: int| 0 <= i < s.len() ==> !is_ws(#[trigger] s[i]),
    ensures
        words(s) == seq![s],
        word_scan(s).1,
    decreases s.len(),
{
    let t = s.drop_last();
    if t.len() == 0 {
        assert(word_scan(t).0 =~= Seq::<Seq<char>>::empty());
        assert(seq![s.last()] =~= s);
    } else {
        assert forall|i: int| 0 <= i < t.len() implies !is_ws(#[trigger] t[i]) by {
            assert(t[i] == s[i]);
        }
        law_unbroken_text_is_one_word(t);
        assert(!is_ws(s[s.len() - 1]));
        assert(t.push(s.last()) =~= s);
        assert(seq![t].drop_last().push(seq![t].last().push(s.last())) =~= seq![s]);
    }
}

proof fn lemma_scan_after_break(x: Seq<char>, b: Seq<char>)
    requires
        !word_scan(x).1,
    ensures
        word_scan(x + b) == (word_scan(x).0 + word_scan(b).0, word_scan(b).1),
    decreases b.len(),
{
    if b.len() == 0 {
        assert(x + b =~= x);
        assert(word_scan(x).0 + word_scan(b).0 =~= word_scan(x).0);
    } else {
        let b0 = b.drop_last();
        lemma_scan_after_break(x, b0);
        assert((x + b).drop_last() =~= x + b0);
        assert((x + b).last() == b.last());
        let w = word_scan(x).0;
        let v = word_scan(b0).0;
        lemma_inside_has_word(b0);
        if !is_ws(b.last()) && word_scan(b0).1 {
            assert((w + v).drop_last() =~= w + v.drop_last());
            assert((w + v).last() == v.last());
            assert((w + v).drop_last().push((w + v).last().push(b.last())) =~= w + v.drop_last().push(
                v.last().push(b.last()),
            ));
        } else if !is_ws(b.last()) {
            assert((w + v).push(seq![b.last()]) =~= w + v.push(seq![b.last()]));
        }
    }
}

/// A whitespace character separates words: the words of `a`, a whitespace
/// character, then `b` are the words of `a` followed by the words of `b`;
/// and an empty text has no words.
pub proof fn law_whitespace_separates_words(a: Seq<char>, c: char, b: Seq<char>)
    requires
        is_ws(c),
    ensures
        words(a + seq![c] + b) == words(a) + words(b),
        words(Seq::empty()) == Seq::<Seq<char>>::empty(),
{
    let x = a.push(c);
    assert(x.drop_last() =~= a);
    assert(!word_scan(x).1);
    assert(word_scan(x).0 == words(a));
    lemma_scan_after_break(x, b);
    assert(a + seq![c] + b =~= x + b);
}

/// The mathematical value of a list of strings.
pub open spec fn texts(v: Seq<String>) -> Seq<Seq<char>> {
    v.map_values(|x: String| x@)
}

/// The words of `text` (see `words`).
pub fn split_words(text: &str) -> (r: Vec<String>)
    ensures
        texts(r@) == words(text@),
{
    let v = to_chars(text);
    let mut done: Vec<String> = Vec::new();
    let mut cur: Vec<char> = Vec::new();
    let mut inside = false;
    let mut i: usize = 0;
    while i < v.len()
        invariant
            i <= v@.len(),
            word_scan(v@.take(i as int)) == (if inside { texts(done@).push(cur@) } else { texts(done@) }, inside),
        decreases v@.len() - i,
    {
        let c = v[i];
        proof {
            assert(v@.take(i + 1).drop_last() =~= v@.take(i as int));
            assert(v@.take(i + 1).last() == c);
            lemma_inside_has_word(v@.take(i as int));
        }
        let ghost before = texts(done@);
        if is_whitespace(c) {
            if inside {
                let w = string_of(&cur, 0, cur.len());
                assert(cur@.subrange(0, cur@.len() as int) =~= cur@);
                done.push(w);
                assert(texts(done@) =~= before.push(cur@));
                cur = Vec::new();
                inside = false;
            }
        } else if inside {
            let ghost oc = cur@;
            cur.push(c);
            assert(before.push(cur@) =~= before.push(oc).drop_last().push(before.push(oc).last().push(c)));
        } else {
            cur = Vec::new();
            cur.push(c);
            assert(cur@ =~= seq![c]);
            inside = true;
        }
        i += 1;
    }
    assert(v@.take(v@.len() as int) =~= v@);
    if inside {
        let ghost before = texts(done@);
        let w = string_of(&cur, 0, cur.len());
        assert(cur@.subrange(0, cur@.len() as int) =~= cur@);
        done.push(w);
        assert(texts(done@) =~= before.push(cur@));
    }
    done
}

fn contains_text(v: &Vec<String>, w: &str) -> (b: bool)
    ensures
        b == texts(v@).contains(w@),
{
    let mut j: usize = 0;
    while j < v.len()
        invariant
            j <= v@.len(),
            forall|k: int| 0 <= k < j ==> texts(v@)[k] != w@,
        decreases v@.len() - j,
    {
        if same_text(v[j].as_str(), w) {
            assert(texts(v@)[j as int] == w@);
            return true;
        }
        j += 1;
    }
    false
}

/// The distinct words of a list, each once, in order of first appearance.
fn distinct_words(ws: &Vec<String>) -> (r: Vec<String>)
    ensures
        texts(r@).no_duplicates(),
        texts(r@).to_set() == texts(ws@).to_set(),
{
    let mut r: Vec<String> = Vec::new();
    let mut i: usize = 0;
    while i < ws.len()
        invariant
            i <= ws@.len(),
            texts(r@).no_duplicates(),
            texts(r@).to_set() == texts(ws@).take(i as int).to_set(),
        decreases ws@.len() - i,
    {
        let ghost before = texts(r@);
        let ghost w = ws@[i as int]@;
        assert(texts(ws@).take(i + 1) =~= texts(ws@).take(i as int).push(w));
        proof {
            texts(ws@).take(i as int).lemma_push_to_set_commute(w);
        }
        if !contains_text(&r, ws[i].as_str()) {
            r.push(ws[i].clone());
            assert(texts(r@) =~= before.push(w));
            proof {
                before.lemma_push_to_set_commute(w);
            }
        } else {
            assert(texts(ws@).take(i as int).to_set().insert(w) =~= texts(ws@).take(i as int).to_set());
        }
        i += 1;
    }
    assert(texts(ws@).take(ws@.len() as int) =~= texts(ws@));
    r
}

/// The number of distinct words that two texts share, and the number of
/// distinct words in either: the parts of their Jaccard similarity.
pub fn word_overlap(text_a: &str, text_b: &str) -> (r: (usize, u128))
    ensures
        r.0 == words(text_a@).to_set().intersect(words(text_b@).to_set()).len(),
        r.1 == words(text_a@).to_set().union(words(text_b@).to_set()).len(),
{
    let wa = split_words(text_a);
    let wb = split_words(text_b);
    let ua = distinct_words(&wa);
    let ub = distinct_words(&wb);
    let ghost sa = texts(ua@);
    let ghost bset = texts(ub@).to_set();
    let mut common: usize = 0;
    let mut i: usize = 0;
    assert(sa.take(0).to_set() =~= Set::<Seq<char>>::empty());
    assert(sa.take(0).to_set().intersect(bset) =~= Set::<Seq<char>>::empty());
    while i < ua.len()
        invariant
            i <= ua@.len(),
            sa == texts(ua@),
            sa.no_duplicates(),
            bset == texts(ub@).to_set(),
            common == sa.take(i as int).to_set().intersect(bset).len(),
            common <= i,
        decreases ua@.len() - i,
    {
        let ghost x = sa[i as int];
        let ghost prev = sa.take(i as int).to_set().intersect(bset);
        assert(sa.take(i + 1) =~= sa.take(i as int).push(x));
        proof {
            sa.take(i as int).lemma_push_to_set_commute(x);
            if sa.take(i as int).to_set().contains(x) {
                let k = choose|k: int| 0 <= k < i && sa.take(i as int)[k] == x;
                assert(sa[k] == sa[i as int]);
            }
            assert(!prev.contains(x));
        }
        if contains_text(&ub, ua[i].as_str()) {
            assert(sa.take(i + 1).to_set().intersect(bset) =~= prev.insert(x));
            common += 1;
        } else {
            assert(sa.take(i + 1).to_set().intersect(bset) =~= prev);
        }
        i += 1;
    }
    assert(sa.take(ua@.len() as int) =~= sa);
    proof {
        sa.unique_seq_to_set();
        texts(ub@).unique_seq_to_set();
        vstd::set_lib::lemma_set_intersect_union_lens(sa.to_set(), bset);
    }
    (common, ua.len() as u128 + ub.len() as u128 - common as u128)
}

} // verus!
