use vstd::prelude::*;

verus! {

/// `String::push` appends one character at the end of the string.
pub assume_specification[ String::push ](s: &mut String, ch: char)
    ensures
        final(s)@ == old(s)@.push(ch),
;

/// Unicode `White_Space` property, which `char::is_whitespace`, `str::trim`
/// and `str::split_whitespace` use.
pub open spec fn is_ws(c: char) -> bool {
    let x = c as u32;
    ||| 0x09 <= x <= 0x0D
    ||| x == 0x20
    ||| x == 0x85
    ||| x == 0xA0
    ||| x == 0x1680
    ||| 0x2000 <= x <= 0x200A
    ||| x == 0x2028
    ||| x == 0x2029
    ||| x == 0x202F
    ||| x == 0x205F
    ||| x == 0x3000
}

/// Whether a character is whitespace (`char::is_whitespace`).
pub fn is_whitespace(c: char) -> (b: bool)
    ensures
        b == is_ws(c),
{
    let x = c as u32;
    (0x09 <= x && x <= 0x0D) || x == 0x20 || x == 0x85 || x == 0xA0 || x == 0x1680 || (0x2000
        <= x && x <= 0x200A) || x == 0x2028 || x == 0x2029 || x == 0x202F || x == 0x205F || x
        == 0x3000
}

/// `s` with its leading whitespace removed.
pub open spec fn trim_start(s: Seq<char>) -> Seq<char>
    decreases s.len(),
{
    if s.len() > 0 && is_ws(s[0]) {
        trim_start(s.drop_first())
    } else {
        s
    }
}

/// `s` with its trailing whitespace removed.
pub open spec fn trim_end(s: Seq<char>) -> Seq<char>
    decreases s.len(),
{
    if s.len() > 0 && is_ws(s.last()) {
        trim_end(s.drop_last())
    } else {
        s
    }
}

/// `s` with leading and trailing whitespace removed (`str::trim`).
pub open spec fn trim(s: Seq<char>) -> Seq<char> {
    trim_end(trim_start(s))
}

/// ASCII lower-casing of one character (`char::to_ascii_lowercase`).
pub open spec fn lower(c: char) -> char {
    if 'A' <= c <= 'Z' {
        ((c as u32) + 32) as char
    } else {
        c
    }
}

/// Equality of two strings up to ASCII case (`str::eq_ignore_ascii_case`).
pub open spec fn eq_ignore_case(a: Seq<char>, b: Seq<char>) -> bool {
    &&& a.len() == b.len()
    &&& forall|i: int| 0 <= i < a.len() ==> lower(#[trigger] a[i]) == lower(b[i])
}

/// The words of `s` (its maximal runs of non-whitespace characters)
/// joined by single spaces, that is `s.split_whitespace().collect::<Vec<_>>().join(" ")`.
/// Written as a left-to-right scan: `pending` records a gap seen since the last word.
pub open spec fn collapse_scan(s: Seq<char>) -> (Seq<char>, bool)
    decreases s.len(),
{
    if s.len() == 0 {
        (Seq::empty(), false)
    } else {
        let (out, pending) = collapse_scan(s.drop_last());
        let c = s.last();
        if is_ws(c) {
            (out, out.len() > 0)
        } else if pending {
            (out.push(' ').push(c), false)
        } else {
            (out.push(c), false)
        }
    }
}

pub open spec fn collapse_ws(s: Seq<char>) -> Seq<char> {
    collapse_scan(s).0
}

/// The index of the first occurrence of `pat` in `s`, if any.
pub open spec fn find_sub(s: Seq<char>, pat: Seq<char>) -> Option<int>
    decreases s.len(),
{
    if s.len() < pat.len() {
        None
    } else if s.take(pat.len() as int) == pat {
        Some(0)
    } else if s.len() == 0 {
        None
    } else {
        match find_sub(s.drop_first(), pat) {
            Some(i) => Some(i + 1),
            None => None,
        }
    }
}

/// Whether `pat` occurs in `s` (`str::contains`).
pub open spec fn contains_sub(s: Seq<char>, pat: Seq<char>) -> bool {
    find_sub(s, pat) is Some
}

/// `s` split on every non-overlapping occurrence of a non-empty `pat`,
/// left to right (`str::split`).
pub open spec fn split_on(s: Seq<char>, pat: Seq<char>) -> Seq<Seq<char>>
    decreases s.len(),
{
    if pat.len() == 0 {
        seq![s]
    } else {
        match find_sub(s, pat) {
            Some(i) => if 0 <= i && i + pat.len() <= s.len() {
                seq![s.take(i)] + split_on(s.skip(i + pat.len()), pat)
            } else {
                seq![s]
            },
            None => seq![s],
        }
    }
}

/// Whether `s` begins with `pre`.
pub open spec fn starts_with(s: Seq<char>, pre: Seq<char>) -> bool {
    pre.len() <= s.len() && s.take(pre.len() as int) == pre
}

/// The index of the first occurrence of `c` in `s`, if any.
pub open spec fn find_char(s: Seq<char>, c: char) -> Option<int>
    decreases s.len(),
{
    if s.len() == 0 {
        None
    } else if s[0] == c {
        Some(0)
    } else {
        match find_char(s.drop_first(), c) {
            Some(i) => Some(i + 1),
            None => None,
        }
    }
}

/// The characters of a string slice, in order.
pub fn to_chars(s: &str) -> (out: Vec<char>)
    ensures
        out@ == s@,
{
    let mut out: Vec<char> = Vec::new();
    for c in it: s.chars()
        invariant
            out@ == it.seq().take(it.index() as int),
            it.seq() == s@,
    {
        out.push(c);
    }
    out
}

/// The string made of the characters `v[lo..hi]`.
pub fn string_of(v: &Vec<char>, lo: usize, hi: usize) -> (s: String)
    requires
        lo <= hi <= v.len(),
    ensures
        s@ == v@.subrange(lo as int, hi as int),
{
    let mut s = String::new();
    let mut i = lo;
    while i < hi
        invariant
            lo <= i <= hi <= v.len(),
            s@ == v@.subrange(lo as int, i as int),
        decreases hi - i,
    {
        s.push(v[i]);
        i += 1;
        assert(s@ =~= v@.subrange(lo as int, i as int));
    }
    s
}

/// The string made of all characters of `v`.
pub fn string_from(v: &Vec<char>) -> (s: String)
    ensures
        s@ == v@,
{
    let s = string_of(v, 0, v.len());
    assert(v@.subrange(0, v.len() as int) =~= v@);
    s
}

proof fn lemma_trim_start_skip(s: Seq<char>, i: int)
    requires
        0 <= i <= s.len(),
        forall|j: int| 0 <= j < i ==> is_ws(#[trigger] s[j]),
    ensures
        trim_start(s) == trim_start(s.skip(i)),
    decreases i,
{
    if i > 0 {
        assert(s.drop_first().skip(i - 1) =~= s.skip(i));
        lemma_trim_start_skip(s.drop_first(), i - 1);
    } else {
        assert(s.skip(0) =~= s);
    }
}

proof fn lemma_trim_end_take(s: Seq<char>, i: int)
    requires
        0 <= i <= s.len(),
        forall|j: int| i <= j < s.len() ==> is_ws(#[trigger] s[j]),
    ensures
        trim_end(s) == trim_end(s.take(i)),
    decreases s.len() - i,
{
    if i < s.len() {
        assert(s.drop_last().take(i) =~= s.take(i));
        lemma_trim_end_take(s.drop_last(), i);
    } else {
        assert(s.take(i) =~= s);
    }
}

/// Bounds of `v[lo..hi]` with surrounding whitespace removed.
pub fn trim_bounds(v: &Vec<char>, lo: usize, hi: usize) -> (r: (usize, usize))
    requires
        lo <= hi <= v.len(),
    ensures
        lo <= r.0 <= r.1 <= hi,
        v@.subrange(r.0 as int, r.1 as int) == trim(v@.subrange(lo as int, hi as int)),
{
    let ghost s = v@.subrange(lo as int, hi as int);
    let mut a = lo;
    while a < hi && is_whitespace(v[a])
        invariant
            lo <= a <= hi <= v.len(),
            forall|j: int| lo <= j < a ==> is_ws(#[trigger] v@[j]),
        decreases hi - a,
    {
        a += 1;
    }
    proof {
        assert forall|j: int| 0 <= j < a - lo implies is_ws(#[trigger] s[j]) by {
            assert(s[j] == v@[lo + j]);
        }
        lemma_trim_start_skip(s, a - lo);
        assert(s.skip(a - lo) =~= v@.subrange(a as int, hi as int));
        let t = v@.subrange(a as int, hi as int);
        if t.len() > 0 {
            assert(t[0] == v@[a as int]);
        }
        assert(trim_start(t) == t);
    }
    let mut b = hi;
    while b > a && is_whitespace(v[b - 1])
        invariant
            lo <= a <= b <= hi <= v.len(),
            forall|j: int| b <= j < hi ==> is_ws(#[trigger] v@[j]),
        decreases b - a,
    {
        b -= 1;
    }
    proof {
        let t = v@.subrange(a as int, hi as int);
        assert forall|j: int| b - a <= j < t.len() implies is_ws(#[trigger] t[j]) by {
            assert(t[j] == v@[a + j]);
        }
        lemma_trim_end_take(t, b - a);
        let u = t.take(b - a);
        assert(u =~= v@.subrange(a as int, b as int));
        if u.len() > 0 {
            assert(u.last() == v@[b - 1]);
        }
        assert(trim_end(u) == u);
    }
    (a, b)
}

/// `s.trim()` as a new string.
pub fn trim_string(s: &str) -> (r: String)
    ensures
        r@ == trim(s@),
{
    let v = to_chars(s);
    let (a, b) = trim_bounds(&v, 0, v.len());
    assert(v@.subrange(0, v.len() as int) =~= v@);
    string_of(&v, a, b)
}

/// The words of `v[lo..hi]` joined by single spaces.
pub fn collapse_whitespace(v: &Vec<char>) -> (out: Vec<char>)
    ensures
        out@ == collapse_ws(v@),
{
    let mut out: Vec<char> = Vec::new();
    let mut pending = false;
    let mut i: usize = 0;
    while i < v.len()
        invariant
            0 <= i <= v.len(),
            (out@, pending) == collapse_scan(v@.take(i as int)),
        decreases v.len() - i,
    {
        let c = v[i];
        proof {
            assert(v@.take(i + 1).drop_last() =~= v@.take(i as int));
            assert(v@.take(i + 1).last() == c);
        }
        if is_whitespace(c) {
            pending = out.len() > 0;
        } else {
            if pending {
                out.push(' ');
            }
            out.push(c);
            pending = false;
        }
        i += 1;
    }
    assert(v@.take(v.len() as int) =~= v@);
    out
}

/// ASCII lower-casing of one character.
pub fn to_lower(c: char) -> (r: char)
    ensures
        r == lower(c),
{
    if 'A' <= c && c <= 'Z' {
        let x: u8 = (c as u8) + 32;
        x as char
    } else {
        c
    }
}


/// First occurrence of a non-empty `p` within `v[lo..hi]`, relative to `lo`.
pub fn find_sub_in(v: &Vec<char>, lo: usize, hi: usize, p: &Vec<char>) -> (r: Option<usize>)
    requires
        lo <= hi <= v.len(),
        p.len() > 0,
    ensures
        match r {
            Some(i) => find_sub(v@.subrange(lo as int, hi as int), p@) == Some(i as int) && lo + i
                + p.len() <= hi,
            None => find_sub(v@.subrange(lo as int, hi as int), p@) is None,
        },
{
    let mut i = lo;
    while i < hi
        invariant
            lo <= i <= hi <= v.len(),
            p.len() > 0,
            find_sub(v@.subrange(lo as int, hi as int), p@) == match find_sub(
                v@.subrange(i as int, hi as int),
                p@,
            ) {
                Some(k) => Some(k + (i - lo)),
                None => None,
            },
        decreases hi - i,
    {
        let ghost t = v@.subrange(i as int, hi as int);
        if hi - i < p.len() {
            return None;
        }
        let mut j: usize = 0;
        let mut ok = true;
        while j < p.len()
            invariant
                lo <= i <= hi <= v.len(),
                i + p.len() <= hi,
                t == v@.subrange(i as int, hi as int),
                j <= p.len(),
                ok == (forall|m: int| 0 <= m < j ==> t[m] == p@[m]),
            decreases p.len() - j,
        {
            assert(t[j as int] == v@[i + j]);
            if v[i + j] != p[j] {
                ok = false;
            }
            j += 1;
        }
        if ok {
            assert(t.take(p.len() as int) =~= p@);
            return Some(i - lo);
        }
        proof {
            assert(t.take(p.len() as int) != p@) by {
                let m = choose|m: int| 0 <= m < p.len() && t[m] != p@[m];
                assert(t.take(p.len() as int)[m] == t[m]);
            }
            assert(t.drop_first() =~= v@.subrange(i + 1, hi as int));
        }
        i += 1;
    }
    proof {
        let t = v@.subrange(i as int, hi as int);
        assert(t.len() == 0);
    }
    None
}

/// The pieces of `v` between the occurrences of a non-empty `p`
/// (`str::split`), as ranges of `v`.
pub fn split_ranges(v: &Vec<char>, p: &Vec<char>) -> (r: Vec<(usize, usize)>)
    requires
        p.len() > 0,
    ensures
        forall|k: int| 0 <= k < r.len() ==> #[trigger] r@[k].0 <= r@[k].1 <= v.len(),
        r@.map_values(|x: (usize, usize)| v@.subrange(x.0 as int, x.1 as int)) == split_on(
            v@,
            p@,
        ),
{
    let mut r: Vec<(usize, usize)> = Vec::new();
    let mut pos: usize = 0;
    assert(v@.skip(0) =~= v@);
    loop
        invariant
            pos <= v.len(),
            p.len() > 0,
            forall|k: int| 0 <= k < r.len() ==> #[trigger] r@[k].0 <= r@[k].1 <= v.len(),
            split_on(v@, p@) == r@.map_values(
                |x: (usize, usize)| v@.subrange(x.0 as int, x.1 as int),
            ) + split_on(v@.skip(pos as int), p@),
        decreases v.len() - pos,
    {
        let ghost s = v@.skip(pos as int);
        let ghost before = r@.map_values(|x: (usize, usize)| v@.subrange(x.0 as int, x.1 as int));
        assert(s =~= v@.subrange(pos as int, v.len() as int));
        match find_sub_in(v, pos, v.len(), p) {
            Some(i) => {
                r.push((pos, pos + i));
                proof {
                    assert(s.take(i as int) =~= v@.subrange(pos as int, pos + i));
                    assert(s.skip(i + p.len()) =~= v@.skip(pos + i + p.len()));
                    assert(r@.map_values(|x: (usize, usize)| v@.subrange(x.0 as int, x.1 as int))
                        =~= before.push(v@.subrange(pos as int, pos + i)));
                    assert(split_on(s, p@) == seq![s.take(i as int)] + split_on(
                        s.skip(i + p.len()),
                        p@,
                    ));
                    assert(before + split_on(s, p@) =~= before.push(
                        v@.subrange(pos as int, pos + i),
                    ) + split_on(v@.skip(pos + i + p.len()), p@));
                }
                pos = pos + i + p.len();
            },
            None => {
                r.push((pos, v.len()));
                proof {
                    assert(split_on(s, p@) == seq![s]);
                    assert(r@.map_values(|x: (usize, usize)| v@.subrange(x.0 as int, x.1 as int))
                        =~= before.push(s));
                    assert(before + seq![s] =~= before.push(s));
                }
                return r;
            },
        }
    }
}

/// Whether a non-empty `p` occurs within `v[lo..hi]`.
pub fn range_contains(v: &Vec<char>, lo: usize, hi: usize, p: &Vec<char>) -> (b: bool)
    requires
        lo <= hi <= v.len(),
        p.len() > 0,
    ensures
        b == contains_sub(v@.subrange(lo as int, hi as int), p@),
{
    find_sub_in(v, lo, hi, p).is_some()
}

/// Whether two string slices hold the same characters.
pub fn same_text(a: &str, b: &str) -> (r: bool)
    ensures
        r == (a@ == b@),
{
    let x = to_chars(a);
    let y = to_chars(b);
    if x.len() != y.len() {
        return false;
    }
    let mut i: usize = 0;
    while i < x.len()
        invariant
            i <= x.len(),
            x.len() == y.len(),
            x@ == a@,
            y@ == b@,
            forall|j: int| 0 <= j < i ==> x@[j] == y@[j],
        decreases x.len() - i,
    {
        if x[i] != y[i] {
            assert(a@[i as int] != b@[i as int]);
            return false;
        }
        i += 1;
    }
    assert(x@ =~= y@);
    true
}

/// Append the characters of `t` to `s`.
pub fn append_str(s: &mut String, t: &str)
    ensures
        final(s)@ == old(s)@ + t@,
{
    let v = to_chars(t);
    let ghost start = s@;
    let mut i: usize = 0;
    while i < v.len()
        invariant
            i <= v.len(),
            s@ == start + v@.take(i as int),
        decreases v.len() - i,
    {
        s.push(v[i]);
        i += 1;
        assert(s@ =~= start + v@.take(i as int));
    }
    assert(v@.take(v.len() as int) =~= v@);
}

/// The concatenation of two string slices.
pub fn concat(a: &str, b: &str) -> (r: String)
    ensures
        r@ == a@ + b@,
{
    let mut r = String::new();
    append_str(&mut r, a);
    append_str(&mut r, b);
    assert(Seq::<char>::empty() + a@ + b@ =~= a@ + b@);
    r
}

/// Whether `needle` occurs in `hay` (`str::contains`); the empty string
/// occurs in every string.
pub fn str_contains(hay: &str, needle: &str) -> (r: bool)
    ensures
        r == contains_sub(hay@, needle@),
{
    let v = to_chars(hay);
    let p = to_chars(needle);
    if p.len() == 0 {
        assert(hay@.take(0) =~= needle@);
        return true;
    }
    assert(v@.subrange(0, v.len() as int) =~= v@);
    range_contains(&v, 0, v.len(), &p)
}

/// The pieces, trimmed, that are not empty after trimming, in order.
pub open spec fn trimmed_nonempty(pieces: Seq<Seq<char>>) -> Seq<Seq<char>>
    decreases pieces.len(),
{
    if pieces.len() == 0 {
        Seq::empty()
    } else {
        let prev = trimmed_nonempty(pieces.drop_last());
        let t = trim(pieces.last());
        if t.len() == 0 {
            prev
        } else {
            prev.push(t)
        }
    }
}

/// The pieces of `s` between occurrences of a non-empty `pat`, trimmed,
/// leaving out those that are empty after trimming.
pub fn split_trimmed(s: &str, pat: &str) -> (r: Vec<String>)
    requires
        pat@.len() > 0,
    ensures
        r@.map_values(|x: String| x@) == trimmed_nonempty(split_on(s@, pat@)),
{
    let v = to_chars(s);
    let p = to_chars(pat);
    let ranges = split_ranges(&v, &p);
    let ghost pieces = ranges@.map_values(|x: (usize, usize)| v@.subrange(x.0 as int, x.1 as int));
    let mut r: Vec<String> = Vec::new();
    let mut i: usize = 0;
    assert(pieces.take(0) =~= Seq::<Seq<char>>::empty());
    while i < ranges.len()
        invariant
            i <= ranges.len(),
            pieces == ranges@.map_values(|x: (usize, usize)| v@.subrange(x.0 as int, x.1 as int)),
            forall|k: int| 0 <= k < ranges.len() ==> #[trigger] ranges@[k].0 <= ranges@[k].1 <= v.len(),
            r@.map_values(|x: String| x@) == trimmed_nonempty(pieces.take(i as int)),
        decreases ranges.len() - i,
    {
        let (lo, hi) = ranges[i];
        let ghost before = r@.map_values(|x: String| x@);
        proof {
            assert(pieces.take(i + 1).drop_last() =~= pieces.take(i as int));
            assert(pieces.take(i + 1).last() == v@.subrange(lo as int, hi as int));
        }
        let (a, b) = trim_bounds(&v, lo, hi);
        if a < b {
            r.push(string_of(&v, a, b));
            assert(r@.map_values(|x: String| x@) =~= before.push(v@.subrange(a as int, b as int)));
        }
        i += 1;
    }
    assert(pieces.take(ranges.len() as int) =~= pieces);
    r
}

/// The decimal digits of `n`, most significant first, without leading zeros.
pub open spec fn decimal(n: nat) -> Seq<char>
    decreases n,
{
    if n < 10 {
        seq![digit_char(n)]
    } else {
        decimal(n / 10).push(digit_char(n % 10))
    }
}

/// The character of a decimal digit.
pub open spec fn digit_char(d: nat) -> char {
    if d == 0 { '0' }
    else if d == 1 { '1' }
    else if d == 2 { '2' }
    else if d == 3 { '3' }
    else if d == 4 { '4' }
    else if d == 5 { '5' }
    else if d == 6 { '6' }
    else if d == 7 { '7' }
    else if d == 8 { '8' }
    else { '9' }
}

fn digit(d: usize) -> (c: char)
    requires
        d < 10,
    ensures
        c == digit_char(d as nat),
{
    if d == 0 { '0' }
    else if d == 1 { '1' }
    else if d == 2 { '2' }
    else if d == 3 { '3' }
    else if d == 4 { '4' }
    else if d == 5 { '5' }
    else if d == 6 { '6' }
    else if d == 7 { '7' }
    else if d == 8 { '8' }
    else { '9' }
}

/// `n` written in decimal, as `to_string` writes it.
pub fn decimal_string(n: usize) -> (s: String)
    ensures
        s@ == decimal(n as nat),
    decreases n,
{
    if n < 10 {
        let mut s = String::new();
        s.push(digit(n));
        assert(s@ =~= seq![digit_char(n as nat)]);
        s
    } else {
        let mut s = decimal_string(n / 10);
        s.push(digit(n % 10));
        s
    }
}

/// `n` written in decimal, as `to_string` writes it.
pub fn decimal_u64(n: u64) -> (s: String)
    ensures
        s@ == decimal(n as nat),
    decreases n,
{
    if n < 10 {
        let mut s = String::new();
        s.push(digit(n as usize));
        assert(s@ =~= seq![digit_char(n as nat)]);
        s
    } else {
        let mut s = decimal_u64(n / 10);
        s.push(digit((n % 10) as usize));
        s
    }
}

} // verus!
