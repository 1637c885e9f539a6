//! File names, stems and extensions of `/`-separated paths, as
//! `std::path::Path` computes them for Unix paths.

use vstd::prelude::*;
use crate::text::{eq_ignore_case, lower, string_of, to_chars, to_lower};

verus! {

/// Index of the last occurrence of `c` in `s`, if any.
pub open spec fn rfind_char(s: Seq<char>, c: char) -> Option<int>
    decreases s.len(),
{
    if s.len() == 0 {
        None
    } else if s.last() == c {
        Some(s.len() - 1)
    } else {
        rfind_char(s.drop_last(), c)
    }
}

/// The final component of a path (`Path::file_name`): empty components and
/// `.` components are skipped, and a final `..` has no file name.
pub open spec fn file_name(p: Seq<char>) -> Option<Seq<char>>
    decreases p.len(),
{
    let k = rfind_char(p, '/');
    let seg = match k {
        Some(i) => p.skip(i + 1),
        None => p,
    };
    if seg.len() == 0 || seg == seq!['.'] {
        match k {
            Some(i) => if 0 <= i < p.len() {
                file_name(p.take(i))
            } else {
                None
            },
            None => None,
        }
    } else if seg == seq!['.', '.'] {
        None
    } else {
        Some(seg)
    }
}

/// The extension of a path (`Path::extension`): the part of the file name
/// after its last `.`, unless that `.` begins the name.
pub open spec fn extension(p: Seq<char>) -> Option<Seq<char>> {
    match file_name(p) {
        Some(f) => match rfind_char(f, '.') {
            Some(i) => if i > 0 {
                Some(f.skip(i + 1))
            } else {
                None
            },
            None => None,
        },
        None => None,
    }
}

/// The stem of a path (`Path::file_stem`): the file name without its extension.
pub open spec fn file_stem(p: Seq<char>) -> Option<Seq<char>> {
    match file_name(p) {
        Some(f) => match rfind_char(f, '.') {
            Some(i) => if i > 0 {
                Some(f.take(i))
            } else {
                Some(f)
            },
            None => Some(f),
        },
        None => None,
    }
}

/// Whether the path's extension equals `ext` up to ASCII case.
pub open spec fn has_ext(p: Seq<char>, ext: Seq<char>) -> bool {
    match extension(p) {
        Some(e) => eq_ignore_case(e, ext),
        None => false,
    }
}

/// The file stem, or `default` when the path has none.
pub open spec fn stem_or(p: Seq<char>, default: Seq<char>) -> Seq<char> {
    match file_stem(p) {
        Some(s) => s,
        None => default,
    }
}

/// `s` without trailing separators and trailing `.` components.
pub open spec fn trim_tail(s: Seq<char>) -> Seq<char>
    decreases s.len(),
{
    if s.len() > 0 && s.last() == '/' {
        trim_tail(s.drop_last())
    } else if s.len() >= 2 && s.last() == '.' && s[s.len() - 2] == '/' {
        trim_tail(s.drop_last())
    } else {
        s
    }
}

/// The parent of a path (`Path::parent`): the path without its final
/// component, trailing separators and `.` components left out; `/` for a
/// component just under the root, empty for a single relative component,
/// and none for the root or the empty path.
pub open spec fn path_parent(p: Seq<char>) -> Option<Seq<char>>
    decreases p.len(),
{
    match rfind_char(p, '/') {
        None => if p.len() == 0 {
            None
        } else {
            Some(Seq::empty())
        },
        Some(k) => if 0 <= k < p.len() {
            let seg = p.skip(k + 1);
            if seg.len() == 0 || seg == seq!['.'] {
                path_parent(p.take(k))
            } else {
                let d = trim_tail(p.take(k));
                if d.len() == 0 {
                    Some(seq!['/'])
                } else {
                    Some(d)
                }
            }
        } else {
            None
        },
    }
}

/// `base` joined with a relative or absolute path `rel` (`Path::join`).
pub open spec fn join_path(base: Seq<char>, rel: Seq<char>) -> Seq<char> {
    if rel.len() > 0 && rel[0] == '/' {
        rel
    } else if base.len() == 0 {
        rel
    } else if base.last() == '/' {
        base + rel
    } else {
        base + seq!['/'] + rel
    }
}

/// Last index of `c` within `v[0..end]`.
pub fn rfind_in(v: &Vec<char>, end: usize, c: char) -> (r: Option<usize>)
    requires
        end <= v.len(),
    ensures
        match r {
            Some(i) => rfind_char(v@.take(end as int), c) == Some(i as int) && i < end,
            None => rfind_char(v@.take(end as int), c) is None,
        },
{
    let mut j = end;
    while j > 0
        invariant
            j <= end <= v.len(),
            rfind_char(v@.take(end as int), c) == rfind_char(v@.take(j as int), c),
        decreases j,
    {
        assert(v@.take(j as int).drop_last() =~= v@.take(j - 1));
        if v[j - 1] == c {
            return Some(j - 1);
        }
        j -= 1;
    }
    None
}

fn is_dot(v: &Vec<char>, lo: usize, hi: usize) -> (b: bool)
    requires
        lo <= hi <= v.len(),
    ensures
        b == (v@.subrange(lo as int, hi as int) == seq!['.']),
{
    if hi - lo == 1 && v[lo] == '.' {
        assert(v@.subrange(lo as int, hi as int) =~= seq!['.']);
        true
    } else {
        assert(seq!['.'].len() == 1 && seq!['.'][0] == '.');
        if hi - lo == 1 {
            assert(v@.subrange(lo as int, hi as int)[0] == v@[lo as int]);
        }
        false
    }
}

fn is_dot_dot(v: &Vec<char>, lo: usize, hi: usize) -> (b: bool)
    requires
        lo <= hi <= v.len(),
    ensures
        b == (v@.subrange(lo as int, hi as int) == seq!['.', '.']),
{
    if hi - lo == 2 && v[lo] == '.' && v[lo + 1] == '.' {
        assert(v@.subrange(lo as int, hi as int) =~= seq!['.', '.']);
        true
    } else {
        assert(seq!['.', '.'].len() == 2 && seq!['.', '.'][0] == '.' && seq!['.', '.'][1] == '.');
        if hi - lo == 2 {
            assert(v@.subrange(lo as int, hi as int)[0] == v@[lo as int]);
            assert(v@.subrange(lo as int, hi as int)[1] == v@[lo + 1]);
        }
        false
    }
}

/// Bounds of the file name of the path `v`.
pub fn file_name_bounds(v: &Vec<char>) -> (r: Option<(usize, usize)>)
    ensures
        match r {
            Some((a, b)) => a <= b <= v.len() && file_name(v@) == Some(v@.subrange(
                a as int,
                b as int,
            )),
            None => file_name(v@) is None,
        },
{
    let mut end = v.len();
    assert(v@.take(end as int) =~= v@);
    loop
        invariant
            end <= v.len(),
            file_name(v@) == file_name(v@.take(end as int)),
        decreases end,
    {
        let ghost p = v@.take(end as int);
        let k = rfind_in(v, end, '/');
        let start = match k {
            Some(i) => i + 1,
            None => 0,
        };
        proof {
            match k {
                Some(i) => {
                    assert(p.skip(i + 1) =~= v@.subrange(start as int, end as int));
                },
                None => {
                    assert(p =~= v@.subrange(0, end as int));
                },
            }
        }
        if start == end || is_dot(v, start, end) {
            match k {
                Some(i) => {
                    assert(p.take(i as int) =~= v@.take(i as int));
                    end = i;
                },
                None => {
                    return None;
                },
            }
        } else if is_dot_dot(v, start, end) {
            return None;
        } else {
            return Some((start, end));
        }
    }
}

/// Last index of `c` within `v[a..b]`, as an index into `v`.
fn rfind_in_range(v: &Vec<char>, a: usize, b: usize, c: char) -> (r: Option<usize>)
    requires
        a <= b <= v.len(),
    ensures
        match r {
            Some(i) => a <= i < b && rfind_char(v@.subrange(a as int, b as int), c) == Some(
                i - a,
            ),
            None => rfind_char(v@.subrange(a as int, b as int), c) is None,
        },
{
    let mut j = b;
    while j > a
        invariant
            a <= j <= b <= v.len(),
            rfind_char(v@.subrange(a as int, b as int), c) == rfind_char(
                v@.subrange(a as int, j as int),
                c,
            ),
        decreases j,
    {
        let ghost t = v@.subrange(a as int, j as int);
        assert(t.drop_last() =~= v@.subrange(a as int, j - 1));
        assert(t.last() == v@[j - 1]);
        if v[j - 1] == c {
            return Some(j - 1);
        }
        j -= 1;
    }
    None
}

/// The extension of the path `v`, as a character range.
pub fn extension_bounds(v: &Vec<char>) -> (r: Option<(usize, usize)>)
    ensures
        match r {
            Some((a, b)) => a <= b <= v.len() && extension(v@) == Some(v@.subrange(
                a as int,
                b as int,
            )),
            None => extension(v@) is None,
        },
{
    match file_name_bounds(v) {
        None => None,
        Some((a, b)) => {
            let ghost f = v@.subrange(a as int, b as int);
            match rfind_in_range(v, a, b, '.') {
                Some(i) => {
                    if i > a {
                        assert(f.skip(i + 1 - a) =~= v@.subrange(i + 1, b as int));
                        Some((i + 1, b))
                    } else {
                        None
                    }
                },
                None => None,
            }
        },
    }
}

/// The stem of the path `v`, as a character range.
pub fn stem_bounds(v: &Vec<char>) -> (r: Option<(usize, usize)>)
    ensures
        match r {
            Some((a, b)) => a <= b <= v.len() && file_stem(v@) == Some(v@.subrange(
                a as int,
                b as int,
            )),
            None => file_stem(v@) is None,
        },
{
    match file_name_bounds(v) {
        None => None,
        Some((a, b)) => {
            let ghost f = v@.subrange(a as int, b as int);
            match rfind_in_range(v, a, b, '.') {
                Some(i) => {
                    if i > a {
                        assert(f.take(i - a) =~= v@.subrange(a as int, i as int));
                        Some((a, i))
                    } else {
                        Some((a, b))
                    }
                },
                None => Some((a, b)),
            }
        },
    }
}

/// Whether `v[lo..hi]` equals `pat` up to ASCII case.
pub fn range_eq_ignore_case(v: &Vec<char>, lo: usize, hi: usize, pat: &str) -> (b: bool)
    requires
        lo <= hi <= v.len(),
    ensures
        b == eq_ignore_case(v@.subrange(lo as int, hi as int), pat@),
{
    let p = to_chars(pat);
    if hi - lo != p.len() {
        return false;
    }
    let ghost s = v@.subrange(lo as int, hi as int);
    let mut i: usize = 0;
    while i < p.len()
        invariant
            hi - lo == p.len(),
            p@ == pat@,
            lo <= hi <= v.len(),
            s == v@.subrange(lo as int, hi as int),
            0 <= i <= p.len(),
            forall|j: int| 0 <= j < i ==> lower(#[trigger] s[j]) == lower(p@[j]),
        decreases p.len() - i,
    {
        if to_lower(v[lo + i]) != to_lower(p[i]) {
            assert(s[i as int] == v@[lo + i]);
            return false;
        }
        assert(s[i as int] == v@[lo + i]);
        i += 1;
    }
    true
}

/// Whether the path `path` has the extension `ext`, up to ASCII case.
pub fn path_has_ext(path: &str, ext: &str) -> (b: bool)
    ensures
        b == has_ext(path@, ext@),
{
    let v = to_chars(path);
    match extension_bounds(&v) {
        Some((a, b)) => range_eq_ignore_case(&v, a, b, ext),
        None => false,
    }
}

/// The file stem of `path`, or `default` when it has none.
pub fn file_stem_or(path: &str, default: &str) -> (r: String)
    ensures
        r@ == stem_or(path@, default@),
{
    let v = to_chars(path);
    match stem_bounds(&v) {
        Some((a, b)) => string_of(&v, a, b),
        None => default.to_string(),
    }
}

/// The end of `v[0..end]` with trailing separators and `.` components left out.
fn trim_tail_end(v: &Vec<char>, end: usize) -> (r: usize)
    requires
        end <= v.len(),
    ensures
        r <= end,
        trim_tail(v@.take(end as int)) == v@.take(r as int),
{
    let mut e = end;
    while e > 0 && (v[e - 1] == '/' || (e >= 2 && v[e - 1] == '.' && v[e - 2] == '/'))
        invariant
            e <= end <= v.len(),
            trim_tail(v@.take(end as int)) == trim_tail(v@.take(e as int)),
        decreases e,
    {
        assert(v@.take(e as int).drop_last() =~= v@.take(e - 1));
        e -= 1;
    }
    e
}

/// The parent of a path (`Path::parent`).
pub fn parent_of(path: &str) -> (r: Option<String>)
    ensures
        match r {
            Some(s) => path_parent(path@) == Some(s@),
            None => path_parent(path@) is None,
        },
{
    let v = to_chars(path);
    let mut end = v.len();
    assert(v@.take(end as int) =~= v@);
    loop
        invariant
            end <= v.len(),
            v@ == path@,
            path_parent(v@) == path_parent(v@.take(end as int)),
        decreases end,
    {
        let ghost p = v@.take(end as int);
        match rfind_in(&v, end, '/') {
            None => {
                if end == 0 {
                    return None;
                }
                return Some(String::new());
            },
            Some(k) => {
                assert(p.skip(k + 1) =~= v@.subrange(k + 1, end as int));
                assert(p.take(k as int) =~= v@.take(k as int));
                if k + 1 == end || is_dot(&v, k + 1, end) {
                    end = k;
                } else {
                    let d = trim_tail_end(&v, k);
                    if d == 0 {
                        let mut root = String::new();
                        root.push('/');
                        assert(root@ =~= seq!['/']);
                        return Some(root);
                    }
                    return Some(string_of(&v, 0, d));
                }
            },
        }
    }
}

/// `base` joined with `rel` (`Path::join`).
pub fn join(base: &str, rel: &str) -> (r: String)
    ensures
        r@ == join_path(base@, rel@),
{
    let b = to_chars(base);
    let t = to_chars(rel);
    if t.len() > 0 && t[0] == '/' {
        return rel.to_string();
    }
    if b.len() == 0 {
        return rel.to_string();
    }
    if b[b.len() - 1] == '/' {
        return crate::text::concat(base, rel);
    }
    let mut s = base.to_string();
    s.push('/');
    crate::text::append_str(&mut s, rel);
    s
}

/// Whether two strings are equal up to ASCII case (`str::eq_ignore_ascii_case`).
pub fn str_eq_ignore_case(a: &str, b: &str) -> (r: bool)
    ensures
        r == eq_ignore_case(a@, b@),
{
    let v = to_chars(a);
    assert(v@.subrange(0, v.len() as int) =~= v@);
    range_eq_ignore_case(&v, 0, v.len(), b)
}

} // verus!
