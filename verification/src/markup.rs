//! Removing markup from HTML text: what lies between `<` and `>` goes,
//! and the words that remain are joined by single spaces.

use vstd::prelude::*;
use crate::text::{collapse_whitespace, collapse_ws, string_from, to_chars};

verus! {

/// One step of scanning HTML left to right: `<` opens a tag, a `>` inside
/// a tag closes it and leaves a space, and outside a tag `amp` (when set)
/// turns `&` into a space while every other character is kept.
pub open spec fn tag_step(t: Seq<char>, in_tag: bool, c: char, amp: bool) -> (Seq<char>, bool) {
    if c == '<' {
        (t, true)
    } else if c == '>' && in_tag {
        (t.push(' '), false)
    } else if amp && c == '&' && !in_tag {
        (t.push(' '), false)
    } else if !in_tag {
        (t.push(c), false)
    } else {
        (t, true)
    }
}

/// The text of `s` outside tags, scanned left to right with `tag_step`.
pub open spec fn strip_scan(s: Seq<char>, amp: bool) -> (Seq<char>, bool)
    decreases s.len(),
{
    if s.len() == 0 {
        (Seq::empty(), false)
    } else {
        let (t, in_tag) = strip_scan(s.drop_last(), amp);
        tag_step(t, in_tag, s.last(), amp)
    }
}

/// The words of `html` outside its tags, joined by single spaces.
pub open spec fn plain_text(html: Seq<char>) -> Seq<char> {
    collapse_ws(strip_scan(html, false).0)
}

/// Like `plain_text`, but every `&` outside a tag also separates words.
pub open spec fn plain_text_amp(html: Seq<char>) -> Seq<char> {
    collapse_ws(strip_scan(html, true).0)
}

/// The characters of `html` outside tags (see `strip_scan`).
pub fn strip_tags_chars(html: &str, amp: bool) -> (out: Vec<char>)
    ensures
        out@ == strip_scan(html@, amp).0,
{
    let v = to_chars(html);
    let mut out: Vec<char> = Vec::new();
    let mut in_tag = false;
    let mut i: usize = 0;
    while i < v.len()
        invariant
            i <= v.len(),
            (out@, in_tag) == strip_scan(v@.take(i as int), amp),
        decreases v.len() - i,
    {
        let c = v[i];
        proof {
            assert(v@.take(i + 1).drop_last() =~= v@.take(i as int));
            assert(v@.take(i + 1).last() == c);
        }
        if c == '<' {
            in_tag = true;
        } else if c == '>' && in_tag {
            in_tag = false;
            out.push(' ');
        } else if amp && c == '&' && !in_tag {
            out.push(' ');
        } else if !in_tag {
            out.push(c);
        }
        i += 1;
    }
    assert(v@.take(v.len() as int) =~= v@);
    out
}

/// The words of `html` outside its tags, joined by single spaces.
pub fn strip_markup(html: &str) -> (r: String)
    ensures
        r@ == plain_text(html@),
{
    let t = strip_tags_chars(html, false);
    string_from(&collapse_whitespace(&t))
}

/// The words of `html` outside its tags and between its `&`s, joined by single spaces.
pub fn strip_markup_amp(html: &str) -> (r: String)
    ensures
        r@ == plain_text_amp(html@),
{
    let t = strip_tags_chars(html, true);
    string_from(&collapse_whitespace(&t))
}

} // verus!
