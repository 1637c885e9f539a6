//! Which ignore patterns apply to an import: those of the import's own
//! `.kosignore`, else its `.gitignore`, else a global `.kosignore`, else
//! the defaults.

use vstd::prelude::*;
use crate::text::{split_on, split_trimmed, trimmed_nonempty};

verus! {

/// The patterns ignored when no ignore file gives any.
pub open spec fn default_patterns() -> Seq<Seq<char>> {
    seq![
        ".git/"@,
        "node_modules/"@,
        "__pycache__/"@,
        ".pdm-build/"@,
        ".venv/"@,
        "venv/"@,
        "target/"@,
        "dist/"@,
        "build/"@,
        "*.pyc"@,
        ".DS_Store"@,
        "Thumbs.db"@,
    ]
}

/// The patterns ignored when no ignore file gives any.
pub fn default_ignore_patterns() -> (r: Vec<String>)
    ensures
        r@.map_values(|x: String| x@) == default_patterns(),
{
    let mut r: Vec<String> = Vec::new();
    r.push(".git/".to_string());
    r.push("node_modules/".to_string());
    r.push("__pycache__/".to_string());
    r.push(".pdm-build/".to_string());
    r.push(".venv/".to_string());
    r.push("venv/".to_string());
    r.push("target/".to_string());
    r.push("dist/".to_string());
    r.push("build/".to_string());
    r.push("*.pyc".to_string());
    r.push(".DS_Store".to_string());
    r.push("Thumbs.db".to_string());
    assert(r@.map_values(|x: String| x@) =~= default_patterns());
    r
}

/// The lines that are not comments (beginning with `#`).
pub open spec fn without_comments(lines: Seq<Seq<char>>) -> Seq<Seq<char>>
    decreases lines.len(),
{
    if lines.len() == 0 {
        Seq::empty()
    } else {
        let prev = without_comments(lines.drop_last());
        if lines.last().len() > 0 && lines.last()[0] == '#' {
            prev
        } else {
            prev.push(lines.last())
        }
    }
}

/// The patterns of an ignore file: its lines, trimmed, leaving out empty
/// lines and comments; `None` when no pattern is left.
pub open spec fn file_patterns(content: Seq<char>) -> Option<Seq<Seq<char>>> {
    let p = without_comments(trimmed_nonempty(split_on(content, "\n"@)));
    if p.len() == 0 {
        None
    } else {
        Some(p)
    }
}

/// The patterns of the ignore file `content` (see `file_patterns`).
pub fn read_patterns(content: &str) -> (r: Option<Vec<String>>)
    ensures
        match file_patterns(content@) {
            Some(p) => r matches Some(v) && v@.map_values(|x: String| x@) == p,
            None => r is None,
        },
{
    proof {
        reveal_strlit("\n");
    }
    let lines = split_trimmed(content, "\n");
    let ghost lv = lines@.map_values(|x: String| x@);
    let mut out: Vec<String> = Vec::new();
    let mut i: usize = 0;
    assert(lv.take(0) =~= Seq::<Seq<char>>::empty());
    while i < lines.len()
        invariant
            i <= lines@.len(),
            lv == lines@.map_values(|x: String| x@),
            out@.map_values(|x: String| x@) == without_comments(lv.take(i as int)),
        decreases lines@.len() - i,
    {
        proof {
            assert(lv.take(i + 1).drop_last() =~= lv.take(i as int));
            assert(lv.take(i + 1).last() == lines@[i as int]@);
        }
        let line = &lines[i];
        let comment = crate::importers::str_starts_with(line.as_str(), "#");
        proof {
            reveal_strlit("#");
            let l = lines@[i as int]@;
            assert("#"@ =~= seq!['#']);
            if l.len() > 0 {
                assert(l.take(1) =~= seq![l[0]]);
                if l[0] == '#' {
                    assert(l.take(1) =~= "#"@);
                } else {
                    assert(l.take(1)[0] != "#"@[0]);
                }
            }
            assert(comment == (l.len() > 0 && l[0] == '#'));
        }
        if !comment {
            let ghost before = out@.map_values(|x: String| x@);
            out.push(line.clone());
            assert(out@.map_values(|x: String| x@) =~= before.push(lines@[i as int]@));
        }
        i += 1;
    }
    assert(lv.take(lines@.len() as int) =~= lv);
    if out.len() == 0 {
        None
    } else {
        Some(out)
    }
}

/// The patterns that apply to an import, from the contents of the ignore
/// files that could be read: the import's `.kosignore`, its `.gitignore`,
/// and a global `.kosignore`; the first that gives patterns wins.
pub open spec fn chosen_patterns(kosignore: Option<Seq<char>>, gitignore: Option<Seq<char>>, global: Option<Seq<char>>) -> Seq<Seq<char>> {
    let k = match kosignore { Some(c) => file_patterns(c), None => None };
    let g = match gitignore { Some(c) => file_patterns(c), None => None };
    let h = match global { Some(c) => file_patterns(c), None => None };
    match k {
        Some(p) => p,
        None => match g {
            Some(p) => p,
            None => match h {
                Some(p) => p,
                None => default_patterns(),
            },
        },
    }
}

fn patterns_of(content: Option<&str>) -> (r: Option<Vec<String>>)
    ensures
        match (match content { Some(c) => file_patterns(c@), None => None }) {
            Some(p) => r matches Some(v) && v@.map_values(|x: String| x@) == p,
            None => r is None,
        },
{
    match content {
        Some(c) => read_patterns(c),
        None => None,
    }
}

/// The patterns that apply to an import (see `chosen_patterns`).
pub fn choose_ignore_patterns(kosignore: Option<&str>, gitignore: Option<&str>, global: Option<&str>) -> (r: Vec<String>)
    ensures
        r@.map_values(|x: String| x@) == chosen_patterns(
            match kosignore { Some(c) => Some(c@), None => None },
            match gitignore { Some(c) => Some(c@), None => None },
            match global { Some(c) => Some(c@), None => None },
        ),
{
    if let Some(p) = patterns_of(kosignore) {
        return p;
    }
    if let Some(p) = patterns_of(gitignore) {
        return p;
    }
    if let Some(p) = patterns_of(global) {
        return p;
    }
    default_ignore_patterns()
}

} // verus!
