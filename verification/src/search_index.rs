//! What the full-text index holds of an entity, and how its tags are
//! matched.

use vstd::prelude::*;
use crate::model::{components_view, Component, ComponentData, ComponentType, DataV};
use crate::text::{split_on, split_ranges, string_of, to_chars};

verus! {

/// The first component of type `t`, if any.
pub open spec fn first_of_type(cs: Seq<(ComponentType, DataV)>, t: ComponentType) -> Option<DataV>
    decreases cs.len(),
{
    if cs.len() == 0 {
        None
    } else if cs[0].0 == t {
        Some(cs[0].1)
    } else {
        first_of_type(cs.drop_first(), t)
    }
}

/// The text of the first component of type `t` when its data is text, else empty.
pub open spec fn first_text(cs: Seq<(ComponentType, DataV)>, t: ComponentType) -> Seq<char> {
    match first_of_type(cs, t) {
        Some(DataV::Text(s)) => s,
        _ => Seq::empty(),
    }
}

/// The items joined with `, ` between them.
pub open spec fn join_comma(items: Seq<Seq<char>>) -> Seq<char>
    decreases items.len(),
{
    if items.len() == 0 {
        Seq::empty()
    } else if items.len() == 1 {
        items[0]
    } else {
        join_comma(items.drop_last()) + ", "@ + items.last()
    }
}

/// The tags of the first tags component, joined with `, `, when its data
/// is a list; else empty.
pub open spec fn first_tags(cs: Seq<(ComponentType, DataV)>) -> Seq<char> {
    match first_of_type(cs, ComponentType::Tags) {
        Some(DataV::List(items)) => join_comma(items),
        _ => Seq::empty(),
    }
}

fn find_first<'a>(components: &'a Vec<Component>, t: ComponentType) -> (r: Option<&'a ComponentData>)
    ensures
        match first_of_type(components_view(components@), t) {
            Some(d) => r matches Some(x) && x@ == d,
            None => r is None,
        },
{
    let ghost cv = components_view(components@);
    let mut i: usize = 0;
    assert(cv.skip(0) =~= cv);
    while i < components.len()
        invariant
            i <= components@.len(),
            cv == components_view(components@),
            first_of_type(cv, t) == first_of_type(cv.skip(i as int), t),
        decreases components@.len() - i,
    {
        assert(cv.skip(i as int)[0] == components@[i as int]@);
        if components[i].component_type == t {
            return Some(&components[i].data);
        }
        assert(cv.skip(i as int).drop_first() =~= cv.skip(i + 1));
        i += 1;
    }
    None
}

fn joined_tags(items: &Vec<String>) -> (r: String)
    ensures
        r@ == join_comma(items@.map_values(|x: String| x@)),
{
    let ghost iv = items@.map_values(|x: String| x@);
    let mut out = String::new();
    let mut i: usize = 0;
    assert(iv.take(0) =~= Seq::<Seq<char>>::empty());
    while i < items.len()
        invariant
            i <= items@.len(),
            iv == items@.map_values(|x: String| x@),
            out@ == join_comma(iv.take(i as int)),
        decreases items@.len() - i,
    {
        proof {
            assert(iv.take(i + 1).drop_last() =~= iv.take(i as int));
            assert(iv.take(i + 1).last() == items@[i as int]@);
            reveal_strlit(", ");
        }
        if i > 0 {
            crate::text::append_str(&mut out, ", ");
        }
        crate::text::append_str(&mut out, items[i].as_str());
        proof {
            if i == 0 {
                assert(iv.take(1)[0] == items@[0]@);
                assert(out@ =~= join_comma(iv.take(1)));
            } else {
                assert(out@ =~= join_comma(iv.take(i + 1)));
            }
        }
        i += 1;
    }
    assert(iv.take(items@.len() as int) =~= iv);
    out
}

/// The title, content and tags under which an entity is indexed: the text
/// of its first title and first content component, and the tags of its
/// first tags component joined with `, ` (each empty when missing or not
/// of that shape).
pub fn search_fields(components: &Vec<Component>) -> (r: (String, String, String))
    ensures
        r.0@ == first_text(components_view(components@), ComponentType::Title),
        r.1@ == first_text(components_view(components@), ComponentType::Content),
        r.2@ == first_tags(components_view(components@)),
{
    let title = match find_first(components, ComponentType::Title) {
        Some(ComponentData::Text(s)) => s.clone(),
        _ => String::new(),
    };
    let content = match find_first(components, ComponentType::Content) {
        Some(ComponentData::Text(s)) => s.clone(),
        _ => String::new(),
    };
    let tags = match find_first(components, ComponentType::Tags) {
        Some(ComponentData::List(items)) => joined_tags(items),
        _ => String::new(),
    };
    (title, content, tags)
}

/// Whether the indexed tags `indexed` (joined with `, `) hold `tag`.
pub fn tags_contain(indexed: &str, tag: &str) -> (b: bool)
    ensures
        b == split_on(indexed@, ", "@).contains(tag@),
{
    proof {
        reveal_strlit(", ");
    }
    let v = to_chars(indexed);
    let p = to_chars(", ");
    let ranges = split_ranges(&v, &p);
    let ghost pieces = ranges@.map_values(|x: (usize, usize)| v@.subrange(x.0 as int, x.1 as int));
    let mut i: usize = 0;
    while i < ranges.len()
        invariant
            i <= ranges.len(),
            pieces == ranges@.map_values(|x: (usize, usize)| v@.subrange(x.0 as int, x.1 as int)),
            pieces == split_on(indexed@, ", "@),
            forall|k: int| 0 <= k < ranges.len() ==> #[trigger] ranges@[k].0 <= ranges@[k].1 <= v.len(),
            forall|k: int| 0 <= k < i ==> pieces[k] != tag@,
        decreases ranges.len() - i,
    {
        let (lo, hi) = ranges[i];
        let piece = string_of(&v, lo, hi);
        if crate::text::same_text(piece.as_str(), tag) {
            assert(pieces[i as int] == tag@);
            return true;
        }
        i += 1;
    }
    false
}

} // verus!
