//! Models of the library's types, and copies that keep them.
use vstd::prelude::*;
use crate::text;

verus! {

/// The models of a list of values.
pub open spec fn views<T: View>(items: Seq<T>) -> Seq<T::V> {
    Seq::new(items.len(), |i: int| items[i]@)
}

/// The model of an optional value.
pub open spec fn opt_view<T: View>(item: Option<T>) -> Option<T::V> {
    match item {
        Some(value) => Some(value@),
        None => None,
    }
}

/// The characters of an optional string.
pub open spec fn opt_text(item: Option<String>) -> Option<Seq<char>> {
    match item {
        Some(value) => Some(value@),
        None => None,
    }
}

/// The characters of pairs of strings.
pub open spec fn pairs(items: Seq<(String, String)>) -> Seq<(Seq<char>, Seq<char>)> {
    Seq::new(items.len(), |i: int| (items[i].0@, items[i].1@))
}

/// The text that stands first under a name.
pub open spec fn pair_value(items: Seq<(Seq<char>, Seq<char>)>, name: Seq<char>) -> Option<
    Seq<char>,
>
    decreases items.len(),
{
    if items.len() == 0 {
        None
    } else if items[0].0 == name {
        Some(items[0].1)
    } else {
        pair_value(items.drop_first(), name)
    }
}

/// Finds the text that stands first under a name.
pub fn find_pair<'a>(items: &'a Vec<(String, String)>, name: &str) -> (r: Option<&'a str>)
    ensures
        match r {
            Some(s) => pair_value(pairs(items@), name@) == Some(s@),
            None => pair_value(pairs(items@), name@) is None,
        },
{
    let ghost all = pairs(items@);
    let mut i: usize = 0;
    assert(all.skip(0) =~= all);
    while i < items.len()
        invariant
            i <= items@.len(),
            all == pairs(items@),
            pair_value(all, name@) == pair_value(all.skip(i as int), name@),
        decreases items@.len() - i,
    {
        assert(all.skip(i as int)[0] == all[i as int]);
        assert(all.skip(i as int).drop_first() =~= all.skip(i + 1));
        if text::same_text(items[i].0.as_str(), name) {
            return Some(items[i].1.as_str());
        }
        i += 1;
    }
    None
}

/// Copies pairs of strings.
pub fn copy_pairs(items: &Vec<(String, String)>) -> (r: Vec<(String, String)>)
    ensures
        pairs(r@) == pairs(items@),
{
    let mut out: Vec<(String, String)> = Vec::new();
    let mut i: usize = 0;
    while i < items.len()
        invariant
            i <= items@.len(),
            pairs(out@) == pairs(items@).take(i as int),
        decreases items@.len() - i,
    {
        let ghost before = out@;
        out.push((items[i].0.clone(), items[i].1.clone()));
        i += 1;
        assert(pairs(out@) =~= pairs(before).push((items@[i - 1].0@, items@[i - 1].1@)));
        assert(pairs(out@) =~= pairs(items@).take(i as int));
    }
    assert(pairs(items@).take(i as int) =~= pairs(items@));
    out
}

pub proof fn lemma_views_push<T: View>(items: Seq<T>, item: T)
    ensures
        views(items.push(item)) == views(items).push(item@),
{
    assert(views(items.push(item)) =~= views(items).push(item@));
}

/// A type whose values can be copied without changing what they model.
pub trait Duplicate: View + Sized {
    /// A copy that models the same value.
    fn duplicate(&self) -> (r: Self)
        ensures
            r@ == self@,
    ;
}

/// Copies a list.
pub fn copy_all<T: Duplicate>(items: &Vec<T>) -> (r: Vec<T>)
    ensures
        views(r@) == views(items@),
{
    let mut out: Vec<T> = Vec::new();
    let mut i: usize = 0;
    while i < items.len()
        invariant
            i <= items@.len(),
            views(out@) == views(items@).take(i as int),
        decreases items@.len() - i,
    {
        let item = items[i].duplicate();
        proof {
            lemma_views_push(out@, item);
        }
        out.push(item);
        i += 1;
        assert(views(out@) =~= views(items@).take(i as int));
    }
    assert(views(items@).take(i as int) =~= views(items@));
    out
}

/// Copies an optional value.
pub fn copy_opt<T: Duplicate>(item: &Option<T>) -> (r: Option<T>)
    ensures
        opt_view(r) == opt_view(*item),
{
    match item {
        Some(value) => Some(value.duplicate()),
        None => None,
    }
}

/// Copies an optional string.
pub fn copy_opt_text(item: &Option<String>) -> (r: Option<String>)
    ensures
        opt_text(r) == opt_text(*item),
{
    match item {
        Some(value) => Some(value.clone()),
        None => None,
    }
}

/// Copies a list of values that are copied as they are.
pub fn copy_plain<T: Copy>(items: &Vec<T>) -> (r: Vec<T>)
    ensures
        r@ == items@,
{
    let mut out: Vec<T> = Vec::new();
    let mut i: usize = 0;
    while i < items.len()
        invariant
            i <= items@.len(),
            out@ == items@.take(i as int),
        decreases items@.len() - i,
    {
        out.push(items[i]);
        i += 1;
        assert(out@ =~= items@.take(i as int));
    }
    assert(out@ =~= items@);
    out
}

} // verus!
