//! Building lists of arguments and lines.

use crate::model;
use crate::strings;
use crate::text;
use vstd::prelude::*;

verus! {

broadcast use strings::lemma_texts_push;

/// Adds a string to a list.
pub fn push(v: &mut Vec<String>, s: &str)
    ensures
        strings::texts(final(v)@) == strings::texts(old(v)@).push(s@),
{
    v.push(s.to_owned());
}

/// A list with nothing in it.
pub fn empty() -> (r: Vec<String>)
    ensures
        strings::texts(r@) == Seq::<Seq<char>>::empty(),
{
    let v: Vec<String> = Vec::new();
    assert(strings::texts(v@) =~= Seq::empty());
    v
}

/// The list of one string.
pub fn list1(a: &str) -> (r: Vec<String>)
    ensures
        strings::texts(r@) == seq![a@],
{
    let mut v = empty();
    push(&mut v, a);
    v
}

/// The list of two strings.
pub fn list2(a: &str, b: &str) -> (r: Vec<String>)
    ensures
        strings::texts(r@) == seq![a@, b@],
{
    let mut v = list1(a);
    push(&mut v, b);
    v
}

/// The list of three strings.
pub fn list3(a: &str, b: &str, c: &str) -> (r: Vec<String>)
    ensures
        strings::texts(r@) == seq![a@, b@, c@],
{
    let mut v = list2(a, b);
    push(&mut v, c);
    v
}

/// Adds the strings of another list.
pub fn extend(v: &mut Vec<String>, more: &Vec<String>)
    ensures
        strings::texts(final(v)@) == strings::texts(old(v)@) + strings::texts(more@),
{
    let ghost start = strings::texts(v@);
    let ghost all = strings::texts(more@);
    let mut i: usize = 0;
    assert(start + all.take(0) =~= start);
    while i < more.len()
        invariant
            i <= more@.len(),
            all == strings::texts(more@),
            strings::texts(v@) == start + all.take(i as int),
        decreases more.len() - i,
    {
        push(v, &more[i]);
        i += 1;
        assert(strings::texts(v@) =~= start + all.take(i as int));
    }
    assert(all.take(all.len() as int) =~= all);
}

/// Nothing, or one text made of a prefix and a value that says something.
pub open spec fn prefixed(prefix: Seq<char>, value: Option<Seq<char>>) -> Seq<Seq<char>> {
    match model::given(value) {
        Some(v) => seq![prefix + v],
        None => Seq::empty(),
    }
}

/// Adds a prefix and a value in one string, where the value says something.
pub fn push_prefixed(v: &mut Vec<String>, prefix: &str, value: &Option<String>)
    ensures
        strings::texts(final(v)@) == strings::texts(old(v)@) + prefixed(
            prefix@,
            strings::opt(*value),
        ),
{
    if let Some(s) = model::ne_field(value) {
        push(v, &text::cat(prefix, &s));
    }
}

/// Nothing, or a flag and a value that says something, as two texts.
pub open spec fn flagged(flag: Seq<char>, value: Option<Seq<char>>) -> Seq<Seq<char>> {
    match model::given(value) {
        Some(v) => seq![flag, v],
        None => Seq::empty(),
    }
}

/// Adds a flag and a value as two strings, where the value says something.
pub fn push_flagged(v: &mut Vec<String>, flag: &str, value: &Option<String>)
    ensures
        strings::texts(final(v)@) == strings::texts(old(v)@) + flagged(flag@, strings::opt(*value)),
{
    if let Some(s) = model::ne_field(value) {
        push(v, flag);
        push(v, &s);
    }
}

/// Nothing, or one text.
pub open spec fn if_set(on: bool, s: Seq<char>) -> Seq<Seq<char>> {
    if on {
        seq![s]
    } else {
        Seq::empty()
    }
}

/// Adds a string where `on` says so.
pub fn push_if(v: &mut Vec<String>, on: bool, s: &str)
    ensures
        strings::texts(final(v)@) == strings::texts(old(v)@) + if_set(on, s@),
{
    if on {
        push(v, s);
    }
}

/// Nothing, or one text made of a prefix and a value as it is.
pub open spec fn with_value(prefix: Seq<char>, value: Option<Seq<char>>) -> Seq<Seq<char>> {
    match value {
        Some(v) => seq![prefix + v],
        None => Seq::empty(),
    }
}

/// Adds a prefix and a value in one string, where there is a value.
pub fn push_with_value(v: &mut Vec<String>, prefix: &str, value: Option<&str>)
    ensures
        strings::texts(final(v)@) == strings::texts(old(v)@) + with_value(
            prefix@,
            strings::opt_str(value),
        ),
{
    if let Some(s) = value {
        push(v, &text::cat(prefix, s));
    }
}

/// The strings of a list, where there is one.
pub open spec fn any(list: Option<Seq<Seq<char>>>) -> Seq<Seq<char>> {
    match list {
        Some(l) => l,
        None => Seq::empty(),
    }
}

/// Adds the strings of a list, where there is one.
pub fn extend_any(v: &mut Vec<String>, list: &Option<Vec<String>>)
    ensures
        strings::texts(final(v)@) == strings::texts(old(v)@) + any(model::list_text(*list)),
{
    if let Some(l) = list {
        extend(v, l);
    }
}

/// A value that is missing or blank is left out, with its flag or its prefix.
pub proof fn law_blank_value_is_left_out(flag: Seq<char>, value: Option<Seq<char>>)
    requires
        value matches Some(v) ==> text::trim(v).len() == 0,
    ensures
        prefixed(flag, value) == Seq::<Seq<char>>::empty(),
        flagged(flag, value) == Seq::<Seq<char>>::empty(),
{
}

} // verus!
