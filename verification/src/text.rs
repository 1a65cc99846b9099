//! Text and lists of text: the views that contracts speak of, and the small
//! verified operations on `String` and `Vec<String>` that the node is built from.

use vstd::prelude::*;

verus! {

/// What a string holds.
pub type Text = Seq<char>;

/// What a list of strings holds.
pub open spec fn texts(list: Seq<String>) -> Seq<Text> {
    list.map_values(|s: String| s@)
}

/// What an optional string holds.
pub open spec fn optional_text(text: Option<String>) -> Option<Text> {
    match text {
        Some(s) => Some(s@),
        None => None,
    }
}

/// `list` with `item` at the end, unless `list` holds `item` already.
pub open spec fn with_text(list: Seq<Text>, item: Text) -> Seq<Text> {
    if list.contains(item) {
        list
    } else {
        list.push(item)
    }
}

/// `list` without any occurrence of `item`, in the same order.
pub open spec fn without_text(list: Seq<Text>, item: Text) -> Seq<Text> {
    list.filter(|t: Text| t != item)
}

pub proof fn lemma_texts_push(list: Seq<String>, item: String)
    ensures
        texts(list.push(item)) == texts(list).push(item@),
{
    assert(texts(list.push(item)) =~= texts(list).push(item@));
}

/// Whether `list` holds `item`.
pub fn contains_text(list: &Vec<String>, item: &String) -> (found: bool)
    ensures
        found == texts(list@).contains(item@),
{
    let mut i: usize = 0;
    while i < list.len()
        invariant
            i <= list.len(),
            forall|j: int| 0 <= j < i ==> list@[j]@ != item@,
        decreases list.len() - i,
    {
        if list[i] == *item {
            assert(texts(list@)[i as int] == item@);
            return true;
        }
        i += 1;
    }
    assert forall|j: int| 0 <= j < texts(list@).len() implies texts(list@)[j] != item@ by {
        assert(texts(list@)[j] == list@[j]@);
    }
    false
}

/// Puts `item` at the end of `list`, unless it is there already.
pub fn insert_text(list: &mut Vec<String>, item: String)
    ensures
        texts(final(list)@) == with_text(texts(old(list)@), item@),
{
    if !contains_text(list, &item) {
        proof {
            lemma_texts_push(list@, item);
        }
        list.push(item);
    }
}

/// Takes every occurrence of `item` out of `list`.
pub fn remove_text(list: &mut Vec<String>, item: &String)
    ensures
        texts(final(list)@) == without_text(texts(old(list)@), item@),
{
    let mut kept: Vec<String> = Vec::new();
    let mut i: usize = 0;
    let ghost all = texts(list@);
    let ghost keep = |t: Text| t != item@;
    assert(all.take(0) =~= seq![]);
    assert(texts(kept@) =~= all.take(0).filter(keep)) by {
        reveal(Seq::filter);
    }
    while i < list.len()
        invariant
            i <= list.len(),
            all == texts(list@),
            keep == (|t: Text| t != item@),
            texts(kept@) == all.take(i as int).filter(keep),
        decreases list.len() - i,
    {
        proof {
            all.take(i as int).lemma_filter_push(all[i as int], keep);
            assert(all.take(i + 1) =~= all.take(i as int).push(all[i as int]));
            assert(all[i as int] == list@[i as int]@);
        }
        if list[i] != *item {
            let item_kept: String = list[i].clone();
            proof {
                lemma_texts_push(kept@, item_kept);
            }
            kept.push(item_kept);
        }
        i += 1;
    }
    assert(all.take(all.len() as int) =~= all);
    *list = kept;
}

/// A copy of `list`.
pub fn copy_texts(list: &Vec<String>) -> (copy: Vec<String>)
    ensures
        texts(copy@) == texts(list@),
{
    let copy: Vec<String> = list.clone();
    assert(texts(copy@) =~= texts(list@));
    copy
}

/// A copy of an optional string.
pub fn copy_optional_text(text: &Option<String>) -> (copy: Option<String>)
    ensures
        optional_text(copy) == optional_text(*text),
{
    match text {
        Some(s) => Some(s.clone()),
        None => None,
    }
}

/// Whether `a` is equal to `b` or stands after it in the dictionary order of
/// their characters, which is the order that `String` has.
pub open spec fn at_or_after(a: Text, b: Text) -> bool
    decreases a.len(),
{
    if b.len() == 0 {
        true
    } else if a.len() == 0 {
        false
    } else if a[0] != b[0] {
        a[0] > b[0]
    } else {
        at_or_after(a.drop_first(), b.drop_first())
    }
}

/// Compares two strings character by character.
pub fn is_at_or_after(a: &String, b: &String) -> (result: bool)
    ensures
        result == at_or_after(a@, b@),
{
    let left: &str = a.as_str();
    let right: &str = b.as_str();
    let left_len: usize = left.unicode_len();
    let right_len: usize = right.unicode_len();
    let mut i: usize = 0;
    assert(left@.skip(0) =~= left@);
    assert(right@.skip(0) =~= right@);
    while i < left_len && i < right_len
        invariant
            left_len == left@.len(),
            right_len == right@.len(),
            i <= left_len,
            i <= right_len,
            left@ == a@,
            right@ == b@,
            at_or_after(a@, b@) == at_or_after(left@.skip(i as int), right@.skip(i as int)),
        decreases left_len - i,
    {
        let c: char = left.get_char(i);
        let d: char = right.get_char(i);
        assert(left@.skip(i as int)[0] == c);
        assert(right@.skip(i as int)[0] == d);
        if c != d {
            return c > d;
        }
        assert(left@.skip(i as int).drop_first() =~= left@.skip(i + 1));
        assert(right@.skip(i as int).drop_first() =~= right@.skip(i + 1));
        i += 1;
    }
    i == right_len
}

} // verus!
