//! Texts, and lists of texts.

use vstd::prelude::*;

verus! {

/// The views of strings.
pub open spec fn texts(strings: Seq<String>) -> Seq<Seq<char>> {
    strings.map_values(|s: String| s@)
}

/// The view of a string that may be missing.
pub open spec fn optional(string: Option<String>) -> Option<Seq<char>> {
    match string {
        Some(s) => Some(s@),
        None => None,
    }
}

/// The list without any occurrence of the text.
pub open spec fn without(list: Seq<Seq<char>>, text: Seq<char>) -> Seq<Seq<char>> {
    list.filter(|t: Seq<char>| t != text)
}

/// The list with the text at its end, unless the text is in it already.
pub open spec fn with(list: Seq<Seq<char>>, text: Seq<char>) -> Seq<Seq<char>> {
    if list.contains(text) {
        list
    } else {
        list.push(text)
    }
}

/// Whether two texts are the same.
pub fn same_text(a: &str, b: &str) -> (r: bool)
    ensures
        r == (a@ == b@),
{
    a.to_owned() == b.to_owned()
}

/// A copy of the list.
pub fn copy_texts(list: &Vec<String>) -> (r: Vec<String>)
    ensures
        texts(r@) == texts(list@),
{
    let r = list.clone();
    assert(texts(r@) =~= texts(list@));
    r
}

/// Whether the text is in the list.
pub fn contains_text(list: &Vec<String>, text: &String) -> (r: bool)
    ensures
        r == texts(list@).contains(text@),
{
    let mut i: usize = 0;
    while i < list.len()
        invariant
            i <= list@.len(),
            forall|j: int| 0 <= j < i ==> texts(list@)[j] != text@,
        decreases list@.len() - i,
    {
        if list[i] == *text {
            assert(texts(list@)[i as int] == text@);
            return true;
        }
        i = i + 1;
    }
    false
}

/// Puts the text at the end of the list, unless the list has it already.
pub fn add_text(list: &mut Vec<String>, text: String)
    ensures
        texts(final(list)@) == with(texts(old(list)@), text@),
{
    if !contains_text(list, &text) {
        list.push(text);
        assert(texts(list@) =~= texts(old(list)@).push(text@));
    }
}

/// Takes every occurrence of the text out of the list.
pub fn remove_text(list: &mut Vec<String>, text: &String)
    ensures
        texts(final(list)@) == without(texts(old(list)@), text@),
{
    let ghost all = texts(list@);
    let mut kept: Vec<String> = Vec::new();
    let mut i: usize = 0;
    while i < list.len()
        invariant
            i <= list@.len(),
            *list == *old(list),
            all == texts(list@),
            texts(kept@) == without(all.take(i as int), text@),
        decreases list@.len() - i,
    {
        proof {
            reveal(Seq::filter);
            assert(all.take(i + 1).drop_last() =~= all.take(i as int));
        }
        let ghost before = kept@;
        if list[i] != *text {
            kept.push(list[i].clone());
            assert(texts(kept@) =~= texts(before).push(all[i as int]));
        }
        i = i + 1;
    }
    assert(all.take(all.len() as int) =~= all);
    *list = kept;
}

/// Putting a text into a list leaves the other texts in it.
pub proof fn with_members(list: Seq<Seq<char>>, text: Seq<char>)
    ensures
        forall|t: Seq<char>| #[trigger]
            with(list, text).contains(t) <==> list.contains(t) || t == text,
{
    assert forall|t: Seq<char>| list.contains(t) || t == text implies #[trigger] with(
        list,
        text,
    ).contains(t) by {
        if list.contains(t) {
            let i = list.index_of(t);
            assert(with(list, text)[i] == t);
        } else if !list.contains(text) {
            assert(with(list, text)[list.len() as int] == text);
        }
    }
}

/// Putting a text at the end of a list leaves the other texts in it.
pub proof fn push_members(list: Seq<Seq<char>>, text: Seq<char>)
    ensures
        forall|t: Seq<char>| #[trigger]
            list.push(text).contains(t) <==> list.contains(t) || t == text,
{
    assert forall|t: Seq<char>| list.contains(t) || t == text implies #[trigger] list.push(
        text,
    ).contains(t) by {
        if list.contains(t) {
            let i = list.index_of(t);
            assert(list.push(text)[i] == t);
        } else {
            assert(list.push(text)[list.len() as int] == text);
        }
    }
}

/// Taking a text out of a list leaves the other texts in it.
pub proof fn without_members(list: Seq<Seq<char>>, text: Seq<char>)
    ensures
        forall|t: Seq<char>| #[trigger]
            without(list, text).contains(t) <==> list.contains(t) && t != text,
    decreases list.len(),
{
    reveal(Seq::filter);
    if list.len() > 0 {
        let rest = list.drop_last();
        without_members(rest, text);
        assert(list =~= rest.push(list.last()));
        assert forall|t: Seq<char>| #[trigger] list.contains(t) <==> rest.contains(t) || t
            == list.last() by {
            if rest.contains(t) {
                let i = rest.index_of(t);
                assert(list[i] == t);
            }
        }
        let kept = without(rest, text);
        if list.last() != text {
            assert(without(list, text) =~= kept.push(list.last()));
            assert forall|t: Seq<char>| #[trigger] without(list, text).contains(t) <==> (
            kept.contains(t) || t == list.last()) by {
                if kept.contains(t) {
                    let i = kept.index_of(t);
                    assert(without(list, text)[i] == t);
                }
                assert(without(list, text)[kept.len() as int] == list.last());
            }
        } else {
            assert(without(list, text) =~= kept);
        }
    }
}

/// A list in which nothing occurs twice stays so when a text is taken out.
pub proof fn without_keeps_no_duplicates(list: Seq<Seq<char>>, text: Seq<char>)
    requires
        list.no_duplicates(),
    ensures
        without(list, text).no_duplicates(),
    decreases list.len(),
{
    reveal(Seq::filter);
    if list.len() > 0 {
        let rest = list.drop_last();
        without_keeps_no_duplicates(rest, text);
        without_members(rest, text);
        if list.last() != text {
            let kept = without(rest, text);
            assert(without(list, text) =~= kept.push(list.last()));
            assert(!kept.contains(list.last())) by {
                if kept.contains(list.last()) {
                    let i = rest.index_of(list.last());
                    assert(list[i] == list.last());
                }
            }
            assert forall|i: int| 0 <= i < kept.len() implies kept[i] != list.last() by {
                assert(kept.contains(kept[i]));
            }
        } else {
            assert(without(list, text) =~= without(rest, text));
        }
    }
}

/// Taking a text out of a list that lacks it changes nothing.
pub proof fn without_absent(list: Seq<Seq<char>>, text: Seq<char>)
    requires
        !list.contains(text),
    ensures
        without(list, text) == list,
    decreases list.len(),
{
    reveal(Seq::filter);
    if list.len() > 0 {
        let rest = list.drop_last();
        assert forall|i: int| 0 <= i < rest.len() implies rest[i] != text by {
            assert(list[i] == rest[i]);
        }
        without_absent(rest, text);
        assert(list[list.len() - 1] != text);
        assert(without(list, text) =~= rest.push(list.last()));
    }
}

/// Taking out a text that was put at the end of a list which lacked it gives the list
/// back.
pub proof fn without_undoes_with(list: Seq<Seq<char>>, text: Seq<char>)
    requires
        !list.contains(text),
    ensures
        without(with(list, text), text) == list,
{
    reveal(Seq::filter);
    without_absent(list, text);
    assert(list.push(text).drop_last() =~= list);
}

/// The view of a list of strings holds the view of each string, in its place.
pub proof fn texts_are_the_views(strings: Seq<String>, i: int)
    requires
        0 <= i < strings.len(),
    ensures
        texts(strings).len() == strings.len(),
        texts(strings)[i] == strings[i]@,
{
}

/// Taking a text out of a list leaves the others in their order: whether the last text of a list
/// stays has nothing to do with those before it.
pub proof fn without_keeps_the_order(list: Seq<Seq<char>>, last: Seq<char>, text: Seq<char>)
    ensures
        without(seq![], text) == Seq::<Seq<char>>::empty(),
        last == text ==> without(list.push(last), text) == without(list, text),
        last != text ==> without(list.push(last), text) == without(list, text).push(last),
{
    reveal(Seq::filter);
    assert(list.push(last).drop_last() =~= list);
}

/// A text that is put into a list that lacks it comes last, behind the others in their order; a
/// list that has it stays as it is.
pub proof fn with_keeps_the_order(list: Seq<Seq<char>>, text: Seq<char>)
    ensures
        list.contains(text) ==> with(list, text) == list,
        !list.contains(text) ==> with(list, text) == list + seq![text],
{
    assert(list.push(text) =~= list + seq![text]);
}

} // verus!
