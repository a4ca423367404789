//! Small operations on text: comparing, ordering, copying and joining.

use vstd::prelude::*;
use vstd::string::StringExecFns;
use crate::model::{deep, lemma_deep_push};

verus! {

broadcast use vstd::string::group_string_axioms;

/// Whether two texts hold the same characters.
pub fn same_text(a: &str, b: &str) -> (r: bool)
    ensures
        r == (a@ == b@),
{
    String::from_str(a) == String::from_str(b)
}

/// The characters of `text`, in order.
pub fn chars_of(text: &str) -> (r: Vec<char>)
    ensures
        r@ == text@,
{
    let mut out: Vec<char> = Vec::new();
    for c in it: text.chars()
        invariant
            it.seq() == text@,
            out@ == text@.take(it.index() as int),
    {
        out.push(c);
        proof {
            assert(text@.take(it.index() + 1) =~= text@.take(it.index() as int).push(c));
        }
    }
    proof {
        assert(text@.take(text@.len() as int) =~= text@);
    }
    out
}

/// `items` written one after another with `separator` between neighbours.
pub open spec fn joined(items: Seq<Seq<char>>, separator: Seq<char>) -> Seq<char>
    decreases items.len(),
{
    if items.len() == 0 {
        Seq::empty()
    } else if items.len() == 1 {
        items[0]
    } else {
        joined(items.drop_last(), separator) + separator + items.last()
    }
}

/// Whether `part` stands in `text`, character after character.
pub open spec fn holds(text: Seq<char>, part: Seq<char>) -> bool {
    exists|start: int|
        0 <= start && start + part.len() <= text.len() && #[trigger] text.subrange(
            start,
            start + part.len(),
        ) == part
}

/// What stands in a text stands in every text that is put around it.
pub proof fn lemma_holds_inside(before: Seq<char>, text: Seq<char>, after: Seq<char>, part: Seq<char>)
    requires
        holds(text, part),
    ensures
        holds(before + text + after, part),
{
    let start = choose|start: int|
        0 <= start && start + part.len() <= text.len() && #[trigger] text.subrange(
            start,
            start + part.len(),
        ) == part;
    let whole = before + text + after;
    let moved = before.len() + start;
    assert(whole.subrange(moved, moved + part.len()) =~= text.subrange(start, start + part.len()));
}

/// Every item stands in the joined text.
pub proof fn lemma_joined_holds(items: Seq<Seq<char>>, separator: Seq<char>, index: int)
    requires
        0 <= index < items.len(),
    ensures
        holds(joined(items, separator), items[index]),
    decreases items.len(),
{
    let whole = joined(items, separator);
    let item = items[index];
    if items.len() == 1 {
        assert(whole.subrange(0, 0 + item.len() as int) =~= item);
    } else if index == items.len() - 1 {
        let start = whole.len() - item.len();
        assert(whole.subrange(start, start + item.len()) =~= item);
    } else {
        lemma_joined_holds(items.drop_last(), separator, index);
        lemma_holds_inside(
            Seq::empty(),
            joined(items.drop_last(), separator),
            separator + items.last(),
            item,
        );
        assert(Seq::<char>::empty() + joined(items.drop_last(), separator) + (separator
            + items.last()) =~= whole);
    }
}

/// The items, written one after another with `separator` between neighbours.
pub fn join(items: &Vec<String>, separator: &str) -> (r: String)
    ensures
        r@ == joined(deep(items@), separator@),
{
    let mut out = String::new();
    let mut i: usize = 0;
    while i < items.len()
        invariant
            i <= items.len(),
            out@ == joined(deep(items@).take(i as int), separator@),
        decreases items.len() - i,
    {
        proof {
            assert(deep(items@).take(i as int + 1).drop_last() =~= deep(items@).take(i as int));
            assert(deep(items@).take(i as int + 1).last() == items[i as int]@);
        }
        if i > 0 {
            out.append(separator);
        }
        out.append(items[i].as_str());
        proof {
            if i == 0 {
                assert(out@ =~= items[0]@);
            }
        }
        i += 1;
    }
    proof {
        assert(deep(items@).take(items.len() as int) =~= deep(items@));
    }
    out
}

/// A copy of an optional text.
pub fn copy_text(text: &Option<String>) -> (r: Option<String>)
    ensures
        r.deep_view() == text.deep_view(),
{
    match text {
        Some(t) => Some(t.clone()),
        None => None,
    }
}

/// A copy of a list of texts.
pub fn copy_texts(texts: &Vec<String>) -> (r: Vec<String>)
    ensures
        deep(r@) == deep(texts@),
{
    let mut out: Vec<String> = Vec::new();
    let mut i: usize = 0;
    while i < texts.len()
        invariant
            i <= texts.len(),
            deep(out@) == deep(texts@).take(i as int),
        decreases texts.len() - i,
    {
        let ghost before = out@;
        let text = texts[i].clone();
        out.push(text);
        proof {
            lemma_deep_push(before, text);
            assert(deep(out@) =~= deep(texts@).take(i as int + 1));
        }
        i += 1;
    }
    proof {
        assert(deep(texts@).take(texts.len() as int) =~= deep(texts@));
    }
    out
}

/// A copy of a list of pairs of texts.
pub fn copy_pairs(pairs: &Vec<(String, String)>) -> (r: Vec<(String, String)>)
    ensures
        deep(r@) == deep(pairs@),
{
    let mut out: Vec<(String, String)> = Vec::new();
    let mut i: usize = 0;
    while i < pairs.len()
        invariant
            i <= pairs.len(),
            deep(out@) == deep(pairs@).take(i as int),
        decreases pairs.len() - i,
    {
        let ghost before = out@;
        let pair = (pairs[i].0.clone(), pairs[i].1.clone());
        out.push(pair);
        proof {
            lemma_deep_push(before, pair);
            assert(deep(out@) =~= deep(pairs@).take(i as int + 1));
        }
        i += 1;
    }
    proof {
        assert(deep(pairs@).take(pairs.len() as int) =~= deep(pairs@));
    }
    out
}

/// Whether `a` comes before `b` in the order of texts: character by
/// character, a text before every longer text that begins with it.
pub open spec fn text_before(a: Seq<char>, b: Seq<char>) -> bool
    decreases a.len(),
{
    if b.len() == 0 {
        false
    } else if a.len() == 0 {
        true
    } else if a[0] != b[0] {
        a[0] < b[0]
    } else {
        text_before(a.drop_first(), b.drop_first())
    }
}

/// Whether `a` comes before `b` in the order of texts.
pub fn is_text_before(a: &str, b: &str) -> (r: bool)
    ensures
        r == text_before(a@, b@),
{
    let left = chars_of(a);
    let right = chars_of(b);
    let mut i: usize = 0;
    proof {
        assert(left@.skip(0) =~= left@);
        assert(right@.skip(0) =~= right@);
    }
    while i < left.len() && i < right.len()
        invariant
            i <= left.len(),
            i <= right.len(),
            left@ == a@,
            right@ == b@,
            text_before(left@, right@) == text_before(left@.skip(i as int), right@.skip(i as int)),
        decreases left.len() - i,
    {
        proof {
            assert(left@.skip(i as int)[0] == left@[i as int]);
            assert(right@.skip(i as int)[0] == right@[i as int]);
            assert(left@.skip(i as int).drop_first() =~= left@.skip(i as int + 1));
            assert(right@.skip(i as int).drop_first() =~= right@.skip(i as int + 1));
        }
        if left[i] != right[i] {
            return left[i] < right[i];
        }
        i += 1;
    }
    i < right.len()
}

/// `sorted` with `item` put behind the last text that does not come after it.
pub open spec fn inserted_in_order(sorted: Seq<Seq<char>>, item: Seq<char>) -> Seq<Seq<char>>
    decreases sorted.len(),
{
    if sorted.len() == 0 {
        seq![item]
    } else if text_before(item, sorted.last()) {
        inserted_in_order(sorted.drop_last(), item).push(sorted.last())
    } else {
        sorted.push(item)
    }
}

/// The texts in order; equal texts keep the order they had.
pub open spec fn in_order(items: Seq<Seq<char>>) -> Seq<Seq<char>>
    decreases items.len(),
{
    if items.len() == 0 {
        Seq::empty()
    } else {
        inserted_in_order(in_order(items.drop_last()), items.last())
    }
}

/// Whether no text comes before one that stands before it.
pub open spec fn is_in_order(items: Seq<Seq<char>>) -> bool {
    forall|i: int, j: int| 0 <= i < j < items.len() ==> !text_before(items[j], items[i])
}

/// No text comes before itself.
pub proof fn lemma_text_before_irreflexive(a: Seq<char>)
    ensures
        !text_before(a, a),
    decreases a.len(),
{
    if a.len() > 0 {
        lemma_text_before_irreflexive(a.drop_first());
    }
}

/// The order of texts is transitive, also where one step is "not after".
pub proof fn lemma_text_before_transitive(a: Seq<char>, b: Seq<char>, c: Seq<char>)
    ensures
        text_before(a, b) && text_before(b, c) ==> text_before(a, c),
        !text_before(b, a) && !text_before(c, b) ==> !text_before(c, a),
    decreases a.len() + b.len() + c.len(),
{
    if a.len() > 0 && b.len() > 0 && c.len() > 0 {
        lemma_text_before_transitive(a.drop_first(), b.drop_first(), c.drop_first());
    }
}

/// Putting a text into texts in order keeps them in order and adds just
/// that text.
pub proof fn lemma_inserted_in_order(sorted: Seq<Seq<char>>, item: Seq<char>)
    requires
        is_in_order(sorted),
    ensures
        is_in_order(inserted_in_order(sorted, item)),
        inserted_in_order(sorted, item).to_multiset() == sorted.to_multiset().insert(item),
        inserted_in_order(sorted, item).len() == sorted.len() + 1,
    decreases sorted.len(),
{
    broadcast use vstd::seq_lib::group_to_multiset_ensures;

    let result = inserted_in_order(sorted, item);
    if sorted.len() == 0 {
        assert(sorted =~= Seq::<Seq<char>>::empty());
        assert(result =~= Seq::<Seq<char>>::empty().push(item));
    } else if text_before(item, sorted.last()) {
        let front = sorted.drop_last();
        let last = sorted.last();
        assert(is_in_order(front)) by {
            assert forall|i: int, j: int| 0 <= i < j < front.len() implies !text_before(
                front[j],
                front[i],
            ) by {
                assert(front[i] == sorted[i] && front[j] == sorted[j]);
            }
        }
        lemma_inserted_in_order(front, item);
        let inner = inserted_in_order(front, item);
        assert(sorted =~= front.push(last));
        assert forall|i: int, j: int| 0 <= i < j < result.len() implies !text_before(
            result[j],
            result[i],
        ) by {
            if j == result.len() - 1 {
                // every text of `inner` is `item` or a text of `front`
                assert(inner.to_multiset().count(inner[i]) > 0);
                if inner[i] == item {
                    lemma_text_before_antisymmetric(item, last);
                } else {
                    assert(front.to_multiset().count(inner[i]) > 0);
                    let k = choose|k: int| 0 <= k < front.len() && front[k] == inner[i];
                    assert(sorted[k] == inner[i]);
                    assert(!text_before(sorted[sorted.len() - 1], sorted[k]));
                }
            } else {
                assert(result[i] == inner[i] && result[j] == inner[j]);
            }
        }
    } else {
        assert forall|i: int, j: int| 0 <= i < j < result.len() implies !text_before(
            result[j],
            result[i],
        ) by {
            if j == result.len() - 1 {
                if i < sorted.len() - 1 {
                    assert(!text_before(sorted[sorted.len() - 1], sorted[i]));
                    lemma_text_before_transitive(sorted[i], sorted.last(), item);
                }
            } else {
                assert(result[i] == sorted[i] && result[j] == sorted[j]);
            }
        }
    }
}

/// Of two texts, at most one comes before the other.
pub proof fn lemma_text_before_antisymmetric(a: Seq<char>, b: Seq<char>)
    ensures
        !(text_before(a, b) && text_before(b, a)),
    decreases a.len(),
{
    if a.len() > 0 && b.len() > 0 {
        lemma_text_before_antisymmetric(a.drop_first(), b.drop_first());
    }
}

/// The texts in order are the same texts, each as often as before, and none
/// of them comes before one that stands before it.
pub proof fn lemma_in_order(items: Seq<Seq<char>>)
    ensures
        is_in_order(in_order(items)),
        in_order(items).to_multiset() == items.to_multiset(),
        in_order(items).len() == items.len(),
    decreases items.len(),
{
    broadcast use vstd::seq_lib::group_to_multiset_ensures;

    if items.len() == 0 {
        assert(items =~= Seq::<Seq<char>>::empty());
    } else {
        lemma_in_order(items.drop_last());
        lemma_inserted_in_order(in_order(items.drop_last()), items.last());
        assert(items =~= items.drop_last().push(items.last()));
    }
}

/// Every text is among the texts in order.
pub proof fn lemma_in_order_holds(items: Seq<Seq<char>>, index: int)
    requires
        0 <= index < items.len(),
    ensures
        in_order(items).contains(items[index]),
{
    broadcast use vstd::seq_lib::group_to_multiset_ensures;

    lemma_in_order(items);
    assert(items.to_multiset().count(items[index]) > 0);
    assert(in_order(items).to_multiset().count(items[index]) > 0);
}

/// Puts `item` into texts that are in order.
fn insert_in_order(sorted: &mut Vec<String>, item: String)
    ensures
        deep(final(sorted)@) == inserted_in_order(deep(old(sorted)@), item@),
{
    let ghost before = deep(sorted@);
    let mut k: usize = sorted.len();
    proof {
        assert(before.take(k as int) =~= before);
        assert(before.skip(k as int) =~= Seq::<Seq<char>>::empty());
    }
    while k > 0 && is_text_before(item.as_str(), sorted[k - 1].as_str())
        invariant
            k <= sorted.len(),
            before == deep(sorted@),
            inserted_in_order(before, item@) == inserted_in_order(
                before.take(k as int),
                item@,
            ) + before.skip(k as int),
        decreases k,
    {
        proof {
            let front = before.take(k as int);
            assert(front.last() == before[k - 1]);
            assert(front.drop_last() =~= before.take(k - 1));
            assert(inserted_in_order(front.drop_last(), item@).push(front.last()) + before.skip(
                k as int,
            ) =~= inserted_in_order(front.drop_last(), item@) + before.skip(k - 1));
        }
        k -= 1;
    }
    proof {
        let front = before.take(k as int);
        if k > 0 {
            assert(front.last() == before[k - 1]);
        }
        assert(inserted_in_order(front, item@) =~= front.push(item@));
    }
    sorted.insert(k, item);
    proof {
        assert(deep(sorted@) =~= before.take(k as int).push(item@) + before.skip(k as int));
    }
}

/// The texts in order; equal texts keep the order they had.
pub fn sort_texts(items: &Vec<String>) -> (r: Vec<String>)
    ensures
        deep(r@) == in_order(deep(items@)),
{
    let mut out: Vec<String> = Vec::new();
    let mut i: usize = 0;
    proof {
        assert(deep(out@) =~= Seq::<Seq<char>>::empty());
    }
    while i < items.len()
        invariant
            i <= items.len(),
            deep(out@) == in_order(deep(items@).take(i as int)),
        decreases items.len() - i,
    {
        proof {
            assert(deep(items@).take(i as int + 1).drop_last() =~= deep(items@).take(i as int));
            assert(deep(items@).take(i as int + 1).last() == items[i as int]@);
        }
        insert_in_order(&mut out, items[i].clone());
        i += 1;
    }
    proof {
        assert(deep(items@).take(items.len() as int) =~= deep(items@));
    }
    out
}

} // verus!
