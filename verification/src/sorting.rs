//! Stable sorting, and the order of texts.
use crate::text::{chars_of, lemma_views_push, same, views};
use vstd::prelude::*;

verus! {

broadcast use vstd::string::group_string_axioms;

/// Whether `a` comes before `b`: character by character, and a prefix first.
pub open spec fn text_before(a: Seq<char>, b: Seq<char>) -> bool
    decreases a.len(),
{
    if b.len() == 0 {
        false
    } else if a.len() == 0 {
        true
    } else if a[0] != b[0] {
        a[0] < b[0]
    } else {
        text_before(a.skip(1), b.skip(1))
    }
}

/// The order of texts is a strict total order.
pub proof fn text_order(a: Seq<char>, b: Seq<char>, c: Seq<char>)
    ensures
        !text_before(a, a),
        text_before(a, b) ==> !text_before(b, a),
        text_before(a, b) && text_before(b, c) ==> text_before(a, c),
        !text_before(a, b) && !text_before(b, a) ==> a == b,
        !text_before(b, a) && !text_before(c, b) ==> !text_before(c, a),
    decreases a.len() + b.len() + c.len(),
{
    if a.len() > 0 && b.len() > 0 && c.len() > 0 {
        text_order(a.skip(1), b.skip(1), c.skip(1));
        if a[0] == b[0] && a.skip(1) == b.skip(1) {
            assert(a =~= seq![a[0]] + a.skip(1));
            assert(b =~= seq![b[0]] + b.skip(1));
        }
    } else if a.len() > 0 && b.len() > 0 {
        text_order(a.skip(1), b.skip(1), c);
        if a[0] == b[0] && a.skip(1) == b.skip(1) {
            assert(a =~= seq![a[0]] + a.skip(1));
            assert(b =~= seq![b[0]] + b.skip(1));
        }
    } else if a.len() > 0 {
        text_order(a.skip(1), b, c);
    } else if b.len() == 0 {
        assert(a =~= b);
    }
}

/// Whether `a` comes before `b`.
pub fn precedes(a: &str, b: &str) -> (res: bool)
    ensures
        res == text_before(a@, b@),
{
    let left = chars_of(a);
    let right = chars_of(b);
    let mut i: usize = 0;
    assert(left@.skip(0) =~= left@);
    assert(right@.skip(0) =~= right@);
    while i < left.len() && i < right.len()
        invariant
            i <= left@.len(),
            i <= right@.len(),
            left@ == a@,
            right@ == b@,
            text_before(a@, b@) == text_before(left@.skip(i as int), right@.skip(i as int)),
        decreases left@.len() - i,
    {
        assert(left@.skip(i as int)[0] == left@[i as int]);
        assert(right@.skip(i as int)[0] == right@[i as int]);
        assert(left@.skip(i as int).skip(1) =~= left@.skip(i + 1));
        assert(right@.skip(i as int).skip(1) =~= right@.skip(i + 1));
        if left[i] != right[i] {
            return left[i] < right[i];
        }
        i += 1;
    }
    i < right.len()
}

// ---------------------------------------------------------------------------
// Sorting
// ---------------------------------------------------------------------------

/// `item` put into `items`, behind those that it does not come before.
pub open spec fn insert_by<T>(items: Seq<T>, item: T, lt: spec_fn(T, T) -> bool) -> Seq<T>
    decreases items.len(),
{
    if items.len() == 0 || !lt(item, items.last()) {
        items.push(item)
    } else {
        insert_by(items.drop_last(), item, lt).push(items.last())
    }
}

/// `items` in order; those of which none comes before the other keep their places.
pub open spec fn sorted_by<T>(items: Seq<T>, lt: spec_fn(T, T) -> bool) -> Seq<T>
    decreases items.len(),
{
    if items.len() == 0 {
        items
    } else {
        insert_by(sorted_by(items.drop_last(), lt), items.last(), lt)
    }
}

/// Whether no item comes before an earlier one.
pub open spec fn in_order<T>(items: Seq<T>, lt: spec_fn(T, T) -> bool) -> bool {
    forall|i: int, j: int|
        0 <= i < j < items.len() ==> !lt(#[trigger] items[j], #[trigger] items[i])
}

proof fn lemma_insert_at<T>(items: Seq<T>, item: T, lt: spec_fn(T, T) -> bool, k: int)
    requires
        0 <= k <= items.len(),
        forall|j: int| k <= j < items.len() ==> lt(item, #[trigger] items[j]),
        k > 0 ==> !lt(item, items[k - 1]),
    ensures
        insert_by(items, item, lt) == items.insert(k, item),
    decreases items.len(),
{
    if k == items.len() {
        assert(items.insert(k, item) =~= items.push(item));
    } else {
        let rest = items.drop_last();
        assert(lt(item, items[items.len() - 1]));
        assert forall|j: int| k <= j < rest.len() implies lt(item, #[trigger] rest[j]) by {
            assert(rest[j] == items[j]);
        }
        lemma_insert_at(rest, item, lt, k);
        assert(items.insert(k, item) =~= rest.insert(k, item).push(items.last()));
    }
}

/// Sorts `items`.
pub(crate) fn sort_by<T>(
    items: Vec<T>,
    less: impl Fn(&T, &T) -> bool,
    Ghost(lt): Ghost<spec_fn(T, T) -> bool>,
) -> (res: Vec<T>)
    requires
        forall|a: &T, b: &T| less.requires((a, b)),
        forall|a: &T, b: &T, r: bool| #[trigger] less.ensures((a, b), r) ==> r == lt(*a, *b),
    ensures
        res@ == sorted_by(items@, lt),
{
    let ghost all = items@;
    let total: usize = items.len();
    let mut rest = items;
    let mut out: Vec<T> = Vec::new();
    let mut done: usize = 0;
    assert(all.take(0) =~= Seq::empty());
    assert(all.skip(0) =~= all);
    while rest.len() > 0
        invariant
            forall|a: &T, b: &T| less.requires((a, b)),
            forall|a: &T, b: &T, r: bool| #[trigger] less.ensures((a, b), r) ==> r == lt(*a, *b),
            done + rest@.len() == total,
            total == all.len(),
            rest@ == all.skip(done as int),
            out@ == sorted_by(all.take(done as int), lt),
        decreases rest@.len(),
    {
        let item = rest.remove(0);
        assert(item == all[done as int]);
        assert(rest@ =~= all.skip(done + 1));
        let mut k: usize = out.len();
        while k > 0 && less(&item, &out[k - 1])
            invariant
                k <= out@.len(),
                forall|a: &T, b: &T| less.requires((a, b)),
                forall|a: &T, b: &T, r: bool| #[trigger]
                    less.ensures((a, b), r) ==> r == lt(*a, *b),
                forall|j: int| k <= j < out@.len() ==> lt(item, #[trigger] out@[j]),
            decreases k,
        {
            k -= 1;
        }
        proof {
            lemma_insert_at(out@, item, lt, k as int);
            assert(all.take(done + 1).drop_last() =~= all.take(done as int));
            assert(all.take(done + 1).last() == item);
        }
        out.insert(k, item);
        done += 1;
    }
    assert(all.take(done as int) =~= all);
    out
}

/// Inserting into items in order keeps them in order.
proof fn lemma_insert_in_order<T>(items: Seq<T>, item: T, lt: spec_fn(T, T) -> bool)
    requires
        in_order(items, lt),
        forall|a: T, b: T| #[trigger] lt(a, b) ==> !lt(b, a),
        forall|a: T, b: T, c: T| !(#[trigger] lt(b, a)) && !(#[trigger] lt(c, b)) ==> !lt(c, a),
    ensures
        in_order(insert_by(items, item, lt), lt),
        insert_by(items, item, lt).to_multiset() == items.to_multiset().insert(item),
        insert_by(items, item, lt).len() == items.len() + 1,
    decreases items.len(),
{
    broadcast use vstd::seq_lib::group_to_multiset_ensures;

    let res = insert_by(items, item, lt);
    if items.len() == 0 || !lt(item, items.last()) {
        assert forall|i: int, j: int| 0 <= i < j < res.len() implies !lt(
            #[trigger] res[j],
            #[trigger] res[i],
        ) by {
            if j == items.len() {
                if i < items.len() - 1 {
                    assert(!lt(items[items.len() - 1], items[i]));
                }
            } else {
                assert(res[i] == items[i] && res[j] == items[j]);
            }
        }
    } else {
        let rest = items.drop_last();
        assert forall|i: int, j: int| 0 <= i < j < rest.len() implies !lt(
            #[trigger] rest[j],
            #[trigger] rest[i],
        ) by {
            assert(rest[i] == items[i] && rest[j] == items[j]);
        }
        lemma_insert_in_order(rest, item, lt);
        let inner = insert_by(rest, item, lt);
        assert(rest.push(items.last()) =~= items);
        assert(res.to_multiset() =~= items.to_multiset().insert(item));
        assert forall|i: int, j: int| 0 <= i < j < res.len() implies !lt(
            #[trigger] res[j],
            #[trigger] res[i],
        ) by {
            if j == inner.len() {
                assert(inner.to_multiset().contains(inner[i]));
                assert(rest.to_multiset().insert(item).contains(inner[i]));
                if inner[i] != item {
                    assert(rest.to_multiset().contains(inner[i]));
                    let k = choose|k: int| 0 <= k < rest.len() && rest[k] == inner[i];
                    assert(items[k] == inner[i]);
                    assert(!lt(items[items.len() - 1], items[k]));
                }
            } else {
                assert(res[i] == inner[i] && res[j] == inner[j]);
            }
        }
    }
}

/// Sorting puts the items in order, and neither adds nor drops one.
pub proof fn sorting_sorts<T>(items: Seq<T>, lt: spec_fn(T, T) -> bool)
    requires
        forall|a: T, b: T| #[trigger] lt(a, b) ==> !lt(b, a),
        forall|a: T, b: T, c: T| !(#[trigger] lt(b, a)) && !(#[trigger] lt(c, b)) ==> !lt(c, a),
    ensures
        in_order(sorted_by(items, lt), lt),
        sorted_by(items, lt).to_multiset() == items.to_multiset(),
        sorted_by(items, lt).len() == items.len(),
    decreases items.len(),
{
    broadcast use vstd::seq_lib::group_to_multiset_ensures;

    if items.len() > 0 {
        let rest = items.drop_last();
        sorting_sorts(rest, lt);
        lemma_insert_in_order(sorted_by(rest, lt), items.last(), lt);
        assert(rest.push(items.last()) =~= items);
    }
}

// ---------------------------------------------------------------------------
// Texts
// ---------------------------------------------------------------------------

pub open spec fn before_fn() -> spec_fn(Seq<char>, Seq<char>) -> bool {
    |a: Seq<char>, b: Seq<char>| text_before(a, b)
}

pub open spec fn string_before_fn() -> spec_fn(String, String) -> bool {
    |a: String, b: String| text_before(a@, b@)
}

/// The views of sorted items are the sorted views, where the order is one of the views.
pub proof fn lemma_sorted_views<T: View>(
    items: Seq<T>,
    lt: spec_fn(T, T) -> bool,
    view_lt: spec_fn(T::V, T::V) -> bool,
)
    requires
        forall|a: T, b: T| #[trigger] lt(a, b) == view_lt(a@, b@),
    ensures
        views(sorted_by(items, lt)) == sorted_by(views(items), view_lt),
        sorted_by(items, lt).len() == items.len(),
    decreases items.len(),
{
    if items.len() == 0 {
        assert(views(items) =~= Seq::empty());
    } else {
        let rest = items.drop_last();
        lemma_sorted_views(rest, lt, view_lt);
        assert(views(items).drop_last() =~= views(rest));
        lemma_insert_views(sorted_by(rest, lt), items.last(), lt, view_lt);
    }
}

proof fn lemma_insert_views<T: View>(
    items: Seq<T>,
    item: T,
    lt: spec_fn(T, T) -> bool,
    view_lt: spec_fn(T::V, T::V) -> bool,
)
    requires
        forall|a: T, b: T| #[trigger] lt(a, b) == view_lt(a@, b@),
    ensures
        views(insert_by(items, item, lt)) == insert_by(views(items), item@, view_lt),
        insert_by(items, item, lt).len() == items.len() + 1,
    decreases items.len(),
{
    broadcast use lemma_views_push;

    if items.len() == 0 {
    } else if !lt(item, items.last()) {
        assert(views(items).last() == items.last()@);
    } else {
        assert(views(items).last() == items.last()@);
        assert(views(items).drop_last() =~= views(items.drop_last()));
        lemma_insert_views(items.drop_last(), item, lt, view_lt);
    }
}

/// Texts in order.
pub open spec fn sorted_texts(items: Seq<Seq<char>>) -> Seq<Seq<char>> {
    sorted_by(items, before_fn())
}

/// Sorts texts.
pub fn sort_texts(items: Vec<String>) -> (res: Vec<String>)
    ensures
        views(res@) == sorted_texts(views(items@)),
        res@.len() == items@.len(),
{
    let less = |a: &String, b: &String| -> (r: bool)
        ensures
            r == text_before(a@, b@),
        {
            precedes(a.as_str(), b.as_str())
        };
    proof {
        lemma_sorted_views(items@, string_before_fn(), before_fn());
    }
    sort_by(items, less, Ghost(string_before_fn()))
}

/// Sorted texts are in order.
pub proof fn texts_sort(items: Seq<Seq<char>>)
    ensures
        in_order(sorted_texts(items), before_fn()),
        sorted_texts(items).to_multiset() == items.to_multiset(),
        sorted_texts(items).len() == items.len(),
{
    let lt = before_fn();
    assert forall|a: Seq<char>, b: Seq<char>| #[trigger] lt(a, b) implies !lt(b, a) by {
        text_order(a, b, a);
    }
    assert forall|a: Seq<char>, b: Seq<char>, c: Seq<char>|
        !(#[trigger] lt(b, a)) && !(#[trigger] lt(c, b)) implies !lt(c, a) by {
        text_order(a, b, c);
    }
    sorting_sorts(items, lt);
}

/// `items` without those that equal the one before them.
pub open spec fn deduped(items: Seq<Seq<char>>) -> Seq<Seq<char>>
    decreases items.len(),
{
    if items.len() <= 1 {
        items
    } else if items[items.len() - 2] == items.last() {
        deduped(items.drop_last())
    } else {
        deduped(items.drop_last()).push(items.last())
    }
}

/// Drops the texts that equal the one before them.
pub fn dedup_texts(items: Vec<String>) -> (res: Vec<String>)
    ensures
        views(res@) == deduped(views(items@)),
{
    let ghost all = views(items@);
    let mut out: Vec<String> = Vec::new();
    let mut i: usize = 0;
    assert(all.take(0) =~= Seq::empty());
    while i < items.len()
        invariant
            i <= items@.len(),
            all == views(items@),
            views(out@) == deduped(all.take(i as int)),
        decreases items@.len() - i,
    {
        broadcast use lemma_views_push;

        let ghost next = all.take(i + 1);
        assert(next.drop_last() =~= all.take(i as int));
        assert(next.last() == items@[i as int]@);
        if i == 0 {
            out.push(items[i].clone());
            assert(views(out@) =~= next);
        } else {
            assert(next[next.len() - 2] == items@[i - 1]@);
            if !same(items[i - 1].as_str(), items[i].as_str()) {
                out.push(items[i].clone());
            }
        }
        i += 1;
    }
    assert(all.take(items@.len() as int) =~= all);
    out
}

/// What is sorted and then freed of repeats holds every text once, and no other.
pub proof fn repeats_are_left_out(items: Seq<Seq<char>>, item: Seq<char>)
    ensures
        deduped(sorted_texts(items)).contains(item) <==> items.contains(item),
        deduped(sorted_texts(items)).no_duplicates(),
{
    let sorted = sorted_texts(items);
    texts_sort(items);
    lemma_deduped(sorted, item);
    lemma_deduped_ordered(sorted);
    broadcast use vstd::seq_lib::group_to_multiset_ensures;

    assert(sorted.contains(item) <==> sorted.to_multiset().contains(item));
    assert(items.contains(item) <==> items.to_multiset().contains(item));
}

proof fn lemma_deduped(items: Seq<Seq<char>>, item: Seq<char>)
    ensures
        deduped(items).contains(item) <==> items.contains(item),
        items.len() > 0 ==> deduped(items).len() > 0 && deduped(items).last() == items.last(),
    decreases items.len(),
{
    if items.len() > 1 {
        let rest = items.drop_last();
        lemma_deduped(rest, item);
        let before = deduped(rest);
        assert(rest.last() == items[items.len() - 2]);
        if items.contains(item) {
            let k = choose|k: int| 0 <= k < items.len() && items[k] == item;
            if k < rest.len() {
                assert(rest[k] == item);
            } else if items[items.len() - 2] == items.last() {
                assert(rest[rest.len() - 1] == item);
            }
        }
        if rest.contains(item) {
            let k = choose|k: int| 0 <= k < rest.len() && rest[k] == item;
            assert(items[k] == item);
        }
        if items[items.len() - 2] != items.last() {
            let after = before.push(items.last());
            assert(after[before.len() as int] == items.last());
            if before.contains(item) {
                let k = choose|k: int| 0 <= k < before.len() && before[k] == item;
                assert(after[k] == item);
            }
            if after.contains(item) && !before.contains(item) {
                let k = choose|k: int| 0 <= k < after.len() && after[k] == item;
                if k < before.len() {
                    assert(before[k] == item);
                }
                assert(items[items.len() - 1] == item);
            }
        }
    }
}

proof fn lemma_deduped_ordered(items: Seq<Seq<char>>)
    requires
        in_order(items, before_fn()),
    ensures
        deduped(items).no_duplicates(),
    decreases items.len(),
{
    if items.len() > 1 {
        let rest = items.drop_last();
        let last = items.last();
        assert forall|i: int, j: int| 0 <= i < j < rest.len() implies !before_fn()(
            #[trigger] rest[j],
            #[trigger] rest[i],
        ) by {
            assert(rest[i] == items[i] && rest[j] == items[j]);
        }
        lemma_deduped_ordered(rest);
        if items[items.len() - 2] != last {
            let before = deduped(rest);
            assert(!before.contains(last)) by {
                if before.contains(last) {
                    lemma_deduped(rest, last);
                    let k = choose|k: int| 0 <= k < rest.len() && rest[k] == last;
                    let near = items[items.len() - 2];
                    assert(rest[rest.len() - 1] == near);
                    if k < rest.len() - 1 {
                        assert(!before_fn()(rest[rest.len() - 1], rest[k]));
                        assert(!before_fn()(items[items.len() - 1], items[items.len() - 2]));
                        text_order(near, last, near);
                    }
                }
            }
            let after = before.push(last);
            assert forall|i: int, j: int|
                0 <= i < after.len() && 0 <= j < after.len() && i != j implies after[i]
                != after[j] by {
                if i < before.len() && j < before.len() {
                    assert(before[i] == after[i] && before[j] == after[j]);
                } else if i < before.len() {
                    assert(before.contains(after[i]));
                } else if j < before.len() {
                    assert(before.contains(after[j]));
                }
            }
        }
    }
}

} // verus!
