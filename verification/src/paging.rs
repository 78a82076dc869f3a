//! Pages of longer lists.
use crate::models::Page;
use crate::text::views;
use vstd::prelude::*;

verus! {

/// The most items on a page.
pub const MAX_PAGE_SIZE: usize = 5000;

/// As many of the first items as `limit` allows.
pub open spec fn at_most<T>(items: Seq<T>, limit: nat) -> Seq<T> {
    if items.len() > limit {
        items.take(limit as int)
    } else {
        items
    }
}

/// As many of the first items as `limit` allows.
pub fn keep_first<T: View>(items: Vec<T>, limit: usize) -> (res: Vec<T>)
    ensures
        res@ == at_most(items@, limit as nat),
        views(res@) == at_most(views(items@), limit as nat),
{
    let mut kept = items;
    if kept.len() > limit {
        kept.truncate(limit);
    }
    assert(views(kept@) =~= at_most(views(items@), limit as nat));
    kept
}

/// The size of a page: the one asked for, within bounds.
pub open spec fn page_size(limit: usize) -> usize {
    if limit < 1 {
        1
    } else if limit > MAX_PAGE_SIZE {
        MAX_PAGE_SIZE
    } else {
        limit
    }
}

pub fn page_limit(limit: usize) -> (res: usize)
    ensures
        res == page_size(limit),
        1 <= res <= MAX_PAGE_SIZE,
{
    if limit < 1 {
        1
    } else if limit > MAX_PAGE_SIZE {
        MAX_PAGE_SIZE
    } else {
        limit
    }
}

/// Whether `page` shows the first `limit` of `items`, and says whether there are more.
pub open spec fn shows<T: View>(page: Page<T>, items: Seq<T::V>, limit: usize) -> bool {
    &&& views(page.items@) == at_most(items, limit as nat)
    &&& page.has_more == (items.len() > limit)
}

/// The first `limit` items.
pub fn page<T: View>(items: Vec<T>, limit: usize) -> (res: Page<T>)
    ensures
        shows(res, views(items@), limit),
{
    let has_more = items.len() > limit;
    Page { items: keep_first(items, limit), has_more }
}

/// The number of the first line of a page, counted from one.
pub open spec fn first_line(offset: usize) -> usize {
    offset.saturating_add(1)
}

/// The number of the last line that is fetched for a page: one more than it shows, to tell
/// whether there are more.
pub open spec fn last_line(offset: usize, limit: usize) -> usize {
    offset.saturating_add(limit).saturating_add(1)
}

/// A page never shows more than it may.
pub proof fn pages_are_bounded<T: View>(page: Page<T>, items: Seq<T::V>, limit: usize)
    requires
        shows(page, items, page_size(limit)),
    ensures
        page.items@.len() <= MAX_PAGE_SIZE,
        page.has_more <==> page.items@.len() < items.len(),
{
    assert(views(page.items@).len() == page.items@.len());
}

/// A page begins behind the items before it and shows as many as were asked for, within one
/// and five thousand. One line more is fetched than is shown, and that line is the first of
/// the next page.
pub proof fn pages_follow_each_other(offset: usize, limit: usize)
    requires
        offset + 5001 <= usize::MAX,
    ensures
        1 <= limit <= 5000 ==> page_size(limit) == limit,
        limit < 1 ==> page_size(limit) == 1,
        limit > 5000 ==> page_size(limit) == 5000,
        first_line(offset) == offset + 1,
        last_line(offset, page_size(limit)) - first_line(offset) == page_size(limit),
        last_line(offset, page_size(limit)) == first_line((offset + page_size(limit)) as usize),
{
}

/// A page shows the first items, in order and unchanged, and none is missing where it says
/// that there are no more.
pub proof fn pages_show_the_first_items<T: View>(page: Page<T>, items: Seq<T::V>, limit: usize)
    requires
        shows(page, items, limit),
    ensures
        forall|i: int|
            0 <= i < page.items@.len() ==> i < items.len() && (#[trigger] page.items@[i])@
                == items[i],
        page.items@.len() <= limit,
        page.has_more ==> page.items@.len() == limit && items.len() > limit,
        !page.has_more ==> page.items@.len() == items.len(),
{
    assert(views(page.items@).len() == page.items@.len());
    assert forall|i: int| 0 <= i < page.items@.len() implies i < items.len()
        && (#[trigger] page.items@[i])@ == items[i] by {
        assert(views(page.items@)[i] == page.items@[i]@);
    }
}

} // verus!
