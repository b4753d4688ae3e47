//! The pending list: items neither submitted nor overdue, earliest deadline
//! first, and the headline counts of a list.

use vstd::prelude::*;
use crate::models::{
    sort_key, spec_deadline_display, spec_is_overdue, spec_remain_text, spec_urgency, HomeworkItem,
    Urgency,
};
use crate::time::now_naive_local;

verus! {

/// An item still to be done at wall-clock time `now`.
pub open spec fn is_pending(item: HomeworkItem, now: int) -> bool {
    !item.submitted && !spec_is_overdue(item.deadline, now)
}

/// Item `a` comes before item `b` in the pending list: an earlier deadline, or
/// the same deadline and an earlier place in the input.
pub open spec fn comes_before(items: Seq<HomeworkItem>, a: int, b: int) -> bool {
    sort_key(items[a].deadline) < sort_key(items[b].deadline) || (sort_key(items[a].deadline)
        == sort_key(items[b].deadline) && a < b)
}

/// `order` lists the positions of exactly the items that `keep` selects, each
/// once, by deadline, and in input order among equal deadlines (a stable
/// sort).
pub open spec fn is_stable_selection(
    items: Seq<HomeworkItem>,
    keep: spec_fn(int) -> bool,
    order: Seq<int>,
) -> bool {
    &&& forall|i: int| 0 <= i < order.len() ==> 0 <= #[trigger] order[i] < items.len()
    &&& forall|k: int| 0 <= k < items.len() ==> (keep(k) <==> order.contains(k))
    &&& forall|i: int, j: int|
        0 <= i < j < order.len() ==> comes_before(items, #[trigger] order[i], #[trigger] order[j])
}

/// `order` lists the positions of exactly the pending items, each once, by
/// deadline, and in input order among equal deadlines.
pub open spec fn is_pending_order(items: Seq<HomeworkItem>, now: int, order: Seq<int>) -> bool {
    is_stable_selection(items, |k: int| is_pending(items[k], now), order)
}

/// `order` lists every position once, by deadline, and in input order among
/// equal deadlines.
pub open spec fn is_deadline_order(items: Seq<HomeworkItem>, order: Seq<int>) -> bool {
    is_stable_selection(items, |k: int| true, order)
}

pub open spec fn usize_seq_to_int(s: Seq<usize>) -> Seq<int> {
    s.map_values(|x: usize| x as int)
}

/// Positions of the selected items, earliest deadline first, in input order
/// among equal deadlines.
fn stable_order(items: &[HomeworkItem], keep: &Vec<bool>) -> (r: Vec<usize>)
    requires
        keep@.len() == items@.len(),
    ensures
        is_stable_selection(items@, |k: int| keep@[k], usize_seq_to_int(r@)),
{
    let mut r: Vec<usize> = Vec::new();
    let mut k: usize = 0;
    while k < items.len()
        invariant
            k <= items@.len(),
            forall|i: int| 0 <= i < r@.len() ==> (#[trigger] r@[i] as int) < k,
            forall|m: int|
                0 <= m < items@.len() ==> ((m < k && keep@[m])
                    <==> usize_seq_to_int(r@).contains(m)),
            keep@.len() == items@.len(),
            forall|i: int, j: int|
                0 <= i < j < r@.len() ==> comes_before(
                    items@,
                    #[trigger] r@[i] as int,
                    #[trigger] r@[j] as int,
                ),
        decreases items@.len() - k,
    {
        let item = &items[k];
        if keep[k] {
            let key = item.deadline_sort_key();
            let mut p: usize = 0;
            while p < r.len() && items[r[p]].deadline_sort_key() <= key
                invariant
                    p <= r@.len(),
                    forall|i: int| 0 <= i < r@.len() ==> (#[trigger] r@[i] as int) < k,
                    k < items@.len(),
                    key as int == sort_key(items@[k as int].deadline),
                    forall|q: int| 0 <= q < p ==> sort_key(items@[#[trigger] r@[q] as int].deadline) <= key,
                decreases r@.len() - p,
            {
                p += 1;
            }
            // every later entry has a later deadline than the new one
            assert forall|q: int| p <= q < r@.len() implies sort_key(
                items@[#[trigger] r@[q] as int].deadline,
            ) > key by {
                if q > p as int {
                    assert(comes_before(items@, r@[p as int] as int, r@[q] as int));
                }
            }
            let ghost old_r = r@;
            r.insert(p, k);
            assert(r@ == old_r.insert(p as int, k));
            let ghost oi = usize_seq_to_int(old_r);
            let ghost ni = usize_seq_to_int(r@);
            assert(ni.len() == oi.len() + 1);
            assert forall|i: int| 0 <= i < ni.len() implies #[trigger] ni[i] == (if i < p {
                oi[i]
            } else if i == p {
                k as int
            } else {
                oi[i - 1]
            }) by {}
            assert forall|m: int|
                0 <= m < items@.len() implies ((m < k + 1 && keep@[m])
                <==> ni.contains(m)) by {
                if ni.contains(m) {
                    let i = choose|i: int| 0 <= i < ni.len() && ni[i] == m;
                    if i < p {
                        assert(oi[i] == m);
                        assert(oi.contains(m));
                    } else if i > p {
                        assert(oi[i - 1] == m);
                        assert(oi.contains(m));
                    } else {
                        assert(m == k);
                    }
                }
                if m < k + 1 && keep@[m] {
                    if m == k {
                        assert(ni[p as int] == m);
                    } else {
                        assert(oi.contains(m));
                        let i = choose|i: int| 0 <= i < oi.len() && oi[i] == m;
                        if i < p {
                            assert(ni[i] == m);
                        } else {
                            assert(ni[i + 1] == m);
                        }
                    }
                }
            }
        } else {
            assert forall|m: int|
                0 <= m < items@.len() implies ((m < k + 1 && keep@[m])
                <==> usize_seq_to_int(r@).contains(m)) by {
                if m == k && usize_seq_to_int(r@).contains(m) {
                    let i = choose|i: int| 0 <= i < usize_seq_to_int(r@).len() && usize_seq_to_int(r@)[i] == m;
                    assert(r@[i] < k);
                }
            }
        }
        k += 1;
    }
    r
}

/// Positions of the pending items at wall-clock time `now`, earliest deadline
/// first, in input order among equal deadlines.
pub fn pending_order_at(items: &[HomeworkItem], now: i128) -> (r: Vec<usize>)
    ensures
        is_pending_order(items@, now as int, usize_seq_to_int(r@)),
{
    let mut keep: Vec<bool> = Vec::new();
    let mut k: usize = 0;
    while k < items.len()
        invariant
            k <= items@.len(),
            keep@.len() == k,
            forall|m: int| 0 <= m < k ==> keep@[m] == is_pending(items@[m], now as int),
        decreases items@.len() - k,
    {
        keep.push(!items[k].submitted && !items[k].is_overdue_at(now));
        k += 1;
    }
    let r = stable_order(items, &keep);
    assert(is_pending_order(items@, now as int, usize_seq_to_int(r@)));
    r
}

/// A copy of an item.
pub fn copy_item(h: &HomeworkItem) -> (r: HomeworkItem)
    ensures
        r == *h,
{
    HomeworkItem {
        title: h.title.clone(),
        course: h.course.clone(),
        deadline: h.deadline,
        platform: h.platform.clone(),
        submitted: h.submitted,
        url: h.url.clone(),
    }
}

/// The items ordered by deadline, a missing deadline last, in input order
/// among equal deadlines (a stable sort).
pub fn sort_by_deadline(items: Vec<HomeworkItem>) -> (r: Vec<HomeworkItem>)
    ensures
        exists|order: Seq<int>|
            #![auto]
            is_deadline_order(items@, order) && r@.len() == order.len() && forall|i: int|
                0 <= i < order.len() ==> r@[i] == items@[order[i]],
{
    let mut keep: Vec<bool> = Vec::new();
    let mut k: usize = 0;
    while k < items.len()
        invariant
            k <= items@.len(),
            keep@.len() == k,
            forall|m: int| 0 <= m < k ==> keep@[m],
        decreases items@.len() - k,
    {
        keep.push(true);
        k += 1;
    }
    let order = stable_order(items.as_slice(), &keep);
    assert(is_deadline_order(items@, usize_seq_to_int(order@)));
    let mut r: Vec<HomeworkItem> = Vec::new();
    let mut i: usize = 0;
    while i < order.len()
        invariant
            i <= order@.len(),
            r@.len() == i,
            is_deadline_order(items@, usize_seq_to_int(order@)),
            forall|j: int| 0 <= j < i ==> r@[j] == items@[#[trigger] order@[j] as int],
        decreases order@.len() - i,
    {
        assert(usize_seq_to_int(order@)[i as int] == order@[i as int] as int);
        r.push(copy_item(&items[order[i]]));
        i += 1;
    }
    assert forall|j: int| 0 <= j < order@.len() implies r@[j] == items@[#[trigger] usize_seq_to_int(order@)[j]] by {
        assert(usize_seq_to_int(order@)[j] == order@[j] as int);
    }
    r
}

/// The pending items at wall-clock time `now`, earliest deadline first.
pub fn pending_sorted_by_deadline_at(items: &[HomeworkItem], now: i128) -> (r: Vec<&HomeworkItem>)
    ensures
        exists|order: Seq<int>|
            #![auto]
            is_pending_order(items@, now as int, order) && r@.len() == order.len() && forall|i: int|
                0 <= i < order.len() ==> *r@[i] == items@[order[i]],
{
    let order = pending_order_at(items, now);
    let mut r: Vec<&HomeworkItem> = Vec::new();
    let mut i: usize = 0;
    while i < order.len()
        invariant
            i <= order@.len(),
            r@.len() == i,
            is_pending_order(items@, now as int, usize_seq_to_int(order@)),
            forall|j: int| 0 <= j < i ==> *r@[j] == items@[#[trigger] order@[j] as int],
        decreases order@.len() - i,
    {
        assert(usize_seq_to_int(order@)[i as int] == order@[i as int] as int);
        r.push(&items[order[i]]);
        i += 1;
    }
    assert forall|j: int| 0 <= j < order@.len() implies *r@[j] == items@[#[trigger] usize_seq_to_int(order@)[j]] by {
        assert(usize_seq_to_int(order@)[j] == order@[j] as int);
    }
    r
}

/// The pending items now, earliest deadline first.
pub fn pending_sorted_by_deadline(items: &[HomeworkItem]) -> (r: Vec<&HomeworkItem>)
    ensures
        exists|now: i128, order: Seq<int>|
            #![auto]
            is_pending_order(items@, now as int, order) && r@.len() == order.len() && forall|i: int|
                0 <= i < order.len() ==> *r@[i] == items@[order[i]],
{
    let now = now_naive_local();
    pending_sorted_by_deadline_at(items, now)
}

/// The pending list is determined by the items and the time: two orders that
/// both list exactly the pending items by deadline, stably, are the same.
pub proof fn lemma_pending_order_unique(
    items: Seq<HomeworkItem>,
    now: int,
    o1: Seq<int>,
    o2: Seq<int>,
)
    requires
        is_pending_order(items, now, o1),
        is_pending_order(items, now, o2),
    ensures
        o1 == o2,
{
    lemma_selection_unique(items, |k: int| is_pending(items[k], now), o1, o2);
}

/// A stable sort by deadline is determined by its input: two orders that both
/// list every item by deadline, stably, are the same.
pub proof fn lemma_deadline_order_unique(items: Seq<HomeworkItem>, o1: Seq<int>, o2: Seq<int>)
    requires
        is_deadline_order(items, o1),
        is_deadline_order(items, o2),
    ensures
        o1 == o2,
{
    lemma_selection_unique(items, |k: int| true, o1, o2);
}

proof fn lemma_selection_unique(
    items: Seq<HomeworkItem>,
    keep: spec_fn(int) -> bool,
    o1: Seq<int>,
    o2: Seq<int>,
)
    requires
        is_stable_selection(items, keep, o1),
        is_stable_selection(items, keep, o2),
    ensures
        o1 == o2,
{
    assert forall|i: int| 0 <= i < o1.len() implies o2.contains(#[trigger] o1[i]) by {
        assert(o1.contains(o1[i]));
    }
    assert forall|i: int| 0 <= i < o2.len() implies o1.contains(#[trigger] o2[i]) by {
        assert(o2.contains(o2[i]));
    }
    lemma_orders_agree(items, keep, o1, o2, 0);
}

proof fn lemma_orders_agree(
    items: Seq<HomeworkItem>,
    keep: spec_fn(int) -> bool,
    o1: Seq<int>,
    o2: Seq<int>,
    n: int,
)
    requires
        is_stable_selection(items, keep, o1),
        is_stable_selection(items, keep, o2),
        forall|i: int| 0 <= i < o1.len() ==> o2.contains(#[trigger] o1[i]),
        forall|i: int| 0 <= i < o2.len() ==> o1.contains(#[trigger] o2[i]),
        0 <= n,
        forall|i: int| 0 <= i < n && i < o1.len() && i < o2.len() ==> o1[i] == o2[i],
        n <= o1.len() && n <= o2.len(),
    ensures
        o1 == o2,
    decreases o1.len() + o2.len() - 2 * n,
{
    if n == o1.len() && n == o2.len() {
        assert(o1 =~= o2);
    } else if n == o1.len() {
        // o2 has an entry that o1 lacks
        let x = o2[n];
        assert(o1.contains(x));
        let j = choose|j: int| 0 <= j < o1.len() && o1[j] == x;
        assert(o2[j] == o1[j]);
        assert(comes_before(items, o2[j], o2[n]));
    } else if n == o2.len() {
        let x = o1[n];
        assert(o2.contains(x));
        let j = choose|j: int| 0 <= j < o2.len() && o2[j] == x;
        assert(o1[j] == o2[j]);
        assert(comes_before(items, o1[j], o1[n]));
    } else {
        if o1[n] != o2[n] {
            let a = o1[n];
            let b = o2[n];
            assert(o2.contains(a));
            let j = choose|j: int| 0 <= j < o2.len() && o2[j] == a;
            assert(o1.contains(b));
            let l = choose|l: int| 0 <= l < o1.len() && o1[l] == b;
            if j < n {
                assert(o1[j] == o2[j]);
                assert(comes_before(items, o1[j], o1[n]));
            } else if l < n {
                assert(o1[l] == o2[l]);
                assert(comes_before(items, o2[l], o2[n]));
            } else {
                assert(comes_before(items, o2[n], o2[j]));
                assert(comes_before(items, o1[n], o1[l]));
            }
        }
        lemma_orders_agree(items, keep, o1, o2, n + 1);
    }
}

/// Number of items not yet submitted and not overdue at `now`.
pub open spec fn count_pending(items: Seq<HomeworkItem>, now: int) -> nat
    decreases items.len(),
{
    if items.len() == 0 {
        0
    } else {
        count_pending(items.drop_last(), now) + if is_pending(items.last(), now) { 1nat } else { 0nat }
    }
}

/// Number of pending items due within six hours of `now`.
pub open spec fn count_urgent(items: Seq<HomeworkItem>, now: int) -> nat
    decreases items.len(),
{
    if items.len() == 0 {
        0
    } else {
        count_urgent(items.drop_last(), now) + if is_pending(items.last(), now) && spec_urgency(
            items.last().deadline,
            now,
        ) == Urgency::Urgent { 1nat } else { 0nat }
    }
}

/// Number of submitted items.
pub open spec fn count_done(items: Seq<HomeworkItem>) -> nat
    decreases items.len(),
{
    if items.len() == 0 {
        0
    } else {
        count_done(items.drop_last()) + if items.last().submitted { 1nat } else { 0nat }
    }
}

/// The headline counts of a homework list.
pub struct HwStatsC {
    pub total: i32,
    pub pending: i32,
    pub urgent: i32,
    pub done: i32,
}

/// The headline counts at wall-clock time `now`: all items, pending ones,
/// pending ones due within six hours, submitted ones; each count as an `i32`
/// (cut to 32 bits beyond `i32::MAX`).
pub fn homework_stats_at(items: &[HomeworkItem], now: i128) -> (r: HwStatsC)
    ensures
        r.total == items@.len() as i32,
        r.pending == count_pending(items@, now as int) as i32,
        r.urgent == count_urgent(items@, now as int) as i32,
        r.done == count_done(items@) as i32,
{
    let mut pending: usize = 0;
    let mut urgent: usize = 0;
    let mut done: usize = 0;
    let mut i: usize = 0;
    while i < items.len()
        invariant
            i <= items@.len(),
            pending as int == count_pending(items@.take(i as int), now as int),
            urgent as int == count_urgent(items@.take(i as int), now as int),
            done as int == count_done(items@.take(i as int)),
        decreases items@.len() - i,
    {
        proof {
            lemma_stats_consistent(items@.take(i as int), now as int);
            assert(items@.take(i + 1).drop_last() =~= items@.take(i as int));
        }
        let item = &items[i];
        let p = !item.submitted && !item.is_overdue_at(now);
        if p {
            pending += 1;
            if item.urgency_at(now) == Urgency::Urgent {
                urgent += 1;
            }
        }
        if item.submitted {
            done += 1;
        }
        i += 1;
    }
    assert(items@.take(items@.len() as int) =~= items@);
    HwStatsC { total: items.len() as i32, pending: pending as i32, urgent: urgent as i32, done: done as i32 }
}

/// The headline counts now.
pub fn homework_stats(items: &[HomeworkItem]) -> (r: HwStatsC)
    ensures
        exists|now: i128|
            r.total == items@.len() as i32 && r.pending == count_pending(items@, now as int) as i32
                && r.urgent == count_urgent(items@, now as int) as i32 && r.done == count_done(items@)
                as i32,
{
    let now = now_naive_local();
    homework_stats_at(items, now)
}

/// The pending list as shown and the headline counts, both at one reading of
/// the clock.
pub fn rows_and_stats(items: &[HomeworkItem]) -> (r: (Vec<DisplayRow>, HwStatsC))
    ensures
        exists|now: i128, order: Seq<int>|
            #![auto]
            is_pending_order(items@, now as int, order) && r.0@.len() == order.len() && (forall|i: int|
                0 <= i < order.len() ==> row_shows(r.0@[i], items@[order[i]], now as int))
                && r.1.total == items@.len() as i32 && r.1.pending == count_pending(items@, now as int)
                as i32 && r.1.urgent == count_urgent(items@, now as int) as i32 && r.1.done
                == count_done(items@) as i32,
{
    let now = now_naive_local();
    let rows = display_rows_at(items, now);
    let stats = homework_stats_at(items, now);
    (rows, stats)
}

/// The positions below `n` of the items pending at `now`.
pub open spec fn pending_positions(items: Seq<HomeworkItem>, now: int, n: int) -> Set<int> {
    Set::new(|k: int| 0 <= k < n && is_pending(items[k], now))
}

proof fn lemma_count_is_positions(items: Seq<HomeworkItem>, now: int, n: int)
    requires
        0 <= n <= items.len(),
    ensures
        pending_positions(items, now, n).finite(),
        pending_positions(items, now, n).len() == count_pending(items.take(n), now),
    decreases n,
{
    let s = pending_positions(items, now, n);
    if n == 0 {
        assert(s =~= Set::<int>::empty());
    } else {
        lemma_count_is_positions(items, now, n - 1);
        let p = pending_positions(items, now, n - 1);
        assert(items.take(n).drop_last() =~= items.take(n - 1));
        assert(items.take(n).last() == items[n - 1]);
        if is_pending(items[n - 1], now) {
            assert(s =~= p.insert(n - 1));
        } else {
            assert(s =~= p);
        }
    }
}

/// The pending list has one entry per pending item: as many as the headline
/// count of pending items.
pub proof fn lemma_pending_list_matches_count(items: Seq<HomeworkItem>, now: int, order: Seq<int>)
    requires
        is_pending_order(items, now, order),
    ensures
        order.len() == count_pending(items, now),
{
    assert(order.no_duplicates()) by {
        assert forall|i: int, j: int| 0 <= i < order.len() && 0 <= j < order.len() && i != j implies order[i] != order[j] by {
            if i < j {
                assert(comes_before(items, order[i], order[j]));
            } else {
                assert(comes_before(items, order[j], order[i]));
            }
        }
    }
    order.unique_seq_to_set();
    lemma_count_is_positions(items, now, items.len() as int);
    assert(items.take(items.len() as int) =~= items);
    assert(order.to_set() =~= pending_positions(items, now, items.len() as int)) by {
        assert forall|k: int| #[trigger] order.to_set().contains(k) implies pending_positions(items, now, items.len() as int).contains(k) by {
            let i = choose|i: int| 0 <= i < order.len() && order[i] == k;
            assert(0 <= order[i] < items.len());
            assert(order.contains(k));
        }
        assert forall|k: int| #[trigger] pending_positions(items, now, items.len() as int).contains(k) implies order.to_set().contains(k) by {
            assert((|k: int| is_pending(items[k], now))(k));
        }
    }
}

/// Among the counts, the urgent items are a part of the pending ones, and
/// pending and submitted items together are at most all items.
pub proof fn lemma_stats_consistent(items: Seq<HomeworkItem>, now: int)
    ensures
        count_urgent(items, now) <= count_pending(items, now),
        count_pending(items, now) + count_done(items) <= items.len(),
    decreases items.len(),
{
    if items.len() > 0 {
        lemma_stats_consistent(items.drop_last(), now);
    }
}

/// One line of the pending list as shown: the item's texts, its deadline and
/// remaining time, and its urgency's label and colours.
pub struct DisplayRow {
    pub title: String,
    pub course: String,
    pub platform: String,
    pub deadline: String,
    pub remain: String,
    pub color: &'static str,
    pub bg_color: &'static str,
    pub urgency_label: &'static str,
    pub urgency: Urgency,
    pub url: String,
}

/// The line shown for an item at wall-clock time `now` (an empty remaining
/// time where there is none).
pub open spec fn row_shows(r: DisplayRow, h: HomeworkItem, now: int) -> bool {
    &&& r.title@ == h.title@
    &&& r.course@ == h.course@
    &&& r.platform@ == h.platform@
    &&& r.deadline@ == spec_deadline_display(h.deadline)
    &&& r.remain@ == match spec_remain_text(h.deadline, now) {
        Some(t) => t,
        None => Seq::empty(),
    }
    &&& r.urgency == spec_urgency(h.deadline, now)
    &&& r.urgency_label == r.urgency.label_str()
    &&& r.color == r.urgency.color_str()
    &&& r.bg_color == r.urgency.bg_color_str()
    &&& r.url@ == h.url@
}

/// The pending list as shown at wall-clock time `now`, earliest deadline
/// first.
pub fn display_rows_at(items: &[HomeworkItem], now: i128) -> (r: Vec<DisplayRow>)
    ensures
        exists|order: Seq<int>|
            #![auto]
            is_pending_order(items@, now as int, order) && r@.len() == order.len() && forall|i: int|
                0 <= i < order.len() ==> row_shows(r@[i], items@[order[i]], now as int),
{
    let order = pending_order_at(items, now);
    let mut r: Vec<DisplayRow> = Vec::new();
    let mut i: usize = 0;
    while i < order.len()
        invariant
            i <= order@.len(),
            r@.len() == i,
            is_pending_order(items@, now as int, usize_seq_to_int(order@)),
            forall|j: int| 0 <= j < i ==> row_shows(r@[j], items@[#[trigger] order@[j] as int], now as int),
        decreases order@.len() - i,
    {
        assert(usize_seq_to_int(order@)[i as int] == order@[i as int] as int);
        let h = &items[order[i]];
        let u = h.urgency_at(now);
        let remain = match h.remain_text_at(now) {
            Some(t) => t,
            None => String::new(),
        };
        r.push(DisplayRow {
            title: h.title.clone(),
            course: h.course.clone(),
            platform: h.platform.clone(),
            deadline: h.deadline_display(),
            remain,
            color: u.color(),
            bg_color: u.bg_color(),
            urgency_label: u.label(),
            urgency: u,
            url: h.url.clone(),
        });
        i += 1;
    }
    assert forall|j: int| 0 <= j < order@.len() implies row_shows(r@[j], items@[#[trigger] usize_seq_to_int(order@)[j]], now as int) by {
        assert(usize_seq_to_int(order@)[j] == order@[j] as int);
    }
    r
}

/// The pending list as shown now.
pub fn display_rows(items: &[HomeworkItem]) -> (r: Vec<DisplayRow>)
    ensures
        exists|now: i128, order: Seq<int>|
            #![auto]
            is_pending_order(items@, now as int, order) && r@.len() == order.len() && forall|i: int|
                0 <= i < order.len() ==> row_shows(r@[i], items@[order[i]], now as int),
{
    let now = now_naive_local();
    display_rows_at(items, now)
}

/// An item that counts as urgent at `now`: not submitted, not overdue, and
/// due within six hours.
pub open spec fn due_within_six_hours(h: HomeworkItem, now: int) -> bool {
    &&& !h.submitted
    &&& h.deadline matches Some(d)
    &&& now <= d && d - now <= crate::models::six_hours()
}

/// The headline counts count what they say: the pending count is the number
/// of items neither submitted nor overdue, the urgent count the number of
/// those due within six hours (an item due later, or overdue, or submitted,
/// adds nothing to it), and the done count the number of submitted items.
pub proof fn lemma_counts_count(items: Seq<HomeworkItem>, now: int)
    ensures
        count_pending(items, now) == items.filter(|h: HomeworkItem| !h.submitted && !spec_is_overdue(h.deadline, now)).len(),
        count_urgent(items, now) == items.filter(|h: HomeworkItem| due_within_six_hours(h, now)).len(),
        count_done(items) == items.filter(|h: HomeworkItem| h.submitted).len(),
    decreases items.len(),
{
    reveal(Seq::filter);
    if items.len() > 0 {
        lemma_counts_count(items.drop_last(), now);
    }
}

} // verus!
