//! Publish times: reading them, writing them, and listing dated entries newest first.

use vstd::prelude::*;

verus! {

/// The moment that an RFC 3339 text names, as seconds since 1970-01-01T00:00:00Z and
/// nanoseconds within that second, if it names one. A leap second is the second before it with
/// another 1,000,000,000 nanoseconds.
pub uninterp spec fn rfc3339_instant(text: Seq<char>) -> Option<(i64, u32)>;

/// The RFC 3339 text of a moment, in UTC.
pub uninterp spec fn instant_text(seconds: i64, nanos: u32) -> Seq<char>;

/// The moments that an RFC 3339 text can name: four-digit years, give or take the day that an
/// offset moves them.
pub open spec fn nameable(seconds: i64, nanos: u32) -> bool {
    &&& -62_167_305_600 <= seconds <= 253_402_387_199
    &&& nanos < 2_000_000_000
    &&& nanos >= 1_000_000_000 ==> seconds as int % 60 == 59
}

/// The moments whose UTC year has four digits.
pub open spec fn four_digit_year(seconds: i64) -> bool {
    -62_167_219_200 <= seconds <= 253_402_300_799
}

/// `chrono::DateTime::parse_from_rfc3339`, turned into UTC: which texts name a moment, and which
/// one, is named and not stated. The moment is within the bounds of a four-digit year and an
/// offset of less than a day, and has a leap second's nanoseconds only at the end of a minute.
#[verifier::external_body]
fn parse_instant(text: &str) -> (instant: Option<(i64, u32)>)
    ensures
        instant == rfc3339_instant(text@),
        match instant {
            Some((seconds, nanos)) => nameable(seconds, nanos),
            None => true,
        },
{
    let parsed = chrono::DateTime::parse_from_rfc3339(text).ok()?;
    let utc = parsed.with_timezone(&chrono::Utc);
    Some((utc.timestamp(), utc.timestamp_subsec_nanos()))
}

/// `chrono::DateTime::to_rfc3339` of the moment that `chrono::DateTime::from_timestamp` makes:
/// what is written is named and not stated, but that a moment of a four-digit year is read back
/// by `chrono::DateTime::parse_from_rfc3339`.
#[verifier::external_body]
fn write_instant(seconds: i64, nanos: u32) -> (text: String)
    requires
        nameable(seconds, nanos),
    ensures
        text@ == instant_text(seconds, nanos),
        four_digit_year(seconds) ==> rfc3339_instant(text@) == Some((seconds, nanos)),
{
    chrono::DateTime::from_timestamp(seconds, nanos).expect("a nameable moment").to_rfc3339()
}

/// A moment that an RFC 3339 text named.
#[derive(Debug, Clone, Copy, PartialEq, Eq)]
pub struct PublishTime {
    seconds: i64,
    nanos: u32,
}

impl View for PublishTime {
    type V = (i64, u32);

    closed spec fn view(&self) -> (i64, u32) {
        (self.seconds, self.nanos)
    }
}

/// The view of an optional moment.
pub open spec fn time_view(time: Option<PublishTime>) -> Option<(i64, u32)> {
    match time {
        Some(time) => Some(time@),
        None => None,
    }
}

impl PublishTime {
    #[verifier::type_invariant]
    spec fn named_once(self) -> bool {
        nameable(self.seconds, self.nanos)
    }

    /// Whole seconds since 1970-01-01T00:00:00Z.
    pub fn seconds(&self) -> (seconds: i64)
        ensures
            seconds == self@.0,
    {
        self.seconds
    }

    /// Nanoseconds within the second.
    pub fn nanos(&self) -> (nanos: u32)
        ensures
            nanos == self@.1,
    {
        self.nanos
    }

    /// The RFC 3339 text of the moment, in UTC.
    pub fn to_rfc3339(&self) -> (text: String)
        ensures
            text@ == instant_text(self@.0, self@.1),
            four_digit_year(self@.0) ==> rfc3339_instant(text@) == Some(self@),
    {
        proof {
            use_type_invariant(self);
        }
        write_instant(self.seconds, self.nanos)
    }
}

/// The moment that an RFC 3339 text names, if it names one.
pub fn gallery_parse_last_updated(value: &str) -> (time: Option<PublishTime>)
    ensures
        time_view(time) == rfc3339_instant(value@),
{
    match parse_instant(value) {
        Some((seconds, nanos)) => Some(PublishTime { seconds, nanos }),
        None => None,
    }
}

/// Whether `a` is later than `b`.
pub open spec fn later(a: (i64, u32), b: (i64, u32)) -> bool {
    a.0 > b.0 || (a.0 == b.0 && a.1 > b.1)
}

/// Whether an entry dated `a` is listed ahead of one dated `b`: newer ahead of older, dated ahead
/// of undated.
pub open spec fn ahead(a: Option<(i64, u32)>, b: Option<(i64, u32)>) -> bool {
    match a {
        Some(a) => match b {
            Some(b) => later(a, b),
            None => true,
        },
        None => false,
    }
}

/// Whether an entry dated `a` is listed ahead of one dated `b`.
fn is_ahead(a: &Option<PublishTime>, b: &Option<PublishTime>) -> (is: bool)
    ensures
        is == ahead(time_view(*a), time_view(*b)),
{
    match a {
        Some(a) => match b {
            Some(b) => a.seconds > b.seconds || (a.seconds == b.seconds && a.nanos > b.nanos),
            None => true,
        },
        None => false,
    }
}

/// Whether the entry at `i` is listed before the one at `j`: entries of one date keep their order.
pub open spec fn precedes(dates: Seq<Option<(i64, u32)>>, i: int, j: int) -> bool {
    ahead(dates[i], dates[j]) || (!ahead(dates[j], dates[i]) && i < j)
}

/// Whether `order` lists places within `from..to`, each before the ones that follow it.
pub open spec fn listed(dates: Seq<Option<(i64, u32)>>, order: Seq<int>, from: int, to: int) -> bool {
    &&& order.len() == to - from
    &&& forall|p: int| 0 <= p < order.len() ==> from <= #[trigger] order[p] < to
    &&& forall|p: int, q: int|
        0 <= p < q < order.len() ==> precedes(dates, #[trigger] order[p], #[trigger] order[q])
}

/// `order` with the place `i` put behind every place that it does not come ahead of.
spec fn placed(dates: Seq<Option<(i64, u32)>>, order: Seq<int>, i: int) -> Seq<int>
    decreases order.len(),
{
    if order.len() > 0 && ahead(dates[i], dates[order.last()]) {
        placed(dates, order.drop_last(), i).push(order.last())
    } else {
        order.push(i)
    }
}

/// The places of `dates`, newest first, undated last, ties in their own order.
pub closed spec fn newest_first(dates: Seq<Option<(i64, u32)>>) -> Seq<int>
    decreases dates.len(),
{
    if dates.len() == 0 {
        Seq::empty()
    } else {
        placed(dates, newest_first(dates.drop_last()), dates.len() - 1)
    }
}

proof fn lemma_placed(dates: Seq<Option<(i64, u32)>>, order: Seq<int>, i: int)
    requires
        0 <= i,
        forall|p: int| 0 <= p < order.len() ==> 0 <= #[trigger] order[p] < i,
        forall|p: int, q: int|
            0 <= p < q < order.len() ==> precedes(dates, #[trigger] order[p], #[trigger] order[q]),
    ensures
        placed(dates, order, i).len() == order.len() + 1,
        forall|p: int| 0 <= p <= order.len() ==> 0 <= #[trigger] placed(dates, order, i)[p] <= i,
        forall|p: int|
            0 <= p <= order.len() ==> (#[trigger] placed(dates, order, i)[p] == i
                || order.contains(placed(dates, order, i)[p])),
        forall|p: int, q: int|
            0 <= p < q <= order.len() ==> precedes(
                dates,
                #[trigger] placed(dates, order, i)[p],
                #[trigger] placed(dates, order, i)[q],
            ),
    decreases order.len(),
{
    if order.len() > 0 && ahead(dates[i], dates[order.last()]) {
        let front = order.drop_last();
        assert forall|p: int, q: int| 0 <= p < q < front.len() implies precedes(
            dates,
            #[trigger] front[p],
            #[trigger] front[q],
        ) by {
            assert(precedes(dates, order[p], order[q]));
        }
        lemma_placed(dates, front, i);
        let inner = placed(dates, front, i);
        let whole = placed(dates, order, i);
        assert(whole =~= inner.push(order.last()));
        assert forall|p: int, q: int| 0 <= p < q <= order.len() implies precedes(
            dates,
            #[trigger] whole[p],
            #[trigger] whole[q],
        ) by {
            if q < inner.len() {
                assert(precedes(dates, inner[p], inner[q]));
            } else {
                assert(whole[q] == order.last());
                if inner[p] != i {
                    let k = choose|k: int| 0 <= k < front.len() && front[k] == inner[p];
                    assert(front.contains(inner[p]));
                    assert(precedes(dates, order[k], order[order.len() - 1]));
                }
            }
        }
        assert forall|p: int| 0 <= p <= order.len() implies (#[trigger] whole[p] == i
            || order.contains(whole[p])) by {
            if p < inner.len() {
                if inner[p] != i {
                    assert(front.contains(inner[p]));
                    let k = choose|k: int| 0 <= k < front.len() && front[k] == inner[p];
                    assert(order[k] == inner[p]);
                }
            } else {
                assert(order[order.len() - 1] == whole[p]);
            }
        }
    } else {
        let whole = placed(dates, order, i);
        assert(whole =~= order.push(i));
        assert forall|p: int, q: int| 0 <= p < q <= order.len() implies precedes(
            dates,
            #[trigger] whole[p],
            #[trigger] whole[q],
        ) by {
            if q < order.len() {
                assert(precedes(dates, order[p], order[q]));
            } else {
                if p < order.len() - 1 {
                    assert(precedes(dates, order[p], order[order.len() - 1]));
                }
            }
        }
        assert forall|p: int| 0 <= p <= order.len() implies (#[trigger] whole[p] == i
            || order.contains(whole[p])) by {
            if p < order.len() {
                assert(order[p] == whole[p]);
            }
        }
    }
}

/// Listing newest first lists every place once, each before the ones that follow it.
pub proof fn newest_first_is_listed(dates: Seq<Option<(i64, u32)>>)
    ensures
        listed(dates, newest_first(dates), 0, dates.len() as int),
    decreases dates.len(),
{
    if dates.len() > 0 {
        let front = dates.drop_last();
        newest_first_is_listed(front);
        let order = newest_first(front);
        assert forall|p: int, q: int| 0 <= p < q < order.len() implies precedes(
            dates,
            #[trigger] order[p],
            #[trigger] order[q],
        ) by {
            assert(precedes(front, order[p], order[q]));
        }
        lemma_placed(dates, order, dates.len() - 1);
    }
}

/// A listing of all places holds every place.
pub proof fn lemma_listed_all(dates: Seq<Option<(i64, u32)>>, order: Seq<int>)
    requires
        listed(dates, order, 0, dates.len() as int),
    ensures
        forall|i: int| 0 <= i < dates.len() ==> #[trigger] order.contains(i),
        order.no_duplicates(),
{
    assert forall|p: int, q: int| 0 <= p < order.len() && 0 <= q < order.len() && p
        != q implies order[p] != order[q] by {
        if p < q {
            assert(precedes(dates, order[p], order[q]));
        } else {
            assert(precedes(dates, order[q], order[p]));
        }
    }
    order.unique_seq_to_set();
    vstd::set_lib::lemma_int_range(0, dates.len() as int);
    let all = vstd::set_lib::set_int_range(0, dates.len() as int);
    assert(order.to_set().subset_of(all));
    vstd::set_lib::lemma_subset_equality(order.to_set(), all);
    assert forall|i: int| 0 <= i < dates.len() implies #[trigger] order.contains(i) by {
        assert(all.contains(i));
        assert(order.to_set().contains(i));
    }
}

/// There is one listing of all places.
pub proof fn lemma_listed_unique(dates: Seq<Option<(i64, u32)>>, a: Seq<int>, b: Seq<int>)
    requires
        listed(dates, a, 0, dates.len() as int),
        listed(dates, b, 0, dates.len() as int),
    ensures
        a == b,
{
    lemma_listed_all(dates, a);
    lemma_listed_all(dates, b);
    assert forall|p: int| 0 <= p <= a.len() implies #[trigger] a.take(p) == b.take(p) by {
        lemma_same_front(dates, a, b, p);
    }
    assert(a.take(a.len() as int) =~= a);
    assert(b.take(a.len() as int) =~= b);
}

proof fn lemma_same_front(dates: Seq<Option<(i64, u32)>>, a: Seq<int>, b: Seq<int>, p: int)
    requires
        listed(dates, a, 0, dates.len() as int),
        listed(dates, b, 0, dates.len() as int),
        forall|i: int| 0 <= i < dates.len() ==> #[trigger] a.contains(i),
        forall|i: int| 0 <= i < dates.len() ==> #[trigger] b.contains(i),
        a.no_duplicates(),
        b.no_duplicates(),
        0 <= p <= a.len(),
    ensures
        a.take(p) == b.take(p),
    decreases p,
{
    if p > 0 {
        lemma_same_front(dates, a, b, p - 1);
        let x = a[p - 1];
        let y = b[p - 1];
        if x != y {
            assert(a.contains(y));
            assert(b.contains(x));
            let at = choose|k: int| 0 <= k < a.len() && a[k] == y;
            let bt = choose|k: int| 0 <= k < b.len() && b[k] == x;
            if at < p - 1 {
                assert(a.take(p - 1)[at] == b.take(p - 1)[at]);
                assert(b[at] == y);
            }
            if bt < p - 1 {
                assert(a.take(p - 1)[bt] == b.take(p - 1)[bt]);
                assert(a[bt] == x);
            }
            assert(precedes(dates, a[p - 1], a[at]));
            assert(precedes(dates, b[p - 1], b[bt]));
        }
        assert(a.take(p) =~= a.take(p - 1).push(x));
        assert(b.take(p) =~= b.take(p - 1).push(y));
    }
}

/// The views of a list of dates.
pub open spec fn date_views(dates: Seq<Option<PublishTime>>) -> Seq<Option<(i64, u32)>> {
    dates.map_values(|date: Option<PublishTime>| time_view(date))
}

/// Places as mathematical integers.
pub open spec fn places(order: Seq<usize>) -> Seq<int> {
    order.map_values(|i: usize| i as int)
}

/// The listing of `from..to` made of the listings of `from..mid` and `mid..to`.
fn merge_listings(
    dates: &Vec<Option<PublishTime>>,
    left: Vec<usize>,
    right: Vec<usize>,
    Ghost(from): Ghost<int>,
    Ghost(mid): Ghost<int>,
    Ghost(to): Ghost<int>,
) -> (merged: Vec<usize>)
    requires
        0 <= from <= mid <= to <= dates@.len(),
        listed(date_views(dates@), places(left@), from, mid),
        listed(date_views(dates@), places(right@), mid, to),
    ensures
        listed(date_views(dates@), places(merged@), from, to),
{
    let ghost keys = date_views(dates@);
    let mut merged: Vec<usize> = Vec::new();
    let mut i: usize = 0;
    let mut j: usize = 0;
    while i < left.len() || j < right.len()
        invariant
            keys == date_views(dates@),
            0 <= from <= mid <= to <= dates@.len(),
            listed(keys, places(left@), from, mid),
            listed(keys, places(right@), mid, to),
            i <= left@.len(),
            j <= right@.len(),
            merged@.len() == i + j,
            forall|p: int| 0 <= p < merged@.len() ==> from <= #[trigger] merged@[p] < to,
            forall|p: int, q: int|
                0 <= p < q < merged@.len() ==> precedes(
                    keys,
                    #[trigger] merged@[p] as int,
                    #[trigger] merged@[q] as int,
                ),
            forall|p: int, q: int|
                0 <= p < merged@.len() && i <= q < left@.len() ==> precedes(
                    keys,
                    #[trigger] merged@[p] as int,
                    #[trigger] left@[q] as int,
                ),
            forall|p: int, q: int|
                0 <= p < merged@.len() && j <= q < right@.len() ==> precedes(
                    keys,
                    #[trigger] merged@[p] as int,
                    #[trigger] right@[q] as int,
                ),
        decreases left@.len() - i + right@.len() - j,
    {
        proof {
            lemma_listed_at(keys, left@, from, mid);
            lemma_listed_at(keys, right@, mid, to);
        }
        let ghost before = merged@;
        let from_right: bool = if i >= left.len() {
            true
        } else if j >= right.len() {
            false
        } else {
            is_ahead(&dates[right[j]], &dates[left[i]])
        };
        if from_right {
            let next: usize = right[j];
            proof {
                assert forall|q: int| i <= q < left@.len() implies precedes(
                    keys,
                    next as int,
                    #[trigger] left@[q] as int,
                ) by {
                    if q > i {
                        assert(precedes(keys, left@[i as int] as int, left@[q] as int));
                    }
                }
            }
            merged.push(next);
            j += 1;
        } else {
            let next: usize = left[i];
            proof {
                assert forall|q: int| j <= q < right@.len() implies precedes(
                    keys,
                    next as int,
                    #[trigger] right@[q] as int,
                ) by {
                    if q > j {
                        assert(precedes(keys, right@[j as int] as int, right@[q] as int));
                    }
                }
            }
            merged.push(next);
            i += 1;
        }
    }
    proof {
        let order = places(merged@);
        assert forall|p: int, q: int| 0 <= p < q < order.len() implies precedes(
            keys,
            #[trigger] order[p],
            #[trigger] order[q],
        ) by {
            assert(precedes(keys, merged@[p] as int, merged@[q] as int));
        }
    }
    merged
}

/// What a listing says, place by place.
proof fn lemma_listed_at(dates: Seq<Option<(i64, u32)>>, order: Seq<usize>, from: int, to: int)
    requires
        listed(dates, places(order), from, to),
    ensures
        order.len() == to - from,
        forall|p: int| 0 <= p < order.len() ==> from <= #[trigger] order[p] < to,
        forall|p: int, q: int|
            0 <= p < q < order.len() ==> precedes(
                dates,
                #[trigger] order[p] as int,
                #[trigger] order[q] as int,
            ),
{
    assert forall|p: int| 0 <= p < order.len() implies from <= #[trigger] order[p] < to by {
        assert(from <= places(order)[p] < to);
    }
    assert forall|p: int, q: int| 0 <= p < q < order.len() implies precedes(
        dates,
        #[trigger] order[p] as int,
        #[trigger] order[q] as int,
    ) by {
        assert(precedes(dates, places(order)[p], places(order)[q]));
    }
}

/// The listing of the places `from..to`.
fn listing_of(dates: &Vec<Option<PublishTime>>, from: usize, to: usize) -> (order: Vec<usize>)
    requires
        from <= to <= dates@.len(),
    ensures
        listed(date_views(dates@), places(order@), from as int, to as int),
    decreases to - from,
{
    let n: usize = to - from;
    if n == 0 {
        let order: Vec<usize> = Vec::new();
        return order;
    }
    if n == 1 {
        let mut order: Vec<usize> = Vec::new();
        order.push(from);
        return order;
    }
    let mid: usize = from + n / 2;
    let left = listing_of(dates, from, mid);
    let right = listing_of(dates, mid, to);
    merge_listings(
        dates,
        left,
        right,
        Ghost(from as int),
        Ghost(mid as int),
        Ghost(to as int),
    )
}

/// The places of `dates`, newest first, undated last, ties in their own order.
pub fn newest_first_order(dates: &Vec<Option<PublishTime>>) -> (order: Vec<usize>)
    ensures
        places(order@) == newest_first(date_views(dates@)),
        listed(date_views(dates@), places(order@), 0, dates@.len() as int),
{
    let order = listing_of(dates, 0, dates.len());
    proof {
        newest_first_is_listed(date_views(dates@));
        lemma_listed_unique(date_views(dates@), places(order@), newest_first(date_views(dates@)));
    }
    order
}

/// `items` in the given order.
pub open spec fn arranged<T>(items: Seq<T>, order: Seq<int>) -> Seq<T> {
    order.map_values(|i: int| items[i])
}

/// The items, moved into the given order.
pub fn arrange<T>(items: Vec<T>, order: &Vec<usize>) -> (moved: Vec<T>)
    requires
        forall|p: int| 0 <= p < order@.len() ==> 0 <= #[trigger] order@[p] < items@.len(),
        order@.no_duplicates(),
    ensures
        moved@ == arranged(items@, places(order@)),
{
    let ghost whole = items@;
    let mut slots: Vec<Option<T>> = Vec::new();
    for item in it: items
        invariant
            it.seq() == whole,
            slots@.len() == it.index(),
            forall|k: int| 0 <= k < slots@.len() ==> #[trigger] slots@[k] == Some(whole[k]),
    {
        slots.push(Some(item));
    }
    let mut moved: Vec<T> = Vec::new();
    let mut p: usize = 0;
    while p < order.len()
        invariant
            p <= order@.len(),
            slots@.len() == whole.len(),
            forall|q: int| 0 <= q < order@.len() ==> 0 <= #[trigger] order@[q] < whole.len(),
            order@.no_duplicates(),
            moved@ == arranged(whole, places(order@.take(p as int))),
            forall|q: int|
                p <= q < order@.len() ==> slots@[(#[trigger] order@[q]) as int] == Some(
                    whole[order@[q] as int],
                ),
        decreases order@.len() - p,
    {
        let mut slot: Option<T> = None;
        let at: usize = order[p];
        core::mem::swap(&mut slots[at], &mut slot);
        if let Some(item) = slot {
            moved.push(item);
        }
        p += 1;
        assert(moved@ =~= arranged(whole, places(order@.take(p as int))));
    }
    assert(order@.take(p as int) =~= order@);
    moved
}

/// The items, moved so that they stand newest first by the dates given for them.
pub fn arrange_newest_first<T>(items: Vec<T>, dates: &Vec<Option<PublishTime>>) -> (moved: Vec<T>)
    requires
        items@.len() == dates@.len(),
    ensures
        moved@ == arranged(items@, newest_first(date_views(dates@))),
{
    let order = newest_first_order(dates);
    proof {
        lemma_listed_at(date_views(dates@), order@, 0, dates@.len() as int);
        lemma_listed_all(date_views(dates@), places(order@));
        assert forall|p: int, q: int| 0 <= p < order@.len() && 0 <= q < order@.len() && p
            != q implies order@[p] != order@[q] by {
            assert(places(order@)[p] != places(order@)[q]);
        }
    }
    arrange(items, &order)
}

} // verus!
