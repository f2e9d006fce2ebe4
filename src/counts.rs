use crate::calendar::{local_date_of_millis, CivilDate, FAR_STAMP_MILLIS, MAX_STAMP_MILLIS, MILLIS_PER_DAY};
use vstd::prelude::*;

verus! {

/// A fetched item: its identifier and its timestamp, epoch milliseconds in
/// UTC, where the store gave one.
#[derive(Debug, Clone, PartialEq, Eq)]
pub struct ItemDetail {
    pub id: String,
    pub internal_date: Option<i64>,
}

/// `d` is a real day with a four-digit year, within one day of the UTC day of `ms`.
pub open spec fn near_day(ms: i64, d: CivilDate) -> bool {
    &&& d.wf()
    &&& ms / MILLIS_PER_DAY - 1 <= d.epoch_day() <= ms / MILLIS_PER_DAY + 1
}

/// What an item's local day may be. An item without a timestamp, or with
/// one not above zero, gets no day. A positive one gets a day near its UTC
/// day; only near and past 9999-12-31 may its local year have five digits,
/// and then it gets no day.
pub open spec fn day_allowed(detail: ItemDetail, day: Option<CivilDate>) -> bool {
    match detail.internal_date {
        Some(ms) => if 0 < ms && ms < MAX_STAMP_MILLIS {
            day matches Some(d) && near_day(ms, d)
        } else if 0 < ms && ms < FAR_STAMP_MILLIS {
            day matches Some(d) ==> near_day(ms, d)
        } else {
            day is None
        },
        None => day is None,
    }
}

/// The days that were given, in order, without the gaps.
pub open spec fn placed(days: Seq<Option<CivilDate>>) -> Seq<CivilDate>
    decreases days.len(),
{
    if days.len() == 0 {
        Seq::empty()
    } else {
        placed(days.drop_last()) + match days.last() {
            Some(d) => seq![d],
            None => Seq::empty(),
        }
    }
}

/// How often `d` occurs in `s`.
pub open spec fn multiplicity(s: Seq<CivilDate>, d: CivilDate) -> nat
    decreases s.len(),
{
    if s.len() == 0 {
        0
    } else {
        multiplicity(s.drop_last(), d) + if s.last() == d { 1nat } else { 0nat }
    }
}

/// The number of items counted on one day.
#[derive(Debug, Clone, Copy, PartialEq, Eq, Structural)]
pub struct DayCount {
    pub date: CivilDate,
    pub count: u64,
}

pub open spec fn sum_counts(s: Seq<DayCount>) -> nat
    decreases s.len(),
{
    if s.len() == 0 {
        0
    } else {
        sum_counts(s.drop_last()) + s.last().count as nat
    }
}

/// The count that `s` holds for day `d`.
pub open spec fn count_in(s: Seq<DayCount>, d: CivilDate) -> nat
    decreases s.len(),
{
    if s.len() == 0 {
        0
    } else {
        count_in(s.drop_last(), d) + share(s.last(), d)
    }
}

pub open spec fn share(x: DayCount, d: CivilDate) -> nat {
    if x.date == d { x.count as nat } else { 0nat }
}

/// Days in strictly increasing order, each a real day with a positive count.
pub open spec fn sorted_counts(s: Seq<DayCount>) -> bool {
    &&& forall|i: int| 0 <= i < s.len() ==> (#[trigger] s[i]).date.wf() && s[i].count > 0
    &&& forall|i: int, j: int| 0 <= i < j < s.len() ==> (#[trigger] s[i]).date.precedes((#[trigger] s[j]).date)
}

pub proof fn lemma_entry_within_sum(s: Seq<DayCount>, i: int)
    requires
        0 <= i < s.len(),
    ensures
        s[i].count <= sum_counts(s),
    decreases s.len(),
{
    if i < s.len() - 1 {
        lemma_entry_within_sum(s.drop_last(), i);
    }
}

pub proof fn lemma_prefix_sum_within(s: Seq<DayCount>, k: int)
    requires
        0 <= k <= s.len(),
    ensures
        sum_counts(s.take(k)) <= sum_counts(s),
    decreases s.len(),
{
    if k < s.len() {
        lemma_prefix_sum_within(s.drop_last(), k);
        assert(s.drop_last().take(k) =~= s.take(k));
    } else {
        assert(s.take(k) =~= s);
    }
}

pub proof fn lemma_update_counts(s: Seq<DayCount>, i: int, x: DayCount)
    requires
        0 <= i < s.len(),
    ensures
        sum_counts(s.update(i, x)) + s[i].count == sum_counts(s) + x.count,
        forall|d: CivilDate|
            #![trigger count_in(s.update(i, x), d)]
            count_in(s.update(i, x), d) + share(s[i], d) == count_in(s, d) + share(x, d),
    decreases s.len(),
{
    if i == s.len() - 1 {
        assert(s.update(i, x).drop_last() =~= s.drop_last());
    } else {
        lemma_update_counts(s.drop_last(), i, x);
        assert(s.update(i, x).drop_last() =~= s.drop_last().update(i, x));
    }
    assert forall|d: CivilDate| #[trigger]
        count_in(s.update(i, x), d) + share(s[i], d) == count_in(s, d) + share(x, d) by {
        if i == s.len() - 1 {
            assert(s.update(i, x).drop_last() =~= s.drop_last());
        } else {
            assert(s.update(i, x).drop_last() =~= s.drop_last().update(i, x));
            assert(count_in(s.drop_last().update(i, x), d) + share(s.drop_last()[i], d) == count_in(
                s.drop_last(),
                d,
            ) + share(x, d));
            assert(s.drop_last()[i] == s[i]);
            assert(s.update(i, x).last() == s.last());
        }
    }
}

pub proof fn lemma_insert_counts(s: Seq<DayCount>, i: int, x: DayCount)
    requires
        0 <= i <= s.len(),
    ensures
        sum_counts(s.insert(i, x)) == sum_counts(s) + x.count,
        forall|d: CivilDate|
            #![trigger count_in(s.insert(i, x), d)]
            count_in(s.insert(i, x), d) == count_in(s, d) + share(x, d),
    decreases s.len(),
{
    if i == s.len() {
        assert(s.insert(i, x).drop_last() =~= s);
    } else {
        lemma_insert_counts(s.drop_last(), i, x);
        assert(s.insert(i, x).drop_last() =~= s.drop_last().insert(i, x));
    }
    assert forall|d: CivilDate| #[trigger]
        count_in(s.insert(i, x), d) == count_in(s, d) + share(x, d) by {
        if i == s.len() {
            assert(s.insert(i, x).drop_last() =~= s);
        } else {
            assert(s.insert(i, x).drop_last() =~= s.drop_last().insert(i, x));
            assert(count_in(s.drop_last().insert(i, x), d) == count_in(s.drop_last(), d) + share(x, d));
            assert(s.insert(i, x).last() == s.last());
        }
    }
}

/// The Daily Count Map: a count for each day on which something was counted,
/// the days in calendar order.
#[derive(Debug, Clone)]
pub struct DailyCounts {
    entries: Vec<DayCount>,
}

impl View for DailyCounts {
    type V = Seq<DayCount>;

    closed spec fn view(&self) -> Seq<DayCount> {
        self.entries@
    }
}

impl DailyCounts {
    pub open spec fn wf(&self) -> bool {
        &&& sorted_counts(self@)
        &&& sum_counts(self@) <= u64::MAX
    }

    /// The number of items counted, over all days.
    pub open spec fn total(&self) -> nat {
        sum_counts(self@)
    }

    pub open spec fn count_of(&self, d: CivilDate) -> nat {
        count_in(self@, d)
    }

    pub fn new() -> (r: DailyCounts)
        ensures
            r.wf(),
            r@ == Seq::<DayCount>::empty(),
    {
        DailyCounts { entries: Vec::new() }
    }

    /// The days and their counts, in calendar order.
    pub fn entries(&self) -> (r: &Vec<DayCount>)
        ensures
            r@ == self@,
    {
        &self.entries
    }

    pub fn is_empty(&self) -> (r: bool)
        ensures
            r == (self@.len() == 0),
    {
        self.entries.len() == 0
    }

    /// The number of items counted, over all days.
    pub fn total_count(&self) -> (r: u64)
        requires
            self.wf(),
        ensures
            r == self.total(),
    {
        let mut sum: u64 = 0;
        let mut i: usize = 0;
        while i < self.entries.len()
            invariant
                i <= self.entries.len(),
                sum_counts(self@) <= u64::MAX,
                sum == sum_counts(self@.take(i as int)),
            decreases self.entries.len() - i,
        {
            proof {
                assert(self@.take(i + 1).drop_last() =~= self@.take(i as int));
                lemma_prefix_sum_within(self@, i + 1);
            }
            sum = sum + self.entries[i].count;
            i += 1;
        }
        assert(self@.take(i as int) =~= self@);
        sum
    }

    /// Whether the invariant `wf` holds: days real and strictly increasing,
    /// counts positive, and their sum within `u64`.
    pub fn is_well_formed(&self) -> (r: bool)
        ensures
            r == self.wf(),
    {
        let mut sum: u64 = 0;
        let mut i: usize = 0;
        while i < self.entries.len()
            invariant
                i <= self.entries.len(),
                sorted_counts(self@.take(i as int)),
                sum == sum_counts(self@.take(i as int)),
            decreases self.entries.len() - i,
        {
            let e = self.entries[i];
            proof {
                assert(self@.take(i + 1).drop_last() =~= self@.take(i as int));
            }
            if !e.date.is_valid() || e.count == 0 || (i > 0 && !self.entries[i - 1].date.is_before(&e.date)) {
                proof {
                    assert(self@[i as int] == e);
                    if i > 0 && !self@[i - 1].date.precedes(e.date) {
                        assert(!sorted_counts(self@));
                    }
                }
                return false;
            }
            if e.count > u64::MAX - sum {
                proof {
                    lemma_prefix_sum_within(self@, i + 1);
                }
                return false;
            }
            sum = sum + e.count;
            i += 1;
            proof {
                let t = self@.take(i as int);
                assert forall|a: int, b: int| 0 <= a < b < t.len() implies (#[trigger] t[a]).date.precedes(
                    (#[trigger] t[b]).date) by {
                    if b == i - 1 && a < b - 1 {
                        assert(t[a].date.precedes(t[b - 1].date));
                    }
                }
            }
        }
        assert(self@.take(i as int) =~= self@);
        true
    }

    /// Counts one more item on day `date`.
    pub fn add(&mut self, date: CivilDate)
        requires
            old(self).wf(),
            date.wf(),
            old(self).total() < u64::MAX,
        ensures
            final(self).wf(),
            final(self).total() == old(self).total() + 1,
            final(self).count_of(date) == old(self).count_of(date) + 1,
            forall|d: CivilDate| d != date ==> #[trigger] final(self).count_of(d) == old(self).count_of(d),
    {
        let n = self.entries.len();
        let mut i: usize = 0;
        while i < n && self.entries[i].date.is_before(&date)
            invariant
                i <= n,
                n == self.entries.len(),
                forall|j: int| 0 <= j < i ==> (#[trigger] self.entries[j]).date.precedes(date),
            decreases n - i,
        {
            i += 1;
        }
        let ghost s = self.entries@;
        if i < n && self.entries[i].date == date {
            let c = self.entries[i].count;
            proof {
                lemma_entry_within_sum(s, i as int);
            }
            let x = DayCount { date, count: c + 1 };
            self.entries.set(i, x);
            proof {
                lemma_update_counts(s, i as int, x);
                assert(self.entries@ == s.update(i as int, x));
            }
        } else {
            let x = DayCount { date, count: 1 };
            self.entries.insert(i, x);
            proof {
                lemma_insert_counts(s, i as int, x);
                assert(self.entries@ == s.insert(i as int, x));
                assert forall|a: int, b: int|
                    0 <= a < b < self.entries@.len() implies (#[trigger] self.entries@[a]).date.precedes(
                    (#[trigger] self.entries@[b]).date) by {
                    if b == i {
                        assert(s[a].date.precedes(date));
                    } else if a == i {
                        assert(s[b - 1].date == s[i as int].date || s[i as int].date.precedes(s[b - 1].date));
                    }
                }
            }
        }
    }

    /// Counts one fetched item on its local day, if it gets one (see
    /// `day_allowed`); otherwise leaves the counts as they were.
    pub fn accept(&mut self, detail: &ItemDetail)
        requires
            old(self).wf(),
            old(self).total() < u64::MAX,
        ensures
            final(self).wf(),
            exists|day: Option<CivilDate>|
                #![trigger day_allowed(*detail, day)]
                day_allowed(*detail, day) && (day is None ==> final(self)@ == old(self)@) && (day matches Some(
                    d,
                ) ==> final(self).total() == old(self).total() + 1 && final(self).count_of(d) == old(
                    self,
                ).count_of(d) + 1 && forall|e: CivilDate|
                    e != d ==> #[trigger] final(self).count_of(e) == old(self).count_of(e)),
    {
        let day = local_day(detail);
        match day {
            Some(d) => {
                self.add(d);
            },
            None => {},
        }
        assert(day_allowed(*detail, day));
    }
}

/// The local day of an item, as `day_allowed` admits it.
pub fn local_day(detail: &ItemDetail) -> (r: Option<CivilDate>)
    ensures
        day_allowed(*detail, r),
{
    match detail.internal_date {
        Some(ms) => if 0 < ms && ms < FAR_STAMP_MILLIS {
            let d = local_date_of_millis(ms);
            if d.year <= 9999 {
                Some(d)
            } else {
                None
            }
        } else {
            None
        },
        None => None,
    }
}

/// Counts each given day once; the gaps are counted nowhere.
pub fn tally(days: &Vec<Option<CivilDate>>) -> (r: DailyCounts)
    requires
        forall|i: int| 0 <= i < days@.len() ==> (#[trigger] days@[i] matches Some(d) ==> d.wf()),
    ensures
        r.wf(),
        r.total() == placed(days@).len(),
        forall|d: CivilDate| #[trigger] r.count_of(d) == multiplicity(placed(days@), d),
{
    let mut counts = DailyCounts::new();
    let mut i: usize = 0;
    while i < days.len()
        invariant
            i <= days.len(),
            forall|j: int| 0 <= j < days@.len() ==> (#[trigger] days@[j] matches Some(d) ==> d.wf()),
            counts.wf(),
            counts.total() == placed(days@.take(i as int)).len(),
            placed(days@.take(i as int)).len() <= i,
            forall|d: CivilDate| #[trigger] counts.count_of(d) == multiplicity(placed(days@.take(i as int)), d),
        decreases days.len() - i,
    {
        let ghost before = placed(days@.take(i as int));
        proof {
            assert(days@.take(i + 1).drop_last() =~= days@.take(i as int));
            assert(days@.take(i + 1).last() == days@[i as int]);
        }
        match days[i] {
            Some(d) => {
                counts.add(d);
                proof {
                    let after = placed(days@.take(i + 1));
                    assert(after == before + seq![d]);
                    assert(after.drop_last() =~= before);
                    assert forall|e: CivilDate| #[trigger]
                        counts.count_of(e) == multiplicity(after, e) by {
                        assert(multiplicity(after, e) == multiplicity(before, e) + if d == e { 1nat } else { 0nat });
                    }
                }
            },
            None => {
                proof {
                    assert(placed(days@.take(i + 1)) =~= before);
                }
            },
        }
        i += 1;
    }
    assert(days@.take(i as int) =~= days@);
    counts
}

/// Aggregates all fetched items. Each item gets a day as `day_allowed` says
/// (none where its timestamp is missing or not above zero), and each day's
/// count is the number of items that got it; the total is the number of
/// items that got a day.
pub fn drain(details: &Vec<ItemDetail>) -> (r: DailyCounts)
    ensures
        r.wf(),
        exists|days: Seq<Option<CivilDate>>|
            #![trigger placed(days)]
            days.len() == details@.len() && (forall|i: int|
                0 <= i < details@.len() ==> #[trigger] day_allowed(details@[i], days[i])) && r.total()
                == placed(days).len() && forall|d: CivilDate|
                #[trigger] r.count_of(d) == multiplicity(placed(days), d),
{
    let mut days: Vec<Option<CivilDate>> = Vec::new();
    let mut i: usize = 0;
    while i < details.len()
        invariant
            i <= details.len(),
            days@.len() == i,
            forall|j: int| 0 <= j < i ==> #[trigger] day_allowed(details@[j], days@[j]),
        decreases details.len() - i,
    {
        days.push(local_day(&details[i]));
        i += 1;
    }
    assert forall|j: int| 0 <= j < days@.len() implies (#[trigger] days@[j] matches Some(d) ==> d.wf()) by {
        assert(day_allowed(details@[j], days@[j]));
    }
    let r = tally(&days);
    assert(placed(days@) == placed(days@));
    r
}

/// Items that get no day change no count: two runs whose items got the
/// same days, in the same order, count the same on every day and in total,
/// whatever other items without a day they held.
pub proof fn lemma_dayless_items_change_nothing(a: Seq<Option<CivilDate>>, b: Seq<Option<CivilDate>>)
    requires
        placed(a) == placed(b),
    ensures
        placed(a).len() == placed(b).len(),
        forall|d: CivilDate| #[trigger] multiplicity(placed(a), d) == multiplicity(placed(b), d),
{
}

/// An item with no timestamp, or one not above zero, is counted on no day;
/// one stamped above zero and before 9999-12-31T00:00Z is counted on
/// exactly one day, within a day of its UTC day.
pub proof fn lemma_valid_items_counted_once(detail: ItemDetail, day: Option<CivilDate>)
    requires
        day_allowed(detail, day),
    ensures
        (detail.internal_date matches Some(ms) && 0 < ms) || day is None,
        (detail.internal_date matches Some(ms) && 0 < ms < MAX_STAMP_MILLIS) ==> (day matches Some(d)
            && near_day(detail.internal_date->Some_0, d)),
{
}

} // verus!
