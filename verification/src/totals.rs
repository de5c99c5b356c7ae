//! Seconds per day, as a query over a range of days reports them.

use crate::date::{Date, Ymd};
use vstd::prelude::*;

verus! {

/// The seconds of one day.
#[derive(Debug, Clone, Copy, PartialEq, Eq)]
pub struct DayTotal {
    pub date: Date,
    pub seconds: i64,
}

/// The seconds of each day that has any record: a day without one is not held at all.
#[derive(Debug)]
pub struct DailyTotals {
    days: Vec<DayTotal>,
}

/// What the last entry for `date` holds, if there is one.
pub open spec fn lookup_day(days: Seq<DayTotal>, date: Ymd) -> Option<int>
    decreases days.len(),
{
    if days.len() == 0 {
        None
    } else if days.last().date@ == date {
        Some(days.last().seconds as int)
    } else {
        lookup_day(days.drop_last(), date)
    }
}

/// Whether no two entries are for the same day.
pub open spec fn distinct_days(days: Seq<DayTotal>) -> bool {
    forall|i: int, j: int|
        0 <= i < j < days.len() ==> (#[trigger] days[i]).date@ != (#[trigger] days[j]).date@
}

/// Where no entry is for `date`, nothing is found for it.
pub proof fn lemma_lookup_absent(days: Seq<DayTotal>, date: Ymd)
    requires
        forall|i: int| 0 <= i < days.len() ==> (#[trigger] days[i]).date@ != date,
    ensures
        lookup_day(days, date) is None,
    decreases days.len(),
{
    if days.len() > 0 {
        assert(days[days.len() - 1].date@ != date);
        assert forall|i: int| 0 <= i < days.drop_last().len() implies (
        #[trigger] days.drop_last()[i]).date@ != date by {
            assert(days.drop_last()[i] == days[i]);
        }
        lemma_lookup_absent(days.drop_last(), date);
    }
}

/// Where days are distinct, the entry of a day is what is found for it.
pub proof fn lemma_lookup_at(days: Seq<DayTotal>, at: int)
    requires
        distinct_days(days),
        0 <= at < days.len(),
    ensures
        lookup_day(days, days[at].date@) == Some(days[at].seconds as int),
    decreases days.len(),
{
    if at < days.len() - 1 {
        let rest = days.drop_last();
        assert(days[at].date@ != days[days.len() - 1].date@);
        assert(rest[at] == days[at]);
        assert forall|i: int, j: int| 0 <= i < j < rest.len() implies (
        #[trigger] rest[i]).date@ != (#[trigger] rest[j]).date@ by {
            assert(rest[i] == days[i] && rest[j] == days[j]);
        }
        lemma_lookup_at(rest, at);
    }
}

/// Changing the seconds of one entry changes what is found for its day and for no other.
pub proof fn lemma_lookup_update(days: Seq<DayTotal>, at: int, seconds: i64, date: Ymd)
    requires
        distinct_days(days),
        0 <= at < days.len(),
    ensures
        ({
            let changed = days.update(at, DayTotal { date: days[at].date, seconds: seconds });
            &&& distinct_days(changed)
            &&& lookup_day(changed, date) == if date == days[at].date@ {
                Some(seconds as int)
            } else {
                lookup_day(days, date)
            }
        }),
    decreases days.len(),
{
    let changed = days.update(at, DayTotal { date: days[at].date, seconds: seconds });
    assert forall|i: int, j: int| 0 <= i < j < changed.len() implies (
    #[trigger] changed[i]).date@ != (#[trigger] changed[j]).date@ by {
        assert(changed[i].date == days[i].date && changed[j].date == days[j].date);
    }
    if date == days[at].date@ {
        lemma_lookup_at(changed, at);
    } else if at == days.len() - 1 {
        assert(changed.drop_last() == days.drop_last());
    } else {
        let rest = days.drop_last();
        assert(rest[at] == days[at]);
        assert(changed.drop_last() == rest.update(
            at,
            DayTotal { date: rest[at].date, seconds: seconds },
        ));
        assert forall|i: int, j: int| 0 <= i < j < rest.len() implies (
        #[trigger] rest[i]).date@ != (#[trigger] rest[j]).date@ by {
            assert(rest[i] == days[i] && rest[j] == days[j]);
        }
        lemma_lookup_update(rest, at, seconds, date);
    }
}

/// What is found for a day is the seconds of some entry.
pub proof fn lemma_lookup_bound(days: Seq<DayTotal>, date: Ymd)
    ensures
        lookup_day(days, date) matches Some(t) ==> t <= i64::MAX,
    decreases days.len(),
{
    if days.len() > 0 && days.last().date@ != date {
        lemma_lookup_bound(days.drop_last(), date);
    }
}

impl DailyTotals {
    /// The seconds held for the day `date`, if the day is held.
    pub closed spec fn total_on(&self, date: Ymd) -> Option<int> {
        lookup_day(self.days@, date)
    }

    /// No day is held twice, and no day holds less than nothing.
    pub closed spec fn wf(&self) -> bool {
        &&& distinct_days(self.days@)
        &&& forall|i: int| 0 <= i < self.days@.len() ==> (#[trigger] self.days@[i]).seconds >= 0
    }

    /// What is held for a day fits in 63 bits.
    pub proof fn lemma_in_range(&self, date: Ymd)
        ensures
            self.total_on(date) matches Some(t) ==> t <= i64::MAX,
    {
        lemma_lookup_bound(self.days@, date);
    }

    /// Totals that hold no day.
    pub fn new() -> (t: DailyTotals)
        ensures
            t.wf(),
            forall|date: Ymd| #[trigger] t.total_on(date) is None,
    {
        DailyTotals { days: Vec::new() }
    }

    /// The place of the entry for `date`, or the number of entries where there is none.
    fn position(&self, date: &Date) -> (at: usize)
        ensures
            at <= self.days@.len(),
            at < self.days@.len() ==> self.days@[at as int].date@ == date@,
            at == self.days@.len() ==> forall|i: int|
                0 <= i < self.days@.len() ==> (#[trigger] self.days@[i]).date@ != date@,
    {
        let n = self.days.len();
        let mut i: usize = n;
        while i > 0
            invariant
                n == self.days@.len(),
                i <= n,
                forall|k: int| i <= k < n ==> (#[trigger] self.days@[k]).date@ != date@,
            decreases i,
        {
            i = i - 1;
            proof {
                if self.days@[i as int].date@ == date@ {
                    self.days@[i as int].date.lemma_view_injective(*date);
                }
            }
            if self.days[i].date == *date {
                return i;
            }
        }
        n
    }

    /// The seconds of the day `date`, or `None` where the totals hold nothing for that day.
    pub fn get(&self, date: &Date) -> (r: Option<i64>)
        requires
            self.wf(),
        ensures
            match r {
                Some(seconds) => self.total_on(date@) == Some(seconds as int),
                None => self.total_on(date@) is None,
            },
    {
        let at = self.position(date);
        if at < self.days.len() {
            proof {
                lemma_lookup_at(self.days@, at as int);
            }
            Some(self.days[at].seconds)
        } else {
            proof {
                lemma_lookup_absent(self.days@, date@);
            }
            None
        }
    }

    /// Adds `seconds` to the day `date`, which is held from then on. Returns `false`, and
    /// changes nothing, where the day would exceed what a total can hold.
    pub fn add(&mut self, date: Date, seconds: u64) -> (added: bool)
        requires
            old(self).wf(),
        ensures
            final(self).wf(),
            added <==> (match old(self).total_on(date@) {
                Some(t) => t,
                None => 0,
            }) + seconds <= i64::MAX,
            added ==> forall|d: Ymd| #[trigger]
                final(self).total_on(d) == if d == date@ {
                    Some(
                        (match old(self).total_on(date@) {
                            Some(t) => t,
                            None => 0,
                        }) + seconds,
                    )
                } else {
                    old(self).total_on(d)
                },
            !added ==> forall|d: Ymd| #[trigger] final(self).total_on(d) == old(self).total_on(d),
    {
        let at = self.position(&date);
        if at < self.days.len() {
            let held = self.days[at].seconds;
            proof {
                lemma_lookup_at(self.days@, at as int);
            }
            if seconds > (0x7fff_ffff_ffff_ffff - held) as u64 {
                return false;
            }
            let sum: i64 = held + seconds as i64;
            let ghost before = self.days@;
            self.days.set(at, DayTotal { date: self.days[at].date, seconds: sum });
            proof {
                assert forall|d: Ymd| #[trigger]
                    lookup_day(self.days@, d) == if d == date@ {
                        Some(sum as int)
                    } else {
                        lookup_day(before, d)
                    } by {
                    lemma_lookup_update(before, at as int, sum, d);
                }
                lemma_lookup_update(before, at as int, sum, date@);
            }
            true
        } else {
            proof {
                lemma_lookup_absent(self.days@, date@);
            }
            if seconds > 0x7fff_ffff_ffff_ffff {
                return false;
            }
            let ghost before = self.days@;
            self.days.push(DayTotal { date, seconds: seconds as i64 });
            proof {
                assert(self.days@.drop_last() == before);
                assert forall|i: int, j: int| 0 <= i < j < self.days@.len() implies (
                #[trigger] self.days@[i]).date@ != (#[trigger] self.days@[j]).date@ by {
                    assert(self.days@[i] == before[i]);
                    if j < before.len() {
                        assert(self.days@[j] == before[j]);
                    }
                }
            }
            true
        }
    }
}

} // verus!
