//! The period that a dashboard shows, and how its controls move it.

use crate::date::{before, date_plus_days, weekday_from_monday, Date, Ymd};
use crate::totals::DailyTotals;
use vstd::prelude::*;

verus! {

/// The kind of period that is shown: one day, or the week from Monday to Sunday.
#[derive(Debug, Clone, Copy, PartialEq, Eq, Structural)]
pub enum Tab {
    Today,
    Week,
}

/// What a control of the dashboard asks for.
#[derive(Debug, Clone, Copy, PartialEq, Eq, Structural)]
pub enum Message {
    SwitchTab(Tab),
    NavPrev,
    NavNext,
    NavToday,
    RefreshData,
    AnimationTick,
    Nothing,
}

/// What the dashboard shows: the kind of period, and a day within it.
#[derive(Debug, Clone, Copy, PartialEq, Eq, Structural)]
pub struct Dashboard {
    pub current_tab: Tab,
    pub ref_date: Date,
}

/// The days by which the controls move the period: one for a day, seven for a week.
pub open spec fn stride(tab: Tab) -> int {
    match tab {
        Tab::Today => 1,
        Tab::Week => 7,
    }
}

/// The first and the last day of the period around `day`. `None` where the calendar ends
/// within the week.
pub open spec fn period_of(tab: Tab, day: Ymd) -> Option<(Ymd, Ymd)> {
    match tab {
        Tab::Today => Some((day, day)),
        Tab::Week => match date_plus_days(day, -weekday_from_monday(day)) {
            None => None,
            Some(monday) => match date_plus_days(monday, 6) {
                None => None,
                Some(sunday) => Some((monday, sunday)),
            },
        },
    }
}

/// The day that is shown after `message`, where today is `today`. The view never moves
/// beyond today, nor out of the calendar.
pub open spec fn moved(tab: Tab, day: Ymd, message: Message, today: Ymd) -> Ymd {
    match message {
        Message::SwitchTab(_) => today,
        Message::NavToday => today,
        Message::NavPrev => match date_plus_days(day, -stride(tab)) {
            Some(d) => d,
            None => day,
        },
        Message::NavNext => match date_plus_days(day, stride(tab)) {
            Some(d) => if before(today, d) {
                day
            } else {
                d
            },
            None => day,
        },
        _ => day,
    }
}

/// Whether the data is to be read again after `message`.
pub open spec fn reloads(tab: Tab, day: Ymd, message: Message, today: Ymd) -> bool {
    match message {
        Message::SwitchTab(_) => true,
        Message::NavToday => true,
        Message::RefreshData => true,
        Message::NavPrev => date_plus_days(day, -stride(tab)) is Some,
        Message::NavNext => date_plus_days(day, stride(tab)) matches Some(d) && !before(today, d),
        _ => false,
    }
}

/// The seconds of `count` days in a row from `start`, with zero for a day that `totals` does
/// not hold and for a day that the calendar does not have.
pub open spec fn filled(totals: DailyTotals, start: Ymd, count: nat) -> Seq<int> {
    Seq::new(
        count,
        |i: int|
            match date_plus_days(start, i) {
                Some(d) => match totals.total_on(d) {
                    Some(t) => t,
                    None => 0,
                },
                None => 0,
            },
    )
}

impl Dashboard {
    /// A dashboard that shows today.
    pub fn new(today: Date) -> (d: Dashboard)
        ensures
            d.current_tab == Tab::Today,
            d.ref_date == today,
    {
        Dashboard { current_tab: Tab::Today, ref_date: today }
    }

    /// The first and the last day of the period that is shown: see `period_of`.
    pub fn get_date_range(&self) -> (r: Option<(Date, Date)>)
        ensures
            r is Some <==> period_of(self.current_tab, self.ref_date@) is Some,
            r matches Some(range) ==> period_of(self.current_tab, self.ref_date@) == Some(
                (range.0@, range.1@),
            ),
    {
        match self.current_tab {
            Tab::Today => Some((self.ref_date, self.ref_date)),
            Tab::Week => {
                let offset = self.ref_date.days_from_monday();
                let monday = match self.ref_date.plus_days(0 - (offset as i64)) {
                    Some(d) => d,
                    None => {
                        return None;
                    },
                };
                match monday.plus_days(6) {
                    Some(sunday) => Some((monday, sunday)),
                    None => None,
                }
            },
        }
    }

    /// The period that is shown, cut at `today` where it would reach beyond it.
    pub fn get_date_range_until(&self, today: Date) -> (r: Option<(Date, Date)>)
        ensures
            r is Some <==> period_of(self.current_tab, self.ref_date@) is Some,
            r matches Some(range) ==> {
                let whole = period_of(self.current_tab, self.ref_date@)->0;
                &&& range.0@ == whole.0
                &&& range.1@ == if before(today@, whole.1) {
                    today@
                } else {
                    whole.1
                }
            },
    {
        match self.get_date_range() {
            None => None,
            Some((start, end)) => {
                if today.is_before(&end) {
                    Some((start, today))
                } else {
                    Some((start, end))
                }
            },
        }
    }

    /// Takes a message of the controls, where today is `today`. Returns whether the data is
    /// to be read again: see `moved` and `reloads`.
    pub fn update(&mut self, msg: Message, today: Date) -> (reload: bool)
        ensures
            final(self).ref_date@ == moved(
                old(self).current_tab,
                old(self).ref_date@,
                msg,
                today@,
            ),
            final(self).current_tab == (match msg {
                Message::SwitchTab(tab) => tab,
                _ => old(self).current_tab,
            }),
            reload == reloads(old(self).current_tab, old(self).ref_date@, msg, today@),
    {
        let step: i64 = match self.current_tab {
            Tab::Today => 1,
            Tab::Week => 7,
        };
        match msg {
            Message::SwitchTab(tab) => {
                self.current_tab = tab;
                self.ref_date = today;
                true
            },
            Message::NavToday => {
                self.ref_date = today;
                true
            },
            Message::NavPrev => {
                match self.ref_date.plus_days(0 - step) {
                    Some(d) => {
                        self.ref_date = d;
                        true
                    },
                    None => false,
                }
            },
            Message::NavNext => {
                match self.ref_date.plus_days(step) {
                    Some(d) => {
                        if today.is_before(&d) {
                            false
                        } else {
                            self.ref_date = d;
                            true
                        }
                    },
                    None => false,
                }
            },
            Message::RefreshData => true,
            _ => false,
        }
    }
}

/// The seconds of `count` days in a row from `start`, for a chart: a day that `totals` does
/// not hold counts as zero.
pub fn zero_filled(totals: &DailyTotals, start: Date, count: u32) -> (v: Vec<i64>)
    requires
        totals.wf(),
    ensures
        v@.len() == count,
        forall|i: int| 0 <= i < count ==> #[trigger] v@[i] == filled(*totals, start@, count as nat)[i],
{
    let mut v: Vec<i64> = Vec::new();
    let mut i: u32 = 0;
    while i < count
        invariant
            i <= count,
            totals.wf(),
            v@.len() == i,
            forall|k: int| 0 <= k < i ==> #[trigger] v@[k] == filled(*totals, start@, count as nat)[k],
        decreases count - i,
    {
        let seconds = match start.plus_days(i as i64) {
            Some(d) => match totals.get(&d) {
                Some(t) => t,
                None => 0,
            },
            None => 0,
        };
        v.push(seconds);
        i = i + 1;
    }
    v
}

/// The short name of the weekday that lies `offset` days after a Monday, for `offset` up to
/// six; the name of the last weekday beyond that.
pub open spec fn label_text(offset: int) -> Seq<char> {
    if offset == 0 {
        "Mon"@
    } else if offset == 1 {
        "Tue"@
    } else if offset == 2 {
        "Wed"@
    } else if offset == 3 {
        "Thu"@
    } else if offset == 4 {
        "Fri"@
    } else if offset == 5 {
        "Sat"@
    } else {
        "Sun"@
    }
}

/// The short name of the weekday that lies `offset` days after a Monday.
pub fn weekday_label(offset: u32) -> (r: &'static str)
    ensures
        r@ == label_text(offset as int),
{
    if offset == 0 {
        "Mon"
    } else if offset == 1 {
        "Tue"
    } else if offset == 2 {
        "Wed"
    } else if offset == 3 {
        "Thu"
    } else if offset == 4 {
        "Fri"
    } else if offset == 5 {
        "Sat"
    } else {
        "Sun"
    }
}

/// The bars of a chart over `count` days in a row from the Monday `monday`: for each day the
/// short name of its weekday and its seconds, zero where `totals` holds nothing for it.
pub fn week_chart(totals: &DailyTotals, monday: Date, count: u32) -> (bars: Vec<(String, i64)>)
    requires
        totals.wf(),
    ensures
        bars@.len() == count,
        forall|i: int|
            0 <= i < count ==> (#[trigger] bars@[i]).1 == filled(*totals, monday@, count as nat)[i],
        forall|i: int| 0 <= i < count ==> (#[trigger] bars@[i]).0@ == label_text(i % 7),
{
    let values = zero_filled(totals, monday, count);
    let mut bars: Vec<(String, i64)> = Vec::new();
    let mut i: u32 = 0;
    while i < count
        invariant
            i <= count,
            values@.len() == count,
            bars@.len() == i,
            forall|k: int| 0 <= k < i ==> (#[trigger] bars@[k]).1 == values@[k],
            forall|k: int| 0 <= k < i ==> (#[trigger] bars@[k]).0@ == label_text(k % 7),
        decreases count - i,
    {
        bars.push((weekday_label(i % 7).to_owned(), values[i as usize]));
        i = i + 1;
    }
    bars
}

} // verus!
