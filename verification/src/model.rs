//! The usage store as mathematics: what its tables hold, what an accumulation makes of them,
//! and the sums that the queries report.

use crate::date::{before, date_plus_days, iso_text, valid_ymd, within, Ymd};
use crate::errors::StorageError;
use vstd::prelude::*;

verus! {

/// An application that was seen in the foreground at least once.
pub struct AppModel {
    pub identity: Seq<char>,
    pub display_name: Seq<char>,
}

/// The seconds that one application was focused on one day.
pub struct UsageModel {
    pub identity: Seq<char>,
    pub date: Ymd,
    pub seconds: nat,
}

/// One request to add seconds to an application's day.
pub struct Accumulation {
    pub identity: Seq<char>,
    pub date: Ymd,
    pub seconds: nat,
}

/// The two tables of the store, each in the order in which its records were created.
pub struct DbModel {
    pub apps: Seq<AppModel>,
    pub usage: Seq<UsageModel>,
}

/// The most seconds that one record, or one sum of a query, can hold.
pub open spec fn max_seconds() -> nat {
    i64::MAX as nat
}

/// The place of the first application named `id`, or the number of applications if none is.
pub open spec fn find_app(apps: Seq<AppModel>, id: Seq<char>) -> int
    decreases apps.len(),
{
    if apps.len() == 0 {
        0
    } else if apps.first().identity == id {
        0
    } else {
        1 + find_app(apps.drop_first(), id)
    }
}

/// The place of the first record of `id` on `date`, or the number of records if there is none.
pub open spec fn find_usage(usage: Seq<UsageModel>, id: Seq<char>, date: Ymd) -> int
    decreases usage.len(),
{
    if usage.len() == 0 {
        0
    } else if usage.first().identity == id && usage.first().date == date {
        0
    } else {
        1 + find_usage(usage.drop_first(), id, date)
    }
}

/// How many records `id` has on `date`.
pub open spec fn count_records(usage: Seq<UsageModel>, id: Seq<char>, date: Ymd) -> nat
    decreases usage.len(),
{
    if usage.len() == 0 {
        0
    } else {
        count_records(usage.drop_last(), id, date) + if usage.last().identity == id
            && usage.last().date == date {
            1nat
        } else {
            0nat
        }
    }
}

/// The seconds that the records hold for `id` on `date`, taken together.
pub open spec fn seconds_on(usage: Seq<UsageModel>, id: Seq<char>, date: Ymd) -> nat
    decreases usage.len(),
{
    if usage.len() == 0 {
        0
    } else {
        seconds_on(usage.drop_last(), id, date) + if usage.last().identity == id
            && usage.last().date == date {
            usage.last().seconds
        } else {
            0nat
        }
    }
}

/// How many records there are for the day `date`.
pub open spec fn records_on(usage: Seq<UsageModel>, date: Ymd) -> nat
    decreases usage.len(),
{
    if usage.len() == 0 {
        0
    } else {
        records_on(usage.drop_last(), date) + if usage.last().date == date {
            1nat
        } else {
            0nat
        }
    }
}

/// The seconds of all applications on the day `date`.
pub open spec fn day_total(usage: Seq<UsageModel>, date: Ymd) -> nat
    decreases usage.len(),
{
    if usage.len() == 0 {
        0
    } else {
        day_total(usage.drop_last(), date) + if usage.last().date == date {
            usage.last().seconds
        } else {
            0nat
        }
    }
}

/// The seconds of application `id` over the days from `start` to `end`, both included.
pub open spec fn app_total(usage: Seq<UsageModel>, id: Seq<char>, start: Ymd, end: Ymd) -> nat
    decreases usage.len(),
{
    if usage.len() == 0 {
        0
    } else {
        app_total(usage.drop_last(), id, start, end) + if usage.last().identity == id && within(
            usage.last().date,
            start,
            end,
        ) {
            usage.last().seconds
        } else {
            0nat
        }
    }
}

/// What a query over `start..=end` reports for the day `date`: the seconds of all records of
/// that day, and nothing for a day outside the range or without a record.
pub open spec fn reported_total(usage: Seq<UsageModel>, start: Ymd, end: Ymd, date: Ymd) -> Option<int> {
    if within(date, start, end) && records_on(usage, date) > 0 {
        Some(day_total(usage, date) as int)
    } else {
        None
    }
}

/// The seconds that a run of requests asks to add for `id` on `date`.
pub open spec fn requested(ops: Seq<Accumulation>, id: Seq<char>, date: Ymd) -> nat
    decreases ops.len(),
{
    if ops.len() == 0 {
        0
    } else {
        requested(ops.drop_last(), id, date) + if ops.last().identity == id && ops.last().date
            == date {
            ops.last().seconds
        } else {
            0nat
        }
    }
}

impl DbModel {
    /// The store before anything was recorded.
    pub open spec fn empty() -> DbModel {
        DbModel { apps: Seq::empty(), usage: Seq::empty() }
    }

    /// Whether an application named `id` is known.
    pub open spec fn has_app(self, id: Seq<char>) -> bool {
        find_app(self.apps, id) < self.apps.len()
    }

    /// The name under which application `id` is shown; its identity where it is not known.
    pub open spec fn display_name(self, id: Seq<char>) -> Seq<char> {
        if self.has_app(id) {
            self.apps[find_app(self.apps, id)].display_name
        } else {
            id
        }
    }

    /// Whether there is a record for `id` on `date`.
    pub open spec fn has_record(self, id: Seq<char>, date: Ymd) -> bool {
        find_usage(self.usage, id, date) < self.usage.len()
    }

    /// The seconds recorded for `id` on `date`; zero where there is no record.
    pub open spec fn recorded(self, id: Seq<char>, date: Ymd) -> nat {
        seconds_on(self.usage, id, date)
    }

    /// No two applications share an identity, and no two records share application and day.
    pub open spec fn keys_unique(self) -> bool {
        &&& forall|i: int, j: int|
            0 <= i < j < self.apps.len() ==> (#[trigger] self.apps[i]).identity != (
            #[trigger] self.apps[j]).identity
        &&& forall|i: int, j: int|
            0 <= i < j < self.usage.len() ==> !((#[trigger] self.usage[i]).identity == (
            #[trigger] self.usage[j]).identity && self.usage[i].date == self.usage[j].date)
    }

    /// Every record belongs to a known application.
    pub open spec fn references_hold(self) -> bool {
        forall|i: int| 0 <= i < self.usage.len() ==> self.has_app((#[trigger] self.usage[i]).identity)
    }

    /// No record holds more seconds than a record can.
    pub open spec fn in_range(self) -> bool {
        forall|i: int| 0 <= i < self.usage.len() ==> (#[trigger] self.usage[i]).seconds <= max_seconds()
    }

    /// Every record is for a day that exists.
    pub open spec fn days_exist(self) -> bool {
        forall|i: int| 0 <= i < self.usage.len() ==> valid_ymd((#[trigger] self.usage[i]).date)
    }

    /// What holds of the store at all times.
    pub open spec fn well_formed(self) -> bool {
        &&& self.keys_unique()
        &&& self.references_hold()
        &&& self.in_range()
        &&& self.days_exist()
    }

    /// The store once application `id` is known under the display name `name`: unchanged where
    /// it was known before.
    pub open spec fn with_app_named(self, id: Seq<char>, name: Seq<char>) -> DbModel {
        if self.has_app(id) {
            self
        } else {
            DbModel { apps: self.apps.push(AppModel { identity: id, display_name: name }), ..self }
        }
    }

    /// The store once application `id` is known: a new application is shown under its identity.
    pub open spec fn with_app(self, id: Seq<char>) -> DbModel {
        self.with_app_named(id, id)
    }

    /// The store after `seconds` were added for `id` on `date`.
    pub open spec fn accumulated(self, id: Seq<char>, date: Ymd, seconds: nat) -> DbModel {
        let known = self.with_app(id);
        let at = find_usage(self.usage, id, date);
        if at < self.usage.len() {
            DbModel {
                usage: self.usage.update(
                    at,
                    UsageModel { seconds: self.usage[at].seconds + seconds, ..self.usage[at] },
                ),
                ..known
            }
        } else {
            DbModel {
                usage: self.usage.push(UsageModel { identity: id, date: date, seconds: seconds }),
                ..known
            }
        }
    }

    /// The store after a run of requests, applied in order.
    pub open spec fn accumulated_all(self, ops: Seq<Accumulation>) -> DbModel
        decreases ops.len(),
    {
        if ops.len() == 0 {
            self
        } else {
            let op = ops.last();
            self.accumulated_all(ops.drop_last()).accumulated(op.identity, op.date, op.seconds)
        }
    }

    /// Whether every request of a run can be granted in turn: none takes a day beyond what a
    /// record can hold.
    pub open spec fn accepts(self, ops: Seq<Accumulation>) -> bool
        decreases ops.len(),
    {
        ops.len() == 0 || {
            let op = ops.last();
            &&& self.accepts(ops.drop_last())
            &&& self.accumulated_all(ops.drop_last()).recorded(op.identity, op.date) + op.seconds
                <= max_seconds()
        }
    }

    /// The store once each of `apps` is known, the first of two with one identity winning.
    pub open spec fn with_apps(self, apps: Seq<AppModel>) -> DbModel
        decreases apps.len(),
    {
        if apps.len() == 0 {
            self
        } else {
            self.with_apps(apps.drop_last()).with_app_named(
                apps.last().identity,
                apps.last().display_name,
            )
        }
    }

    /// The total of the day `date` as a query over `start..=end` reports it: nothing for a day
    /// outside the range or without a record.
    pub open spec fn daily_total(self, start: Ymd, end: Ymd, date: Ymd) -> Option<int> {
        reported_total(self.usage, start, end, date)
    }

    /// The seconds of the application at place `app` over the days from `start` to `end`.
    pub open spec fn range_total(self, app: int, start: Ymd, end: Ymd) -> nat {
        app_total(self.usage, self.apps[app].identity, start, end)
    }

    /// Whether `order` lists the places of exactly the applications with seconds in
    /// `start..=end`, those with more seconds first and, among equals, the one seen first.
    pub open spec fn usage_order(self, start: Ymd, end: Ymd, order: Seq<int>) -> bool {
        &&& forall|k: int|
            0 <= k < order.len() ==> 0 <= #[trigger] order[k] < self.apps.len()
                && self.range_total(order[k], start, end) > 0
        &&& forall|a: int|
            0 <= a < self.apps.len() && #[trigger] self.range_total(a, start, end) > 0
                ==> order.contains(a)
        &&& forall|j: int, k: int|
            0 <= j < k < order.len() ==> {
                let first = self.range_total(#[trigger] order[j], start, end);
                let second = self.range_total(#[trigger] order[k], start, end);
                first > second || (first == second && order[j] < order[k])
            }
    }

    /// Whether `listed` is the report of the applications' seconds over `start..=end`: one
    /// line per application that has any, with its display name and its seconds, in the
    /// order that `usage_order` describes.
    pub open spec fn is_usage_report(self, start: Ymd, end: Ymd, listed: Seq<(Seq<char>, int)>) -> bool {
        exists|order: Seq<int>|
            {
                &&& #[trigger] self.usage_order(start, end, order)
                &&& listed.len() == order.len()
                &&& forall|k: int|
                    0 <= k < order.len() ==> #[trigger] listed[k] == (
                        self.apps[order[k]].display_name,
                        self.range_total(order[k], start, end) as int,
                    )
            }
    }

    /// Whether `r` is what the report for the `days_ago` days before `today`, and `today`,
    /// comes to: no report where the calendar has no such first day or where an
    /// application's seconds exceed what a sum can hold, else the report from that day on.
    pub open spec fn is_since_result(
        self,
        today: Ymd,
        days_ago: int,
        r: Result<Seq<(Seq<char>, int)>, StorageError>,
    ) -> bool {
        if days_ago == i64::MIN || date_plus_days(today, -days_ago) is None {
            r == Err::<Seq<(Seq<char>, int)>, StorageError>(StorageError::NoSuchDay)
        } else {
            let start = date_plus_days(today, -days_ago)->0;
            match r {
                Ok(listed) => self.is_usage_report(start, today, listed) && forall|a: int|
                    0 <= a < self.apps.len() ==> #[trigger] self.range_total(a, start, today)
                        <= max_seconds(),
                Err(e) => e == StorageError::SumTooLarge && exists|a: int|
                    0 <= a < self.apps.len() && #[trigger] self.range_total(a, start, today)
                        > max_seconds(),
            }
        }
    }

    /// Whether `order` lists the places of all records, those of a later day first, within a
    /// day those with more seconds first, and among equals the one recorded first.
    pub open spec fn export_order(self, order: Seq<int>) -> bool {
        &&& forall|k: int| 0 <= k < order.len() ==> 0 <= #[trigger] order[k] < self.usage.len()
        &&& forall|i: int| 0 <= i < self.usage.len() ==> #[trigger] order.contains(i)
        &&& forall|j: int, k: int|
            0 <= j < k < order.len() ==> {
                let first = self.usage[#[trigger] order[j]];
                let second = self.usage[#[trigger] order[k]];
                before(second.date, first.date) || (first.date == second.date && (first.seconds
                    > second.seconds || (first.seconds == second.seconds && order[j]
                    < order[k])))
            }
    }

    /// Whether `listed` is the dump of all records: each with its day as text, the display
    /// name of its application and its seconds, in the order that `export_order` describes.
    pub open spec fn is_export(self, listed: Seq<ExportModel>) -> bool {
        exists|order: Seq<int>|
            {
                &&& #[trigger] self.export_order(order)
                &&& listed.len() == order.len()
                &&& forall|k: int|
                    0 <= k < order.len() ==> #[trigger] listed[k] == (ExportModel {
                        date: iso_text(self.usage[order[k]].date),
                        app: self.display_name(self.usage[order[k]].identity),
                        seconds: self.usage[order[k]].seconds as int,
                    })
            }
    }
}

/// One line of the dump: a day as text, an application's display name, and seconds.
pub struct ExportModel {
    pub date: Seq<char>,
    pub app: Seq<char>,
    pub seconds: int,
}

} // verus!
