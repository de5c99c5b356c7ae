//! The usage store: per application and day, the seconds that the application was focused.

use crate::date::{
    before, clock_today, day_rank, iso_text, lemma_day_rank, valid_ymd, within, Date, Ymd,
};
use crate::errors::StorageError;
use crate::laws::{
    lemma_absent_record, lemma_accepts_prefix, lemma_accumulated_unique, lemma_find_app,
    lemma_find_app_at, lemma_find_app_prefix, lemma_find_usage, lemma_records_on,
    lemma_single_record, lemma_sums_grow, lemma_sums_step,
};
use crate::rank::{
    lemma_strict_rank_order, lists_index, positive_entries, ranks_before, sort_ranked, Ranked,
};
use crate::model::{
    app_total, day_total, find_app, find_usage, max_seconds, reported_total, Accumulation,
    AppModel, DbModel, ExportModel, UsageModel,
};
use crate::totals::DailyTotals;
use crate::text::same_text;
use vstd::prelude::*;

verus! {

/// An application as the store keeps it.
#[derive(Debug, Clone, PartialEq, Eq)]
pub struct Application {
    pub app_identity: String,
    pub display_name: String,
}

/// The seconds that one application was focused on one day.
#[derive(Debug, Clone, PartialEq, Eq)]
pub struct DailyUsage {
    pub app_identity: String,
    pub date: Date,
    pub seconds_focused: u64,
}

/// A record of the usage table; `app` is the place of its application in the other table.
#[derive(Clone, Copy)]
struct UsageRow {
    app: usize,
    date: Date,
    seconds: u64,
}

/// The store: the applications seen so far, and the seconds of each per day.
pub struct Db {
    apps: Vec<Application>,
    usage: Vec<UsageRow>,
}

impl View for Db {
    type V = DbModel;

    closed spec fn view(&self) -> DbModel {
        DbModel {
            apps: Seq::new(
                self.apps@.len(),
                |i: int|
                    AppModel {
                        identity: self.apps@[i].app_identity@,
                        display_name: self.apps@[i].display_name@,
                    },
            ),
            usage: Seq::new(
                self.usage@.len(),
                |i: int|
                    UsageModel {
                        identity: self.apps@[self.usage@[i].app as int].app_identity@,
                        date: self.usage@[i].date@,
                        seconds: self.usage@[i].seconds as nat,
                    },
            ),
        }
    }
}

impl Db {
    /// Every record names an application of the table.
    pub closed spec fn linked(&self) -> bool {
        forall|i: int| 0 <= i < self.usage@.len() ==> (#[trigger] self.usage@[i]).app < self.apps@.len()
    }

    /// What holds of a store between calls.
    pub open spec fn wf(&self) -> bool {
        self.linked() && self@.well_formed()
    }

    /// A store without applications and records.
    pub fn new() -> (db: Db)
        ensures
            db.wf(),
            db@ == DbModel::empty(),
    {
        let db = Db { apps: Vec::new(), usage: Vec::new() };
        assert(db@.apps =~= Seq::empty());
        assert(db@.usage =~= Seq::empty());
        db
    }

    /// The number of applications seen so far.
    pub fn app_count(&self) -> (n: usize)
        ensures
            n == self@.apps.len(),
    {
        self.apps.len()
    }

    /// The number of records.
    pub fn record_count(&self) -> (n: usize)
        ensures
            n == self@.usage.len(),
    {
        self.usage.len()
    }

    /// The place of application `id` in the table, or the table's length where it is unknown.
    fn app_position(&self, id: &str) -> (at: usize)
        ensures
            at == find_app(self@.apps, id@),
            at <= self.apps@.len(),
    {
        let mut i: usize = 0;
        while i < self.apps.len()
            invariant
                i <= self.apps@.len(),
                forall|k: int| 0 <= k < i ==> (#[trigger] self@.apps[k]).identity != id@,
            decreases self.apps@.len() - i,
        {
            if same_text(self.apps[i].app_identity.as_str(), id) {
                proof {
                    lemma_find_app(self@.apps, id@);
                    assert(self@.apps[i as int].identity == id@);
                }
                return i;
            }
            i = i + 1;
        }
        proof {
            lemma_find_app(self@.apps, id@);
        }
        i
    }

    /// The place of the record of the application at `app` on `date`, or the number of records
    /// where there is none. The newest records are looked at first.
    fn row_position(&self, app: usize, date: &Date) -> (at: usize)
        requires
            self.wf(),
            app < self@.apps.len(),
        ensures
            at == find_usage(self@.usage, self@.apps[app as int].identity, date@),
            at <= self.usage@.len(),
    {
        let ghost id = self@.apps[app as int].identity;
        let n = self.usage.len();
        let mut i: usize = n;
        while i > 0
            invariant
                self.wf(),
                app < self@.apps.len(),
                id == self@.apps[app as int].identity,
                n == self.usage@.len(),
                i <= n,
                forall|k: int|
                    i <= k < n ==> !((#[trigger] self@.usage[k]).identity == id
                        && self@.usage[k].date == date@),
            decreases i,
        {
            i = i - 1;
            let row = &self.usage[i];
            proof {
                assert(self.usage@[i as int].app < self.apps@.len());
                if self@.usage[i as int].identity == id && row.app != app {
                    let (x, y) = if (row.app as int) < (app as int) {
                        (row.app as int, app as int)
                    } else {
                        (app as int, row.app as int)
                    };
                    assert(self@.apps[x].identity == self@.apps[y].identity);
                }
                if row.date@ == date@ {
                    row.date.lemma_view_injective(*date);
                }
            }
            if row.app == app && row.date == *date {
                proof {
                    lemma_find_usage(self@.usage, id, date@);
                    let first = find_usage(self@.usage, id, date@);
                    assert(self@.usage[i as int].identity == id);
                    if first < i {
                        assert(self@.usage[first].identity == self@.usage[i as int].identity);
                    }
                }
                return i;
            }
        }
        proof {
            lemma_find_usage(self@.usage, id, date@);
        }
        n
    }

    /// The seconds recorded for application `app_identity` on the day `date`; zero where there
    /// is no record.
    pub fn seconds_for(&self, app_identity: &str, date: Date) -> (seconds: u64)
        requires
            self.wf(),
        ensures
            seconds == self@.recorded(app_identity@, date@),
    {
        let app = self.app_position(app_identity);
        proof {
            lemma_find_app(self@.apps, app_identity@);
            lemma_find_usage(self@.usage, app_identity@, date@);
        }
        if app >= self.apps.len() {
            proof {
                assert forall|i: int| 0 <= i < self@.usage.len() implies !((
                #[trigger] self@.usage[i]).identity == app_identity@ && self@.usage[i].date
                    == date@) by {
                    assert(self@.has_app(self@.usage[i].identity));
                    lemma_find_app(self@.apps, self@.usage[i].identity);
                }
                lemma_absent_record(self@.usage, app_identity@, date@);
            }
            return 0;
        }
        let at = self.row_position(app, &date);
        if at < self.usage.len() {
            proof {
                lemma_single_record(self@.usage, at as int);
            }
            self.usage[at].seconds
        } else {
            proof {
                lemma_absent_record(self@.usage, app_identity@, date@);
            }
            0
        }
    }

    /// The name under which application `app_identity` is shown; its identity where it is not
    /// known.
    pub fn display_name(&self, app_identity: &str) -> (name: String)
        ensures
            name@ == self@.display_name(app_identity@),
    {
        let app = self.app_position(app_identity);
        if app < self.apps.len() {
            self.apps[app].display_name.clone()
        } else {
            app_identity.to_owned()
        }
    }

    /// Makes application `id` known under the display name `name`, unless it is known already.
    /// Returns its place in the table.
    fn register(&mut self, id: &str, name: &str) -> (at: usize)
        requires
            old(self).wf(),
        ensures
            final(self).wf(),
            final(self)@ == old(self)@.with_app_named(id@, name@),
            at == find_app(final(self)@.apps, id@),
            at < final(self)@.apps.len(),
    {
        let at = self.app_position(id);
        if at < self.apps.len() {
            return at;
        }
        let ghost before = self@;
        self.apps.push(Application { app_identity: id.to_owned(), display_name: name.to_owned() });
        proof {
            let extra = AppModel { identity: id@, display_name: name@ };
            assert(self@.apps =~= before.apps.push(extra));
            assert(self@.usage =~= before.usage);
            lemma_find_app_prefix(before.apps, extra, id@);
            assert forall|i: int, j: int| 0 <= i < j < self@.apps.len() implies (
            #[trigger] self@.apps[i]).identity != (#[trigger] self@.apps[j]).identity by {
                lemma_find_app(before.apps, id@);
                if j < before.apps.len() {
                    assert(self@.apps[i] == before.apps[i] && self@.apps[j] == before.apps[j]);
                } else {
                    assert(self@.apps[i] == before.apps[i]);
                }
            }
            assert forall|i: int| 0 <= i < self@.usage.len() implies self@.has_app(
                (#[trigger] self@.usage[i]).identity,
            ) by {
                let other = before.usage[i].identity;
                assert(before.has_app(other));
                lemma_find_app_prefix(before.apps, extra, other);
            }
        }
        at
    }

    /// Adds `seconds` to what application `app_identity` has on the day `date`. The application
    /// is made known first, under its identity as display name; that stays so where the
    /// seconds are refused. Returns the seconds that the day holds after the call.
    pub fn accumulate(&mut self, app_identity: &str, date: Date, seconds: u64) -> (r: Result<
        u64,
        StorageError,
    >)
        requires
            old(self).wf(),
        ensures
            final(self).wf(),
            r is Ok <==> old(self)@.recorded(app_identity@, date@) + seconds <= max_seconds(),
            r matches Ok(total) ==> final(self)@ == old(self)@.accumulated(
                app_identity@,
                date@,
                seconds as nat,
            ) && total == final(self)@.recorded(app_identity@, date@),
            r matches Err(e) ==> e == StorageError::TotalTooLarge && final(self)@ == old(
                self,
            )@.with_app(app_identity@),
    {
        let ghost start = self@;
        proof {
            use_type_invariant(&date);
        }
        let app = self.register(app_identity, app_identity);
        let ghost known = self@;
        proof {
            lemma_find_app(known.apps, app_identity@);
        }
        let at = self.row_position(app, &date);
        proof {
            lemma_find_usage(start.usage, app_identity@, date@);
            lemma_accumulated_unique(start, app_identity@, date@, seconds as nat);
        }
        if at < self.usage.len() {
            let row = self.usage[at];
            proof {
                lemma_single_record(start.usage, at as int);
                assert(start.usage[at as int].seconds == row.seconds);
            }
            if seconds > 0x7fff_ffff_ffff_ffff - row.seconds {
                return Err(StorageError::TotalTooLarge);
            }
            let total = row.seconds + seconds;
            self.usage.set(at, UsageRow { app: row.app, date: row.date, seconds: total });
            proof {
                let target = start.accumulated(app_identity@, date@, seconds as nat);
                assert(self@.apps =~= target.apps);
                assert(self@.usage =~= target.usage);
                lemma_single_record(target.usage, at as int);
                assert forall|i: int| 0 <= i < self@.usage.len() implies (
                #[trigger] self@.usage[i]).seconds <= max_seconds() && valid_ymd(
                    self@.usage[i].date,
                ) by {
                    if i != at {
                        assert(self@.usage[i] == known.usage[i]);
                    } else if at < known.usage.len() {
                        assert(self@.usage[i].date == known.usage[i].date);
                    }
                }
            }
            Ok(total)
        } else {
            proof {
                lemma_absent_record(start.usage, app_identity@, date@);
            }
            if seconds > 0x7fff_ffff_ffff_ffff {
                return Err(StorageError::TotalTooLarge);
            }
            self.usage.push(UsageRow { app, date, seconds });
            proof {
                let target = start.accumulated(app_identity@, date@, seconds as nat);
                assert(self@.apps =~= target.apps);
                assert(self@.usage =~= target.usage);
                lemma_single_record(target.usage, at as int);
                assert forall|i: int| 0 <= i < self@.usage.len() implies (
                #[trigger] self@.usage[i]).seconds <= max_seconds() && valid_ymd(
                    self@.usage[i].date,
                ) by {
                    if i != at {
                        assert(self@.usage[i] == known.usage[i]);
                    } else if at < known.usage.len() {
                        assert(self@.usage[i].date == known.usage[i].date);
                    }
                }
            }
            Ok(seconds)
        }
    }

    /// Adds `seconds` to what application `wm_class` has today, by the clock and the time zone
    /// of this machine. Returns the record of that day as it stands after the call.
    pub fn log_usage(&mut self, wm_class: &str, _window_title: &str, seconds: u64) -> (r: Result<
        DailyUsage,
        StorageError,
    >)
        requires
            old(self).wf(),
        ensures
            final(self).wf(),
            r matches Ok(row) ==> {
                &&& valid_ymd(row.date@)
                &&& row.app_identity@ == wm_class@
                &&& final(self)@ == old(self)@.accumulated(wm_class@, row.date@, seconds as nat)
                &&& row.seconds_focused == final(self)@.recorded(wm_class@, row.date@)
            },
            r matches Err(e) ==> {
                &&& e == StorageError::TotalTooLarge
                &&& final(self)@ == old(self)@.with_app(wm_class@)
                &&& exists|d: Ymd|
                    valid_ymd(d) && #[trigger] old(self)@.recorded(wm_class@, d) + seconds
                        > max_seconds()
            },
    {
        let today = clock_today();
        match self.accumulate(wm_class, today, seconds) {
            Ok(total) => Ok(
                DailyUsage { app_identity: wm_class.to_owned(), date: today, seconds_focused: total },
            ),
            Err(e) => Err(e),
        }
    }

    /// The store that holds the given applications and, for each given record, its seconds:
    /// the state that earlier runs left behind. Records of one application and day are added
    /// up, and an application that only a record names is shown under its identity.
    pub fn init(apps: Vec<Application>, usage: Vec<DailyUsage>) -> (r: Result<Db, StorageError>)
        ensures
            r is Ok <==> DbModel::empty().with_apps(app_models(apps@)).accepts(requests(usage@)),
            r matches Ok(db) ==> db.wf() && db@ == DbModel::empty().with_apps(
                app_models(apps@),
            ).accumulated_all(requests(usage@)),
            r matches Err(e) ==> e == StorageError::TotalTooLarge,
    {
        let mut db = Db::new();
        let mut i: usize = 0;
        while i < apps.len()
            invariant
                i <= apps@.len(),
                db.wf(),
                db@ == DbModel::empty().with_apps(app_models(apps@).take(i as int)),
            decreases apps@.len() - i,
        {
            let app = &apps[i];
            db.register(app.app_identity.as_str(), app.display_name.as_str());
            proof {
                let all = app_models(apps@);
                assert(all.take(i + 1).drop_last() == all.take(i as int));
                assert(all.take(i + 1).last() == all[i as int]);
            }
            i = i + 1;
        }
        assert(app_models(apps@).take(i as int) == app_models(apps@));
        let ghost base = db@;
        let mut j: usize = 0;
        while j < usage.len()
            invariant
                j <= usage@.len(),
                db.wf(),
                base == DbModel::empty().with_apps(app_models(apps@)),
                base.accepts(requests(usage@).take(j as int)),
                db@ == base.accumulated_all(requests(usage@).take(j as int)),
            decreases usage@.len() - j,
        {
            let row = &usage[j];
            proof {
                let all = requests(usage@);
                assert(all.take(j + 1).drop_last() == all.take(j as int));
                assert(all.take(j + 1).last() == all[j as int]);
            }
            match db.accumulate(row.app_identity.as_str(), row.date, row.seconds_focused) {
                Ok(_) => {},
                Err(e) => {
                    proof {
                        if base.accepts(requests(usage@)) {
                            lemma_accepts_prefix(base, requests(usage@), j + 1);
                        }
                    }
                    return Err(e);
                },
            }
            j = j + 1;
        }
        assert(requests(usage@).take(j as int) == requests(usage@));
        Ok(db)
    }

    /// For each application, by its place in the table, its seconds over `start..=end`.
    fn range_totals(&self, start: &Date, end: &Date) -> (r: Result<Vec<u64>, StorageError>)
        requires
            self.wf(),
        ensures
            r is Err <==> exists|a: int|
                0 <= a < self@.apps.len() && #[trigger] self@.range_total(a, start@, end@)
                    > max_seconds(),
            r matches Ok(totals) ==> {
                &&& totals@.len() == self@.apps.len()
                &&& forall|a: int|
                    0 <= a < totals@.len() ==> #[trigger] totals@[a] == self@.range_total(
                        a,
                        start@,
                        end@,
                    )
            },
            r matches Err(e) ==> e == StorageError::SumTooLarge,
    {
        let mut totals: Vec<u64> = Vec::new();
        let mut a: usize = 0;
        while a < self.apps.len()
            invariant
                a <= self.apps@.len(),
                totals@.len() == a,
                forall|b: int| 0 <= b < a ==> #[trigger] totals@[b] == 0,
            decreases self.apps@.len() - a,
        {
            totals.push(0);
            a = a + 1;
        }
        let ghost usage = self@.usage;
        let mut i: usize = 0;
        while i < self.usage.len()
            invariant
                self.wf(),
                usage == self@.usage,
                i <= self.usage@.len(),
                totals@.len() == self@.apps.len(),
                forall|b: int|
                    0 <= b < totals@.len() ==> #[trigger] totals@[b] == app_total(
                        usage.take(i as int),
                        self@.apps[b].identity,
                        start@,
                        end@,
                    ) && totals@[b] <= max_seconds(),
            decreases self.usage@.len() - i,
        {
            let row = &self.usage[i];
            proof {
                lemma_sums_step(usage, i as int);
                assert(self.usage@[i as int].app < self.apps@.len());
                assert(usage[i as int].identity == self@.apps[row.app as int].identity);
                assert forall|b: int| 0 <= b < totals@.len() && b != row.app implies self@.apps[b].identity
                    != usage[i as int].identity by {
                    if b < row.app {
                        assert(self@.apps[b].identity != self@.apps[row.app as int].identity);
                    } else {
                        assert(self@.apps[row.app as int].identity != self@.apps[b].identity);
                    }
                }
            }
            if row.date.is_within(start, end) {
                let so_far = totals[row.app];
                if row.seconds > 0x7fff_ffff_ffff_ffff - so_far {
                    proof {
                        lemma_sums_grow(usage, i + 1);
                        assert(self@.range_total(row.app as int, start@, end@) >= app_total(
                            usage.take(i + 1),
                            self@.apps[row.app as int].identity,
                            start@,
                            end@,
                        ));
                    }
                    return Err(StorageError::SumTooLarge);
                }
                totals.set(row.app, so_far + row.seconds);
            }
            i = i + 1;
        }
        proof {
            assert(usage.take(i as int) == usage);
            assert forall|b: int| 0 <= b < self@.apps.len() implies #[trigger] self@.range_total(
                b,
                start@,
                end@,
            ) <= max_seconds() by {
                assert(totals@[b] <= max_seconds());
            }
        }
        Ok(totals)
    }

    /// The display names and seconds of the applications that `sorted` names, in its order.
    fn named(&self, sorted: &Vec<Ranked>) -> (v: Vec<(String, i64)>)
        requires
            forall|k: int|
                0 <= k < sorted@.len() ==> (#[trigger] sorted@[k]).index < self@.apps.len()
                    && sorted@[k].major <= max_seconds(),
        ensures
            v@.len() == sorted@.len(),
            forall|k: int|
                0 <= k < v@.len() ==> (#[trigger] v@[k]).0@ == self@.apps[sorted@[k].index as int].display_name
                    && v@[k].1 == sorted@[k].major,
    {
        let mut v: Vec<(String, i64)> = Vec::new();
        let mut k: usize = 0;
        while k < sorted.len()
            invariant
                k <= sorted@.len(),
                v@.len() == k,
                forall|j: int|
                    0 <= j < sorted@.len() ==> (#[trigger] sorted@[j]).index < self@.apps.len()
                        && sorted@[j].major <= max_seconds(),
                forall|j: int|
                    0 <= j < k ==> (#[trigger] v@[j]).0@ == self@.apps[sorted@[j].index as int].display_name
                        && v@[j].1 == sorted@[j].major,
            decreases sorted@.len() - k,
        {
            let entry = sorted[k];
            assert(sorted@[k as int].index < self@.apps.len());
            let name = self.apps[entry.index].display_name.clone();
            v.push((name, entry.major as i64));
            k = k + 1;
        }
        v
    }

    /// The seconds of each application over the days from `start` to `end`, both included:
    /// one line per application that has any, the largest first.
    pub fn get_app_usage_range(&self, start: Date, end: Date) -> (r: Result<
        Vec<(String, i64)>,
        StorageError,
    >)
        requires
            self.wf(),
        ensures
            r is Err <==> exists|a: int|
                0 <= a < self@.apps.len() && #[trigger] self@.range_total(a, start@, end@)
                    > max_seconds(),
            r matches Ok(v) ==> self@.is_usage_report(start@, end@, named_totals(v@)),
            r matches Err(e) ==> e == StorageError::SumTooLarge,
    {
        let totals = match self.range_totals(&start, &end) {
            Ok(totals) => totals,
            Err(e) => {
                return Err(e);
            },
        };
        let items = positive_entries(&totals);
        let sorted = sort_ranked(&items);
        proof {
            assert forall|k: int| 0 <= k < sorted@.len() implies {
                let e = #[trigger] sorted@[k];
                e.index < totals@.len() && e.major == totals@[e.index as int] && e.major > 0
                    && e.minor == 0
            } by {
                assert(items@.contains(sorted@[k]));
            }
        }
        let v = self.named(&sorted);
        proof {
            let order = Seq::new(sorted@.len(), |k: int| sorted@[k].index as int);
            lemma_strict_rank_order(sorted@);
            assert forall|a: int|
                0 <= a < self@.apps.len() && #[trigger] self@.range_total(a, start@, end@)
                    > 0 implies order.contains(a) by {
                assert(totals@[a] > 0);
                assert(lists_index(items@, a));
                let j = choose|j: int| 0 <= j < items@.len() && (#[trigger] items@[j]).index == a;
                assert(items@.contains(items@[j]));
                assert(sorted@.contains(items@[j]));
                let k = choose|k: int| 0 <= k < sorted@.len() && sorted@[k] == items@[j];
                assert(order[k] == a);
            }
            assert forall|j: int, k: int| 0 <= j < k < order.len() implies {
                let first = self@.range_total(#[trigger] order[j], start@, end@);
                let second = self@.range_total(#[trigger] order[k], start@, end@);
                first > second || (first == second && order[j] < order[k])
            } by {
                assert(ranks_before(sorted@[j], sorted@[k]));
            }
            assert(self@.usage_order(start@, end@, order));
            let listed = named_totals(v@);
            assert forall|k: int| 0 <= k < order.len() implies #[trigger] listed[k] == (
                self@.apps[order[k]].display_name,
                self@.range_total(order[k], start@, end@) as int,
            ) by {
                assert(v@[k].0@ == self@.apps[sorted@[k].index as int].display_name);
            }
        }
        Ok(v)
    }

    /// The seconds of all applications per day, for the days from `start` to `end`, both
    /// included. A day without a record is not in the result: it is for the caller to read
    /// that as zero.
    pub fn get_daily_totals(&self, start: Date, end: Date) -> (r: Result<DailyTotals, StorageError>)
        requires
            self.wf(),
        ensures
            r is Err <==> exists|date: Ymd|
                within(date, start@, end@) && #[trigger] day_total(self@.usage, date)
                    > max_seconds(),
            r matches Ok(totals) ==> totals.wf() && forall|date: Ymd| #[trigger]
                totals.total_on(date) == self@.daily_total(start@, end@, date),
            r matches Err(e) ==> e == StorageError::SumTooLarge,
    {
        let mut totals = DailyTotals::new();
        let ghost usage = self@.usage;
        let mut i: usize = 0;
        while i < self.usage.len()
            invariant
                self.wf(),
                usage == self@.usage,
                i <= self.usage@.len(),
                totals.wf(),
                forall|date: Ymd| #[trigger]
                    totals.total_on(date) == reported_total(
                        usage.take(i as int),
                        start@,
                        end@,
                        date,
                    ),
            decreases self.usage@.len() - i,
        {
            let row = &self.usage[i];
            let ghost day = row.date@;
            proof {
                lemma_sums_step(usage, i as int);
                lemma_records_on(usage.take(i as int), day);
                assert(usage[i as int].date == day);
                assert(totals.total_on(day) == reported_total(
                    usage.take(i as int),
                    start@,
                    end@,
                    day,
                ));
            }
            if row.date.is_within(&start, &end) {
                let ghost before = totals;
                if !totals.add(row.date, row.seconds) {
                    proof {
                        lemma_sums_grow(usage, i + 1);
                        assert(day_total(usage.take(i + 1), day) <= day_total(usage, day));
                    }
                    return Err(StorageError::SumTooLarge);
                }
                proof {
                    assert forall|date: Ymd| #[trigger]
                        totals.total_on(date) == reported_total(
                            usage.take(i + 1),
                            start@,
                            end@,
                            date,
                        ) by {
                        assert(before.total_on(date) == reported_total(
                            usage.take(i as int),
                            start@,
                            end@,
                            date,
                        ));
                    }
                }
            } else {
                proof {
                    assert forall|date: Ymd| #[trigger]
                        totals.total_on(date) == reported_total(
                            usage.take(i + 1),
                            start@,
                            end@,
                            date,
                        ) by {
                        assert(totals.total_on(date) == reported_total(
                            usage.take(i as int),
                            start@,
                            end@,
                            date,
                        ));
                    }
                }
            }
            i = i + 1;
        }
        proof {
            assert(usage.take(i as int) == usage);
            assert forall|date: Ymd| within(date, start@, end@) implies #[trigger] day_total(
                usage,
                date,
            ) <= max_seconds() by {
                lemma_records_on(usage, date);
                assert(totals.total_on(date) == reported_total(usage, start@, end@, date));
                totals.lemma_in_range(date);
            }
        }
        Ok(totals)
    }

    /// The report of `get_app_usage_range` for the `days_ago` days before `today` and `today`
    /// itself.
    pub fn usage_since(&self, today: Date, days_ago: i64) -> (r: Result<
        Vec<(String, i64)>,
        StorageError,
    >)
        requires
            self.wf(),
        ensures
            self@.is_since_result(today@, days_ago as int, result_model(r)),
    {
        if days_ago == i64::MIN {
            return Err(StorageError::NoSuchDay);
        }
        match today.plus_days(0 - days_ago) {
            None => Err(StorageError::NoSuchDay),
            Some(start) => self.get_app_usage_range(start, today),
        }
    }

    /// The report of `get_app_usage_range` for the last `days_ago` days and today, by the
    /// clock and the time zone of this machine.
    pub fn get_usage_since(&self, days_ago: i64) -> (r: Result<Vec<(String, i64)>, StorageError>)
        requires
            self.wf(),
        ensures
            exists|today: Ymd|
                valid_ymd(today) && #[trigger] self@.is_since_result(
                    today,
                    days_ago as int,
                    result_model(r),
                ),
    {
        let today = clock_today();
        self.usage_since(today, days_ago)
    }

    /// All records, those of the latest day first and within a day those with the most
    /// seconds first, each with its day as text and the display name of its application.
    pub fn export_json(&self) -> (v: Vec<ExportEntry>)
        requires
            self.wf(),
        ensures
            self@.is_export(export_models(v@)),
    {
        let n = self.usage.len();
        let mut items: Vec<Ranked> = Vec::new();
        let mut i: usize = 0;
        while i < n
            invariant
                n == self.usage@.len(),
                i <= n,
                items@.len() == i,
                forall|k: int|
                    0 <= k < i ==> {
                        let e = #[trigger] items@[k];
                        e.index == k && e.major == day_rank(self.usage@[k].date@) && e.minor
                            == self.usage@[k].seconds
                    },
            decreases n - i,
        {
            let row = &self.usage[i];
            items.push(Ranked { major: row.date.rank(), minor: row.seconds, index: i });
            i = i + 1;
        }
        let sorted = sort_ranked(&items);
        proof {
            assert forall|k: int| 0 <= k < sorted@.len() implies {
                let e = #[trigger] sorted@[k];
                e.index < n && e.major == day_rank(self.usage@[e.index as int].date@) && e.minor
                    == self.usage@[e.index as int].seconds
            } by {
                assert(items@.contains(sorted@[k]));
                let j = choose|j: int| 0 <= j < items@.len() && items@[j] == sorted@[k];
                assert(items@[j].index == j);
            }
            lemma_strict_rank_order(sorted@);
        }
        let mut v: Vec<ExportEntry> = Vec::new();
        let mut k: usize = 0;
        while k < sorted.len()
            invariant
                self.wf(),
                n == self.usage@.len(),
                k <= sorted@.len(),
                v@.len() == k,
                forall|j: int|
                    0 <= j < sorted@.len() ==> (#[trigger] sorted@[j]).index < n,
                forall|j: int|
                    0 <= j < k ==> (#[trigger] v@[j])@ == (ExportModel {
                        date: iso_text(self@.usage[sorted@[j].index as int].date),
                        app: self@.display_name(self@.usage[sorted@[j].index as int].identity),
                        seconds: self@.usage[sorted@[j].index as int].seconds as int,
                    }),
            decreases sorted@.len() - k,
        {
            assert(sorted@[k as int].index < n);
            let row = &self.usage[sorted[k].index];
            proof {
                assert(self.usage@[sorted@[k as int].index as int].app < self.apps@.len());
                lemma_find_app_at(self@.apps, row.app as int);
                assert(row.seconds <= max_seconds()) by {
                    assert(self@.usage[sorted@[k as int].index as int].seconds <= max_seconds());
                }
            }
            v.push(
                ExportEntry {
                    date: row.date.to_string(),
                    app: self.apps[row.app].display_name.clone(),
                    seconds: row.seconds as i64,
                },
            );
            k = k + 1;
        }
        proof {
            let order = Seq::new(sorted@.len(), |k: int| sorted@[k].index as int);
            let listed = export_models(v@);
            assert forall|i: int| 0 <= i < self@.usage.len() implies #[trigger] order.contains(
                i,
            ) by {
                assert(items@.contains(items@[i]));
                assert(sorted@.contains(items@[i]));
                let k = choose|k: int| 0 <= k < sorted@.len() && sorted@[k] == items@[i];
                assert(order[k] == i);
            }
            assert forall|j: int, k: int| 0 <= j < k < order.len() implies {
                let first = self@.usage[#[trigger] order[j]];
                let second = self@.usage[#[trigger] order[k]];
                before(second.date, first.date) || (first.date == second.date && (first.seconds
                    > second.seconds || (first.seconds == second.seconds && order[j]
                    < order[k])))
            } by {
                assert(ranks_before(sorted@[j], sorted@[k]));
                let a = self.usage@[sorted@[j].index as int].date;
                let b = self.usage@[sorted@[k].index as int].date;
                assert(valid_ymd(self@.usage[sorted@[j].index as int].date));
                assert(valid_ymd(self@.usage[sorted@[k].index as int].date));
                lemma_day_rank(a@, b@);
                lemma_day_rank(b@, a@);
            }
            assert(self@.export_order(order));
            assert forall|k: int| 0 <= k < order.len() implies #[trigger] listed[k]
                == (ExportModel {
                date: iso_text(self@.usage[order[k]].date),
                app: self@.display_name(self@.usage[order[k]].identity),
                seconds: self@.usage[order[k]].seconds as int,
            }) by {
                assert(v@[k]@ == listed[k]);
            }
        }
        v
    }
}

/// A record of the dump.
#[derive(Debug, Clone, PartialEq, Eq)]
pub struct ExportEntry {
    pub date: String,
    pub app: String,
    pub seconds: i64,
}

impl View for ExportEntry {
    type V = ExportModel;

    open spec fn view(&self) -> ExportModel {
        ExportModel { date: self.date@, app: self.app@, seconds: self.seconds as int }
    }
}

/// The lines of a dump as the model has them.
pub open spec fn export_models(v: Seq<ExportEntry>) -> Seq<ExportModel> {
    Seq::new(v.len(), |k: int| v[k]@)
}

/// The outcome of a report as the model has it.
pub open spec fn result_model(r: Result<Vec<(String, i64)>, StorageError>) -> Result<
    Seq<(Seq<char>, int)>,
    StorageError,
> {
    match r {
        Ok(v) => Ok(named_totals(v@)),
        Err(e) => Err(e),
    }
}

/// A report as mathematics: each line with its name as a sequence of characters.
pub open spec fn named_totals(v: Seq<(String, i64)>) -> Seq<(Seq<char>, int)> {
    Seq::new(v.len(), |k: int| (v[k].0@, v[k].1 as int))
}

/// The applications of a table as the model has them.
pub open spec fn app_models(apps: Seq<Application>) -> Seq<AppModel> {
    Seq::new(
        apps.len(),
        |i: int| AppModel { identity: apps[i].app_identity@, display_name: apps[i].display_name@ },
    )
}

/// Stored records, each read as the request to add its seconds.
pub open spec fn requests(usage: Seq<DailyUsage>) -> Seq<Accumulation> {
    Seq::new(
        usage.len(),
        |i: int|
            Accumulation {
                identity: usage[i].app_identity@,
                date: usage[i].date@,
                seconds: usage[i].seconds_focused as nat,
            },
    )
}

} // verus!
