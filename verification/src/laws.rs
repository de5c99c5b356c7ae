//! What follows from the model of the store: accumulations add up, and every application has
//! one record per day.

use crate::date::{within, Ymd};
use crate::model::{
    app_total, count_records, day_total, find_app, find_usage, records_on, requested, seconds_on,
    Accumulation, AppModel, DbModel, UsageModel,
};
use vstd::prelude::*;

verus! {

/// `find_app` gives the first place at which `id` stands, or the length where it stands nowhere.
pub proof fn lemma_find_app(apps: Seq<AppModel>, id: Seq<char>)
    ensures
        0 <= find_app(apps, id) <= apps.len(),
        find_app(apps, id) < apps.len() ==> apps[find_app(apps, id)].identity == id,
        forall|i: int| 0 <= i < find_app(apps, id) ==> (#[trigger] apps[i]).identity != id,
    decreases apps.len(),
{
    if apps.len() > 0 && apps.first().identity != id {
        let rest = apps.drop_first();
        lemma_find_app(rest, id);
        assert forall|i: int| 0 <= i < find_app(apps, id) implies (#[trigger] apps[i]).identity
            != id by {
            if i > 0 {
                assert(apps[i] == rest[i - 1]);
            }
        }
    }
}

/// `find_usage` gives the first record of `id` on `date`, or the length where there is none.
pub proof fn lemma_find_usage(usage: Seq<UsageModel>, id: Seq<char>, date: Ymd)
    ensures
        0 <= find_usage(usage, id, date) <= usage.len(),
        find_usage(usage, id, date) < usage.len() ==> {
            let r = usage[find_usage(usage, id, date)];
            r.identity == id && r.date == date
        },
        forall|i: int|
            0 <= i < find_usage(usage, id, date) ==> !((#[trigger] usage[i]).identity == id
                && usage[i].date == date),
    decreases usage.len(),
{
    if usage.len() > 0 && !(usage.first().identity == id && usage.first().date == date) {
        let rest = usage.drop_first();
        lemma_find_usage(rest, id, date);
        assert forall|i: int| 0 <= i < find_usage(usage, id, date) implies !((
        #[trigger] usage[i]).identity == id && usage[i].date == date) by {
            if i > 0 {
                assert(usage[i] == rest[i - 1]);
            }
        }
    }
}

/// A key that is counted stands at some place.
pub proof fn lemma_counted_record_exists(usage: Seq<UsageModel>, id: Seq<char>, date: Ymd)
    requires
        count_records(usage, id, date) > 0,
    ensures
        exists|i: int|
            0 <= i < usage.len() && (#[trigger] usage[i]).identity == id && usage[i].date == date,
    decreases usage.len(),
{
    if usage.last().identity == id && usage.last().date == date {
        assert(usage[usage.len() - 1].identity == id);
    } else {
        lemma_counted_record_exists(usage.drop_last(), id, date);
        let i = choose|i: int|
            0 <= i < usage.drop_last().len() && (#[trigger] usage.drop_last()[i]).identity == id
                && usage.drop_last()[i].date == date;
        assert(usage[i] == usage.drop_last()[i]);
    }
}

/// A key that stands nowhere is counted zero times and holds no seconds.
pub proof fn lemma_absent_record(usage: Seq<UsageModel>, id: Seq<char>, date: Ymd)
    requires
        forall|i: int|
            0 <= i < usage.len() ==> !((#[trigger] usage[i]).identity == id && usage[i].date
                == date),
    ensures
        count_records(usage, id, date) == 0,
        seconds_on(usage, id, date) == 0,
    decreases usage.len(),
{
    if usage.len() > 0 {
        let rest = usage.drop_last();
        assert(usage[usage.len() - 1] == usage.last());
        assert forall|i: int| 0 <= i < rest.len() implies !((#[trigger] rest[i]).identity == id
            && rest[i].date == date) by {
            assert(rest[i] == usage[i]);
        }
        lemma_absent_record(rest, id, date);
    }
}

/// Where keys are unique, the one record of a key holds all its seconds.
pub proof fn lemma_single_record(usage: Seq<UsageModel>, at: int)
    requires
        0 <= at < usage.len(),
        forall|i: int, j: int|
            0 <= i < j < usage.len() ==> !((#[trigger] usage[i]).identity == (
            #[trigger] usage[j]).identity && usage[i].date == usage[j].date),
    ensures
        count_records(usage, usage[at].identity, usage[at].date) == 1,
        seconds_on(usage, usage[at].identity, usage[at].date) == usage[at].seconds,
    decreases usage.len(),
{
    let id = usage[at].identity;
    let date = usage[at].date;
    let rest = usage.drop_last();
    assert forall|i: int, j: int| 0 <= i < j < rest.len() implies !((
    #[trigger] rest[i]).identity == (#[trigger] rest[j]).identity && rest[i].date
        == rest[j].date) by {
        assert(rest[i] == usage[i] && rest[j] == usage[j]);
    }
    if at == usage.len() - 1 {
        assert forall|i: int| 0 <= i < rest.len() implies !((#[trigger] rest[i]).identity == id
            && rest[i].date == date) by {
            assert(rest[i] == usage[i]);
        }
        lemma_absent_record(rest, id, date);
    } else {
        assert(rest[at] == usage[at]);
        lemma_single_record(rest, at);
        assert(usage[usage.len() - 1] == usage.last());
    }
}

/// Appending a record adds its seconds to its own key and to no other.
pub proof fn lemma_sums_after_push(usage: Seq<UsageModel>, row: UsageModel, id: Seq<char>, date: Ymd)
    ensures
        seconds_on(usage.push(row), id, date) == seconds_on(usage, id, date) + if row.identity
            == id && row.date == date {
            row.seconds
        } else {
            0nat
        },
        count_records(usage.push(row), id, date) == count_records(usage, id, date) + if row.identity
            == id && row.date == date {
            1nat
        } else {
            0nat
        },
{
    assert(usage.push(row).drop_last() == usage);
}

/// Changing the seconds of one record changes the sum of its key by as much, and no count.
pub proof fn lemma_sums_after_update(
    usage: Seq<UsageModel>,
    at: int,
    seconds: nat,
    id: Seq<char>,
    date: Ymd,
)
    requires
        0 <= at < usage.len(),
    ensures
        ({
            let row = UsageModel { seconds: seconds, ..usage[at] };
            let changed = usage.update(at, row);
            &&& count_records(changed, id, date) == count_records(usage, id, date)
            &&& seconds_on(changed, id, date) + (if usage[at].identity == id && usage[at].date
                == date {
                usage[at].seconds
            } else {
                0nat
            }) == seconds_on(usage, id, date) + (if usage[at].identity == id && usage[at].date
                == date {
                seconds
            } else {
                0nat
            })
        }),
    decreases usage.len(),
{
    let row = UsageModel { seconds: seconds, ..usage[at] };
    let changed = usage.update(at, row);
    if at == usage.len() - 1 {
        assert(changed.drop_last() == usage.drop_last());
    } else {
        assert(changed.drop_last() == usage.drop_last().update(at, row));
        assert(usage.drop_last()[at] == usage[at]);
        lemma_sums_after_update(usage.drop_last(), at, seconds, id, date);
    }
}

/// One accumulation adds its seconds to the day of its application and leaves every other
/// application and day as it was.
pub proof fn lemma_accumulated_recorded(
    m: DbModel,
    op: Accumulation,
    id: Seq<char>,
    date: Ymd,
)
    ensures
        m.accumulated(op.identity, op.date, op.seconds).recorded(id, date) == m.recorded(id, date)
            + if op.identity == id && op.date == date {
            op.seconds
        } else {
            0nat
        },
{
    lemma_find_usage(m.usage, op.identity, op.date);
    let at = find_usage(m.usage, op.identity, op.date);
    if at < m.usage.len() {
        lemma_sums_after_update(m.usage, at, m.usage[at].seconds + op.seconds, id, date);
    } else {
        lemma_sums_after_push(
            m.usage,
            UsageModel { identity: op.identity, date: op.date, seconds: op.seconds },
            id,
            date,
        );
    }
}

/// An accumulation never takes seconds away: what was recorded for an application and day is
/// recorded still, or more.
pub proof fn lemma_recorded_never_decreases(
    m: DbModel,
    op: Accumulation,
    id: Seq<char>,
    date: Ymd,
)
    ensures
        m.accumulated(op.identity, op.date, op.seconds).recorded(id, date) >= m.recorded(id, date),
{
    lemma_accumulated_recorded(m, op, id, date);
}

/// Accumulations add up: after any run of requests, the seconds recorded for an application on
/// a day are those recorded before plus all that the run asked to add for that application and
/// day, whatever else the run held and in whatever order.
pub proof fn lemma_accumulations_add_up(m: DbModel, ops: Seq<Accumulation>, id: Seq<char>, date: Ymd)
    ensures
        m.accumulated_all(ops).recorded(id, date) == m.recorded(id, date) + requested(
            ops,
            id,
            date,
        ),
    decreases ops.len(),
{
    if ops.len() > 0 {
        lemma_accumulations_add_up(m, ops.drop_last(), id, date);
        lemma_accumulated_recorded(m.accumulated_all(ops.drop_last()), ops.last(), id, date);
    }
}

/// Two accumulations may change places: the seconds recorded for every application and day
/// are the same either way.
pub proof fn lemma_accumulation_commutes(
    m: DbModel,
    a: Accumulation,
    b: Accumulation,
    id: Seq<char>,
    date: Ymd,
)
    ensures
        m.accumulated(a.identity, a.date, a.seconds).accumulated(
            b.identity,
            b.date,
            b.seconds,
        ).recorded(id, date) == m.accumulated(b.identity, b.date, b.seconds).accumulated(
            a.identity,
            a.date,
            a.seconds,
        ).recorded(id, date),
{
    lemma_accumulated_recorded(m, a, id, date);
    lemma_accumulated_recorded(m.accumulated(a.identity, a.date, a.seconds), b, id, date);
    lemma_accumulated_recorded(m, b, id, date);
    lemma_accumulated_recorded(m.accumulated(b.identity, b.date, b.seconds), a, id, date);
}

/// Two accumulations for one application and day record what a single one of their sum does.
pub proof fn lemma_accumulation_batches(
    m: DbModel,
    app: Seq<char>,
    day: Ymd,
    first: nat,
    second: nat,
    id: Seq<char>,
    date: Ymd,
)
    ensures
        m.accumulated(app, day, first).accumulated(app, day, second).recorded(id, date)
            == m.accumulated(app, day, first + second).recorded(id, date),
{
    let one = Accumulation { identity: app, date: day, seconds: first };
    let two = Accumulation { identity: app, date: day, seconds: second };
    let both = Accumulation { identity: app, date: day, seconds: first + second };
    lemma_accumulated_recorded(m, one, id, date);
    lemma_accumulated_recorded(m.accumulated(app, day, first), two, id, date);
    lemma_accumulated_recorded(m, both, id, date);
}

/// An accumulation keeps the keys of both tables unique and every record with its application,
/// and leaves exactly one record for the application and day that it names.
pub proof fn lemma_accumulated_unique(m: DbModel, id: Seq<char>, date: Ymd, seconds: nat)
    requires
        m.keys_unique(),
    ensures
        m.accumulated(id, date, seconds).keys_unique(),
        m.references_hold() ==> m.accumulated(id, date, seconds).references_hold(),
        count_records(m.accumulated(id, date, seconds).usage, id, date) == 1,
        forall|other: Seq<char>|
            m.has_app(other) ==> #[trigger] m.accumulated(id, date, seconds).has_app(other),
        m.accumulated(id, date, seconds).has_app(id),
{
    let r = m.accumulated(id, date, seconds);
    lemma_find_usage(m.usage, id, date);
    lemma_find_app(m.apps, id);
    let at = find_usage(m.usage, id, date);
    // the applications
    assert forall|other: Seq<char>| m.has_app(other) implies #[trigger] r.has_app(other) by {
        lemma_app_stays(m, id, other);
    }
    lemma_app_known(m, id);
    assert forall|i: int, j: int| 0 <= i < j < r.apps.len() implies (
    #[trigger] r.apps[i]).identity != (#[trigger] r.apps[j]).identity by {
        if j < m.apps.len() {
            assert(r.apps[i] == m.apps[i] && r.apps[j] == m.apps[j]);
        } else {
            assert(r.apps[i] == m.apps[i]);
        }
    }
    // the records
    if at < m.usage.len() {
        assert forall|i: int, j: int| 0 <= i < j < r.usage.len() implies !((
        #[trigger] r.usage[i]).identity == (#[trigger] r.usage[j]).identity && r.usage[i].date
            == r.usage[j].date) by {
            assert(r.usage[i].identity == m.usage[i].identity && r.usage[i].date
                == m.usage[i].date);
            assert(r.usage[j].identity == m.usage[j].identity && r.usage[j].date
                == m.usage[j].date);
        }
        lemma_single_record(r.usage, at);
    } else {
        assert forall|i: int, j: int| 0 <= i < j < r.usage.len() implies !((
        #[trigger] r.usage[i]).identity == (#[trigger] r.usage[j]).identity && r.usage[i].date
            == r.usage[j].date) by {
            assert(r.usage[i] == m.usage[i]);
            if j < m.usage.len() {
                assert(r.usage[j] == m.usage[j]);
            }
        }
        lemma_single_record(r.usage, m.usage.len() as int);
    }
    if m.references_hold() {
        assert forall|i: int| 0 <= i < r.usage.len() implies r.has_app(
            (#[trigger] r.usage[i]).identity,
        ) by {
            if i < m.usage.len() {
                assert(r.usage[i].identity == m.usage[i].identity);
                assert(m.has_app(m.usage[i].identity));
            }
        }
    }
}

/// An application that is known stays known, at its place, when another is made known.
pub proof fn lemma_app_stays(m: DbModel, id: Seq<char>, other: Seq<char>)
    requires
        m.has_app(other),
    ensures
        find_app(m.with_app(id).apps, other) == find_app(m.apps, other),
        m.with_app(id).has_app(other),
        m.with_app(id).display_name(other) == m.display_name(other),
{
    if !m.has_app(id) {
        lemma_find_app_prefix(m.apps, AppModel { identity: id, display_name: id }, other);
    }
}

/// Looking an identity up in a longer table finds it where the shorter table had it.
pub proof fn lemma_find_app_prefix(apps: Seq<AppModel>, extra: AppModel, id: Seq<char>)
    ensures
        find_app(apps, id) < apps.len() ==> find_app(apps.push(extra), id) == find_app(apps, id),
        find_app(apps, id) == apps.len() ==> find_app(apps.push(extra), id) == if extra.identity
            == id {
            apps.len() as int
        } else {
            apps.len() as int + 1
        },
        0 <= find_app(apps, id) <= apps.len(),
    decreases apps.len(),
{
    lemma_find_app(apps, id);
    if apps.len() == 0 {
        assert(apps.push(extra).first() == extra);
        assert(apps.push(extra).drop_first() =~= Seq::<AppModel>::empty());
        assert(find_app(Seq::<AppModel>::empty(), id) == 0);
    } else {
        assert(apps.push(extra).first() == apps.first());
        assert(apps.push(extra).drop_first() == apps.drop_first().push(extra));
        if apps.first().identity != id {
            lemma_find_app_prefix(apps.drop_first(), extra, id);
        }
    }
}

/// After an application was made known, it is known.
pub proof fn lemma_app_known(m: DbModel, id: Seq<char>)
    ensures
        m.with_app(id).has_app(id),
        !m.has_app(id) ==> find_app(m.with_app(id).apps, id) == m.apps.len(),
        !m.has_app(id) ==> m.with_app(id).display_name(id) == id,
{
    lemma_find_app_prefix(m.apps, AppModel { identity: id, display_name: id }, id);
}

/// After any run of accumulations on a store whose keys are unique, the keys are unique still,
/// and each application and day that the run names has exactly one record.
pub proof fn lemma_one_record_per_day(m: DbModel, ops: Seq<Accumulation>, k: int)
    requires
        m.keys_unique(),
        0 <= k < ops.len(),
    ensures
        m.accumulated_all(ops).keys_unique(),
        count_records(m.accumulated_all(ops).usage, ops[k].identity, ops[k].date) == 1,
    decreases ops.len(),
{
    let before = m.accumulated_all(ops.drop_last());
    let op = ops.last();
    lemma_accumulated_all_unique(m, ops.drop_last());
    lemma_accumulated_unique(before, op.identity, op.date, op.seconds);
    if k < ops.len() - 1 {
        lemma_one_record_per_day(m, ops.drop_last(), k);
        assert(ops.drop_last()[k] == ops[k]);
        lemma_accumulated_count(before, op, ops[k].identity, ops[k].date);
    }
}

/// A run of accumulations keeps the keys of both tables unique.
pub proof fn lemma_accumulated_all_unique(m: DbModel, ops: Seq<Accumulation>)
    requires
        m.keys_unique(),
    ensures
        m.accumulated_all(ops).keys_unique(),
        m.references_hold() ==> m.accumulated_all(ops).references_hold(),
    decreases ops.len(),
{
    if ops.len() > 0 {
        lemma_accumulated_all_unique(m, ops.drop_last());
        let op = ops.last();
        lemma_accumulated_unique(
            m.accumulated_all(ops.drop_last()),
            op.identity,
            op.date,
            op.seconds,
        );
    }
}

/// An accumulation never takes a record away: a key that had a record keeps it.
pub proof fn lemma_accumulated_count(m: DbModel, op: Accumulation, id: Seq<char>, date: Ymd)
    requires
        m.keys_unique(),
        count_records(m.usage, id, date) == 1,
    ensures
        count_records(m.accumulated(op.identity, op.date, op.seconds).usage, id, date) == 1,
{
    lemma_find_usage(m.usage, op.identity, op.date);
    let at = find_usage(m.usage, op.identity, op.date);
    if at < m.usage.len() {
        lemma_sums_after_update(m.usage, at, m.usage[at].seconds + op.seconds, id, date);
    } else {
        lemma_sums_after_push(
            m.usage,
            UsageModel { identity: op.identity, date: op.date, seconds: op.seconds },
            id,
            date,
        );
        if op.identity == id && op.date == date {
            lemma_counted_record_exists(m.usage, id, date);
        }
    }
}

/// A run of requests that can be granted in turn can be granted up to any point.
pub proof fn lemma_accepts_prefix(m: DbModel, ops: Seq<Accumulation>, n: int)
    requires
        0 <= n <= ops.len(),
        m.accepts(ops),
    ensures
        m.accepts(ops.take(n)),
    decreases ops.len(),
{
    if n == ops.len() {
        assert(ops.take(n) == ops);
    } else {
        assert(ops.drop_last().take(n) == ops.take(n));
        lemma_accepts_prefix(m, ops.drop_last(), n);
    }
}

/// The sums over the first `n + 1` records are those over the first `n` and the record at `n`.
pub proof fn lemma_sums_step(usage: Seq<UsageModel>, n: int)
    requires
        0 <= n < usage.len(),
    ensures
        forall|id: Seq<char>, start: Ymd, end: Ymd| #[trigger]
            app_total(usage.take(n + 1), id, start, end) == app_total(
                usage.take(n),
                id,
                start,
                end,
            ) + if usage[n].identity == id && within(usage[n].date, start, end) {
                usage[n].seconds
            } else {
                0nat
            },
        forall|date: Ymd| #[trigger]
            day_total(usage.take(n + 1), date) == day_total(usage.take(n), date) + if usage[n].date
                == date {
                usage[n].seconds
            } else {
                0nat
            },
        forall|date: Ymd| #[trigger]
            records_on(usage.take(n + 1), date) == records_on(usage.take(n), date) + if usage[n].date
                == date {
                1nat
            } else {
                0nat
            },
{
    assert(usage.take(n + 1).drop_last() == usage.take(n));
    assert(usage.take(n + 1).last() == usage[n]);
}

/// The sums over some first records do not exceed the sums over all.
pub proof fn lemma_sums_grow(usage: Seq<UsageModel>, n: int)
    requires
        0 <= n <= usage.len(),
    ensures
        forall|id: Seq<char>, start: Ymd, end: Ymd| #[trigger]
            app_total(usage.take(n), id, start, end) <= app_total(usage, id, start, end),
        forall|date: Ymd| #[trigger] day_total(usage.take(n), date) <= day_total(usage, date),
    decreases usage.len() - n,
{
    if n == usage.len() {
        assert(usage.take(n) == usage);
    } else {
        lemma_sums_step(usage, n);
        lemma_sums_grow(usage, n + 1);
        assert forall|id: Seq<char>, start: Ymd, end: Ymd| #[trigger]
            app_total(usage.take(n), id, start, end) <= app_total(usage, id, start, end) by {
            assert(app_total(usage.take(n + 1), id, start, end) <= app_total(
                usage,
                id,
                start,
                end,
            ));
        }
        assert forall|date: Ymd| #[trigger]
            day_total(usage.take(n), date) <= day_total(usage, date) by {
            assert(day_total(usage.take(n + 1), date) <= day_total(usage, date));
        }
    }
}

/// A day without a record has no seconds, and a day with a record has one at some place.
pub proof fn lemma_records_on(usage: Seq<UsageModel>, date: Ymd)
    ensures
        records_on(usage, date) == 0 ==> day_total(usage, date) == 0,
        records_on(usage, date) > 0 <==> exists|i: int|
            0 <= i < usage.len() && (#[trigger] usage[i]).date == date,
    decreases usage.len(),
{
    if usage.len() > 0 {
        let rest = usage.drop_last();
        lemma_records_on(rest, date);
        if usage.last().date == date {
            assert(usage[usage.len() - 1].date == date);
        } else if records_on(usage, date) > 0 {
            let i = choose|i: int| 0 <= i < rest.len() && (#[trigger] rest[i]).date == date;
            assert(usage[i] == rest[i]);
        } else {
            assert forall|i: int| 0 <= i < usage.len() implies (#[trigger] usage[i]).date
                != date by {
                if i < rest.len() {
                    assert(rest[i] == usage[i]);
                }
            }
        }
    }
}

/// An application is found at its own place where no two share an identity.
pub proof fn lemma_find_app_at(apps: Seq<AppModel>, at: int)
    requires
        0 <= at < apps.len(),
        forall|i: int, j: int|
            0 <= i < j < apps.len() ==> (#[trigger] apps[i]).identity != (
            #[trigger] apps[j]).identity,
    ensures
        find_app(apps, apps[at].identity) == at,
{
    lemma_find_app(apps, apps[at].identity);
    let found = find_app(apps, apps[at].identity);
    if found < at {
        assert(apps[found].identity == apps[at].identity);
    }
}

/// A day without a record is absent from the daily totals of every range, and so is a day
/// outside the range: it is for the reader of the totals to take such a day as zero.
pub proof fn lemma_day_without_records_is_absent(m: DbModel, start: Ymd, end: Ymd, date: Ymd)
    requires
        !within(date, start, end) || forall|i: int|
            0 <= i < m.usage.len() ==> (#[trigger] m.usage[i]).date != date,
    ensures
        m.daily_total(start, end, date) is None,
{
    lemma_records_on(m.usage, date);
}

/// A day of the range with a record is present in the daily totals, with the seconds of all
/// its records.
pub proof fn lemma_day_with_records_is_present(m: DbModel, start: Ymd, end: Ymd, at: int)
    requires
        0 <= at < m.usage.len(),
        within(m.usage[at].date, start, end),
    ensures
        m.daily_total(start, end, m.usage[at].date) == Some(
            day_total(m.usage, m.usage[at].date) as int,
        ),
        day_total(m.usage, m.usage[at].date) >= m.usage[at].seconds,
{
    lemma_records_on(m.usage, m.usage[at].date);
    lemma_day_total_covers(m.usage, at);
}

/// The seconds of a day are at least those of each of its records.
pub proof fn lemma_day_total_covers(usage: Seq<UsageModel>, at: int)
    requires
        0 <= at < usage.len(),
    ensures
        day_total(usage, usage[at].date) >= usage[at].seconds,
    decreases usage.len(),
{
    if at < usage.len() - 1 {
        assert(usage.drop_last()[at] == usage[at]);
        lemma_day_total_covers(usage.drop_last(), at);
    }
}

} // verus!
