use focusd::date::Date;
use focusd::db::{Application, DailyUsage, Db, ExportEntry};
use focusd::errors::StorageError;

fn day(y: i32, m: u32, d: u32) -> Date {
    Date::from_ymd(y, m, d).unwrap()
}

fn sample() -> Db {
    let mut db = Db::new();
    db.accumulate("A", day(2024, 1, 1), 100).unwrap();
    db.accumulate("A", day(2024, 1, 2), 200).unwrap();
    db.accumulate("B", day(2024, 1, 1), 50).unwrap();
    db
}

#[test]
fn accumulate_adds_seconds_for_the_same_day() {
    let mut db = Db::new();
    let d = day(2024, 1, 1);
    assert_eq!(db.accumulate("Firefox", d, 5), Ok(5));
    assert_eq!(db.accumulate("Firefox", d, 7), Ok(12));
    assert_eq!(db.seconds_for("Firefox", d), 12);
    assert_eq!(db.record_count(), 1);
    assert_eq!(db.app_count(), 1);
}

#[test]
fn accumulations_add_up_whatever_stands_between_them() {
    let d = day(2024, 3, 9);
    let mut one = Db::new();
    one.accumulate("Firefox", d, 3).unwrap();
    one.accumulate("kitty", d, 40).unwrap();
    one.accumulate("Firefox", d, 4).unwrap();
    one.accumulate("kitty", day(2024, 3, 10), 9).unwrap();
    one.accumulate("Firefox", d, 5).unwrap();
    let mut other = Db::new();
    other.accumulate("Firefox", d, 5).unwrap();
    other.accumulate("Firefox", d, 4).unwrap();
    other.accumulate("Firefox", d, 3).unwrap();
    assert_eq!(one.seconds_for("Firefox", d), 12);
    assert_eq!(other.seconds_for("Firefox", d), 12);
    assert_eq!(one.seconds_for("kitty", d), 40);
    assert_eq!(one.seconds_for("kitty", day(2024, 3, 10)), 9);
}

#[test]
fn one_accumulation_of_the_sum_records_the_same() {
    let d = day(2024, 3, 9);
    let mut split = Db::new();
    split.accumulate("Firefox", d, 30).unwrap();
    split.accumulate("Firefox", d, 12).unwrap();
    let mut whole = Db::new();
    whole.accumulate("Firefox", d, 42).unwrap();
    assert_eq!(split.seconds_for("Firefox", d), whole.seconds_for("Firefox", d));
}

#[test]
fn one_record_per_application_and_day() {
    let mut db = Db::new();
    for _ in 0..10 {
        db.accumulate("A", day(2024, 1, 1), 1).unwrap();
        db.accumulate("B", day(2024, 1, 1), 1).unwrap();
        db.accumulate("A", day(2024, 1, 2), 1).unwrap();
    }
    assert_eq!(db.record_count(), 3);
    assert_eq!(db.app_count(), 2);
    let dump = db.export_json();
    assert_eq!(dump.len(), 3);
    let same_key = dump.iter().filter(|e| e.app == "A" && e.date == "2024-01-01").count();
    assert_eq!(same_key, 1);
}

#[test]
fn a_new_application_is_shown_under_its_identity() {
    let mut db = Db::new();
    db.accumulate("org.mozilla.firefox", day(2024, 1, 1), 1).unwrap();
    assert_eq!(db.display_name("org.mozilla.firefox"), "org.mozilla.firefox");
    assert_eq!(db.display_name("unknown"), "unknown");
}

#[test]
fn zero_seconds_make_a_record() {
    let mut db = Db::new();
    assert_eq!(db.accumulate("A", day(2024, 1, 1), 0), Ok(0));
    assert_eq!(db.record_count(), 1);
}

#[test]
fn accumulate_refuses_what_a_record_cannot_hold() {
    let mut db = Db::new();
    let d = day(2024, 1, 1);
    assert_eq!(db.accumulate("A", d, i64::MAX as u64), Ok(i64::MAX as u64));
    assert_eq!(db.accumulate("A", d, 1), Err(StorageError::TotalTooLarge));
    assert_eq!(db.seconds_for("A", d), i64::MAX as u64);
    assert_eq!(db.accumulate("A", d, 0), Ok(i64::MAX as u64));
}

#[test]
fn refused_seconds_still_make_the_application_known() {
    let mut db = Db::new();
    let d = day(2024, 1, 1);
    assert_eq!(db.accumulate("A", d, u64::MAX), Err(StorageError::TotalTooLarge));
    assert_eq!(db.app_count(), 1);
    assert_eq!(db.record_count(), 0);
    assert_eq!(db.seconds_for("A", d), 0);
}

#[test]
fn range_aggregation() {
    let db = sample();
    let apps = db.get_app_usage_range(day(2024, 1, 1), day(2024, 1, 2)).unwrap();
    assert_eq!(apps, vec![("A".to_string(), 300), ("B".to_string(), 50)]);
    let days = db.get_daily_totals(day(2024, 1, 1), day(2024, 1, 2)).unwrap();
    assert_eq!(days.get(&day(2024, 1, 1)), Some(150));
    assert_eq!(days.get(&day(2024, 1, 2)), Some(200));
}

#[test]
fn range_bounds_are_inclusive() {
    let db = sample();
    let apps = db.get_app_usage_range(day(2024, 1, 2), day(2024, 1, 2)).unwrap();
    assert_eq!(apps, vec![("A".to_string(), 200)]);
    let apps = db.get_app_usage_range(day(2024, 1, 1), day(2024, 1, 1)).unwrap();
    assert_eq!(apps, vec![("A".to_string(), 100), ("B".to_string(), 50)]);
    let none = db.get_app_usage_range(day(2024, 1, 3), day(2024, 1, 9)).unwrap();
    assert!(none.is_empty());
    let backwards = db.get_app_usage_range(day(2024, 1, 2), day(2024, 1, 1)).unwrap();
    assert!(backwards.is_empty());
}

#[test]
fn applications_without_seconds_in_the_range_are_left_out() {
    let mut db = sample();
    db.accumulate("C", day(2024, 1, 1), 0).unwrap();
    let apps = db.get_app_usage_range(day(2024, 1, 1), day(2024, 1, 2)).unwrap();
    assert_eq!(apps, vec![("A".to_string(), 300), ("B".to_string(), 50)]);
}

#[test]
fn equal_totals_keep_the_order_of_first_sight() {
    let mut db = Db::new();
    db.accumulate("x", day(2024, 1, 1), 10).unwrap();
    db.accumulate("y", day(2024, 1, 1), 30).unwrap();
    db.accumulate("z", day(2024, 1, 1), 10).unwrap();
    let apps = db.get_app_usage_range(day(2024, 1, 1), day(2024, 1, 1)).unwrap();
    assert_eq!(
        apps,
        vec![("y".to_string(), 30), ("x".to_string(), 10), ("z".to_string(), 10)]
    );
}

#[test]
fn a_day_without_records_is_absent_from_the_daily_totals() {
    let mut db = Db::new();
    db.accumulate("A", day(2024, 1, 1), 10).unwrap();
    db.accumulate("A", day(2024, 1, 3), 20).unwrap();
    db.accumulate("A", day(2024, 1, 9), 20).unwrap();
    let days = db.get_daily_totals(day(2024, 1, 1), day(2024, 1, 3)).unwrap();
    assert_eq!(days.get(&day(2024, 1, 1)), Some(10));
    assert_eq!(days.get(&day(2024, 1, 2)), None);
    assert_eq!(days.get(&day(2024, 1, 3)), Some(20));
    assert_eq!(days.get(&day(2024, 1, 9)), None);
}

#[test]
fn a_day_with_a_record_of_zero_seconds_is_present() {
    let mut db = Db::new();
    db.accumulate("A", day(2024, 1, 1), 0).unwrap();
    let days = db.get_daily_totals(day(2024, 1, 1), day(2024, 1, 1)).unwrap();
    assert_eq!(days.get(&day(2024, 1, 1)), Some(0));
}

#[test]
fn sums_beyond_the_limit_fail_the_query() {
    let mut db = Db::new();
    db.accumulate("A", day(2024, 1, 1), i64::MAX as u64).unwrap();
    db.accumulate("A", day(2024, 1, 2), 1).unwrap();
    db.accumulate("B", day(2024, 1, 1), 1).unwrap();
    assert_eq!(
        db.get_app_usage_range(day(2024, 1, 1), day(2024, 1, 2)),
        Err(StorageError::SumTooLarge)
    );
    assert!(db.get_app_usage_range(day(2024, 1, 2), day(2024, 1, 2)).is_ok());
    let r = db.get_daily_totals(day(2024, 1, 1), day(2024, 1, 2));
    assert!(matches!(r, Err(StorageError::SumTooLarge)));
    assert!(db.get_daily_totals(day(2024, 1, 2), day(2024, 1, 2)).is_ok());
}

#[test]
fn export_lists_later_days_and_larger_totals_first() {
    let db = sample();
    let dump = db.export_json();
    let entry = |date: &str, app: &str, seconds: i64| ExportEntry {
        date: date.to_string(),
        app: app.to_string(),
        seconds,
    };
    assert_eq!(
        dump,
        vec![
            entry("2024-01-02", "A", 200),
            entry("2024-01-01", "A", 100),
            entry("2024-01-01", "B", 50),
        ]
    );
}

#[test]
fn export_of_an_empty_store_is_empty() {
    assert!(Db::new().export_json().is_empty());
}

#[test]
fn init_restores_what_was_stored() {
    let apps = vec![
        Application { app_identity: "A".to_string(), display_name: "Alpha".to_string() },
        Application { app_identity: "B".to_string(), display_name: "B".to_string() },
    ];
    let usage = vec![
        DailyUsage { app_identity: "A".to_string(), date: day(2024, 1, 1), seconds_focused: 100 },
        DailyUsage { app_identity: "B".to_string(), date: day(2024, 1, 1), seconds_focused: 50 },
        DailyUsage { app_identity: "C".to_string(), date: day(2024, 1, 1), seconds_focused: 7 },
    ];
    let db = Db::init(apps, usage).unwrap();
    assert_eq!(db.app_count(), 3);
    assert_eq!(db.record_count(), 3);
    assert_eq!(db.display_name("A"), "Alpha");
    assert_eq!(db.display_name("C"), "C");
    let report = db.get_app_usage_range(day(2024, 1, 1), day(2024, 1, 1)).unwrap();
    assert_eq!(
        report,
        vec![("Alpha".to_string(), 100), ("B".to_string(), 50), ("C".to_string(), 7)]
    );
}

#[test]
fn init_refuses_records_beyond_the_limit() {
    let usage = vec![
        DailyUsage { app_identity: "A".to_string(), date: day(2024, 1, 1), seconds_focused: u64::MAX },
    ];
    assert!(matches!(Db::init(Vec::new(), usage), Err(StorageError::TotalTooLarge)));
}

#[test]
fn display_names_are_not_overwritten_by_accumulation() {
    let apps = vec![Application { app_identity: "A".to_string(), display_name: "Alpha".to_string() }];
    let mut db = Db::init(apps, Vec::new()).unwrap();
    db.accumulate("A", day(2024, 1, 1), 1).unwrap();
    assert_eq!(db.display_name("A"), "Alpha");
    assert_eq!(db.app_count(), 1);
}

#[test]
fn usage_since_covers_the_days_before_today() {
    let db = sample();
    let today = day(2024, 1, 2);
    assert_eq!(db.usage_since(today, 0).unwrap(), vec![("A".to_string(), 200)]);
    assert_eq!(
        db.usage_since(today, 1).unwrap(),
        vec![("A".to_string(), 300), ("B".to_string(), 50)]
    );
    assert_eq!(
        db.usage_since(day(2024, 1, 8), 7).unwrap(),
        vec![("A".to_string(), 300), ("B".to_string(), 50)]
    );
    assert_eq!(db.usage_since(day(2024, 1, 9), 7).unwrap(), vec![("A".to_string(), 200)]);
}

#[test]
fn usage_since_fails_where_the_calendar_ends() {
    let db = sample();
    let today = day(2024, 1, 2);
    assert_eq!(db.usage_since(today, i64::MIN), Err(StorageError::NoSuchDay));
    assert_eq!(db.usage_since(today, i64::MAX), Err(StorageError::NoSuchDay));
    assert_eq!(db.usage_since(today, 400_000 * 366), Err(StorageError::NoSuchDay));
}

#[test]
fn log_usage_records_for_the_day_of_the_clock() {
    let mut db = Db::new();
    let first = db.log_usage("Firefox", "Some page", 2).unwrap();
    assert_eq!(first.app_identity, "Firefox");
    assert_eq!(first.seconds_focused, 2);
    assert_eq!(db.seconds_for("Firefox", first.date), 2);
    assert!(first.date.year() >= 2024);
    let today = db.get_usage_since(1).unwrap();
    assert_eq!(today, vec![("Firefox".to_string(), 2)]);
}
