use focusd::config::{default_idle_timeout, default_interval, Config, ConfigFile};
use focusd::dashboard::{week_chart, weekday_label, zero_filled, Dashboard, Message, Tab};
use focusd::date::Date;
use focusd::db::Db;
use focusd::report::{
    format_dur, format_duration, max_seconds, report_lines, split_duration, total_seconds,
    truncate_pad,
};

fn day(y: i32, m: u32, d: u32) -> Date {
    Date::from_ymd(y, m, d).unwrap()
}

fn config() -> Config {
    Config {
        interval: 1,
        idle_timeout: 300,
        alias: vec![
            ("org.mozilla.firefox".to_string(), "Firefox".to_string()),
            ("kitty".to_string(), "Terminal".to_string()),
            ("kitty".to_string(), "Second".to_string()),
        ],
    }
}

#[test]
fn defaults() {
    assert_eq!(default_interval(), 1);
    assert_eq!(default_idle_timeout(), 300);
    let c = Config::defaults();
    assert_eq!((c.interval, c.idle_timeout, c.alias.len()), (1, 300, 0));
    assert_eq!(Config::load(None), c);
}

#[test]
fn settings_left_out_take_their_defaults() {
    let file = ConfigFile { interval: Some(5), idle_timeout: None, alias: None };
    let c = Config::load(Some(file));
    assert_eq!((c.interval, c.idle_timeout, c.alias.len()), (5, 300, 0));
    let file = ConfigFile {
        interval: None,
        idle_timeout: Some(60),
        alias: Some(vec![("a".to_string(), "b".to_string())]),
    };
    let c = Config::load(Some(file));
    assert_eq!((c.interval, c.idle_timeout), (1, 60));
    assert_eq!(c.alias, vec![("a".to_string(), "b".to_string())]);
}

#[test]
fn aliases() {
    let c = config();
    assert_eq!(c.display_name("org.mozilla.firefox"), "Firefox");
    assert_eq!(c.display_name("kitty"), "Terminal");
    assert_eq!(c.display_name("unknown"), "unknown");
    assert_eq!(c.display_name(""), "");
}

#[test]
fn durations() {
    assert_eq!(format_duration(0), "0s");
    assert_eq!(format_duration(59), "59s");
    assert_eq!(format_duration(60), "1m 0s");
    assert_eq!(format_duration(3599), "59m 59s");
    assert_eq!(format_duration(3600), "1h 0m 0s");
    assert_eq!(format_duration(3723), "1h 2m 3s");
    assert_eq!(format_duration(360000), "100h 0m 0s");
    assert_eq!(format_duration(-40), "-40s");
    assert_eq!(format_duration(-3700), "-40s");
    assert_eq!(format_duration(i64::MAX), "2562047788015215h 30m 7s");
}

#[test]
fn short_durations() {
    assert_eq!(format_dur(0), "0m");
    assert_eq!(format_dur(59), "0m");
    assert_eq!(format_dur(60), "1m");
    assert_eq!(format_dur(3600), "1h 0m");
    assert_eq!(format_dur(3723), "1h 2m");
    assert_eq!(format_dur(-3700), "-1m");
}

#[test]
fn parts_of_a_duration() {
    assert_eq!(split_duration(3723), (1, 2, 3));
    assert_eq!(split_duration(0), (0, 0, 0));
    assert_eq!(split_duration(-3723), (-1, -2, -3));
}

#[test]
fn names_in_a_column() {
    assert_eq!(truncate_pad("Firefox", 15), Some("Firefox        ".to_string()));
    assert_eq!(truncate_pad("exactly15chars!", 15), Some("exactly15chars!".to_string()));
    assert_eq!(truncate_pad("a-very-long-application-name", 15), Some("a-very-long-ap\u{2026}".to_string()));
    assert_eq!(truncate_pad("", 3), Some("   ".to_string()));
    assert_eq!(truncate_pad("", 0), Some(String::new()));
    assert_eq!(truncate_pad("abc", 0), None);
    assert_eq!(truncate_pad("ab", 1), Some("\u{2026}".to_string()));
    assert_eq!(truncate_pad("\u{e9}\u{e9}", 2), None);
    assert_eq!(truncate_pad("\u{e9}\u{e9}", 3), Some("\u{e9}\u{2026}".to_string()));
    assert_eq!(truncate_pad("\u{e9}\u{e9}", 4), Some("\u{e9}\u{e9}  ".to_string()));
}

#[test]
fn totals_of_a_report() {
    let data = vec![("a".to_string(), 300), ("b".to_string(), 50)];
    assert_eq!(total_seconds(&data), Some(350));
    assert_eq!(max_seconds(&data), 300);
    assert_eq!(total_seconds(&Vec::new()), Some(0));
    assert_eq!(max_seconds(&Vec::new()), 1);
    let large = vec![("a".to_string(), i64::MAX), ("b".to_string(), 1)];
    assert_eq!(total_seconds(&large), None);
    let wavering = vec![("a".to_string(), i64::MAX), ("b".to_string(), 1), ("c".to_string(), -5)];
    assert_eq!(total_seconds(&wavering), None);
    assert_eq!(max_seconds(&vec![("a".to_string(), -3), ("b".to_string(), -9)]), -3);
}

#[test]
fn lines_of_a_report() {
    let data = vec![
        ("org.mozilla.firefox".to_string(), 3723),
        (" ".to_string(), 99),
        ("kitty".to_string(), 61),
        ("".to_string(), 5),
        ("other".to_string(), 0),
    ];
    let lines = report_lines(&data, &config());
    let shown: Vec<(String, i64, i64, i64, i64)> =
        lines.into_iter().map(|l| (l.name, l.total, l.hours, l.minutes, l.seconds)).collect();
    assert_eq!(
        shown,
        vec![
            ("Firefox".to_string(), 3723, 1, 2, 3),
            ("Terminal".to_string(), 61, 0, 1, 1),
            ("other".to_string(), 0, 0, 0, 0),
        ]
    );
}

#[test]
fn the_period_of_a_day_and_of_a_week() {
    let mut d = Dashboard::new(day(2023, 12, 14));
    assert_eq!(d.current_tab, Tab::Today);
    assert_eq!(d.get_date_range(), Some((day(2023, 12, 14), day(2023, 12, 14))));
    d.current_tab = Tab::Week;
    assert_eq!(d.get_date_range(), Some((day(2023, 12, 11), day(2023, 12, 17))));
    assert_eq!(d.get_date_range_until(day(2023, 12, 14)), Some((day(2023, 12, 11), day(2023, 12, 14))));
    assert_eq!(d.get_date_range_until(day(2023, 12, 30)), Some((day(2023, 12, 11), day(2023, 12, 17))));
    let last = Dashboard { current_tab: Tab::Week, ref_date: day(262142, 12, 31) };
    assert_eq!(last.get_date_range(), None);
}

#[test]
fn the_controls_move_the_period() {
    let today = day(2024, 3, 15);
    let mut d = Dashboard::new(today);
    assert!(d.update(Message::NavPrev, today));
    assert_eq!(d.ref_date, day(2024, 3, 14));
    assert!(d.update(Message::NavNext, today));
    assert_eq!(d.ref_date, today);
    assert!(!d.update(Message::NavNext, today));
    assert_eq!(d.ref_date, today);
    assert!(d.update(Message::SwitchTab(Tab::Week), today));
    assert_eq!(d.current_tab, Tab::Week);
    assert!(d.update(Message::NavPrev, today));
    assert_eq!(d.ref_date, day(2024, 3, 8));
    assert!(d.update(Message::NavPrev, today));
    assert_eq!(d.ref_date, day(2024, 3, 1));
    assert!(d.update(Message::NavToday, today));
    assert_eq!(d.ref_date, today);
    assert!(d.update(Message::RefreshData, today));
    assert!(!d.update(Message::AnimationTick, today));
    assert!(!d.update(Message::Nothing, today));
    assert_eq!((d.current_tab, d.ref_date), (Tab::Week, today));
}

#[test]
fn a_chart_shows_zero_for_a_day_without_records() {
    let mut db = Db::new();
    db.accumulate("A", day(2024, 1, 1), 100).unwrap();
    db.accumulate("B", day(2024, 1, 1), 50).unwrap();
    db.accumulate("A", day(2024, 1, 3), 30).unwrap();
    let totals = db.get_daily_totals(day(2024, 1, 1), day(2024, 1, 7)).unwrap();
    assert_eq!(zero_filled(&totals, day(2024, 1, 1), 7), vec![150, 0, 30, 0, 0, 0, 0]);
    assert_eq!(zero_filled(&totals, day(2024, 1, 1), 0), Vec::<i64>::new());
    let bars = week_chart(&totals, day(2024, 1, 1), 3);
    assert_eq!(
        bars,
        vec![("Mon".to_string(), 150), ("Tue".to_string(), 0), ("Wed".to_string(), 30)]
    );
}

#[test]
fn weekday_names() {
    let names: Vec<&str> = (0..7).map(weekday_label).collect();
    assert_eq!(names, vec!["Mon", "Tue", "Wed", "Thu", "Fri", "Sat", "Sun"]);
}
