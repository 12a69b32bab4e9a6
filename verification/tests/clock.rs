use shielded_observer::clock::{
    axis_label, format_plot_label, format_time_label, get_time_range_start, hover_label,
    range_start, timestamp, TimeRange, MAX_TIME, MAX_WRITTEN_TIME, MIN_TIME, MIN_WRITTEN_TIME,
};
use shielded_observer::coverage::{count_days, get_data_coverage};

#[test]
fn times_are_read_as_seconds() {
    assert_eq!(timestamp("1970-01-01T00:00:00Z"), Some(0));
    assert_eq!(timestamp("2024-05-06T07:53:00+00:00"), Some(1_714_981_980));
    assert_eq!(timestamp("2024-05-06T07:53:00.999+02:00"), Some(1_714_974_780));
    assert_eq!(timestamp("1969-12-31T23:59:59.5Z"), Some(-1));
    assert_eq!(timestamp("2024-05-06 07:53"), None);
    assert_eq!(timestamp("2024-13-06T07:53:00Z"), None);
    assert_eq!(timestamp(""), None);
}

#[test]
fn written_times_are_bounded() {
    assert_eq!(timestamp("0000-01-01T00:00:00+23:59"), Some(MIN_WRITTEN_TIME + 60));
    assert_eq!(timestamp("9999-12-31T23:59:59-23:59"), Some(MAX_WRITTEN_TIME - 60));
    assert_eq!(timestamp("10000-01-01T00:00:00Z"), None);
    assert_eq!(timestamp("9999-12-31T23:59:59-24:00"), None);
}

#[test]
fn ranges_reach_back() {
    let now: i64 = 10_000_000;
    assert_eq!(range_start(TimeRange::Last6Hours, now), Some(now - 21_600));
    assert_eq!(range_start(TimeRange::Last12Hours, now), Some(now - 43_200));
    assert_eq!(range_start(TimeRange::Last24Hours, now), Some(now - 86_400));
    assert_eq!(range_start(TimeRange::Last7Days, now), Some(now - 604_800));
    assert_eq!(range_start(TimeRange::Last30Days, now), Some(now - 2_592_000));
    assert_eq!(range_start(TimeRange::All, now), None);
    assert_eq!(TimeRange::default(), TimeRange::Last7Days);
}

#[test]
fn longer_ranges_start_earlier() {
    let ranges = [
        TimeRange::Last6Hours,
        TimeRange::Last12Hours,
        TimeRange::Last24Hours,
        TimeRange::Last7Days,
        TimeRange::Last30Days,
    ];
    for pair in ranges.windows(2) {
        assert!(range_start(pair[1], 5_000_000) < range_start(pair[0], 5_000_000));
    }
}

#[test]
fn ranges_end_at_the_present() {
    let before = chrono::Utc::now().timestamp();
    let start = get_time_range_start(TimeRange::Last24Hours).unwrap();
    let after = chrono::Utc::now().timestamp();
    assert!(before <= start + 86_400 && start + 86_400 <= after);
    assert_eq!(get_time_range_start(TimeRange::All), None);
}

#[test]
fn axis_labels_in_utc() {
    assert_eq!(format_time_label(0, false), "12am");
    assert_eq!(format_time_label(13 * 3600 + 59, false), "1pm");
    assert_eq!(format_time_label(-1, false), "11pm");
    assert_eq!(format_time_label(MAX_TIME, false), "11pm");
    assert_eq!(format_time_label(MAX_TIME + 1, false), "");
    assert_eq!(format_time_label(MIN_TIME, false), "12am");
    assert_eq!(format_time_label(MIN_TIME - 1, false), "");
    assert_eq!(format_time_label(i64::MAX, true), "");
    assert_eq!(format_time_label(i64::MIN, true), "");
}

#[test]
fn axis_labels_in_local_time() {
    let time = chrono::DateTime::from_timestamp(1_714_981_980, 0).unwrap();
    let local = time.with_timezone(&chrono::Local).format("%-I%P").to_string();
    assert_eq!(format_time_label(1_714_981_980, true), local.to_lowercase());
    for secs in [MIN_TIME, MIN_TIME + 1, MAX_TIME - 1, MAX_TIME] {
        assert_ne!(format_time_label(secs, true), "");
    }
}

#[test]
fn axis_labels_are_small() {
    assert_eq!(axis_label(Some("10PM".to_string())), "10pm");
    assert_eq!(axis_label(None), "");
}

#[test]
fn hover_labels_in_utc() {
    assert_eq!(
        format_plot_label(1_714_981_980, "1714981980.0", "53.1", false),
        "May 06, 2024  7:53 am  |  y = 53.1"
    );
    assert_eq!(
        format_plot_label(i64::MAX, "9223372036854775807.0", "53.1", false),
        "x = 9223372036854775807.0"
    );
    assert_eq!(format_plot_label(i64::MIN, "-1.0", "53.1", true), "x = -1.0");
}

#[test]
fn hover_labels_in_local_time() {
    let time = chrono::DateTime::from_timestamp(1_714_981_980, 0).unwrap();
    let local = time.with_timezone(&chrono::Local).format("%b %d, %Y  %-I:%M %P").to_string();
    assert_eq!(
        format_plot_label(1_714_981_980, "x", "-3.5", true),
        format!("{}  |  y = -3.5", local)
    );
    assert_eq!(hover_label(Some("noon".to_string()), "1.0", "2.0"), "noon  |  y = 2.0");
    assert_eq!(hover_label(None, "1.0", "2.0"), "x = 1.0");
}

#[test]
fn days_are_whole() {
    assert_eq!(count_days((0, 0), (86_400, 0)), 1);
    assert_eq!(count_days((0, 1), (86_400, 0)), 0);
    assert_eq!(count_days((0, 0), (86_399, 999_999_999)), 0);
    assert_eq!(count_days((86_400, 0), (0, 0)), u32::MAX);
    assert_eq!(count_days((86_399, 0), (0, 0)), 0);
    assert_eq!(count_days((0, 0), (30 * 86_400 + 5, 0)), 30);
}

#[test]
fn leap_seconds_count_where_they_are_passed() {
    assert_eq!(count_days((59, 1_500_000_000), (86_459, 1_500_000_000)), 1);
    assert_eq!(count_days((59, 1_000_000_000), (86_460, 0)), 1);
    assert_eq!(count_days((60, 0), (86_459, 1_999_999_999)), 0);
    assert_eq!(count_days((60, 0), (86_459, 1_000_000_000)), 0);
}

#[test]
fn coverage_of_known_dates() {
    let c = get_data_coverage(
        Some("KSEA".to_string()),
        123,
        Some("2024-05-01T00:53:00+00:00".to_string()),
        Some("2024-05-06T00:52:00+00:00".to_string()),
    );
    assert_eq!(c.station_id, "KSEA");
    assert_eq!(c.total_records, 123);
    assert_eq!(c.earliest_date.as_deref(), Some("2024-05-01T00:53:00+00:00"));
    assert_eq!(c.latest_date.as_deref(), Some("2024-05-06T00:52:00+00:00"));
    assert_eq!(c.approx_days_covered, Some(4));
}

#[test]
fn coverage_of_nothing() {
    let c = get_data_coverage(None, 0, None, None);
    assert_eq!(c.station_id, "—");
    assert_eq!(c.total_records, 0);
    assert_eq!(c.earliest_date, None);
    assert_eq!(c.latest_date, None);
    assert_eq!(c.approx_days_covered, None);
}

#[test]
fn coverage_of_unreadable_dates() {
    let date = |t: &str| Some(t.to_string());
    let c = get_data_coverage(None, 2, date("yesterday"), date("2024-05-06T00:52:00+00:00"));
    assert_eq!(c.approx_days_covered, None);
    let c = get_data_coverage(None, 2, date("2024-05-06T00:52:00+00:00"), date("today"));
    assert_eq!(c.approx_days_covered, None);
    let c = get_data_coverage(None, 2, date("2024-05-06T00:52:00+00:00"), None);
    assert_eq!(c.approx_days_covered, None);
}
