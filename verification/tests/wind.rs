use shielded_observer::clock::TimeRange;
use shielded_observer::graph::{any_points, range_name, Graph};
use shielded_observer::series::{
    get_relative_humidity_data, get_temp_and_dewpoint_data, get_wind_observations,
    get_wind_speed_data, parse_wind_speed, points, PairRow, ValueRow, WindObservation, WindRow,
};
use shielded_observer::text::split_words;
use shielded_observer::wind::{
    bin_wind_direction_hourly, cardinal, degrees_to_cardinal, group_by_hour, hour_start,
    strip_labels, wind_direction_text, wind_speed_text, Cardinal,
};

fn number(s: &str) -> Option<f64> {
    s.parse::<f64>().ok()
}

fn mean(directions: &Vec<f64>) -> f64 {
    let sin: f64 = directions.iter().map(|d| d.to_radians().sin()).sum();
    let cos: f64 = directions.iter().map(|d| d.to_radians().cos()).sum();
    (sin.atan2(cos).to_degrees() + 360.0) % 360.0
}

fn value_row(time: &str, value: Option<f64>) -> ValueRow<f64> {
    ValueRow { time: time.to_string(), value }
}

fn wind_row(time: &str, speed: Option<&str>, direction: Option<&str>) -> WindRow {
    WindRow {
        time: time.to_string(),
        speed: speed.map(|s| s.to_string()),
        direction: direction.map(|s| s.to_string()),
    }
}

fn wind(time: i64, direction: Option<f64>) -> WindObservation<f64> {
    WindObservation { time, speed: 1.0, direction }
}

#[test]
fn humidity_points() {
    let rows = vec![
        value_row("1970-01-01T00:00:10Z", Some(50.0)),
        value_row("1970-01-01T00:00:20Z", None),
        value_row("never", Some(70.0)),
        value_row("1970-01-01T01:00:30+01:00", Some(80.5)),
    ];
    assert_eq!(get_relative_humidity_data(&rows), vec![(10, 50.0), (30, 80.5)]);
    assert_eq!(get_relative_humidity_data::<f64>(&vec![]), vec![]);
}

#[test]
fn temperature_and_dewpoint_points() {
    let row = |time: &str, temperature: Option<f64>, dewpoint: Option<f64>| PairRow {
        time: time.to_string(),
        temperature,
        dewpoint,
    };
    let rows = vec![
        row("1970-01-01T00:00:10Z", Some(50.0), None),
        row("1970-01-01T00:00:20Z", None, Some(40.0)),
        row("1970-01-01T00:00:30Z", Some(52.0), Some(41.0)),
        row("", Some(53.0), Some(42.0)),
    ];
    let (temps, dews) = get_temp_and_dewpoint_data(&rows);
    assert_eq!(temps, vec![(10, 50.0), (30, 52.0)]);
    assert_eq!(dews, vec![(20, 40.0), (30, 41.0)]);
}

#[test]
fn points_of_dated_values_stay_in_order() {
    let rows = vec![(Some(1), Some('a')), (None, Some('b')), (Some(2), None), (Some(3), Some('c'))];
    assert_eq!(points(&rows), vec![(1, 'a'), (3, 'c')]);
}

#[test]
fn speeds_are_the_first_number() {
    assert_eq!(parse_wind_speed("12.3 mph", &number), Some(12.3));
    assert_eq!(parse_wind_speed("about 5 to 10 mph", &number), Some(5.0));
    assert_eq!(parse_wind_speed("calm", &number), None);
    assert_eq!(parse_wind_speed("", &number), None);
    assert_eq!(parse_wind_speed("mph 7mph 8", &number), Some(8.0));
}

#[test]
fn wind_speed_points() {
    let rows = vec![
        wind_row("1970-01-01T00:00:10Z", Some("12.3 mph"), None),
        wind_row("1970-01-01T00:00:20Z", Some("calm"), Some("270°")),
        wind_row("1970-01-01T00:00:30Z", None, None),
        wind_row("later", Some("4.0 mph"), None),
        wind_row("1970-01-01T00:00:40Z", Some("-4.0 mph"), None),
    ];
    assert_eq!(get_wind_speed_data(&rows, &number), vec![(10, 12.3), (40, -4.0)]);
}

#[test]
fn wind_observations_of_rows() {
    let rows = vec![
        wind_row("1970-01-01T00:00:10Z", Some("12.3 mph"), Some("270°")),
        wind_row("1970-01-01T00:00:20Z", Some("calm"), Some("north")),
        wind_row("later", Some("4.0 mph"), Some("1°")),
        wind_row("1970-01-01T00:00:30Z", None, None),
    ];
    let obs = get_wind_observations(&rows, 0.0, &number);
    assert_eq!(obs.len(), 3);
    assert_eq!((obs[0].time, obs[0].speed, obs[0].direction), (10, 12.3, Some(270.0)));
    assert_eq!((obs[1].time, obs[1].speed, obs[1].direction), (20, 0.0, None));
    assert_eq!((obs[2].time, obs[2].speed, obs[2].direction), (30, 0.0, None));
}

#[test]
fn stored_wind_reads_back() {
    assert_eq!(wind_speed_text("12.3"), "12.3 mph");
    assert_eq!(split_words(&wind_speed_text("12.3")), vec!["12.3", "mph"]);
    assert_eq!(parse_wind_speed(&wind_speed_text("12.3"), &number), Some(12.3));
    assert_eq!(wind_direction_text("270"), "270°");
    let rows = vec![wind_row("1970-01-01T00:00:10Z", None, Some(&wind_direction_text("270")))];
    assert_eq!(get_wind_observations(&rows, 0.0, &number)[0].direction, Some(270.0));
}

#[test]
fn hours_start_on_the_hour() {
    assert_eq!(hour_start(0), 0);
    assert_eq!(hour_start(3599), 0);
    assert_eq!(hour_start(3600), 3600);
    assert_eq!(hour_start(-1), -3600);
    for t in [-7201i64, -3600, -3599, 17, 1_714_981_980] {
        assert_eq!(hour_start(t), (t as f64 / 3600.0).floor() as i64 * 3600);
    }
}

#[test]
fn directions_gathered_by_the_hour() {
    let obs = vec![
        wind(10, Some(1.0)),
        wind(20, None),
        wind(3599, Some(2.0)),
        wind(3600, Some(3.0)),
        wind(7300, None),
        wind(7400, Some(4.0)),
        wind(30, Some(5.0)),
    ];
    let groups: Vec<(i64, Vec<f64>)> =
        group_by_hour(&obs).into_iter().map(|g| (g.time, g.directions)).collect();
    assert_eq!(
        groups,
        vec![(0, vec![1.0, 2.0]), (3600, vec![3.0]), (7200, vec![4.0]), (0, vec![5.0])]
    );
    let all: Vec<f64> = groups.into_iter().flat_map(|g| g.1).collect();
    assert_eq!(all, vec![1.0, 2.0, 3.0, 4.0, 5.0]);
}

#[test]
fn observations_without_a_direction_play_no_part() {
    let a = vec![wind(10, Some(1.0)), wind(3700, Some(2.0)), wind(3800, Some(3.0))];
    let mut b = vec![
        wind(0, None),
        wind(10, Some(1.0)),
        wind(3650, None),
        wind(3700, Some(2.0)),
        wind(9000, None),
        wind(3800, Some(3.0)),
    ];
    b[1].speed = 50.0;
    let groups = |obs: &Vec<WindObservation<f64>>| -> Vec<(i64, Vec<f64>)> {
        group_by_hour(obs).into_iter().map(|g| (g.time, g.directions)).collect()
    };
    assert_eq!(groups(&a), groups(&b));
    assert!(groups(&vec![wind(0, None), wind(5, None)]).is_empty());
}

#[test]
fn hours_can_be_gathered_apart() {
    let a = vec![wind(10, Some(1.0)), wind(3590, Some(2.0)), wind(3601, None)];
    let b = vec![wind(20, None), wind(3700, Some(3.0)), wind(7300, Some(4.0))];
    let groups = |obs: &Vec<WindObservation<f64>>| -> Vec<(i64, Vec<f64>)> {
        group_by_hour(obs).into_iter().map(|g| (g.time, g.directions)).collect()
    };
    let mut whole = a.clone();
    whole.extend(b.clone());
    let mut parts = groups(&a);
    parts.extend(groups(&b));
    assert_eq!(groups(&whole), parts);
}

#[test]
fn points_of_parts_make_the_whole() {
    let a = vec![(Some(1), Some('a')), (None, Some('b'))];
    let b = vec![(Some(2), None), (Some(3), Some('c'))];
    let mut whole = a.clone();
    whole.extend(b.clone());
    let mut parts = points(&a);
    parts.extend(points(&b));
    assert_eq!(points(&whole), parts);
}

#[test]
fn ordered_observations_give_one_bin_an_hour() {
    let obs: Vec<WindObservation<f64>> = (0..40).map(|i| wind(i * 700, Some(i as f64))).collect();
    let bins = bin_wind_direction_hourly(&obs, &mean);
    assert_eq!(bins.len(), 8);
    for pair in bins.windows(2) {
        assert!(pair[0].time < pair[1].time);
    }
}

#[test]
fn mean_direction_is_that_of_the_vectors() {
    let obs = vec![wind(0, Some(350.0)), wind(1800, Some(20.0)), wind(4000, Some(90.0)), wind(8000, None)];
    let bins = bin_wind_direction_hourly(&obs, &mean);
    assert_eq!(bins.len(), 2);
    assert_eq!(bins[0].time, 0);
    assert!((bins[0].direction.unwrap() - 5.0).abs() < 1e-9);
    assert_eq!(bins[1].time, 3600);
    assert!((bins[1].direction.unwrap() - 90.0).abs() < 1e-9);
    assert!(bin_wind_direction_hourly(&vec![wind(0, None)], &mean).is_empty());
    assert!(bin_wind_direction_hourly(&vec![], &mean).is_empty());
}

#[test]
fn points_of_the_compass() {
    let names = ["N", "NE", "E", "SE", "S", "SW", "W", "NW"];
    for (k, name) in names.iter().enumerate() {
        let middle = 90 * k as i64;
        assert_eq!(degrees_to_cardinal(Some(middle)), *name);
        assert_eq!(degrees_to_cardinal(Some(middle - 45)), *name);
        assert_eq!(degrees_to_cardinal(Some(middle + 44)), *name);
    }
    assert_eq!(degrees_to_cardinal(None), "?");
    assert_eq!(cardinal(Some(45)), Cardinal::NE);
    assert_eq!(cardinal(Some(675)), Cardinal::N);
    assert_eq!(cardinal(Some(674)), Cardinal::NW);
    assert_eq!(Cardinal::SW.text(), "SW");
}

#[test]
fn whole_turns_change_nothing_and_half_turns_give_the_opposite() {
    for h in 0..720i64 {
        assert_eq!(cardinal(Some(h)), cardinal(Some(h + 720)));
        assert_eq!(cardinal(Some(h)), cardinal(Some(h - 7200)));
    }
    assert_eq!(cardinal(Some(0)), Cardinal::N);
    assert_eq!(cardinal(Some(360)), Cardinal::S);
    assert_eq!(cardinal(Some(100)), Cardinal::NE);
    assert_eq!(cardinal(Some(460)), Cardinal::SW);
}

#[test]
fn strip_is_labelled_where_the_direction_changes_or_a_label_is_due() {
    let n = Some(Cardinal::N);
    let e = Some(Cardinal::E);
    let bins = vec![
        (0, n),
        (3600, n),
        (7200, e),
        (10_800, e),
        (14_400, e),
        (18_000, None),
        (21_600, n),
        (25_200, n),
        (28_800, n),
    ];
    assert_eq!(
        strip_labels(&bins),
        vec![
            (0, Cardinal::N),
            (7200, Cardinal::E),
            (14_400, Cardinal::E),
            (21_600, Cardinal::N),
            (28_800, Cardinal::N),
        ]
    );
    assert_eq!(strip_labels(&vec![(5, None)]), vec![]);
}

#[test]
fn every_third_or_fourth_point_is_labelled() {
    for graph in [Graph::WindSpeed, Graph::Humidity] {
        let labelled: Vec<usize> = (0..10).filter(|i| graph.has_label(*i)).collect();
        assert_eq!(labelled, vec![0, 3, 6, 9]);
    }
    let labelled: Vec<usize> = (0..10).filter(|i| Graph::Temperature.has_label(*i)).collect();
    assert_eq!(labelled, vec![0, 4, 8]);
}

#[test]
fn graphs_without_points_are_told_of() {
    assert_eq!(Graph::Temperature.note(Some(true)), None);
    assert_eq!(
        Graph::Temperature.note(Some(false)),
        Some("No temperature/dewpoint data yet. Click 'Collect Now'.")
    );
    assert_eq!(
        Graph::WindSpeed.note(Some(false)),
        Some("No wind speed data yet. Click 'Collect Now'.")
    );
    assert_eq!(
        Graph::Humidity.note(Some(false)),
        Some("No humidity data yet. Click 'Collect Now'.")
    );
    assert_eq!(Graph::Temperature.note(None), Some("Failed to load temperature data."));
    assert_eq!(Graph::WindSpeed.note(None), Some("Failed to load wind speed data."));
    assert_eq!(Graph::Humidity.note(None), Some("Failed to load humidity data."));
    assert_eq!(Graph::Temperature.heading(), "Temperature + Dewpoint (°F)");
    assert_eq!(Graph::WindSpeed.heading(), "Wind Speed (mph)");
    assert_eq!(Graph::Humidity.heading(), "Relative Humidity (%)");
}

#[test]
fn temperatures_or_dewpoints_make_a_graph() {
    assert!(!any_points(0, 0));
    assert!(any_points(1, 0));
    assert!(any_points(0, 2));
    assert!(any_points(3, 4));
}

#[test]
fn names_of_time_ranges() {
    assert_eq!(range_name(TimeRange::Last6Hours), "Last 6h");
    assert_eq!(range_name(TimeRange::Last12Hours), "Last 12h");
    assert_eq!(range_name(TimeRange::Last24Hours), "Last 24h");
    assert_eq!(range_name(TimeRange::Last7Days), "Last 7 Days");
    assert_eq!(range_name(TimeRange::Last30Days), "Last 30 Days");
    assert_eq!(range_name(TimeRange::All), "All Data");
}

#[test]
fn rows_in_order_give_observations_in_order() {
    let rows = vec![
        wind_row("1970-01-01T00:00:10Z", None, Some("1°")),
        wind_row("?", None, None),
        wind_row("1970-01-01T01:00:20+01:00", None, Some("2°")),
        wind_row("1970-01-01T00:00:20Z", None, None),
    ];
    let times: Vec<i64> =
        get_wind_observations(&rows, 0.0, &number).iter().map(|o| o.time).collect();
    assert_eq!(times, vec![10, 20, 20]);
}
