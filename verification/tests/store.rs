use shielded_observer::catch_up::count_new;
use shielded_observer::export::{
    export_format, file_extension, file_name, missing_extension, Export, ExportFormat, ExportReply,
    ExportRequest,
};
use shielded_observer::location::{copy_text, LocationResult};
use shielded_observer::record::record;
use shielded_observer::service::Observation;
use shielded_observer::store::{
    cache_query, coverage_query, delete_validated_location, export_query, filter_rows,
    humidity_query, init_database, insert_observation, insert_row, latest_collection_query,
    locations_query, save_validated_location, temperature_query, wind_query, wind_speed_query,
    Field, Filter, Param, SchemaChange, Statement, StoredObservation,
};

fn place(station: Option<&str>) -> LocationResult<f64> {
    LocationResult {
        city: "Seattle".to_string(),
        state: "WA".to_string(),
        lat: 47.6,
        lon: -122.3,
        station_id: station.map(|s| s.to_string()),
    }
}

fn shown(param: &Param<f64>) -> String {
    match param {
        Param::Text(t) => format!("text {}", t),
        Param::MaybeText(t) => format!("maybe text {:?}", t),
        Param::Integer(n) => format!("integer {}", n),
        Param::Real(x) => format!("real {}", x),
        Param::MaybeReal(x) => format!("maybe real {:?}", x),
    }
}

fn values(statement: &Statement<f64>) -> Vec<String> {
    statement.params.iter().map(shown).collect()
}

fn database() -> rusqlite::Connection {
    let db = rusqlite::Connection::open_in_memory().unwrap();
    for step in init_database() {
        let done = db.execute(step.sql, []);
        if !step.may_fail {
            done.unwrap();
        }
    }
    db
}

fn sql_values(statement: &Statement<f64>) -> Vec<rusqlite::types::Value> {
    statement
        .params
        .iter()
        .map(|p| match p {
            Param::Text(t) => rusqlite::types::Value::Text(t.clone()),
            Param::MaybeText(t) => t.clone().map_or(rusqlite::types::Value::Null, rusqlite::types::Value::Text),
            Param::Integer(n) => rusqlite::types::Value::Integer(*n),
            Param::Real(x) => rusqlite::types::Value::Real(*x),
            Param::MaybeReal(x) => x.map_or(rusqlite::types::Value::Null, rusqlite::types::Value::Real),
        })
        .collect()
}

fn run(db: &rusqlite::Connection, statement: &Statement<f64>) -> usize {
    db.execute(&statement.sql, rusqlite::params_from_iter(sql_values(statement))).unwrap()
}

fn rows(db: &rusqlite::Connection, statement: &Statement<f64>) -> usize {
    let mut prepared = db.prepare(&statement.sql).unwrap();
    let mut found = prepared.query(rusqlite::params_from_iter(sql_values(statement))).unwrap();
    let mut count = 0;
    while found.next().unwrap().is_some() {
        count += 1;
    }
    count
}

fn observation(time: &str) -> StoredObservation<f64> {
    StoredObservation {
        time: time.to_string(),
        temperature: Some(50.5),
        dewpoint: None,
        humidity: Some(80.0),
        wind_speed: Some("12.3 mph".to_string()),
        wind_direction: None,
    }
}

#[test]
fn series_queries() {
    let q = temperature_query(&place(Some("KSEA")), Some(1000));
    assert_eq!(
        q.sql,
        "SELECT observation_time, temperature, dewpoint FROM hourly_forecasts WHERE city = ?1 AND state = ?2 AND station_id = ?3 AND observation_time >= datetime(?4, 'unixepoch') ORDER BY observation_time ASC"
    );
    assert_eq!(values(&q), vec!["text Seattle", "text WA", "text KSEA", "integer 1000"]);
    let q = wind_speed_query(&place(None), Some(-5));
    assert_eq!(
        q.sql,
        "SELECT observation_time, wind_speed FROM hourly_forecasts WHERE city = ?1 AND state = ?2 AND observation_time >= datetime(?3, 'unixepoch') ORDER BY observation_time ASC"
    );
    assert_eq!(values(&q), vec!["text Seattle", "text WA", "integer -5"]);
    let q = humidity_query(&place(None), None);
    assert_eq!(
        q.sql,
        "SELECT observation_time, relative_humidity FROM hourly_forecasts WHERE city = ?1 AND state = ?2 ORDER BY observation_time ASC"
    );
    assert_eq!(values(&q), vec!["text Seattle", "text WA"]);
}

#[test]
fn queries_on_a_place() {
    let q = wind_query(&place(Some("KSEA")));
    assert_eq!(
        q.sql,
        "SELECT observation_time, wind_speed, wind_direction FROM hourly_forecasts WHERE city = ?1 AND state = ?2 AND station_id = ?3 ORDER BY observation_time ASC LIMIT 500"
    );
    assert_eq!(values(&q), vec!["text Seattle", "text WA", "text KSEA"]);
    let q = coverage_query(&place(None));
    assert_eq!(
        q.sql,
        "SELECT station_id, COUNT(*), MIN(observation_time), MAX(observation_time) FROM hourly_forecasts WHERE city = ?1 AND state = ?2"
    );
    let q: Statement<f64> = latest_collection_query("Seattle", "WA");
    assert_eq!(q.sql, "SELECT MAX(collected_at) FROM hourly_forecasts WHERE city = ?1 AND state = ?2");
    let q: Statement<f64> = export_query("Seattle", "WA", 77);
    assert_eq!(
        q.sql,
        "SELECT start_time, temperature, dewpoint, relative_humidity, wind_speed, wind_direction, short_forecast FROM hourly_forecasts WHERE city = ?1 AND state = ?2 AND collected_at = ?3 ORDER BY start_time ASC"
    );
    assert_eq!(values(&q), vec!["text Seattle", "text WA", "integer 77"]);
    let q: Statement<f64> = cache_query("Seattle", "WA");
    assert_eq!(q.sql, "SELECT lat, lon FROM validated_locations WHERE city = ?1 AND state = ?2 LIMIT 1");
    let q: Statement<f64> = locations_query();
    assert_eq!(
        q.sql,
        "SELECT city, state, lat, lon, station_id FROM validated_locations ORDER BY last_validated DESC"
    );
    assert!(q.params.is_empty());
}

#[test]
fn statements_on_kept_places() {
    let s = save_validated_location(&place(Some("KSEA")), 99);
    assert_eq!(
        s.sql,
        "INSERT INTO validated_locations (city, state, lat, lon, station_id, last_validated) VALUES (?1, ?2, ?3, ?4, ?5, ?6) ON CONFLICT(city, state, station_id) DO UPDATE SET lat = excluded.lat, lon = excluded.lon, last_validated = excluded.last_validated"
    );
    assert_eq!(
        values(&s),
        vec!["text Seattle", "text WA", "real 47.6", "real -122.3", "maybe text Some(\"KSEA\")", "integer 99"]
    );
    let s: Statement<f64> = delete_validated_location("Seattle", "WA", Some("KSEA"));
    assert_eq!(s.sql, "DELETE FROM validated_locations WHERE city = ?1 AND state = ?2 AND station_id = ?3");
    assert_eq!(values(&s), vec!["text Seattle", "text WA", "text KSEA"]);
    let s: Statement<f64> = delete_validated_location("Seattle", "WA", None);
    assert_eq!(s.sql, "DELETE FROM validated_locations WHERE city = ?1 AND state = ?2");
}

#[test]
fn statement_on_an_observation() {
    let s = insert_observation("Seattle", "WA", "KSEA", &observation("2024-05-06T07:53:00+00:00"), 5);
    assert_eq!(
        s.sql,
        "INSERT OR IGNORE INTO hourly_forecasts (city, state, station_id, observation_time, temperature, dewpoint, relative_humidity, wind_speed, wind_direction, collected_at) VALUES (?1, ?2, ?3, ?4, ?5, ?6, ?7, ?8, ?9, ?10)"
    );
    assert_eq!(
        values(&s),
        vec![
            "text Seattle",
            "text WA",
            "text KSEA",
            "text 2024-05-06T07:53:00+00:00",
            "maybe real Some(50.5)",
            "maybe real None",
            "maybe real Some(80.0)",
            "maybe text Some(\"12.3 mph\")",
            "maybe text None",
            "integer 5",
        ]
    );
}

#[test]
fn statements_of_any_conditions_and_columns() {
    let filters: Vec<Filter<f64>> = vec![
        Filter { before: "a < ", after: "", value: Param::Real(1.5) },
        Filter { before: "f(", after: ") > 0", value: Param::MaybeReal(None) },
    ];
    let s = filter_rows("DELETE FROM t", filters, ";");
    assert_eq!(s.sql, "DELETE FROM t WHERE a < ?1 AND f(?2) > 0;");
    assert_eq!(values(&s), vec!["real 1.5", "maybe real None"]);
    let fields: Vec<Field<f64>> = vec![Field { column: "a", value: Param::Integer(3) }];
    let s = insert_row("INSERT INTO t", fields, "");
    assert_eq!(s.sql, "INSERT INTO t (a) VALUES (?1)");
    assert_eq!(values(&s), vec!["integer 3"]);
}

#[test]
fn what_is_stored_is_found_again() {
    let db = database();
    let first = insert_observation("Seattle", "WA", "KSEA", &observation("2024-05-06T07:53:00+00:00"), 5);
    assert_eq!(run(&db, &first), 1);
    assert_eq!(run(&db, &first), 0);
    let second = insert_observation("Seattle", "WA", "KBFI", &observation("2024-05-06T07:53:00+00:00"), 6);
    assert_eq!(run(&db, &second), 1);
    assert_eq!(rows(&db, &wind_query(&place(None))), 2);
    assert_eq!(rows(&db, &wind_query(&place(Some("KSEA")))), 1);
    assert_eq!(rows(&db, &wind_query(&place(Some("KPAE")))), 0);
    assert_eq!(rows(&db, &temperature_query(&place(Some("KSEA")), Some(1_700_000_000))), 1);
    assert_eq!(rows(&db, &temperature_query(&place(Some("KSEA")), Some(1_800_000_000))), 0);
    assert_eq!(rows(&db, &export_query("Seattle", "WA", 5)), 1);
    assert_eq!(rows(&db, &export_query("Seattle", "WA", 7)), 0);
}

#[test]
fn a_kept_place_is_found_renewed_and_dropped() {
    let db = database();
    assert_eq!(run(&db, &save_validated_location(&place(Some("KSEA")), 1)), 1);
    assert_eq!(run(&db, &save_validated_location(&place(Some("KSEA")), 2)), 1);
    assert_eq!(run(&db, &save_validated_location(&place(Some("KBFI")), 3)), 1);
    assert_eq!(rows(&db, &locations_query()), 2);
    assert_eq!(rows(&db, &cache_query("Seattle", "WA")), 1);
    assert_eq!(rows(&db, &cache_query("Seattle", "OR")), 0);
    assert_eq!(run(&db, &delete_validated_location("Seattle", "WA", Some("KSEA"))), 1);
    assert_eq!(rows(&db, &locations_query()), 1);
    assert_eq!(run(&db, &delete_validated_location("Seattle", "WA", None)), 1);
    assert_eq!(rows(&db, &locations_query()), 0);
}

#[test]
fn a_repeated_collection_adds_and_changes_nothing() {
    let db = database();
    let first = insert_observation("Seattle", "WA", "KSEA", &observation("2024-05-06T07:53:00+00:00"), 5);
    let mut changed = observation("2024-05-06T07:53:00+00:00");
    changed.temperature = Some(99.0);
    let again = insert_observation("Seattle", "WA", "KSEA", &changed, 6);
    assert_eq!((run(&db, &first), run(&db, &again)), (1, 0));
    let kept: (f64, i64) = db
        .query_row("SELECT temperature, collected_at FROM hourly_forecasts", [], |row| {
            Ok((row.get(0)?, row.get(1)?))
        })
        .unwrap();
    assert_eq!(kept, (50.5, 5));
}

#[test]
fn preparing_the_database_again_changes_nothing() {
    let db = rusqlite::Connection::open_in_memory().unwrap();
    db.execute(
        "CREATE TABLE validated_locations (id INTEGER PRIMARY KEY, city TEXT NOT NULL, state TEXT NOT NULL, lat REAL NOT NULL, lon REAL NOT NULL, last_validated INTEGER NOT NULL)",
        [],
    )
    .unwrap();
    db.execute(
        "INSERT INTO validated_locations (city, state, lat, lon, last_validated) VALUES ('Seattle', 'WA', 47.6, -122.3, 1)",
        [],
    )
    .unwrap();
    for _ in 0..3 {
        for step in init_database() {
            let done = db.execute(step.sql, []);
            assert!(done.is_ok() || step.may_fail);
        }
        let query: Statement<f64> = locations_query();
        let kept: (String, f64, Option<String>) = db
            .query_row(&query.sql, [], |row| Ok((row.get(0)?, row.get(2)?, row.get(4)?)))
            .unwrap();
        assert_eq!(kept, ("Seattle".to_string(), 47.6, None));
        assert_eq!(rows(&db, &query), 1);
    }
}

#[test]
fn the_place_kept_last_is_read_first() {
    let db = database();
    let _ = run(&db, &save_validated_location(&place(None), 1));
    let _ = run(&db, &save_validated_location(&place(Some("KBFI")), 3));
    let _ = run(&db, &save_validated_location(&place(Some("KSEA")), 2));
    let query: Statement<f64> = locations_query();
    let mut prepared = db.prepare(&query.sql).unwrap();
    let read: Vec<(String, String, f64, f64, Option<String>)> = prepared
        .query_map([], |row| {
            Ok((row.get(0)?, row.get(1)?, row.get(2)?, row.get(3)?, row.get(4)?))
        })
        .unwrap()
        .map(|row| row.unwrap())
        .collect();
    let stations: Vec<Option<String>> = read.iter().map(|row| row.4.clone()).collect();
    assert_eq!(stations, vec![Some("KBFI".to_string()), Some("KSEA".to_string()), None]);
    assert_eq!((read[0].0.as_str(), read[0].1.as_str()), ("Seattle", "WA"));
    assert_eq!((read[0].2, read[0].3), (47.6, -122.3));
}

#[test]
fn a_shorter_range_reads_the_last_rows_and_no_station_reads_all() {
    let db = database();
    for (station, hour) in [("KSEA", 1), ("KBFI", 2), ("KSEA", 3), ("KBFI", 4)] {
        let time = format!("2024-05-06T0{}:53:00+00:00", hour);
        let _ = run(&db, &insert_observation("Seattle", "WA", station, &observation(&time), 5));
    }
    let start = 1_714_960_000;
    let times = |station: Option<&str>, from: Option<i64>| -> Vec<String> {
        let query = humidity_query(&place(station), from);
        let mut prepared = db.prepare(&query.sql).unwrap();
        let found = prepared
            .query_map(rusqlite::params_from_iter(sql_values(&query)), |row| row.get(0))
            .unwrap();
        found.map(|row| row.unwrap()).collect()
    };
    let all = times(None, Some(start - 86_400));
    assert_eq!(all.len(), 4);
    let late = times(None, Some(start + 86_400));
    assert!(all.ends_with(&late));
    let mut parts = times(Some("KSEA"), None);
    parts.extend(times(Some("KBFI"), None));
    parts.sort();
    assert_eq!(parts, all);
}

#[test]
fn only_the_added_column_may_fail() {
    let steps = init_database();
    assert_eq!(steps.len(), 3);
    let changes: Vec<SchemaChange> = steps.iter().map(|step| step.change).collect();
    assert_eq!(
        changes,
        vec![SchemaChange::Locations, SchemaChange::StationColumn, SchemaChange::Forecasts]
    );
    assert!(!steps[0].may_fail && steps[1].may_fail && !steps[2].may_fail);
    assert_eq!(steps[1].sql, "ALTER TABLE validated_locations ADD COLUMN station_id TEXT");
    assert!(steps[0].sql.starts_with("CREATE TABLE IF NOT EXISTS validated_locations ("));
    assert!(steps[2].sql.starts_with("CREATE TABLE IF NOT EXISTS hourly_forecasts ("));
}

#[test]
fn new_rows_are_counted() {
    assert_eq!(count_new(&vec![]), 0);
    assert_eq!(count_new(&vec![Some(1), Some(0), None, Some(2), Some(0), Some(1)]), 3);
    assert_eq!(count_new(&vec![None, None]), 0);
}

#[test]
fn observations_are_recorded_in_other_units() {
    let obs = Observation {
        time: "2024-05-06T07:53:00+00:00".to_string(),
        temperature: Some("10".to_string()),
        dewpoint: Some("-40.0".to_string()),
        humidity: Some("81.25".to_string()),
        wind_speed: Some("10".to_string()),
        wind_direction: Some("269.6".to_string()),
    };
    let stored = record(
        &obs,
        &|s: &str| s.parse::<f64>().ok(),
        &|c: f64| c * 9.0 / 5.0 + 32.0,
        &|mps: f64| format!("{:.1}", mps * 2.23694),
        &|d: f64| format!("{:.0}", d),
    );
    assert_eq!(stored.time, "2024-05-06T07:53:00+00:00");
    assert_eq!(stored.temperature, Some(50.0));
    assert_eq!(stored.dewpoint, Some(-40.0));
    assert_eq!(stored.humidity, Some(81.25));
    assert_eq!(stored.wind_speed.as_deref(), Some("22.4 mph"));
    assert_eq!(stored.wind_direction.as_deref(), Some("270°"));
}

#[test]
fn missing_values_stay_missing() {
    let obs = Observation {
        time: "t".to_string(),
        temperature: None,
        dewpoint: None,
        humidity: None,
        wind_speed: None,
        wind_direction: None,
    };
    let stored = record(
        &obs,
        &|s: &str| s.parse::<f64>().ok(),
        &|c: f64| c + 1.0,
        &|x: f64| x.to_string(),
        &|x: f64| x.to_string(),
    );
    assert_eq!(stored.temperature, None);
    assert_eq!(stored.dewpoint, None);
    assert_eq!(stored.humidity, None);
    assert_eq!(stored.wind_speed, None);
    assert_eq!(stored.wind_direction, None);
}

#[test]
fn places_are_copied() {
    let copy = place(Some("KSEA")).copy();
    assert_eq!((copy.city.as_str(), copy.state.as_str()), ("Seattle", "WA"));
    assert_eq!((copy.lat, copy.lon), (47.6, -122.3));
    assert_eq!(copy.station_id.as_deref(), Some("KSEA"));
    assert_eq!(place(None).with_station("KBFI").station_id.as_deref(), Some("KBFI"));
    assert_eq!(copy_text(&None), None);
}

#[test]
fn formats_and_extensions() {
    assert_eq!(export_format("CSV"), Some(ExportFormat::Csv));
    assert_eq!(export_format("JSON"), Some(ExportFormat::Json));
    assert_eq!(export_format("PNG (coming soon)"), None);
    assert_eq!(export_format("csv"), None);
    assert_eq!(missing_extension(ExportFormat::Csv, "a"), ".csv");
    assert_eq!(missing_extension(ExportFormat::Csv, "a.json"), ".csv");
    assert_eq!(missing_extension(ExportFormat::Csv, "a.CSV"), "");
    assert_eq!(missing_extension(ExportFormat::Json, "a.b.json"), "");
    assert_eq!(missing_extension(ExportFormat::Json, "a.csv"), ".json");
    assert_eq!(ExportFormat::Json.extension(), "json");
    assert_eq!(ExportFormat::Csv.extension(), "csv");
}

#[test]
fn extensions_are_those_of_std() {
    for name in ["a", "a.b", "a.b.c", "a.", ".a", ".a.b", "..a", "..", "a..", "St. Louis_MO", "ü.ö"] {
        let expected = std::path::Path::new(name).extension().map(|e| e.to_str().unwrap());
        assert_eq!(file_extension(name).as_deref(), expected, "{:?}", name);
    }
    assert_eq!(file_extension(""), None);
}

#[test]
fn extensions_are_appended_and_names_kept() {
    assert_eq!(file_name(ExportFormat::Csv, "St. Louis_MO"), "St. Louis_MO.csv");
    assert_eq!(file_name(ExportFormat::Json, "St. Louis_MO"), "St. Louis_MO.json");
    assert_eq!(file_name(ExportFormat::Csv, "Seattle_WA"), "Seattle_WA.csv");
    assert_eq!(file_name(ExportFormat::Csv, "Seattle_WA.csv"), "Seattle_WA.csv");
    assert_eq!(file_name(ExportFormat::Csv, "Seattle_WA.Csv"), "Seattle_WA.Csv");
    assert_eq!(file_name(ExportFormat::Json, "Seattle_WA.csv"), "Seattle_WA.csv.json");
    assert_eq!(file_name(ExportFormat::Csv, ".csv"), ".csv.csv");
    for name in ["a", "a.", ".", "..", ".csv", "a.b.c"] {
        for format in [ExportFormat::Csv, ExportFormat::Json] {
            let written = file_name(format, name);
            assert!(written.starts_with(name));
            assert_eq!(file_extension(&written).as_deref(), Some(format.extension()));
            assert_eq!(file_name(format, &written), written);
        }
    }
}

#[test]
fn an_exported_file_keeps_the_chosen_name() {
    let (mut export, _) = Export::start::<f64>("St. Louis", "MO", "CSV");
    let _ = export.step::<f64>(ExportReply::Latest(Some(7)));
    match export.step::<f64>(ExportReply::Rows(1)) {
        ExportRequest::Choose(name) => assert_eq!(name, "St. Louis_MO"),
        _ => panic!("no choice"),
    }
    let chosen = ExportReply::File("/tmp/St. Louis_MO".to_string(), "St. Louis_MO".to_string());
    assert!(matches!(export.step::<f64>(chosen), ExportRequest::Write(ExportFormat::Csv, _)));
    assert_eq!(ended(export.step(ExportReply::Written)), Ok("/tmp/St. Louis_MO.csv".to_string()));
}

#[test]
fn an_export_runs_to_its_end() {
    let (mut export, first) = Export::start::<f64>("Seattle", "WA", "JSON");
    match first {
        ExportRequest::Latest(q) => {
            assert_eq!(q.sql, "SELECT MAX(collected_at) FROM hourly_forecasts WHERE city = ?1 AND state = ?2")
        }
        _ => panic!("no query"),
    }
    match export.step::<f64>(ExportReply::Latest(Some(7))) {
        ExportRequest::Rows(q) => assert_eq!(values(&q), vec!["text Seattle", "text WA", "integer 7"]),
        _ => panic!("no query"),
    }
    match export.step::<f64>(ExportReply::Rows(3)) {
        ExportRequest::Choose(name) => assert_eq!(name, "Seattle_WA"),
        _ => panic!("no choice"),
    }
    let chosen = ExportReply::File("/tmp/a.json".to_string(), "a.json".to_string());
    match export.step::<f64>(chosen) {
        ExportRequest::Write(format, more) => {
            assert_eq!(format, ExportFormat::Json);
            assert_eq!(more, "");
        }
        _ => panic!("no writing"),
    }
    match export.step::<f64>(ExportReply::Written) {
        ExportRequest::Done(r) => assert_eq!(r, Ok("/tmp/a.json".to_string())),
        _ => panic!("no end"),
    }
}

fn ended(request: ExportRequest<f64>) -> Result<String, String> {
    match request {
        ExportRequest::Done(r) => r,
        _ => panic!("no end"),
    }
}

#[test]
fn exports_that_fail() {
    let (mut export, _) = Export::start::<f64>("Seattle", "WA", "PNG (coming soon)");
    let _ = export.step::<f64>(ExportReply::Latest(Some(7)));
    let _ = export.step::<f64>(ExportReply::Rows(1));
    assert_eq!(
        ended(export.step(ExportReply::File("/tmp/a".to_string(), "a".to_string()))),
        Err("PNG export not implemented yet".to_string())
    );
    let (mut export, _) = Export::start::<f64>("Seattle", "WA", "CSV");
    assert_eq!(
        ended(export.step(ExportReply::Latest(None))),
        Err("No data collected for this location yet".to_string())
    );
    let (mut export, _) = Export::start::<f64>("Seattle", "WA", "CSV");
    let _ = export.step::<f64>(ExportReply::Latest(Some(7)));
    assert_eq!(
        ended(export.step(ExportReply::Rows(0))),
        Err("No data found for export".to_string())
    );
    let (mut export, _) = Export::start::<f64>("Seattle", "WA", "CSV");
    let _ = export.step::<f64>(ExportReply::Latest(Some(7)));
    let _ = export.step::<f64>(ExportReply::Rows(1));
    assert_eq!(ended(export.step(ExportReply::NoFile)), Err("No file selected".to_string()));
    let (mut export, _) = Export::start::<f64>("Seattle", "WA", "CSV");
    assert_eq!(
        ended(export.step(ExportReply::Failed("disk full".to_string()))),
        Err("disk full".to_string())
    );
}
