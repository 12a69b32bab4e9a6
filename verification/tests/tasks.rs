use shielded_observer::catch_up::{CatchUp, WINDOW, WINDOWS};
use shielded_observer::collect::{Collection, Request};
use shielded_observer::failure::Failure;
use shielded_observer::history::{finding, HistoryCheck, HistoryRequest};
use shielded_observer::json::{Cell, Listing};
use shielded_observer::search::{
    first_match, geocode_location, geocode_url, located, read_geocode, GeocodeRequest, Geocoded,
    SearchRequest, StationSearch,
};
use shielded_observer::service::{
    closest_station, latest_url, nearby_stations, observations, oldest_url, points_url, short_name,
    stations_url, window_url,
};
use shielded_observer::task::{read_reply, Awaited, Input, Reply};

const POINT: &str = r#"{"properties": {"observationStations": "https://example.org/stations"}}"#;

const STATIONS: &str = r#"{"features": [
    {"id": "https://api.weather.gov/stations/KSEA"},
    {"id": 3},
    {"id": "https://api.weather.gov/stations/KBFI"},
    {},
    {"id": "KPAE"},
    {"id": "https://api.weather.gov/stations/KRNT"},
    {"id": "https://api.weather.gov/stations/KPWT"}
]}"#;

const OBSERVATIONS: &str = r#"{"features": [
    {"properties": {
        "timestamp": "2024-05-06T07:53:00+00:00",
        "temperature": {"value": 10.5},
        "dewpoint": {"value": null},
        "relativeHumidity": {"value": 81},
        "windSpeed": {"value": -1e-3},
        "windDirection": {"value": "north"}
    }},
    {"properties": {"timestamp": ""}},
    {"properties": {"timestamp": 7}},
    {"properties": {"timestamp": "2024-05-06T08:53:00+00:00"}},
    {}
]}"#;

fn body(text: &str) -> Reply {
    Reply::Body(text.as_bytes().to_vec())
}

fn failed(words: &str) -> Reply {
    Reply::Failed(words.to_string())
}

fn fetched(request: Request) -> String {
    match request {
        Request::Fetch(url) => url,
        _ => panic!("no address"),
    }
}

fn done(request: Request) -> Result<usize, String> {
    match request {
        Request::Done(r) => r.map_err(|e| e.message()),
        _ => panic!("no end"),
    }
}

fn text(s: &str) -> Cell {
    Cell::Text(s.to_string())
}

#[test]
fn addresses() {
    assert_eq!(points_url("47.6", "-122.3"), "https://api.weather.gov/points/47.6,-122.3");
    assert_eq!(latest_url("KSEA"), "https://api.weather.gov/stations/KSEA/observations?limit=500");
    assert_eq!(window_url("u/KSEA", "a", "b"), "u/KSEA/observations?start=a&end=b");
    assert_eq!(
        oldest_url("u/KSEA"),
        "u/KSEA/observations?start=2020-01-01T00:00:00Z&limit=1"
    );
    assert_eq!(short_name("https://api.weather.gov/stations/KSEA"), "KSEA");
}

#[test]
fn failures_in_words() {
    assert_eq!(Failure::Given("timed out".to_string()).message(), "timed out");
    assert_eq!(Failure::UndecodableBody.message(), "error decoding response body");
    assert_eq!(Failure::NoStationsUrl.message(), "Could not find observationStations URL");
    assert_eq!(Failure::NoStations.message(), "No stations found");
    assert_eq!(
        Failure::NoStationNearby.message(),
        "No weather stations found near this location"
    );
    assert_eq!(Failure::InvalidStation.message(), "Invalid station data");
    assert_eq!(Failure::NoObservations.message(), "No observations found");
}

#[test]
fn replies_are_read() {
    match read_reply(Awaited::Point, body(POINT)) {
        Input::Single(Some(cell)) => {
            assert_eq!(cell.as_text().as_deref(), Some("https://example.org/stations"))
        }
        _ => panic!("no cell"),
    }
    assert!(matches!(read_reply(Awaited::Point, body("{")), Input::Single(None)));
    assert!(matches!(read_reply(Awaited::Point, body("{}")), Input::Single(Some(Cell::Null))));
    assert!(matches!(read_reply(Awaited::Stations, body("[1")), Input::List(Listing::Undecodable)));
    assert!(matches!(read_reply(Awaited::Stations, body("{}")), Input::List(Listing::NoArray)));
    match read_reply(Awaited::Observations, body(OBSERVATIONS)) {
        Input::List(Listing::Rows(rows)) => {
            assert_eq!(rows.len(), 5);
            assert!(rows.iter().all(|row| row.len() == 6));
            assert_eq!(rows[0][0].as_text().as_deref(), Some("2024-05-06T07:53:00+00:00"));
            assert_eq!(rows[0][1].as_number().as_deref(), Some("10.5"));
            assert!(matches!(rows[0][2], Cell::Null));
            assert_eq!(rows[0][3].as_number().as_deref(), Some("81"));
            assert_eq!(rows[0][4].as_number().map(|n| n.parse::<f64>()), Some(Ok(-0.001)));
            assert_eq!(rows[0][5].as_number(), None);
            assert_eq!(rows[2][0].as_text(), None);
        }
        _ => panic!("no rows"),
    }
    assert!(matches!(read_reply(Awaited::Storing, Reply::Stored(3)), Input::Stored(3)));
    assert!(matches!(read_reply(Awaited::Opening, Reply::Opened(5)), Input::Opened(5)));
    assert!(matches!(read_reply(Awaited::Opening, failed("x")), Input::Failed(_)));
}

#[test]
fn kinds_of_cells() {
    let kinds = r#"{"features": [{"id": true}, {"id": []}, {"id": {}}, {"id": null}]}"#;
    match read_reply(Awaited::Stations, body(kinds)) {
        Input::List(Listing::Rows(rows)) => {
            assert!(matches!(rows[0][0], Cell::Bool(true)));
            assert!(matches!(rows[1][0], Cell::Array));
            assert!(matches!(rows[2][0], Cell::Object));
            assert!(matches!(rows[3][0], Cell::Null));
        }
        _ => panic!("no rows"),
    }
}

#[test]
fn stations_in_documents() {
    assert_eq!(stations_url(&Some(text("u"))).map_err(|e| e.message()), Ok("u".to_string()));
    assert!(matches!(stations_url(&Some(Cell::Null)), Err(Failure::NoStationsUrl)));
    assert!(matches!(stations_url(&None), Err(Failure::UndecodableBody)));
    let list = Listing::Rows(vec![vec![text("a/KSEA")], vec![Cell::Null]]);
    assert_eq!(closest_station(&list).map_err(|e| e.message()), Ok("a/KSEA".to_string()));
    assert!(matches!(closest_station(&Listing::Undecodable), Err(Failure::UndecodableBody)));
    assert!(matches!(closest_station(&Listing::NoArray), Err(Failure::NoStations)));
    assert!(matches!(closest_station(&Listing::Rows(vec![])), Err(Failure::NoStationNearby)));
    assert!(matches!(
        closest_station(&Listing::Rows(vec![vec![Cell::Bool(true)]])),
        Err(Failure::InvalidStation)
    ));
    assert_eq!(nearby_stations(&list).map_err(|e| e.message()), Ok(vec!["KSEA".to_string()]));
    assert!(matches!(nearby_stations(&Listing::Undecodable), Err(Failure::UndecodableBody)));
    assert!(matches!(nearby_stations(&Listing::NoArray), Err(Failure::NoStations)));
    assert!(nearby_stations(&Listing::Rows(vec![])).map_err(|e| e.message()).unwrap().is_empty());
}

#[test]
fn six_stations_are_looked_at() {
    let rows: Vec<Vec<Cell>> = (0..9).map(|i| vec![text(&format!("s/{}", i))]).collect();
    let names = nearby_stations(&Listing::Rows(rows)).map_err(|e| e.message()).unwrap();
    assert_eq!(names, vec!["0", "1", "2", "3", "4", "5"]);
}

#[test]
fn observations_without_a_time_are_left_out() {
    let row = |time: Cell| {
        vec![time, Cell::Number("1".to_string()), Cell::Null, Cell::Null, text("5"), Cell::Null]
    };
    let found = observations(&vec![row(text("t")), row(text("")), row(Cell::Null), row(text("u"))]);
    assert_eq!(found.len(), 2);
    assert_eq!(found[0].time, "t");
    assert_eq!(found[0].temperature.as_deref(), Some("1"));
    assert_eq!(found[0].wind_speed, None);
    assert_eq!(found[1].time, "u");
}

#[test]
fn collection_from_a_chosen_station() {
    let (mut task, first) = Collection::start(Some("KBFI"), "47.6", "-122.3");
    assert_eq!(fetched(first), "https://api.weather.gov/stations/KBFI/observations?limit=500");
    match task.step(body(OBSERVATIONS)) {
        Request::Store(station, obs) => {
            assert_eq!(station, "KBFI");
            assert_eq!(obs.len(), 2);
            assert_eq!(obs[0].temperature.as_deref(), Some("10.5"));
            assert_eq!(obs[1].time, "2024-05-06T08:53:00+00:00");
        }
        _ => panic!("nothing to store"),
    }
    assert_eq!(done(task.step(Reply::Stored(1))), Ok(2));
}

#[test]
fn collection_from_the_closest_station() {
    let (mut task, first) = Collection::start(None, "47.6", "-122.3");
    assert_eq!(fetched(first), "https://api.weather.gov/points/47.6,-122.3");
    assert_eq!(fetched(task.step(body(POINT))), "https://example.org/stations");
    assert_eq!(
        fetched(task.step(body(STATIONS))),
        "https://api.weather.gov/stations/KSEA/observations?limit=500"
    );
    assert!(matches!(task.step(body(r#"{"features": []}"#)), Request::Store(_, _)));
    assert_eq!(done(task.step(Reply::Stored(0))), Ok(0));
}

#[test]
fn collections_that_fail() {
    let start = || Collection::start(None, "1", "2").0;
    let mut task = start();
    assert_eq!(done(task.step(failed("offline"))), Err("offline".to_string()));
    let mut task = start();
    assert_eq!(done(task.step(body("<html>"))), Err("error decoding response body".to_string()));
    let mut task = start();
    assert_eq!(
        done(task.step(body("{}"))),
        Err("Could not find observationStations URL".to_string())
    );
    let mut task = start();
    let _ = task.step(body(POINT));
    assert_eq!(done(task.step(body("{}"))), Err("No stations found".to_string()));
    let mut task = start();
    let _ = task.step(body(POINT));
    assert_eq!(
        done(task.step(body(r#"{"features": []}"#))),
        Err("No weather stations found near this location".to_string())
    );
    let mut task = start();
    let _ = task.step(body(POINT));
    assert_eq!(
        done(task.step(body(r#"{"features": [{}]}"#))),
        Err("Invalid station data".to_string())
    );
    let mut task = Collection::start(Some("KSEA"), "1", "2").0;
    assert_eq!(done(task.step(body("{}"))), Err("No observations found".to_string()));
    let mut task = Collection::start(Some("KSEA"), "1", "2").0;
    assert_eq!(done(task.step(body(""))), Err("error decoding response body".to_string()));
    let mut task = Collection::start(Some("KSEA"), "1", "2").0;
    let _ = task.step(body(OBSERVATIONS));
    assert_eq!(done(task.step(failed("locked"))), Err("locked".to_string()));
}

const NOW: i64 = 1_714_981_980;

fn asking() -> (CatchUp, Request) {
    let (mut task, first) = CatchUp::start("47.6", "-122.3");
    assert_eq!(fetched(first), "https://api.weather.gov/points/47.6,-122.3");
    assert_eq!(fetched(task.step(body(POINT))), "https://example.org/stations");
    assert!(matches!(task.step(body(STATIONS)), Request::Open));
    let next = task.step(Reply::Opened(NOW));
    (task, next)
}

#[test]
fn catch_up_goes_back_week_by_week() {
    let (mut task, mut next) = asking();
    let windows = [
        ("2024-04-29T07:53:00Z", "2024-05-06T07:53:00Z"),
        ("2024-04-22T07:53:00Z", "2024-04-29T07:53:00Z"),
        ("2024-04-15T07:53:00Z", "2024-04-22T07:53:00Z"),
        ("2024-04-08T07:53:00Z", "2024-04-15T07:53:00Z"),
        ("2024-04-01T07:53:00Z", "2024-04-08T07:53:00Z"),
    ];
    for (start, end) in windows {
        assert_eq!(
            fetched(next),
            format!(
                "https://api.weather.gov/stations/KSEA/observations?start={}&end={}",
                start, end
            )
        );
        match task.step(body(OBSERVATIONS)) {
            Request::Store(station, obs) => {
                assert_eq!(station, "KSEA");
                assert_eq!(obs.len(), 2);
            }
            _ => panic!("nothing to store"),
        }
        next = task.step(Reply::Stored(2));
    }
    assert_eq!(done(next), Ok(10));
    assert!(WINDOWS as i64 * WINDOW >= 30 * 86_400);
}

#[test]
fn catch_up_stops_at_a_fruitless_week() {
    let (mut task, _) = asking();
    let _ = task.step(body(OBSERVATIONS));
    let _ = task.step(Reply::Stored(2));
    let _ = task.step(body(OBSERVATIONS));
    assert_eq!(done(task.step(Reply::Stored(0))), Ok(2));
    let (mut task, _) = asking();
    let _ = task.step(body(OBSERVATIONS));
    let _ = task.step(Reply::Stored(1));
    assert_eq!(done(task.step(failed("offline"))), Ok(1));
    let (mut task, _) = asking();
    assert_eq!(done(task.step(body("<html>"))), Ok(0));
    let (mut task, _) = asking();
    assert_eq!(done(task.step(body("{}"))), Ok(0));
}

#[test]
fn catch_ups_that_fail() {
    let start = || CatchUp::start("1", "2").0;
    let mut task = start();
    assert_eq!(done(task.step(failed("offline"))), Err("offline".to_string()));
    let mut task = start();
    assert_eq!(
        done(task.step(body("{}"))),
        Err("Could not find observationStations URL".to_string())
    );
    let mut task = start();
    let _ = task.step(body(POINT));
    assert_eq!(
        done(task.step(body(r#"{"features": []}"#))),
        Err("No weather stations found near this location".to_string())
    );
    let mut task = start();
    let _ = task.step(body(POINT));
    let _ = task.step(body(STATIONS));
    assert_eq!(done(task.step(failed("locked"))), Err("locked".to_string()));
}

fn told(request: HistoryRequest) -> Result<String, String> {
    match request {
        HistoryRequest::Done(r) => r.map_err(|e| e.message()),
        _ => panic!("no end"),
    }
}

fn at_oldest() -> HistoryCheck {
    let (mut task, first) = HistoryCheck::start("Seattle", "47.6", "-122.3");
    match first {
        HistoryRequest::Fetch(url) => assert_eq!(url, "https://api.weather.gov/points/47.6,-122.3"),
        _ => panic!("no address"),
    }
    assert!(matches!(task.step(body(POINT)), HistoryRequest::Fetch(_)));
    match task.step(body(STATIONS)) {
        HistoryRequest::Fetch(url) => assert_eq!(
            url,
            "https://api.weather.gov/stations/KSEA/observations?start=2020-01-01T00:00:00Z&limit=1"
        ),
        _ => panic!("no address"),
    }
    task
}

#[test]
fn history_is_told() {
    assert_eq!(
        told(at_oldest().step(body(OBSERVATIONS))),
        Ok("Oldest data for Seattle (KSEA): 2024-05-06T07:53:00+00:00".to_string())
    );
    for text in ["{}", r#"{"features": []}"#, r#"{"features": [{"properties": 3}]}"#] {
        assert_eq!(
            told(at_oldest().step(body(text))),
            Ok("No historical data found for station KSEA".to_string())
        );
    }
    assert_eq!(finding("A", "B", &Some("C".to_string())), "Oldest data for A (B): C");
}

#[test]
fn history_checks_that_fail() {
    assert_eq!(
        told(at_oldest().step(body("<html>"))),
        Err("error decoding response body".to_string())
    );
    assert_eq!(told(at_oldest().step(failed("offline"))), Err("offline".to_string()));
    let mut task = HistoryCheck::start("Seattle", "1", "2").0;
    assert_eq!(
        told(task.step(body("{}"))),
        Err("Could not find observationStations URL".to_string())
    );
    let mut task = HistoryCheck::start("Seattle", "1", "2").0;
    let _ = task.step(body(POINT));
    assert_eq!(told(task.step(body("{}"))), Err("No stations found".to_string()));
}

#[test]
fn queries_are_encoded() {
    assert_eq!(
        geocode_url("São Paulo & co", "a=b?"),
        "https://nominatim.openstreetmap.org/search?format=json&q=S%C3%A3o%20Paulo%20%26%20co%2C%20a%3Db%3F&limit=1"
    );
    assert_eq!(
        geocode_url("AZaz09-._~", ""),
        "https://nominatim.openstreetmap.org/search?format=json&q=AZaz09-._~%2C%20&limit=1"
    );
}

#[test]
fn encoded_queries_hold_safe_characters_only() {
    let url = geocode_url("\u{0} \"#%&+/=?@é漢🌦", "\n");
    let query = url.split("&q=").nth(1).unwrap().strip_suffix("&limit=1").unwrap();
    assert!(query.chars().all(|c| c.is_ascii_alphanumeric() || "-._~%".contains(c)));
}

#[test]
fn cached_places_are_known() {
    match geocode_location("Seattle", "WA", Some((47.6, -122.3))) {
        GeocodeRequest::Known(loc) => {
            assert_eq!((loc.city.as_str(), loc.state.as_str()), ("Seattle", "WA"));
            assert_eq!((loc.lat, loc.lon), (47.6, -122.3));
            assert_eq!(loc.station_id, None);
        }
        _ => panic!("not known"),
    }
    match geocode_location::<f64>("Seattle", "WA", None) {
        GeocodeRequest::Fetch(url) => assert_eq!(url, geocode_url("Seattle", "WA")),
        _ => panic!("no address"),
    }
    assert_eq!(located("A", "B", 1, 2).lon, 2);
}

#[test]
fn coordinates_of_the_first_match() {
    let found = br#"[{"lat": "47.6", "lon": "-122.3"}, {"lat": "1", "lon": "2"}]"#;
    match read_geocode(true, "200 OK", found) {
        Geocoded::Coordinates(lat, lon) => {
            assert_eq!((lat.as_str(), lon.as_str()), ("47.6", "-122.3"))
        }
        _ => panic!("no coordinates"),
    }
    assert!(read_geocode(true, "200 OK", found).message().is_none());
}

#[test]
fn searches_that_fail() {
    let words = |success: bool, body: &str| {
        read_geocode(success, "503 Service Unavailable", body.as_bytes()).message()
    };
    assert_eq!(words(false, "[]").as_deref(), Some("Nominatim error: 503 Service Unavailable"));
    assert_eq!(words(true, "<html>").as_deref(), Some("Failed to parse JSON"));
    assert_eq!(words(true, "{}").as_deref(), Some("Failed to parse JSON"));
    assert_eq!(words(true, "[]").as_deref(), Some("No results found"));
    assert!(matches!(read_geocode(true, "", br#"[{"lat": 1, "lon": "2"}]"#), Geocoded::NoCoordinates));
    assert!(matches!(read_geocode(true, "", br#"[{"lat": "1"}]"#), Geocoded::NoCoordinates));
    assert_eq!(words(true, "[3]"), None);
    assert!(matches!(
        first_match(&Listing::Rows(vec![vec![text("1"), text("2")]])),
        Geocoded::Coordinates(_, _)
    ));
}

fn offered(request: SearchRequest) -> Result<Vec<String>, String> {
    match request {
        SearchRequest::Done(r) => r.map_err(|e| e.message()),
        _ => panic!("no end"),
    }
}

#[test]
fn stations_are_searched() {
    let (mut task, first) = StationSearch::start("47.6", "-122.3");
    match first {
        SearchRequest::Fetch(url) => assert_eq!(url, "https://api.weather.gov/points/47.6,-122.3"),
        _ => panic!("no address"),
    }
    match task.step(body(POINT)) {
        SearchRequest::Fetch(url) => assert_eq!(url, "https://example.org/stations"),
        _ => panic!("no address"),
    }
    let names: Vec<String> = ["KSEA", "KBFI", "KPAE", "KRNT"].iter().map(|s| s.to_string()).collect();
    assert_eq!(offered(task.step(body(STATIONS))), Ok(names));
}

#[test]
fn station_searches_that_fail() {
    let mut task = StationSearch::start("1", "2").0;
    assert_eq!(offered(task.step(failed("offline"))), Err("offline".to_string()));
    let mut task = StationSearch::start("1", "2").0;
    assert_eq!(offered(task.step(body("{"))), Err("error decoding response body".to_string()));
    let mut task = StationSearch::start("1", "2").0;
    let _ = task.step(body(POINT));
    assert_eq!(offered(task.step(body("{}"))), Err("No stations found".to_string()));
}
