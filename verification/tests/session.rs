use shielded_observer::clock::TimeRange;
use shielded_observer::coverage::{get_data_coverage, DataCoverage};
use shielded_observer::failure::Failure;
use shielded_observer::location::LocationResult;
use shielded_observer::session::{
    coverage_message, current_place_label, place_label, SearchOutcome, Settings,
    ShieldedObserverApp,
};
use shielded_observer::theme::{apply_shielded_theme, Rgb};

type App = ShieldedObserverApp<f32, f64>;

fn place(city: &str, station: Option<&str>) -> LocationResult<f64> {
    LocationResult {
        city: city.to_string(),
        state: "WA".to_string(),
        lat: 47.6,
        lon: -122.3,
        station_id: station.map(|s| s.to_string()),
    }
}

fn app() -> App {
    ShieldedObserverApp::new(
        Settings::standard(1.0),
        vec![place("Seattle", Some("KSEA")), place("Tacoma", None)],
    )
}

fn searched() -> App {
    let mut app = app();
    let names = vec!["KPAE".to_string(), "KBFI".to_string(), "KPAE".to_string()];
    app.finish_search(SearchOutcome::Found(place("Everett", None), Ok(names)));
    app
}

#[test]
fn first_state() {
    let app = app();
    assert!(app.dark_mode && app.use_local_time);
    assert_eq!((app.ui_scale, app.pending_scale), (1.0, 1.0));
    assert!(!app.show_settings && !app.show_export_window);
    assert!(!app.settings_loaded && !app.theme_applied);
    assert_eq!((app.status_message.as_str(), app.last_update.as_str()), ("Idle", "Never"));
    assert_eq!((app.city_input.as_str(), app.state_input.as_str()), ("", ""));
    assert_eq!(app.export_format, "CSV");
    assert_eq!(app.selected_time_range, TimeRange::Last7Days);
    assert!(app.search_result.is_none() && app.current_location.is_none());
    assert!(app.nearby_stations.is_empty() && app.current_station_id.is_none());
    assert_eq!(app.validated_locations.len(), 2);
}

#[test]
fn kept_settings_are_used() {
    let kept = Settings { dark_mode: false, ui_scale: 1.5f32, use_local_time: false };
    let app: App = ShieldedObserverApp::new(kept, vec![]);
    let settings = app.settings();
    assert_eq!(
        (settings.dark_mode, settings.ui_scale, settings.use_local_time),
        (false, 1.5, false)
    );
    assert_eq!(app.pending_scale, 1.5);
}

#[test]
fn toggles_undo_themselves() {
    let mut app = app();
    assert_eq!(app.theme_label(), "☀ Light");
    app.toggle_theme();
    assert_eq!(app.theme_label(), "🌙 Dark");
    assert!(!app.dark_mode);
    assert!(!app.settings().dark_mode);
    app.toggle_theme();
    assert!(app.dark_mode);
    app.toggle_settings();
    assert!(app.show_settings);
    app.toggle_settings();
    assert!(!app.show_settings);
}

#[test]
fn scale_is_applied_where_it_differs() {
    let mut app = app();
    app.pending_scale = 1.25;
    assert_eq!(app.settings().ui_scale, 1.0);
    assert!(!app.apply_scale(false));
    assert_eq!(app.ui_scale, 1.0);
    assert!(app.apply_scale(true));
    assert_eq!(app.ui_scale, 1.25);
}

#[test]
fn a_new_scale_is_kept_and_applied() {
    let mut app = app();
    app.pending_scale = 1.5;
    let (rescaled, kept) = app.settings_drawn(false, true);
    assert!(!rescaled);
    assert_eq!((kept.ui_scale, app.ui_scale), (1.0, 1.0));
    let (rescaled, kept) = app.settings_drawn(true, true);
    assert!(rescaled);
    assert_eq!((kept.ui_scale, app.ui_scale, app.pending_scale), (1.5, 1.5, 1.5));
    assert!(kept.dark_mode && kept.use_local_time);
    let (rescaled, kept) = app.settings_drawn(false, false);
    assert!(!rescaled);
    assert_eq!(kept.ui_scale, 1.5);
    app.pending_scale = 1.5005;
    let (rescaled, kept) = app.settings_drawn(true, false);
    assert!(!rescaled);
    assert_eq!((kept.ui_scale, app.ui_scale), (1.5, 1.5));
}

#[test]
fn only_one_frame_is_the_first() {
    let mut app = app();
    assert!(app.first_frame());
    assert!(!app.first_frame());
    assert!(app.settings_loaded);
}

#[test]
fn both_inputs_are_needed_to_search() {
    let mut app = app();
    assert!(!app.can_search());
    app.city_input = "Everett".to_string();
    assert!(!app.can_search());
    app.state_input = "WA".to_string();
    assert!(app.can_search());
    app.city_input = String::new();
    assert!(!app.can_search());
}

#[test]
fn found_stations_are_offered() {
    let app = searched();
    assert_eq!(app.status_message, "Found 3 nearby stations. Please select one.");
    assert_eq!(app.station_label(0), "KPAE (Closest)");
    assert_eq!(app.station_label(1), "KBFI");
    assert_eq!(app.station_label(2), "KPAE (Closest)");
    assert_eq!(app.search_result.as_ref().unwrap().city, "Everett");
}

#[test]
fn failed_searches_are_told() {
    let mut app = searched();
    app.finish_search(SearchOutcome::Found(place("Everett", None), Err(Failure::NoStations)));
    assert_eq!(
        app.status_message,
        "Location found but failed to load stations: No stations found"
    );
    assert!(app.search_result.is_some() && app.nearby_stations.is_empty());
    let mut app = searched();
    app.finish_search(SearchOutcome::NotFound("No results found".to_string()));
    assert_eq!(app.status_message, "Error: No results found");
    assert!(app.search_result.is_none() && app.nearby_stations.is_empty());
}

#[test]
fn a_chosen_station_is_used() {
    let mut app = searched();
    let chosen = app.choose_station(1);
    assert_eq!(chosen.city, "Everett");
    assert_eq!(chosen.station_id.as_deref(), Some("KBFI"));
    assert_eq!(app.current_station_id.as_deref(), Some("KBFI"));
    assert_eq!(
        app.current_location.as_ref().unwrap().station_id.as_deref(),
        Some("KBFI")
    );
    assert_eq!(app.status_message, "Selected station: KBFI");
    assert!(app.search_result.is_none() && app.nearby_stations.is_empty());
    app.location_saved(vec![chosen]);
    assert_eq!(app.validated_locations.len(), 1);
    assert_eq!(app.status_message, "Selected station: KBFI");
    app.location_not_saved("locked");
    assert_eq!(app.status_message, "Failed to save location: locked");
}

#[test]
fn a_place_is_used_without_a_station() {
    let mut app = searched();
    app.select_location(0);
    app.use_without_station();
    assert_eq!(app.current_location.as_ref().unwrap().city, "Everett");
    assert_eq!(app.current_station_id, None);
    assert_eq!(app.status_message, "Using closest station automatically");
    assert!(app.search_result.is_none() && app.nearby_stations.is_empty());
}

#[test]
fn kept_places_are_selected_and_dropped() {
    let mut app = app();
    app.select_location(0);
    assert_eq!(app.status_message, "Selected: Seattle, WA");
    assert_eq!(app.current_station_id.as_deref(), Some("KSEA"));
    app.select_location(1);
    assert_eq!(app.current_station_id, None);
    app.location_not_deleted("locked");
    assert_eq!(app.status_message, "Delete failed: locked");
    assert_eq!(app.validated_locations.len(), 2);
    app.location_deleted(0);
    assert_eq!(app.status_message, "Location removed");
    assert_eq!(app.validated_locations.len(), 1);
    assert_eq!(app.validated_locations[0].city, "Tacoma");
    assert_eq!(app.current_location.as_ref().unwrap().city, "Tacoma");
}

#[test]
fn labels_of_places() {
    assert_eq!(place_label(&place("Seattle", Some("KSEA"))), "Seattle, WA (KSEA)");
    assert_eq!(place_label(&place("Tacoma", None)), "Tacoma, WA");
    assert_eq!(
        current_place_label(&place("Seattle", Some("KSEA"))),
        "Current Location: Seattle, WA (KSEA)"
    );
}

#[test]
fn finished_tasks_are_told() {
    let mut app = app();
    app.collection_finished(Ok(12), 1_714_981_980);
    assert_eq!(app.status_message, "Collected 12 hourly periods");
    assert_eq!(app.last_update, "2024-05-06 07:53");
    app.collection_finished(Err(Failure::NoObservations), 0);
    assert_eq!(app.status_message, "Collection failed: No observations found");
    assert_eq!(app.last_update, "2024-05-06 07:53");
    app.catch_up_finished(Ok(0), 0);
    assert_eq!(app.status_message, "Catch up complete. Added 0 new records.");
    assert_eq!(app.last_update, "1970-01-01 00:00");
    app.catch_up_finished(Err(Failure::Given("offline".to_string())), 5_000_000);
    assert_eq!(app.status_message, "Catch up failed: offline");
    assert_eq!(app.last_update, "1970-01-01 00:00");
    app.history_told(Ok("Oldest data".to_string()));
    assert_eq!(app.status_message, "Oldest data");
    app.history_told(Err(Failure::InvalidStation));
    assert_eq!(app.status_message, "History check failed: Invalid station data");
}

#[test]
fn coverage_is_told() {
    let mut app = app();
    let known = get_data_coverage(
        Some("KSEA".to_string()),
        1234,
        Some("2024-05-01T00:00:00Z".to_string()),
        Some("2024-05-06T00:00:00Z".to_string()),
    );
    app.coverage_told(&Ok(known));
    assert_eq!(
        app.status_message,
        "Data: 1234 records | ~5 days | 2024-05-01T00:00:00Z → 2024-05-06T00:00:00Z"
    );
    let unknown: DataCoverage = get_data_coverage(None, 0, None, None);
    assert_eq!(coverage_message(&unknown), "Data: 0 records | ~0 days | N/A → N/A");
    app.coverage_told(&Err("locked".to_string()));
    assert_eq!(app.status_message, "Validation failed: locked");
}

#[test]
fn time_range_is_selected() {
    let mut app = app();
    app.select_time_range(TimeRange::All);
    assert_eq!(app.selected_time_range, TimeRange::All);
}

#[test]
fn exports_are_told() {
    let mut app = app();
    app.open_export();
    assert!(app.show_export_window);
    assert!(!app.export_finished(None));
    assert_eq!(app.status_message, "No location selected");
    assert!(!app.export_finished(Some(Err("No file selected".to_string()))));
    assert_eq!(app.status_message, "Export failed: No file selected");
    app.export_drawn(true, false);
    assert!(app.show_export_window);
    assert!(app.export_finished(Some(Ok("/tmp/a.csv".to_string()))));
    assert_eq!(app.status_message, "Exported to /tmp/a.csv");
    app.export_drawn(true, true);
    assert!(!app.show_export_window);
    app.open_export();
    app.export_drawn(false, false);
    assert!(!app.show_export_window);
}

#[test]
fn colours_of_the_themes() {
    let rgb = |r: u8, g: u8, b: u8| Rgb { r, g, b };
    let dark = apply_shielded_theme(true);
    assert_eq!((dark.panel, dark.window), (rgb(20, 28, 40), rgb(25, 35, 50)));
    assert_eq!(dark.noninteractive, Some(rgb(30, 42, 58)));
    assert_eq!(dark.inactive, Some(rgb(35, 50, 70)));
    assert_eq!(dark.hovered, Some(rgb(45, 65, 90)));
    assert_eq!(dark.active, Some(rgb(55, 80, 110)));
    let light = apply_shielded_theme(false);
    assert_eq!((light.panel, light.window), (rgb(240, 245, 252), rgb(245, 248, 255)));
    assert_eq!((light.noninteractive, light.inactive), (None, None));
    assert_eq!((light.hovered, light.active), (None, None));
}
