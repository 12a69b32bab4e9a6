//! The state behind the application's window, and what each action of the user and each finished
//! task makes of it.
use vstd::prelude::*;

use crate::clock::{format_utc, representable, utc_text, TimeRange, UPDATE_PATTERN};
use crate::coverage::{DataCoverage, DataCoverageView};
use crate::failure::Failure;
use crate::json::opt_text;
use crate::location::{copy_text, locations_view, opt_location, LocationResult, LocationView};
use crate::service::OFFERED;
use crate::text::{decimal, decimal_text, join2, join3, join4, join5, same_text, texts};

verus! {

/// What is kept from one run of the application to the next. `S` is the caller's type for the scale
/// of the window.
#[derive(Clone, Debug)]
pub struct Settings<S> {
    pub dark_mode: bool,
    pub ui_scale: S,
    pub use_local_time: bool,
}

impl<S> Settings<S> {
    /// The settings of a first run, at the scale `one`.
    pub fn standard(one: S) -> (r: Self)
        ensures
            r == (Settings { dark_mode: true, ui_scale: one, use_local_time: true }),
    {
        Settings { dark_mode: true, ui_scale: one, use_local_time: true }
    }
}

/// The state behind the window. `S` is the caller's type for the scale of the window, `C` that for
/// coordinates.
pub struct ShieldedObserverApp<S, C> {
    pub dark_mode: bool,
    pub ui_scale: S,
    pub pending_scale: S,
    pub show_settings: bool,
    pub status_message: String,
    pub last_update: String,
    pub city_input: String,
    pub state_input: String,
    pub search_result: Option<LocationResult<C>>,
    pub validated_locations: Vec<LocationResult<C>>,
    pub current_location: Option<LocationResult<C>>,
    pub use_local_time: bool,
    pub show_export_window: bool,
    pub export_format: String,
    pub selected_time_range: TimeRange,
    pub nearby_stations: Vec<String>,
    pub current_station_id: Option<String>,
    pub settings_loaded: bool,
    pub theme_applied: bool,
}

/// The contents of a [`ShieldedObserverApp`].
#[verifier::ext_equal]
pub struct SessionView<S, C> {
    pub dark_mode: bool,
    pub ui_scale: S,
    pub pending_scale: S,
    pub show_settings: bool,
    pub status_message: Seq<char>,
    pub last_update: Seq<char>,
    pub city_input: Seq<char>,
    pub state_input: Seq<char>,
    pub search_result: Option<LocationView<C>>,
    pub validated_locations: Seq<LocationView<C>>,
    pub current_location: Option<LocationView<C>>,
    pub use_local_time: bool,
    pub show_export_window: bool,
    pub export_format: Seq<char>,
    pub selected_time_range: TimeRange,
    pub nearby_stations: Seq<Seq<char>>,
    pub current_station_id: Option<Seq<char>>,
    pub settings_loaded: bool,
    pub theme_applied: bool,
}

impl<S, C> View for ShieldedObserverApp<S, C> {
    type V = SessionView<S, C>;

    open spec fn view(&self) -> SessionView<S, C> {
        SessionView {
            dark_mode: self.dark_mode,
            ui_scale: self.ui_scale,
            pending_scale: self.pending_scale,
            show_settings: self.show_settings,
            status_message: self.status_message@,
            last_update: self.last_update@,
            city_input: self.city_input@,
            state_input: self.state_input@,
            search_result: opt_location(self.search_result),
            validated_locations: locations_view(self.validated_locations@),
            current_location: opt_location(self.current_location),
            use_local_time: self.use_local_time,
            show_export_window: self.show_export_window,
            export_format: self.export_format@,
            selected_time_range: self.selected_time_range,
            nearby_stations: texts(self.nearby_stations@),
            current_station_id: opt_text(self.current_station_id),
            settings_loaded: self.settings_loaded,
            theme_applied: self.theme_applied,
        }
    }
}

impl<S, C> SessionView<S, C> {
    /// The parts of the state fit together: the station in use is that of the place in use; stations
    /// are offered only for a search result, and not more than allowed; and a search result has no
    /// station yet.
    pub open spec fn consistent(self) -> bool {
        &&& self.current_station_id == (match self.current_location {
            Some(loc) => loc.station_id,
            None => None,
        })
        &&& self.search_result is None ==> self.nearby_stations.len() == 0
        &&& self.nearby_stations.len() <= OFFERED
        &&& self.search_result matches Some(loc) ==> loc.station_id is None
    }

    /// The settings that the state holds.
    pub open spec fn settings(self) -> Settings<S> {
        Settings {
            dark_mode: self.dark_mode,
            ui_scale: self.ui_scale,
            use_local_time: self.use_local_time,
        }
    }

    /// The state with the scale that the user chose.
    pub open spec fn rescaled(self) -> SessionView<S, C> {
        SessionView { ui_scale: self.pending_scale, ..self }
    }

    /// The state with the other theme.
    pub open spec fn theme_toggled(self) -> SessionView<S, C> {
        SessionView { dark_mode: !self.dark_mode, ..self }
    }

    /// The state with the settings shown, or hidden where they are shown.
    pub open spec fn settings_toggled(self) -> SessionView<S, C> {
        SessionView { show_settings: !self.show_settings, ..self }
    }

    /// The state with another status.
    pub open spec fn telling(self, status: Seq<char>) -> SessionView<S, C> {
        SessionView { status_message: status, ..self }
    }

    /// The state once a search is over and its result is taken up or dropped.
    pub open spec fn search_over(self) -> SessionView<S, C> {
        SessionView { search_result: None, nearby_stations: seq![], ..self }
    }

    /// The state with a place in use.
    pub open spec fn at(self, loc: LocationView<C>) -> SessionView<S, C> {
        SessionView {
            current_location: Some(loc),
            current_station_id: loc.station_id,
            ..self
        }
    }
}

/// The state at the start of the application.
pub open spec fn initial<S, C>(settings: Settings<S>, locations: Seq<LocationView<C>>) -> SessionView<
    S,
    C,
> {
    SessionView {
        dark_mode: settings.dark_mode,
        ui_scale: settings.ui_scale,
        pending_scale: settings.ui_scale,
        show_settings: false,
        status_message: "Idle"@,
        last_update: "Never"@,
        city_input: seq![],
        state_input: seq![],
        search_result: None,
        validated_locations: locations,
        current_location: None,
        use_local_time: settings.use_local_time,
        show_export_window: false,
        export_format: "CSV"@,
        selected_time_range: TimeRange::Last7Days,
        nearby_stations: seq![],
        current_station_id: None,
        settings_loaded: false,
        theme_applied: false,
    }
}

/// The settings that were kept are the settings of the new run.
pub proof fn kept_settings_come_back<S, C>(
    settings: Settings<S>,
    locations: Seq<LocationView<C>>,
)
    ensures
        initial(settings, locations).settings() == settings,
{
}

/// A scale that is taken up is in the window, in the settings that are kept and in the settings of
/// the next run.
pub proof fn chosen_scale_is_kept<S, C>(s: SessionView<S, C>, locations: Seq<LocationView<C>>)
    ensures
        s.rescaled().ui_scale == s.pending_scale,
        s.rescaled().settings() == (Settings { ui_scale: s.pending_scale, ..s.settings() }),
        initial(s.rescaled().settings(), locations).ui_scale == s.pending_scale,
{
}

/// To switch the theme twice, or to show the settings and hide them, changes nothing.
pub proof fn toggling_twice_changes_nothing<S, C>(s: SessionView<S, C>)
    ensures
        s.theme_toggled().theme_toggled() == s,
        s.settings_toggled().settings_toggled() == s,
{
}

/// The text on the button that switches the theme.
pub open spec fn theme_label_of(dark: bool) -> Seq<char> {
    if dark {
        "☀ Light"@
    } else {
        "🌙 Dark"@
    }
}

/// How a search for a place ended.
pub enum SearchOutcome<C> {
    /// The place was not found, for this reason.
    NotFound(String),
    /// The place was found, and the stations near it were or were not.
    Found(LocationResult<C>, Result<Vec<String>, Failure>),
}

/// The outcome is one that a search can have: a place without a station and no more stations than
/// allowed.
pub open spec fn plausible<C>(outcome: SearchOutcome<C>) -> bool {
    match outcome {
        SearchOutcome::NotFound(e) => true,
        SearchOutcome::Found(loc, stations) => {
            &&& loc.station_id is None
            &&& stations matches Ok(names) ==> names@.len() <= OFFERED
        },
    }
}

/// The state after a search.
pub open spec fn after_search<S, C>(s: SessionView<S, C>, outcome: SearchOutcome<C>) -> SessionView<
    S,
    C,
> {
    match outcome {
        SearchOutcome::NotFound(e) => s.search_over().telling("Error: "@ + e@),
        SearchOutcome::Found(loc, Ok(names)) => SessionView {
            search_result: Some(loc@),
            nearby_stations: texts(names@),
            ..s.telling(
                "Found "@ + decimal(names@.len()) + " nearby stations. Please select one."@,
            )
        },
        SearchOutcome::Found(loc, Err(e)) => SessionView {
            search_result: Some(loc@),
            nearby_stations: seq![],
            ..s.telling("Location found but failed to load stations: "@ + e@.words())
        },
    }
}

/// The last date or first date of some coverage as it is shown.
pub open spec fn shown_date(date: Option<Seq<char>>) -> Seq<char> {
    match date {
        Some(d) => d,
        None => "N/A"@,
    }
}

/// Some coverage in words.
pub open spec fn coverage_words(c: DataCoverageView) -> Seq<char> {
    let days = match c.approx_days_covered {
        Some(d) => d as nat,
        None => 0,
    };
    "Data: "@ + decimal(c.total_records) + " records | ~"@ + decimal(days) + " days | "@
        + shown_date(c.earliest_date) + " → "@ + shown_date(c.latest_date)
}

/// Some coverage in words.
pub fn coverage_message(c: &DataCoverage) -> (r: String)
    ensures
        r@ == coverage_words(c@),
{
    let days: u32 = match c.approx_days_covered {
        Some(d) => d,
        None => 0,
    };
    let first = match &c.earliest_date {
        Some(d) => d.clone(),
        None => "N/A".to_owned(),
    };
    let last = match &c.latest_date {
        Some(d) => d.clone(),
        None => "N/A".to_owned(),
    };
    let records = decimal_text(c.total_records as u64);
    let days_text = decimal_text(days as u64);
    let mut r = join5("Data: ", records.as_str(), " records | ~", days_text.as_str(), " days | ");
    r.append(first.as_str());
    r.append(" → ");
    r.append(last.as_str());
    r
}

/// The name of a place in a list.
pub open spec fn place_label_of<C>(loc: LocationView<C>) -> Seq<char> {
    match loc.station_id {
        Some(s) => loc.city + ", "@ + loc.state + " ("@ + s + ")"@,
        None => loc.city + ", "@ + loc.state,
    }
}

/// The name of a place in a list.
pub fn place_label<C>(loc: &LocationResult<C>) -> (r: String)
    ensures
        r@ == place_label_of(loc@),
{
    let mut r = join3(loc.city.as_str(), ", ", loc.state.as_str());
    if let Some(s) = &loc.station_id {
        r.append(" (");
        r.append(s.as_str());
        r.append(")");
    }
    r
}

/// The line with the name of the place in use.
pub fn current_place_label<C>(loc: &LocationResult<C>) -> (r: String)
    ensures
        r@ == "Current Location: "@ + place_label_of(loc@),
{
    join2("Current Location: ", place_label(loc).as_str())
}

impl<S: Copy, C: Copy> ShieldedObserverApp<S, C> {
    /// The state at the start of the application, with the settings and the places that were kept.
    pub fn new(settings: Settings<S>, validated_locations: Vec<LocationResult<C>>) -> (r: Self)
        ensures
            r@ == initial(settings, locations_view(validated_locations@)),
            r@.consistent(),
    {
        let r = ShieldedObserverApp {
            dark_mode: settings.dark_mode,
            ui_scale: settings.ui_scale,
            pending_scale: settings.ui_scale,
            show_settings: false,
            status_message: "Idle".to_owned(),
            last_update: "Never".to_owned(),
            city_input: String::new(),
            state_input: String::new(),
            search_result: None,
            validated_locations,
            current_location: None,
            use_local_time: settings.use_local_time,
            show_export_window: false,
            export_format: "CSV".to_owned(),
            selected_time_range: TimeRange::Last7Days,
            nearby_stations: Vec::new(),
            current_station_id: None,
            settings_loaded: false,
            theme_applied: false,
        };
        assert(r@.nearby_stations =~= seq![]);
        assert(r@.city_input =~= seq![]);
        assert(r@.state_input =~= seq![]);
        r
    }

    /// The settings to be kept.
    pub fn settings(&self) -> (r: Settings<S>)
        ensures
            r == self@.settings(),
    {
        Settings {
            dark_mode: self.dark_mode,
            ui_scale: self.ui_scale,
            use_local_time: self.use_local_time,
        }
    }

    /// Takes up the scale that the user chose, where it differs from the scale in use. Returns
    /// whether the window has to be scaled anew.
    pub fn apply_scale(&mut self, differs: bool) -> (r: bool)
        ensures
            r == differs,
            final(self)@ == (if differs {
                old(self)@.rescaled()
            } else {
                old(self)@
            }),
            old(self)@.consistent() ==> final(self)@.consistent(),
    {
        if differs {
            self.ui_scale = self.pending_scale;
        }
        differs
    }

    /// Notes that the settings were shown, that the user let go of the scale or not, and whether the
    /// scale that the user chose differs from the one in use. Returns whether the window has to be
    /// scaled anew, and the settings to be kept: those in use from now on.
    pub fn settings_drawn(&mut self, scale_chosen: bool, differs: bool) -> (r: (bool, Settings<S>))
        ensures
            r.0 == (scale_chosen && differs),
            r.1 == final(self)@.settings(),
            final(self)@ == (if scale_chosen && differs {
                old(self)@.rescaled()
            } else {
                old(self)@
            }),
            old(self)@.consistent() ==> final(self)@.consistent(),
    {
        let rescaled = self.apply_scale(scale_chosen && differs);
        (rescaled, self.settings())
    }

    /// Switches between the dark and the light theme.
    pub fn toggle_theme(&mut self)
        ensures
            final(self)@ == old(self)@.theme_toggled(),
            old(self)@.consistent() ==> final(self)@.consistent(),
    {
        self.dark_mode = !self.dark_mode;
    }

    /// The text on the button that switches the theme: the name of the other one.
    pub fn theme_label(&self) -> (r: &'static str)
        ensures
            r@ == theme_label_of(self@.dark_mode),
    {
        if self.dark_mode {
            "☀ Light"
        } else {
            "🌙 Dark"
        }
    }

    /// Shows the settings, or hides them where they are shown.
    pub fn toggle_settings(&mut self)
        ensures
            final(self)@ == old(self)@.settings_toggled(),
            old(self)@.consistent() ==> final(self)@.consistent(),
    {
        self.show_settings = !self.show_settings;
    }

    /// Shows the export window.
    pub fn open_export(&mut self)
        ensures
            final(self)@ == (SessionView { show_export_window: true, ..old(self)@ }),
            old(self)@.consistent() ==> final(self)@.consistent(),
    {
        self.show_export_window = true;
    }

    /// Notes that a frame was drawn. Returns whether it was the first, for which the kept scale and
    /// theme have to be applied.
    pub fn first_frame(&mut self) -> (r: bool)
        ensures
            r == !old(self)@.settings_loaded,
            final(self)@ == (SessionView { settings_loaded: true, ..old(self)@ }),
            old(self)@.consistent() ==> final(self)@.consistent(),
    {
        let first = !self.settings_loaded;
        self.settings_loaded = true;
        first
    }

    /// Whether there is something to search for: both a city and a state.
    pub fn can_search(&self) -> (r: bool)
        ensures
            r == (self@.city_input.len() > 0 && self@.state_input.len() > 0),
    {
        !self.city_input.as_str().is_empty() && !self.state_input.as_str().is_empty()
    }

    /// Takes up the outcome of a search.
    pub fn finish_search(&mut self, outcome: SearchOutcome<C>)
        ensures
            final(self)@ == after_search(old(self)@, outcome),
            old(self)@.consistent() && plausible(outcome) ==> final(self)@.consistent(),
    {
        match outcome {
            SearchOutcome::NotFound(e) => {
                self.search_result = None;
                self.nearby_stations = Vec::new();
                self.status_message = join2("Error: ", e.as_str());
                assert(self@.nearby_stations =~= seq![]);
            },
            SearchOutcome::Found(loc, Err(e)) => {
                self.search_result = Some(loc);
                self.nearby_stations = Vec::new();
                self.status_message = join2(
                    "Location found but failed to load stations: ",
                    e.message().as_str(),
                );
                assert(self@.nearby_stations =~= seq![]);
            },
            SearchOutcome::Found(loc, Ok(names)) => {
                let count = decimal_text(names.len() as u64);
                self.search_result = Some(loc);
                self.nearby_stations = names;
                self.status_message = join3(
                    "Found ",
                    count.as_str(),
                    " nearby stations. Please select one.",
                );
            },
        }
    }

    /// The text on the button for a station that is offered. The first one is the closest.
    pub fn station_label(&self, index: usize) -> (r: String)
        requires
            index < self@.nearby_stations.len(),
        ensures
            r@ == if self@.nearby_stations[index as int] == self@.nearby_stations[0] {
                self@.nearby_stations[index as int] + " (Closest)"@
            } else {
                self@.nearby_stations[index as int]
            },
    {
        let station = self.nearby_stations[index].as_str();
        assert(station@ == self@.nearby_stations[index as int]);
        assert(self.nearby_stations@[0]@ == self@.nearby_stations[0]);
        if same_text(station, self.nearby_stations[0].as_str()) {
            join2(station, " (Closest)")
        } else {
            station.to_owned()
        }
    }

    /// Takes one of the offered stations for the search result. Returns the place to be kept.
    pub fn choose_station(&mut self, index: usize) -> (r: LocationResult<C>)
        requires
            old(self)@.search_result is Some,
            index < old(self)@.nearby_stations.len(),
        ensures
            ({
                let station = old(self)@.nearby_stations[index as int];
                let loc = LocationView {
                    station_id: Some(station),
                    ..old(self)@.search_result->0
                };
                &&& r@ == loc
                &&& final(self)@ == old(self)@.at(loc).search_over().telling(
                    "Selected station: "@ + station,
                )
            }),
            old(self)@.consistent() ==> final(self)@.consistent(),
    {
        let station = self.nearby_stations[index].clone();
        assert(station@ == self@.nearby_stations[index as int]);
        let chosen: LocationResult<C> = match &self.search_result {
            Some(found) => found.with_station(station.as_str()),
            None => {
                assert(false);
                vstd::pervasive::unreached()
            },
        };
        self.status_message = join2("Selected station: ", station.as_str());
        self.current_location = Some(chosen.copy());
        self.current_station_id = Some(station);
        self.search_result = None;
        self.nearby_stations = Vec::new();
        assert(self@.nearby_stations =~= seq![]);
        chosen
    }

    /// Takes up the kept places anew once a place was kept.
    pub fn location_saved(&mut self, validated_locations: Vec<LocationResult<C>>)
        ensures
            final(self)@ == (SessionView {
                validated_locations: locations_view(validated_locations@),
                ..old(self)@
            }),
            old(self)@.consistent() ==> final(self)@.consistent(),
    {
        self.validated_locations = validated_locations;
    }

    /// Tells that a place could not be kept.
    pub fn location_not_saved(&mut self, error: &str)
        ensures
            final(self)@ == old(self)@.telling("Failed to save location: "@ + error@),
            old(self)@.consistent() ==> final(self)@.consistent(),
    {
        self.status_message = join2("Failed to save location: ", error);
    }

    /// Takes the search result without choosing a station.
    pub fn use_without_station(&mut self)
        requires
            old(self)@.search_result is Some,
        ensures
            final(self)@ == (SessionView {
                current_location: old(self)@.search_result,
                current_station_id: None,
                ..old(self)@.search_over().telling("Using closest station automatically"@)
            }),
            old(self)@.consistent() ==> final(self)@.consistent(),
    {
        self.current_location = match &self.search_result {
            Some(found) => Some(found.copy()),
            None => None,
        };
        self.current_station_id = None;
        self.status_message = "Using closest station automatically".to_owned();
        self.search_result = None;
        self.nearby_stations = Vec::new();
        assert(self@.nearby_stations =~= seq![]);
    }

    /// Takes one of the kept places.
    pub fn select_location(&mut self, index: usize)
        requires
            index < old(self)@.validated_locations.len(),
        ensures
            ({
                let loc = old(self)@.validated_locations[index as int];
                final(self)@ == old(self)@.at(loc).telling(
                    "Selected: "@ + loc.city + ", "@ + loc.state,
                )
            }),
            old(self)@.consistent() ==> final(self)@.consistent(),
    {
        let chosen = self.validated_locations[index].copy();
        assert(chosen@ == self@.validated_locations[index as int]);
        self.status_message = join4(
            "Selected: ",
            chosen.city.as_str(),
            ", ",
            chosen.state.as_str(),
        );
        self.current_station_id = copy_text(&chosen.station_id);
        self.current_location = Some(chosen);
    }

    /// Drops one of the kept places from the list once it is deleted.
    pub fn location_deleted(&mut self, index: usize)
        requires
            index < old(self)@.validated_locations.len(),
        ensures
            final(self)@ == (SessionView {
                validated_locations: old(self)@.validated_locations.remove(index as int),
                ..old(self)@.telling("Location removed"@)
            }),
            old(self)@.consistent() ==> final(self)@.consistent(),
    {
        let ghost before = self@.validated_locations;
        let _ = self.validated_locations.remove(index);
        self.status_message = "Location removed".to_owned();
        assert(self@.validated_locations =~= before.remove(index as int));
    }

    /// Tells that a kept place could not be deleted.
    pub fn location_not_deleted(&mut self, error: &str)
        ensures
            final(self)@ == old(self)@.telling("Delete failed: "@ + error@),
            old(self)@.consistent() ==> final(self)@.consistent(),
    {
        self.status_message = join2("Delete failed: ", error);
    }

    /// Takes up how a collection ended, at `now`.
    pub fn collection_finished(&mut self, result: Result<usize, Failure>, now: i64)
        requires
            representable(now as int),
        ensures
            final(self)@ == (match result {
                Ok(count) => SessionView {
                    last_update: utc_text(now, UPDATE_PATTERN@),
                    ..old(self)@.telling(
                        "Collected "@ + decimal(count as nat) + " hourly periods"@,
                    )
                },
                Err(e) => old(self)@.telling("Collection failed: "@ + e@.words()),
            }),
            old(self)@.consistent() ==> final(self)@.consistent(),
    {
        match result {
            Ok(count) => {
                let digits = decimal_text(count as u64);
                self.status_message = join3("Collected ", digits.as_str(), " hourly periods");
                self.last_update = format_utc(now, UPDATE_PATTERN).unwrap();
            },
            Err(e) => {
                self.status_message = join2("Collection failed: ", e.message().as_str());
            },
        }
    }

    /// Takes up how a catch-up ended, at `now`.
    pub fn catch_up_finished(&mut self, result: Result<usize, Failure>, now: i64)
        requires
            representable(now as int),
        ensures
            final(self)@ == (match result {
                Ok(count) => SessionView {
                    last_update: utc_text(now, UPDATE_PATTERN@),
                    ..old(self)@.telling(
                        "Catch up complete. Added "@ + decimal(count as nat) + " new records."@,
                    )
                },
                Err(e) => old(self)@.telling("Catch up failed: "@ + e@.words()),
            }),
            old(self)@.consistent() ==> final(self)@.consistent(),
    {
        match result {
            Ok(count) => {
                let digits = decimal_text(count as u64);
                self.status_message = join3(
                    "Catch up complete. Added ",
                    digits.as_str(),
                    " new records.",
                );
                self.last_update = format_utc(now, UPDATE_PATTERN).unwrap();
            },
            Err(e) => {
                self.status_message = join2("Catch up failed: ", e.message().as_str());
            },
        }
    }

    /// Tells what the database holds, or why that is not known.
    pub fn coverage_told(&mut self, result: &Result<DataCoverage, String>)
        ensures
            final(self)@ == (match *result {
                Ok(c) => old(self)@.telling(coverage_words(c@)),
                Err(e) => old(self)@.telling("Validation failed: "@ + e@),
            }),
            old(self)@.consistent() ==> final(self)@.consistent(),
    {
        self.status_message = match result {
            Ok(c) => coverage_message(c),
            Err(e) => join2("Validation failed: ", e.as_str()),
        };
    }

    /// Tells how far back the weather service reaches, or why that is not known.
    pub fn history_told(&mut self, result: Result<String, Failure>)
        ensures
            final(self)@ == (match result {
                Ok(t) => old(self)@.telling(t@),
                Err(e) => old(self)@.telling("History check failed: "@ + e@.words()),
            }),
            old(self)@.consistent() ==> final(self)@.consistent(),
    {
        self.status_message = match result {
            Ok(t) => t,
            Err(e) => join2("History check failed: ", e.message().as_str()),
        };
    }

    /// Sets how far back the graphs reach.
    pub fn select_time_range(&mut self, range: TimeRange)
        ensures
            final(self)@ == (SessionView { selected_time_range: range, ..old(self)@ }),
            old(self)@.consistent() ==> final(self)@.consistent(),
    {
        self.selected_time_range = range;
    }

    /// Takes up how an export ended; `None` where no place was in use. Returns whether the export
    /// window is to be closed.
    pub fn export_finished(&mut self, result: Option<Result<String, String>>) -> (r: bool)
        ensures
            r == (result matches Some(Ok(path))),
            final(self)@ == (match result {
                Some(Ok(path)) => old(self)@.telling("Exported to "@ + path@),
                Some(Err(e)) => old(self)@.telling("Export failed: "@ + e@),
                None => old(self)@.telling("No location selected"@),
            }),
            old(self)@.consistent() ==> final(self)@.consistent(),
    {
        match result {
            Some(Ok(path)) => {
                self.status_message = join2("Exported to ", path.as_str());
                true
            },
            Some(Err(e)) => {
                self.status_message = join2("Export failed: ", e.as_str());
                false
            },
            None => {
                self.status_message = "No location selected".to_owned();
                false
            },
        }
    }

    /// Shows the export window on where the user left it open and no export closed it.
    pub fn export_drawn(&mut self, left_open: bool, closed: bool)
        ensures
            final(self)@ == (SessionView {
                show_export_window: left_open && !closed,
                ..old(self)@
            }),
            old(self)@.consistent() ==> final(self)@.consistent(),
    {
        self.show_export_window = left_open && !closed;
    }
}

/// The two states differ in the status at most.
pub open spec fn only_status_differs<S, C>(a: SessionView<S, C>, b: SessionView<S, C>) -> bool {
    SessionView { status_message: a.status_message, ..b } == a
}

/// The two states differ in the status and in the search at most.
pub open spec fn only_search_differs<S, C>(a: SessionView<S, C>, b: SessionView<S, C>) -> bool {
    only_status_differs(
        a,
        SessionView {
            search_result: a.search_result,
            nearby_stations: a.nearby_stations,
            ..b
        },
    )
}

/// The two states differ in the status and in the place in use at most.
pub open spec fn only_place_differs<S, C>(a: SessionView<S, C>, b: SessionView<S, C>) -> bool {
    only_status_differs(
        a,
        SessionView {
            current_location: a.current_location,
            current_station_id: a.current_station_id,
            ..b
        },
    )
}

/// A new session takes up what was kept, has no place in use and searches for nothing.
pub proof fn session_starts_from_what_was_kept<S: Copy, C: Copy>(
    settings: Settings<S>,
    places: Vec<LocationResult<C>>,
    r: ShieldedObserverApp<S, C>,
)
    requires
        call_ensures(ShieldedObserverApp::<S, C>::new, (settings, places), r),
    ensures
        r@.settings() == settings,
        r.pending_scale == settings.ui_scale,
        r@.validated_locations == locations_view(places@),
        r.current_location is None && r.current_station_id is None && r.search_result is None,
        r.nearby_stations@.len() == 0,
        r.city_input@.len() == 0 && r.state_input@.len() == 0,
        !r.show_settings && !r.show_export_window && !r.settings_loaded && !r.theme_applied,
        r.status_message@ == "Idle"@ && r.last_update@ == "Never"@ && r.export_format@ == "CSV"@,
        r.selected_time_range == TimeRange::Last7Days,
{
    assert(texts(r.nearby_stations@).len() == r.nearby_stations@.len());
}

/// A search is taken up as it ended: the place and the stations that were found stand for it, with
/// their number or with what went wrong, and nothing of an earlier search stays. Nothing else
/// changes.
pub proof fn search_is_taken_up_as_it_ended<S: Copy, C: Copy>(
    app: &mut ShieldedObserverApp<S, C>,
    outcome: SearchOutcome<C>,
    n: u64,
    count: String,
    words: String,
)
    requires
        call_ensures(ShieldedObserverApp::<S, C>::finish_search, (app, outcome), ()),
        outcome is Found && outcome->Found_1 is Ok ==> n == outcome->Found_1->Ok_0@.len(),
        call_ensures(decimal_text, (n,), count),
        outcome is Found && outcome->Found_1 is Err ==> call_ensures(
            Failure::message,
            (&outcome->Found_1->Err_0,),
            words,
        ),
    ensures
        only_search_differs(old(app)@, final(app)@),
        outcome is NotFound ==> final(app)@.search_result is None
            && final(app)@.nearby_stations.len() == 0 && final(app)@.status_message == "Error: "@
            + outcome->NotFound_0@,
        outcome is Found ==> final(app)@.search_result == Some(outcome->Found_0@),
        outcome is Found && outcome->Found_1 is Ok ==> final(app)@.nearby_stations == texts(
            outcome->Found_1->Ok_0@,
        ) && final(app)@.status_message == "Found "@ + count@
            + " nearby stations. Please select one."@,
        outcome is Found && outcome->Found_1 is Err ==> final(app)@.nearby_stations.len() == 0
            && final(app)@.status_message == "Location found but failed to load stations: "@ + words@,
{
}

/// The station that the user chooses is used at the place that was found: it is the station of the
/// place in use and of the place that is to be kept, which keep the city, the state and the
/// coordinates that were found. The search is over, and nothing else changes.
pub proof fn chosen_station_is_that_of_the_place<S: Copy, C: Copy>(
    app: &mut ShieldedObserverApp<S, C>,
    index: usize,
    r: LocationResult<C>,
)
    requires
        old(app)@.search_result is Some,
        index < old(app)@.nearby_stations.len(),
        call_ensures(ShieldedObserverApp::<S, C>::choose_station, (app, index), r),
    ensures
        ({
            let found = old(app)@.search_result->0;
            let station = old(app)@.nearby_stations[index as int];
            &&& r@.city == found.city && r@.state == found.state
            &&& r@.lat == found.lat && r@.lon == found.lon
            &&& r@.station_id == Some(station)
            &&& final(app)@.current_location == Some(r@)
            &&& final(app)@.current_station_id == Some(station)
            &&& final(app)@.search_result is None
            &&& final(app)@.nearby_stations.len() == 0
            &&& final(app)@.status_message == "Selected station: "@ + station
        }),
        only_search_differs(
            old(app)@,
            (SessionView {
                current_location: old(app)@.current_location,
                current_station_id: old(app)@.current_station_id,
                ..final(app)@
            }),
        ),
{
}

/// The place that was found is used as it is where the user chooses no station: no station is in use,
/// the search is over, and nothing else changes.
pub proof fn found_place_is_used_without_a_station<S: Copy, C: Copy>(
    app: &mut ShieldedObserverApp<S, C>,
)
    requires
        old(app)@.search_result is Some,
        call_ensures(ShieldedObserverApp::<S, C>::use_without_station, (app,), ()),
    ensures
        final(app)@.current_location == old(app)@.search_result,
        final(app)@.current_station_id is None,
        final(app)@.search_result is None,
        final(app)@.nearby_stations.len() == 0,
        final(app)@.status_message == "Using closest station automatically"@,
        only_search_differs(
            old(app)@,
            (SessionView {
                current_location: old(app)@.current_location,
                current_station_id: old(app)@.current_station_id,
                ..final(app)@
            }),
        ),
{
}

/// The kept place that the user selects is in use, with its own station; the list of kept places, the
/// search and everything else stay.
pub proof fn selected_place_is_in_use<S: Copy, C: Copy>(
    app: &mut ShieldedObserverApp<S, C>,
    index: usize,
)
    requires
        index < old(app)@.validated_locations.len(),
        call_ensures(ShieldedObserverApp::<S, C>::select_location, (app, index), ()),
    ensures
        ({
            let loc = old(app)@.validated_locations[index as int];
            &&& final(app)@.current_location == Some(loc)
            &&& final(app)@.current_station_id == loc.station_id
            &&& final(app)@.status_message == "Selected: "@ + loc.city + ", "@ + loc.state
        }),
        only_place_differs(old(app)@, final(app)@),
{
}

/// A deleted place leaves the list and every other place stays in it, in order; the place in use and
/// everything else stay.
pub proof fn only_the_deleted_place_leaves_the_list<S: Copy, C: Copy>(
    app: &mut ShieldedObserverApp<S, C>,
    index: usize,
    i: int,
)
    requires
        index < old(app)@.validated_locations.len(),
        call_ensures(ShieldedObserverApp::<S, C>::location_deleted, (app, index), ()),
    ensures
        final(app)@.validated_locations.len() == old(app)@.validated_locations.len() - 1,
        0 <= i < index ==> final(app)@.validated_locations[i] == old(app)@.validated_locations[i],
        index <= i < final(app)@.validated_locations.len() ==> final(app)@.validated_locations[i]
            == old(app)@.validated_locations[i + 1],
        final(app)@.status_message == "Location removed"@,
        only_status_differs(
            old(app)@,
            (SessionView { validated_locations: old(app)@.validated_locations, ..final(app)@ }),
        ),
{
}

/// Once a place was kept, the list is what was read anew and nothing else changes; where it could not
/// be kept or deleted, that is told in its own words and nothing else changes.
pub proof fn keeping_a_place_is_told<S: Copy, C: Copy>(
    a: &mut ShieldedObserverApp<S, C>,
    b: &mut ShieldedObserverApp<S, C>,
    c: &mut ShieldedObserverApp<S, C>,
    places: Vec<LocationResult<C>>,
    error: &str,
)
    requires
        call_ensures(ShieldedObserverApp::<S, C>::location_saved, (a, places), ()),
        call_ensures(ShieldedObserverApp::<S, C>::location_not_saved, (b, error), ()),
        call_ensures(ShieldedObserverApp::<S, C>::location_not_deleted, (c, error), ()),
    ensures
        final(a)@.validated_locations == locations_view(places@),
        (SessionView { validated_locations: old(a)@.validated_locations, ..final(a)@ }) == old(a)@,
        final(b)@.status_message == "Failed to save location: "@ + error@,
        only_status_differs(old(b)@, final(b)@),
        final(c)@.status_message == "Delete failed: "@ + error@,
        only_status_differs(old(c)@, final(c)@),
{
}

/// A task that ended well tells its number and renews the time of the last update; one that did not
/// tells why, in the words of its failure, and leaves that time. Nothing else changes.
pub proof fn finished_tasks_are_told<S: Copy, C: Copy>(
    a: &mut ShieldedObserverApp<S, C>,
    b: &mut ShieldedObserverApp<S, C>,
    result: Result<usize, Failure>,
    now: i64,
    n: u64,
    count: String,
    words: String,
)
    requires
        call_ensures(ShieldedObserverApp::<S, C>::collection_finished, (a, result, now), ()),
        call_ensures(ShieldedObserverApp::<S, C>::catch_up_finished, (b, result, now), ()),
        result is Ok ==> n == result->Ok_0,
        call_ensures(decimal_text, (n,), count),
        result is Err ==> call_ensures(Failure::message, (&result->Err_0,), words),
    ensures
        result is Ok ==> final(a)@.status_message == "Collected "@ + count@ + " hourly periods"@,
        result is Ok ==> final(b)@.status_message == "Catch up complete. Added "@ + count@
            + " new records."@,
        result is Ok ==> final(a)@.last_update == utc_text(now, "%Y-%m-%d %H:%M"@),
        result is Ok ==> final(b)@.last_update == utc_text(now, "%Y-%m-%d %H:%M"@),
        result is Err ==> final(a)@.status_message == "Collection failed: "@ + words@,
        result is Err ==> final(b)@.status_message == "Catch up failed: "@ + words@,
        result is Err ==> final(a)@.last_update == old(a)@.last_update && final(b)@.last_update
            == old(b)@.last_update,
        only_status_differs(
            old(a)@,
            (SessionView { last_update: old(a)@.last_update, ..final(a)@ }),
        ),
        only_status_differs(
            old(b)@,
            (SessionView { last_update: old(b)@.last_update, ..final(b)@ }),
        ),
{
}

/// What the database holds and how far the weather service reaches back is told, or why that is not
/// known, and nothing else changes.
pub proof fn findings_are_told<S: Copy, C: Copy>(
    a: &mut ShieldedObserverApp<S, C>,
    b: &mut ShieldedObserverApp<S, C>,
    coverage: Result<DataCoverage, String>,
    history: Result<String, Failure>,
    message: String,
    words: String,
)
    requires
        call_ensures(ShieldedObserverApp::<S, C>::coverage_told, (a, &coverage), ()),
        call_ensures(ShieldedObserverApp::<S, C>::history_told, (b, history), ()),
        coverage is Ok ==> call_ensures(coverage_message, (&coverage->Ok_0,), message),
        history is Err ==> call_ensures(Failure::message, (&history->Err_0,), words),
    ensures
        coverage is Ok ==> final(a)@.status_message == message@,
        coverage is Err ==> final(a)@.status_message == "Validation failed: "@ + coverage->Err_0@,
        history is Ok ==> final(b)@.status_message == history->Ok_0@,
        history is Err ==> final(b)@.status_message == "History check failed: "@ + words@,
        only_status_differs(old(a)@, final(a)@),
        only_status_differs(old(b)@, final(b)@),
{
}

/// What the database holds is told by the number of records and of days, nought where that is not
/// known, and by the first date and the last, in that order.
pub proof fn coverage_is_told_in_order(
    c: DataCoverage,
    n: u64,
    days: u64,
    records: String,
    days_text: String,
    r: String,
)
    requires
        call_ensures(coverage_message, (&c,), r),
        n == c.total_records,
        days == (match c.approx_days_covered {
            Some(d) => d,
            None => 0,
        }),
        call_ensures(decimal_text, (n,), records),
        call_ensures(decimal_text, (days,), days_text),
    ensures
        r@ == "Data: "@ + records@ + " records | ~"@ + days_text@ + " days | "@ + (
        match c.earliest_date {
            Some(d) => d@,
            None => "N/A"@,
        }) + " → "@ + (match c.latest_date {
            Some(d) => d@,
            None => "N/A"@,
        }),
{
}

/// The scale that the user let go of is in use and kept exactly where it differs from the one before,
/// and else the one before is; the theme, the time zone and everything else stay.
pub proof fn scale_is_taken_up_where_it_differs<S: Copy, C: Copy>(
    a: &mut ShieldedObserverApp<S, C>,
    b: &mut ShieldedObserverApp<S, C>,
    scale_chosen: bool,
    differs: bool,
    r: (bool, Settings<S>),
    applied: bool,
)
    requires
        call_ensures(
            ShieldedObserverApp::<S, C>::settings_drawn,
            (a, scale_chosen, differs),
            r,
        ),
        call_ensures(ShieldedObserverApp::<S, C>::apply_scale, (b, differs), applied),
    ensures
        scale_chosen && differs ==> r.0 && final(a)@.ui_scale == old(a)@.pending_scale,
        !(scale_chosen && differs) ==> !r.0 && final(a)@.ui_scale == old(a)@.ui_scale,
        r.1.ui_scale == final(a)@.ui_scale,
        r.1.dark_mode == old(a)@.dark_mode,
        r.1.use_local_time == old(a)@.use_local_time,
        (SessionView { ui_scale: old(a)@.ui_scale, ..final(a)@ }) == old(a)@,
        applied == differs,
        final(b)@.ui_scale == (if differs {
            old(b)@.pending_scale
        } else {
            old(b)@.ui_scale
        }),
        (SessionView { ui_scale: old(b)@.ui_scale, ..final(b)@ }) == old(b)@,
{
}

/// The button for the theme switches to the theme that it names, and the buttons for the settings and
/// the export show their windows; each changes that and nothing else.
pub proof fn buttons_do_what_they_name<S: Copy, C: Copy>(
    a: &mut ShieldedObserverApp<S, C>,
    b: &mut ShieldedObserverApp<S, C>,
    c: &mut ShieldedObserverApp<S, C>,
    d: &mut ShieldedObserverApp<S, C>,
    range: TimeRange,
)
    requires
        call_ensures(ShieldedObserverApp::<S, C>::toggle_theme, (a,), ()),
        call_ensures(ShieldedObserverApp::<S, C>::toggle_settings, (b,), ()),
        call_ensures(ShieldedObserverApp::<S, C>::open_export, (c,), ()),
        call_ensures(ShieldedObserverApp::<S, C>::select_time_range, (d, range), ()),
    ensures
        final(a)@.dark_mode != old(a)@.dark_mode,
        (SessionView { dark_mode: old(a)@.dark_mode, ..final(a)@ }) == old(a)@,
        final(b)@.show_settings != old(b)@.show_settings,
        (SessionView { show_settings: old(b)@.show_settings, ..final(b)@ }) == old(b)@,
        final(c)@.show_export_window,
        (SessionView { show_export_window: old(c)@.show_export_window, ..final(c)@ }) == old(c)@,
        final(d)@.selected_time_range == range,
        (SessionView { selected_time_range: old(d)@.selected_time_range, ..final(d)@ }) == old(d)@,
{
}

/// The first frame is told once: after a frame was drawn, the next is not the first.
pub proof fn first_frame_comes_once<S: Copy, C: Copy>(
    a: &mut ShieldedObserverApp<S, C>,
    b: &mut ShieldedObserverApp<S, C>,
    first: bool,
    next: bool,
)
    requires
        call_ensures(ShieldedObserverApp::<S, C>::first_frame, (a,), first),
        old(b)@ == final(a)@,
        call_ensures(ShieldedObserverApp::<S, C>::first_frame, (b,), next),
    ensures
        first == !old(a)@.settings_loaded,
        !next,
        (SessionView { settings_loaded: old(a)@.settings_loaded, ..final(a)@ }) == old(a)@,
{
}

/// An export is told as it ended and closes its window only where it ended well; the window stays
/// open exactly where the user left it open and no export closed it.
pub proof fn export_is_told_as_it_ended<S: Copy, C: Copy>(
    a: &mut ShieldedObserverApp<S, C>,
    b: &mut ShieldedObserverApp<S, C>,
    result: Option<Result<String, String>>,
    left_open: bool,
    closed: bool,
)
    requires
        call_ensures(ShieldedObserverApp::<S, C>::export_finished, (a, result), closed),
        call_ensures(ShieldedObserverApp::<S, C>::export_drawn, (b, left_open, closed), ()),
    ensures
        result is None ==> final(a)@.status_message == "No location selected"@,
        result is Some && result->0 is Ok ==> final(a)@.status_message == "Exported to "@
            + result->0->Ok_0@,
        result is Some && result->0 is Err ==> final(a)@.status_message == "Export failed: "@
            + result->0->Err_0@,
        closed <==> result is Some && result->0 is Ok,
        only_status_differs(old(a)@, final(a)@),
        final(b)@.show_export_window <==> left_open && !(result is Some && result->0 is Ok),
        (SessionView { show_export_window: old(b)@.show_export_window, ..final(b)@ }) == old(b)@,
{
}

/// The label of a place names its city and state, and its station where it has one; the label of a
/// station that is offered is its name, marked where it is the first.
pub proof fn labels_name_what_they_stand_for<S: Copy, C: Copy>(
    app: ShieldedObserverApp<S, C>,
    index: usize,
    loc: LocationResult<C>,
    station: String,
    place: String,
    line: String,
    searchable: bool,
)
    requires
        index < app.nearby_stations@.len(),
        call_ensures(ShieldedObserverApp::<S, C>::station_label, (&app, index), station),
        call_ensures(place_label::<C>, (&loc,), place),
        call_ensures(current_place_label::<C>, (&loc,), line),
        call_ensures(ShieldedObserverApp::<S, C>::can_search, (&app,), searchable),
    ensures
        app.nearby_stations@[index as int]@ == app.nearby_stations@[0]@ ==> station@
            == app.nearby_stations@[index as int]@ + " (Closest)"@,
        app.nearby_stations@[index as int]@ != app.nearby_stations@[0]@ ==> station@
            == app.nearby_stations@[index as int]@,
        loc.station_id is None ==> place@ == loc.city@ + ", "@ + loc.state@,
        loc.station_id is Some ==> place@ == loc.city@ + ", "@ + loc.state@ + " ("@
            + loc.station_id->0@ + ")"@,
        line@ == "Current Location: "@ + place@,
        searchable <==> app.city_input@.len() > 0 && app.state_input@.len() > 0,
{
}

} // verus!
