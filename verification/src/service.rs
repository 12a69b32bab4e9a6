//! The weather service: the addresses of its documents and what they tell.
use vstd::prelude::*;

use crate::failure::{Failure, FailureView};
use crate::json::{
    cell_number, cell_text, has_width, opt_text, row_view, rows_view, rows_width, Cell, CellView, Listing,
    ListingView,
};
use crate::series::{lemma_present_concat, lemma_present_len, present};
use crate::task::{columns_of, place_of, Awaited};
use crate::text::{
    after_last, join2, join3, join4, join5, last_segment, lemma_after_last_parts, texts,
};

verus! {

/// The address of the document on a place.
pub open spec fn points_url_of(lat: Seq<char>, lon: Seq<char>) -> Seq<char> {
    "https://api.weather.gov/points/"@ + lat + ","@ + lon
}

/// The address of the document on the place at the coordinates written `lat` and `lon`.
pub fn points_url(lat: &str, lon: &str) -> (r: String)
    ensures
        r@ == points_url_of(lat@, lon@),
{
    join4("https://api.weather.gov/points/", lat, ",", lon)
}

/// The address of the last observations of a station.
pub open spec fn latest_url_of(station: Seq<char>) -> Seq<char> {
    "https://api.weather.gov/stations/"@ + station + "/observations?limit=500"@
}

/// The address of the last 500 observations of a station.
pub fn latest_url(station: &str) -> (r: String)
    ensures
        r@ == latest_url_of(station@),
{
    join3("https://api.weather.gov/stations/", station, "/observations?limit=500")
}

/// The address of a station's observations from one time to another.
pub open spec fn window_url_of(station_id: Seq<char>, start: Seq<char>, end: Seq<char>) -> Seq<
    char,
> {
    station_id + "/observations?start="@ + start + "&end="@ + end
}

/// The address of the observations of the station with the address `station_id` from the time
/// written `start` to that written `end`.
pub fn window_url(station_id: &str, start: &str, end: &str) -> (r: String)
    ensures
        r@ == window_url_of(station_id@, start@, end@),
{
    join5(station_id, "/observations?start=", start, "&end=", end)
}

/// The address of the oldest observation of a station.
pub open spec fn oldest_url_of(station_id: Seq<char>) -> Seq<char> {
    station_id + "/observations?start=2020-01-01T00:00:00Z&limit=1"@
}

/// The address of the oldest observation of the station with the address `station_id`.
pub fn oldest_url(station_id: &str) -> (r: String)
    ensures
        r@ == oldest_url_of(station_id@),
{
    join2(station_id, "/observations?start=2020-01-01T00:00:00Z&limit=1")
}

/// The short name of a station: the last part of its address.
pub open spec fn short_name_of(station_id: Seq<char>) -> Seq<char> {
    after_last(station_id, '/')
}

/// The short name of the station with the address `station_id`.
pub fn short_name(station_id: &str) -> (r: String)
    ensures
        r@ == short_name_of(station_id@),
{
    last_segment(station_id, '/')
}

/// The contents of a text or of the reason why there is none.
pub open spec fn text_result(r: Result<String, Failure>) -> Result<Seq<char>, FailureView> {
    match r {
        Ok(t) => Ok(t@),
        Err(e) => Err(e@),
    }
}

/// The address of the list of stations, from the document on a place.
pub open spec fn stations_url_in(cell: Option<CellView>) -> Result<Seq<char>, FailureView> {
    match cell {
        None => Err(FailureView::UndecodableBody),
        Some(c) => match cell_text(c) {
            Some(url) => Ok(url),
            None => Err(FailureView::NoStationsUrl),
        },
    }
}

/// The address of the list of stations, from what stands at its place in the document on a place.
pub fn stations_url(cell: &Option<Cell>) -> (r: Result<String, Failure>)
    ensures
        text_result(r) == stations_url_in(
            match *cell {
                Some(c) => Some(c@),
                None => None,
            },
        ),
{
    match cell {
        None => Err(Failure::UndecodableBody),
        Some(c) => match c.as_text() {
            Some(url) => Ok(url),
            None => Err(Failure::NoStationsUrl),
        },
    }
}

/// The address of the closest station, which the list of stations names first.
pub open spec fn closest_in(list: ListingView) -> Result<Seq<char>, FailureView> {
    match list {
        ListingView::Undecodable => Err(FailureView::UndecodableBody),
        ListingView::NoArray => Err(FailureView::NoStations),
        ListingView::Rows(rows) => if rows.len() == 0 {
            Err(FailureView::NoStationNearby)
        } else {
            match cell_text(rows[0][0]) {
                Some(id) => Ok(id),
                None => Err(FailureView::InvalidStation),
            }
        },
    }
}

/// The address of the closest station, from a list whose rows hold the stations' addresses.
pub fn closest_station(list: &Listing) -> (r: Result<String, Failure>)
    requires
        has_width(list@, 1),
    ensures
        text_result(r) == closest_in(list@),
{
    match list {
        Listing::Undecodable => Err(Failure::UndecodableBody),
        Listing::NoArray => Err(Failure::NoStations),
        Listing::Rows(rows) => {
            if rows.len() == 0 {
                return Err(Failure::NoStationNearby);
            }
            assert(rows_view(rows@)[0] == row_view(rows@[0]@));
            assert(rows_view(rows@)[0].len() == 1);
            match rows[0][0].as_text() {
                Some(id) => Ok(id),
                None => Err(Failure::InvalidStation),
            }
        },
    }
}

/// The most stations that are offered for a place.
pub const OFFERED: usize = 6;

/// The short name of the station in a row of the list of stations.
pub open spec fn name_in(row: Seq<CellView>) -> Option<Seq<char>> {
    match cell_text(row[0]) {
        Some(id) => Some(short_name_of(id)),
        None => None,
    }
}

/// The first rows of the list of stations.
pub open spec fn offered<T>(rows: Seq<T>) -> Seq<T> {
    if rows.len() <= OFFERED {
        rows
    } else {
        rows.take(OFFERED as int)
    }
}

/// The short names of the stations that the first rows of the list name.
pub open spec fn nearby_in(list: ListingView) -> Result<Seq<Seq<char>>, FailureView> {
    match list {
        ListingView::Undecodable => Err(FailureView::UndecodableBody),
        ListingView::NoArray => Err(FailureView::NoStations),
        ListingView::Rows(rows) => Ok(
            present(offered(rows).map_values(|row: Seq<CellView>| name_in(row))),
        ),
    }
}

/// No more stations are offered than allowed.
pub proof fn few_stations_are_offered(list: ListingView)
    ensures
        nearby_in(list) matches Ok(names) ==> names.len() <= OFFERED,
{
    if let ListingView::Rows(rows) = list {
        lemma_present_len(offered(rows).map_values(|row: Seq<CellView>| name_in(row)));
    }
}

/// The short names of the closest stations, from a list whose rows hold the stations' addresses.
pub fn nearby_stations(list: &Listing) -> (r: Result<Vec<String>, Failure>)
    requires
        has_width(list@, 1),
    ensures
        match r {
            Ok(names) => nearby_in(list@) == Ok::<Seq<Seq<char>>, FailureView>(texts(names@)),
            Err(e) => nearby_in(list@) == Err::<Seq<Seq<char>>, FailureView>(e@),
        },
        r matches Ok(names) ==> names@.len() <= OFFERED,
{
    match list {
        Listing::Undecodable => Err(Failure::UndecodableBody),
        Listing::NoArray => Err(Failure::NoStations),
        Listing::Rows(rows) => {
            let ghost names_of = offered(rows_view(rows@)).map_values(
                |row: Seq<CellView>| name_in(row),
            );
            let mut names: Vec<String> = Vec::new();
            let mut i: usize = 0;
            assert(texts(names@) =~= present(names_of.take(0)));
            while i < rows.len() && i < OFFERED
                invariant
                    i <= rows@.len(),
                    i <= OFFERED,
                    rows_width(rows_view(rows@), 1),
                    names_of == offered(rows_view(rows@)).map_values(
                        |row: Seq<CellView>| name_in(row),
                    ),
                    texts(names@) == present(names_of.take(i as int)),
                decreases rows@.len() - i,
            {
                let ghost before = names@;
                assert(rows_view(rows@)[i as int] == row_view(rows@[i as int]@));
                assert(rows_view(rows@)[i as int].len() == 1);
                assert(names_of.take(i + 1).drop_last() =~= names_of.take(i as int));
                assert(names_of.take(i + 1).last() == name_in(rows_view(rows@)[i as int]));
                if let Some(id) = rows[i][0].as_text() {
                    names.push(short_name(id.as_str()));
                    assert(texts(names@) =~= texts(before).push(names@.last()@));
                }
                i += 1;
            }
            assert(names_of.take(i as int) =~= names_of);
            proof {
                few_stations_are_offered(list@);
            }
            Ok(names)
        },
    }
}

/// An observation as the weather service gives it, its values as decimal texts: temperatures in
/// degrees Celsius, the wind in metres per second and degrees.
pub struct Observation {
    pub time: String,
    pub temperature: Option<String>,
    pub dewpoint: Option<String>,
    pub humidity: Option<String>,
    pub wind_speed: Option<String>,
    pub wind_direction: Option<String>,
}

/// The contents of an [`Observation`].
#[verifier::ext_equal]
pub struct ObservationView {
    pub time: Seq<char>,
    pub temperature: Option<Seq<char>>,
    pub dewpoint: Option<Seq<char>>,
    pub humidity: Option<Seq<char>>,
    pub wind_speed: Option<Seq<char>>,
    pub wind_direction: Option<Seq<char>>,
}

impl View for Observation {
    type V = ObservationView;

    open spec fn view(&self) -> ObservationView {
        ObservationView {
            time: self.time@,
            temperature: opt_text(self.temperature),
            dewpoint: opt_text(self.dewpoint),
            humidity: opt_text(self.humidity),
            wind_speed: opt_text(self.wind_speed),
            wind_direction: opt_text(self.wind_direction),
        }
    }
}

/// The contents of a list of observations.
pub open spec fn observations_view(obs: Seq<Observation>) -> Seq<ObservationView> {
    Seq::new(obs.len(), |i: int| obs[i]@)
}

/// The observation in a row of the list of observations: none where it has no time.
pub open spec fn observation_in(row: Seq<CellView>) -> Option<ObservationView> {
    match cell_text(row[0]) {
        Some(time) => if time.len() == 0 {
            None
        } else {
            Some(
                ObservationView {
                    time,
                    temperature: cell_number(row[1]),
                    dewpoint: cell_number(row[2]),
                    humidity: cell_number(row[3]),
                    wind_speed: cell_number(row[4]),
                    wind_direction: cell_number(row[5]),
                },
            )
        },
        None => None,
    }
}

/// The observations with a time in the rows of the list of observations.
pub open spec fn observations_in(rows: Seq<Seq<CellView>>) -> Seq<ObservationView> {
    present(rows.map_values(|row: Seq<CellView>| observation_in(row)))
}

/// The observations with a time in rows that hold the time, the temperature, the dewpoint, the
/// humidity and the speed and direction of the wind.
pub fn observations(rows: &Vec<Vec<Cell>>) -> (r: Vec<Observation>)
    requires
        rows_width(rows_view(rows@), 6),
    ensures
        observations_view(r@) == observations_in(rows_view(rows@)),
{
    let ghost all = rows_view(rows@).map_values(|row: Seq<CellView>| observation_in(row));
    let mut r: Vec<Observation> = Vec::new();
    let mut i: usize = 0;
    assert(observations_view(r@) =~= present(all.take(0)));
    while i < rows.len()
        invariant
            i <= rows@.len(),
            rows_width(rows_view(rows@), 6),
            all == rows_view(rows@).map_values(|row: Seq<CellView>| observation_in(row)),
            observations_view(r@) == present(all.take(i as int)),
        decreases rows@.len() - i,
    {
        let ghost before = r@;
        let row = &rows[i];
        assert(rows_view(rows@)[i as int] == row_view(row@));
        assert(rows_view(rows@)[i as int].len() == 6);
        assert(all.take(i + 1).drop_last() =~= all.take(i as int));
        assert(all.take(i + 1).last() == observation_in(row_view(row@)));
        if let Some(time) = row[0].as_text() {
            if !time.as_str().is_empty() {
                let obs = Observation {
                    time,
                    temperature: row[1].as_number(),
                    dewpoint: row[2].as_number(),
                    humidity: row[3].as_number(),
                    wind_speed: row[4].as_number(),
                    wind_direction: row[5].as_number(),
                };
                r.push(obs);
                assert(observations_view(r@) =~= observations_view(before).push(obs@));
            }
        }
        i += 1;
    }
    assert(all.take(i as int) =~= all);
    r
}

/// An observation is kept only where it has a time.
pub proof fn kept_observations_have_a_time(rows: Seq<Seq<CellView>>, i: int)
    requires
        0 <= i < observations_in(rows).len(),
    ensures
        observations_in(rows)[i].time.len() > 0,
    decreases rows.len(),
{
    let all = rows.map_values(|row: Seq<CellView>| observation_in(row));
    assert(rows.len() > 0);
    let init = rows.drop_last();
    assert(all.drop_last() =~= init.map_values(|row: Seq<CellView>| observation_in(row)));
    if i < observations_in(init).len() {
        kept_observations_have_a_time(init, i);
    }
}

/// The paths of an observation's values in an item are six different ones.
proof fn lemma_paths_differ()
    ensures
        columns_of(Awaited::Observations).no_duplicates(),
        columns_of(Awaited::Observations).len() == 6,
{
    reveal_strlit("/properties/timestamp");
    reveal_strlit("/properties/temperature/value");
    reveal_strlit("/properties/dewpoint/value");
    reveal_strlit("/properties/relativeHumidity/value");
    reveal_strlit("/properties/windSpeed/value");
    reveal_strlit("/properties/windDirection/value");
    assert("/properties/timestamp"@.len() == 21);
    assert("/properties/temperature/value"@.len() == 29);
    assert("/properties/dewpoint/value"@.len() == 26);
    assert("/properties/relativeHumidity/value"@.len() == 34);
    assert("/properties/windSpeed/value"@.len() == 27);
    assert("/properties/windDirection/value"@.len() == 31);
}

/// The number that stands in a cell, where a number does.
pub open spec fn number_at(cell: Cell) -> Option<Seq<char>> {
    if cell is Number {
        Some(cell->Number_0@)
    } else {
        None
    }
}

/// `value` is the number that stands at `path` in the item of the row.
pub open spec fn stands_at(row: Seq<Cell>, path: Seq<char>, value: Option<String>) -> bool {
    exists|k: int| #[trigger]
        place_of(Awaited::Observations, path, k) && opt_text(value) == number_at(row[k])
}

/// The item of the row has a time: a text that is not empty stands at its timestamp.
pub open spec fn has_time(row: Seq<Cell>) -> bool {
    exists|k: int| #[trigger]
        place_of(Awaited::Observations, "/properties/timestamp"@, k) && row[k] is Text
            && row[k]->Text_0@.len() > 0
}

/// `obs` holds what the item of the row has at the places named for it.
pub open spec fn observation_at(row: Seq<Cell>, obs: Observation) -> bool {
    &&& exists|k: int| #[trigger]
        place_of(Awaited::Observations, "/properties/timestamp"@, k) && row[k] is Text
            && row[k]->Text_0@ == obs.time@
    &&& stands_at(row, "/properties/temperature/value"@, obs.temperature)
    &&& stands_at(row, "/properties/dewpoint/value"@, obs.dewpoint)
    &&& stands_at(row, "/properties/relativeHumidity/value"@, obs.humidity)
    &&& stands_at(row, "/properties/windSpeed/value"@, obs.wind_speed)
    &&& stands_at(row, "/properties/windDirection/value"@, obs.wind_direction)
}

proof fn lemma_has_time(row: Vec<Cell>)
    requires
        row@.len() == 6,
    ensures
        has_time(row@) <==> observation_in(row_view(row@)) is Some,
{
    lemma_paths_differ();
    let cs = columns_of(Awaited::Observations);
    assert(row_view(row@)[0] == row@[0]@);
    assert(cs[0] == "/properties/timestamp"@);
    if observation_in(row_view(row@)) is Some {
        assert(place_of(Awaited::Observations, "/properties/timestamp"@, 0));
    }
    if has_time(row@) {
        let k = choose|k: int| #[trigger]
            place_of(Awaited::Observations, "/properties/timestamp"@, k) && row@[k] is Text
                && row@[k]->Text_0@.len() > 0;
        assert(cs[k] == cs[0]);
        assert(k == 0);
    }
}

proof fn lemma_observation_at(row: Vec<Cell>, obs: Observation)
    requires
        row@.len() == 6,
        observation_in(row_view(row@)) == Some(obs@),
    ensures
        observation_at(row@, obs),
{
    let v = row_view(row@);
    assert(forall|k: int| 0 <= k < 6 ==> v[k] == #[trigger] row@[k]@);
    assert(place_of(Awaited::Observations, "/properties/timestamp"@, 0));
    assert(place_of(Awaited::Observations, "/properties/temperature/value"@, 1));
    assert(place_of(Awaited::Observations, "/properties/dewpoint/value"@, 2));
    assert(place_of(Awaited::Observations, "/properties/relativeHumidity/value"@, 3));
    assert(place_of(Awaited::Observations, "/properties/windSpeed/value"@, 4));
    assert(place_of(Awaited::Observations, "/properties/windDirection/value"@, 5));
    assert(obs@.time == cell_text(v[0])->0);
    assert(row@[0]@ is Text);
    assert(opt_text(obs.temperature) == number_at(row@[1]));
    assert(opt_text(obs.dewpoint) == number_at(row@[2]));
    assert(opt_text(obs.humidity) == number_at(row@[3]));
    assert(opt_text(obs.wind_speed) == number_at(row@[4]));
    assert(opt_text(obs.wind_direction) == number_at(row@[5]));
}

/// Each value of an observation is the number at its own named place of the item, its time the text
/// at the timestamp. One item gives one observation where it has a time, else none, and two lists of
/// items give the observations of the one and then those of the other.
pub proof fn observations_hold_what_stands_at_their_places(
    rows: Vec<Vec<Cell>>,
    first: Vec<Vec<Cell>>,
    second: Vec<Vec<Cell>>,
    r: Vec<Observation>,
    x: Vec<Observation>,
    y: Vec<Observation>,
)
    requires
        rows_width(rows_view(rows@), columns_of(Awaited::Observations).len()),
        call_ensures(observations, (&rows,), r),
        call_ensures(observations, (&first,), x),
        call_ensures(observations, (&second,), y),
    ensures
        rows@.len() == 0 ==> r@.len() == 0,
        rows@.len() == 1 && has_time(rows@[0]@) ==> r@.len() == 1 && observation_at(
            rows@[0]@,
            r@[0],
        ),
        rows@.len() == 1 && !has_time(rows@[0]@) ==> r@.len() == 0,
        rows@ == first@ + second@ ==> observations_view(r@) == observations_view(x@)
            + observations_view(y@),
{
    let f = |row: Seq<CellView>| observation_in(row);
    let items = rows_view(rows@).map_values(f);
    assert(observations_view(r@).len() == r@.len());
    if rows@.len() == 1 {
        assert(rows_view(rows@)[0] == row_view(rows@[0]@));
        assert(rows_view(rows@)[0].len() == 6);
        lemma_has_time(rows@[0]);
        assert(items.drop_last() =~= seq![]);
        assert(present(items.drop_last()) =~= seq![]);
        assert(items.last() == observation_in(row_view(rows@[0]@)));
        if has_time(rows@[0]@) {
            assert(observations_view(r@)[0] == r@[0]@);
            lemma_observation_at(rows@[0], r@[0]);
        }
    }
    if rows@ == first@ + second@ {
        let a = rows_view(first@).map_values(f);
        let b = rows_view(second@).map_values(f);
        assert(items =~= a + b);
        lemma_present_concat(a, b);
    }
}

/// What the document on a place tells: the address of the list of stations where a text stands for
/// it, else why not.
pub proof fn stations_url_is_the_text_that_stands(cell: Option<Cell>, r: Result<String, Failure>)
    requires
        call_ensures(stations_url, (&cell,), r),
    ensures
        cell is None ==> r is Err && r->Err_0 is UndecodableBody,
        cell is Some && cell->0 is Text ==> r is Ok && r->Ok_0@ == cell->0->Text_0@,
        cell is Some && !(cell->0 is Text) ==> r is Err && r->Err_0 is NoStationsUrl,
{
}

/// The closest station is the first of the list, whatever follows it.
pub proof fn closest_station_is_the_first(list: Listing, r: Result<String, Failure>)
    requires
        has_width(list@, 1),
        call_ensures(closest_station, (&list,), r),
    ensures
        list is Undecodable ==> r is Err && r->Err_0 is UndecodableBody,
        list is NoArray ==> r is Err && r->Err_0 is NoStations,
        list is Rows && list->Rows_0@.len() == 0 ==> r is Err && r->Err_0 is NoStationNearby,
        list is Rows && list->Rows_0@.len() > 0 && list->Rows_0@[0]@[0] is Text ==> r is Ok
            && r->Ok_0@ == list->Rows_0@[0]@[0]->Text_0@,
        list is Rows && list->Rows_0@.len() > 0 && !(list->Rows_0@[0]@[0] is Text) ==> r is Err
            && r->Err_0 is InvalidStation,
{
    if let Listing::Rows(rows) = list {
        if rows@.len() > 0 {
            assert(rows_view(rows@)[0] == row_view(rows@[0]@));
            assert(rows_view(rows@)[0].len() == 1);
            assert(row_view(rows@[0]@)[0] == rows@[0]@[0]@);
        }
    }
}

/// The short name of a station holds no slash, ends its address and follows a slash there, if it is
/// not all of it.
pub proof fn short_name_ends_the_address(station_id: &str, r: String)
    requires
        call_ensures(short_name, (station_id,), r),
    ensures
        r@.is_suffix_of(station_id@),
        forall|i: int| 0 <= i < r@.len() ==> #[trigger] r@[i] != '/',
        r@.len() == station_id@.len() || station_id@[station_id@.len() - r@.len() - 1] == '/',
{
    lemma_after_last_parts(station_id@, '/');
}

/// The stations that are offered: none of an empty list; one more station in the list is offered
/// behind the others, by its short name, where it is among the first six and has an address, and
/// changes nothing else.
pub proof fn stations_are_offered_in_order(
    before: Vec<Vec<Cell>>,
    row: Vec<Cell>,
    after: Vec<Vec<Cell>>,
    r: Result<Vec<String>, Failure>,
    s: Result<Vec<String>, Failure>,
)
    requires
        has_width(Listing::Rows(after)@, 1),
        after@ == before@.push(row),
        call_ensures(nearby_stations, (&Listing::Rows(before),), r),
        call_ensures(nearby_stations, (&Listing::Rows(after),), s),
    ensures
        r is Ok && s is Ok,
        before@.len() == 0 ==> r->Ok_0@.len() == 0,
        before@.len() < 6 && row@[0] is Text ==> texts(s->Ok_0@) == texts(r->Ok_0@).push(
            after_last(row@[0]->Text_0@, '/'),
        ),
        before@.len() >= 6 || !(row@[0] is Text) ==> texts(s->Ok_0@) == texts(r->Ok_0@),
{
    let f = |row: Seq<CellView>| name_in(row);
    let b = rows_view(before@);
    let a = rows_view(after@);
    assert(a =~= b.push(row_view(row@)));
    assert(a[before@.len() as int] == row_view(row@));
    assert(a[before@.len() as int].len() == 1);
    assert(row_view(row@)[0] == row@[0]@);
    if before@.len() < 6 {
        let items = offered(a).map_values(f);
        assert(items.drop_last() =~= offered(b).map_values(f));
        assert(items.last() == name_in(row_view(row@)));
    } else {
        assert(offered(a) =~= offered(b));
    }
    if before@.len() == 0 {
        assert(offered(b).map_values(f) =~= seq![]);
        assert(texts(r->Ok_0@).len() == r->Ok_0@.len());
    }
}

} // verus!
