//! The search for a place: its coordinates from the cache or the geocoding service, and the weather
//! stations near it.
use vstd::prelude::*;
use vstd::utf8::encode_utf8;

use crate::failure::{Failure, FailureView};
use crate::json::{
    cell_text, find_rows, has_width, json_listing, paths, row_view, rows_view, Cell, Listing,
    ListingView,
};
use crate::location::{LocationResult, LocationView};
use crate::service::{
    few_stations_are_offered, nearby_in, nearby_stations, points_url, points_url_of, stations_url,
    stations_url_in, OFFERED,
};
use crate::task::{answers, input_of, read_reply, suits, Awaited, Input, InputView, Reply};
use crate::text::{join2, join3, texts};

verus! {

/// A byte that stands for itself in a query.
pub open spec fn unreserved(b: u8) -> bool {
    ||| 48 <= b <= 57
    ||| 65 <= b <= 90
    ||| 97 <= b <= 122
    ||| b == 45
    ||| b == 46
    ||| b == 95
    ||| b == 126
}

/// The capital hexadecimal digit for a number below 16.
pub open spec fn hex_digit(n: u8) -> char {
    if n < 10 {
        (48 + n) as char
    } else {
        (55 + n) as char
    }
}

/// Bytes as they stand in a query: letters, digits, `-`, `.`, `_` and `~` as they are, any other
/// as a percent sign and two hexadecimal digits.
pub open spec fn percent_encoded(bytes: Seq<u8>) -> Seq<char>
    decreases bytes.len(),
{
    if bytes.len() == 0 {
        seq![]
    } else {
        let b = bytes.last();
        percent_encoded(bytes.drop_last()) + if unreserved(b) {
            seq![b as char]
        } else {
            seq!['%', hex_digit(b / 16), hex_digit(b % 16)]
        }
    }
}

/// An encoded text holds nothing but letters, digits, `-`, `.`, `_`, `~` and percent signs, so no
/// character of it parts or ends a query.
pub proof fn encoded_text_is_safe(bytes: Seq<u8>, i: int)
    requires
        0 <= i < percent_encoded(bytes).len(),
    ensures
        percent_encoded(bytes)[i] == '%' || exists|b: u8|
            unreserved(b) && percent_encoded(bytes)[i] == #[trigger] (b as char),
    decreases bytes.len(),
{
    let before = percent_encoded(bytes.drop_last());
    if i < before.len() {
        encoded_text_is_safe(bytes.drop_last(), i);
    } else {
        let b = bytes.last();
        if unreserved(b) {
            assert(percent_encoded(bytes)[i] == b as char);
        } else {
            let hi = b / 16;
            let lo = b % 16;
            let digit = |n: u8|
                if n < 10 {
                    (48 + n) as u8
                } else {
                    (55 + n) as u8
                };
            assert(unreserved(digit(hi)) && hex_digit(hi) == digit(hi) as char);
            assert(unreserved(digit(lo)) && hex_digit(lo) == digit(lo) as char);
        }
    }
}

/// Encodes a text for a query with `urlencoding::encode`, which percent-encodes the UTF-8 bytes of
/// the text except for letters, digits, `-`, `_`, `.` and `~`.
#[verifier::external_body]
fn encode_query(query: &str) -> (r: String)
    ensures
        r@ == percent_encoded(encode_utf8(query@)),
{
    urlencoding::encode(query).into_owned()
}

/// The address of the geocoding service's answer on a city and state.
pub open spec fn geocode_url_of(city: Seq<char>, state: Seq<char>) -> Seq<char> {
    "https://nominatim.openstreetmap.org/search?format=json&q="@ + percent_encoded(
        encode_utf8(city + ", "@ + state),
    ) + "&limit=1"@
}

/// The address of the geocoding service's answer on a city and state.
pub fn geocode_url(city: &str, state: &str) -> (r: String)
    ensures
        r@ == geocode_url_of(city@, state@),
{
    let query = join3(city, ", ", state);
    let encoded = encode_query(query.as_str());
    join3(
        "https://nominatim.openstreetmap.org/search?format=json&q=",
        encoded.as_str(),
        "&limit=1",
    )
}

/// A place without a station.
pub open spec fn place_at<C>(city: Seq<char>, state: Seq<char>, lat: C, lon: C) -> LocationView<C> {
    LocationView { city, state, lat, lon, station_id: None }
}

/// The place with the given coordinates, without a station.
pub fn located<C>(city: &str, state: &str, lat: C, lon: C) -> (r: LocationResult<C>)
    ensures
        r@ == place_at(city@, state@, lat, lon),
{
    LocationResult { city: city.to_owned(), state: state.to_owned(), lat, lon, station_id: None }
}

/// How the search for a place's coordinates goes on.
pub enum GeocodeRequest<C> {
    /// The coordinates are known.
    Known(LocationResult<C>),
    /// The geocoding service has to be asked at an address.
    Fetch(String),
}

/// Looks a place up: where the cache knows its coordinates they are taken, else the geocoding
/// service has to be asked.
pub fn geocode_location<C>(city: &str, state: &str, cached: Option<(C, C)>) -> (r: GeocodeRequest<C>)
    ensures
        match (cached, r) {
            (Some((lat, lon)), GeocodeRequest::Known(loc)) => loc@ == place_at(
                city@,
                state@,
                lat,
                lon,
            ),
            (None, GeocodeRequest::Fetch(url)) => url@ == geocode_url_of(city@, state@),
            _ => false,
        },
{
    match cached {
        Some((lat, lon)) => GeocodeRequest::Known(located(city, state, lat, lon)),
        None => GeocodeRequest::Fetch(geocode_url(city, state)),
    }
}

/// What the answer of the geocoding service tells.
pub enum Geocoded {
    /// The coordinates of the best match, as texts.
    Coordinates(String, String),
    /// The service answered with a status that is no success.
    BadStatus(String),
    /// The answer is no JSON list.
    NotAList,
    /// The list is empty.
    NoResults,
    /// The best match has no coordinates.
    NoCoordinates,
}

/// The contents of a [`Geocoded`].
#[verifier::ext_equal]
pub enum GeocodedView {
    Coordinates(Seq<char>, Seq<char>),
    BadStatus(Seq<char>),
    NotAList,
    NoResults,
    NoCoordinates,
}

impl View for Geocoded {
    type V = GeocodedView;

    open spec fn view(&self) -> GeocodedView {
        match *self {
            Geocoded::Coordinates(lat, lon) => GeocodedView::Coordinates(lat@, lon@),
            Geocoded::BadStatus(s) => GeocodedView::BadStatus(s@),
            Geocoded::NotAList => GeocodedView::NotAList,
            Geocoded::NoResults => GeocodedView::NoResults,
            Geocoded::NoCoordinates => GeocodedView::NoCoordinates,
        }
    }
}

impl GeocodedView {
    /// Why there are no coordinates, in words. A match without coordinates has none: the
    /// application cannot go on.
    pub open spec fn words(self) -> Option<Seq<char>> {
        match self {
            GeocodedView::BadStatus(s) => Some("Nominatim error: "@ + s),
            GeocodedView::NotAList => Some("Failed to parse JSON"@),
            GeocodedView::NoResults => Some("No results found"@),
            _ => None,
        }
    }
}

impl Geocoded {
    /// Why there are no coordinates, in words.
    pub fn message(&self) -> (r: Option<String>)
        ensures
            crate::json::opt_text(r) == self@.words(),
    {
        match self {
            Geocoded::BadStatus(s) => Some(join2("Nominatim error: ", s.as_str())),
            Geocoded::NotAList => Some("Failed to parse JSON".to_owned()),
            Geocoded::NoResults => Some("No results found".to_owned()),
            _ => None,
        }
    }
}

/// What a list of matches tells, each row with the latitude and the longitude of a match.
pub open spec fn best_match(list: ListingView) -> GeocodedView {
    match list {
        ListingView::Rows(rows) => if rows.len() == 0 {
            GeocodedView::NoResults
        } else {
            match (cell_text(rows[0][0]), cell_text(rows[0][1])) {
                (Some(lat), Some(lon)) => GeocodedView::Coordinates(lat, lon),
                _ => GeocodedView::NoCoordinates,
            }
        },
        _ => GeocodedView::NotAList,
    }
}

/// The coordinates of the first match in a list whose rows hold latitudes and longitudes.
pub fn first_match(list: &Listing) -> (r: Geocoded)
    requires
        has_width(list@, 2),
    ensures
        r@ == best_match(list@),
{
    match list {
        Listing::Rows(rows) => {
            if rows.len() == 0 {
                return Geocoded::NoResults;
            }
            assert(rows_view(rows@)[0] == row_view(rows@[0]@));
            assert(rows_view(rows@)[0].len() == 2);
            if let Some(lat) = rows[0][0].as_text() {
                if let Some(lon) = rows[0][1].as_text() {
                    return Geocoded::Coordinates(lat, lon);
                }
            }
            Geocoded::NoCoordinates
        },
        _ => Geocoded::NotAList,
    }
}

/// Where a match has its coordinates.
pub open spec fn match_columns() -> Seq<Seq<char>> {
    seq!["/lat"@, "/lon"@]
}

/// What the answer of the geocoding service tells, given whether its status is a success, that
/// status in words, and the bytes of the answer.
pub fn read_geocode(success: bool, status: &str, body: &[u8]) -> (r: Geocoded)
    ensures
        r@ == if success {
            best_match(json_listing(body@, ""@, match_columns()))
        } else {
            GeocodedView::BadStatus(status@)
        },
{
    if !success {
        return Geocoded::BadStatus(status.to_owned());
    }
    let mut columns: Vec<&'static str> = Vec::new();
    columns.push("/lat");
    columns.push("/lon");
    assert(paths(columns@) =~= match_columns());
    first_match(&find_rows(body, "", &columns))
}

/// What the search for stations asks for next.
pub enum SearchRequest {
    /// The document at an address.
    Fetch(String),
    /// Nothing more: the search ends with short names of stations, the closest first, or a failure.
    Done(Result<Vec<String>, Failure>),
}

/// The contents of a [`SearchRequest`].
#[verifier::ext_equal]
pub enum SearchRequestView {
    Fetch(Seq<char>),
    Done(Result<Seq<Seq<char>>, FailureView>),
}

impl View for SearchRequest {
    type V = SearchRequestView;

    open spec fn view(&self) -> SearchRequestView {
        match *self {
            SearchRequest::Fetch(url) => SearchRequestView::Fetch(url@),
            SearchRequest::Done(r) => SearchRequestView::Done(
                match r {
                    Ok(names) => Ok(texts(names@)),
                    Err(e) => Err(e@),
                },
            ),
        }
    }
}

/// A search for the stations near a place: what it waits for.
pub struct StationSearch {
    pub awaited: Awaited,
}

/// A search for stations waits for the document on the place or for the list of stations.
pub open spec fn searching(awaited: Awaited) -> bool {
    ||| awaited == Awaited::Point
    ||| awaited == Awaited::Stations
    ||| awaited == Awaited::Nothing
}

/// What a search for stations does with an input.
pub open spec fn search_next(input: InputView) -> (Awaited, SearchRequestView) {
    match input {
        InputView::Single(cell) => match stations_url_in(cell) {
            Ok(url) => (Awaited::Stations, SearchRequestView::Fetch(url)),
            Err(e) => (Awaited::Nothing, SearchRequestView::Done(Err(e))),
        },
        InputView::List(list) => (Awaited::Nothing, SearchRequestView::Done(nearby_in(list))),
        InputView::Failed(t) => (
            Awaited::Nothing,
            SearchRequestView::Done(Err(FailureView::Given(t))),
        ),
        _ => (Awaited::Nothing, SearchRequestView::Done(Ok(seq![]))),
    }
}

/// How many replies a search for stations still takes at most.
pub open spec fn replies_left(awaited: Awaited) -> nat {
    match awaited {
        Awaited::Point => 2,
        Awaited::Stations => 1,
        _ => 0,
    }
}

/// Every reply brings a search for stations closer to its end, which it reaches after two at most,
/// and no more stations come of it than are offered.
pub proof fn station_search_ends(awaited: Awaited, input: InputView)
    requires
        searching(awaited),
        suits(awaited, input),
    ensures
        replies_left(search_next(input).0) < replies_left(awaited) <= 2,
        search_next(input).0 == Awaited::Nothing <==> search_next(input).1 is Done,
        search_next(input).1 matches SearchRequestView::Done(Ok(names)) ==> names.len() <= OFFERED,
{
    if let InputView::List(list) = input {
        few_stations_are_offered(list);
    }
}

impl StationSearch {
    /// Starts a search near the place at the coordinates written `lat` and `lon`.
    pub fn start(lat: &str, lon: &str) -> (r: (StationSearch, SearchRequest))
        ensures
            r.0.awaited == Awaited::Point,
            r.1@ == SearchRequestView::Fetch(points_url_of(lat@, lon@)),
    {
        (StationSearch { awaited: Awaited::Point }, SearchRequest::Fetch(points_url(lat, lon)))
    }

    /// Takes an input and tells what to do next.
    pub fn advance(&mut self, input: Input) -> (request: SearchRequest)
        requires
            searching(old(self).awaited),
            suits(old(self).awaited, input@),
        ensures
            (final(self).awaited, request@) == search_next(input@),
            searching(final(self).awaited),
    {
        match input {
            Input::Single(cell) => match stations_url(&cell) {
                Ok(url) => {
                    self.awaited = Awaited::Stations;
                    SearchRequest::Fetch(url)
                },
                Err(e) => {
                    self.awaited = Awaited::Nothing;
                    SearchRequest::Done(Err(e))
                },
            },
            Input::List(list) => {
                self.awaited = Awaited::Nothing;
                SearchRequest::Done(nearby_stations(&list))
            },
            Input::Failed(t) => {
                self.awaited = Awaited::Nothing;
                SearchRequest::Done(Err(Failure::Given(t)))
            },
            _ => {
                self.awaited = Awaited::Nothing;
                let none: Vec<String> = Vec::new();
                assert(texts(none@) =~= seq![]);
                SearchRequest::Done(Ok(none))
            },
        }
    }

    /// Takes the reply to the last request and tells what to do next.
    pub fn step(&mut self, reply: Reply) -> (request: SearchRequest)
        requires
            searching(old(self).awaited),
            answers(old(self).awaited, reply@),
        ensures
            (final(self).awaited, request@) == search_next(input_of(old(self).awaited, reply@)),
            searching(final(self).awaited),
    {
        let input = read_reply(self.awaited, reply);
        self.advance(input)
    }
}

/// A search for stations asks for the document on the place, then for the list of stations that it
/// names, and ends with the stations that the list offers; or with what went wrong on the way.
pub proof fn offered_stations_are_found(
    lat: &str,
    lon: &str,
    start: (StationSearch, SearchRequest),
    a: &mut StationSearch,
    b: &mut StationSearch,
    cell: Option<Cell>,
    list: Listing,
    nearby: Result<Vec<String>, Failure>,
    url: Result<String, Failure>,
    r1: SearchRequest,
    r2: SearchRequest,
)
    requires
        call_ensures(StationSearch::start, (lat, lon), start),
        *old(a) == start.0,
        call_ensures(StationSearch::advance, (a, Input::Single(cell)), r1),
        call_ensures(stations_url, (&cell,), url),
        *old(b) == *final(a),
        has_width(list@, 1),
        call_ensures(StationSearch::advance, (b, Input::List(list)), r2),
        call_ensures(nearby_stations, (&list,), nearby),
    ensures
        start.1@ == SearchRequestView::Fetch(
            "https://api.weather.gov/points/"@ + lat@ + ","@ + lon@,
        ),
        url is Ok ==> r1@ == SearchRequestView::Fetch(url->Ok_0@),
        url is Err ==> r1@ == SearchRequestView::Done(Err(url->Err_0@)),
        nearby is Ok ==> r2@ == SearchRequestView::Done(Ok(texts(nearby->Ok_0@))),
        nearby is Err ==> r2@ == SearchRequestView::Done(Err(nearby->Err_0@)),
{
}

/// Whatever fails ends a search for stations with its own words.
pub proof fn failed_search_is_told(s: &mut StationSearch, words: String, r: SearchRequest)
    requires
        call_ensures(StationSearch::advance, (s, Input::Failed(words)), r),
    ensures
        r@ == SearchRequestView::Done(Err(FailureView::Given(words@))),
        final(s).awaited == Awaited::Nothing,
{
}

/// A place that is looked up keeps its city and state and has no station; its coordinates are those
/// of the cache where it knows them, and else the geocoding service is asked for that city and state.
pub proof fn cached_coordinates_are_taken<C>(
    city: &str,
    state: &str,
    cached: Option<(C, C)>,
    r: GeocodeRequest<C>,
    url: String,
)
    requires
        call_ensures(geocode_location::<C>, (city, state, cached), r),
        call_ensures(geocode_url, (city, state), url),
    ensures
        cached is Some ==> r is Known && {
            let loc = r->Known_0;
            &&& loc.city@ == city@
            &&& loc.state@ == state@
            &&& loc.lat == (cached->0).0
            &&& loc.lon == (cached->0).1
            &&& loc.station_id is None
        },
        cached is None ==> r is Fetch && r->Fetch_0@ == url@,
        url@ == "https://nominatim.openstreetmap.org/search?format=json&q="@ + percent_encoded(
            encode_utf8(city@ + ", "@ + state@),
        ) + "&limit=1"@,
{
}

/// A place with given coordinates has those coordinates, its city and its state, and no station.
pub proof fn located_place_has_its_coordinates<C>(
    city: &str,
    state: &str,
    lat: C,
    lon: C,
    r: LocationResult<C>,
)
    requires
        call_ensures(located::<C>, (city, state, lat, lon), r),
    ensures
        r.city@ == city@,
        r.state@ == state@,
        r.lat == lat,
        r.lon == lon,
        r.station_id is None,
{
}

/// The first match counts, whatever follows it: its latitude and its longitude where both are texts.
pub proof fn first_match_counts(list: Listing, r: Geocoded)
    requires
        has_width(list@, 2),
        call_ensures(first_match, (&list,), r),
    ensures
        !(list is Rows) ==> r is NotAList,
        list is Rows && list->Rows_0@.len() == 0 ==> r is NoResults,
        list is Rows && list->Rows_0@.len() > 0 && list->Rows_0@[0]@[0] is Text
            && list->Rows_0@[0]@[1] is Text ==> r is Coordinates && r->Coordinates_0@
            == list->Rows_0@[0]@[0]->Text_0@ && r->Coordinates_1@ == list->Rows_0@[0]@[1]->Text_0@,
        list is Rows && list->Rows_0@.len() > 0 && !(list->Rows_0@[0]@[0] is Text
            && list->Rows_0@[0]@[1] is Text) ==> r is NoCoordinates,
{
    if let Listing::Rows(rows) = list {
        if rows@.len() > 0 {
            assert(rows_view(rows@)[0] == row_view(rows@[0]@));
            assert(rows_view(rows@)[0].len() == 2);
            assert(row_view(rows@[0]@)[0] == rows@[0]@[0]@);
            assert(row_view(rows@[0]@)[1] == rows@[0]@[1]@);
        }
    }
}

/// The answer of the geocoding service is read as a list of matches, each at its latitude and its
/// longitude, where the status is a success; else the status is told.
pub proof fn answer_is_read_where_it_is_a_success(
    success: bool,
    status: &str,
    body: &[u8],
    list: Listing,
    r: Geocoded,
    found: Geocoded,
    words: Option<String>,
)
    requires
        call_ensures(read_geocode, (success, status, body), r),
        list@ == json_listing(body@, ""@, seq!["/lat"@, "/lon"@]),
        call_ensures(first_match, (&list,), found),
        call_ensures(Geocoded::message, (&r,), words),
    ensures
        success ==> r@ == found@,
        !success ==> r is BadStatus && r->BadStatus_0@ == status@ && words is Some && words->0@
            == "Nominatim error: "@ + status@,
        r is NotAList ==> words is Some && words->0@ == "Failed to parse JSON"@,
        r is NoResults ==> words is Some && words->0@ == "No results found"@,
        r is Coordinates || r is NoCoordinates ==> words is None,
{
}

/// A search for stations does with a reply what it does with the input that is read in it.
pub proof fn station_search_takes_replies_as_they_are_read(
    a: &mut StationSearch,
    b: &mut StationSearch,
    reply: Reply,
    input: Input,
    r: SearchRequest,
    s: SearchRequest,
)
    requires
        *old(a) == *old(b),
        call_ensures(StationSearch::step, (a, reply), r),
        call_ensures(read_reply, (old(b).awaited, reply), input),
        call_ensures(StationSearch::advance, (b, input), s),
    ensures
        r@ == s@,
        final(a).awaited == final(b).awaited,
{
}

} // verus!
