//! The collection of the last observations at a place, as a task that tells what to do next.
use vstd::prelude::*;

use crate::failure::{Failure, FailureView};
use crate::json::{has_width, row_view, rows_view, Cell, Listing, ListingView};
use crate::service::{
    closest_in, closest_station, latest_url, latest_url_of, observations, observations_in,
    observations_view, points_url, points_url_of, short_name, short_name_of, stations_url,
    stations_url_in, Observation, ObservationView,
};
use crate::task::{answers, input_of, read_reply, suits, Awaited, Input, InputView, Reply};

verus! {

/// What a task asks for next.
pub enum Request {
    /// The document at an address.
    Fetch(String),
    /// The database to be opened.
    Open,
    /// Observations of a station to be stored, those that are stored already left as they are.
    Store(String, Vec<Observation>),
    /// Nothing more: the task ends with a number of observations or a failure.
    Done(Result<usize, Failure>),
}

/// The contents of a [`Request`].
#[verifier::ext_equal]
pub enum RequestView {
    Fetch(Seq<char>),
    Open,
    Store(Seq<char>, Seq<ObservationView>),
    Done(Result<nat, FailureView>),
}

impl View for Request {
    type V = RequestView;

    open spec fn view(&self) -> RequestView {
        match *self {
            Request::Fetch(url) => RequestView::Fetch(url@),
            Request::Open => RequestView::Open,
            Request::Store(station, obs) => RequestView::Store(station@, observations_view(obs@)),
            Request::Done(r) => RequestView::Done(
                match r {
                    Ok(n) => Ok(n as nat),
                    Err(e) => Err(e@),
                },
            ),
        }
    }
}

/// A collection in progress: what it waits for, the short name of its station once it is known,
/// and how many observations it stores.
pub struct Collection {
    pub awaited: Awaited,
    pub station: String,
    pub count: usize,
}

/// The contents of a [`Collection`].
#[verifier::ext_equal]
pub struct CollectionView {
    pub awaited: Awaited,
    pub station: Seq<char>,
    pub count: nat,
}

impl View for Collection {
    type V = CollectionView;

    open spec fn view(&self) -> CollectionView {
        CollectionView { awaited: self.awaited, station: self.station@, count: self.count as nat }
    }
}

/// How a collection starts: with the observations of the chosen station, or where none is chosen,
/// with the document on the place.
pub open spec fn collection_start(
    station_id: Option<Seq<char>>,
    lat: Seq<char>,
    lon: Seq<char>,
) -> (CollectionView, RequestView) {
    match station_id {
        Some(s) => (
            CollectionView { awaited: Awaited::Observations, station: s, count: 0 },
            RequestView::Fetch(latest_url_of(s)),
        ),
        None => (
            CollectionView { awaited: Awaited::Point, station: seq![], count: 0 },
            RequestView::Fetch(points_url_of(lat, lon)),
        ),
    }
}

impl CollectionView {
    /// The collection ends with `r`.
    pub open spec fn ending(self, r: Result<nat, FailureView>) -> (CollectionView, RequestView) {
        (CollectionView { awaited: Awaited::Nothing, ..self }, RequestView::Done(r))
    }

    /// The collection goes on with the observations of the station with the address `id`.
    pub open spec fn at_station(self, id: Seq<char>) -> (CollectionView, RequestView) {
        (
            CollectionView {
                awaited: Awaited::Observations,
                station: short_name_of(id),
                ..self
            },
            RequestView::Fetch(latest_url_of(short_name_of(id))),
        )
    }

    /// The collection goes on by storing `obs`.
    pub open spec fn storing(self, obs: Seq<ObservationView>) -> (CollectionView, RequestView) {
        (
            CollectionView { awaited: Awaited::Storing, count: obs.len(), ..self },
            RequestView::Store(self.station, obs),
        )
    }

    /// What a collection does with an input.
    pub open spec fn next(self, input: InputView) -> (CollectionView, RequestView) {
        match input {
            InputView::Failed(t) => self.ending(Err(FailureView::Given(t))),
            InputView::Single(cell) => match stations_url_in(cell) {
                Ok(url) => (
                    CollectionView { awaited: Awaited::Stations, ..self },
                    RequestView::Fetch(url),
                ),
                Err(e) => self.ending(Err(e)),
            },
            InputView::List(list) => if self.awaited == Awaited::Stations {
                match closest_in(list) {
                    Ok(id) => self.at_station(id),
                    Err(e) => self.ending(Err(e)),
                }
            } else {
                match list {
                    ListingView::Undecodable => self.ending(Err(FailureView::UndecodableBody)),
                    ListingView::NoArray => self.ending(Err(FailureView::NoObservations)),
                    ListingView::Rows(rows) => self.storing(observations_in(rows)),
                }
            },
            InputView::Stored(n) => self.ending(Ok(self.count)),
            InputView::Opened(now) => self.ending(Ok(self.count)),
        }
    }

    /// The states that a collection can be in: it never waits for the database alone or for the
    /// oldest observation.
    pub open spec fn valid(self) -> bool {
        self.awaited != Awaited::Opening && self.awaited != Awaited::Oldest
    }
}

/// How many replies a collection still takes at most.
pub open spec fn replies_left(awaited: Awaited) -> nat {
    match awaited {
        Awaited::Point => 4,
        Awaited::Stations => 3,
        Awaited::Observations => 2,
        Awaited::Storing => 1,
        _ => 0,
    }
}

/// Every reply brings a collection closer to its end, which it reaches after four at most.
pub proof fn collection_ends(c: CollectionView, input: InputView)
    requires
        c.valid(),
        suits(c.awaited, input),
    ensures
        replies_left(c.next(input).0.awaited) < replies_left(c.awaited) <= 4,
        replies_left(c.next(input).0.awaited) == 0 <==> c.next(input).1 is Done,
{
}

/// A collection from a chosen station asks for that station's observations at once, stores them
/// under that station and reports how many they are.
pub proof fn chosen_station_is_used(
    station: Seq<char>,
    lat: Seq<char>,
    lon: Seq<char>,
    rows: Seq<Seq<crate::json::CellView>>,
    new: usize,
)
    ensures
        ({
            let (c, request) = collection_start(Some(station), lat, lon);
            let (c1, request1) = c.next(InputView::List(ListingView::Rows(rows)));
            let (c2, request2) = c1.next(InputView::Stored(new));
            &&& request == RequestView::Fetch(latest_url_of(station))
            &&& request1 == RequestView::Store(station, observations_in(rows))
            &&& request2 == RequestView::Done(Ok(observations_in(rows).len()))
        }),
{
}

impl Collection {
    /// Starts a collection at the place at the coordinates written `lat` and `lon`, from the chosen
    /// station or else from the closest one.
    pub fn start(station_id: Option<&str>, lat: &str, lon: &str) -> (r: (Collection, Request))
        ensures
            (r.0@, r.1@) == collection_start(
                match station_id {
                    Some(s) => Some(s@),
                    None => None,
                },
                lat@,
                lon@,
            ),
            r.0@.valid(),
    {
        match station_id {
            Some(s) => (
                Collection { awaited: Awaited::Observations, station: s.to_owned(), count: 0 },
                Request::Fetch(latest_url(s)),
            ),
            None => {
                let station = String::new();
                assert(station@ =~= seq![]);
                (
                    Collection { awaited: Awaited::Point, station, count: 0 },
                    Request::Fetch(points_url(lat, lon)),
                )
            },
        }
    }

    fn finish(&mut self, r: Result<usize, Failure>) -> (request: Request)
        ensures
            (final(self)@, request@) == old(self)@.ending(
                match r {
                    Ok(n) => Ok(n as nat),
                    Err(e) => Err(e@),
                },
            ),
    {
        self.awaited = Awaited::Nothing;
        Request::Done(r)
    }

    /// Takes an input and tells what to do next.
    pub fn advance(&mut self, input: Input) -> (request: Request)
        requires
            old(self)@.valid(),
            suits(old(self)@.awaited, input@),
        ensures
            (final(self)@, request@) == old(self)@.next(input@),
            final(self)@.valid(),
    {
        match input {
            Input::Failed(t) => self.finish(Err(Failure::Given(t))),
            Input::Single(cell) => match stations_url(&cell) {
                Ok(url) => {
                    self.awaited = Awaited::Stations;
                    Request::Fetch(url)
                },
                Err(e) => self.finish(Err(e)),
            },
            Input::List(list) => {
                if self.awaited == Awaited::Stations {
                    match closest_station(&list) {
                        Ok(id) => {
                            self.awaited = Awaited::Observations;
                            self.station = short_name(id.as_str());
                            Request::Fetch(latest_url(self.station.as_str()))
                        },
                        Err(e) => self.finish(Err(e)),
                    }
                } else {
                    match list {
                        Listing::Undecodable => self.finish(Err(Failure::UndecodableBody)),
                        Listing::NoArray => self.finish(Err(Failure::NoObservations)),
                        Listing::Rows(rows) => {
                            let obs = observations(&rows);
                            self.awaited = Awaited::Storing;
                            self.count = obs.len();
                            assert(observations_view(obs@).len() == obs@.len());
                            Request::Store(self.station.clone(), obs)
                        },
                    }
                }
            },
            Input::Stored(_) => {
                let count = self.count;
                self.finish(Ok(count))
            },
            Input::Opened(_) => {
                let count = self.count;
                self.finish(Ok(count))
            },
        }
    }

    /// Takes the reply to the last request and tells what to do next.
    pub fn step(&mut self, reply: Reply) -> (request: Request)
        requires
            old(self)@.valid(),
            answers(old(self)@.awaited, reply@),
        ensures
            (final(self)@, request@) == old(self)@.next(input_of(old(self)@.awaited, reply@)),
            final(self)@.valid(),
    {
        let input = read_reply(self.awaited, reply);
        self.advance(input)
    }
}

/// A collection without a chosen station goes through the document on the place and the list of
/// stations to the closest station, asks for the observations of that station by its short name,
/// stores what it gets under the same short name and reports how many observations that is.
pub proof fn closest_station_is_collected_from(
    lat: &str,
    lon: &str,
    start: (Collection, Request),
    a: &mut Collection,
    b: &mut Collection,
    c: &mut Collection,
    d: &mut Collection,
    url: String,
    stations: Vec<Vec<Cell>>,
    id: &str,
    name: String,
    rows: Vec<Vec<Cell>>,
    obs: Vec<Observation>,
    new: usize,
    r1: Request,
    r2: Request,
    r3: Request,
    r4: Request,
)
    requires
        call_ensures(Collection::start, (None::<&str>, lat, lon), start),
        old(a)@ == start.0@,
        call_ensures(Collection::advance, (a, Input::Single(Some(Cell::Text(url)))), r1),
        old(b)@ == final(a)@,
        has_width(Listing::Rows(stations)@, 1),
        stations@.len() > 0,
        stations@[0]@[0] is Text,
        stations@[0]@[0]->Text_0@ == id@,
        call_ensures(Collection::advance, (b, Input::List(Listing::Rows(stations))), r2),
        call_ensures(short_name, (id,), name),
        old(c)@ == final(b)@,
        call_ensures(Collection::advance, (c, Input::List(Listing::Rows(rows))), r3),
        call_ensures(observations, (&rows,), obs),
        old(d)@ == final(c)@,
        call_ensures(Collection::advance, (d, Input::Stored(new)), r4),
    ensures
        start.1@ == RequestView::Fetch("https://api.weather.gov/points/"@ + lat@ + ","@ + lon@),
        r1@ == RequestView::Fetch(url@),
        r2@ == RequestView::Fetch(
            "https://api.weather.gov/stations/"@ + name@ + "/observations?limit=500"@,
        ),
        r3@ == RequestView::Store(name@, observations_view(obs@)),
        r4@ == RequestView::Done(Ok(obs@.len())),
{
    assert(rows_view(stations@)[0] == row_view(stations@[0]@));
    assert(rows_view(stations@)[0].len() == 1);
    assert(row_view(stations@[0]@)[0] == stations@[0]@[0]@);
    assert(observations_view(obs@).len() == obs@.len());
}

/// A collection from a chosen station asks for that station's observations at once, by its name,
/// stores what it gets under that name and reports how many observations that is: as a collection
/// from the closest station does once it knows it.
pub proof fn chosen_station_is_collected_from(
    station: &str,
    lat: &str,
    lon: &str,
    start: (Collection, Request),
    a: &mut Collection,
    b: &mut Collection,
    rows: Vec<Vec<Cell>>,
    obs: Vec<Observation>,
    new: usize,
    r1: Request,
    r2: Request,
)
    requires
        call_ensures(Collection::start, (Some(station), lat, lon), start),
        old(a)@ == start.0@,
        call_ensures(Collection::advance, (a, Input::List(Listing::Rows(rows))), r1),
        call_ensures(observations, (&rows,), obs),
        old(b)@ == final(a)@,
        call_ensures(Collection::advance, (b, Input::Stored(new)), r2),
    ensures
        start.1@ == RequestView::Fetch(
            "https://api.weather.gov/stations/"@ + station@ + "/observations?limit=500"@,
        ),
        r1@ == RequestView::Store(station@, observations_view(obs@)),
        r2@ == RequestView::Done(Ok(obs@.len())),
{
    assert(observations_view(obs@).len() == obs@.len());
}

/// A collection ends with what went wrong: the words of whatever failed, whenever that is, or that a
/// document or the list in it is missing, in the words for what was awaited.
pub proof fn collection_tells_what_went_wrong(c: &mut Collection, input: Input, r: Request)
    requires
        old(c)@.valid(),
        suits(old(c)@.awaited, input@),
        call_ensures(Collection::advance, (c, input), r),
    ensures
        input is Failed ==> r@ == RequestView::Done(Err(FailureView::Given(input->Failed_0@))),
        input is Single && input->Single_0 is None ==> r@ == RequestView::Done(
            Err(FailureView::UndecodableBody),
        ),
        input is Single && input->Single_0 is Some && !(input->Single_0->0 is Text) ==> r@
            == RequestView::Done(Err(FailureView::NoStationsUrl)),
        input is List && input->List_0 is Undecodable ==> r@ == RequestView::Done(
            Err(FailureView::UndecodableBody),
        ),
        input is List && input->List_0 is NoArray ==> r@ == RequestView::Done(
            Err(
                if old(c)@.awaited == Awaited::Stations {
                    FailureView::NoStations
                } else {
                    FailureView::NoObservations
                },
            ),
        ),
        input is List && old(c)@.awaited == Awaited::Stations && input->List_0 is Rows
            && input->List_0->Rows_0@.len() == 0 ==> r@ == RequestView::Done(
            Err(FailureView::NoStationNearby),
        ),
        input is List && old(c)@.awaited == Awaited::Stations && input->List_0 is Rows
            && input->List_0->Rows_0@.len() > 0 && !(input->List_0->Rows_0@[0]@[0] is Text) ==> r@
            == RequestView::Done(Err(FailureView::InvalidStation)),
{
    if let Input::List(list) = input {
        if let Listing::Rows(rows) = list {
            if old(c)@.awaited == Awaited::Stations && rows@.len() > 0 {
                assert(rows_view(rows@)[0] == row_view(rows@[0]@));
                assert(rows_view(rows@)[0].len() == 1);
                assert(row_view(rows@[0]@)[0] == rows@[0]@[0]@);
            }
        }
    }
}

/// A collection does with a reply what it does with the input that is read in it.
pub proof fn collection_takes_replies_as_they_are_read(
    a: &mut Collection,
    b: &mut Collection,
    reply: Reply,
    input: Input,
    r: Request,
    s: Request,
)
    requires
        old(a)@ == old(b)@,
        call_ensures(Collection::step, (a, reply), r),
        call_ensures(read_reply, (old(b).awaited, reply), input),
        call_ensures(Collection::advance, (b, input), s),
    ensures
        r@ == s@,
        final(a)@ == final(b)@,
{
}

} // verus!
