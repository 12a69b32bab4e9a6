//! The check for the oldest observation that the weather service has of a place's station, as a
//! task that tells what to do next.
use vstd::prelude::*;

use crate::failure::{Failure, FailureView};
use crate::json::{cell_text, has_width, row_view, rows_view, Cell, Listing, ListingView};
use crate::service::{
    closest_in, closest_station, oldest_url, oldest_url_of, points_url, points_url_of, short_name,
    short_name_of, stations_url, stations_url_in, text_result,
};
use crate::task::{answers, input_of, read_reply, suits, Awaited, Input, InputView, Reply};
use crate::text::{join2, join6};

verus! {

/// What the check asks for next.
pub enum HistoryRequest {
    /// The document at an address.
    Fetch(String),
    /// Nothing more: the check ends with its finding or a failure.
    Done(Result<String, Failure>),
}

/// The contents of a [`HistoryRequest`].
#[verifier::ext_equal]
pub enum HistoryRequestView {
    Fetch(Seq<char>),
    Done(Result<Seq<char>, FailureView>),
}

impl View for HistoryRequest {
    type V = HistoryRequestView;

    open spec fn view(&self) -> HistoryRequestView {
        match *self {
            HistoryRequest::Fetch(url) => HistoryRequestView::Fetch(url@),
            HistoryRequest::Done(r) => HistoryRequestView::Done(text_result(r)),
        }
    }
}

/// A check in progress: what it waits for, the city, and the short name of the station once it is
/// known.
pub struct HistoryCheck {
    pub awaited: Awaited,
    pub city: String,
    pub station: String,
}

/// The contents of a [`HistoryCheck`].
#[verifier::ext_equal]
pub struct HistoryCheckView {
    pub awaited: Awaited,
    pub city: Seq<char>,
    pub station: Seq<char>,
}

impl View for HistoryCheck {
    type V = HistoryCheckView;

    open spec fn view(&self) -> HistoryCheckView {
        HistoryCheckView { awaited: self.awaited, city: self.city@, station: self.station@ }
    }
}

/// The time of the oldest observation, from the list with it.
pub open spec fn oldest_in(rows: Seq<Seq<crate::json::CellView>>) -> Option<Seq<char>> {
    if rows.len() == 0 {
        None
    } else {
        cell_text(rows[0][0])
    }
}

/// The finding of a check.
pub open spec fn finding_of(
    city: Seq<char>,
    station: Seq<char>,
    oldest: Option<Seq<char>>,
) -> Seq<char> {
    match oldest {
        Some(time) => "Oldest data for "@ + city + " ("@ + station + "): "@ + time,
        None => "No historical data found for station "@ + station,
    }
}

/// The finding of a check, where `oldest` is the time of the oldest observation.
pub fn finding(city: &str, station: &str, oldest: &Option<String>) -> (r: String)
    ensures
        r@ == finding_of(city@, station@, crate::json::opt_text(*oldest)),
{
    match oldest {
        Some(time) => join6("Oldest data for ", city, " (", station, "): ", time.as_str()),
        None => join2("No historical data found for station ", station),
    }
}

/// How a check starts: with the document on the place.
pub open spec fn history_start(city: Seq<char>, lat: Seq<char>, lon: Seq<char>) -> (
    HistoryCheckView,
    HistoryRequestView,
) {
    (
        HistoryCheckView { awaited: Awaited::Point, city, station: seq![] },
        HistoryRequestView::Fetch(points_url_of(lat, lon)),
    )
}

impl HistoryCheckView {
    /// The check ends with `r`.
    pub open spec fn ending(self, r: Result<Seq<char>, FailureView>) -> (
        HistoryCheckView,
        HistoryRequestView,
    ) {
        (HistoryCheckView { awaited: Awaited::Nothing, ..self }, HistoryRequestView::Done(r))
    }

    /// What a check does with an input.
    pub open spec fn next(self, input: InputView) -> (HistoryCheckView, HistoryRequestView) {
        match input {
            InputView::Failed(t) => self.ending(Err(FailureView::Given(t))),
            InputView::Single(cell) => match stations_url_in(cell) {
                Ok(url) => (
                    HistoryCheckView { awaited: Awaited::Stations, ..self },
                    HistoryRequestView::Fetch(url),
                ),
                Err(e) => self.ending(Err(e)),
            },
            InputView::List(list) => if self.awaited == Awaited::Stations {
                match closest_in(list) {
                    Ok(id) => (
                        HistoryCheckView {
                            awaited: Awaited::Oldest,
                            station: short_name_of(id),
                            ..self
                        },
                        HistoryRequestView::Fetch(oldest_url_of(id)),
                    ),
                    Err(e) => self.ending(Err(e)),
                }
            } else {
                match list {
                    ListingView::Undecodable => self.ending(Err(FailureView::UndecodableBody)),
                    ListingView::NoArray => self.ending(
                        Ok(finding_of(self.city, self.station, None)),
                    ),
                    ListingView::Rows(rows) => self.ending(
                        Ok(finding_of(self.city, self.station, oldest_in(rows))),
                    ),
                }
            },
            _ => self.ending(Ok(finding_of(self.city, self.station, None))),
        }
    }

    /// The states that a check can be in: it waits for documents only.
    pub open spec fn valid(self) -> bool {
        ||| self.awaited == Awaited::Point
        ||| self.awaited == Awaited::Stations
        ||| self.awaited == Awaited::Oldest
        ||| self.awaited == Awaited::Nothing
    }
}

impl HistoryCheck {
    /// Starts a check for the place at the coordinates written `lat` and `lon`.
    pub fn start(city: &str, lat: &str, lon: &str) -> (r: (HistoryCheck, HistoryRequest))
        ensures
            (r.0@, r.1@) == history_start(city@, lat@, lon@),
            r.0@.valid(),
    {
        let station = String::new();
        assert(station@ =~= seq![]);
        (
            HistoryCheck { awaited: Awaited::Point, city: city.to_owned(), station },
            HistoryRequest::Fetch(points_url(lat, lon)),
        )
    }

    fn finish(&mut self, r: Result<String, Failure>) -> (request: HistoryRequest)
        ensures
            (final(self)@, request@) == old(self)@.ending(text_result(r)),
    {
        self.awaited = Awaited::Nothing;
        HistoryRequest::Done(r)
    }

    /// Takes an input and tells what to do next.
    pub fn advance(&mut self, input: Input) -> (request: HistoryRequest)
        requires
            old(self)@.valid(),
            suits(old(self)@.awaited, input@),
        ensures
            (final(self)@, request@) == old(self)@.next(input@),
            final(self)@.valid(),
    {
        match input {
            Input::Failed(t) => self.finish(Err(Failure::Given(t))),
            Input::Single(cell) => match stations_url(&cell) {
                Ok(url) => {
                    self.awaited = Awaited::Stations;
                    HistoryRequest::Fetch(url)
                },
                Err(e) => self.finish(Err(e)),
            },
            Input::List(list) => {
                if self.awaited == Awaited::Stations {
                    match closest_station(&list) {
                        Ok(id) => {
                            self.awaited = Awaited::Oldest;
                            self.station = short_name(id.as_str());
                            HistoryRequest::Fetch(oldest_url(id.as_str()))
                        },
                        Err(e) => self.finish(Err(e)),
                    }
                } else {
                    let mut oldest: Option<String> = None;
                    match &list {
                        Listing::Undecodable => {
                            return self.finish(Err(Failure::UndecodableBody));
                        },
                        Listing::NoArray => {},
                        Listing::Rows(rows) => {
                            if rows.len() > 0 {
                                assert(rows_view(rows@)[0] == row_view(rows@[0]@));
                                assert(rows_view(rows@)[0].len() == 1);
                                oldest = rows[0][0].as_text();
                            }
                        },
                    }
                    let told = finding(self.city.as_str(), self.station.as_str(), &oldest);
                    self.finish(Ok(told))
                }
            },
            _ => {
                let told = finding(self.city.as_str(), self.station.as_str(), &None);
                self.finish(Ok(told))
            },
        }
    }

    /// Takes the reply to the last request and tells what to do next.
    pub fn step(&mut self, reply: Reply) -> (request: HistoryRequest)
        requires
            old(self)@.valid(),
            answers(old(self)@.awaited, reply@),
        ensures
            (final(self)@, request@) == old(self)@.next(input_of(old(self)@.awaited, reply@)),
            final(self)@.valid(),
    {
        let input = read_reply(self.awaited, reply);
        self.advance(input)
    }
}

/// How many replies a check still takes at most.
pub open spec fn replies_left(awaited: Awaited) -> nat {
    match awaited {
        Awaited::Point => 3,
        Awaited::Stations => 2,
        Awaited::Oldest => 1,
        _ => 0,
    }
}

/// Every reply brings a check closer to its end, which it reaches after three at most.
pub proof fn history_check_ends(c: HistoryCheckView, input: InputView)
    requires
        c.valid(),
        suits(c.awaited, input),
    ensures
        replies_left(c.next(input).0.awaited) < replies_left(c.awaited) <= 3,
        replies_left(c.next(input).0.awaited) == 0 <==> c.next(input).1 is Done,
{
}

/// A check goes through the document on the place and the list of stations to the closest station,
/// asks for its oldest observation, and tells the city, the station's short name and the time of that
/// observation; or only the short name where there is none.
pub proof fn oldest_observation_is_told(
    city: &str,
    lat: &str,
    lon: &str,
    start: (HistoryCheck, HistoryRequest),
    a: &mut HistoryCheck,
    b: &mut HistoryCheck,
    c: &mut HistoryCheck,
    url: String,
    stations: Vec<Vec<Cell>>,
    id: &str,
    name: String,
    list: Listing,
    r1: HistoryRequest,
    r2: HistoryRequest,
    r3: HistoryRequest,
)
    requires
        call_ensures(HistoryCheck::start, (city, lat, lon), start),
        old(a)@ == start.0@,
        call_ensures(HistoryCheck::advance, (a, Input::Single(Some(Cell::Text(url)))), r1),
        old(b)@ == final(a)@,
        has_width(Listing::Rows(stations)@, 1),
        stations@.len() > 0,
        stations@[0]@[0] is Text,
        stations@[0]@[0]->Text_0@ == id@,
        call_ensures(HistoryCheck::advance, (b, Input::List(Listing::Rows(stations))), r2),
        call_ensures(short_name, (id,), name),
        old(c)@ == final(b)@,
        has_width(list@, 1),
        call_ensures(HistoryCheck::advance, (c, Input::List(list)), r3),
    ensures
        start.1@ == HistoryRequestView::Fetch(
            "https://api.weather.gov/points/"@ + lat@ + ","@ + lon@,
        ),
        r1@ == HistoryRequestView::Fetch(url@),
        r2@ == HistoryRequestView::Fetch(
            id@ + "/observations?start=2020-01-01T00:00:00Z&limit=1"@,
        ),
        list is Undecodable ==> r3@ == HistoryRequestView::Done(Err(FailureView::UndecodableBody)),
        list is Rows && list->Rows_0@.len() > 0 && list->Rows_0@[0]@[0] is Text ==> r3@
            == HistoryRequestView::Done(
            Ok(
                "Oldest data for "@ + city@ + " ("@ + name@ + "): "@
                    + list->Rows_0@[0]@[0]->Text_0@,
            ),
        ),
        list is NoArray || list is Rows && (list->Rows_0@.len() == 0 || !(list->Rows_0@[0]@[0]
            is Text)) ==> r3@ == HistoryRequestView::Done(
            Ok("No historical data found for station "@ + name@),
        ),
{
    assert(rows_view(stations@)[0] == row_view(stations@[0]@));
    assert(rows_view(stations@)[0].len() == 1);
    assert(row_view(stations@[0]@)[0] == stations@[0]@[0]@);
    if let Listing::Rows(rows) = list {
        if rows@.len() > 0 {
            assert(rows_view(rows@)[0] == row_view(rows@[0]@));
            assert(rows_view(rows@)[0].len() == 1);
            assert(row_view(rows@[0]@)[0] == rows@[0]@[0]@);
        }
    }
}

/// A check ends with what went wrong: the words of whatever failed, whenever that is, or that a
/// document, the list of stations or a station in it is missing.
pub proof fn history_check_tells_what_went_wrong(
    c: &mut HistoryCheck,
    input: Input,
    r: HistoryRequest,
)
    requires
        old(c)@.valid(),
        suits(old(c)@.awaited, input@),
        call_ensures(HistoryCheck::advance, (c, input), r),
    ensures
        input is Failed ==> r@ == HistoryRequestView::Done(
            Err(FailureView::Given(input->Failed_0@)),
        ),
        input is Single && input->Single_0 is None ==> r@ == HistoryRequestView::Done(
            Err(FailureView::UndecodableBody),
        ),
        input is Single && input->Single_0 is Some && !(input->Single_0->0 is Text) ==> r@
            == HistoryRequestView::Done(Err(FailureView::NoStationsUrl)),
        input is List && input->List_0 is Undecodable ==> r@ == HistoryRequestView::Done(
            Err(FailureView::UndecodableBody),
        ),
        input is List && old(c)@.awaited == Awaited::Stations && input->List_0 is NoArray ==> r@
            == HistoryRequestView::Done(Err(FailureView::NoStations)),
        input is List && old(c)@.awaited == Awaited::Stations && input->List_0 is Rows
            && input->List_0->Rows_0@.len() == 0 ==> r@ == HistoryRequestView::Done(
            Err(FailureView::NoStationNearby),
        ),
        input is List && old(c)@.awaited == Awaited::Stations && input->List_0 is Rows
            && input->List_0->Rows_0@.len() > 0 && !(input->List_0->Rows_0@[0]@[0] is Text) ==> r@
            == HistoryRequestView::Done(Err(FailureView::InvalidStation)),
{
    if let Input::List(list) = input {
        if let Listing::Rows(rows) = list {
            if rows@.len() > 0 {
                assert(rows_view(rows@)[0] == row_view(rows@[0]@));
                assert(rows_view(rows@)[0].len() == 1);
                assert(row_view(rows@[0]@)[0] == rows@[0]@[0]@);
            }
        }
    }
}

/// A check does with a reply what it does with the input that is read in it.
pub proof fn history_check_takes_replies_as_they_are_read(
    a: &mut HistoryCheck,
    b: &mut HistoryCheck,
    reply: Reply,
    input: Input,
    r: HistoryRequest,
    s: HistoryRequest,
)
    requires
        old(a)@ == old(b)@,
        call_ensures(HistoryCheck::step, (a, reply), r),
        call_ensures(read_reply, (old(b).awaited, reply), input),
        call_ensures(HistoryCheck::advance, (b, input), s),
    ensures
        r@ == s@,
        final(a)@ == final(b)@,
{
}

} // verus!
