//! The catch-up on the last thirty days at a place: a task that asks for one week of observations
//! after the other, going back in time, as long as a week brings something new.
use vstd::prelude::*;

use crate::clock::{format_utc, utc_text, DAY, MAX_TIME, MIN_TIME, REQUEST_PATTERN};
use crate::collect::{Request, RequestView};
use crate::failure::{Failure, FailureView};
use crate::json::{has_width, row_view, rows_view, Cell, Listing, ListingView};
use crate::service::{
    closest_in, closest_station, observations, observations_in, observations_view, points_url,
    points_url_of, short_name, short_name_of, stations_url, stations_url_in, window_url,
    window_url_of, Observation,
};
use crate::task::{answers, input_of, read_reply, suits, Awaited, Input, InputView, Reply};

verus! {

/// How many windows a catch-up asks for at most: those that it takes to cover thirty days.
pub const WINDOWS: u8 = 5;

/// The seconds of a window.
pub const WINDOW: i64 = 604_800;

/// A catch-up in progress: what it waits for, the address of its station once it is known, the end
/// of the window that is next once the database is open, how many windows it may still ask for and
/// how many observations were new so far.
pub struct CatchUp {
    pub awaited: Awaited,
    pub station_id: String,
    pub end: i64,
    pub windows_left: u8,
    pub total: usize,
}

/// The contents of a [`CatchUp`].
#[verifier::ext_equal]
pub struct CatchUpView {
    pub awaited: Awaited,
    pub station_id: Seq<char>,
    pub end: int,
    pub windows_left: int,
    pub total: nat,
}

impl View for CatchUp {
    type V = CatchUpView;

    open spec fn view(&self) -> CatchUpView {
        CatchUpView {
            awaited: self.awaited,
            station_id: self.station_id@,
            end: self.end as int,
            windows_left: self.windows_left as int,
            total: self.total as nat,
        }
    }
}

/// A time that a catch-up can go back from: all its windows lie in the range of `chrono`.
pub open spec fn startable(now: int) -> bool {
    MIN_TIME + WINDOWS * WINDOW <= now <= MAX_TIME
}

/// The address of the window that ends at `end`.
pub open spec fn window_before(station_id: Seq<char>, end: int) -> Seq<char> {
    window_url_of(
        station_id,
        utc_text((end - WINDOW) as i64, REQUEST_PATTERN@),
        utc_text(end as i64, REQUEST_PATTERN@),
    )
}

/// How a catch-up starts: with the document on the place.
pub open spec fn catch_up_start(lat: Seq<char>, lon: Seq<char>) -> (CatchUpView, RequestView) {
    (
        CatchUpView {
            awaited: Awaited::Point,
            station_id: seq![],
            end: 0,
            windows_left: WINDOWS as int,
            total: 0,
        },
        RequestView::Fetch(points_url_of(lat, lon)),
    )
}

/// The catch-up has not come to its windows yet.
pub open spec fn preparing(awaited: Awaited) -> bool {
    awaited == Awaited::Point || awaited == Awaited::Stations || awaited == Awaited::Opening
}

/// The input tells no other time for the end of the first window than `now`.
pub open spec fn tells(input: InputView, now: int) -> bool {
    input matches InputView::Opened(t) ==> t == now
}

impl CatchUpView {
    /// The catch-up ends with `r`.
    pub open spec fn ending(self, r: Result<nat, FailureView>) -> (CatchUpView, RequestView) {
        (CatchUpView { awaited: Awaited::Nothing, ..self }, RequestView::Done(r))
    }

    /// The catch-up goes on with the window that is next.
    pub open spec fn asking(self) -> (CatchUpView, RequestView) {
        (
            CatchUpView { awaited: Awaited::Observations, ..self },
            RequestView::Fetch(window_before(self.station_id, self.end)),
        )
    }

    /// The catch-up once a window with `new` new observations is stored.
    pub open spec fn stored(self, new: nat) -> CatchUpView {
        CatchUpView {
            total: self.total + new,
            end: self.end - WINDOW,
            windows_left: self.windows_left - 1,
            ..self
        }
    }

    /// What a catch-up does with an input. The first window ends when the database is open. A failure ends it; but once it asks for windows, a
    /// window that cannot be had ends it with what was stored so far.
    pub open spec fn next(self, input: InputView) -> (CatchUpView, RequestView) {
        match input {
            InputView::Failed(t) => if self.awaited == Awaited::Observations {
                self.ending(Ok(self.total))
            } else {
                self.ending(Err(FailureView::Given(t)))
            },
            InputView::Single(cell) => match stations_url_in(cell) {
                Ok(url) => (
                    CatchUpView { awaited: Awaited::Stations, ..self },
                    RequestView::Fetch(url),
                ),
                Err(e) => self.ending(Err(e)),
            },
            InputView::List(list) => if self.awaited == Awaited::Stations {
                match closest_in(list) {
                    Ok(id) => (
                        CatchUpView { awaited: Awaited::Opening, station_id: id, ..self },
                        RequestView::Open,
                    ),
                    Err(e) => self.ending(Err(e)),
                }
            } else {
                match list {
                    ListingView::Rows(rows) => (
                        CatchUpView { awaited: Awaited::Storing, ..self },
                        RequestView::Store(
                            short_name_of(self.station_id),
                            observations_in(rows),
                        ),
                    ),
                    _ => self.ending(Ok(self.total)),
                }
            },
            InputView::Opened(now) => (CatchUpView { end: now as int, ..self }).asking(),
            InputView::Stored(n) => if n == 0 || self.windows_left <= 1 {
                self.stored(n as nat).ending(Ok(self.total + n as nat))
            } else {
                self.stored(n as nat).asking()
            },
        }
    }

    /// The states that a catch-up whose first window ends at `now` can be in: its windows follow one
    /// another without a gap, and there are no more of them than allowed. Before the database is open
    /// there is no window yet.
    pub open spec fn valid(self, now: int) -> bool {
        &&& self.awaited != Awaited::Oldest
        &&& 0 <= self.windows_left <= WINDOWS
        &&& self.awaited != Awaited::Nothing ==> self.windows_left >= 1
        &&& preparing(self.awaited) ==> self.windows_left == WINDOWS
        &&& self.awaited == Awaited::Observations || self.awaited == Awaited::Storing ==> self.end
            == now - (WINDOWS - self.windows_left) * WINDOW
    }

    /// The states that some catch-up can be in.
    pub open spec fn sound(self) -> bool {
        exists|now: int| startable(now) && #[trigger] self.valid(now)
    }
}

/// An insertion brought something new: it succeeded and changed a row.
pub open spec fn is_new(changed: Option<usize>) -> bool {
    changed matches Some(n) && n > 0
}

/// How many of the insertions brought something new.
pub open spec fn new_rows(changed: Seq<Option<usize>>) -> nat
    decreases changed.len(),
{
    if changed.len() == 0 {
        0
    } else {
        new_rows(changed.drop_last()) + if is_new(changed.last()) {
            1nat
        } else {
            0nat
        }
    }
}

/// How many observations were new, given for each how many rows its insertion changed. An insertion
/// that failed is `None` and brings nothing new.
pub fn count_new(changed: &Vec<Option<usize>>) -> (r: usize)
    ensures
        r == new_rows(changed@),
{
    let mut r: usize = 0;
    let mut i: usize = 0;
    while i < changed.len()
        invariant
            i <= changed@.len(),
            r == new_rows(changed@.take(i as int)),
            r <= i,
        decreases changed@.len() - i,
    {
        assert(changed@.take(i + 1).drop_last() =~= changed@.take(i as int));
        assert(changed@.take(i + 1).last() == changed@[i as int]);
        if let Some(n) = changed[i] {
            if n > 0 {
                r += 1;
            }
        }
        i += 1;
    }
    assert(changed@.take(i as int) =~= changed@);
    r
}

/// The address of the window that ends at `end`.
fn ask_window(station_id: &str, end: i64) -> (r: String)
    requires
        MIN_TIME + WINDOW <= end <= MAX_TIME,
    ensures
        r@ == window_before(station_id@, end as int),
{
    let start = format_utc(end - WINDOW, REQUEST_PATTERN).unwrap();
    let stop = format_utc(end, REQUEST_PATTERN).unwrap();
    window_url(station_id, start.as_str(), stop.as_str())
}

impl CatchUp {
    /// Starts a catch-up for the place at the coordinates written `lat` and `lon`.
    pub fn start(lat: &str, lon: &str) -> (r: (CatchUp, Request))
        ensures
            (r.0@, r.1@) == catch_up_start(lat@, lon@),
            forall|now: int| #[trigger] r.0@.valid(now),
            r.0@.sound(),
    {
        let station_id = String::new();
        assert(station_id@ =~= seq![]);
        let task = CatchUp {
            awaited: Awaited::Point,
            station_id,
            end: 0,
            windows_left: WINDOWS,
            total: 0,
        };
        assert(startable(0) && task@.valid(0));
        (task, Request::Fetch(points_url(lat, lon)))
    }

    fn finish(&mut self, r: Result<usize, Failure>) -> (request: Request)
        ensures
            (final(self)@, request@) == old(self)@.ending(
                match r {
                    Ok(n) => Ok(n as nat),
                    Err(e) => Err(e@),
                },
            ),
    {
        self.awaited = Awaited::Nothing;
        Request::Done(r)
    }

    fn ask(&mut self) -> (request: Request)
        requires
            MIN_TIME + WINDOW <= old(self)@.end <= MAX_TIME,
        ensures
            (final(self)@, request@) == old(self)@.asking(),
    {
        self.awaited = Awaited::Observations;
        Request::Fetch(ask_window(self.station_id.as_str(), self.end))
    }

    /// Takes an input and tells what to do next.
    pub fn advance(&mut self, input: Input) -> (request: Request)
        requires
            old(self)@.sound(),
            suits(old(self)@.awaited, input@),
            input@ matches InputView::Stored(n) ==> old(self)@.total + n <= usize::MAX,
            input@ matches InputView::Opened(now) ==> startable(now as int),
        ensures
            (final(self)@, request@) == old(self)@.next(input@),
            forall|now: int|
                tells(input@, now) && #[trigger] old(self)@.valid(now) ==> final(self)@.valid(now),
            final(self)@.sound(),
    {
        let ghost before = self@;
        let ghost seen = input@;
        let ghost now = match seen {
            InputView::Opened(at) => at as int,
            _ => choose|now: int| startable(now) && #[trigger] self@.valid(now),
        };
        let request = match input {
            Input::Failed(t) => {
                if self.awaited == Awaited::Observations {
                    let total = self.total;
                    self.finish(Ok(total))
                } else {
                    self.finish(Err(Failure::Given(t)))
                }
            },
            Input::Single(cell) => match stations_url(&cell) {
                Ok(url) => {
                    self.awaited = Awaited::Stations;
                    Request::Fetch(url)
                },
                Err(e) => self.finish(Err(e)),
            },
            Input::List(list) => {
                if self.awaited == Awaited::Stations {
                    match closest_station(&list) {
                        Ok(id) => {
                            self.awaited = Awaited::Opening;
                            self.station_id = id;
                            Request::Open
                        },
                        Err(e) => self.finish(Err(e)),
                    }
                } else {
                    let total = self.total;
                    match list {
                        Listing::Undecodable => self.finish(Ok(total)),
                        Listing::NoArray => self.finish(Ok(total)),
                        Listing::Rows(rows) => {
                            let obs = observations(&rows);
                            self.awaited = Awaited::Storing;
                            Request::Store(short_name(self.station_id.as_str()), obs)
                        },
                    }
                }
            },
            Input::Opened(at) => {
                self.end = at;
                self.ask()
            },
            Input::Stored(n) => {
                self.total = self.total + n;
                self.end = self.end - WINDOW;
                self.windows_left = self.windows_left - 1;
                assert(self@ == before.stored(n as nat));
                if n == 0 || self.windows_left == 0 {
                    let total = self.total;
                    self.finish(Ok(total))
                } else {
                    self.ask()
                }
            },
        };
        proof {
            assert forall|at: int| tells(seen, at) && #[trigger] before.valid(at) implies self@.valid(
                at,
            ) by {
                catch_up_stays_valid(before, seen, at);
            }
            assert(before.valid(now));
            assert(startable(now) && self@.valid(now));
        }
        request
    }

    /// Takes the reply to the last request and tells what to do next.
    pub fn step(&mut self, reply: Reply) -> (request: Request)
        requires
            old(self)@.sound(),
            answers(old(self)@.awaited, reply@),
            reply matches Reply::Stored(n) ==> old(self)@.total + n <= usize::MAX,
            reply matches Reply::Opened(now) ==> startable(now as int),
        ensures
            (final(self)@, request@) == old(self)@.next(input_of(old(self)@.awaited, reply@)),
            forall|now: int|
                tells(input_of(old(self)@.awaited, reply@), now) && #[trigger] old(self)@.valid(now)
                    ==> final(self)@.valid(now),
            final(self)@.sound(),
    {
        let input = read_reply(self.awaited, reply);
        self.advance(input)
    }
}

/// Every step keeps a catch-up in a state that it can be in.
pub proof fn catch_up_stays_valid(c: CatchUpView, input: InputView, now: int)
    requires
        c.valid(now),
        suits(c.awaited, input),
        tells(input, now),
    ensures
        c.next(input).0.valid(now),
{
}

/// The windows of a catch-up cover thirty days, and one window less would not.
pub proof fn windows_cover_thirty_days()
    ensures
        (WINDOWS - 1) * WINDOW < 30 * DAY <= WINDOWS * WINDOW,
{
}

/// Where a catch-up asks for a window, that is the next week back from when the database was opened:
/// `k` weeks lie between, one for each window that is stored.
pub proof fn windows_go_back_without_a_gap(c: CatchUpView, input: InputView, now: int)
    requires
        c.valid(now),
        suits(c.awaited, input),
        tells(input, now),
        c.next(input).0.awaited == Awaited::Observations,
    ensures
        ({
            let (after, request) = c.next(input);
            let k = WINDOWS - after.windows_left;
            &&& 0 <= k < WINDOWS
            &&& request == RequestView::Fetch(window_before(c.station_id, now - k * WINDOW))
        }),
{
}

/// How many replies a catch-up still takes at most.
pub open spec fn replies_left(c: CatchUpView) -> int {
    match c.awaited {
        Awaited::Point => 3 + 2 * c.windows_left,
        Awaited::Stations => 2 + 2 * c.windows_left,
        Awaited::Opening => 1 + 2 * c.windows_left,
        Awaited::Observations => 2 * c.windows_left,
        Awaited::Storing => 2 * c.windows_left - 1,
        _ => 0,
    }
}

/// Every reply brings a catch-up closer to its end, which it reaches after thirteen at most.
pub proof fn catch_up_ends(c: CatchUpView, input: InputView, now: int)
    requires
        c.valid(now),
        suits(c.awaited, input),
    ensures
        0 <= replies_left(c.next(input).0) < replies_left(c) <= 13,
        replies_left(c.next(input).0) == 0 <==> c.next(input).1 is Done,
{
}

/// A window without anything new, or one that cannot be had, ends a catch-up with what was new
/// before it.
pub proof fn fruitless_window_ends_the_catch_up(c: CatchUpView, words: Seq<char>)
    ensures
        c.next(InputView::Stored(0)).1 == RequestView::Done(Ok(c.total)),
        c.awaited == Awaited::Observations ==> {
            &&& c.next(InputView::Failed(words)).1 == RequestView::Done(Ok(c.total))
            &&& c.next(InputView::List(ListingView::Undecodable)).1 == RequestView::Done(
                Ok(c.total),
            )
            &&& c.next(InputView::List(ListingView::NoArray)).1 == RequestView::Done(Ok(c.total))
        },
{
}

/// A catch-up after some inputs.
pub open spec fn run(c: CatchUpView, inputs: Seq<InputView>) -> CatchUpView
    decreases inputs.len(),
{
    if inputs.len() == 0 {
        c
    } else {
        run(c, inputs.drop_last()).next(inputs.last()).0
    }
}

/// The new observations that an input tells of.
pub open spec fn new_by(input: InputView) -> nat {
    match input {
        InputView::Stored(n) => n as nat,
        _ => 0,
    }
}

/// The new observations that some inputs tell of.
pub open spec fn new_in(inputs: Seq<InputView>) -> nat
    decreases inputs.len(),
{
    if inputs.len() == 0 {
        0
    } else {
        new_in(inputs.drop_last()) + new_by(inputs.last())
    }
}

/// A catch-up counts every observation that was new, and reports that count where it ends well.
pub proof fn catch_up_reports_all_that_was_new(
    lat: Seq<char>,
    lon: Seq<char>,
    inputs: Seq<InputView>,
    last: InputView,
)
    ensures
        ({
            let c = run(catch_up_start(lat, lon).0, inputs);
            &&& c.total == new_in(inputs)
            &&& c.next(last).1 matches RequestView::Done(Ok(n)) ==> n == new_in(inputs.push(last))
        }),
    decreases inputs.len(),
{
    let start = catch_up_start(lat, lon).0;
    let c = run(start, inputs);
    if inputs.len() > 0 {
        let before = run(start, inputs.drop_last());
        catch_up_reports_all_that_was_new(lat, lon, inputs.drop_last(), inputs.last());
        assert(c == before.next(inputs.last()).0);
        assert(c.total == before.total + new_by(inputs.last()));
    }
    assert(inputs.push(last).drop_last() =~= inputs);
    assert(new_in(inputs.push(last)) == new_in(inputs) + new_by(last));
}

/// A catch-up goes through the document on the place and the list of stations to the closest station
/// and opens the database. Its first window is the week that ends when the database is open, at the
/// address of that station, and what it gets is to be stored under the station's short name.
pub proof fn catch_up_starts_with_the_week_that_ends(
    lat: &str,
    lon: &str,
    start: (CatchUp, Request),
    a: &mut CatchUp,
    b: &mut CatchUp,
    c: &mut CatchUp,
    d: &mut CatchUp,
    url: String,
    stations: Vec<Vec<Cell>>,
    id: &str,
    name: String,
    now: i64,
    rows: Vec<Vec<Cell>>,
    obs: Vec<Observation>,
    r1: Request,
    r2: Request,
    r3: Request,
    r4: Request,
)
    requires
        call_ensures(CatchUp::start, (lat, lon), start),
        old(a)@ == start.0@,
        call_ensures(CatchUp::advance, (a, Input::Single(Some(Cell::Text(url)))), r1),
        old(b)@ == final(a)@,
        has_width(Listing::Rows(stations)@, 1),
        stations@.len() > 0,
        stations@[0]@[0] is Text,
        stations@[0]@[0]->Text_0@ == id@,
        call_ensures(CatchUp::advance, (b, Input::List(Listing::Rows(stations))), r2),
        call_ensures(short_name, (id,), name),
        old(c)@ == final(b)@,
        startable(now as int),
        call_ensures(CatchUp::advance, (c, Input::Opened(now)), r3),
        old(d)@ == final(c)@,
        call_ensures(CatchUp::advance, (d, Input::List(Listing::Rows(rows))), r4),
        call_ensures(observations, (&rows,), obs),
    ensures
        start.1@ == RequestView::Fetch("https://api.weather.gov/points/"@ + lat@ + ","@ + lon@),
        r1@ == RequestView::Fetch(url@),
        r2@ == RequestView::Open,
        r3@ == RequestView::Fetch(
            id@ + "/observations?start="@ + utc_text((now - 7 * DAY) as i64, REQUEST_PATTERN@)
                + "&end="@ + utc_text(now, REQUEST_PATTERN@),
        ),
        r4@ == RequestView::Store(name@, observations_view(obs@)),
        final(d)@.total == 0,
        final(d)@.windows_left == 5,
{
    assert(rows_view(stations@)[0] == row_view(stations@[0]@));
    assert(rows_view(stations@)[0].len() == 1);
    assert(row_view(stations@[0]@)[0] == stations@[0]@[0]@);
}

/// Once a window is stored, a catch-up goes on exactly where the window brought something new and
/// fewer than five windows were asked for: with the week before, at the same station. Else it ends
/// with all that was new. The count grows by what was new either way.
pub proof fn catch_up_goes_on_while_there_is_news(c: &mut CatchUp, n: usize, r: Request)
    requires
        old(c)@.awaited == Awaited::Storing,
        call_ensures(CatchUp::advance, (c, Input::Stored(n)), r),
    ensures
        final(c)@.total == old(c)@.total + n,
        n > 0 && old(c)@.windows_left > 1 ==> {
            &&& r@ == RequestView::Fetch(
                old(c)@.station_id + "/observations?start="@ + utc_text(
                    (old(c)@.end - 14 * DAY) as i64,
                    REQUEST_PATTERN@,
                ) + "&end="@ + utc_text((old(c)@.end - 7 * DAY) as i64, REQUEST_PATTERN@),
            )
            &&& final(c)@.station_id == old(c)@.station_id
            &&& final(c)@.end == old(c)@.end - 7 * DAY
            &&& final(c)@.windows_left == old(c)@.windows_left - 1
            &&& final(c)@.awaited == Awaited::Observations
        },
        n == 0 || old(c)@.windows_left <= 1 ==> r@ == RequestView::Done(Ok(old(c)@.total + n as nat)),
{
}

/// A window's observations are stored under the short name of the station, and waiting for them
/// changes nothing but what is awaited. A window that cannot be had ends the catch-up with what was
/// new before it.
pub proof fn window_is_stored_or_ends_the_catch_up(
    c: &mut CatchUp,
    input: Input,
    id: &str,
    name: String,
    rows: Vec<Vec<Cell>>,
    obs: Vec<Observation>,
    r: Request,
)
    requires
        old(c)@.awaited == Awaited::Observations,
        suits(Awaited::Observations, input@),
        id@ == old(c)@.station_id,
        call_ensures(short_name, (id,), name),
        call_ensures(observations, (&rows,), obs),
        call_ensures(CatchUp::advance, (c, input), r),
    ensures
        input == Input::List(Listing::Rows(rows)) ==> r@ == RequestView::Store(
            name@,
            observations_view(obs@),
        ) && final(c)@ == (CatchUpView { awaited: Awaited::Storing, ..old(c)@ }),
        input is Failed || input is List && !(input->List_0 is Rows) ==> r@ == RequestView::Done(
            Ok(old(c)@.total),
        ),
{
}

/// Before its windows, a catch-up ends with what went wrong: the words of whatever failed, or that a
/// document, the list in it or a station in the list is missing.
pub proof fn catch_up_tells_what_went_wrong(c: &mut CatchUp, input: Input, r: Request)
    requires
        old(c)@.awaited != Awaited::Observations,
        old(c)@.awaited != Awaited::Oldest,
        suits(old(c)@.awaited, input@),
        call_ensures(CatchUp::advance, (c, input), r),
    ensures
        input is Failed ==> r@ == RequestView::Done(Err(FailureView::Given(input->Failed_0@))),
        input is Single && input->Single_0 is None ==> r@ == RequestView::Done(
            Err(FailureView::UndecodableBody),
        ),
        input is Single && input->Single_0 is Some && !(input->Single_0->0 is Text) ==> r@
            == RequestView::Done(Err(FailureView::NoStationsUrl)),
        input is List && input->List_0 is Undecodable ==> r@ == RequestView::Done(
            Err(FailureView::UndecodableBody),
        ),
        input is List && input->List_0 is NoArray ==> r@ == RequestView::Done(
            Err(FailureView::NoStations),
        ),
        input is List && input->List_0 is Rows && input->List_0->Rows_0@.len() == 0 ==> r@
            == RequestView::Done(Err(FailureView::NoStationNearby)),
        input is List && input->List_0 is Rows && input->List_0->Rows_0@.len() > 0 && !(
        input->List_0->Rows_0@[0]@[0] is Text) ==> r@ == RequestView::Done(
            Err(FailureView::InvalidStation),
        ),
{
    if let Input::List(list) = input {
        if let Listing::Rows(rows) = list {
            if rows@.len() > 0 {
                assert(rows_view(rows@)[0] == row_view(rows@[0]@));
                assert(rows_view(rows@)[0].len() == 1);
                assert(row_view(rows@[0]@)[0] == rows@[0]@[0]@);
            }
        }
    }
}

/// What is new adds up: of no insertions none is, one insertion is new where it succeeded and changed
/// a row, and of two lists as many are new as of both together.
pub proof fn new_observations_add_up(
    whole: Vec<Option<usize>>,
    first: Vec<Option<usize>>,
    second: Vec<Option<usize>>,
    r: usize,
    x: usize,
    y: usize,
)
    requires
        call_ensures(count_new, (&whole,), r),
        call_ensures(count_new, (&first,), x),
        call_ensures(count_new, (&second,), y),
    ensures
        whole@.len() == 0 ==> r == 0,
        whole@.len() == 1 && whole@[0] is Some && whole@[0]->0 > 0 ==> r == 1,
        whole@.len() == 1 && (whole@[0] is None || whole@[0]->0 == 0) ==> r == 0,
        whole@ == first@ + second@ ==> r == x + y,
{
    if whole@.len() == 1 {
        assert(whole@.drop_last() =~= seq![]);
        assert(new_rows(whole@.drop_last()) == 0);
    }
    if whole@ == first@ + second@ {
        lemma_new_rows_concat(first@, second@);
    }
}

proof fn lemma_new_rows_concat(a: Seq<Option<usize>>, b: Seq<Option<usize>>)
    ensures
        new_rows(a + b) == new_rows(a) + new_rows(b),
    decreases b.len(),
{
    if b.len() == 0 {
        assert(a + b =~= a);
    } else {
        assert((a + b).drop_last() =~= a + b.drop_last());
        lemma_new_rows_concat(a, b.drop_last());
    }
}

/// A catch-up does with a reply what it does with the input that is read in it.
pub proof fn catch_up_takes_replies_as_they_are_read(
    a: &mut CatchUp,
    b: &mut CatchUp,
    reply: Reply,
    input: Input,
    r: Request,
    s: Request,
)
    requires
        old(a)@ == old(b)@,
        call_ensures(CatchUp::step, (a, reply), r),
        call_ensures(read_reply, (old(b).awaited, reply), input),
        call_ensures(CatchUp::advance, (b, input), s),
    ensures
        r@ == s@,
        final(a)@ == final(b)@,
{
}

} // verus!
