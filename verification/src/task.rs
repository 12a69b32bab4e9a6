//! What a task at the weather service waits for, the replies it gets and how they are read.
use vstd::prelude::*;

use crate::json::{
    find_cell, find_rows, has_width, json_cell, json_listing, paths, Cell, CellView, Listing,
    ListingView,
};

verus! {

/// What a task waits for.
#[derive(Clone, Copy, PartialEq, Eq, Structural, Debug)]
pub enum Awaited {
    /// The document on a place.
    Point,
    /// The list of stations.
    Stations,
    /// The database to be opened.
    Opening,
    /// A list of observations.
    Observations,
    /// The list with the oldest observation.
    Oldest,
    /// Observations to be stored.
    Storing,
    /// The task is over.
    Nothing,
}

/// A reply to a task's request.
pub enum Reply {
    /// The bytes of the document that was fetched.
    Body(Vec<u8>),
    /// The database is open, at this second.
    Opened(i64),
    /// The observations are stored, that many of them new.
    Stored(usize),
    /// What was asked for failed, in these words.
    Failed(String),
}

/// The contents of a [`Reply`].
pub enum ReplyView {
    Body(Seq<u8>),
    Opened(i64),
    Stored(usize),
    Failed(Seq<char>),
}

impl View for Reply {
    type V = ReplyView;

    open spec fn view(&self) -> ReplyView {
        match *self {
            Reply::Body(b) => ReplyView::Body(b@),
            Reply::Opened(now) => ReplyView::Opened(now),
            Reply::Stored(n) => ReplyView::Stored(n),
            Reply::Failed(t) => ReplyView::Failed(t@),
        }
    }
}

/// A reply that was read.
pub enum Input {
    /// What stands at the one place of interest in a document; `None` where it is no JSON document.
    Single(Option<Cell>),
    /// The list of interest in a document.
    List(Listing),
    Opened(i64),
    Stored(usize),
    Failed(String),
}

/// The contents of an [`Input`].
pub enum InputView {
    Single(Option<CellView>),
    List(ListingView),
    Opened(i64),
    Stored(usize),
    Failed(Seq<char>),
}

impl View for Input {
    type V = InputView;

    open spec fn view(&self) -> InputView {
        match *self {
            Input::Single(c) => InputView::Single(
                match c {
                    Some(c) => Some(c@),
                    None => None,
                },
            ),
            Input::List(l) => InputView::List(l@),
            Input::Opened(now) => InputView::Opened(now),
            Input::Stored(n) => InputView::Stored(n),
            Input::Failed(t) => InputView::Failed(t@),
        }
    }
}

/// Where the document on a place names the list of stations.
pub const STATIONS_PATH: &'static str = "/properties/observationStations";

/// Where a list of stations or of observations has its items.
pub const ITEMS_PATH: &'static str = "/features";

/// The places of interest in an item of the list that is awaited.
pub open spec fn columns_of(awaited: Awaited) -> Seq<Seq<char>> {
    match awaited {
        Awaited::Stations => seq!["/id"@],
        Awaited::Oldest => seq!["/properties/timestamp"@],
        _ => seq![
            "/properties/timestamp"@,
            "/properties/temperature/value"@,
            "/properties/dewpoint/value"@,
            "/properties/relativeHumidity/value"@,
            "/properties/windSpeed/value"@,
            "/properties/windDirection/value"@,
        ],
    }
}

/// The places of interest in an item of the list that is awaited.
pub fn columns(awaited: Awaited) -> (r: Vec<&'static str>)
    ensures
        paths(r@) == columns_of(awaited),
{
    let mut r: Vec<&'static str> = Vec::new();
    match awaited {
        Awaited::Stations => {
            r.push("/id");
        },
        Awaited::Oldest => {
            r.push("/properties/timestamp");
        },
        _ => {
            r.push("/properties/timestamp");
            r.push("/properties/temperature/value");
            r.push("/properties/dewpoint/value");
            r.push("/properties/relativeHumidity/value");
            r.push("/properties/windSpeed/value");
            r.push("/properties/windDirection/value");
        },
    }
    assert(paths(r@) =~= columns_of(awaited));
    r
}

/// The task waits for a document.
pub open spec fn fetching(awaited: Awaited) -> bool {
    ||| awaited == Awaited::Point
    ||| awaited == Awaited::Stations
    ||| awaited == Awaited::Observations
    ||| awaited == Awaited::Oldest
}

/// The reply answers what the task waits for.
pub open spec fn answers(awaited: Awaited, reply: ReplyView) -> bool {
    match reply {
        ReplyView::Body(b) => fetching(awaited),
        ReplyView::Opened(now) => awaited == Awaited::Opening,
        ReplyView::Stored(n) => awaited == Awaited::Storing,
        ReplyView::Failed(t) => awaited != Awaited::Nothing,
    }
}

/// The input answers what the task waits for.
pub open spec fn suits(awaited: Awaited, input: InputView) -> bool {
    match input {
        InputView::Single(c) => awaited == Awaited::Point,
        InputView::List(l) => fetching(awaited) && awaited != Awaited::Point && has_width(
            l,
            columns_of(awaited).len(),
        ),
        InputView::Opened(now) => awaited == Awaited::Opening,
        InputView::Stored(n) => awaited == Awaited::Storing,
        InputView::Failed(t) => awaited != Awaited::Nothing,
    }
}

/// How a reply is read.
pub open spec fn input_of(awaited: Awaited, reply: ReplyView) -> InputView {
    match reply {
        ReplyView::Body(b) => if awaited == Awaited::Point {
            InputView::Single(json_cell(b, STATIONS_PATH@))
        } else {
            InputView::List(json_listing(b, ITEMS_PATH@, columns_of(awaited)))
        },
        ReplyView::Opened(now) => InputView::Opened(now),
        ReplyView::Stored(n) => InputView::Stored(n),
        ReplyView::Failed(t) => InputView::Failed(t),
    }
}

/// Reads the reply to what a task waits for.
pub fn read_reply(awaited: Awaited, reply: Reply) -> (r: Input)
    requires
        answers(awaited, reply@),
    ensures
        r@ == input_of(awaited, reply@),
        suits(awaited, r@),
{
    match reply {
        Reply::Body(b) => {
            if awaited == Awaited::Point {
                Input::Single(find_cell(b.as_slice(), STATIONS_PATH))
            } else {
                let places = columns(awaited);
                assert(paths(places@).len() == places@.len());
                Input::List(find_rows(b.as_slice(), ITEMS_PATH, &places))
            }
        },
        Reply::Opened(now) => Input::Opened(now),
        Reply::Stored(n) => Input::Stored(n),
        Reply::Failed(t) => Input::Failed(t),
    }
}

/// The place of interest with the given number, counted from zero, in an item of the list that is
/// awaited.
pub open spec fn place_of(awaited: Awaited, path: Seq<char>, k: int) -> bool {
    0 <= k < columns_of(awaited).len() && columns_of(awaited)[k] == path
}

/// A document is read for what its task waits for: the document on a place at the address of the list
/// of stations, and a list at its items, each item at the places of interest. Any other reply is
/// taken as it is.
pub proof fn replies_are_read_at_their_places(awaited: Awaited, reply: Reply, r: Input)
    requires
        call_ensures(read_reply, (awaited, reply), r),
    ensures
        reply is Body && awaited == Awaited::Point ==> r@ == InputView::Single(
            json_cell(reply->Body_0@, "/properties/observationStations"@),
        ),
        reply is Body && awaited == Awaited::Stations ==> r@ == InputView::List(
            json_listing(reply->Body_0@, "/features"@, seq!["/id"@]),
        ),
        reply is Body && awaited == Awaited::Oldest ==> r@ == InputView::List(
            json_listing(reply->Body_0@, "/features"@, seq!["/properties/timestamp"@]),
        ),
        reply is Body && awaited == Awaited::Observations ==> r@ == InputView::List(
            json_listing(reply->Body_0@, "/features"@, columns_of(Awaited::Observations)),
        ),
        reply is Opened ==> r@ == InputView::Opened(reply->Opened_0),
        reply is Stored ==> r@ == InputView::Stored(reply->Stored_0),
        reply is Failed ==> r@ == InputView::Failed(reply->Failed_0@),
{
}

} // verus!
