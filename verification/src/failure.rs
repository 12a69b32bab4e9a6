//! Why a task came to nothing.
use vstd::prelude::*;

verus! {

/// Why a task came to nothing.
pub enum Failure {
    /// Something outside failed, in these words.
    Given(String),
    /// A response is no JSON document.
    UndecodableBody,
    /// The weather service names no list of stations for a place.
    NoStationsUrl,
    /// The list of stations is missing.
    NoStations,
    /// The list of stations is empty.
    NoStationNearby,
    /// The first station has no name.
    InvalidStation,
    /// The list of observations is missing.
    NoObservations,
}

/// The contents of a [`Failure`].
pub enum FailureView {
    Given(Seq<char>),
    UndecodableBody,
    NoStationsUrl,
    NoStations,
    NoStationNearby,
    InvalidStation,
    NoObservations,
}

impl View for Failure {
    type V = FailureView;

    open spec fn view(&self) -> FailureView {
        match *self {
            Failure::Given(t) => FailureView::Given(t@),
            Failure::UndecodableBody => FailureView::UndecodableBody,
            Failure::NoStationsUrl => FailureView::NoStationsUrl,
            Failure::NoStations => FailureView::NoStations,
            Failure::NoStationNearby => FailureView::NoStationNearby,
            Failure::InvalidStation => FailureView::InvalidStation,
            Failure::NoObservations => FailureView::NoObservations,
        }
    }
}

impl FailureView {
    /// The failure in words.
    pub open spec fn words(self) -> Seq<char> {
        match self {
            FailureView::Given(t) => t,
            FailureView::UndecodableBody => "error decoding response body"@,
            FailureView::NoStationsUrl => "Could not find observationStations URL"@,
            FailureView::NoStations => "No stations found"@,
            FailureView::NoStationNearby => "No weather stations found near this location"@,
            FailureView::InvalidStation => "Invalid station data"@,
            FailureView::NoObservations => "No observations found"@,
        }
    }
}

impl Failure {
    /// The failure in words.
    pub fn message(&self) -> (r: String)
        ensures
            r@ == self@.words(),
    {
        match self {
            Failure::Given(t) => t.clone(),
            Failure::UndecodableBody => "error decoding response body".to_owned(),
            Failure::NoStationsUrl => "Could not find observationStations URL".to_owned(),
            Failure::NoStations => "No stations found".to_owned(),
            Failure::NoStationNearby => "No weather stations found near this location".to_owned(),
            Failure::InvalidStation => "Invalid station data".to_owned(),
            Failure::NoObservations => "No observations found".to_owned(),
        }
    }
}

/// A failure of something outside is told in its own words, and every other in words of its own.
pub proof fn failures_are_told_apart(e: Failure, r: String)
    requires
        call_ensures(Failure::message, (&e,), r),
    ensures
        e is Given ==> r@ == e->Given_0@,
        e is UndecodableBody ==> r@ == "error decoding response body"@,
        e is NoStationsUrl ==> r@ == "Could not find observationStations URL"@,
        e is NoStations ==> r@ == "No stations found"@,
        e is NoStationNearby ==> r@ == "No weather stations found near this location"@,
        e is InvalidStation ==> r@ == "Invalid station data"@,
        e is NoObservations ==> r@ == "No observations found"@,
{
}

} // verus!
