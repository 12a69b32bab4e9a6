//! A place with its coordinates and the weather station chosen for it.
use vstd::prelude::*;

use crate::json::opt_text;

verus! {

/// A place. The coordinates are of a type `C` of the caller's choice.
#[derive(Clone, Debug)]
pub struct LocationResult<C> {
    pub city: String,
    pub state: String,
    pub lat: C,
    pub lon: C,
    pub station_id: Option<String>,
}

/// The contents of a [`LocationResult`].
#[verifier::ext_equal]
pub struct LocationView<C> {
    pub city: Seq<char>,
    pub state: Seq<char>,
    pub lat: C,
    pub lon: C,
    pub station_id: Option<Seq<char>>,
}

impl<C> View for LocationResult<C> {
    type V = LocationView<C>;

    open spec fn view(&self) -> LocationView<C> {
        LocationView {
            city: self.city@,
            state: self.state@,
            lat: self.lat,
            lon: self.lon,
            station_id: opt_text(self.station_id),
        }
    }
}

/// The contents of an optional place.
pub open spec fn opt_location<C>(loc: Option<LocationResult<C>>) -> Option<LocationView<C>> {
    match loc {
        Some(l) => Some(l@),
        None => None,
    }
}

/// The contents of a list of places.
pub open spec fn locations_view<C>(locs: Seq<LocationResult<C>>) -> Seq<LocationView<C>> {
    Seq::new(locs.len(), |i: int| locs[i]@)
}

/// A copy of an optional string.
pub fn copy_text(t: &Option<String>) -> (r: Option<String>)
    ensures
        opt_text(r) == opt_text(*t),
{
    match t {
        Some(t) => Some(t.clone()),
        None => None,
    }
}

impl<C: Copy> LocationResult<C> {
    /// A copy of the place.
    pub fn copy(&self) -> (r: Self)
        ensures
            r@ == self@,
    {
        LocationResult {
            city: self.city.clone(),
            state: self.state.clone(),
            lat: self.lat,
            lon: self.lon,
            station_id: copy_text(&self.station_id),
        }
    }

    /// The same place with the given station.
    pub fn with_station(&self, station: &str) -> (r: Self)
        ensures
            r@ == (LocationView { station_id: Some(station@), ..self@ }),
    {
        LocationResult {
            city: self.city.clone(),
            state: self.state.clone(),
            lat: self.lat,
            lon: self.lon,
            station_id: Some(station.to_owned()),
        }
    }
}

/// A copy of a place is that place, and a place with a station is that place with that station.
pub proof fn copies_keep_the_place<C: Copy>(
    loc: LocationResult<C>,
    station: &str,
    copied: LocationResult<C>,
    r: LocationResult<C>,
)
    requires
        call_ensures(LocationResult::<C>::copy, (&loc,), copied),
        call_ensures(LocationResult::<C>::with_station, (&loc, station), r),
    ensures
        copied.city@ == loc.city@ && copied.state@ == loc.state@,
        copied.lat == loc.lat && copied.lon == loc.lon,
        opt_text(copied.station_id) == opt_text(loc.station_id),
        r.city@ == loc.city@ && r.state@ == loc.state@,
        r.lat == loc.lat && r.lon == loc.lon,
        r.station_id is Some && r.station_id->0@ == station@,
{
}

} // verus!
