//! What the statements of [`crate::store`] do to the tables of the database, as SQL defines it, and
//! what follows: that preparing the database again changes nothing, that a place kept last is read
//! back first and that an observation is stored once. Nothing here runs; the statements themselves
//! are run by the database.
use vstd::prelude::*;

use crate::location::LocationView;
use crate::store::{preparation, SchemaChange, SchemaStep, StoredObservationView};

verus! {

/// A row of the table of kept places.
#[verifier::ext_equal]
pub struct KeptRow<C> {
    pub place: LocationView<C>,
    pub last_validated: i64,
}

/// The table of kept places. One made by an older version has no column for the station.
#[verifier::ext_equal]
pub struct KeptTable<C> {
    pub has_station: bool,
    pub rows: Seq<KeptRow<C>>,
}

/// A row of the table of observations.
#[verifier::ext_equal]
pub struct StoredRow<C> {
    pub city: Seq<char>,
    pub state: Seq<char>,
    pub station: Seq<char>,
    pub obs: StoredObservationView<C>,
    pub collected_at: i64,
}

/// The database: its tables, as far as they exist.
#[verifier::ext_equal]
pub struct Tables<C> {
    pub locations: Option<KeptTable<C>>,
    pub forecasts: Option<Seq<StoredRow<C>>>,
}

/// A row to which the station column was added: it names no station.
pub open spec fn without_station<C>(row: KeptRow<C>) -> KeptRow<C> {
    KeptRow { place: LocationView { station_id: None, ..row.place }, ..row }
}

/// The table with the station column added: every row stays and names no station.
pub open spec fn with_station_column<C>(t: KeptTable<C>) -> KeptTable<C> {
    KeptTable {
        has_station: true,
        rows: t.rows.map_values(|row: KeptRow<C>| without_station(row)),
    }
}

/// What one change of the preparation makes of the database; `None` where it fails. A table that
/// exists is not created again, and a column can be added only to a table that exists without it.
pub open spec fn run_change<C>(change: SchemaChange, db: Tables<C>) -> Option<Tables<C>> {
    match change {
        SchemaChange::Locations => Some(
            match db.locations {
                Some(t) => db,
                None => Tables {
                    locations: Some(KeptTable { has_station: true, rows: seq![] }),
                    ..db
                },
            },
        ),
        SchemaChange::StationColumn => match db.locations {
            Some(t) => if t.has_station {
                None
            } else {
                Some(Tables { locations: Some(with_station_column(t)), ..db })
            },
            None => None,
        },
        SchemaChange::Forecasts => Some(
            match db.forecasts {
                Some(rows) => db,
                None => Tables { forecasts: Some(seq![]), ..db },
            },
        ),
    }
}

/// What some steps make of the database, one after the other; `None` where one fails that may not.
pub open spec fn run_steps<C>(steps: Seq<SchemaStep>, db: Tables<C>) -> Option<Tables<C>>
    decreases steps.len(),
{
    if steps.len() == 0 {
        Some(db)
    } else {
        match run_steps(steps.drop_last(), db) {
            Some(before) => match run_change(steps.last().change, before) {
                Some(after) => Some(after),
                None => if steps.last().may_fail {
                    Some(before)
                } else {
                    None
                },
            },
            None => None,
        }
    }
}

/// The database once it is prepared.
pub open spec fn prepared<C>(db: Tables<C>) -> Tables<C> {
    Tables {
        locations: Some(
            match db.locations {
                Some(t) => if t.has_station {
                    t
                } else {
                    with_station_column(t)
                },
                None => KeptTable { has_station: true, rows: seq![] },
            },
        ),
        forecasts: Some(
            match db.forecasts {
                Some(rows) => rows,
                None => seq![],
            },
        ),
    }
}

/// Preparation succeeds on every database, be it new, prepared or of an older version.
pub proof fn preparation_succeeds<C>(db: Tables<C>)
    ensures
        run_steps(preparation(), db) == Some(prepared(db)),
{
    let steps = preparation();
    let two = steps.drop_last();
    let one = two.drop_last();
    assert(one.drop_last() =~= seq![]);
    reveal_with_fuel(run_steps, 4);
    assert(run_steps(one, db) == run_change(SchemaChange::Locations, db));
    assert(two.last().change == SchemaChange::StationColumn);
    assert(steps.last().change == SchemaChange::Forecasts);
}

/// Preparing the database again succeeds and changes nothing. Both tables exist after it, the one of
/// kept places with the station column; every stored row stays, and where the column was added, a row
/// stays as it was but for its station, which is missing.
pub proof fn preparing_again_changes_nothing<C>(db: Tables<C>)
    ensures
        run_steps(preparation(), prepared(db)) == Some(prepared(db)),
        prepared(db).locations matches Some(t) && t.has_station,
        prepared(db).forecasts is Some,
        db.forecasts is Some ==> prepared(db).forecasts == db.forecasts,
        db.locations matches Some(t) ==> {
            let rows = prepared(db).locations->0.rows;
            &&& rows.len() == t.rows.len()
            &&& t.has_station ==> rows == t.rows
            &&& !t.has_station ==> forall|i: int|
                0 <= i < rows.len() ==> #[trigger] rows[i] == without_station(t.rows[i])
        },
        db.locations is None ==> prepared(db).locations->0.rows.len() == 0,
        db.forecasts is None ==> prepared(db).forecasts->0.len() == 0,
{
    preparation_succeeds(prepared(db));
    assert(prepared(prepared(db)) == prepared(db));
}

/// Two kept places are the same one: in the same city and state with the same station. A place
/// without a station is the same as no other.
pub open spec fn same_place<C>(a: LocationView<C>, b: LocationView<C>) -> bool {
    a.city == b.city && a.state == b.state && a.station_id is Some && a.station_id == b.station_id
}

/// The rows of the kept places after `loc` was kept at `timestamp`: its coordinates and time are
/// renewed where it is kept already, else a row is added.
pub open spec fn kept_after<C>(
    rows: Seq<KeptRow<C>>,
    loc: LocationView<C>,
    timestamp: i64,
) -> Seq<KeptRow<C>> {
    if exists|i: int| 0 <= i < rows.len() && same_place((#[trigger] rows[i]).place, loc) {
        rows.map_values(
            |row: KeptRow<C>|
                if same_place(row.place, loc) {
                    KeptRow {
                        place: LocationView { lat: loc.lat, lon: loc.lon, ..row.place },
                        last_validated: timestamp,
                    }
                } else {
                    row
                },
        )
    } else {
        rows.push(KeptRow { place: loc, last_validated: timestamp })
    }
}

/// The list holds each row once, the last validated first. Rows of the same time may stand either
/// way.
pub open spec fn lists<C>(list: Seq<KeptRow<C>>, rows: Seq<KeptRow<C>>) -> bool {
    &&& list.to_multiset() == rows.to_multiset()
    &&& forall|i: int, j: int|
        0 <= i <= j < list.len() ==> (#[trigger] list[i]).last_validated >= (
        #[trigger] list[j]).last_validated
}

/// A place that is kept later than all others is read first, with its city, its state, its
/// coordinates and its station, and one place is read for each row.
pub proof fn place_kept_last_is_read_first<C>(
    rows: Seq<KeptRow<C>>,
    loc: LocationView<C>,
    timestamp: i64,
    list: Seq<KeptRow<C>>,
)
    requires
        forall|i: int| 0 <= i < rows.len() ==> (#[trigger] rows[i]).last_validated < timestamp,
        lists(list, kept_after(rows, loc, timestamp)),
    ensures
        list.len() == kept_after(rows, loc, timestamp).len() > 0,
        list[0].place == loc,
        list[0].last_validated == timestamp,
{
    broadcast use vstd::seq_lib::group_to_multiset_ensures;

    let after = kept_after(rows, loc, timestamp);
    let new = KeptRow { place: loc, last_validated: timestamp };
    assert forall|i: int| 0 <= i < after.len() implies (#[trigger] after[i]) == new
        || after[i].last_validated < timestamp by {
        if i < rows.len() {
            assert(rows[i].last_validated < timestamp);
        }
    }
    let k = if exists|i: int| 0 <= i < rows.len() && same_place((#[trigger] rows[i]).place, loc) {
        choose|i: int| 0 <= i < rows.len() && same_place((#[trigger] rows[i]).place, loc)
    } else {
        rows.len() as int
    };
    assert(after[k] == new);
    assert(after.contains(new));
    assert(after.to_multiset().count(new) > 0);
    assert(list.contains(new));
    assert(list.len() == list.to_multiset().len());
    assert(after.len() == after.to_multiset().len());
    let at = choose|i: int| 0 <= i < list.len() && list[i] == new;
    assert(list[0].last_validated >= list[at].last_validated);
    assert(list.contains(list[0]));
    assert(list.to_multiset().count(list[0]) > 0);
    assert(after.contains(list[0]));
    let from = choose|i: int| 0 <= i < after.len() && after[i] == list[0];
    assert(after[from] == new);
}

/// Two rows are of the same observation: of the same time, station, city and state.
pub open spec fn same_observation<C>(a: StoredRow<C>, b: StoredRow<C>) -> bool {
    a.obs.time == b.obs.time && a.station == b.station && a.city == b.city && a.state == b.state
}

/// The observation of a row is stored.
pub open spec fn stored<C>(rows: Seq<StoredRow<C>>, row: StoredRow<C>) -> bool {
    exists|i: int| 0 <= i < rows.len() && same_observation(#[trigger] rows[i], row)
}

/// The rows of the observations after one was to be stored: it is added unless it is stored already.
pub open spec fn stored_after<C>(rows: Seq<StoredRow<C>>, row: StoredRow<C>) -> Seq<StoredRow<C>> {
    if stored(rows, row) {
        rows
    } else {
        rows.push(row)
    }
}

/// The row of an observation at a place, stored under a station by the collection at `collected_at`.
pub open spec fn observation_row<C>(
    city: Seq<char>,
    state: Seq<char>,
    station: Seq<char>,
    obs: StoredObservationView<C>,
    collected_at: i64,
) -> StoredRow<C> {
    StoredRow { city, state, station, obs, collected_at }
}

/// The rows of the observations after a collection stored `obs`, one after the other.
pub open spec fn collected_after<C>(
    rows: Seq<StoredRow<C>>,
    city: Seq<char>,
    state: Seq<char>,
    station: Seq<char>,
    obs: Seq<StoredObservationView<C>>,
    collected_at: i64,
) -> Seq<StoredRow<C>>
    decreases obs.len(),
{
    if obs.len() == 0 {
        rows
    } else {
        stored_after(
            collected_after(rows, city, state, station, obs.drop_last(), collected_at),
            observation_row(city, state, station, obs.last(), collected_at),
        )
    }
}

/// A collection stores every observation and changes no row that was stored before.
pub proof fn collection_stores_and_keeps<C>(
    rows: Seq<StoredRow<C>>,
    city: Seq<char>,
    state: Seq<char>,
    station: Seq<char>,
    obs: Seq<StoredObservationView<C>>,
    collected_at: i64,
    again: i64,
)
    ensures
        rows.is_prefix_of(collected_after(rows, city, state, station, obs, collected_at)),
        forall|i: int|
            0 <= i < obs.len() ==> stored(
                collected_after(rows, city, state, station, obs, collected_at),
                observation_row(city, state, station, #[trigger] obs[i], again),
            ),
    decreases obs.len(),
{
    if obs.len() > 0 {
        let init = obs.drop_last();
        collection_stores_and_keeps(rows, city, state, station, init, collected_at, again);
        let before = collected_after(rows, city, state, station, init, collected_at);
        let after = collected_after(rows, city, state, station, obs, collected_at);
        let row = observation_row(city, state, station, obs.last(), collected_at);
        assert(after == stored_after(before, row));
        assert forall|i: int| 0 <= i < before.len() implies #[trigger] before[i] == after[i] by {}
        assert forall|i: int| 0 <= i < obs.len() implies stored(
            after,
            observation_row(city, state, station, #[trigger] obs[i], again),
        ) by {
            let wanted = observation_row(city, state, station, obs[i], again);
            if i < init.len() {
                assert(init[i] == obs[i]);
                let k = choose|k: int|
                    0 <= k < before.len() && same_observation(#[trigger] before[k], wanted);
                assert(same_observation(after[k], wanted));
            } else if stored(before, row) {
                let k = choose|k: int|
                    0 <= k < before.len() && same_observation(#[trigger] before[k], row);
                assert(same_observation(after[k], wanted));
            } else {
                assert(same_observation(after[before.len() as int], wanted));
            }
        }
    }
}

/// Where all observations are stored, a collection of them changes nothing.
proof fn lemma_nothing_to_store<C>(
    rows: Seq<StoredRow<C>>,
    city: Seq<char>,
    state: Seq<char>,
    station: Seq<char>,
    obs: Seq<StoredObservationView<C>>,
    collected_at: i64,
)
    requires
        forall|i: int|
            0 <= i < obs.len() ==> stored(
                rows,
                observation_row(city, state, station, #[trigger] obs[i], collected_at),
            ),
    ensures
        collected_after(rows, city, state, station, obs, collected_at) == rows,
    decreases obs.len(),
{
    if obs.len() > 0 {
        let init = obs.drop_last();
        assert(forall|i: int| 0 <= i < init.len() ==> init[i] == obs[i]);
        lemma_nothing_to_store(rows, city, state, station, init, collected_at);
        assert(stored(
            rows,
            observation_row(city, state, station, obs[obs.len() - 1], collected_at),
        ));
    }
}

/// To collect the same observations again adds no row and changes none: each keeps its values and
/// the time of its first collection.
pub proof fn collecting_again_changes_nothing<C>(
    rows: Seq<StoredRow<C>>,
    city: Seq<char>,
    state: Seq<char>,
    station: Seq<char>,
    obs: Seq<StoredObservationView<C>>,
    collected_at: i64,
    again: i64,
)
    ensures
        ({
            let after = collected_after(rows, city, state, station, obs, collected_at);
            collected_after(after, city, state, station, obs, again) == after
        }),
{
    collection_stores_and_keeps(rows, city, state, station, obs, collected_at, again);
    lemma_nothing_to_store(
        collected_after(rows, city, state, station, obs, collected_at),
        city,
        state,
        station,
        obs,
        again,
    );
}

} // verus!
