//! The series that the graphs show, made from rows of the database: points in time with a value
//! and wind observations.
use vstd::multiset::Multiset;
use vstd::prelude::*;

use crate::clock::{rfc3339_instant, span, start_of, timestamp, timestamp_of, TimeRange};
use crate::json::opt_text;
use crate::text::{lemma_trimmed_parts, split_words, texts, trim_end_char, trimmed_end, words};

verus! {

/// A row with the time of an observation and one value.
pub struct ValueRow<V> {
    pub time: String,
    pub value: Option<V>,
}

/// The contents of a [`ValueRow`].
#[verifier::ext_equal]
pub struct ValueRowView<V> {
    pub time: Seq<char>,
    pub value: Option<V>,
}

impl<V> View for ValueRow<V> {
    type V = ValueRowView<V>;

    open spec fn view(&self) -> ValueRowView<V> {
        ValueRowView { time: self.time@, value: self.value }
    }
}

/// The contents of a list of rows.
pub open spec fn value_rows<V>(rows: Seq<ValueRow<V>>) -> Seq<ValueRowView<V>> {
    Seq::new(rows.len(), |i: int| rows[i]@)
}

/// A point of a graph: the second and the value there.
pub type Point<V> = (i64, V);

/// The time and the value of a row, each where it is known.
pub type DatedValue<V> = (Option<i64>, Option<V>);

/// The point that a dated value gives: none where its time or its value is missing.
pub open spec fn point_of<V>(row: DatedValue<V>) -> Option<Point<V>> {
    match row {
        (Some(t), Some(v)) => Some((t, v)),
        _ => None,
    }
}

/// What the items that are there hold, in order.
pub open spec fn present<T>(items: Seq<Option<T>>) -> Seq<T>
    decreases items.len(),
{
    if items.len() == 0 {
        seq![]
    } else {
        match items.last() {
            Some(x) => present(items.drop_last()).push(x),
            None => present(items.drop_last()),
        }
    }
}

/// No more items are there than there are places.
pub proof fn lemma_present_len<T>(items: Seq<Option<T>>)
    ensures
        present(items).len() <= items.len(),
    decreases items.len(),
{
    if items.len() > 0 {
        lemma_present_len(items.drop_last());
    }
}

/// What the items of two lists hold, one list after the other, is what each holds.
pub proof fn lemma_present_concat<T>(a: Seq<Option<T>>, b: Seq<Option<T>>)
    ensures
        present(a + b) == present(a) + present(b),
    decreases b.len(),
{
    if b.len() == 0 {
        assert(a + b =~= a);
        assert(present(a) + present(b) =~= present(a));
    } else {
        assert((a + b).drop_last() =~= a + b.drop_last());
        assert((a + b).last() == b.last());
        lemma_present_concat(a, b.drop_last());
        assert(present(a + b) =~= present(a) + present(b));
    }
}

/// The points of a series of dated values, in order.
pub open spec fn points_of<V>(rows: Seq<DatedValue<V>>) -> Seq<Point<V>> {
    present(rows.map_values(|row: DatedValue<V>| point_of(row)))
}

/// The known times are in order.
pub open spec fn times_in_order<V>(rows: Seq<DatedValue<V>>) -> bool {
    forall|i: int, j: int|
        0 <= i <= j < rows.len() && (#[trigger] rows[i]).0 is Some && (#[trigger] rows[j]).0 is Some
            ==> rows[i].0->0 <= rows[j].0->0
}

/// Each point of a series comes from one of its rows, and the points of rows in order of time are in
/// order of time.
pub proof fn points_come_from_rows_in_order<V>(rows: Seq<DatedValue<V>>, i: int)
    requires
        0 <= i < points_of(rows).len(),
    ensures
        exists|k: int|
            0 <= k < rows.len() && #[trigger] point_of(rows[k]) == Some(points_of(rows)[i]),
        times_in_order(rows) && i > 0 ==> points_of(rows)[i - 1].0 <= points_of(rows)[i].0,
    decreases rows.len(),
{
    let all = rows.map_values(|row: DatedValue<V>| point_of(row));
    assert(rows.len() > 0);
    let init = rows.drop_last();
    assert(all.drop_last() =~= init.map_values(|row: DatedValue<V>| point_of(row)));
    assert(times_in_order(rows) ==> times_in_order(init)) by {
        assert(forall|k: int| 0 <= k < init.len() ==> init[k] == rows[k]);
    }
    let n = points_of(init).len();
    if i < n {
        points_come_from_rows_in_order(init, i);
        let k = choose|k: int|
            0 <= k < init.len() && #[trigger] point_of(init[k]) == Some(points_of(init)[i]);
        assert(point_of(rows[k]) == Some(points_of(rows)[i]));
    } else {
        assert(point_of(rows[rows.len() - 1]) == Some(points_of(rows)[i]));
        if n > 0 {
            points_come_from_rows_in_order(init, n - 1);
            let k = choose|k: int|
                0 <= k < init.len() && #[trigger] point_of(init[k]) == Some(points_of(init)[n - 1]);
            assert(rows[k] == init[k]);
        }
    }
}

/// The points of two series, one after the other, are the points of each.
pub proof fn points_of_parts_are_the_parts_points<V>(a: Seq<DatedValue<V>>, b: Seq<DatedValue<V>>)
    ensures
        points_of(a + b) == points_of(a) + points_of(b),
{
    let point = |row: DatedValue<V>| point_of(row);
    assert((a + b).map_values(point) =~= a.map_values(point) + b.map_values(point));
    lemma_present_concat(a.map_values(point), b.map_values(point));
}

/// The rows that meet a condition, in order.
pub open spec fn rows_meeting<T>(rows: Seq<T>, meets: spec_fn(T) -> bool) -> Seq<T>
    decreases rows.len(),
{
    if rows.len() == 0 {
        seq![]
    } else if meets(rows.last()) {
        rows_meeting(rows.drop_last(), meets).push(rows.last())
    } else {
        rows_meeting(rows.drop_last(), meets)
    }
}

/// The rows of a time range, where `since` tells whether a written time lies at or after a second.
pub open spec fn rows_in_range<V>(
    rows: Seq<ValueRowView<V>>,
    since: spec_fn(Seq<char>, int) -> bool,
    range: TimeRange,
    now: int,
) -> Seq<ValueRowView<V>> {
    match start_of(range, now) {
        Some(start) => rows_meeting(rows, |row: ValueRowView<V>| since(row.time, start)),
        None => rows,
    }
}

/// `since` goes with time: what lies after a second lies after every earlier one, and in `rows`
/// whatever follows a row lies after every second that the row lies after.
pub open spec fn ordered_by<V>(
    rows: Seq<ValueRowView<V>>,
    since: spec_fn(Seq<char>, int) -> bool,
) -> bool {
    &&& forall|time: Seq<char>, s: int, t: int|
        s <= t && #[trigger] since(time, t) ==> #[trigger] since(time, s)
    &&& forall|i: int, j: int, t: int|
        0 <= i <= j < rows.len() && #[trigger] since(rows[i].time, t) ==> #[trigger] since(
            rows[j].time,
            t,
        )
}

/// Where every row after one that meets a condition meets it too, the rows that meet it are the last
/// ones.
proof fn lemma_last_rows_meet<T>(rows: Seq<T>, meets: spec_fn(T) -> bool) -> (n: int)
    requires
        forall|i: int, j: int|
            0 <= i <= j < rows.len() && #[trigger] meets(rows[i]) ==> #[trigger] meets(rows[j]),
    ensures
        0 <= n <= rows.len(),
        rows_meeting(rows, meets) == rows.skip(n),
        forall|i: int| 0 <= i < n ==> !meets(#[trigger] rows[i]),
        forall|i: int| n <= i < rows.len() ==> meets(#[trigger] rows[i]),
    decreases rows.len(),
{
    if rows.len() == 0 {
        assert(rows_meeting(rows, meets) =~= rows.skip(0));
        0
    } else {
        let init = rows.drop_last();
        assert forall|i: int, j: int|
            0 <= i <= j < init.len() && #[trigger] meets(init[i]) implies #[trigger] meets(
            init[j],
        ) by {
            assert(meets(rows[i]) && init[j] == rows[j]);
        }
        let n = lemma_last_rows_meet(init, meets);
        assert(forall|i: int| 0 <= i < init.len() ==> init[i] == rows[i]);
        if meets(rows.last()) {
            assert(rows_meeting(rows, meets) =~= rows.skip(n));
            n
        } else {
            if n < init.len() {
                assert(meets(init[n]));
                assert(meets(rows[n]));
                assert(meets(rows[rows.len() - 1]));
            }
            assert(rows_meeting(rows, meets) =~= rows.skip(rows.len() as int));
            rows.len() as int
        }
    }
}

/// The rows of a time range are the last ones.
proof fn lemma_range_is_last_rows<V>(
    rows: Seq<ValueRowView<V>>,
    since: spec_fn(Seq<char>, int) -> bool,
    range: TimeRange,
    now: int,
) -> (n: int)
    requires
        ordered_by(rows, since),
    ensures
        0 <= n <= rows.len(),
        rows_in_range(rows, since, range, now) == rows.skip(n),
        start_of(range, now) matches Some(start) ==> {
            &&& forall|i: int| 0 <= i < n ==> !since((#[trigger] rows[i]).time, start)
            &&& forall|i: int| n <= i < rows.len() ==> since((#[trigger] rows[i]).time, start)
        },
        start_of(range, now) is None ==> n == 0,
{
    match start_of(range, now) {
        Some(start) => {
            let meets = |row: ValueRowView<V>| since(row.time, start);
            assert forall|i: int, j: int|
                0 <= i <= j < rows.len() && #[trigger] meets(rows[i]) implies #[trigger] meets(
                rows[j],
            ) by {
                assert(since(rows[i].time, start));
                assert(since(rows[j].time, start));
            }
            let n = lemma_last_rows_meet(rows, meets);
            assert forall|i: int| 0 <= i < n implies !since((#[trigger] rows[i]).time, start) by {
                assert(!meets(rows[i]));
            }
            assert forall|i: int| n <= i < rows.len() implies since(
                (#[trigger] rows[i]).time,
                start,
            ) by {
                assert(meets(rows[i]));
            }
            n
        },
        None => {
            assert(rows.skip(0) =~= rows);
            0
        },
    }
}

/// Of rows in order of time, the series of a shorter time range is the end of the series of a longer
/// one.
pub proof fn shorter_range_shows_the_end_of_the_longer<V>(
    rows: Seq<ValueRowView<V>>,
    since: spec_fn(Seq<char>, int) -> bool,
    shorter: TimeRange,
    longer: TimeRange,
    now: int,
)
    requires
        ordered_by(rows, since),
        span(longer) matches Some(y) ==> (span(shorter) matches Some(x) && x <= y),
    ensures
        points_of(dated_rows(rows_in_range(rows, since, shorter, now))).is_suffix_of(
            points_of(dated_rows(rows_in_range(rows, since, longer, now))),
        ),
{
    let n = lemma_range_is_last_rows(rows, since, shorter, now);
    let m = lemma_range_is_last_rows(rows, since, longer, now);
    if m > n {
        let late = start_of(shorter, now)->0;
        let early = start_of(longer, now)->0;
        assert(since(rows[n].time, late));
        assert(!since(rows[n].time, early));
    }
    assert(m <= n);
    let extra = rows.subrange(m, n);
    assert(dated_rows(rows.skip(m)) =~= dated_rows(extra) + dated_rows(rows.skip(n)));
    points_of_parts_are_the_parts_points(dated_rows(extra), dated_rows(rows.skip(n)));
    let all = points_of(dated_rows(rows.skip(m)));
    let end = points_of(dated_rows(rows.skip(n)));
    assert(all.subrange(all.len() - end.len(), all.len() as int) =~= end);
}

/// A row of a city and state, with the station that it is stored under.
pub struct StationRow<V> {
    pub station: Seq<char>,
    pub row: DatedValue<V>,
}

/// The points of the rows, of whatever station.
pub open spec fn all_points<V>(rows: Seq<StationRow<V>>) -> Seq<Point<V>> {
    points_of(rows.map_values(|r: StationRow<V>| r.row))
}

/// The points of the rows of one station.
pub open spec fn station_points<V>(rows: Seq<StationRow<V>>, station: Seq<char>) -> Seq<Point<V>> {
    all_points(rows_meeting(rows, |r: StationRow<V>| r.station == station))
}

/// The points of the rows of each station, put together.
pub open spec fn points_by_station<V>(
    rows: Seq<StationRow<V>>,
    stations: Seq<Seq<char>>,
) -> Multiset<Point<V>>
    decreases stations.len(),
{
    if stations.len() == 0 {
        Multiset::empty()
    } else {
        points_by_station(rows, stations.drop_last()).add(
            station_points(rows, stations.last()).to_multiset(),
        )
    }
}

/// One more row gives its point, if it has one.
proof fn lemma_points_push<V>(rows: Seq<StationRow<V>>, r: StationRow<V>)
    ensures
        all_points(rows.push(r)) == match point_of(r.row) {
            Some(p) => all_points(rows).push(p),
            None => all_points(rows),
        },
{
    let value = |r: StationRow<V>| r.row;
    let point = |row: DatedValue<V>| point_of(row);
    let items = rows.push(r).map_values(value).map_values(point);
    assert(items.drop_last() =~= rows.map_values(value).map_values(point));
    assert(items.last() == point_of(r.row));
}

/// One more row adds its point to the station that it is stored under.
proof fn lemma_station_push<V>(rows: Seq<StationRow<V>>, stations: Seq<Seq<char>>)
    requires
        rows.len() > 0,
        stations.no_duplicates(),
    ensures
        points_by_station(rows, stations) == match point_of(rows.last().row) {
            Some(p) => if stations.contains(rows.last().station) {
                points_by_station(rows.drop_last(), stations).insert(p)
            } else {
                points_by_station(rows.drop_last(), stations)
            },
            None => points_by_station(rows.drop_last(), stations),
        },
    decreases stations.len(),
{
    broadcast use vstd::seq_lib::group_to_multiset_ensures;

    if stations.len() > 0 {
        let init = rows.drop_last();
        let last = rows.last();
        let others = stations.drop_last();
        let station = stations.last();
        assert(stations =~= others.push(station));
        lemma_station_push(rows, others);
        let of_station = |r: StationRow<V>| r.station == station;
        lemma_points_push(rows_meeting(init, of_station), last);
        assert(others.contains(last.station) ==> last.station != station);
        assert(stations.contains(last.station) <==> others.contains(last.station) || last.station
            == station) by {
            if others.contains(last.station) {
                let k = choose|k: int| 0 <= k < others.len() && others[k] == last.station;
                assert(stations[k] == last.station);
            }
            if last.station == station {
                assert(stations[stations.len() - 1] == last.station);
            }
        }
        assert(points_by_station(rows, stations) =~= match point_of(last.row) {
            Some(p) => if stations.contains(last.station) {
                points_by_station(init, stations).insert(p)
            } else {
                points_by_station(init, stations)
            },
            None => points_by_station(init, stations),
        });
    }
}

/// Without rows there are no points at any station.
proof fn lemma_no_rows_no_points<V>(rows: Seq<StationRow<V>>, stations: Seq<Seq<char>>)
    requires
        rows.len() == 0,
    ensures
        points_by_station(rows, stations) == Multiset::<Point<V>>::empty(),
    decreases stations.len(),
{
    broadcast use vstd::seq_lib::group_to_multiset_ensures;

    if stations.len() > 0 {
        lemma_no_rows_no_points(rows, stations.drop_last());
        assert(station_points(rows, stations.last()) =~= seq![]);
        assert(points_by_station(rows, stations) =~= Multiset::<Point<V>>::empty());
    }
}

/// No station chosen means all stations: the points of a city and state are those of its stations put
/// together, each of its own rows only.
pub proof fn no_station_gives_the_points_of_every_station<V>(
    rows: Seq<StationRow<V>>,
    stations: Seq<Seq<char>>,
)
    requires
        stations.no_duplicates(),
        forall|i: int| 0 <= i < rows.len() ==> stations.contains((#[trigger] rows[i]).station),
    ensures
        all_points(rows).to_multiset() == points_by_station(rows, stations),
    decreases rows.len(),
{
    broadcast use vstd::seq_lib::group_to_multiset_ensures;

    if rows.len() == 0 {
        lemma_no_rows_no_points(rows, stations);
        assert(all_points(rows) =~= seq![]);
        assert(all_points(rows).to_multiset() =~= Multiset::<Point<V>>::empty());
    } else {
        let init = rows.drop_last();
        assert(forall|i: int| 0 <= i < init.len() ==> init[i] == rows[i]);
        no_station_gives_the_points_of_every_station(init, stations);
        lemma_station_push(rows, stations);
        lemma_points_push(init, rows.last());
        assert(init.push(rows.last()) =~= rows);
        assert(stations.contains(rows[rows.len() - 1].station));
        assert(all_points(rows).to_multiset() =~= points_by_station(rows, stations));
    }
}

/// A row with its time read.
pub open spec fn dated<V>(row: ValueRowView<V>) -> DatedValue<V> {
    (timestamp_of(row.time), row.value)
}

/// Rows with their times read.
pub open spec fn dated_rows<V>(rows: Seq<ValueRowView<V>>) -> Seq<DatedValue<V>> {
    rows.map_values(|row: ValueRowView<V>| dated(row))
}

/// The points of a series of dated values.
pub fn points<V: Copy>(rows: &Vec<DatedValue<V>>) -> (r: Vec<Point<V>>)
    ensures
        r@ == points_of(rows@),
{
    let ghost all = rows@.map_values(|row: DatedValue<V>| point_of(row));
    let mut r: Vec<Point<V>> = Vec::new();
    let mut i: usize = 0;
    while i < rows.len()
        invariant
            i <= rows@.len(),
            all == rows@.map_values(|row: DatedValue<V>| point_of(row)),
            r@ == present(all.take(i as int)),
        decreases rows@.len() - i,
    {
        assert(all.take(i + 1).drop_last() =~= all.take(i as int));
        assert(all.take(i + 1).last() == point_of(rows@[i as int]));
        if let (Some(t), Some(v)) = rows[i] {
            r.push((t, v));
        }
        i += 1;
    }
    assert(all.take(i as int) =~= all);
    r
}

/// The points of a series of rows: one for each row whose time can be read and whose value is
/// there.
pub fn get_relative_humidity_data<V: Copy>(rows: &Vec<ValueRow<V>>) -> (r: Vec<Point<V>>)
    ensures
        r@ == points_of(dated_rows(value_rows(rows@))),
{
    let mut all: Vec<DatedValue<V>> = Vec::new();
    let mut i: usize = 0;
    while i < rows.len()
        invariant
            i <= rows@.len(),
            all@ == dated_rows(value_rows(rows@)).take(i as int),
        decreases rows@.len() - i,
    {
        all.push((timestamp(rows[i].time.as_str()), rows[i].value));
        i += 1;
        assert(all@ =~= dated_rows(value_rows(rows@)).take(i as int));
    }
    assert(all@ =~= dated_rows(value_rows(rows@)));
    points(&all)
}

/// A row with the time of an observation and two values.
pub struct PairRow<V> {
    pub time: String,
    pub temperature: Option<V>,
    pub dewpoint: Option<V>,
}

/// The temperatures of the rows.
pub open spec fn temperatures<V>(rows: Seq<PairRow<V>>) -> Seq<ValueRowView<V>> {
    Seq::new(
        rows.len(),
        |i: int| ValueRowView { time: rows[i].time@, value: rows[i].temperature },
    )
}

/// The dewpoints of the rows.
pub open spec fn dewpoints<V>(rows: Seq<PairRow<V>>) -> Seq<ValueRowView<V>> {
    Seq::new(rows.len(), |i: int| ValueRowView { time: rows[i].time@, value: rows[i].dewpoint })
}

/// The points of the temperatures and those of the dewpoints.
pub fn get_temp_and_dewpoint_data<V: Copy>(rows: &Vec<PairRow<V>>) -> (r: (
    Vec<Point<V>>,
    Vec<Point<V>>,
))
    ensures
        r.0@ == points_of(dated_rows(temperatures(rows@))),
        r.1@ == points_of(dated_rows(dewpoints(rows@))),
{
    let mut temps: Vec<DatedValue<V>> = Vec::new();
    let mut dews: Vec<DatedValue<V>> = Vec::new();
    let mut i: usize = 0;
    while i < rows.len()
        invariant
            i <= rows@.len(),
            temps@ == dated_rows(temperatures(rows@)).take(i as int),
            dews@ == dated_rows(dewpoints(rows@)).take(i as int),
        decreases rows@.len() - i,
    {
        let t = timestamp(rows[i].time.as_str());
        temps.push((t, rows[i].temperature));
        dews.push((t, rows[i].dewpoint));
        i += 1;
        assert(temps@ =~= dated_rows(temperatures(rows@)).take(i as int));
        assert(dews@ =~= dated_rows(dewpoints(rows@)).take(i as int));
    }
    assert(temps@ =~= dated_rows(temperatures(rows@)));
    assert(dews@ =~= dated_rows(dewpoints(rows@)));
    (points(&temps), points(&dews))
}

/// `parse` may read the text `word` as `r`.
pub open spec fn reads<V, F: Fn(&str) -> Option<V>>(
    parse: F,
    word: Seq<char>,
    r: Option<V>,
) -> bool {
    exists|s: &str| s@ == word && #[trigger] call_ensures(parse, (s,), r)
}

/// `r` is the reading of the first word that `parse` can read, and `None` where it can read none.
pub open spec fn first_reading<V, F: Fn(&str) -> Option<V>>(
    parse: F,
    words: Seq<Seq<char>>,
    r: Option<V>,
) -> bool {
    match r {
        Some(v) => exists|k: int|
            0 <= k < words.len() && reads(parse, #[trigger] words[k], Some(v)) && forall|j: int|
                0 <= j < k ==> reads(parse, #[trigger] words[j], None::<V>),
        None => forall|j: int|
            0 <= j < words.len() ==> reads(parse, #[trigger] words[j], None::<V>),
    }
}

/// `parse` can be called on every text.
pub open spec fn total<V, F: Fn(&str) -> Option<V>>(parse: F) -> bool {
    forall|s: &str| #[trigger] call_requires(parse, (s,))
}

/// The first word of `s` that `parse` can read.
pub fn parse_wind_speed<V, F: Fn(&str) -> Option<V>>(s: &str, parse: &F) -> (r: Option<V>)
    requires
        total(*parse),
    ensures
        first_reading(*parse, words(s@), r),
{
    let parts = split_words(s);
    let mut i: usize = 0;
    while i < parts.len()
        invariant
            i <= parts@.len(),
            texts(parts@) == words(s@),
            total(*parse),
            forall|j: int| 0 <= j < i ==> reads(*parse, #[trigger] words(s@)[j], None::<V>),
        decreases parts@.len() - i,
    {
        let word = parts[i].as_str();
        assert(word@ == words(s@)[i as int]);
        let v = parse(word);
        if v.is_some() {
            assert(reads(*parse, words(s@)[i as int], v));
            return v;
        }
        assert(reads(*parse, words(s@)[i as int], None::<V>));
        i += 1;
    }
    None
}

/// A row with the time of an observation and its wind as text.
pub struct WindRow {
    pub time: String,
    pub speed: Option<String>,
    pub direction: Option<String>,
}

/// The contents of a [`WindRow`].
#[verifier::ext_equal]
pub struct WindRowView {
    pub time: Seq<char>,
    pub speed: Option<Seq<char>>,
    pub direction: Option<Seq<char>>,
}

impl View for WindRow {
    type V = WindRowView;

    open spec fn view(&self) -> WindRowView {
        WindRowView {
            time: self.time@,
            speed: opt_text(self.speed),
            direction: opt_text(self.direction),
        }
    }
}

/// The contents of a list of rows.
pub open spec fn wind_rows(rows: Seq<WindRow>) -> Seq<WindRowView> {
    Seq::new(rows.len(), |i: int| rows[i]@)
}

/// `r` is the speed that a wind text tells of: the first word that `parse` can read.
pub open spec fn speed_reading<V, F: Fn(&str) -> Option<V>>(
    parse: F,
    speed: Option<Seq<char>>,
    r: Option<V>,
) -> bool {
    match speed {
        Some(t) => first_reading(parse, words(t), r),
        None => r is None,
    }
}

/// `r` is the direction that a wind text tells of: the text without the degree signs at its end.
pub open spec fn direction_reading<V, F: Fn(&str) -> Option<V>>(
    parse: F,
    direction: Option<Seq<char>>,
    r: Option<V>,
) -> bool {
    match direction {
        Some(t) => reads(parse, trimmed_end(t, '°'), r),
        None => r is None,
    }
}

/// `speeds` are the speeds that the rows tell of.
pub open spec fn speeds_of<V, F: Fn(&str) -> Option<V>>(
    parse: F,
    rows: Seq<WindRowView>,
    speeds: Seq<Option<V>>,
) -> bool {
    &&& speeds.len() == rows.len()
    &&& forall|i: int|
        0 <= i < rows.len() ==> speed_reading(parse, rows[i].speed, #[trigger] speeds[i])
}

/// The rows' times with the given values.
pub open spec fn with_values<V>(rows: Seq<WindRowView>, values: Seq<Option<V>>) -> Seq<
    DatedValue<V>,
> {
    Seq::new(rows.len(), |i: int| (timestamp_of(rows[i].time), values[i]))
}

fn read_speed<V, F: Fn(&str) -> Option<V>>(speed: &Option<String>, parse: &F) -> (r: Option<V>)
    requires
        total(*parse),
    ensures
        speed_reading(*parse, opt_text(*speed), r),
{
    match speed {
        Some(t) => parse_wind_speed(t.as_str(), parse),
        None => None,
    }
}

fn read_direction<V, F: Fn(&str) -> Option<V>>(direction: &Option<String>, parse: &F) -> (r: Option<
    V,
>)
    requires
        total(*parse),
    ensures
        direction_reading(*parse, opt_text(*direction), r),
{
    match direction {
        Some(t) => {
            let digits = trim_end_char(t.as_str(), '°');
            let r = parse(digits.as_str());
            assert(reads(*parse, digits@, r));
            r
        },
        None => None,
    }
}

/// The points of the wind speeds: one for each row whose time and whose speed can be read.
pub fn get_wind_speed_data<V: Copy, F: Fn(&str) -> Option<V>>(rows: &Vec<WindRow>, parse: &F) -> (r:
    Vec<Point<V>>)
    requires
        total(*parse),
    ensures
        exists|speeds: Seq<Option<V>>|
            #[trigger] speeds_of(*parse, wind_rows(rows@), speeds) && r@ == points_of(
                with_values(wind_rows(rows@), speeds),
            ),
{
    let ghost all = wind_rows(rows@);
    let ghost mut speeds: Seq<Option<V>> = seq![];
    let mut values: Vec<DatedValue<V>> = Vec::new();
    let mut i: usize = 0;
    while i < rows.len()
        invariant
            i <= rows@.len(),
            all == wind_rows(rows@),
            total(*parse),
            speeds_of(*parse, all.take(i as int), speeds),
            values@ == with_values(all.take(i as int), speeds),
        decreases rows@.len() - i,
    {
        let t = timestamp(rows[i].time.as_str());
        let v = read_speed(&rows[i].speed, parse);
        values.push((t, v));
        i += 1;
        proof {
            speeds = speeds.push(v);
            assert(all.take(i as int).drop_last() =~= all.take(i - 1));
            assert(all.take(i as int)[i - 1] == rows@[i - 1]@);
            assert(speeds_of(*parse, all.take(i as int), speeds));
            assert(values@ =~= with_values(all.take(i as int), speeds));
        }
    }
    assert(all.take(i as int) =~= all);
    points(&values)
}

/// The wind at one time: the second, the speed in miles per hour and the direction in degrees,
/// where it is known.
#[derive(Clone, Debug)]
pub struct WindObservation<V> {
    pub time: i64,
    pub speed: V,
    pub direction: Option<V>,
}

/// The observations that rows tell of are `r`: one for each row whose time can be read, with
/// `calm` for a speed that cannot be read.
pub open spec fn wind_series<V, F: Fn(&str) -> Option<V>>(
    parse: F,
    calm: V,
    rows: Seq<WindRowView>,
    r: Seq<WindObservation<V>>,
) -> bool
    decreases rows.len(),
{
    if rows.len() == 0 {
        r.len() == 0
    } else {
        match timestamp_of(rows.last().time) {
            Some(t) => {
                &&& r.len() > 0
                &&& r.last().time == t
                &&& exists|speed: Option<V>|
                    #[trigger] speed_reading(parse, rows.last().speed, speed) && r.last().speed == (
                    match speed {
                        Some(v) => v,
                        None => calm,
                    })
                &&& direction_reading(parse, rows.last().direction, r.last().direction)
                &&& wind_series(parse, calm, rows.drop_last(), r.drop_last())
            },
            None => wind_series(parse, calm, rows.drop_last(), r),
        }
    }
}

/// The wind observations that rows tell of.
pub fn get_wind_observations<V: Copy, F: Fn(&str) -> Option<V>>(
    rows: &Vec<WindRow>,
    calm: V,
    parse: &F,
) -> (r: Vec<WindObservation<V>>)
    requires
        total(*parse),
    ensures
        wind_series(*parse, calm, wind_rows(rows@), r@),
        forall|i: int|
            0 <= i < r@.len() ==> crate::clock::MIN_WRITTEN_TIME <= (#[trigger] r@[i]).time
                <= crate::clock::MAX_WRITTEN_TIME,
{
    let ghost all = wind_rows(rows@);
    let mut r: Vec<WindObservation<V>> = Vec::new();
    let mut i: usize = 0;
    while i < rows.len()
        invariant
            i <= rows@.len(),
            all == wind_rows(rows@),
            total(*parse),
            wind_series(*parse, calm, all.take(i as int), r@),
            forall|j: int|
                0 <= j < r@.len() ==> crate::clock::MIN_WRITTEN_TIME <= (#[trigger] r@[j]).time
                    <= crate::clock::MAX_WRITTEN_TIME,
        decreases rows@.len() - i,
    {
        let ghost before = r@;
        assert(all.take(i + 1).drop_last() =~= all.take(i as int));
        assert(all.take(i + 1).last() == rows@[i as int]@);
        if let Some(time) = timestamp(rows[i].time.as_str()) {
            let reading = read_speed(&rows[i].speed, parse);
            let speed = match reading {
                Some(v) => v,
                None => calm,
            };
            let direction = read_direction(&rows[i].direction, parse);
            r.push(WindObservation { time, speed, direction });
            assert(r@.drop_last() =~= before);
        }
        i += 1;
    }
    assert(all.take(i as int) =~= all);
    r
}

/// The points of a series are those of its rows one after the other: of no rows there are none, one
/// row gives a point at its own second with its own value, or none where its time cannot be read or
/// its value is missing, and two lists of rows give the points of the one and then those of the other.
pub proof fn humidity_points_are_those_of_each_row<V: Copy>(
    rows: Vec<ValueRow<V>>,
    first: Vec<ValueRow<V>>,
    second: Vec<ValueRow<V>>,
    r: Vec<Point<V>>,
    x: Vec<Point<V>>,
    y: Vec<Point<V>>,
)
    requires
        call_ensures(get_relative_humidity_data::<V>, (&rows,), r),
        call_ensures(get_relative_humidity_data::<V>, (&first,), x),
        call_ensures(get_relative_humidity_data::<V>, (&second,), y),
    ensures
        rows@.len() == 0 ==> r@.len() == 0,
        rows@.len() == 1 ==> single_point(rows@[0].time@, rows@[0].value, r@),
        rows@ == first@ + second@ ==> r@ == x@ + y@,
{
    let all = dated_rows(value_rows(rows@));
    if rows@.len() == 1 {
        assert(all =~= seq![(timestamp_of(rows@[0].time@), rows@[0].value)]);
        lemma_single_point(rows@[0].time@, rows@[0].value, all);
    }
    if rows@ == first@ + second@ {
        let a = dated_rows(value_rows(first@));
        let b = dated_rows(value_rows(second@));
        assert(all =~= a + b);
        points_of_parts_are_the_parts_points(a, b);
    }
}

/// `r` is the point at the written time with the value, or none where one of them is missing.
pub open spec fn single_point<V>(time: Seq<char>, value: Option<V>, r: Seq<Point<V>>) -> bool {
    if rfc3339_instant(time) is Some && value is Some {
        r.len() == 1 && r[0].0 == (rfc3339_instant(time)->0).0 && r[0].1 == value->0
    } else {
        r.len() == 0
    }
}

proof fn lemma_single_point<V>(time: Seq<char>, value: Option<V>, rows: Seq<DatedValue<V>>)
    requires
        rows == seq![(timestamp_of(time), value)],
    ensures
        single_point(time, value, points_of(rows)),
{
    let items = rows.map_values(|row: DatedValue<V>| point_of(row));
    assert(items.drop_last() =~= seq![]);
    assert(items.last() == point_of(rows[0]));
    assert(present(items.drop_last()) =~= seq![]);
}

/// The points of the temperatures are those that the temperatures alone would give, and the points of
/// the dewpoints those that the dewpoints alone would give.
pub proof fn temperatures_and_dewpoints_are_two_series<V: Copy>(
    rows: Vec<PairRow<V>>,
    temps: Vec<ValueRow<V>>,
    dews: Vec<ValueRow<V>>,
    r: (Vec<Point<V>>, Vec<Point<V>>),
    x: Vec<Point<V>>,
    y: Vec<Point<V>>,
)
    requires
        temps@.len() == rows@.len(),
        dews@.len() == rows@.len(),
        forall|i: int|
            0 <= i < rows@.len() ==> (#[trigger] temps@[i]).time@ == rows@[i].time@ && temps@[i].value
                == rows@[i].temperature,
        forall|i: int|
            0 <= i < rows@.len() ==> (#[trigger] dews@[i]).time@ == rows@[i].time@ && dews@[i].value
                == rows@[i].dewpoint,
        call_ensures(get_temp_and_dewpoint_data::<V>, (&rows,), r),
        call_ensures(get_relative_humidity_data::<V>, (&temps,), x),
        call_ensures(get_relative_humidity_data::<V>, (&dews,), y),
    ensures
        r.0@ == x@,
        r.1@ == y@,
{
    assert(dated_rows(temperatures(rows@)) =~= dated_rows(value_rows(temps@)));
    assert(dated_rows(dewpoints(rows@)) =~= dated_rows(value_rows(dews@)));
}

/// `parse` gives one reading of a text and always the same, that of `p`.
pub open spec fn parses_as<V, F: Fn(&str) -> Option<V>>(
    parse: F,
    p: spec_fn(Seq<char>) -> Option<V>,
) -> bool {
    forall|s: &str, v: Option<V>| #[trigger] call_ensures(parse, (s,), v) ==> v == p(s@)
}

/// `v` is what `p` reads in the first word that it can read, and `None` where it can read none.
pub open spec fn first_word_read<V>(
    p: spec_fn(Seq<char>) -> Option<V>,
    text: Seq<char>,
    v: Option<V>,
) -> bool {
    match v {
        Some(x) => exists|k: int|
            0 <= k < words(text).len() && p(#[trigger] words(text)[k]) == Some(x) && forall|j: int|
                0 <= j < k ==> p(#[trigger] words(text)[j]) is None,
        None => forall|j: int| 0 <= j < words(text).len() ==> p(#[trigger] words(text)[j]) is None,
    }
}

/// A wind speed is the reading of the first word that can be read.
pub proof fn wind_speed_is_the_first_number<V, F: Fn(&str) -> Option<V>>(
    s: &str,
    parse: F,
    p: spec_fn(Seq<char>) -> Option<V>,
    r: Option<V>,
)
    requires
        parses_as(parse, p),
        call_ensures(parse_wind_speed::<V, F>, (s, &parse), r),
    ensures
        first_word_read(p, s@, r),
{
    lemma_first_reading(parse, p, s@, r);
}

proof fn lemma_first_reading<V, F: Fn(&str) -> Option<V>>(
    parse: F,
    p: spec_fn(Seq<char>) -> Option<V>,
    text: Seq<char>,
    r: Option<V>,
)
    requires
        parses_as(parse, p),
        first_reading(parse, words(text), r),
    ensures
        first_word_read(p, text, r),
{
    let ws = words(text);
    assert forall|k: int, v: Option<V>| #[trigger]
        reads(parse, ws[k], v) implies v == p(ws[k]) by {
        let s = choose|s: &str| s@ == ws[k] && #[trigger] call_ensures(parse, (s,), v);
        assert(call_ensures(parse, (s,), v));
    }
    match r {
        Some(v) => {
            let k = choose|k: int|
                0 <= k < ws.len() && reads(parse, #[trigger] ws[k], Some(v)) && forall|j: int|
                    0 <= j < k ==> reads(parse, #[trigger] ws[j], None::<V>);
            assert(reads(parse, ws[k], Some(v)));
            assert forall|j: int| 0 <= j < k implies p(#[trigger] words(text)[j]) is None by {
                assert(reads(parse, ws[j], None::<V>));
            }
            assert(p(words(text)[k]) == Some(v));
        },
        None => {
            assert forall|j: int| 0 <= j < ws.len() implies p(#[trigger] words(text)[j]) is None by {
                assert(reads(parse, ws[j], None::<V>));
            }
        },
    }
}

/// No text has two first words that can be read.
proof fn lemma_first_word_is_one<V>(
    p: spec_fn(Seq<char>) -> Option<V>,
    text: Seq<char>,
    a: Option<V>,
    b: Option<V>,
)
    requires
        first_word_read(p, text, a),
        first_word_read(p, text, b),
    ensures
        a == b,
{
    let ws = words(text);
    if let Some(x) = a {
        let k = choose|k: int|
            0 <= k < ws.len() && p(#[trigger] ws[k]) == Some(x) && forall|j: int|
                0 <= j < k ==> p(#[trigger] ws[j]) is None;
        assert(p(ws[k]) is Some);
        if let Some(y) = b {
            let m = choose|m: int|
                0 <= m < ws.len() && p(#[trigger] ws[m]) == Some(y) && forall|j: int|
                    0 <= j < m ==> p(#[trigger] ws[j]) is None;
            assert(p(ws[m]) is Some);
            assert(k == m);
        }
    } else if let Some(y) = b {
        let m = choose|m: int|
            0 <= m < ws.len() && p(#[trigger] ws[m]) == Some(y) && forall|j: int|
                0 <= j < m ==> p(#[trigger] ws[j]) is None;
        assert(p(ws[m]) is Some);
    }
}

/// The speed that a wind text tells of: `None` where there is no text.
pub open spec fn speed_told<V>(
    p: spec_fn(Seq<char>) -> Option<V>,
    speed: Option<String>,
    v: Option<V>,
) -> bool {
    match speed {
        Some(t) => first_word_read(p, t@, v),
        None => v is None,
    }
}

proof fn lemma_speed_reading<V, F: Fn(&str) -> Option<V>>(
    parse: F,
    p: spec_fn(Seq<char>) -> Option<V>,
    speed: Option<String>,
    v: Option<V>,
)
    requires
        parses_as(parse, p),
        speed_reading(parse, opt_text(speed), v),
    ensures
        speed_told(p, speed, v),
{
    if let Some(t) = speed {
        lemma_first_reading(parse, p, t@, v);
    }
}

/// The points of the wind speeds are those of the rows one after the other: one row gives a point at
/// its own second with the speed that its own text tells of, or none where either cannot be read.
pub proof fn wind_speed_points_are_those_of_each_row<V: Copy, F: Fn(&str) -> Option<V>>(
    rows: Vec<WindRow>,
    first: Vec<WindRow>,
    second: Vec<WindRow>,
    parse: F,
    p: spec_fn(Seq<char>) -> Option<V>,
    r: Vec<Point<V>>,
    x: Vec<Point<V>>,
    y: Vec<Point<V>>,
)
    requires
        parses_as(parse, p),
        call_ensures(get_wind_speed_data::<V, F>, (&rows, &parse), r),
        call_ensures(get_wind_speed_data::<V, F>, (&first, &parse), x),
        call_ensures(get_wind_speed_data::<V, F>, (&second, &parse), y),
    ensures
        rows@.len() == 0 ==> r@.len() == 0,
        rows@.len() == 1 ==> exists|v: Option<V>| #[trigger]
            speed_told(p, rows@[0].speed, v) && single_point(rows@[0].time@, v, r@),
        rows@ == first@ + second@ ==> r@ == x@ + y@,
{
    let all = wind_rows(rows@);
    let a = wind_rows(first@);
    let b = wind_rows(second@);
    let s = choose|s: Seq<Option<V>>| #[trigger]
        speeds_of(parse, all, s) && r@ == points_of(with_values(all, s));
    let sa = choose|s: Seq<Option<V>>| #[trigger]
        speeds_of(parse, a, s) && x@ == points_of(with_values(a, s));
    let sb = choose|s: Seq<Option<V>>| #[trigger]
        speeds_of(parse, b, s) && y@ == points_of(with_values(b, s));
    if rows@.len() == 1 {
        assert(speed_reading(parse, all[0].speed, s[0]));
        lemma_speed_reading(parse, p, rows@[0].speed, s[0]);
        assert(with_values(all, s) =~= seq![(timestamp_of(rows@[0].time@), s[0])]);
        lemma_single_point(rows@[0].time@, s[0], with_values(all, s));
    }
    if rows@ == first@ + second@ {
        assert(all =~= a + b);
        assert forall|i: int| 0 <= i < all.len() implies s[i] == (sa + sb)[i] by {
            let speed = rows@[i].speed;
            assert(speed_reading(parse, all[i].speed, s[i]));
            lemma_speed_reading(parse, p, speed, s[i]);
            if i < a.len() {
                assert(speed_reading(parse, a[i].speed, sa[i]));
                assert(first@[i] == rows@[i]);
                lemma_speed_reading(parse, p, speed, sa[i]);
            } else {
                assert(speed_reading(parse, b[i - a.len()].speed, sb[i - a.len()]));
                assert(second@[i - a.len()] == rows@[i]);
                lemma_speed_reading(parse, p, speed, sb[i - a.len()]);
            }
            if let Some(t) = speed {
                lemma_first_word_is_one(p, t@, s[i], (sa + sb)[i]);
            }
        }
        assert(with_values(all, s) =~= with_values(a, sa) + with_values(b, sb));
        points_of_parts_are_the_parts_points(with_values(a, sa), with_values(b, sb));
    }
}

/// Where two lists of rows tell of observations each, the two together tell of the one list of
/// observations and then the other: no observation depends on another row than its own.
pub proof fn wind_rows_tell_of_their_own_observations<V, F: Fn(&str) -> Option<V>>(
    parse: F,
    calm: V,
    a: Seq<WindRowView>,
    x: Seq<WindObservation<V>>,
    b: Seq<WindRowView>,
    y: Seq<WindObservation<V>>,
)
    requires
        wind_series(parse, calm, a, x),
        wind_series(parse, calm, b, y),
    ensures
        wind_series(parse, calm, a + b, x + y),
    decreases b.len(),
{
    if b.len() == 0 {
        assert(a + b =~= a);
        assert(x + y =~= x);
    } else {
        assert((a + b).drop_last() =~= a + b.drop_last());
        assert((a + b).last() == b.last());
        match timestamp_of(b.last().time) {
            Some(t) => {
                wind_rows_tell_of_their_own_observations(
                    parse,
                    calm,
                    a,
                    x,
                    b.drop_last(),
                    y.drop_last(),
                );
                assert((x + y).drop_last() =~= x + y.drop_last());
                assert((x + y).last() == y.last());
            },
            None => {
                wind_rows_tell_of_their_own_observations(parse, calm, a, x, b.drop_last(), y);
            },
        }
    }
}

/// `o` is the observation of one row: at the row's own second, with the speed that its own text tells
/// of, or `calm` where it tells of none, and with the direction that its own text tells of before the
/// degree signs at its end, or none where the row has no direction.
pub open spec fn observed_in<V>(
    p: spec_fn(Seq<char>) -> Option<V>,
    calm: V,
    row: WindRow,
    o: WindObservation<V>,
) -> bool {
    &&& rfc3339_instant(row.time@) is Some
    &&& o.time == (rfc3339_instant(row.time@)->0).0
    &&& exists|v: Option<V>| #[trigger]
        speed_told(p, row.speed, v) && o.speed == (match v {
            Some(x) => x,
            None => calm,
        })
    &&& row.direction is None ==> o.direction is None
    &&& row.direction is Some ==> exists|n: int|
        0 <= n <= row.direction->0@.len() && (n == 0 || row.direction->0@[n - 1] != '°') && (
        forall|i: int|
            n <= i < row.direction->0@.len() ==> #[trigger] row.direction->0@[i] == '°')
            && o.direction == p(#[trigger] row.direction->0@.take(n))
}

/// The rows at `source` are, in order, those that the observations come from: each observation is
/// that of its own row, and every row whose time can be read has one.
pub open spec fn observed_at<V>(
    p: spec_fn(Seq<char>) -> Option<V>,
    calm: V,
    rows: Seq<WindRow>,
    obs: Seq<WindObservation<V>>,
    source: Seq<int>,
) -> bool {
    &&& source.len() == obs.len()
    &&& forall|i: int, j: int|
        0 <= i < j < source.len() ==> #[trigger] source[i] < #[trigger] source[j]
    &&& forall|i: int|
        0 <= i < source.len() ==> 0 <= #[trigger] source[i] < rows.len() && observed_in(
            p,
            calm,
            rows[source[i]],
            obs[i],
        )
    &&& forall|k: int|
        0 <= k < rows.len() && rfc3339_instant((#[trigger] rows[k]).time@) is Some
            ==> source.contains(k)
}

proof fn lemma_observed_in<V, F: Fn(&str) -> Option<V>>(
    parse: F,
    p: spec_fn(Seq<char>) -> Option<V>,
    calm: V,
    row: WindRow,
    o: WindObservation<V>,
    speed: Option<V>,
)
    requires
        parses_as(parse, p),
        timestamp_of(row.time@) == Some(o.time),
        speed_reading(parse, opt_text(row.speed), speed),
        o.speed == (match speed {
            Some(v) => v,
            None => calm,
        }),
        direction_reading(parse, opt_text(row.direction), o.direction),
    ensures
        observed_in(p, calm, row, o),
{
    lemma_speed_reading(parse, p, row.speed, speed);
    assert(speed_told(p, row.speed, speed));
    if let Some(d) = row.direction {
        lemma_trimmed_parts(d@, '°');
        let word = trimmed_end(d@, '°');
        let n = word.len() as int;
        let s = choose|s: &str| s@ == word && #[trigger] call_ensures(parse, (s,), o.direction);
        assert(call_ensures(parse, (s,), o.direction));
        assert(o.direction == p(d@.take(n)));
    }
}

proof fn lemma_sources<V, F: Fn(&str) -> Option<V>>(
    parse: F,
    p: spec_fn(Seq<char>) -> Option<V>,
    calm: V,
    rows: Seq<WindRow>,
    obs: Seq<WindObservation<V>>,
) -> (source: Seq<int>)
    requires
        parses_as(parse, p),
        wind_series(parse, calm, wind_rows(rows), obs),
    ensures
        observed_at(p, calm, rows, obs, source),
    decreases rows.len(),
{
    if rows.len() == 0 {
        seq![]
    } else {
        let init = rows.drop_last();
        let last = rows.last();
        assert(wind_rows(rows).drop_last() =~= wind_rows(init));
        assert(wind_rows(rows).last() == last@);
        match timestamp_of(last.time@) {
            Some(t) => {
                let before = lemma_sources(parse, p, calm, init, obs.drop_last());
                let speed = choose|speed: Option<V>| #[trigger]
                    speed_reading(parse, last@.speed, speed) && obs.last().speed == (match speed {
                        Some(v) => v,
                        None => calm,
                    });
                lemma_observed_in(parse, p, calm, last, obs.last(), speed);
                let source = before.push(init.len() as int);
                assert forall|i: int| 0 <= i < source.len() implies 0 <= #[trigger] source[i]
                    < rows.len() && observed_in(p, calm, rows[source[i]], obs[i]) by {
                    if i < before.len() {
                        assert(before[i] == source[i]);
                        assert(init[before[i]] == rows[source[i]]);
                        assert(obs.drop_last()[i] == obs[i]);
                    }
                }
                assert forall|k: int|
                    0 <= k < rows.len() && rfc3339_instant((#[trigger] rows[k]).time@)
                        is Some implies source.contains(k) by {
                    if k < init.len() {
                        assert(init[k] == rows[k]);
                        let i = choose|i: int| 0 <= i < before.len() && before[i] == k;
                        assert(source[i] == k);
                    } else {
                        assert(source[before.len() as int] == k);
                    }
                }
                source
            },
            None => {
                let source = lemma_sources(parse, p, calm, init, obs);
                assert forall|i: int| 0 <= i < source.len() implies 0 <= #[trigger] source[i]
                    < rows.len() && observed_in(p, calm, rows[source[i]], obs[i]) by {
                    assert(init[source[i]] == rows[source[i]]);
                }
                assert forall|k: int|
                    0 <= k < rows.len() && rfc3339_instant((#[trigger] rows[k]).time@)
                        is Some implies source.contains(k) by {
                    assert(k < init.len());
                    assert(init[k] == rows[k]);
                }
                source
            },
        }
    }
}

/// Each wind observation is that of one row alone, in the order of the rows, and every row whose time
/// can be read has its observation. A row without a direction gives an observation without one.
pub proof fn wind_observations_are_those_of_each_row<V: Copy, F: Fn(&str) -> Option<V>>(
    rows: Vec<WindRow>,
    calm: V,
    parse: F,
    p: spec_fn(Seq<char>) -> Option<V>,
    r: Vec<WindObservation<V>>,
)
    requires
        parses_as(parse, p),
        call_ensures(get_wind_observations::<V, F>, (&rows, calm, &parse), r),
    ensures
        exists|source: Seq<int>| #[trigger] observed_at(p, calm, rows@, r@, source),
{
    let source = lemma_sources(parse, p, calm, rows@, r@);
}

/// The points of dated values are those of each value alone: one value gives its point where both its
/// time and its value are there, and two lists give the points of the one and then of the other.
pub proof fn points_are_those_of_each_value<V: Copy>(
    rows: Vec<DatedValue<V>>,
    first: Vec<DatedValue<V>>,
    second: Vec<DatedValue<V>>,
    r: Vec<Point<V>>,
    x: Vec<Point<V>>,
    y: Vec<Point<V>>,
)
    requires
        call_ensures(points::<V>, (&rows,), r),
        call_ensures(points::<V>, (&first,), x),
        call_ensures(points::<V>, (&second,), y),
    ensures
        rows@.len() == 0 ==> r@.len() == 0,
        rows@.len() == 1 && rows@[0].0 is Some && rows@[0].1 is Some ==> r@.len() == 1 && r@[0].0
            == rows@[0].0->0 && r@[0].1 == rows@[0].1->0,
        rows@.len() == 1 && (rows@[0].0 is None || rows@[0].1 is None) ==> r@.len() == 0,
        rows@ == first@ + second@ ==> r@ == x@ + y@,
{
    if rows@.len() == 1 {
        let items = rows@.map_values(|row: DatedValue<V>| point_of(row));
        assert(items.drop_last() =~= seq![]);
        assert(items.last() == point_of(rows@[0]));
        assert(present(items.drop_last()) =~= seq![]);
    }
    if rows@ == first@ + second@ {
        points_of_parts_are_the_parts_points(first@, second@);
    }
}

} // verus!
