//! The statements that the application runs on its database, each with the values of its
//! parameters in order.
use vstd::prelude::*;

use crate::json::opt_text;
use crate::location::{copy_text, LocationResult, LocationView};
use crate::text::{decimal, decimal_text, join3, join5};

verus! {

/// The value of one parameter of a statement. `C` is the caller's type for real numbers.
pub enum Param<C> {
    Text(String),
    MaybeText(Option<String>),
    Integer(i64),
    Real(C),
    MaybeReal(Option<C>),
}

/// The contents of a [`Param`].
pub enum ParamView<C> {
    Text(Seq<char>),
    MaybeText(Option<Seq<char>>),
    Integer(i64),
    Real(C),
    MaybeReal(Option<C>),
}

impl<C> View for Param<C> {
    type V = ParamView<C>;

    open spec fn view(&self) -> ParamView<C> {
        match *self {
            Param::Text(t) => ParamView::Text(t@),
            Param::MaybeText(t) => ParamView::MaybeText(opt_text(t)),
            Param::Integer(n) => ParamView::Integer(n),
            Param::Real(x) => ParamView::Real(x),
            Param::MaybeReal(x) => ParamView::MaybeReal(x),
        }
    }
}

/// An SQL statement and the values of its parameters `?1`, `?2` and so on.
pub struct Statement<C> {
    pub sql: String,
    pub params: Vec<Param<C>>,
}

/// The contents of a [`Statement`].
#[verifier::ext_equal]
pub struct StatementView<C> {
    pub sql: Seq<char>,
    pub params: Seq<ParamView<C>>,
}

/// The contents of a list of parameter values.
pub open spec fn params_view<C>(params: Seq<Param<C>>) -> Seq<ParamView<C>> {
    Seq::new(params.len(), |i: int| params[i]@)
}

impl<C> View for Statement<C> {
    type V = StatementView<C>;

    open spec fn view(&self) -> StatementView<C> {
        StatementView { sql: self.sql@, params: params_view(self.params@) }
    }
}

/// A condition on rows: a text around the placeholder for a value.
#[verifier::ext_equal]
pub struct FilterView<C> {
    pub before: Seq<char>,
    pub after: Seq<char>,
    pub value: ParamView<C>,
}

/// The conditions as the `WHERE` clause of a statement. The placeholder of the k-th condition is
/// `?k`.
pub open spec fn where_clause<C>(filters: Seq<FilterView<C>>) -> Seq<char>
    decreases filters.len(),
{
    if filters.len() == 0 {
        seq![]
    } else {
        let lead = if filters.len() == 1 {
            " WHERE "@
        } else {
            " AND "@
        };
        where_clause(filters.drop_last()) + lead + filters.last().before + "?"@ + decimal(
            filters.len(),
        ) + filters.last().after
    }
}

/// The values of the conditions, in order.
pub open spec fn filter_values<C>(filters: Seq<FilterView<C>>) -> Seq<ParamView<C>> {
    filters.map_values(|f: FilterView<C>| f.value)
}

/// The statement that does `head` to the rows that meet `filters`, then `tail`.
pub open spec fn filtered<C>(
    head: Seq<char>,
    filters: Seq<FilterView<C>>,
    tail: Seq<char>,
) -> StatementView<C> {
    StatementView { sql: head + where_clause(filters) + tail, params: filter_values(filters) }
}

/// The k-th condition of a `WHERE` clause is followed by the placeholder `?k`, and the k-th
/// parameter is its value.
pub proof fn placeholder_stands_for_its_value<C>(filters: Seq<FilterView<C>>, k: int)
    requires
        1 <= k <= filters.len(),
    ensures
        filter_values(filters).len() == filters.len(),
        filter_values(filters)[k - 1] == filters[k - 1].value,
        exists|lead: Seq<char>, rest: Seq<char>|
            where_clause(filters) == #[trigger] (lead + filters[k - 1].before + "?"@ + decimal(
                k as nat,
            ) + filters[k - 1].after + rest),
    decreases filters.len(),
{
    let lead = if filters.len() == 1 {
        " WHERE "@
    } else {
        " AND "@
    };
    let last = filters.last();
    let fore = where_clause(filters.drop_last()) + lead;
    assert(where_clause(filters) =~= fore + last.before + "?"@ + decimal(filters.len())
        + last.after);
    if k == filters.len() {
        let rest = Seq::<char>::empty();
        assert(where_clause(filters) =~= fore + filters[k - 1].before + "?"@ + decimal(k as nat)
            + filters[k - 1].after + rest);
    } else {
        placeholder_stands_for_its_value(filters.drop_last(), k);
        let (pre, post) = choose|pre: Seq<char>, post: Seq<char>|
            where_clause(filters.drop_last()) == #[trigger] (pre + filters.drop_last()[k - 1].before
                + "?"@ + decimal(k as nat) + filters.drop_last()[k - 1].after + post);
        let rest = post + lead + last.before + "?"@ + decimal(filters.len()) + last.after;
        assert(where_clause(filters) =~= pre + filters[k - 1].before + "?"@ + decimal(k as nat)
            + filters[k - 1].after + rest);
    }
}

/// A condition with the placeholder in the middle of its text.
pub struct Filter<C> {
    pub before: &'static str,
    pub after: &'static str,
    pub value: Param<C>,
}

impl<C> View for Filter<C> {
    type V = FilterView<C>;

    open spec fn view(&self) -> FilterView<C> {
        FilterView { before: self.before@, after: self.after@, value: self.value@ }
    }
}

/// The contents of a list of conditions.
pub open spec fn filters_view<C>(filters: Seq<Filter<C>>) -> Seq<FilterView<C>> {
    Seq::new(filters.len(), |i: int| filters[i]@)
}

/// The statement that does `head` to the rows that meet `filters`, then `tail`.
pub fn filter_rows<C>(head: &str, filters: Vec<Filter<C>>, tail: &str) -> (r: Statement<C>)
    ensures
        r@ == filtered(head@, filters_view(filters@), tail@),
{
    let ghost all = filters_view(filters@);
    let count: usize = filters.len();
    let mut sql = head.to_owned();
    let mut params: Vec<Param<C>> = Vec::new();
    let mut n: u64 = 0;
    assert(all.take(0) =~= seq![]);
    assert(sql@ =~= head@ + where_clause(all.take(0)));
    assert(params_view(params@) =~= filter_values(all.take(0)));
    for f in it: filters
        invariant
            n == it.index(),
            it.seq().len() == count,
            all == filters_view(it.seq()),
            sql@ == head@ + where_clause(all.take(n as int)),
            params_view(params@) == filter_values(all.take(n as int)),
    {
        let ghost before = sql@;
        let ghost old_params = params@;
        n += 1;
        assert(all.take(n as int).drop_last() =~= all.take(n - 1));
        assert(all.take(n as int).last() == f@);
        if n == 1 {
            sql.append(" WHERE ");
        } else {
            sql.append(" AND ");
        }
        sql.append(f.before);
        sql.append("?");
        sql.append(decimal_text(n).as_str());
        sql.append(f.after);
        params.push(f.value);
        assert(sql@ =~= head@ + where_clause(all.take(n as int)));
        assert(params_view(params@) =~= params_view(old_params).push(f@.value));
        assert(filter_values(all.take(n as int)) =~= filter_values(all.take(n - 1)).push(f@.value));
    }
    assert(all.take(n as int) =~= all);
    sql.append(tail);
    Statement { sql, params }
}

/// A value for a column.
#[verifier::ext_equal]
pub struct FieldView<C> {
    pub column: Seq<char>,
    pub value: ParamView<C>,
}

/// The names of the columns, parted by commas.
pub open spec fn column_list<C>(fields: Seq<FieldView<C>>) -> Seq<char>
    decreases fields.len(),
{
    if fields.len() == 0 {
        seq![]
    } else if fields.len() == 1 {
        fields[0].column
    } else {
        column_list(fields.drop_last()) + ", "@ + fields.last().column
    }
}

/// The placeholders `?1` to `?n`, parted by commas.
pub open spec fn placeholder_list(n: nat) -> Seq<char>
    decreases n,
{
    if n == 0 {
        seq![]
    } else if n == 1 {
        "?1"@
    } else {
        placeholder_list((n - 1) as nat) + ", ?"@ + decimal(n)
    }
}

/// The values of the columns, in order.
pub open spec fn field_values<C>(fields: Seq<FieldView<C>>) -> Seq<ParamView<C>> {
    fields.map_values(|f: FieldView<C>| f.value)
}

/// The statement that does `head` with a new row of `fields`, then `tail`. The k-th column is
/// given `?k`.
pub open spec fn insertion<C>(
    head: Seq<char>,
    fields: Seq<FieldView<C>>,
    tail: Seq<char>,
) -> StatementView<C> {
    StatementView {
        sql: head + " ("@ + column_list(fields) + ") VALUES ("@ + placeholder_list(fields.len())
            + ")"@ + tail,
        params: field_values(fields),
    }
}

/// A value for a column.
pub struct Field<C> {
    pub column: &'static str,
    pub value: Param<C>,
}

impl<C> View for Field<C> {
    type V = FieldView<C>;

    open spec fn view(&self) -> FieldView<C> {
        FieldView { column: self.column@, value: self.value@ }
    }
}

/// The contents of a list of column values.
pub open spec fn fields_view<C>(fields: Seq<Field<C>>) -> Seq<FieldView<C>> {
    Seq::new(fields.len(), |i: int| fields[i]@)
}

/// The statement that does `head` with a new row of `fields`, then `tail`.
pub fn insert_row<C>(head: &str, fields: Vec<Field<C>>, tail: &str) -> (r: Statement<C>)
    ensures
        r@ == insertion(head@, fields_view(fields@), tail@),
{
    let ghost all = fields_view(fields@);
    let count: usize = fields.len();
    let mut columns = String::new();
    let mut places = String::new();
    let mut params: Vec<Param<C>> = Vec::new();
    let mut n: u64 = 0;
    assert(params_view(params@) =~= field_values(all.take(0)));
    for f in it: fields
        invariant
            n == it.index(),
            it.seq().len() == count,
            all == fields_view(it.seq()),
            columns@ == column_list(all.take(n as int)),
            places@ == placeholder_list(n as nat),
            params_view(params@) == field_values(all.take(n as int)),
    {
        let ghost old_params = params@;
        n += 1;
        assert(all.take(n as int).drop_last() =~= all.take(n - 1));
        assert(all.take(n as int).last() == f@);
        if n == 1 {
            columns = f.column.to_owned();
            places = "?1".to_owned();
        } else {
            columns.append(", ");
            columns.append(f.column);
            places.append(", ?");
            places.append(decimal_text(n).as_str());
        }
        params.push(f.value);
        assert(params_view(params@) =~= params_view(old_params).push(f@.value));
        assert(field_values(all.take(n as int)) =~= field_values(all.take(n - 1)).push(f@.value));
    }
    assert(all.take(n as int) =~= all);
    let mut sql = join5(head, " (", columns.as_str(), ") VALUES (", places.as_str());
    sql.append(")");
    sql.append(tail);
    Statement { sql, params }
}

/// The rows of a place: those of its city and state, and where a station is chosen, of that
/// station.
pub open spec fn place_filters<C>(
    city: Seq<char>,
    state: Seq<char>,
    station_id: Option<Seq<char>>,
) -> Seq<FilterView<C>> {
    let base = seq![
        FilterView { before: "city = "@, after: ""@, value: ParamView::Text(city) },
        FilterView { before: "state = "@, after: ""@, value: ParamView::Text(state) },
    ];
    match station_id {
        Some(s) => base.push(
            FilterView { before: "station_id = "@, after: ""@, value: ParamView::Text(s) },
        ),
        None => base,
    }
}

fn place<C>(city: &str, state: &str, station_id: Option<&str>) -> (r: Vec<Filter<C>>)
    ensures
        filters_view(r@) == place_filters::<C>(
            city@,
            state@,
            match station_id {
                Some(s) => Some(s@),
                None => None,
            },
        ),
{
    let mut r: Vec<Filter<C>> = Vec::new();
    r.push(Filter { before: "city = ", after: "", value: Param::Text(city.to_owned()) });
    r.push(Filter { before: "state = ", after: "", value: Param::Text(state.to_owned()) });
    if let Some(s) = station_id {
        r.push(Filter { before: "station_id = ", after: "", value: Param::Text(s.to_owned()) });
    }
    assert(filters_view(r@) =~= place_filters::<C>(
        city@,
        state@,
        match station_id {
            Some(s) => Some(s@),
            None => None,
        },
    ));
    r
}

/// The rows of a place.
pub open spec fn location_filters<C>(loc: LocationView<C>) -> Seq<FilterView<C>> {
    place_filters(loc.city, loc.state, loc.station_id)
}

fn location_rows<C>(loc: &LocationResult<C>) -> (r: Vec<Filter<C>>)
    ensures
        filters_view(r@) == location_filters(loc@),
{
    let station_id = match &loc.station_id {
        Some(s) => Some(s.as_str()),
        None => None,
    };
    place(loc.city.as_str(), loc.state.as_str(), station_id)
}

/// The rows of a place, from `start` on where it is given.
pub open spec fn series_filters<C>(loc: LocationView<C>, start: Option<i64>) -> Seq<FilterView<C>> {
    match start {
        Some(t) => location_filters(loc).push(
            FilterView {
                before: "observation_time >= datetime("@,
                after: ", 'unixepoch')"@,
                value: ParamView::Integer(t),
            },
        ),
        None => location_filters(loc),
    }
}

/// The query for the given columns of a place's observations in order of time.
pub open spec fn series_query_of<C>(
    columns: Seq<char>,
    loc: LocationView<C>,
    start: Option<i64>,
) -> StatementView<C> {
    filtered(
        "SELECT observation_time, "@ + columns + " FROM hourly_forecasts"@,
        series_filters(loc, start),
        " ORDER BY observation_time ASC"@,
    )
}

fn series_query<C>(columns: &str, loc: &LocationResult<C>, start: Option<i64>) -> (r: Statement<C>)
    ensures
        r@ == series_query_of(columns@, loc@, start),
{
    let mut filters = location_rows(loc);
    let ghost base = filters@;
    if let Some(t) = start {
        filters.push(
            Filter {
                before: "observation_time >= datetime(",
                after: ", 'unixepoch')",
                value: Param::Integer(t),
            },
        );
        assert(filters_view(filters@) =~= filters_view(base).push(filters@.last()@));
    }
    assert(filters_view(filters@) == series_filters(loc@, start));
    let head = join3("SELECT observation_time, ", columns, " FROM hourly_forecasts");
    filter_rows(head.as_str(), filters, " ORDER BY observation_time ASC")
}

/// The query for temperatures and dewpoints.
pub fn temperature_query<C>(loc: &LocationResult<C>, start: Option<i64>) -> (r: Statement<C>)
    ensures
        r@ == series_query_of("temperature, dewpoint"@, loc@, start),
{
    series_query("temperature, dewpoint", loc, start)
}

/// The query for wind speeds.
pub fn wind_speed_query<C>(loc: &LocationResult<C>, start: Option<i64>) -> (r: Statement<C>)
    ensures
        r@ == series_query_of("wind_speed"@, loc@, start),
{
    series_query("wind_speed", loc, start)
}

/// The query for relative humidities.
pub fn humidity_query<C>(loc: &LocationResult<C>, start: Option<i64>) -> (r: Statement<C>)
    ensures
        r@ == series_query_of("relative_humidity"@, loc@, start),
{
    series_query("relative_humidity", loc, start)
}

/// The query for the first 500 wind observations of a place.
pub fn wind_query<C>(loc: &LocationResult<C>) -> (r: Statement<C>)
    ensures
        r@ == filtered(
            "SELECT observation_time, wind_speed, wind_direction FROM hourly_forecasts"@,
            location_filters(loc@),
            " ORDER BY observation_time ASC LIMIT 500"@,
        ),
{
    filter_rows(
        "SELECT observation_time, wind_speed, wind_direction FROM hourly_forecasts",
        location_rows(loc),
        " ORDER BY observation_time ASC LIMIT 500",
    )
}

/// The query for what is held of a place.
pub fn coverage_query<C>(loc: &LocationResult<C>) -> (r: Statement<C>)
    ensures
        r@ == filtered(
            "SELECT station_id, COUNT(*), MIN(observation_time), MAX(observation_time) FROM hourly_forecasts"@,
            location_filters(loc@),
            ""@,
        ),
{
    filter_rows(
        "SELECT station_id, COUNT(*), MIN(observation_time), MAX(observation_time) FROM hourly_forecasts",
        location_rows(loc),
        "",
    )
}

/// The rows of a city and state, of every station.
pub open spec fn town_filters<C>(city: Seq<char>, state: Seq<char>) -> Seq<FilterView<C>> {
    place_filters(city, state, None)
}

/// The query for the time of the last collection at a place.
pub fn latest_collection_query<C>(city: &str, state: &str) -> (r: Statement<C>)
    ensures
        r@ == filtered::<C>(
            "SELECT MAX(collected_at) FROM hourly_forecasts"@,
            town_filters(city@, state@),
            ""@,
        ),
{
    filter_rows(
        "SELECT MAX(collected_at) FROM hourly_forecasts",
        place(city, state, None),
        "",
    )
}

/// The columns of an export, in order.
pub const EXPORT_COLUMNS: &'static str = "start_time, temperature, dewpoint, relative_humidity, wind_speed, wind_direction, short_forecast";

/// The rows that one collection at a place brought.
pub open spec fn collection_filters<C>(
    city: Seq<char>,
    state: Seq<char>,
    collected_at: i64,
) -> Seq<FilterView<C>> {
    town_filters(city, state).push(
        FilterView {
            before: "collected_at = "@,
            after: ""@,
            value: ParamView::Integer(collected_at),
        },
    )
}

/// The query for the rows that the collection at `collected_at` brought.
pub fn export_query<C>(city: &str, state: &str, collected_at: i64) -> (r: Statement<C>)
    ensures
        r@ == filtered::<C>(
            "SELECT "@ + EXPORT_COLUMNS@ + " FROM hourly_forecasts"@,
            collection_filters(city@, state@, collected_at),
            " ORDER BY start_time ASC"@,
        ),
{
    let mut filters = place::<C>(city, state, None);
    let ghost base = filters@;
    filters.push(
        Filter { before: "collected_at = ", after: "", value: Param::Integer(collected_at) },
    );
    assert(filters_view(filters@) =~= filters_view(base).push(filters@.last()@));
    let head = join3("SELECT ", EXPORT_COLUMNS, " FROM hourly_forecasts");
    filter_rows(head.as_str(), filters, " ORDER BY start_time ASC")
}

/// The query for the known coordinates of a city and state.
pub fn cache_query<C>(city: &str, state: &str) -> (r: Statement<C>)
    ensures
        r@ == filtered::<C>(
            "SELECT lat, lon FROM validated_locations"@,
            town_filters(city@, state@),
            " LIMIT 1"@,
        ),
{
    filter_rows(
        "SELECT lat, lon FROM validated_locations",
        place(city, state, None),
        " LIMIT 1",
    )
}

/// The query for the kept places, the last validated first.
pub fn locations_query<C>() -> (r: Statement<C>)
    ensures
        r@ == filtered::<C>(
            "SELECT city, state, lat, lon, station_id FROM validated_locations"@,
            seq![],
            " ORDER BY last_validated DESC"@,
        ),
{
    let filters: Vec<Filter<C>> = Vec::new();
    assert(filters_view(filters@) =~= seq![]);
    filter_rows(
        "SELECT city, state, lat, lon, station_id FROM validated_locations",
        filters,
        " ORDER BY last_validated DESC",
    )
}

/// What to do where a place is kept already: take its new coordinates and time.
pub const ON_KNOWN_PLACE: &'static str = " ON CONFLICT(city, state, station_id) DO UPDATE SET lat = excluded.lat, lon = excluded.lon, last_validated = excluded.last_validated";

/// The column values of a kept place.
pub open spec fn place_fields<C>(loc: LocationView<C>, timestamp: i64) -> Seq<FieldView<C>> {
    seq![
        FieldView { column: "city"@, value: ParamView::Text(loc.city) },
        FieldView { column: "state"@, value: ParamView::Text(loc.state) },
        FieldView { column: "lat"@, value: ParamView::Real(loc.lat) },
        FieldView { column: "lon"@, value: ParamView::Real(loc.lon) },
        FieldView { column: "station_id"@, value: ParamView::MaybeText(loc.station_id) },
        FieldView { column: "last_validated"@, value: ParamView::Integer(timestamp) },
    ]
}

/// The statement that keeps a place, or renews it where it is kept already.
pub fn save_validated_location<C: Copy>(loc: &LocationResult<C>, timestamp: i64) -> (r: Statement<
    C,
>)
    ensures
        r@ == insertion(
            "INSERT INTO validated_locations"@,
            place_fields(loc@, timestamp),
            ON_KNOWN_PLACE@,
        ),
{
    let mut fields: Vec<Field<C>> = Vec::new();
    fields.push(Field { column: "city", value: Param::Text(loc.city.clone()) });
    fields.push(Field { column: "state", value: Param::Text(loc.state.clone()) });
    fields.push(Field { column: "lat", value: Param::Real(loc.lat) });
    fields.push(Field { column: "lon", value: Param::Real(loc.lon) });
    fields.push(
        Field { column: "station_id", value: Param::MaybeText(copy_text(&loc.station_id)) },
    );
    fields.push(Field { column: "last_validated", value: Param::Integer(timestamp) });
    assert(fields_view(fields@) =~= place_fields(loc@, timestamp));
    insert_row("INSERT INTO validated_locations", fields, ON_KNOWN_PLACE)
}

/// The statement that drops a kept place: the one with that station, or where no station is given,
/// every one of that city and state.
pub fn delete_validated_location<C>(city: &str, state: &str, station_id: Option<&str>) -> (r:
    Statement<C>)
    ensures
        r@ == filtered::<C>(
            "DELETE FROM validated_locations"@,
            place_filters(
                city@,
                state@,
                match station_id {
                    Some(s) => Some(s@),
                    None => None,
                },
            ),
            ""@,
        ),
{
    filter_rows("DELETE FROM validated_locations", place(city, state, station_id), "")
}

/// One observation as it is stored: temperatures in degrees Fahrenheit, the wind as text.
pub struct StoredObservation<C> {
    pub time: String,
    pub temperature: Option<C>,
    pub dewpoint: Option<C>,
    pub humidity: Option<C>,
    pub wind_speed: Option<String>,
    pub wind_direction: Option<String>,
}

/// The contents of a [`StoredObservation`].
#[verifier::ext_equal]
pub struct StoredObservationView<C> {
    pub time: Seq<char>,
    pub temperature: Option<C>,
    pub dewpoint: Option<C>,
    pub humidity: Option<C>,
    pub wind_speed: Option<Seq<char>>,
    pub wind_direction: Option<Seq<char>>,
}

impl<C> View for StoredObservation<C> {
    type V = StoredObservationView<C>;

    open spec fn view(&self) -> StoredObservationView<C> {
        StoredObservationView {
            time: self.time@,
            temperature: self.temperature,
            dewpoint: self.dewpoint,
            humidity: self.humidity,
            wind_speed: opt_text(self.wind_speed),
            wind_direction: opt_text(self.wind_direction),
        }
    }
}

/// The column values of a stored observation.
pub open spec fn observation_fields<C>(
    city: Seq<char>,
    state: Seq<char>,
    station: Seq<char>,
    obs: StoredObservationView<C>,
    collected_at: i64,
) -> Seq<FieldView<C>> {
    seq![
        FieldView { column: "city"@, value: ParamView::Text(city) },
        FieldView { column: "state"@, value: ParamView::Text(state) },
        FieldView { column: "station_id"@, value: ParamView::Text(station) },
        FieldView { column: "observation_time"@, value: ParamView::Text(obs.time) },
        FieldView { column: "temperature"@, value: ParamView::MaybeReal(obs.temperature) },
        FieldView { column: "dewpoint"@, value: ParamView::MaybeReal(obs.dewpoint) },
        FieldView { column: "relative_humidity"@, value: ParamView::MaybeReal(obs.humidity) },
        FieldView { column: "wind_speed"@, value: ParamView::MaybeText(obs.wind_speed) },
        FieldView { column: "wind_direction"@, value: ParamView::MaybeText(obs.wind_direction) },
        FieldView { column: "collected_at"@, value: ParamView::Integer(collected_at) },
    ]
}

/// Two parameters hold the same value.
pub open spec fn same_value<C>(a: ParamView<C>, b: ParamView<C>) -> bool {
    ||| a == b
    ||| a matches ParamView::Text(t) && b == ParamView::<C>::MaybeText(Some(t))
}

/// A row of `fields` meets a condition on one of its columns.
pub open spec fn met_by<C>(filter: FilterView<C>, fields: Seq<FieldView<C>>) -> bool {
    exists|k: int|
        0 <= k < fields.len() && filter.before == (#[trigger] fields[k]).column + " = "@
            && filter.after == ""@ && same_value(filter.value, fields[k].value)
}

proof fn lemma_conditions()
    ensures
        "city = "@ == "city"@ + " = "@,
        "state = "@ == "state"@ + " = "@,
        "station_id = "@ == "station_id"@ + " = "@,
        "collected_at = "@ == "collected_at"@ + " = "@,
{
    reveal_strlit("city = ");
    reveal_strlit("city");
    reveal_strlit("state = ");
    reveal_strlit("state");
    reveal_strlit("station_id = ");
    reveal_strlit("station_id");
    reveal_strlit("collected_at = ");
    reveal_strlit("collected_at");
    reveal_strlit(" = ");
    assert("city = "@ =~= "city"@ + " = "@);
    assert("state = "@ =~= "state"@ + " = "@);
    assert("station_id = "@ =~= "station_id"@ + " = "@);
    assert("collected_at = "@ =~= "collected_at"@ + " = "@);
}

/// An observation that was stored for a place and a station meets every condition of the queries
/// for that place, with that station or with none chosen, and those of the export of its
/// collection.
pub proof fn stored_observation_is_asked_for<C>(
    loc: LocationView<C>,
    station: Seq<char>,
    obs: StoredObservationView<C>,
    collected_at: i64,
    i: int,
)
    requires
        loc.station_id is None || loc.station_id == Some(station),
    ensures
        0 <= i < location_filters(loc).len() ==> met_by(
            location_filters(loc)[i],
            observation_fields(loc.city, loc.state, station, obs, collected_at),
        ),
        0 <= i < collection_filters::<C>(loc.city, loc.state, collected_at).len() ==> met_by(
            collection_filters::<C>(loc.city, loc.state, collected_at)[i],
            observation_fields(loc.city, loc.state, station, obs, collected_at),
        ),
{
    lemma_conditions();
    let fields = observation_fields(loc.city, loc.state, station, obs, collected_at);
    assert(fields[0].column == "city"@);
    assert(fields[1].column == "state"@);
    assert(fields[2].column == "station_id"@);
    assert(fields[9].column == "collected_at"@);
}

/// A kept place meets every condition under which it is looked up, and every condition under which
/// it is dropped.
pub proof fn kept_place_is_found_and_dropped<C>(loc: LocationView<C>, timestamp: i64, i: int)
    ensures
        0 <= i < town_filters::<C>(loc.city, loc.state).len() ==> met_by(
            town_filters::<C>(loc.city, loc.state)[i],
            place_fields(loc, timestamp),
        ),
        0 <= i < location_filters(loc).len() ==> met_by(
            location_filters(loc)[i],
            place_fields(loc, timestamp),
        ),
{
    lemma_conditions();
    let fields = place_fields(loc, timestamp);
    assert(fields[0].column == "city"@);
    assert(fields[1].column == "state"@);
    assert(fields[4].column == "station_id"@);
    if let Some(s) = loc.station_id {
        assert(fields[4].value == ParamView::<C>::MaybeText(Some(s)));
    }
}

/// The same observation collected again differs from the first in the time of its collection alone,
/// which is no part of what makes a stored observation unique.
pub proof fn repeated_observation_differs_in_its_collection_only<C>(
    city: Seq<char>,
    state: Seq<char>,
    station: Seq<char>,
    obs: StoredObservationView<C>,
    first: i64,
    again: i64,
    k: int,
)
    requires
        0 <= k < observation_fields(city, state, station, obs, first).len(),
        observation_fields(city, state, station, obs, first)[k].column != "collected_at"@,
    ensures
        observation_fields(city, state, station, obs, first)[k] == observation_fields(
            city,
            state,
            station,
            obs,
            again,
        )[k],
{
    assert(observation_fields(city, state, station, obs, first)[9].column == "collected_at"@);
}

/// The columns that are read of a kept place are those that it was kept under, in the same order: the
/// city, the state, the coordinates and the station.
pub proof fn kept_place_is_read_in_its_columns<C>(loc: LocationView<C>, timestamp: i64)
    ensures
        column_list(place_fields(loc, timestamp).take(5)) == "city, state, lat, lon, station_id"@,
        "SELECT city, state, lat, lon, station_id FROM validated_locations"@ == "SELECT "@
            + column_list(place_fields(loc, timestamp).take(5)) + " FROM validated_locations"@,
        "SELECT lat, lon FROM validated_locations"@ == "SELECT "@ + column_list(
            place_fields(loc, timestamp).subrange(2, 4),
        ) + " FROM validated_locations"@,
        field_values(place_fields(loc, timestamp).take(5)) == seq![
            ParamView::Text(loc.city),
            ParamView::Text(loc.state),
            ParamView::Real(loc.lat),
            ParamView::Real(loc.lon),
            ParamView::MaybeText(loc.station_id),
        ],
{
    reveal_strlit("city");
    reveal_strlit("state");
    reveal_strlit("lat");
    reveal_strlit("lon");
    reveal_strlit("station_id");
    reveal_strlit(", ");
    reveal_strlit("SELECT ");
    reveal_strlit(" FROM validated_locations");
    reveal_strlit("city, state, lat, lon, station_id");
    reveal_strlit("SELECT city, state, lat, lon, station_id FROM validated_locations");
    reveal_strlit("SELECT lat, lon FROM validated_locations");
    let fields = place_fields(loc, timestamp);
    assert(fields.take(5).drop_last() =~= fields.take(4));
    assert(fields.take(4).drop_last() =~= fields.take(3));
    assert(fields.take(3).drop_last() =~= fields.take(2));
    assert(fields.take(2).drop_last() =~= fields.take(1));
    assert(column_list(fields.take(1)) == "city"@);
    assert(column_list(fields.take(2)) == "city"@ + ", "@ + "state"@);
    assert(column_list(fields.take(3)) == "city"@ + ", "@ + "state"@ + ", "@ + "lat"@);
    assert(column_list(fields.take(4)) == "city"@ + ", "@ + "state"@ + ", "@ + "lat"@ + ", "@
        + "lon"@);
    assert(column_list(fields.take(5)) =~= "city, state, lat, lon, station_id"@);
    let coordinates = fields.subrange(2, 4);
    assert(coordinates.drop_last() =~= fields.subrange(2, 3));
    assert(column_list(fields.subrange(2, 3)) == "lat"@);
    assert(column_list(coordinates) == "lat"@ + ", "@ + "lon"@);
    assert("SELECT lat, lon FROM validated_locations"@ =~= "SELECT "@ + column_list(coordinates)
        + " FROM validated_locations"@);
    assert("SELECT city, state, lat, lon, station_id FROM validated_locations"@ =~= "SELECT "@
        + column_list(fields.take(5)) + " FROM validated_locations"@);
}

/// Where no station is chosen, the conditions on a place are the first of those with a station, so
/// they hold of the rows of every station.
pub proof fn no_station_stands_for_every_station<C>(
    city: Seq<char>,
    state: Seq<char>,
    station: Seq<char>,
)
    ensures
        place_filters::<C>(city, state, None).is_prefix_of(
            place_filters::<C>(city, state, Some(station)),
        ),
{
}

/// The statement that stores an observation unless it is stored already.
pub fn insert_observation<C: Copy>(
    city: &str,
    state: &str,
    station: &str,
    obs: &StoredObservation<C>,
    collected_at: i64,
) -> (r: Statement<C>)
    ensures
        r@ == insertion(
            "INSERT OR IGNORE INTO hourly_forecasts"@,
            observation_fields(city@, state@, station@, obs@, collected_at),
            ""@,
        ),
{
    let mut fields: Vec<Field<C>> = Vec::new();
    fields.push(Field { column: "city", value: Param::Text(city.to_owned()) });
    fields.push(Field { column: "state", value: Param::Text(state.to_owned()) });
    fields.push(Field { column: "station_id", value: Param::Text(station.to_owned()) });
    fields.push(Field { column: "observation_time", value: Param::Text(obs.time.clone()) });
    fields.push(Field { column: "temperature", value: Param::MaybeReal(obs.temperature) });
    fields.push(Field { column: "dewpoint", value: Param::MaybeReal(obs.dewpoint) });
    fields.push(Field { column: "relative_humidity", value: Param::MaybeReal(obs.humidity) });
    fields.push(
        Field { column: "wind_speed", value: Param::MaybeText(copy_text(&obs.wind_speed)) },
    );
    fields.push(
        Field { column: "wind_direction", value: Param::MaybeText(copy_text(&obs.wind_direction)) },
    );
    fields.push(Field { column: "collected_at", value: Param::Integer(collected_at) });
    assert(fields_view(fields@) =~= observation_fields(
        city@,
        state@,
        station@,
        obs@,
        collected_at,
    ));
    insert_row("INSERT OR IGNORE INTO hourly_forecasts", fields, "")
}

/// The table of kept places. A place may be kept once for each station.
pub const CREATE_LOCATIONS: &'static str = "CREATE TABLE IF NOT EXISTS validated_locations (id INTEGER PRIMARY KEY, city TEXT NOT NULL, state TEXT NOT NULL, lat REAL NOT NULL, lon REAL NOT NULL, station_id TEXT, last_validated INTEGER NOT NULL, UNIQUE(city, state, station_id))";

/// The station column of a table of kept places made without one.
pub const ADD_STATION: &'static str = "ALTER TABLE validated_locations ADD COLUMN station_id TEXT";

/// The table of observations. A station's observation at one time is stored once for each place.
pub const CREATE_FORECASTS: &'static str = "CREATE TABLE IF NOT EXISTS hourly_forecasts (id INTEGER PRIMARY KEY, city TEXT NOT NULL, state TEXT NOT NULL, station_id TEXT, observation_time TEXT, start_time TEXT, temperature REAL, dewpoint REAL, relative_humidity REAL, wind_speed TEXT, wind_direction TEXT, pop REAL, short_forecast TEXT, collected_at INTEGER NOT NULL, UNIQUE(observation_time, station_id, city, state))";

/// A change that prepares the database.
#[derive(Clone, Copy, PartialEq, Eq, Structural, Debug)]
pub enum SchemaChange {
    /// The table of kept places is made, unless it exists.
    Locations,
    /// The table of kept places is given a column for the station.
    StationColumn,
    /// The table of observations is made, unless it exists.
    Forecasts,
}

/// A change that prepares the database, the statement that makes it, and whether preparation goes on
/// where it fails.
pub struct SchemaStep {
    pub change: SchemaChange,
    pub sql: &'static str,
    pub may_fail: bool,
}

/// The statements that prepare the database, in order. Only the one that adds the station column
/// may fail, since that column mostly exists.
pub open spec fn preparation() -> Seq<SchemaStep> {
    seq![
        SchemaStep { change: SchemaChange::Locations, sql: CREATE_LOCATIONS, may_fail: false },
        SchemaStep { change: SchemaChange::StationColumn, sql: ADD_STATION, may_fail: true },
        SchemaStep { change: SchemaChange::Forecasts, sql: CREATE_FORECASTS, may_fail: false },
    ]
}

/// The statements that prepare the database, in order.
pub fn init_database() -> (r: Vec<SchemaStep>)
    ensures
        r@ == preparation(),
{
    let mut r: Vec<SchemaStep> = Vec::new();
    r.push(
        SchemaStep { change: SchemaChange::Locations, sql: CREATE_LOCATIONS, may_fail: false },
    );
    r.push(
        SchemaStep { change: SchemaChange::StationColumn, sql: ADD_STATION, may_fail: true },
    );
    r.push(
        SchemaStep { change: SchemaChange::Forecasts, sql: CREATE_FORECASTS, may_fail: false },
    );
    r
}

/// Only rows of the place are asked for: a row that meets every condition on a place is of its city,
/// of its state and, where a station is chosen, of that station.
pub proof fn only_rows_of_the_place_are_asked_for<C>(
    loc: LocationView<C>,
    city: Seq<char>,
    state: Seq<char>,
    station: Seq<char>,
    obs: StoredObservationView<C>,
    collected_at: i64,
)
    requires
        forall|i: int|
            0 <= i < location_filters(loc).len() ==> met_by(
                #[trigger] location_filters(loc)[i],
                observation_fields(city, state, station, obs, collected_at),
            ),
    ensures
        city == loc.city,
        state == loc.state,
        loc.station_id is Some ==> loc.station_id->0 == station,
{
    lemma_conditions();
    let fs = location_filters(loc);
    let fields = observation_fields(city, state, station, obs, collected_at);
    assert(met_by(fs[0], fields));
    assert(met_by(fs[1], fields));
    lemma_met_in_its_column(fs[0], city, state, station, obs, collected_at, 0);
    lemma_met_in_its_column(fs[1], city, state, station, obs, collected_at, 1);
    if loc.station_id is Some {
        assert(met_by(fs[2], fields));
        lemma_met_in_its_column(fs[2], city, state, station, obs, collected_at, 2);
    }
}

/// Only rows of one collection are exported: a row that meets every condition of an export is of its
/// city, of its state and of the collection at that time.
pub proof fn only_rows_of_the_collection_are_exported<C>(
    city: Seq<char>,
    state: Seq<char>,
    collected_at: i64,
    city2: Seq<char>,
    state2: Seq<char>,
    station: Seq<char>,
    obs: StoredObservationView<C>,
    collected_at2: i64,
)
    requires
        forall|i: int|
            0 <= i < collection_filters::<C>(city, state, collected_at).len() ==> met_by(
                #[trigger] collection_filters::<C>(city, state, collected_at)[i],
                observation_fields(city2, state2, station, obs, collected_at2),
            ),
    ensures
        city2 == city,
        state2 == state,
        collected_at2 == collected_at,
{
    lemma_conditions();
    let fs = collection_filters::<C>(city, state, collected_at);
    let fields = observation_fields(city2, state2, station, obs, collected_at2);
    assert(met_by(fs[0], fields));
    assert(met_by(fs[1], fields));
    assert(met_by(fs[2], fields));
    lemma_met_in_its_column(fs[0], city2, state2, station, obs, collected_at2, 0);
    lemma_met_in_its_column(fs[1], city2, state2, station, obs, collected_at2, 1);
    lemma_met_in_its_column(fs[2], city2, state2, station, obs, collected_at2, 9);
}

/// A condition on a column is met by the value of that column.
proof fn lemma_met_in_its_column<C>(
    filter: FilterView<C>,
    city: Seq<char>,
    state: Seq<char>,
    station: Seq<char>,
    obs: StoredObservationView<C>,
    collected_at: i64,
    i: int,
)
    requires
        0 <= i < 10,
        filter.before == column_names()[i] + " = "@,
        met_by(filter, observation_fields(city, state, station, obs, collected_at)),
    ensures
        same_value(
            filter.value,
            observation_fields(city, state, station, obs, collected_at)[i].value,
        ),
{
    lemma_columns();
    let fields = observation_fields(city, state, station, obs, collected_at);
    let k = choose|k: int|
        0 <= k < fields.len() && filter.before == (#[trigger] fields[k]).column + " = "@
            && filter.after == ""@ && same_value(filter.value, fields[k].value);
    assert(fields[k].column == column_names()[k]);
    let n = filter.before.len() - " = "@.len();
    assert(column_names()[k] =~= filter.before.take(n));
    assert(column_names()[i] =~= filter.before.take(n));
}

/// The columns of a stored observation are ten different ones.
proof fn lemma_columns()
    ensures
        forall|i: int, j: int|
            0 <= i < j < 10 ==> #[trigger] column_names()[i] != #[trigger] column_names()[j],
{
    reveal_strlit("city");
    reveal_strlit("state");
    reveal_strlit("station_id");
    reveal_strlit("observation_time");
    reveal_strlit("temperature");
    reveal_strlit("dewpoint");
    reveal_strlit("relative_humidity");
    reveal_strlit("wind_speed");
    reveal_strlit("wind_direction");
    reveal_strlit("collected_at");
    assert("city"@.len() == 4);
    assert("state"@.len() == 5);
    assert("station_id"@.len() == 10 && "station_id"@[0] == 's');
    assert("observation_time"@.len() == 16);
    assert("temperature"@.len() == 11);
    assert("dewpoint"@.len() == 8);
    assert("relative_humidity"@.len() == 17);
    assert("wind_speed"@.len() == 10 && "wind_speed"@[0] == 'w');
    assert("wind_direction"@.len() == 14);
    assert("collected_at"@.len() == 12);
}

/// The columns of a stored observation.
pub open spec fn column_names() -> Seq<Seq<char>> {
    seq![
        "city"@,
        "state"@,
        "station_id"@,
        "observation_time"@,
        "temperature"@,
        "dewpoint"@,
        "relative_humidity"@,
        "wind_speed"@,
        "wind_direction"@,
        "collected_at"@,
    ]
}

/// `statement` gives the column of that name the value, as the parameter with the column's number.
pub open spec fn gives<C>(
    fields: Seq<FieldView<C>>,
    statement: StatementView<C>,
    column: Seq<char>,
    value: ParamView<C>,
) -> bool {
    exists|k: int|
        0 <= k < fields.len() && (#[trigger] fields[k]).column == column && statement.params[k]
            == value
}

/// Each value of an observation goes to the column that is named for it, and the statement names
/// these columns in that order.
pub proof fn values_go_to_their_columns<C: Copy>(
    city: &str,
    state: &str,
    station: &str,
    obs: StoredObservation<C>,
    collected_at: i64,
    r: Statement<C>,
)
    requires
        call_ensures(insert_observation::<C>, (city, state, station, &obs, collected_at), r),
    ensures
        ({
            let fields = observation_fields(city@, state@, station@, obs@, collected_at);
            &&& r@.params.len() == fields.len() == 10
            &&& gives(fields, r@, "city"@, ParamView::Text(city@))
            &&& gives(fields, r@, "state"@, ParamView::Text(state@))
            &&& gives(fields, r@, "station_id"@, ParamView::Text(station@))
            &&& gives(fields, r@, "observation_time"@, ParamView::Text(obs.time@))
            &&& gives(fields, r@, "temperature"@, ParamView::MaybeReal(obs.temperature))
            &&& gives(fields, r@, "dewpoint"@, ParamView::MaybeReal(obs.dewpoint))
            &&& gives(fields, r@, "relative_humidity"@, ParamView::MaybeReal(obs.humidity))
            &&& gives(fields, r@, "wind_speed"@, ParamView::MaybeText(opt_text(obs.wind_speed)))
            &&& gives(
                fields,
                r@,
                "wind_direction"@,
                ParamView::MaybeText(opt_text(obs.wind_direction)),
            )
            &&& gives(fields, r@, "collected_at"@, ParamView::Integer(collected_at))
            &&& r@.sql == "INSERT OR IGNORE INTO hourly_forecasts ("@ + column_list(fields)
                + ") VALUES ("@ + placeholder_list(10) + ")"@
        }),
{
    let fields = observation_fields(city@, state@, station@, obs@, collected_at);
    assert(fields[0].column == "city"@ && fields[1].column == "state"@);
    assert(fields[2].column == "station_id"@ && fields[3].column == "observation_time"@);
    assert(fields[4].column == "temperature"@ && fields[5].column == "dewpoint"@);
    assert(fields[6].column == "relative_humidity"@ && fields[7].column == "wind_speed"@);
    assert(fields[8].column == "wind_direction"@ && fields[9].column == "collected_at"@);
    assert(r@.params == field_values(fields));
    reveal_strlit("INSERT OR IGNORE INTO hourly_forecasts (");
    reveal_strlit("INSERT OR IGNORE INTO hourly_forecasts");
    reveal_strlit(" (");
    reveal_strlit("");
    assert("INSERT OR IGNORE INTO hourly_forecasts ("@
        =~= "INSERT OR IGNORE INTO hourly_forecasts"@ + " ("@);
    assert(r@.sql =~= "INSERT OR IGNORE INTO hourly_forecasts ("@ + column_list(fields)
        + ") VALUES ("@ + placeholder_list(10) + ")"@);
}

/// A series query asks for the rows of the place in order of time: its values are the city, the state,
/// the station where one is chosen and the start where there is one, in that order; without a start it
/// has one condition less and is the same else.
pub proof fn series_are_asked_for_from_their_start<C>(
    loc: LocationResult<C>,
    start: Option<i64>,
    temps: Statement<C>,
    speeds: Statement<C>,
    humidities: Statement<C>,
)
    requires
        call_ensures(temperature_query::<C>, (&loc, start), temps),
        call_ensures(wind_speed_query::<C>, (&loc, start), speeds),
        call_ensures(humidity_query::<C>, (&loc, start), humidities),
    ensures
        temps@.params == series_values(loc, start),
        speeds@.params == series_values(loc, start),
        humidities@.params == series_values(loc, start),
        start is Some ==> series_filters(loc@, start).drop_last() == series_filters(loc@, None),
{
    assert(filter_values(series_filters(loc@, start)) =~= series_values(loc, start));
    if start is Some {
        assert(series_filters(loc@, start).drop_last() =~= series_filters(loc@, None));
    }
}

/// The values that the rows of a place are asked for with.
pub open spec fn place_values<C>(loc: LocationResult<C>) -> Seq<ParamView<C>> {
    seq![ParamView::Text(loc.city@), ParamView::Text(loc.state@)] + match loc.station_id {
        Some(s) => seq![ParamView::Text(s@)],
        None => seq![],
    }
}

/// The values that the rows of a place are asked for with from a start on.
pub open spec fn series_values<C>(loc: LocationResult<C>, start: Option<i64>) -> Seq<ParamView<C>> {
    place_values(loc) + match start {
        Some(t) => seq![ParamView::Integer(t)],
        None => seq![],
    }
}

/// What is held of a place and its wind are asked for with the values of that place alone, and so is
/// a kept place dropped.
pub proof fn places_are_asked_for_by_their_values<C>(
    loc: LocationResult<C>,
    city: &str,
    state: &str,
    station: &str,
    wind: Statement<C>,
    coverage: Statement<C>,
    one: Statement<C>,
    every: Statement<C>,
    latest: Statement<C>,
    cached: Statement<C>,
)
    requires
        call_ensures(wind_query::<C>, (&loc,), wind),
        call_ensures(coverage_query::<C>, (&loc,), coverage),
        call_ensures(delete_validated_location::<C>, (city, state, Some(station)), one),
        call_ensures(delete_validated_location::<C>, (city, state, None::<&str>), every),
        call_ensures(latest_collection_query::<C>, (city, state), latest),
        call_ensures(cache_query::<C>, (city, state), cached),
    ensures
        wind@.params == place_values(loc),
        coverage@.params == place_values(loc),
        one@.params == seq![
            ParamView::<C>::Text(city@),
            ParamView::Text(state@),
            ParamView::Text(station@),
        ],
        every@.params == seq![ParamView::<C>::Text(city@), ParamView::Text(state@)],
        latest@.params == every@.params,
        cached@.params == every@.params,
{
    assert(filter_values(location_filters(loc@)) =~= place_values(loc));
    assert(filter_values(place_filters::<C>(city@, state@, Some(station@))) =~= seq![
        ParamView::<C>::Text(city@),
        ParamView::Text(state@),
        ParamView::Text(station@),
    ]);
    assert(filter_values(place_filters::<C>(city@, state@, None)) =~= seq![
        ParamView::<C>::Text(city@),
        ParamView::Text(state@),
    ]);
}

/// A kept place is written with its own city, state, coordinates and station and the time it was
/// kept at.
pub proof fn kept_place_is_written_with_its_values<C: Copy>(
    loc: LocationResult<C>,
    timestamp: i64,
    r: Statement<C>,
)
    requires
        call_ensures(save_validated_location::<C>, (&loc, timestamp), r),
    ensures
        r@.params == seq![
            ParamView::Text(loc.city@),
            ParamView::Text(loc.state@),
            ParamView::Real(loc.lat),
            ParamView::Real(loc.lon),
            ParamView::MaybeText(opt_text(loc.station_id)),
            ParamView::Integer(timestamp),
        ],
{
    assert(field_values(place_fields(loc@, timestamp)) =~= seq![
        ParamView::Text(loc.city@),
        ParamView::Text(loc.state@),
        ParamView::Real(loc.lat),
        ParamView::Real(loc.lon),
        ParamView::MaybeText(opt_text(loc.station_id)),
        ParamView::Integer(timestamp),
    ]);
}

/// One more condition stands behind the others, after the word for the first or for a further one,
/// with its number in the place of its value, and its value is the last parameter. Without conditions
/// the statement is what stands before and behind them.
pub proof fn conditions_are_added_one_by_one<C>(
    head: &str,
    none: &str,
    tail: &str,
    before: Vec<Filter<C>>,
    f: Filter<C>,
    after: Vec<Filter<C>>,
    n: u64,
    number: String,
    r: Statement<C>,
    s: Statement<C>,
)
    requires
        after@ == before@.push(f),
        none@.len() == 0,
        n == after@.len(),
        call_ensures(decimal_text, (n,), number),
        call_ensures(filter_rows::<C>, (head, before, none), r),
        call_ensures(filter_rows::<C>, (head, after, tail), s),
    ensures
        before@.len() == 0 ==> r@.sql == head@ && r@.params.len() == 0,
        s@.sql == r@.sql + (if n == 1 {
            " WHERE "@
        } else {
            " AND "@
        }) + f.before@ + "?"@ + number@ + f.after@ + tail@,
        s@.params == r@.params.push(f.value@),
{
    let a = filters_view(before@);
    let b = filters_view(after@);
    assert(b =~= a.push(f@));
    assert(b.drop_last() =~= a);
    assert(filter_values(b) =~= filter_values(a).push(f.value@));
    assert(head@ + where_clause(a) + none@ =~= head@ + where_clause(a));
    if before@.len() == 0 {
        assert(where_clause(a) =~= seq![]);
        assert(head@ + where_clause(a) =~= head@);
    }
    let lead = if n == 1 {
        " WHERE "@
    } else {
        " AND "@
    };
    assert(where_clause(b) =~= where_clause(a) + lead + f.before@ + "?"@ + number@ + f.after@);
    assert(s@.sql =~= r@.sql + lead + f.before@ + "?"@ + number@ + f.after@ + tail@);
}

/// One more column stands behind the others, and so does a placeholder with its number and, as the
/// last parameter, its value.
pub proof fn columns_are_added_one_by_one<C>(
    head: &str,
    tail: &str,
    before: Vec<Field<C>>,
    f: Field<C>,
    after: Vec<Field<C>>,
    n: u64,
    number: String,
    r: Statement<C>,
    s: Statement<C>,
)
    requires
        after@ == before@.push(f),
        before@.len() > 0,
        n == after@.len(),
        call_ensures(decimal_text, (n,), number),
        call_ensures(insert_row::<C>, (head, before, tail), r),
        call_ensures(insert_row::<C>, (head, after, tail), s),
    ensures
        exists|columns: Seq<char>, places: Seq<char>|
            r@.sql == #[trigger] row_text(head@, columns, places, tail@) && s@.sql == row_text(
                head@,
                columns + ", "@ + f.column@,
                places + ", ?"@ + number@,
                tail@,
            ),
        s@.params == r@.params.push(f.value@),
{
    let a = fields_view(before@);
    let b = fields_view(after@);
    assert(b =~= a.push(f@));
    assert(b.drop_last() =~= a);
    assert(field_values(b) =~= field_values(a).push(f.value@));
    assert(column_list(b) == column_list(a) + ", "@ + f.column@);
    assert(placeholder_list(b.len()) == placeholder_list(a.len()) + ", ?"@ + number@);
    assert(r@.sql == row_text(head@, column_list(a), placeholder_list(a.len()), tail@));
}

/// The text of a statement that does `head` with a new row.
pub open spec fn row_text(
    head: Seq<char>,
    columns: Seq<char>,
    places: Seq<char>,
    tail: Seq<char>,
) -> Seq<char> {
    head + " ("@ + columns + ") VALUES ("@ + places + ")"@ + tail
}

/// A row of one column names it once and gives it the first parameter.
pub proof fn first_column_is_given_the_first_value<C>(
    head: &str,
    tail: &str,
    fields: Vec<Field<C>>,
    r: Statement<C>,
)
    requires
        fields@.len() == 1,
        call_ensures(insert_row::<C>, (head, fields, tail), r),
    ensures
        r@.sql == row_text(head@, fields@[0].column@, "?1"@, tail@),
        r@.params == seq![fields@[0].value@],
{
    let a = fields_view(fields@);
    assert(a[0] == fields@[0]@);
    assert(field_values(a) =~= seq![fields@[0].value@]);
}

} // verus!
