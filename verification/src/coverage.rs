//! What the database holds of a location: how many records, from when to when, and how many days
//! lie between.
use vstd::prelude::*;

use crate::clock::{days_between, parse_instant, quotient, rfc3339_instant, whole_days};
use crate::json::opt_text;

verus! {

/// What the database holds of a location.
#[derive(Debug)]
pub struct DataCoverage {
    pub station_id: String,
    pub total_records: usize,
    pub earliest_date: Option<String>,
    pub latest_date: Option<String>,
    pub approx_days_covered: Option<u32>,
}

/// The contents of a [`DataCoverage`].
#[verifier::ext_equal]
pub struct DataCoverageView {
    pub station_id: Seq<char>,
    pub total_records: nat,
    pub earliest_date: Option<Seq<char>>,
    pub latest_date: Option<Seq<char>>,
    pub approx_days_covered: Option<u32>,
}

impl View for DataCoverage {
    type V = DataCoverageView;

    open spec fn view(&self) -> DataCoverageView {
        DataCoverageView {
            station_id: self.station_id@,
            total_records: self.total_records as nat,
            earliest_date: opt_text(self.earliest_date),
            latest_date: opt_text(self.latest_date),
            approx_days_covered: self.approx_days_covered,
        }
    }
}

/// The whole days between two points in time, where both are known. The count is cut to 32 bits.
pub open spec fn days_covered(early: Option<(i64, u32)>, late: Option<(i64, u32)>) -> Option<u32> {
    match (early, late) {
        (Some(e), Some(l)) => Some(whole_days(e, l) as u32),
        _ => None,
    }
}

/// The point in time that an optional text names.
pub open spec fn instant_of(date: Option<Seq<char>>) -> Option<(i64, u32)> {
    match date {
        Some(d) => rfc3339_instant(d),
        None => None,
    }
}

/// The coverage that a row of the coverage query tells of: the station, the number of records and
/// the first and the last date.
pub open spec fn coverage_of(
    station_id: Option<Seq<char>>,
    total_records: nat,
    earliest: Option<Seq<char>>,
    latest: Option<Seq<char>>,
) -> DataCoverageView {
    DataCoverageView {
        station_id: match station_id {
            Some(s) => s,
            None => "—"@,
        },
        total_records,
        earliest_date: earliest,
        latest_date: latest,
        approx_days_covered: days_covered(instant_of(earliest), instant_of(latest)),
    }
}

/// The whole days from `early` to `late`, cut to 32 bits.
pub fn count_days(early: (i64, u32), late: (i64, u32)) -> (r: u32)
    requires
        crate::clock::valid_instant(early),
        crate::clock::valid_instant(late),
    ensures
        r == whole_days(early, late) as u32,
{
    #[verifier::truncate]
    (days_between(early, late) as u32)
}

/// The coverage that a row of the coverage query tells of.
pub fn get_data_coverage(
    station_id: Option<String>,
    total_records: usize,
    earliest: Option<String>,
    latest: Option<String>,
) -> (r: DataCoverage)
    ensures
        r@ == coverage_of(
            opt_text(station_id),
            total_records as nat,
            opt_text(earliest),
            opt_text(latest),
        ),
{
    let mut approx_days_covered: Option<u32> = None;
    if let Some(early) = &earliest {
        if let Some(late) = &latest {
            if let Some(from) = parse_instant(early.as_str()) {
                if let Some(to) = parse_instant(late.as_str()) {
                    approx_days_covered = Some(count_days(from, to));
                }
            }
        }
    }
    let station_id = match station_id {
        Some(s) => s,
        None => "—".to_owned(),
    };
    DataCoverage {
        station_id,
        total_records,
        earliest_date: earliest,
        latest_date: latest,
        approx_days_covered,
    }
}

/// What a row of the coverage query tells is passed on as it is, a missing station as a dash, and
/// the days are those between its two dates: known exactly where both dates are and can be read, and
/// a later end by whole days counts that many more.
pub proof fn coverage_passes_the_row_on(
    station_id: Option<String>,
    total_records: usize,
    earliest: Option<String>,
    latest: Option<String>,
    days: u32,
    r: DataCoverage,
)
    requires
        call_ensures(get_data_coverage, (station_id, total_records, earliest, latest), r),
    ensures
        r.approx_days_covered is Some && call_ensures(
            count_days,
            (rfc3339_instant(earliest->0@)->0, rfc3339_instant(latest->0@)->0),
            days,
        ) ==> r.approx_days_covered->0 == days,
        station_id is Some ==> r.station_id@ == station_id->0@,
        station_id is None ==> r.station_id@ == "—"@,
        r.total_records == total_records,
        opt_text(r.earliest_date) == opt_text(earliest),
        opt_text(r.latest_date) == opt_text(latest),
        r.approx_days_covered is Some <==> earliest is Some && latest is Some && rfc3339_instant(
            earliest->0@,
        ) is Some && rfc3339_instant(latest->0@) is Some,
        forall|days: int|
            r.approx_days_covered is Some && 0 <= days <= u32::MAX && (rfc3339_instant(
                latest->0@,
            )->0).1 == (rfc3339_instant(earliest->0@)->0).1 && (rfc3339_instant(latest->0@)->0).0
                == (rfc3339_instant(earliest->0@)->0).0 + #[trigger] (86_400 * days)
                ==> r.approx_days_covered->0 == days,
{
}

/// The days between two points in time without a leap second are the whole days that fit between
/// them.
pub proof fn days_fit_between(early: (i64, u32), late: (i64, u32), days: int, r: u32)
    requires
        call_ensures(count_days, (early, late), r),
        early.1 < 1_000_000_000,
        late.1 < 1_000_000_000,
        0 <= days <= u32::MAX,
        86_400_000_000_000 * days <= (late.0 - early.0) * 1_000_000_000 + late.1 - early.1,
        (late.0 - early.0) * 1_000_000_000 + late.1 - early.1 < 86_400_000_000_000 * (days + 1),
    ensures
        r == days,
{
}

/// A date that lies whole days before the first is counted back from the end of the range of the
/// count.
pub proof fn days_back_are_counted_from_the_end(
    early: (i64, u32),
    late: (i64, u32),
    days: int,
    r: u32,
)
    requires
        call_ensures(count_days, (early, late), r),
        early.1 == late.1,
        early.1 < 1_000_000_000,
        0 < days <= u32::MAX,
        early.0 - late.0 == 86_400 * days,
    ensures
        r == 0x1_0000_0000 - days,
{
    let back = (-days) as i64;
    assert(whole_days(early, late) == back) by {
        assert(quotient(-days * 86_400_000_000_000, 86_400_000_000_000) == -days);
    }
    assert(-0x1_0000_0000 < back < 0 ==> back as u32 == 0x1_0000_0000 + back) by (bit_vector);
}

} // verus!
