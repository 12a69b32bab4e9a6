//! Wind: its texts in the database, its direction by the hour, the points of the compass and the
//! labels of the wind strip.
use vstd::prelude::*;

use crate::clock::timestamp_of;
use crate::series::{lemma_present_concat, present, wind_series, WindObservation, WindRowView};
use crate::text;

verus! {

/// A wind speed as it is stored.
pub open spec fn speed_text_of(digits: Seq<char>) -> Seq<char> {
    digits + " mph"@
}

/// The stored text of the wind speed written `digits`.
pub fn wind_speed_text(digits: &str) -> (r: String)
    ensures
        r@ == speed_text_of(digits@),
{
    text::join2(digits, " mph")
}

/// A wind direction as it is stored.
pub open spec fn direction_text_of(digits: Seq<char>) -> Seq<char> {
    digits + "°"@
}

/// The stored text of the wind direction written `digits`.
pub fn wind_direction_text(digits: &str) -> (r: String)
    ensures
        r@ == direction_text_of(digits@),
{
    text::join2(digits, "°")
}

/// What is written as a wind speed is the first word of the stored text, and the unit the second.
pub proof fn stored_speed_reads_back(digits: Seq<char>)
    requires
        digits.len() > 0,
        forall|i: int| 0 <= i < digits.len() ==> !text::is_space(#[trigger] digits[i]),
    ensures
        text::words(speed_text_of(digits)) == seq![digits, "mph"@],
{
    reveal_strlit(" mph");
    reveal_strlit("mph");
    let s = speed_text_of(digits);
    let n = digits.len() as int;
    lemma_word_len_exact(s, n);
    assert(s.take(n) =~= digits);
    let rest = s.skip(n);
    assert(rest =~= seq![' ', 'm', 'p', 'h']);
    assert(text::word_len(rest) == 0);
    let unit = rest.drop_first();
    assert(unit =~= "mph"@);
    lemma_word_len_exact(unit, 3);
    assert(unit.take(3) =~= unit);
    assert(unit.skip(3) =~= seq![]);
    assert(text::words(unit) =~= seq!["mph"@] + text::words(unit.skip(3)));
    assert(text::words(unit) =~= seq!["mph"@]);
    assert(text::words(rest) == text::words(unit));
    assert(text::words(s) =~= seq![digits] + text::words(rest));
}

/// The first word of `s` has `n` characters where those are no white space and none or a white
/// space follows.
proof fn lemma_word_len_exact(s: Seq<char>, n: int)
    requires
        0 <= n <= s.len(),
        forall|i: int| 0 <= i < n ==> !text::is_space(#[trigger] s[i]),
        n == s.len() || text::is_space(s[n]),
    ensures
        text::word_len(s) == n,
    decreases n,
{
    if n > 0 {
        let t = s.drop_first();
        assert(forall|i: int| 0 <= i < n - 1 ==> t[i] == s[i + 1]);
        lemma_word_len_exact(t, n - 1);
    }
}

/// What is written as a wind direction is the stored text without its degree signs.
pub proof fn stored_direction_reads_back(digits: Seq<char>)
    requires
        digits.len() > 0 ==> digits.last() != '°',
    ensures
        text::trimmed_end(direction_text_of(digits), '°') == digits,
{
    reveal_strlit("°");
    let s = direction_text_of(digits);
    assert(s.last() == '°');
    assert(s.drop_last() =~= digits);
    assert(text::trimmed_end(s, '°') == text::trimmed_end(digits, '°'));
}

/// The start of the hour that the second `t` lies in.
pub open spec fn hour_of(t: int) -> int {
    t - t % 3600
}

/// The start of the hour that the second `t` lies in.
pub fn hour_start(t: i64) -> (r: i64)
    requires
        i64::MIN + 3600 <= t,
    ensures
        r == hour_of(t as int),
{
    let over: Option<i64> = t.checked_rem_euclid(3600);
    t - over.unwrap()
}

/// The directions of one hour, in order.
pub struct HourGroup<V> {
    pub time: i64,
    pub directions: Vec<V>,
}

/// The contents of an [`HourGroup`].
pub type HourGroupView<V> = (int, Seq<V>);

/// The contents of a list of groups.
pub open spec fn groups_view<V>(groups: Seq<HourGroup<V>>) -> Seq<HourGroupView<V>> {
    Seq::new(groups.len(), |i: int| (groups[i].time as int, groups[i].directions@))
}

/// The directions that observations tell of, gathered by the hour: one group for each run of
/// directed observations of the same hour.
pub open spec fn hour_groups<V>(obs: Seq<WindObservation<V>>) -> Seq<HourGroupView<V>>
    decreases obs.len(),
{
    if obs.len() == 0 {
        seq![]
    } else {
        let before = hour_groups(obs.drop_last());
        let hour = hour_of(obs.last().time as int);
        match obs.last().direction {
            Some(d) => if before.len() > 0 && before.last().0 == hour {
                before.drop_last().push((hour, before.last().1.push(d)))
            } else {
                before.push((hour, seq![d]))
            },
            None => before,
        }
    }
}

/// The hour of every observation can be told.
pub open spec fn datable<V>(obs: Seq<WindObservation<V>>) -> bool {
    forall|i: int| 0 <= i < obs.len() ==> i64::MIN + 3600 <= (#[trigger] obs[i]).time
}

/// The directions that observations tell of, gathered by the hour.
pub fn group_by_hour<V: Copy>(observations: &Vec<WindObservation<V>>) -> (r: Vec<HourGroup<V>>)
    requires
        datable(observations@),
    ensures
        groups_view(r@) == hour_groups(observations@),
{
    let mut r: Vec<HourGroup<V>> = Vec::new();
    let mut i: usize = 0;
    assert(groups_view(r@) =~= hour_groups(observations@.take(0)));
    while i < observations.len()
        invariant
            i <= observations@.len(),
            datable(observations@),
            groups_view(r@) == hour_groups(observations@.take(i as int)),
        decreases observations@.len() - i,
    {
        let ghost before = r@;
        assert(observations@.take(i + 1).drop_last() =~= observations@.take(i as int));
        assert(observations@.take(i + 1).last() == observations@[i as int]);
        if let Some(d) = observations[i].direction {
            let hour = hour_start(observations[i].time);
            let n: usize = r.len();
            let same = n > 0 && r[n - 1].time == hour;
            let mut group = HourGroup { time: hour, directions: Vec::new() };
            if same {
                group = r.pop().unwrap();
            }
            group.directions.push(d);
            let ghost new = group;
            r.push(group);
            assert(groups_view(r@) =~= if same {
                groups_view(before).drop_last().push((hour as int, new.directions@))
            } else {
                groups_view(before).push((hour as int, new.directions@))
            });
            assert(!same ==> new.directions@ =~= seq![d]);
        }
        i += 1;
    }
    assert(observations@.take(i as int) =~= observations@);
    r
}

/// The direction of the wind in one hour: the second at which the hour starts, and the mean
/// direction in degrees.
#[derive(Clone, Debug)]
pub struct BinnedWindDirection<V> {
    pub time: i64,
    pub direction: Option<V>,
}

/// `mean` may give `r` for the directions `ds`.
pub open spec fn averages<V, F: Fn(&Vec<V>) -> V>(mean: F, ds: Seq<V>, r: V) -> bool {
    exists|v: Vec<V>| v@ == ds && #[trigger] call_ensures(mean, (&v,), r)
}

/// The mean direction of the wind in each hour with directed observations, where `mean` tells the
/// mean of some directions.
pub fn bin_wind_direction_hourly<V: Copy, F: Fn(&Vec<V>) -> V>(
    observations: &Vec<WindObservation<V>>,
    mean: &F,
) -> (r: Vec<BinnedWindDirection<V>>)
    requires
        datable(observations@),
        forall|v: Vec<V>| v@.len() > 0 ==> #[trigger] call_requires(*mean, (&v,)),
    ensures
        r@.len() == hour_groups(observations@).len(),
        forall|i: int|
            #![trigger r@[i]]
            0 <= i < r@.len() ==> {
                &&& r@[i].time == hour_groups(observations@)[i].0
                &&& r@[i].direction is Some
                &&& averages(*mean, hour_groups(observations@)[i].1, r@[i].direction->0)
            },
{
    let groups = group_by_hour(observations);
    let mut r: Vec<BinnedWindDirection<V>> = Vec::new();
    let mut i: usize = 0;
    while i < groups.len()
        invariant
            i <= groups@.len(),
            groups_view(groups@) == hour_groups(observations@),
            forall|v: Vec<V>| v@.len() > 0 ==> #[trigger] call_requires(*mean, (&v,)),
            r@.len() == i,
            forall|j: int|
                #![trigger r@[j]]
                0 <= j < i ==> {
                    &&& r@[j].time == hour_groups(observations@)[j].0
                    &&& r@[j].direction is Some
                    &&& averages(*mean, hour_groups(observations@)[j].1, r@[j].direction->0)
                },
        decreases groups@.len() - i,
    {
        let group = &groups[i];
        assert(groups_view(groups@)[i as int] == (group.time as int, group.directions@));
        proof {
            groups_are_hours(observations@, i as int);
        }
        let m = mean(&group.directions);
        assert(averages(*mean, group.directions@, m));
        r.push(BinnedWindDirection { time: group.time, direction: Some(m) });
        i += 1;
    }
    r
}

/// Every group holds a direction, starts on the hour and differs in its hour from the one before.
pub proof fn groups_are_hours<V>(obs: Seq<WindObservation<V>>, i: int)
    requires
        0 <= i < hour_groups(obs).len(),
    ensures
        hour_groups(obs)[i].1.len() > 0,
        hour_groups(obs)[i].0 % 3600 == 0,
        i > 0 ==> hour_groups(obs)[i - 1].0 != hour_groups(obs)[i].0,
    decreases obs.len(),
{
    let before = hour_groups(obs.drop_last());
    if i < before.len() {
        groups_are_hours(obs.drop_last(), i);
    }
    if i == before.len() && i > 0 {
        groups_are_hours(obs.drop_last(), i - 1);
    }
}

/// The directions of all groups, one group after the other.
pub open spec fn gathered<V>(groups: Seq<HourGroupView<V>>) -> Seq<V>
    decreases groups.len(),
{
    if groups.len() == 0 {
        seq![]
    } else {
        gathered(groups.drop_last()) + groups.last().1
    }
}

/// The directions of the observations that have one, in order.
pub open spec fn directions<V>(obs: Seq<WindObservation<V>>) -> Seq<V> {
    present(obs.map_values(|o: WindObservation<V>| o.direction))
}

/// Gathering by the hour keeps every direction once and in order.
pub proof fn gathering_keeps_directions<V>(obs: Seq<WindObservation<V>>)
    ensures
        gathered(hour_groups(obs)) == directions(obs),
    decreases obs.len(),
{
    let all = obs.map_values(|o: WindObservation<V>| o.direction);
    if obs.len() > 0 {
        let before = hour_groups(obs.drop_last());
        gathering_keeps_directions(obs.drop_last());
        assert(all.drop_last() =~= obs.drop_last().map_values(
            |o: WindObservation<V>| o.direction,
        ));
        let groups = hour_groups(obs);
        if let Some(d) = obs.last().direction {
            let hour = hour_of(obs.last().time as int);
            if before.len() > 0 && before.last().0 == hour {
                assert(groups.drop_last() =~= before.drop_last());
                assert(gathered(groups) =~= gathered(before).push(d));
            } else {
                assert(groups.drop_last() =~= before);
                assert(gathered(groups) =~= gathered(before).push(d));
            }
        }
    }
}

/// The times and directions of the observations that have a direction, in order.
pub open spec fn directed<V>(obs: Seq<WindObservation<V>>) -> Seq<(i64, V)> {
    present(obs.map_values(|o: WindObservation<V>| timed_direction(o)))
}

/// The time and direction of an observation that has a direction.
pub open spec fn timed_direction<V>(o: WindObservation<V>) -> Option<(i64, V)> {
    match o.direction {
        Some(d) => Some((o.time, d)),
        None => None,
    }
}

/// Directions with their times, gathered by the hour.
pub open spec fn groups_of<V>(directed: Seq<(i64, V)>) -> Seq<HourGroupView<V>>
    decreases directed.len(),
{
    if directed.len() == 0 {
        seq![]
    } else {
        let before = groups_of(directed.drop_last());
        let hour = hour_of(directed.last().0 as int);
        let d = directed.last().1;
        if before.len() > 0 && before.last().0 == hour {
            before.drop_last().push((hour, before.last().1.push(d)))
        } else {
            before.push((hour, seq![d]))
        }
    }
}

/// The groups are those of the directed observations.
proof fn lemma_groups_of_directed<V>(obs: Seq<WindObservation<V>>)
    ensures
        hour_groups(obs) == groups_of(directed(obs)),
    decreases obs.len(),
{
    if obs.len() > 0 {
        let items = obs.map_values(|o: WindObservation<V>| timed_direction(o));
        let init = obs.drop_last();
        lemma_groups_of_directed(init);
        assert(items.drop_last() =~= init.map_values(|o: WindObservation<V>| timed_direction(o)));
        assert(items.last() == timed_direction(obs.last()));
        if let Some(d) = obs.last().direction {
            assert(directed(obs) =~= directed(init).push((obs.last().time, d)));
            assert(directed(obs).drop_last() =~= directed(init));
        }
    }
}

/// The last group is that of the last direction's hour.
proof fn lemma_last_group<V>(directed: Seq<(i64, V)>)
    requires
        directed.len() > 0,
    ensures
        groups_of(directed).len() > 0,
        groups_of(directed).last().0 == hour_of(directed.last().0 as int),
{
}

/// The groups depend on the times and directions of the directed observations alone: observations
/// without a direction, and speeds, play no part. There are no groups exactly where no observation
/// has a direction.
pub proof fn only_directed_observations_count<V>(
    a: Seq<WindObservation<V>>,
    b: Seq<WindObservation<V>>,
)
    requires
        directed(a) == directed(b),
    ensures
        hour_groups(a) == hour_groups(b),
        hour_groups(a).len() == 0 <==> forall|i: int|
            0 <= i < a.len() ==> (#[trigger] a[i]).direction is None,
{
    lemma_groups_of_directed(a);
    lemma_groups_of_directed(b);
    lemma_undirected(a);
    if directed(a).len() > 0 {
        lemma_last_group(directed(a));
    }
}

proof fn lemma_undirected<V>(obs: Seq<WindObservation<V>>)
    ensures
        directed(obs).len() == 0 <==> forall|i: int|
            0 <= i < obs.len() ==> (#[trigger] obs[i]).direction is None,
    decreases obs.len(),
{
    if obs.len() > 0 {
        let items = obs.map_values(|o: WindObservation<V>| timed_direction(o));
        let init = obs.drop_last();
        lemma_undirected(init);
        assert(items.drop_last() =~= init.map_values(|o: WindObservation<V>| timed_direction(o)));
        assert(items.last() == timed_direction(obs.last()));
        assert(forall|i: int| 0 <= i < init.len() ==> init[i] == obs[i]);
        assert(obs[obs.len() - 1] == obs.last());
        if directed(obs).len() == 0 {
            assert forall|i: int| 0 <= i < obs.len() implies (#[trigger] obs[i]).direction is None by {
                if i < init.len() {
                    assert(init[i].direction is None);
                }
            }
        }
    }
}

/// The two lists do not meet within an hour: one of them has no direction, or the last direction of
/// the first and the first direction of the second lie in different hours.
pub open spec fn apart<V>(a: Seq<WindObservation<V>>, b: Seq<WindObservation<V>>) -> bool {
    ||| directed(a).len() == 0
    ||| directed(b).len() == 0
    ||| hour_of(directed(a).last().0 as int) != hour_of(directed(b).first().0 as int)
}

/// Observations that do not meet within an hour can be gathered one list after the other: nothing is
/// carried over from one hour to the next.
pub proof fn hours_are_gathered_one_by_one<V>(
    a: Seq<WindObservation<V>>,
    b: Seq<WindObservation<V>>,
)
    requires
        apart(a, b),
    ensures
        hour_groups(a + b) == hour_groups(a) + hour_groups(b),
{
    let timed = |o: WindObservation<V>| timed_direction(o);
    assert((a + b).map_values(timed) =~= a.map_values(timed) + b.map_values(timed));
    lemma_present_concat(a.map_values(timed), b.map_values(timed));
    lemma_groups_of_directed(a);
    lemma_groups_of_directed(b);
    lemma_groups_of_directed(a + b);
    lemma_groups_concat(directed(a), directed(b));
}

proof fn lemma_groups_concat<V>(p: Seq<(i64, V)>, q: Seq<(i64, V)>)
    requires
        p.len() == 0 || q.len() == 0 || hour_of(p.last().0 as int) != hour_of(q.first().0 as int),
    ensures
        groups_of(p + q) == groups_of(p) + groups_of(q),
    decreases q.len(),
{
    if q.len() == 0 {
        assert(p + q =~= p);
        assert(groups_of(p) + groups_of(q) =~= groups_of(p));
    } else {
        let init = q.drop_last();
        lemma_groups_concat(p, init);
        assert((p + q).drop_last() =~= p + init);
        assert((p + q).last() == q.last());
        if init.len() > 0 {
            lemma_last_group(init);
        } else {
            assert(groups_of(p + init) =~= groups_of(p));
            if p.len() > 0 {
                lemma_last_group(p);
            }
        }
        assert(groups_of(p + q) =~= groups_of(p) + groups_of(q));
    }
}

/// The observations are in order of time.
pub open spec fn in_order<V>(obs: Seq<WindObservation<V>>) -> bool {
    forall|i: int, j: int| 0 <= i <= j < obs.len() ==> (#[trigger] obs[i]).time <= (#[trigger] obs[j]).time
}

/// Where the observations are in order of time, the groups are in strict order: each hour has one
/// group.
pub proof fn ordered_observations_fill_each_hour_once<V>(
    obs: Seq<WindObservation<V>>,
    i: int,
    j: int,
)
    requires
        in_order(obs),
        0 <= i < j < hour_groups(obs).len(),
    ensures
        hour_groups(obs)[i].0 < hour_groups(obs)[j].0,
{
    lemma_groups_ordered(obs);
}

proof fn lemma_groups_ordered<V>(obs: Seq<WindObservation<V>>)
    requires
        in_order(obs),
    ensures
        forall|i: int, j: int|
            0 <= i < j < hour_groups(obs).len() ==> (#[trigger] hour_groups(obs)[i]).0 < (
            #[trigger] hour_groups(obs)[j]).0,
        hour_groups(obs).len() > 0 ==> obs.len() > 0 && hour_groups(obs).last().0 <= hour_of(
            obs.last().time as int,
        ),
    decreases obs.len(),
{
    if obs.len() > 0 {
        let init = obs.drop_last();
        assert(forall|i: int| 0 <= i < init.len() ==> init[i] == obs[i]);
        lemma_groups_ordered(init);
        if init.len() > 0 {
            assert(init.last() == obs[obs.len() - 2]);
            assert(init.last().time <= obs.last().time);
            lemma_hours_ordered(init.last().time as int, obs.last().time as int);
        }
    }
}

proof fn lemma_hours_ordered(a: int, b: int)
    requires
        a <= b,
    ensures
        hour_of(a) <= hour_of(b),
{
    assert(hour_of(a) == 3600 * (a / 3600));
    assert(hour_of(b) == 3600 * (b / 3600));
}

/// The times of the rows that can be read are in order.
pub open spec fn rows_in_order(rows: Seq<WindRowView>) -> bool {
    forall|i: int, j: int|
        0 <= i <= j < rows.len() && timestamp_of((#[trigger] rows[i]).time) is Some && timestamp_of(
            (#[trigger] rows[j]).time,
        ) is Some ==> timestamp_of(rows[i].time)->0 <= timestamp_of(rows[j].time)->0
}

/// Rows in order of time tell of observations in order of time, each at the time of a row.
pub proof fn ordered_rows_give_ordered_observations<V, F: Fn(&str) -> Option<V>>(
    parse: F,
    calm: V,
    rows: Seq<WindRowView>,
    obs: Seq<WindObservation<V>>,
)
    requires
        wind_series(parse, calm, rows, obs),
        rows_in_order(rows),
    ensures
        in_order(obs),
        forall|i: int|
            0 <= i < obs.len() ==> exists|k: int|
                0 <= k < rows.len() && timestamp_of((#[trigger] rows[k]).time) == Some(
                    (#[trigger] obs[i]).time,
                ),
    decreases rows.len(),
{
    if rows.len() > 0 {
        let init = rows.drop_last();
        assert(forall|k: int| 0 <= k < init.len() ==> init[k] == rows[k]);
        let known = timestamp_of(rows.last().time) is Some;
        let before = if known {
            obs.drop_last()
        } else {
            obs
        };
        ordered_rows_give_ordered_observations(parse, calm, init, before);
        assert forall|i: int| 0 <= i < obs.len() implies exists|k: int|
            0 <= k < rows.len() && timestamp_of((#[trigger] rows[k]).time) == Some(
                (#[trigger] obs[i]).time,
            ) by {
            if i < before.len() {
                assert(before[i] == obs[i]);
                let k = choose|k: int|
                    0 <= k < init.len() && timestamp_of((#[trigger] init[k]).time) == Some(
                        before[i].time,
                    );
                assert(rows[k] == init[k]);
            } else {
                assert(rows[rows.len() - 1] == rows.last());
            }
        }
        assert forall|i: int, j: int| 0 <= i <= j < obs.len() implies (#[trigger] obs[i]).time <= (
        #[trigger] obs[j]).time by {
            if j < before.len() {
                assert(before[i] == obs[i] && before[j] == obs[j]);
            } else {
                let k = choose|k: int|
                    0 <= k < rows.len() && timestamp_of((#[trigger] rows[k]).time) == Some(
                        obs[i].time,
                    );
                assert(rows[rows.len() - 1] == rows.last());
                assert(obs[j] == obs.last());
            }
        }
    }
}

/// A point of the compass.
#[derive(Clone, Copy, PartialEq, Eq, Structural, Debug)]
pub enum Cardinal {
    N,
    NE,
    E,
    SE,
    S,
    SW,
    W,
    NW,
    /// The direction is no number.
    Unknown,
}

/// The point of the compass with the given number, counted clockwise from north.
pub open spec fn compass_point(k: int) -> Cardinal {
    if k == 0 {
        Cardinal::N
    } else if k == 1 {
        Cardinal::NE
    } else if k == 2 {
        Cardinal::E
    } else if k == 3 {
        Cardinal::SE
    } else if k == 4 {
        Cardinal::S
    } else if k == 5 {
        Cardinal::SW
    } else if k == 6 {
        Cardinal::W
    } else {
        Cardinal::NW
    }
}

/// The number of the point nearest to a direction in half degrees. Each point takes the 45 degrees
/// around it, without the end of that arc.
pub open spec fn sector(half_degrees: int) -> int {
    ((half_degrees + 45) / 90) % 8
}

/// The point of the compass that a direction in half degrees belongs to.
pub open spec fn cardinal_of(half_degrees: Option<int>) -> Cardinal {
    match half_degrees {
        Some(h) => compass_point(sector(h)),
        None => Cardinal::Unknown,
    }
}

/// The point of the compass that a direction belongs to. It is given in whole half degrees, rounded
/// down, and `None` stands for what is no number.
pub fn cardinal(half_degrees: Option<i64>) -> (r: Cardinal)
    ensures
        r == cardinal_of(
            match half_degrees {
                Some(h) => Some(h as int),
                None => None,
            },
        ),
{
    let Some(h) = half_degrees else {
        return Cardinal::Unknown;
    };
    let over: Option<i64> = h.checked_rem_euclid(720);
    let d: i64 = over.unwrap();
    assert(sector(h as int) == sector(d as int)) by {
        whole_turns_keep_the_sector(d as int, h as int / 720);
    }
    if d < 45 || d >= 675 {
        Cardinal::N
    } else if d < 135 {
        Cardinal::NE
    } else if d < 225 {
        Cardinal::E
    } else if d < 315 {
        Cardinal::SE
    } else if d < 405 {
        Cardinal::S
    } else if d < 495 {
        Cardinal::SW
    } else if d < 585 {
        Cardinal::W
    } else {
        Cardinal::NW
    }
}

/// A direction that differs by whole turns has the same point of the compass.
pub proof fn whole_turns_keep_the_sector(half_degrees: int, turns: int)
    ensures
        sector(half_degrees + 720 * turns) == sector(half_degrees),
{
    let a = (half_degrees + 45) / 90;
    assert((half_degrees + 45 + 720 * turns) / 90 == a + 8 * turns);
    assert((a + 8 * turns) % 8 == a % 8);
}

/// The opposite direction has the opposite point of the compass.
pub proof fn half_turn_gives_the_opposite(half_degrees: int)
    ensures
        sector(half_degrees + 360) == (sector(half_degrees) + 4) % 8,
{
    let a = (half_degrees + 45) / 90;
    assert((half_degrees + 45 + 360) / 90 == a + 4);
}

impl Cardinal {
    /// The abbreviation of the point of the compass.
    pub open spec fn label(self) -> Seq<char> {
        match self {
            Cardinal::N => "N"@,
            Cardinal::NE => "NE"@,
            Cardinal::E => "E"@,
            Cardinal::SE => "SE"@,
            Cardinal::S => "S"@,
            Cardinal::SW => "SW"@,
            Cardinal::W => "W"@,
            Cardinal::NW => "NW"@,
            Cardinal::Unknown => "?"@,
        }
    }

    /// The abbreviation of the point of the compass.
    pub fn text(self) -> (r: &'static str)
        ensures
            r@ == self.label(),
    {
        match self {
            Cardinal::N => "N",
            Cardinal::NE => "NE",
            Cardinal::E => "E",
            Cardinal::SE => "SE",
            Cardinal::S => "S",
            Cardinal::SW => "SW",
            Cardinal::W => "W",
            Cardinal::NW => "NW",
            Cardinal::Unknown => "?",
        }
    }
}

/// The abbreviation of the point of the compass that a direction belongs to. It is given in whole
/// half degrees, rounded down, and `None` stands for what is no number.
pub fn degrees_to_cardinal(half_degrees: Option<i64>) -> (r: &'static str)
    ensures
        r@ == cardinal_of(
            match half_degrees {
                Some(h) => Some(h as int),
                None => None,
            },
        ).label(),
{
    cardinal(half_degrees).text()
}

/// The seconds after which a label is due again.
pub const LABEL_INTERVAL: i64 = 10_800;

/// A place of the wind strip: its second and its point of the compass, where it has one.
pub type StripBin = (i64, Option<Cardinal>);

/// A label of the wind strip: its second and its point of the compass.
pub type StripLabel = (i64, Cardinal);

/// How far the labels of a strip have come: the labels so far, and the second of the last one that
/// was due.
#[verifier::ext_equal]
pub struct Strip {
    pub labels: Seq<StripLabel>,
    pub due: Option<i64>,
}

/// A label is due at `t`: none was yet, or the last one that was is over three hours old.
pub open spec fn label_due(due: Option<i64>, t: i64) -> bool {
    due matches Some(d) ==> t - d > LABEL_INTERVAL
}

/// The last label tells another point of the compass, or there is none.
pub open spec fn label_differs(labels: Seq<StripLabel>, c: Cardinal) -> bool {
    labels.len() == 0 || labels.last().1 != c
}

/// The labels of a strip. A place with a direction is labelled where the last label tells another
/// or where a label is due.
pub open spec fn strip_of(bins: Seq<StripBin>) -> Strip
    decreases bins.len(),
{
    if bins.len() == 0 {
        Strip { labels: seq![], due: None }
    } else {
        let before = strip_of(bins.drop_last());
        let t = bins.last().0;
        match bins.last().1 {
            Some(c) => if label_due(before.due, t) {
                Strip { labels: before.labels.push((t, c)), due: Some(t) }
            } else if label_differs(before.labels, c) {
                Strip { labels: before.labels.push((t, c)), due: before.due }
            } else {
                before
            },
            None => before,
        }
    }
}

/// The labels of a wind strip.
pub fn strip_labels(bins: &Vec<StripBin>) -> (r: Vec<StripLabel>)
    ensures
        r@ == strip_of(bins@).labels,
{
    let mut r: Vec<StripLabel> = Vec::new();
    let mut due: Option<i64> = None;
    let mut i: usize = 0;
    while i < bins.len()
        invariant
            i <= bins@.len(),
            strip_of(bins@.take(i as int)) == (Strip { labels: r@, due }),
        decreases bins@.len() - i,
    {
        assert(bins@.take(i + 1).drop_last() =~= bins@.take(i as int));
        assert(bins@.take(i + 1).last() == bins@[i as int]);
        let (t, point) = bins[i];
        if let Some(c) = point {
            let is_due = match due {
                Some(d) => (t as i128) - (d as i128) > (LABEL_INTERVAL as i128),
                None => true,
            };
            let differs = r.len() == 0 || r[r.len() - 1].1 != c;
            if is_due {
                due = Some(t);
            }
            if is_due || differs {
                r.push((t, c));
            }
        }
        i += 1;
    }
    assert(bins@.take(i as int) =~= bins@);
    r
}

/// A place with a direction goes without a label only where the last label tells that direction and
/// a label stands no more than three hours before it.
pub proof fn unlabelled_place_is_told_by_a_label(bins: Seq<StripBin>)
    requires
        bins.len() > 0,
        bins.last().1 is Some,
        strip_of(bins).labels == strip_of(bins.drop_last()).labels,
    ensures
        strip_of(bins).labels.len() > 0,
        strip_of(bins).labels.last().1 == bins.last().1->0,
        exists|k: int|
            0 <= k < strip_of(bins).labels.len() && bins.last().0 - (
            #[trigger] strip_of(bins).labels[k]).0 <= LABEL_INTERVAL,
{
    let before = strip_of(bins.drop_last());
    let t = bins.last().0;
    let c = bins.last().1->0;
    assert(before.labels.push((t, c)).len() == before.labels.len() + 1);
    lemma_due_label_stands(bins.drop_last());
    let k = choose|k: int| 0 <= k < before.labels.len() && (#[trigger] before.labels[k]).0
        == before.due->0;
    assert(strip_of(bins).labels[k].0 == before.due->0);
}

proof fn lemma_due_label_stands(bins: Seq<StripBin>)
    ensures
        ({
            let strip = strip_of(bins);
            strip.due matches Some(d) ==> exists|k: int|
                0 <= k < strip.labels.len() && (#[trigger] strip.labels[k]).0 == d
        }),
    decreases bins.len(),
{
    if bins.len() > 0 {
        lemma_due_label_stands(bins.drop_last());
        let before = strip_of(bins.drop_last());
        let strip = strip_of(bins);
        if let Some(c) = bins.last().1 {
            if label_due(before.due, bins.last().0) {
                assert(strip.labels[strip.labels.len() - 1].0 == bins.last().0);
            } else {
                let k = choose|k: int| 0 <= k < before.labels.len() && (
                #[trigger] before.labels[k]).0 == before.due->0;
                assert(strip.labels[k].0 == before.due->0);
            }
        }
    }
}

/// An hour starts on a whole hour, and the second lies in it.
pub proof fn second_lies_in_its_hour(t: i64, r: i64)
    requires
        call_ensures(hour_start, (t,), r),
    ensures
        r as int % 3600 == 0,
        r <= t < r + 3600,
{
}

/// The last direction of some observations: its place in the list.
pub open spec fn last_directed<V>(obs: Seq<WindObservation<V>>, k: int) -> bool {
    &&& 0 <= k < obs.len()
    &&& obs[k].direction is Some
    &&& forall|i: int| k < i < obs.len() ==> (#[trigger] obs[i]).direction is None
}

/// One more observation joins the group of its own hour. Without a direction it changes nothing. With
/// one, it ends the last group where the last direction before it lies in the same hour, and else it
/// starts a group of its own, at the whole hour that it lies in; all other groups stay.
pub proof fn observation_joins_its_hour<V: Copy>(
    before: Vec<WindObservation<V>>,
    o: WindObservation<V>,
    after: Vec<WindObservation<V>>,
    g: Vec<HourGroup<V>>,
    h: Vec<HourGroup<V>>,
    hour: int,
    k: int,
)
    requires
        after@ == before@.push(o),
        call_ensures(group_by_hour::<V>, (&before,), g),
        call_ensures(group_by_hour::<V>, (&after,), h),
        hour % 3600 == 0,
        hour <= o.time < hour + 3600,
    ensures
        before@.len() == 0 ==> g@.len() == 0,
        o.direction is None ==> same_groups(h@, g@),
        o.direction is Some && last_directed(before@, k) && hour <= before@[k].time < hour + 3600
            ==> g@.len() > 0 && h@.len() == g@.len() && same_groups(
            h@.drop_last(),
            g@.drop_last(),
        ) && h@.last().time == g@.last().time == hour && h@.last().directions@
            == g@.last().directions@.push(o.direction->0),
        o.direction is Some && (last_directed(before@, k) && !(hour <= before@[k].time < hour
            + 3600) || forall|i: int|
            0 <= i < before@.len() ==> (#[trigger] before@[i]).direction is None) ==> h@.len()
            == g@.len() + 1 && same_groups(h@.drop_last(), g@) && h@.last().time == hour
            && h@.last().directions@ == seq![o.direction->0],
{
    assert(after@.drop_last() =~= before@);
    assert(hour_of(o.time as int) == hour);
    let gs = groups_view(g@);
    let hs = groups_view(h@);
    assert(gs.len() == g@.len() && hs.len() == h@.len());
    lemma_groups_of_directed(before@);
    lemma_undirected(before@);
    if last_directed(before@, k) {
        lemma_last_directed(before@, k);
        lemma_last_group(directed(before@));
        assert(gs.last().0 == hour_of(before@[k].time as int));
        assert(hour_of(before@[k].time as int) == hour <==> hour <= before@[k].time < hour + 3600);
        assert(g@.last().time as int == gs.last().0 && g@.last().directions@ == gs.last().1);
    }
    if h@.len() > 0 {
        assert(h@.last().time as int == hs.last().0 && h@.last().directions@ == hs.last().1);
    }
    assert forall|i: int| 0 <= i < g@.len() implies (#[trigger] g@[i]).time as int == gs[i].0
        && g@[i].directions@ == gs[i].1 by {}
    assert forall|i: int| 0 <= i < h@.len() implies (#[trigger] h@[i]).time as int == hs[i].0
        && h@[i].directions@ == hs[i].1 by {}
}

/// Two lists of groups hold the same hours with the same directions.
pub open spec fn same_groups<V>(a: Seq<HourGroup<V>>, b: Seq<HourGroup<V>>) -> bool {
    &&& a.len() == b.len()
    &&& forall|i: int|
        0 <= i < a.len() ==> (#[trigger] a[i]).time == b[i].time && a[i].directions@
            == b[i].directions@
}

proof fn lemma_last_directed<V>(obs: Seq<WindObservation<V>>, k: int)
    requires
        last_directed(obs, k),
    ensures
        directed(obs).len() > 0,
        directed(obs).last().0 == obs[k].time,
    decreases obs.len(),
{
    let items = obs.map_values(|o: WindObservation<V>| timed_direction(o));
    let init = obs.drop_last();
    assert(items.drop_last() =~= init.map_values(|o: WindObservation<V>| timed_direction(o)));
    assert(items.last() == timed_direction(obs.last()));
    if k < obs.len() - 1 {
        assert(obs[obs.len() - 1].direction is None);
        assert(last_directed(init, k)) by {
            assert forall|i: int| k < i < init.len() implies (#[trigger] init[i]).direction
                is None by {
                assert(obs[i].direction is None);
            }
        }
        lemma_last_directed(init, k);
    }
}

/// Each bin stands for one group of an hour: at the group's hour, with the mean of all its
/// directions.
pub proof fn bins_are_the_means_of_the_hours<V: Copy, F: Fn(&Vec<V>) -> V>(
    obs: Vec<WindObservation<V>>,
    mean: F,
    m: spec_fn(Seq<V>) -> V,
    groups: Vec<HourGroup<V>>,
    r: Vec<BinnedWindDirection<V>>,
)
    requires
        forall|v: Vec<V>, x: V| #[trigger] call_ensures(mean, (&v,), x) ==> x == m(v@),
        call_ensures(group_by_hour::<V>, (&obs,), groups),
        call_ensures(bin_wind_direction_hourly::<V, F>, (&obs, &mean), r),
    ensures
        r@.len() == groups@.len(),
        forall|i: int|
            0 <= i < r@.len() ==> (#[trigger] r@[i]).time == groups@[i].time && r@[i].direction
                == Some(m(groups@[i].directions@)),
{
    let gs = groups_view(groups@);
    assert(gs.len() == groups@.len());
    assert forall|i: int| 0 <= i < r@.len() implies (#[trigger] r@[i]).time == groups@[i].time
        && r@[i].direction == Some(m(groups@[i].directions@)) by {
        assert(gs[i] == (groups@[i].time as int, groups@[i].directions@));
        let x = r@[i].direction->0;
        assert(averages(mean, groups@[i].directions@, x));
        let v = choose|v: Vec<V>|
            v@ == groups@[i].directions@ && #[trigger] call_ensures(mean, (&v,), x);
        assert(call_ensures(mean, (&v,), x));
    }
}

/// A direction belongs to the point of the compass that is nearest to it: it lies less than half the
/// distance of two points before that point or at most that far behind it, whole turns aside.
pub proof fn direction_belongs_to_the_nearest_point(
    half_degrees: i64,
    turns: int,
    k: int,
    r: Cardinal,
    text: &str,
)
    requires
        call_ensures(cardinal, (Some(half_degrees),), r),
        call_ensures(degrees_to_cardinal, (Some(half_degrees),), text),
        0 <= k < 8,
        90 * k - 45 <= half_degrees - 720 * turns < 90 * k + 45,
    ensures
        r == seq![
            Cardinal::N,
            Cardinal::NE,
            Cardinal::E,
            Cardinal::SE,
            Cardinal::S,
            Cardinal::SW,
            Cardinal::W,
            Cardinal::NW,
        ][k],
        text@ == seq!["N"@, "NE"@, "E"@, "SE"@, "S"@, "SW"@, "W"@, "NW"@][k],
{
    let d = half_degrees - 720 * turns;
    whole_turns_keep_the_sector(d, turns);
    assert((d + 45) / 90 == k);
    assert(sector(half_degrees as int) == k);
}

/// A label of the strip stands at one of its places and tells the direction there; the labels are in
/// the order of the places.
pub proof fn labels_tell_the_directions_of_their_places(bins: Vec<StripBin>, r: Vec<StripLabel>)
    requires
        call_ensures(strip_labels, (&bins,), r),
    ensures
        exists|source: Seq<int>| #[trigger] labels_at(bins@, r@, source),
{
    let source = lemma_label_sources(bins@);
}

/// The labels are those of the places at `source`, in order.
pub open spec fn labels_at(
    bins: Seq<StripBin>,
    labels: Seq<StripLabel>,
    source: Seq<int>,
) -> bool {
    &&& source.len() == labels.len()
    &&& forall|i: int, j: int|
        0 <= i < j < source.len() ==> #[trigger] source[i] < #[trigger] source[j]
    &&& forall|i: int|
        0 <= i < source.len() ==> 0 <= #[trigger] source[i] < bins.len() && bins[source[i]] == (
            labels[i].0,
            Some(labels[i].1),
        )
}

proof fn lemma_label_sources(bins: Seq<StripBin>) -> (source: Seq<int>)
    ensures
        labels_at(bins, strip_of(bins).labels, source),
    decreases bins.len(),
{
    if bins.len() == 0 {
        seq![]
    } else {
        let init = bins.drop_last();
        let before = lemma_label_sources(init);
        let labels = strip_of(bins).labels;
        let old_labels = strip_of(init).labels;
        let source = if labels.len() > old_labels.len() {
            before.push(init.len() as int)
        } else {
            before
        };
        assert forall|i: int| 0 <= i < source.len() implies 0 <= #[trigger] source[i] < bins.len()
            && bins[source[i]] == (labels[i].0, Some(labels[i].1)) by {
            if i < before.len() {
                assert(before[i] == source[i]);
                assert(init[before[i]] == bins[source[i]]);
                assert(labels[i] == old_labels[i]);
            }
        }
        source
    }
}

/// One more place of the strip. It is labelled where it has a direction and no label stands yet, the
/// last label tells another direction, or no label stands within the three hours before it. It is not
/// labelled where it has no direction, nor where the last label tells the same and every label stands
/// within the three hours before it. Where the last label tells the same, it is labelled exactly where
/// the last label that was due is over three hours old. The labels before it stay.
pub proof fn place_is_labelled_where_it_is_needed(
    before: Vec<StripBin>,
    t: i64,
    point: Option<Cardinal>,
    after: Vec<StripBin>,
    r: Vec<StripLabel>,
    s: Vec<StripLabel>,
)
    requires
        after@ == before@.push((t, point)),
        call_ensures(strip_labels, (&before,), r),
        call_ensures(strip_labels, (&after,), s),
    ensures
        s@ == r@ || point is Some && s@ == r@.push((t, point->0)),
        point is Some && (r@.len() == 0 || r@.last().1 != point->0) ==> s@.len() == r@.len() + 1,
        point is Some && (forall|i: int|
            0 <= i < r@.len() ==> t - (#[trigger] r@[i]).0 > LABEL_INTERVAL) ==> s@.len() == r@.len()
            + 1,
        r@.len() > 0 && r@.last().1 == point->0 && (forall|i: int|
            0 <= i < r@.len() ==> t - (#[trigger] r@[i]).0 <= LABEL_INTERVAL) ==> s@ == r@,
        point is Some && strip_of(before@).due is Some && t - strip_of(before@).due->0
            > LABEL_INTERVAL ==> s@.len() == r@.len() + 1,
        r@.len() > 0 && r@.last().1 == point->0 && t - strip_of(before@).due->0 <= LABEL_INTERVAL
            ==> s@ == r@,
        LABEL_INTERVAL == 3 * 60 * 60,
{
    assert(after@.drop_last() =~= before@);
    lemma_due_label_stands(before@);
    let old_strip = strip_of(before@);
    if let Some(d) = old_strip.due {
        let k = choose|k: int|
            0 <= k < old_strip.labels.len() && (#[trigger] old_strip.labels[k]).0 == d;
        assert(r@[k].0 == d);
    }
    lemma_labels_need_a_due(before@);
}

proof fn lemma_labels_need_a_due(bins: Seq<StripBin>)
    ensures
        strip_of(bins).due is None <==> strip_of(bins).labels.len() == 0,
    decreases bins.len(),
{
    if bins.len() > 0 {
        lemma_labels_need_a_due(bins.drop_last());
    }
}

/// A label that is due is counted from: the next one is due more than three hours after it, and not
/// before, whatever labels of other directions stand between.
pub proof fn labels_fall_due_every_three_hours(
    before: Seq<StripBin>,
    between: Seq<StripBin>,
    t: i64,
    c: Cardinal,
)
    requires
        strip_of(before).due is Some ==> t - strip_of(before).due->0 > LABEL_INTERVAL,
        forall|i: int|
            0 <= i < between.len() ==> (#[trigger] between[i]).0 - t <= LABEL_INTERVAL,
    ensures
        strip_of(before.push((t, Some(c))) + between).due == Some(t),
    decreases between.len(),
{
    let start = before.push((t, Some(c)));
    if between.len() == 0 {
        assert(start + between =~= start);
        assert(start.drop_last() =~= before);
    } else {
        let init = between.drop_last();
        assert forall|i: int| 0 <= i < init.len() implies (#[trigger] init[i]).0 - t
            <= LABEL_INTERVAL by {
            assert(init[i] == between[i]);
        }
        labels_fall_due_every_three_hours(before, init, t, c);
        assert((start + between).drop_last() =~= start + init);
        assert((start + between).last() == between.last());
        assert(between[between.len() - 1] == between.last());
    }
}

} // verus!
