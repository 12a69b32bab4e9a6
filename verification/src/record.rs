//! Observations as they are stored: temperatures in degrees Fahrenheit, the speed of the wind in
//! miles per hour and its direction in degrees, both as text. The caller brings the arithmetic.
use vstd::prelude::*;

use crate::json::opt_text;
use crate::series::{parses_as, reads, total};
use crate::service::{Observation, ObservationView};
use crate::store::{StoredObservation, StoredObservationView};
use crate::wind::{direction_text_of, speed_text_of, wind_direction_text, wind_speed_text};

verus! {

/// `r` is what `parse` may read in a decimal text; nothing is read where there is no text.
pub open spec fn number_read<C, P: Fn(&str) -> Option<C>>(
    parse: P,
    digits: Option<Seq<char>>,
    r: Option<C>,
) -> bool {
    match digits {
        Some(t) => reads(parse, t, r),
        None => r is None,
    }
}

/// `r` is what `convert` may make of a number that may be missing.
pub open spec fn converted<C, T: Fn(C) -> C>(convert: T, x: Option<C>, r: Option<C>) -> bool {
    match x {
        Some(v) => r is Some && call_ensures(convert, (v,), r->0),
        None => r is None,
    }
}

/// `r` is how `write` may write a number that may be missing.
pub open spec fn written<C, W: Fn(C) -> String>(
    write: W,
    x: Option<C>,
    r: Option<Seq<char>>,
) -> bool {
    match x {
        Some(v) => r is Some && exists|s: String| #[trigger]
            call_ensures(write, (v,), s) && s@ == r->0,
        None => r is None,
    }
}

/// `r` is what `convert` may make of the number that `parse` reads.
pub open spec fn number_converted<C, P: Fn(&str) -> Option<C>, T: Fn(C) -> C>(
    parse: P,
    convert: T,
    digits: Option<Seq<char>>,
    r: Option<C>,
) -> bool {
    exists|x: Option<C>| #[trigger] number_read(parse, digits, x) && converted(convert, x, r)
}

/// `r` is how `write` may write the number that `parse` reads.
pub open spec fn number_written<C, P: Fn(&str) -> Option<C>, W: Fn(C) -> String>(
    parse: P,
    write: W,
    digits: Option<Seq<char>>,
    r: Option<Seq<char>>,
) -> bool {
    exists|x: Option<C>| #[trigger] number_read(parse, digits, x) && written(write, x, r)
}

/// The text of a speed that may be missing.
pub open spec fn speed_stored(digits: Option<Seq<char>>) -> Option<Seq<char>> {
    match digits {
        Some(t) => Some(speed_text_of(t)),
        None => None,
    }
}

/// The text of a direction that may be missing.
pub open spec fn direction_stored(digits: Option<Seq<char>>) -> Option<Seq<char>> {
    match digits {
        Some(t) => Some(direction_text_of(t)),
        None => None,
    }
}

/// `r` is the observation `obs` as it is stored: both temperatures converted, the humidity as it is,
/// and the wind in words.
pub open spec fn recorded<
    C,
    P: Fn(&str) -> Option<C>,
    T: Fn(C) -> C,
    S: Fn(C) -> String,
    D: Fn(C) -> String,
>(
    parse: P,
    fahrenheit: T,
    speed: S,
    direction: D,
    obs: ObservationView,
    r: StoredObservationView<C>,
) -> bool {
    &&& r.time == obs.time
    &&& number_converted(parse, fahrenheit, obs.temperature, r.temperature)
    &&& number_converted(parse, fahrenheit, obs.dewpoint, r.dewpoint)
    &&& number_read(parse, obs.humidity, r.humidity)
    &&& exists|t: Option<Seq<char>>|
        r.wind_speed == speed_stored(t) && #[trigger] number_written(
            parse,
            speed,
            obs.wind_speed,
            t,
        )
    &&& exists|t: Option<Seq<char>>|
        r.wind_direction == direction_stored(t) && #[trigger] number_written(
            parse,
            direction,
            obs.wind_direction,
            t,
        )
}

fn read_number<C, P: Fn(&str) -> Option<C>>(parse: &P, digits: &Option<String>) -> (r: Option<C>)
    requires
        total(*parse),
    ensures
        number_read(*parse, opt_text(*digits), r),
{
    match digits {
        Some(t) => {
            let word = t.as_str();
            let r = parse(word);
            assert(reads(*parse, word@, r));
            r
        },
        None => None,
    }
}

fn convert_number<C, P: Fn(&str) -> Option<C>, T: Fn(C) -> C>(
    parse: &P,
    convert: &T,
    digits: &Option<String>,
) -> (r: Option<C>)
    requires
        total(*parse),
        forall|x: C| #[trigger] call_requires(*convert, (x,)),
    ensures
        number_converted(*parse, *convert, opt_text(*digits), r),
{
    let x = read_number(parse, digits);
    let ghost read = x;
    let r = match x {
        Some(v) => Some(convert(v)),
        None => None,
    };
    assert(number_read(*parse, opt_text(*digits), read));
    r
}

fn write_number<C, P: Fn(&str) -> Option<C>, W: Fn(C) -> String>(
    parse: &P,
    write: &W,
    digits: &Option<String>,
) -> (r: Option<String>)
    requires
        total(*parse),
        forall|x: C| #[trigger] call_requires(*write, (x,)),
    ensures
        number_written(*parse, *write, opt_text(*digits), opt_text(r)),
{
    let x = read_number(parse, digits);
    let ghost read = x;
    let r = match x {
        Some(v) => Some(write(v)),
        None => None,
    };
    assert(number_read(*parse, opt_text(*digits), read));
    r
}

/// The observation `obs` as it is stored. `parse` reads a decimal number, `fahrenheit` converts
/// degrees Celsius, `speed` writes metres per second as miles per hour and `direction` writes
/// degrees.
pub fn record<C, P: Fn(&str) -> Option<C>, T: Fn(C) -> C, S: Fn(C) -> String, D: Fn(C) -> String>(
    obs: &Observation,
    parse: &P,
    fahrenheit: &T,
    speed: &S,
    direction: &D,
) -> (r: StoredObservation<C>)
    requires
        total(*parse),
        forall|x: C| #[trigger] call_requires(*fahrenheit, (x,)),
        forall|x: C| #[trigger] call_requires(*speed, (x,)),
        forall|x: C| #[trigger] call_requires(*direction, (x,)),
    ensures
        recorded(*parse, *fahrenheit, *speed, *direction, obs@, r@),
{
    let mph = write_number(parse, speed, &obs.wind_speed);
    let degrees = write_number(parse, direction, &obs.wind_direction);
    let wind_speed = match &mph {
        Some(t) => Some(wind_speed_text(t.as_str())),
        None => None,
    };
    let wind_direction = match &degrees {
        Some(t) => Some(wind_direction_text(t.as_str())),
        None => None,
    };
    StoredObservation {
        time: obs.time.clone(),
        temperature: convert_number(parse, fahrenheit, &obs.temperature),
        dewpoint: convert_number(parse, fahrenheit, &obs.dewpoint),
        humidity: read_number(parse, &obs.humidity),
        wind_speed,
        wind_direction,
    }
}

/// `f` gives one result for a value and always the same, that of `g`.
pub open spec fn acts_as<A, B, F: Fn(A) -> B>(f: F, g: spec_fn(A) -> B) -> bool {
    forall|x: A, y: B| #[trigger] call_ensures(f, (x,), y) ==> y == g(x)
}

/// `write` gives one text for a value and always the same, that of `w`.
pub open spec fn writes_as<C, W: Fn(C) -> String>(write: W, w: spec_fn(C) -> Seq<char>) -> bool {
    forall|x: C, s: String| #[trigger] call_ensures(write, (x,), s) ==> s@ == w(x)
}

/// The number that `p` reads in a decimal text, where there is one.
pub open spec fn number_in<C>(
    p: spec_fn(Seq<char>) -> Option<C>,
    digits: Option<String>,
) -> Option<C> {
    match digits {
        Some(t) => p(t@),
        None => None,
    }
}

/// `r` is what `g` gives for the number in `x`, and missing exactly where there is none.
pub open spec fn mapped<A, B>(x: Option<A>, g: spec_fn(A) -> B, r: Option<B>) -> bool {
    match x {
        Some(a) => r == Some(g(a)),
        None => r is None,
    }
}

proof fn lemma_number_read<C, P: Fn(&str) -> Option<C>>(
    parse: P,
    p: spec_fn(Seq<char>) -> Option<C>,
    digits: Option<String>,
    r: Option<C>,
)
    requires
        parses_as(parse, p),
        number_read(parse, opt_text(digits), r),
    ensures
        r == number_in(p, digits),
{
    if let Some(t) = digits {
        let s = choose|s: &str| s@ == t@ && #[trigger] call_ensures(parse, (s,), r);
        assert(call_ensures(parse, (s,), r));
    }
}

proof fn lemma_number_converted<C, P: Fn(&str) -> Option<C>, T: Fn(C) -> C>(
    parse: P,
    p: spec_fn(Seq<char>) -> Option<C>,
    convert: T,
    f: spec_fn(C) -> C,
    digits: Option<String>,
    r: Option<C>,
)
    requires
        parses_as(parse, p),
        acts_as(convert, f),
        number_converted(parse, convert, opt_text(digits), r),
    ensures
        mapped(number_in(p, digits), f, r),
{
    let x = choose|x: Option<C>| #[trigger]
        number_read(parse, opt_text(digits), x) && converted(convert, x, r);
    lemma_number_read(parse, p, digits, x);
    if let Some(v) = x {
        assert(call_ensures(convert, (v,), r->0));
    }
}

proof fn lemma_number_written<C, P: Fn(&str) -> Option<C>, W: Fn(C) -> String>(
    parse: P,
    p: spec_fn(Seq<char>) -> Option<C>,
    write: W,
    w: spec_fn(C) -> Seq<char>,
    digits: Option<String>,
    r: Option<Seq<char>>,
)
    requires
        parses_as(parse, p),
        writes_as(write, w),
        number_written(parse, write, opt_text(digits), r),
    ensures
        mapped(number_in(p, digits), w, r),
{
    let x = choose|x: Option<C>| #[trigger]
        number_read(parse, opt_text(digits), x) && written(write, x, r);
    lemma_number_read(parse, p, digits, x);
    if let Some(v) = x {
        let s = choose|s: String| #[trigger] call_ensures(write, (v,), s) && s@ == r->0;
        assert(call_ensures(write, (v,), s));
    }
}

/// Every value of an observation is stored in its own place and its own unit: the time as it is, the
/// temperature and the dewpoint both in degrees Fahrenheit, the humidity as the number it is, the
/// speed of the wind as written with its unit and its direction as written with a degree sign. What
/// is missing stays missing.
pub proof fn each_value_is_stored_in_its_unit<
    C,
    P: Fn(&str) -> Option<C>,
    T: Fn(C) -> C,
    S: Fn(C) -> String,
    D: Fn(C) -> String,
>(
    obs: Observation,
    parse: P,
    fahrenheit: T,
    speed: S,
    direction: D,
    p: spec_fn(Seq<char>) -> Option<C>,
    f: spec_fn(C) -> C,
    ws: spec_fn(C) -> Seq<char>,
    wd: spec_fn(C) -> Seq<char>,
    r: StoredObservation<C>,
)
    requires
        parses_as(parse, p),
        acts_as(fahrenheit, f),
        writes_as(speed, ws),
        writes_as(direction, wd),
        call_ensures(
            record::<C, P, T, S, D>,
            (&obs, &parse, &fahrenheit, &speed, &direction),
            r,
        ),
    ensures
        r.time@ == obs.time@,
        mapped(number_in(p, obs.temperature), f, r.temperature),
        mapped(number_in(p, obs.dewpoint), f, r.dewpoint),
        mapped(number_in(p, obs.humidity), |x: C| x, r.humidity),
        mapped(number_in(p, obs.wind_speed), |x: C| ws(x) + " mph"@, opt_text(r.wind_speed)),
        mapped(number_in(p, obs.wind_direction), |x: C| wd(x) + "°"@, opt_text(r.wind_direction)),
{
    lemma_number_converted(parse, p, fahrenheit, f, obs.temperature, r.temperature);
    lemma_number_converted(parse, p, fahrenheit, f, obs.dewpoint, r.dewpoint);
    lemma_number_read(parse, p, obs.humidity, r.humidity);
    let t = choose|t: Option<Seq<char>>|
        r@.wind_speed == speed_stored(t) && #[trigger] number_written(
            parse,
            speed,
            obs@.wind_speed,
            t,
        );
    lemma_number_written(parse, p, speed, ws, obs.wind_speed, t);
    let u = choose|t: Option<Seq<char>>|
        r@.wind_direction == direction_stored(t) && #[trigger] number_written(
            parse,
            direction,
            obs@.wind_direction,
            t,
        );
    lemma_number_written(parse, p, direction, wd, obs.wind_direction, u);
}

/// The temperature and the dewpoint are stored in the same unit: where both are written alike, both
/// are stored alike.
pub proof fn equal_temperatures_are_stored_equal<
    C,
    P: Fn(&str) -> Option<C>,
    T: Fn(C) -> C,
    S: Fn(C) -> String,
    D: Fn(C) -> String,
>(
    obs: Observation,
    parse: P,
    fahrenheit: T,
    speed: S,
    direction: D,
    p: spec_fn(Seq<char>) -> Option<C>,
    f: spec_fn(C) -> C,
    r: StoredObservation<C>,
)
    requires
        parses_as(parse, p),
        acts_as(fahrenheit, f),
        opt_text(obs.temperature) == opt_text(obs.dewpoint),
        call_ensures(
            record::<C, P, T, S, D>,
            (&obs, &parse, &fahrenheit, &speed, &direction),
            r,
        ),
    ensures
        r.temperature == r.dewpoint,
{
    lemma_number_converted(parse, p, fahrenheit, f, obs.temperature, r.temperature);
    lemma_number_converted(parse, p, fahrenheit, f, obs.dewpoint, r.dewpoint);
}

} // verus!
