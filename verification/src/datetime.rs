//! Newtype wrappers that carry `chrono`'s naive date/time values into JIT
//! code as plain `i32` constants:
//!
//! | Wrapper              | Lanes                                             |
//! |----------------------|---------------------------------------------------|
//! | [`JitNaiveDate`]     | days from CE                                      |
//! | [`JitNaiveTime`]     | seconds from midnight, then nanoseconds           |
//! | [`JitNaiveDateTime`] | the date's lane, then the time's two lanes        |
//!
//! Seconds and nanoseconds travel in separate lanes, so a leap second
//! (nanoseconds `>= 1_000_000_000` on a `:59` second) stays distinct from
//! the start of the next second. The JIT callee reconstructs the values
//! with chrono's checked `*_opt` constructors.

use ::chrono::{Datelike, NaiveDate, NaiveDateTime, NaiveTime, Timelike};
use vstd::prelude::*;

verus! {

/// `chrono::NaiveDate`, carried opaquely.
#[verifier::external_type_specification]
#[verifier::external_body]
pub struct ExNaiveDate(::chrono::NaiveDate);

/// `chrono::NaiveTime`, carried opaquely.
#[verifier::external_type_specification]
#[verifier::external_body]
pub struct ExNaiveTime(::chrono::NaiveTime);

/// `chrono::NaiveDateTime`, carried opaquely.
#[verifier::external_type_specification]
#[verifier::external_body]
pub struct ExNaiveDateTime(::chrono::NaiveDateTime);

/// What `Datelike::num_days_from_ce` returns for a date.
pub uninterp spec fn days_from_ce(d: NaiveDate) -> i32;

/// What `Timelike::num_seconds_from_midnight` returns for a time.
pub uninterp spec fn seconds_from_midnight(t: NaiveTime) -> u32;

/// What `Timelike::nanosecond` returns for a time.
pub uninterp spec fn nanosecond_of(t: NaiveTime) -> u32;

/// What `NaiveDateTime::date` returns.
pub uninterp spec fn date_of(dt: NaiveDateTime) -> NaiveDate;

/// What `NaiveDateTime::time` returns.
pub uninterp spec fn time_of(dt: NaiveDateTime) -> NaiveTime;

/// `Datelike::num_days_from_ce`: the day count of the date in the proleptic
/// Gregorian calendar, with January 1 of year 1 as day 1. Only the name of
/// the result is claimed here, a function of the date.
#[verifier::external_body]
fn num_days_from_ce(d: &NaiveDate) -> (r: i32)
    ensures
        r == days_from_ce(*d),
{
    d.num_days_from_ce()
}

/// `Timelike::num_seconds_from_midnight`: the non-leap seconds past
/// midnight, a function of the time and below 86 400 (every `NaiveTime`
/// keeps its seconds below that).
#[verifier::external_body]
fn num_seconds_from_midnight(t: &NaiveTime) -> (r: u32)
    ensures
        r == seconds_from_midnight(*t),
        r < 86_400,
{
    t.num_seconds_from_midnight()
}

/// `Timelike::nanosecond`: the nanoseconds within the second, a function
/// of the time and below 2 000 000 000 (a value of 1 000 000 000 or more
/// marks a leap second). A `NaiveTime` is exactly its seconds from
/// midnight and this fraction (its two fields), so any time with the same
/// two values is this time.
#[verifier::external_body]
fn nanosecond(t: &NaiveTime) -> (r: u32)
    ensures
        r == nanosecond_of(*t),
        r < 2_000_000_000,
        forall|u: NaiveTime|
            seconds_from_midnight(u) == seconds_from_midnight(*t) && #[trigger] nanosecond_of(u) == r
                ==> u == *t,
{
    t.nanosecond()
}

/// `NaiveDateTime::date`: the date part.
#[verifier::external_body]
fn date_part(dt: &NaiveDateTime) -> (r: NaiveDate)
    ensures
        r == date_of(*dt),
{
    dt.date()
}

/// `NaiveDateTime::time`: the time part.
#[verifier::external_body]
fn time_part(dt: &NaiveDateTime) -> (r: NaiveTime)
    ensures
        r == time_of(*dt),
{
    dt.time()
}

/// A [`NaiveDate`] carried into JIT code as one `i32` lane: days from CE.
#[derive(Copy, Clone, Debug, PartialEq, Eq, Hash)]
pub struct JitNaiveDate(pub NaiveDate);

/// A [`NaiveTime`] carried into JIT code as two `i32` lanes: seconds from
/// midnight, then nanoseconds (leap-second nanoseconds passed through).
#[derive(Copy, Clone, Debug, PartialEq, Eq, Hash)]
pub struct JitNaiveTime(pub NaiveTime);

/// A [`NaiveDateTime`] carried into JIT code as three `i32` lanes: the
/// date's lane followed by the time's two lanes.
#[derive(Copy, Clone, Debug, PartialEq, Eq, Hash)]
pub struct JitNaiveDateTime(pub NaiveDateTime);

/// The lanes of a time given its seconds from midnight and nanoseconds.
pub open spec fn time_lanes(secs: u32, nanos: u32) -> Seq<i32> {
    seq![secs as i32, nanos as i32]
}

/// The lanes a date lowers to.
pub open spec fn date_scalars(d: NaiveDate) -> Seq<i32> {
    seq![days_from_ce(d)]
}

/// The lanes a time lowers to.
pub open spec fn time_scalars(t: NaiveTime) -> Seq<i32> {
    time_lanes(seconds_from_midnight(t), nanosecond_of(t))
}

/// The lanes a date-time lowers to.
pub open spec fn date_time_scalars(dt: NaiveDateTime) -> Seq<i32> {
    date_scalars(date_of(dt)) + time_scalars(time_of(dt))
}

/// The two lanes of a time with `secs` seconds from midnight and `nanos`
/// nanoseconds, each reinterpreted as `i32` (unchanged for every value a
/// `NaiveTime` holds).
pub fn lanes_from_parts(secs: u32, nanos: u32) -> (r: Vec<i32>)
    ensures
        r@ == time_lanes(secs, nanos),
{
    let mut r: Vec<i32> = Vec::new();
    r.push(secs as i32);
    r.push(nanos as i32);
    assert(r@ =~= time_lanes(secs, nanos));
    r
}

impl JitNaiveDate {
    /// The `i32` constants this date lowers to.
    pub fn scalars(&self) -> (r: Vec<i32>)
        ensures
            r@ == date_scalars(self.0),
    {
        let mut r: Vec<i32> = Vec::new();
        r.push(num_days_from_ce(&self.0));
        assert(r@ =~= date_scalars(self.0));
        r
    }
}

proof fn lemma_lane_cast_injective(a: u32, b: u32)
    requires
        a as i32 == b as i32,
    ensures
        a == b,
{
    assert(a == b) by (bit_vector)
        requires
            a as i32 == b as i32,
    ;
}

impl JitNaiveTime {
    /// The `i32` constants this time lowers to. They determine the time:
    /// no other time lowers to the same lanes.
    pub fn scalars(&self) -> (r: Vec<i32>)
        ensures
            r@ == time_scalars(self.0),
            forall|u: NaiveTime| #[trigger] time_scalars(u) == r@ ==> u == self.0,
    {
        let secs = num_seconds_from_midnight(&self.0);
        let nanos = nanosecond(&self.0);
        let r = lanes_from_parts(secs, nanos);
        assert forall|u: NaiveTime| #[trigger] time_scalars(u) == r@ implies u == self.0 by {
            assert(time_scalars(u)[0] == r@[0]);
            assert(time_scalars(u)[1] == r@[1]);
            lemma_lane_cast_injective(seconds_from_midnight(u), secs);
            lemma_lane_cast_injective(nanosecond_of(u), nanos);
        }
        r
    }
}

impl JitNaiveDateTime {
    /// The `i32` constants this date-time lowers to.
    pub fn scalars(&self) -> (r: Vec<i32>)
        ensures
            r@ == date_time_scalars(self.0),
    {
        let mut r = JitNaiveDate(date_part(&self.0)).scalars();
        let mut t = JitNaiveTime(time_part(&self.0)).scalars();
        r.append(&mut t);
        r
    }
}

/// The time lanes are one-to-one on valid times: two (seconds,
/// nanoseconds) pairs lower to the same lanes exactly when they are equal,
/// so a leap second never collides with the second after it.
pub proof fn law_time_lanes_injective(s1: u32, n1: u32, s2: u32, n2: u32)
    requires
        s1 < 86_400,
        n1 < 2_000_000_000,
        s2 < 86_400,
        n2 < 2_000_000_000,
    ensures
        time_lanes(s1, n1) == time_lanes(s2, n2) <==> (s1 == s2 && n1 == n2),
{
    if time_lanes(s1, n1) == time_lanes(s2, n2) {
        assert(time_lanes(s1, n1)[0] == time_lanes(s2, n2)[0]);
        assert(time_lanes(s1, n1)[1] == time_lanes(s2, n2)[1]);
    }
}

/// Every time lowers to exactly two lanes, every date-time to three: the
/// date's lane, then the time's.
pub proof fn law_lane_counts(t: NaiveTime, dt: NaiveDateTime)
    ensures
        time_scalars(t).len() == 2,
        date_time_scalars(dt).len() == 3,
        date_time_scalars(dt)[0] == days_from_ce(date_of(dt)),
        date_time_scalars(dt).subrange(1, 3) == time_scalars(time_of(dt)),
{
    assert(date_time_scalars(dt).subrange(1, 3) =~= time_scalars(time_of(dt)));
}

impl From<NaiveDate> for JitNaiveDate {
    fn from(d: NaiveDate) -> (r: Self) {
        JitNaiveDate(d)
    }
}

impl vstd::std_specs::convert::FromSpecImpl<NaiveDate> for JitNaiveDate {
    open spec fn obeys_from_spec() -> bool {
        true
    }

    open spec fn from_spec(v: NaiveDate) -> Self {
        JitNaiveDate(v)
    }
}

impl From<JitNaiveDate> for NaiveDate {
    fn from(w: JitNaiveDate) -> (r: Self) {
        w.0
    }
}

impl vstd::std_specs::convert::FromSpecImpl<JitNaiveDate> for NaiveDate {
    open spec fn obeys_from_spec() -> bool {
        true
    }

    open spec fn from_spec(v: JitNaiveDate) -> Self {
        v.0
    }
}

impl From<NaiveTime> for JitNaiveTime {
    fn from(t: NaiveTime) -> (r: Self) {
        JitNaiveTime(t)
    }
}

impl vstd::std_specs::convert::FromSpecImpl<NaiveTime> for JitNaiveTime {
    open spec fn obeys_from_spec() -> bool {
        true
    }

    open spec fn from_spec(v: NaiveTime) -> Self {
        JitNaiveTime(v)
    }
}

impl From<JitNaiveTime> for NaiveTime {
    fn from(w: JitNaiveTime) -> (r: Self) {
        w.0
    }
}

impl vstd::std_specs::convert::FromSpecImpl<JitNaiveTime> for NaiveTime {
    open spec fn obeys_from_spec() -> bool {
        true
    }

    open spec fn from_spec(v: JitNaiveTime) -> Self {
        v.0
    }
}

impl From<NaiveDateTime> for JitNaiveDateTime {
    fn from(dt: NaiveDateTime) -> (r: Self) {
        JitNaiveDateTime(dt)
    }
}

impl vstd::std_specs::convert::FromSpecImpl<NaiveDateTime> for JitNaiveDateTime {
    open spec fn obeys_from_spec() -> bool {
        true
    }

    open spec fn from_spec(v: NaiveDateTime) -> Self {
        JitNaiveDateTime(v)
    }
}

impl From<JitNaiveDateTime> for NaiveDateTime {
    fn from(w: JitNaiveDateTime) -> (r: Self) {
        w.0
    }
}

impl vstd::std_specs::convert::FromSpecImpl<JitNaiveDateTime> for NaiveDateTime {
    open spec fn obeys_from_spec() -> bool {
        true
    }

    open spec fn from_spec(v: JitNaiveDateTime) -> Self {
        v.0
    }
}

} // verus!
