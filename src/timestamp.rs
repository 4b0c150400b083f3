use chrono::{Datelike, Timelike};
use vstd::prelude::*;

verus! {

/// Ticks of 100 ns in a millisecond.
pub const TICKS_PER_MILLI: i64 = 10_000;

/// Milliseconds from 1601-01-01 to 1970-01-01.
pub const EPOCH_OFFSET_MILLIS: i64 = 11_644_473_600_000;

/// Earliest instant a tick count can stand for, in milliseconds since 1970.
pub const MIN_MILLIS: i64 = -933_981_677_285_477;

/// Latest instant a tick count can stand for, in milliseconds since 1970.
pub const MAX_MILLIS: i64 = 910_692_730_085_477;

/// `a / b` rounded toward zero, as integer division does on machine integers.
pub open spec fn div_toward_zero(a: int, b: int) -> int {
    if a >= 0 {
        a / b
    } else {
        -((-a) / b)
    }
}

/// Milliseconds since 1970 for a count of 100 ns ticks since 1601; the part below a millisecond
/// is dropped.
pub open spec fn ticks_to_millis(ticks: int) -> int {
    div_toward_zero(ticks, TICKS_PER_MILLI as int) - EPOCH_OFFSET_MILLIS
}

/// Count of 100 ns ticks since 1601 for milliseconds since 1970.
pub open spec fn millis_to_ticks(millis: int) -> int {
    (millis + EPOCH_OFFSET_MILLIS) * TICKS_PER_MILLI
}

/// A calendar date and time of day in UTC, to the millisecond.
#[derive(Debug, Clone, Copy, PartialEq, Eq, Structural)]
pub struct UtcDateTime {
    pub year: i32,
    pub month: u32,
    pub day: u32,
    pub hour: u32,
    pub minute: u32,
    pub second: u32,
    pub millisecond: u32,
}

/// The UTC date and time of an instant given in milliseconds since 1970, by the proleptic
/// Gregorian calendar.
pub uninterp spec fn utc_of(millis: i64) -> UtcDateTime;

/// Relies on chrono's `DateTime::<Utc>::from_timestamp_millis`, which gives the UTC date and time
/// of an instant in milliseconds since 1970 and returns `Some` for every instant within about
/// 262,000 years of 1970, and on its `Datelike` and `Timelike` accessors, whose documented ranges
/// are stated below.
#[verifier::external_body]
fn utc_from_millis(millis: i64) -> (r: UtcDateTime)
    requires
        MIN_MILLIS <= millis <= MAX_MILLIS,
    ensures
        r == utc_of(millis),
        1 <= r.month <= 12,
        1 <= r.day <= 31,
        r.hour < 24,
        r.minute < 60,
        r.second < 60,
        r.millisecond == millis % 1000,
{
    let t = chrono::DateTime::from_timestamp_millis(millis).unwrap();
    UtcDateTime {
        year: t.year(),
        month: t.month(),
        day: t.day(),
        hour: t.hour(),
        minute: t.minute(),
        second: t.second(),
        millisecond: t.timestamp_subsec_millis(),
    }
}

/// An instant that a tick count of the save file can hold, in milliseconds since 1970.
#[derive(Debug, Clone, Copy)]
pub struct Timestamp {
    millis: i64,
}

impl View for Timestamp {
    type V = int;

    closed spec fn view(&self) -> int {
        self.millis as int
    }
}

impl Timestamp {
    #[verifier::type_invariant]
    spec fn inv(self) -> bool {
        MIN_MILLIS <= self.millis <= MAX_MILLIS
    }

    /// The instant `millis` milliseconds after 1970-01-01 UTC, if a tick count can hold it.
    pub fn from_unix_millis(millis: i64) -> (r: Option<Timestamp>)
        ensures
            r is Some <==> MIN_MILLIS <= millis <= MAX_MILLIS,
            r matches Some(t) ==> t@ == millis,
    {
        if millis < MIN_MILLIS || millis > MAX_MILLIS {
            None
        } else {
            Some(Timestamp { millis })
        }
    }

    /// Milliseconds since 1970-01-01 UTC.
    pub fn unix_millis(&self) -> (r: i64)
        ensures
            r == self@,
            MIN_MILLIS <= r <= MAX_MILLIS,
    {
        proof {
            use_type_invariant(self);
        }
        self.millis
    }

    /// The instant a count of 100 ns ticks since 1601-01-01 stands for, to the millisecond.
    pub fn from_ticks(ticks: i64) -> (r: Timestamp)
        ensures
            r@ == ticks_to_millis(ticks as int),
    {
        let magnitude: u64 = if ticks >= 0 {
            ticks as u64
        } else {
            ((-(ticks + 1)) as u64) + 1
        };
        let whole: i64 = (magnitude / (TICKS_PER_MILLI as u64)) as i64;
        let since_1601: i64 = if ticks >= 0 {
            whole
        } else {
            -whole
        };
        let millis = since_1601 - EPOCH_OFFSET_MILLIS;
        Timestamp { millis }
    }

    /// The count of 100 ns ticks since 1601-01-01 for this instant.
    pub fn to_ticks(&self) -> (r: i64)
        ensures
            r == millis_to_ticks(self@),
    {
        proof {
            use_type_invariant(self);
        }
        (self.millis + EPOCH_OFFSET_MILLIS) * TICKS_PER_MILLI
    }

    /// The UTC date and time of this instant.
    pub fn to_utc(&self) -> (r: UtcDateTime)
        ensures
            r == utc_of(self@ as i64),
            r.millisecond == self@ % 1000,
    {
        proof {
            use_type_invariant(self);
        }
        utc_from_millis(self.millis)
    }
}

/// Turning an instant into ticks and back gives the instant again; turning ticks into an
/// instant and back gives the ticks again when they are whole milliseconds.
pub proof fn lemma_ticks_round_trip(millis: int, ticks: int)
    ensures
        ticks_to_millis(millis_to_ticks(millis)) == millis,
        ticks % (TICKS_PER_MILLI as int) == 0 ==> millis_to_ticks(ticks_to_millis(ticks)) == ticks,
{
    let x = millis + EPOCH_OFFSET_MILLIS;
    assert((x * 10000) / 10000 == x && (-(x * 10000)) / 10000 == -x) by (nonlinear_arith);
    if ticks % 10000 == 0 {
        assert(ticks >= 0 ==> (ticks / 10000) * 10000 == ticks) by (nonlinear_arith)
            requires
                ticks % 10000 == 0,
        ;
        assert(ticks < 0 ==> (-((-ticks) / 10000)) * 10000 == ticks) by (nonlinear_arith)
            requires
                ticks % 10000 == 0,
        ;
    }
}

} // verus!
