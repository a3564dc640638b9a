//! Timeranges: the named, fixed-length windows that candles are cut into.

use vstd::prelude::*;

verus! {

/// The part of a window that is cut off its end, in milliseconds: a window's
/// close time lies this much before the next window opens.
pub const CLOSE_OFFSET_MS: i64 = 1_000;

/// The latest time, in milliseconds, that can be placed in a window of every
/// supported timerange without leaving the range of `i64`.
pub const MAX_TIME_MS: i64 = 9_223_372_036_768_375_807;

/// A supported timerange.
#[derive(Clone, Copy, Debug, PartialEq, Eq, Structural)]
pub enum Timerange {
    OneMinute,
    FiveMinutes,
    FifteenMinutes,
    ThirtyMinutes,
    OneHour,
    FourHours,
    OneDay,
}

/// The remainder of `t` by `d` that has the sign of `t`.
pub open spec fn truncated_rem(t: int, d: int) -> int {
    if t >= 0 {
        t % d
    } else {
        -((-t) % d)
    }
}

/// Open time of the window of length `d` that holds time `t`.
pub open spec fn window_open(t: int, d: int) -> int {
    t - truncated_rem(t, d)
}

/// Close time of the window of length `d` that holds time `t`.
pub open spec fn window_close(t: int, d: int) -> int {
    window_open(t, d) + d - CLOSE_OFFSET_MS
}

impl Timerange {
    /// Length of the timerange in milliseconds.
    pub open spec fn duration_ms(self) -> int {
        match self {
            Timerange::OneMinute => 60_000,
            Timerange::FiveMinutes => 300_000,
            Timerange::FifteenMinutes => 900_000,
            Timerange::ThirtyMinutes => 1_800_000,
            Timerange::OneHour => 3_600_000,
            Timerange::FourHours => 14_400_000,
            Timerange::OneDay => 86_400_000,
        }
    }

    /// The name under which the timerange is configured and published.
    pub open spec fn name(self) -> Seq<char> {
        match self {
            Timerange::OneMinute => "1m"@,
            Timerange::FiveMinutes => "5m"@,
            Timerange::FifteenMinutes => "15m"@,
            Timerange::ThirtyMinutes => "30m"@,
            Timerange::OneHour => "1h"@,
            Timerange::FourHours => "4h"@,
            Timerange::OneDay => "1d"@,
        }
    }

    /// The timerange that a name stands for, if any.
    pub open spec fn named(name: Seq<char>) -> Option<Timerange> {
        if name == "1m"@ {
            Some(Timerange::OneMinute)
        } else if name == "5m"@ {
            Some(Timerange::FiveMinutes)
        } else if name == "15m"@ {
            Some(Timerange::FifteenMinutes)
        } else if name == "30m"@ {
            Some(Timerange::ThirtyMinutes)
        } else if name == "1h"@ {
            Some(Timerange::OneHour)
        } else if name == "4h"@ {
            Some(Timerange::FourHours)
        } else if name == "1d"@ {
            Some(Timerange::OneDay)
        } else {
            None
        }
    }

    /// The window `(open, close)` of this timerange that holds time `t`.
    pub open spec fn window(self, t: int) -> (int, int) {
        (window_open(t, self.duration_ms()), window_close(t, self.duration_ms()))
    }

    /// Length of the timerange in milliseconds.
    pub fn duration(self) -> (d: i64)
        ensures
            d == self.duration_ms(),
    {
        match self {
            Timerange::OneMinute => 60_000,
            Timerange::FiveMinutes => 300_000,
            Timerange::FifteenMinutes => 900_000,
            Timerange::ThirtyMinutes => 1_800_000,
            Timerange::OneHour => 3_600_000,
            Timerange::FourHours => 14_400_000,
            Timerange::OneDay => 86_400_000,
        }
    }

    /// The name of the timerange.
    pub fn as_str(self) -> (name: &'static str)
        ensures
            name@ == self.name(),
    {
        match self {
            Timerange::OneMinute => "1m",
            Timerange::FiveMinutes => "5m",
            Timerange::FifteenMinutes => "15m",
            Timerange::ThirtyMinutes => "30m",
            Timerange::OneHour => "1h",
            Timerange::FourHours => "4h",
            Timerange::OneDay => "1d",
        }
    }

    /// The timerange that a name stands for, if it stands for one.
    pub fn from_name(name: &str) -> (found: Option<Timerange>)
        ensures
            found == Timerange::named(name@),
    {
        if name.eq("1m") {
            Some(Timerange::OneMinute)
        } else if name.eq("5m") {
            Some(Timerange::FiveMinutes)
        } else if name.eq("15m") {
            Some(Timerange::FifteenMinutes)
        } else if name.eq("30m") {
            Some(Timerange::ThirtyMinutes)
        } else if name.eq("1h") {
            Some(Timerange::OneHour)
        } else if name.eq("4h") {
            Some(Timerange::FourHours)
        } else if name.eq("1d") {
            Some(Timerange::OneDay)
        } else {
            None
        }
    }

    /// Computes the window of this timerange that holds `time_ms`.
    pub fn window_at(self, time_ms: i64) -> (window: (i64, i64))
        requires
            window_close(time_ms as int, self.duration_ms()) <= i64::MAX,
        ensures
            (window.0 as int, window.1 as int) == self.window(time_ms as int),
    {
        let duration_ms: i64 = self.duration();
        let open_time: i64 = time_ms - (time_ms % duration_ms);
        let close_time: i64 = open_time + duration_ms - CLOSE_OFFSET_MS;
        (open_time, close_time)
    }

    /// A name that stands for a timerange is the name of that timerange,
    /// and every timerange is found again under its name.
    pub proof fn lemma_names(name: Seq<char>, timerange: Timerange)
        ensures
            Timerange::named(timerange.name()) == Some(timerange),
            Timerange::named(name) == Some(timerange) ==> name == timerange.name(),
    {
        reveal_strlit("1m");
        reveal_strlit("5m");
        reveal_strlit("15m");
        reveal_strlit("30m");
        reveal_strlit("1h");
        reveal_strlit("4h");
        reveal_strlit("1d");
        assert("1m"@.len() == 2 && "5m"@.len() == 2 && "1h"@.len() == 2 && "4h"@.len() == 2
            && "1d"@.len() == 2);
        assert("15m"@.len() == 3 && "30m"@.len() == 3);
        assert("1m"@[0] == '1' && "1m"@[1] == 'm');
        assert("5m"@[0] == '5');
        assert("1h"@[0] == '1' && "1h"@[1] == 'h');
        assert("4h"@[0] == '4');
        assert("1d"@[0] == '1' && "1d"@[1] == 'd');
        assert("15m"@[0] == '1');
        assert("30m"@[0] == '3');
    }
}

/// The window of a timerange given by name, or `(0, 0)` for a name that
/// stands for none.
pub open spec fn get_timerange_spec(name: Seq<char>, t: int) -> (int, int) {
    match Timerange::named(name) {
        Some(timerange) => timerange.window(t),
        None => (0, 0),
    }
}

/// Open and close time of the window of the named timerange that holds
/// `actual_time_ms`. A name that stands for no timerange gives `(0, 0)`,
/// which no caller may take for a window: a candle with open time `0` counts
/// as never initialized.
pub fn get_timerange(timerange: &str, actual_time_ms: i64) -> (window: (i64, i64))
    requires
        get_timerange_spec(timerange@, actual_time_ms as int).1 <= i64::MAX,
    ensures
        (window.0 as int, window.1 as int) == get_timerange_spec(timerange@, actual_time_ms as int),
{
    match Timerange::from_name(timerange) {
        Some(found) => found.window_at(actual_time_ms),
        None => (0, 0),
    }
}

/// Window bounds. A window opens on a multiple of its length and closes
/// [`CLOSE_OFFSET_MS`] before the next multiple. From time zero on, the
/// window's open time is `t - t % d`, and `t` lies at or after it and less
/// than `d` after it; before time zero the window is the mirror image, so
/// that `t` lies at or before the open time and less than `d` before it.
pub proof fn lemma_window_bounds(t: int, d: int)
    requires
        d > 0,
    ensures
        window_open(t, d) % d == 0,
        window_close(t, d) == window_open(t, d) + d - CLOSE_OFFSET_MS,
        t >= 0 ==> window_open(t, d) == t - t % d,
        t >= 0 ==> window_open(t, d) <= t < window_open(t, d) + d,
        t < 0 ==> t <= window_open(t, d) < t + d,
{
    let size = if t >= 0 {
        t
    } else {
        -t
    };
    let whole = size - size % d;
    let q = size / d;
    vstd::arithmetic::div_mod::lemma_fundamental_div_mod(size, d);
    vstd::arithmetic::div_mod::lemma_mod_pos_bound(size, d);
    vstd::arithmetic::div_mod::lemma_mod_multiples_basic(q, d);
    vstd::arithmetic::div_mod::lemma_mod_multiples_basic(-q, d);
    assert(q * d == d * q && (-q) * d == -(d * q)) by (nonlinear_arith);
    assert(whole == d * q);
    assert(whole % d == 0 && (-whole) % d == 0);
}

/// Every supported timerange lasts a whole number of seconds, so its
/// windows open and close on whole seconds.
pub proof fn lemma_window_whole_seconds(t: int, timerange: Timerange)
    ensures
        timerange.window(t).0 % 1000 == 0,
        timerange.window(t).1 % 1000 == 0,
{
    let d = timerange.duration_ms();
    lemma_window_bounds(t, d);
    let open = window_open(t, d);
    let k = open / d;
    assert(open == d * k) by {
        vstd::arithmetic::div_mod::lemma_fundamental_div_mod(open, d);
    }
    match timerange {
        Timerange::OneMinute => assert(open == 1000 * (60 * k)),
        Timerange::FiveMinutes => assert(open == 1000 * (300 * k)),
        Timerange::FifteenMinutes => assert(open == 1000 * (900 * k)),
        Timerange::ThirtyMinutes => assert(open == 1000 * (1_800 * k)),
        Timerange::OneHour => assert(open == 1000 * (3_600 * k)),
        Timerange::FourHours => assert(open == 1000 * (14_400 * k)),
        Timerange::OneDay => assert(open == 1000 * (86_400 * k)),
    }
}

} // verus!
