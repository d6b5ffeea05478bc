//! Weather-code classification, locating the current hour in the forecast,
//! and the once-per-tick fetch slot shared by the weather blocks.

use vstd::prelude::*;
use crate::text::{slice_of, str_eq, str_get};

verus! {

/// Short human-readable label of a WMO weather code.
pub open spec fn wmo_label(code: int) -> Seq<char> {
    if code == 0 {
        "Clear sky"@
    } else if code == 1 {
        "Mainly clear"@
    } else if code == 2 {
        "Partly cloudy"@
    } else if code == 3 {
        "Overcast"@
    } else if code == 45 || code == 48 {
        "Fog"@
    } else if code == 51 || code == 53 || code == 55 {
        "Drizzle"@
    } else if code == 56 || code == 57 {
        "Freezing drizzle"@
    } else if code == 61 || code == 63 || code == 65 {
        "Rain"@
    } else if code == 66 || code == 67 {
        "Freezing rain"@
    } else if code == 71 || code == 73 || code == 75 {
        "Snowfall"@
    } else if code == 77 {
        "Snow grains"@
    } else if code == 80 || code == 81 || code == 82 {
        "Rain showers"@
    } else if code == 85 || code == 86 {
        "Snow showers"@
    } else if code == 95 {
        "Thunderstorm"@
    } else if code == 96 || code == 99 {
        "Thunderstorm, hail"@
    } else {
        "Unknown"@
    }
}

/// Short human-readable label for a WMO weather code.
pub fn wmo_text(code: u16) -> (r: &'static str)
    ensures
        r@ == wmo_label(code as int),
{
    match code {
        0 => "Clear sky",
        1 => "Mainly clear",
        2 => "Partly cloudy",
        3 => "Overcast",
        45 | 48 => "Fog",
        51 | 53 | 55 => "Drizzle",
        56 | 57 => "Freezing drizzle",
        61 | 63 | 65 => "Rain",
        66 | 67 => "Freezing rain",
        71 | 73 | 75 => "Snowfall",
        77 => "Snow grains",
        80 | 81 | 82 => "Rain showers",
        85 | 86 => "Snow showers",
        95 => "Thunderstorm",
        96 | 99 => "Thunderstorm, hail",
        _ => "Unknown",
    }
}

/// Coarser label of a WMO code used by the standalone forecast page.
pub open spec fn wmo_coarse_label(code: int) -> Seq<char> {
    if code == 0 {
        "Clear Sky"@
    } else if 1 <= code <= 3 {
        "Partly Cloudy"@
    } else if code == 45 || code == 48 {
        "Fog / Mist"@
    } else if 51 <= code <= 55 {
        "Drizzle"@
    } else if 61 <= code <= 65 {
        "Rain"@
    } else if 71 <= code <= 75 {
        "Snow Fall"@
    } else if 80 <= code <= 82 {
        "Rain Showers"@
    } else if 95 <= code <= 99 {
        "Thunderstorm"@
    } else {
        "Unknown"@
    }
}

/// Coarse label of a WMO weather code.
pub fn decode_wmo(code: u16) -> (r: &'static str)
    ensures
        r@ == wmo_coarse_label(code as int),
{
    match code {
        0 => "Clear Sky",
        1..=3 => "Partly Cloudy",
        45 | 48 => "Fog / Mist",
        51..=55 => "Drizzle",
        61..=65 => "Rain",
        71..=75 => "Snow Fall",
        80..=82 => "Rain Showers",
        95..=99 => "Thunderstorm",
        _ => "Unknown",
    }
}

/// The pictogram drawn for a weather condition.
#[derive(Clone, Copy, Debug, PartialEq, Eq, Structural)]
pub enum IconKind {
    Clear,
    PartlyCloudy,
    Cloudy,
    Fog,
    Rain,
    Snow,
    Thunder,
}

/// The icon of a WMO code; unknown codes show a cloud.
pub open spec fn icon_for(code: int) -> IconKind {
    if code == 0 || code == 1 {
        IconKind::Clear
    } else if code == 2 {
        IconKind::PartlyCloudy
    } else if code == 3 {
        IconKind::Cloudy
    } else if code == 45 || code == 48 {
        IconKind::Fog
    } else if (51 <= code <= 57) || (61 <= code <= 67) || (80 <= code <= 82) {
        IconKind::Rain
    } else if (71 <= code <= 77) || code == 85 || code == 86 {
        IconKind::Snow
    } else if 95 <= code <= 99 {
        IconKind::Thunder
    } else {
        IconKind::Cloudy
    }
}

impl IconKind {
    pub fn from_wmo(code: u16) -> (r: IconKind)
        ensures
            r == icon_for(code as int),
    {
        match code {
            0 | 1 => IconKind::Clear,
            2 => IconKind::PartlyCloudy,
            3 => IconKind::Cloudy,
            45 | 48 => IconKind::Fog,
            51..=57 | 61..=67 | 80..=82 => IconKind::Rain,
            71..=77 | 85 | 86 => IconKind::Snow,
            95..=99 => IconKind::Thunder,
            _ => IconKind::Cloudy,
        }
    }
}

/// The first index `i` of `times` whose first 13 bytes (`YYYY-MM-DDTHH`)
/// equal `key`.
pub open spec fn hour_position(times: Seq<Seq<char>>, key: Seq<char>) -> Option<int>
    decreases times.len(),
{
    if times.len() == 0 {
        None
    } else if slice_of(times[0], 0, 13) == Some(key) {
        Some(0)
    } else {
        match hour_position(times.drop_first(), key) {
            Some(i) => Some(i + 1),
            None => None,
        }
    }
}

/// Index into the hourly series of the hour of `current` (matched on the
/// `YYYY-MM-DDTHH` prefix); 0 when it cannot be determined.
pub open spec fn hour_index(current: Option<Seq<char>>, times: Seq<Seq<char>>) -> int {
    match current {
        Some(t) => match slice_of(t, 0, 13) {
            Some(key) => match hour_position(times, key) {
                Some(i) => i,
                None => 0,
            },
            None => 0,
        },
        None => 0,
    }
}

proof fn lemma_hour_position(times: Seq<Seq<char>>, key: Seq<char>, i: int)
    requires
        0 <= i <= times.len(),
        forall|j: int| 0 <= j < i ==> slice_of(#[trigger] times[j], 0, 13) != Some(key),
    ensures
        i < times.len() && slice_of(times[i], 0, 13) == Some(key) ==> hour_position(times, key)
            == Some(i),
        i == times.len() ==> hour_position(times, key) is None,
    decreases i,
{
    if i > 0 {
        let t = times.drop_first();
        assert forall|j: int| 0 <= j < i - 1 implies slice_of(#[trigger] t[j], 0, 13) != Some(key) by {
            assert(t[j] == times[j + 1]);
        }
        assert(slice_of(times[0], 0, 13) != Some(key));
        lemma_hour_position(t, key, i - 1);
        if i < times.len() {
            assert(t[i - 1] == times[i]);
        }
    }
}

/// Index into the hourly arrays that corresponds to the current hour, found
/// by matching the `current` time's `YYYY-MM-DDTHH` prefix against the hourly
/// times. Falls back to 0 when it cannot be determined.
pub fn current_hour_index(current: Option<&str>, times: &Vec<String>) -> (r: usize)
    ensures
        r == hour_index(
            match current {
                Some(t) => Some(t@),
                None => None,
            },
            times.deep_view(),
        ),
{
    let ghost cur = match current {
        Some(t) => Some(t@),
        None => None::<Seq<char>>,
    };
    let ghost tv = times.deep_view();
    if let Some(cur_time) = current {
        if let Some(key) = str_get(cur_time, 0, 13) {
            let mut i: usize = 0;
            while i < times.len()
                invariant
                    i <= times.len(),
                    tv == times.deep_view(),
                    tv.len() == times.len(),
                    current == Some(cur_time),
                    cur == Some(cur_time@),
                    slice_of(cur_time@, 0, 13) == Some(key@),
                    forall|j: int| 0 <= j < i ==> slice_of(#[trigger] tv[j], 0, 13) != Some(key@),
                decreases times.len() - i,
            {
                assert(tv[i as int] == times@[i as int]@);
                let m = str_get(times[i].as_str(), 0, 13);
                let hit = match m {
                    Some(x) => str_eq(x, key),
                    None => false,
                };
                if hit {
                    assert(slice_of(tv[i as int], 0, 13) == Some(key@));
                    assert(cur == Some(cur_time@));
                    proof {
                        lemma_hour_position(tv, key@, i as int);
                    }
                    return i;
                }
                i = i + 1;
            }
            proof {
                lemma_hour_position(tv, key@, i as int);
            }
            return 0;
        }
    }
    0
}

/// Per-tick bookkeeping of the shared forecast request: whether this tick is
/// a slow one, whether the request was already attempted, and whether a
/// forecast is on hand.
pub struct WeatherSlot {
    pub slow: bool,
    pub tried: bool,
    pub loaded: bool,
}

impl WeatherSlot {
    /// A fresh slot at the start of a tick.
    pub fn new(slow: bool) -> (r: WeatherSlot)
        ensures
            r.slow == slow,
            !r.tried,
            !r.loaded,
    {
        WeatherSlot { slow, tried: false, loaded: false }
    }

    /// Whether the caller should perform the request now: only on a slow tick,
    /// with no forecast yet and no earlier attempt. Claiming marks the
    /// attempt.
    pub fn claim_fetch(&mut self) -> (r: bool)
        ensures
            r == (old(self).slow && !old(self).loaded && !old(self).tried),
            final(self).tried == (old(self).tried || r),
            final(self).slow == old(self).slow,
            final(self).loaded == old(self).loaded,
    {
        if !self.slow {
            return false;
        }
        if !self.loaded && !self.tried {
            self.tried = true;
            true
        } else {
            false
        }
    }

    /// Records that the claimed request produced a forecast.
    pub fn record_success(&mut self)
        ensures
            final(self).loaded,
            final(self).slow == old(self).slow,
            final(self).tried == old(self).tried,
    {
        self.loaded = true;
    }

    /// Whether a forecast is handed to the asking block: only on slow ticks
    /// and only when one was obtained.
    pub fn hands_out(&self) -> (r: bool)
        ensures
            r == (self.slow && self.loaded),
    {
        self.slow && self.loaded
    }
}

/// Once a fetch has been claimed in a tick, no later claim in the same tick
/// asks for another one.
pub proof fn lemma_one_fetch_per_tick(s: WeatherSlot, after_first: WeatherSlot)
    requires
        after_first.tried == (s.tried || (s.slow && !s.loaded && !s.tried)),
        after_first.slow == s.slow,
        s.slow && !s.loaded && !s.tried,
    ensures
        !(after_first.slow && !after_first.loaded && !after_first.tried),
{
}


proof fn lemma_hour_position_facts(times: Seq<Seq<char>>, key: Seq<char>)
    ensures
        hour_position(times, key) matches Some(i) ==> 0 <= i < times.len() && slice_of(times[i], 0, 13)
            == Some(key),
    decreases times.len(),
{
    if times.len() > 0 && slice_of(times[0], 0, 13) != Some(key) {
        let t = times.drop_first();
        lemma_hour_position_facts(t, key);
        if let Some(i) = hour_position(t, key) {
            assert(times[i + 1] == t[i]);
        }
    }
}

/// The hour index is 0 or points at an hour whose `YYYY-MM-DDTHH` matches
/// the current time's.
pub proof fn lemma_hour_index(current: Option<Seq<char>>, times: Seq<Seq<char>>)
    ensures
        hour_index(current, times) == 0 || (0 < hour_index(current, times) < times.len()
            && current is Some && slice_of(times[hour_index(current, times)], 0, 13) == slice_of(
            current.unwrap(),
            0,
            13,
        )),
{
    if let Some(t) = current {
        if let Some(key) = slice_of(t, 0, 13) {
            lemma_hour_position_facts(times, key);
        }
    }
}


/// How many hours the 24-hour chart plots: the hourly values from the
/// current hour on, at most 24.
pub open spec fn chart_len(start: int, available: int) -> int {
    let avail = if available > start {
        available - start
    } else {
        0
    };
    if avail < 24 {
        avail
    } else {
        24
    }
}

/// The number of hours the chart plots when `available` hourly temperatures
/// are known and the current hour is at index `start`; `None` (drawn as
/// `No data`) when fewer than two remain.
pub fn chart_hours(start: usize, available: usize) -> (r: Option<usize>)
    ensures
        r == (if chart_len(start as int, available as int) < 2 {
            None
        } else {
            Some(chart_len(start as int, available as int) as usize)
        }),
{
    let avail = if available > start { available - start } else { 0 };
    let n = if avail < 24 { avail } else { 24 };
    if n < 2 {
        None
    } else {
        Some(n)
    }
}

/// The `HH` axis label of hourly time `i` (bytes 11..13), or `--` when there
/// is no such time or slice.
pub open spec fn hour_label_of(times: Seq<Seq<char>>, i: int) -> Seq<char> {
    if 0 <= i < times.len() {
        match slice_of(times[i], 11, 13) {
            Some(h) => h,
            None => "--"@,
        }
    } else {
        "--"@
    }
}

/// The `HH` axis label of hourly time `i`.
pub fn hour_label(times: &Vec<String>, i: usize) -> (r: &str)
    ensures
        r@ == hour_label_of(times.deep_view(), i as int),
{
    if i < times.len() {
        assert(times.deep_view()[i as int] == times@[i as int]@);
        match str_get(times[i].as_str(), 11, 13) {
            Some(h) => h,
            None => "--",
        }
    } else {
        "--"
    }
}

/// The coarse labels are distinct.
proof fn lemma_coarse_labels_distinct()
    ensures
        "Clear Sky"@ != "Partly Cloudy"@,
        "Clear Sky"@ != "Fog / Mist"@,
        "Clear Sky"@ != "Drizzle"@,
        "Clear Sky"@ != "Rain"@,
        "Clear Sky"@ != "Snow Fall"@,
        "Clear Sky"@ != "Rain Showers"@,
        "Clear Sky"@ != "Thunderstorm"@,
        "Clear Sky"@ != "Unknown"@,
        "Partly Cloudy"@ != "Fog / Mist"@,
        "Partly Cloudy"@ != "Drizzle"@,
        "Partly Cloudy"@ != "Rain"@,
        "Partly Cloudy"@ != "Snow Fall"@,
        "Partly Cloudy"@ != "Rain Showers"@,
        "Partly Cloudy"@ != "Thunderstorm"@,
        "Partly Cloudy"@ != "Unknown"@,
        "Fog / Mist"@ != "Drizzle"@,
        "Fog / Mist"@ != "Rain"@,
        "Fog / Mist"@ != "Snow Fall"@,
        "Fog / Mist"@ != "Rain Showers"@,
        "Fog / Mist"@ != "Thunderstorm"@,
        "Fog / Mist"@ != "Unknown"@,
        "Drizzle"@ != "Rain"@,
        "Drizzle"@ != "Snow Fall"@,
        "Drizzle"@ != "Rain Showers"@,
        "Drizzle"@ != "Thunderstorm"@,
        "Drizzle"@ != "Unknown"@,
        "Rain"@ != "Snow Fall"@,
        "Rain"@ != "Rain Showers"@,
        "Rain"@ != "Thunderstorm"@,
        "Rain"@ != "Unknown"@,
        "Snow Fall"@ != "Rain Showers"@,
        "Snow Fall"@ != "Thunderstorm"@,
        "Snow Fall"@ != "Unknown"@,
        "Rain Showers"@ != "Thunderstorm"@,
        "Rain Showers"@ != "Unknown"@,
        "Thunderstorm"@ != "Unknown"@,
{
    reveal_strlit("Clear Sky");
    reveal_strlit("Partly Cloudy");
    reveal_strlit("Fog / Mist");
    reveal_strlit("Drizzle");
    reveal_strlit("Rain");
    reveal_strlit("Snow Fall");
    reveal_strlit("Rain Showers");
    reveal_strlit("Thunderstorm");
    reveal_strlit("Unknown");
    assert("Clear Sky"@.len() != "Partly Cloudy"@.len() || "Clear Sky"@[0] != "Partly Cloudy"@[0]);
    assert("Clear Sky"@.len() != "Fog / Mist"@.len() || "Clear Sky"@[0] != "Fog / Mist"@[0]);
    assert("Clear Sky"@.len() != "Drizzle"@.len() || "Clear Sky"@[0] != "Drizzle"@[0]);
    assert("Clear Sky"@.len() != "Rain"@.len() || "Clear Sky"@[0] != "Rain"@[0]);
    assert("Clear Sky"@.len() != "Snow Fall"@.len() || "Clear Sky"@[0] != "Snow Fall"@[0]);
    assert("Clear Sky"@.len() != "Rain Showers"@.len() || "Clear Sky"@[0] != "Rain Showers"@[0]);
    assert("Clear Sky"@.len() != "Thunderstorm"@.len() || "Clear Sky"@[0] != "Thunderstorm"@[0]);
    assert("Clear Sky"@.len() != "Unknown"@.len() || "Clear Sky"@[0] != "Unknown"@[0]);
    assert("Partly Cloudy"@.len() != "Fog / Mist"@.len() || "Partly Cloudy"@[0] != "Fog / Mist"@[0]);
    assert("Partly Cloudy"@.len() != "Drizzle"@.len() || "Partly Cloudy"@[0] != "Drizzle"@[0]);
    assert("Partly Cloudy"@.len() != "Rain"@.len() || "Partly Cloudy"@[0] != "Rain"@[0]);
    assert("Partly Cloudy"@.len() != "Snow Fall"@.len() || "Partly Cloudy"@[0] != "Snow Fall"@[0]);
    assert("Partly Cloudy"@.len() != "Rain Showers"@.len() || "Partly Cloudy"@[0] != "Rain Showers"@[0]);
    assert("Partly Cloudy"@.len() != "Thunderstorm"@.len() || "Partly Cloudy"@[0] != "Thunderstorm"@[0]);
    assert("Partly Cloudy"@.len() != "Unknown"@.len() || "Partly Cloudy"@[0] != "Unknown"@[0]);
    assert("Fog / Mist"@.len() != "Drizzle"@.len() || "Fog / Mist"@[0] != "Drizzle"@[0]);
    assert("Fog / Mist"@.len() != "Rain"@.len() || "Fog / Mist"@[0] != "Rain"@[0]);
    assert("Fog / Mist"@.len() != "Snow Fall"@.len() || "Fog / Mist"@[0] != "Snow Fall"@[0]);
    assert("Fog / Mist"@.len() != "Rain Showers"@.len() || "Fog / Mist"@[0] != "Rain Showers"@[0]);
    assert("Fog / Mist"@.len() != "Thunderstorm"@.len() || "Fog / Mist"@[0] != "Thunderstorm"@[0]);
    assert("Fog / Mist"@.len() != "Unknown"@.len() || "Fog / Mist"@[0] != "Unknown"@[0]);
    assert("Drizzle"@.len() != "Rain"@.len() || "Drizzle"@[0] != "Rain"@[0]);
    assert("Drizzle"@.len() != "Snow Fall"@.len() || "Drizzle"@[0] != "Snow Fall"@[0]);
    assert("Drizzle"@.len() != "Rain Showers"@.len() || "Drizzle"@[0] != "Rain Showers"@[0]);
    assert("Drizzle"@.len() != "Thunderstorm"@.len() || "Drizzle"@[0] != "Thunderstorm"@[0]);
    assert("Drizzle"@.len() != "Unknown"@.len() || "Drizzle"@[0] != "Unknown"@[0]);
    assert("Rain"@.len() != "Snow Fall"@.len() || "Rain"@[0] != "Snow Fall"@[0]);
    assert("Rain"@.len() != "Rain Showers"@.len() || "Rain"@[0] != "Rain Showers"@[0]);
    assert("Rain"@.len() != "Thunderstorm"@.len() || "Rain"@[0] != "Thunderstorm"@[0]);
    assert("Rain"@.len() != "Unknown"@.len() || "Rain"@[0] != "Unknown"@[0]);
    assert("Snow Fall"@.len() != "Rain Showers"@.len() || "Snow Fall"@[0] != "Rain Showers"@[0]);
    assert("Snow Fall"@.len() != "Thunderstorm"@.len() || "Snow Fall"@[0] != "Thunderstorm"@[0]);
    assert("Snow Fall"@.len() != "Unknown"@.len() || "Snow Fall"@[0] != "Unknown"@[0]);
    assert("Rain Showers"@.len() != "Thunderstorm"@.len() || "Rain Showers"@[0] != "Thunderstorm"@[0]);
    assert("Rain Showers"@.len() != "Unknown"@.len() || "Rain Showers"@[0] != "Unknown"@[0]);
    assert("Thunderstorm"@.len() != "Unknown"@.len() || "Thunderstorm"@[0] != "Unknown"@[0]);
}

/// The detailed labels are distinct.
proof fn lemma_labels_distinct()
    ensures
        "Clear sky"@ != "Mainly clear"@,
        "Clear sky"@ != "Partly cloudy"@,
        "Clear sky"@ != "Overcast"@,
        "Clear sky"@ != "Fog"@,
        "Clear sky"@ != "Drizzle"@,
        "Clear sky"@ != "Freezing drizzle"@,
        "Clear sky"@ != "Rain"@,
        "Clear sky"@ != "Freezing rain"@,
        "Clear sky"@ != "Snowfall"@,
        "Clear sky"@ != "Snow grains"@,
        "Clear sky"@ != "Rain showers"@,
        "Clear sky"@ != "Snow showers"@,
        "Clear sky"@ != "Thunderstorm"@,
        "Clear sky"@ != "Thunderstorm, hail"@,
        "Clear sky"@ != "Unknown"@,
        "Mainly clear"@ != "Partly cloudy"@,
        "Mainly clear"@ != "Overcast"@,
        "Mainly clear"@ != "Fog"@,
        "Mainly clear"@ != "Drizzle"@,
        "Mainly clear"@ != "Freezing drizzle"@,
        "Mainly clear"@ != "Rain"@,
        "Mainly clear"@ != "Freezing rain"@,
        "Mainly clear"@ != "Snowfall"@,
        "Mainly clear"@ != "Snow grains"@,
        "Mainly clear"@ != "Rain showers"@,
        "Mainly clear"@ != "Snow showers"@,
        "Mainly clear"@ != "Thunderstorm"@,
        "Mainly clear"@ != "Thunderstorm, hail"@,
        "Mainly clear"@ != "Unknown"@,
        "Partly cloudy"@ != "Overcast"@,
        "Partly cloudy"@ != "Fog"@,
        "Partly cloudy"@ != "Drizzle"@,
        "Partly cloudy"@ != "Freezing drizzle"@,
        "Partly cloudy"@ != "Rain"@,
        "Partly cloudy"@ != "Freezing rain"@,
        "Partly cloudy"@ != "Snowfall"@,
        "Partly cloudy"@ != "Snow grains"@,
        "Partly cloudy"@ != "Rain showers"@,
        "Partly cloudy"@ != "Snow showers"@,
        "Partly cloudy"@ != "Thunderstorm"@,
        "Partly cloudy"@ != "Thunderstorm, hail"@,
        "Partly cloudy"@ != "Unknown"@,
        "Overcast"@ != "Fog"@,
        "Overcast"@ != "Drizzle"@,
        "Overcast"@ != "Freezing drizzle"@,
        "Overcast"@ != "Rain"@,
        "Overcast"@ != "Freezing rain"@,
        "Overcast"@ != "Snowfall"@,
        "Overcast"@ != "Snow grains"@,
        "Overcast"@ != "Rain showers"@,
        "Overcast"@ != "Snow showers"@,
        "Overcast"@ != "Thunderstorm"@,
        "Overcast"@ != "Thunderstorm, hail"@,
        "Overcast"@ != "Unknown"@,
        "Fog"@ != "Drizzle"@,
        "Fog"@ != "Freezing drizzle"@,
        "Fog"@ != "Rain"@,
        "Fog"@ != "Freezing rain"@,
        "Fog"@ != "Snowfall"@,
        "Fog"@ != "Snow grains"@,
        "Fog"@ != "Rain showers"@,
        "Fog"@ != "Snow showers"@,
        "Fog"@ != "Thunderstorm"@,
        "Fog"@ != "Thunderstorm, hail"@,
        "Fog"@ != "Unknown"@,
        "Drizzle"@ != "Freezing drizzle"@,
        "Drizzle"@ != "Rain"@,
        "Drizzle"@ != "Freezing rain"@,
        "Drizzle"@ != "Snowfall"@,
        "Drizzle"@ != "Snow grains"@,
        "Drizzle"@ != "Rain showers"@,
        "Drizzle"@ != "Snow showers"@,
        "Drizzle"@ != "Thunderstorm"@,
        "Drizzle"@ != "Thunderstorm, hail"@,
        "Drizzle"@ != "Unknown"@,
        "Freezing drizzle"@ != "Rain"@,
        "Freezing drizzle"@ != "Freezing rain"@,
        "Freezing drizzle"@ != "Snowfall"@,
        "Freezing drizzle"@ != "Snow grains"@,
        "Freezing drizzle"@ != "Rain showers"@,
        "Freezing drizzle"@ != "Snow showers"@,
        "Freezing drizzle"@ != "Thunderstorm"@,
        "Freezing drizzle"@ != "Thunderstorm, hail"@,
        "Freezing drizzle"@ != "Unknown"@,
        "Rain"@ != "Freezing rain"@,
        "Rain"@ != "Snowfall"@,
        "Rain"@ != "Snow grains"@,
        "Rain"@ != "Rain showers"@,
        "Rain"@ != "Snow showers"@,
        "Rain"@ != "Thunderstorm"@,
        "Rain"@ != "Thunderstorm, hail"@,
        "Rain"@ != "Unknown"@,
        "Freezing rain"@ != "Snowfall"@,
        "Freezing rain"@ != "Snow grains"@,
        "Freezing rain"@ != "Rain showers"@,
        "Freezing rain"@ != "Snow showers"@,
        "Freezing rain"@ != "Thunderstorm"@,
        "Freezing rain"@ != "Thunderstorm, hail"@,
        "Freezing rain"@ != "Unknown"@,
        "Snowfall"@ != "Snow grains"@,
        "Snowfall"@ != "Rain showers"@,
        "Snowfall"@ != "Snow showers"@,
        "Snowfall"@ != "Thunderstorm"@,
        "Snowfall"@ != "Thunderstorm, hail"@,
        "Snowfall"@ != "Unknown"@,
        "Snow grains"@ != "Rain showers"@,
        "Snow grains"@ != "Snow showers"@,
        "Snow grains"@ != "Thunderstorm"@,
        "Snow grains"@ != "Thunderstorm, hail"@,
        "Snow grains"@ != "Unknown"@,
        "Rain showers"@ != "Snow showers"@,
        "Rain showers"@ != "Thunderstorm"@,
        "Rain showers"@ != "Thunderstorm, hail"@,
        "Rain showers"@ != "Unknown"@,
        "Snow showers"@ != "Thunderstorm"@,
        "Snow showers"@ != "Thunderstorm, hail"@,
        "Snow showers"@ != "Unknown"@,
        "Thunderstorm"@ != "Thunderstorm, hail"@,
        "Thunderstorm"@ != "Unknown"@,
        "Thunderstorm, hail"@ != "Unknown"@,
{
    reveal_strlit("Clear sky");
    reveal_strlit("Mainly clear");
    reveal_strlit("Partly cloudy");
    reveal_strlit("Overcast");
    reveal_strlit("Fog");
    reveal_strlit("Drizzle");
    reveal_strlit("Freezing drizzle");
    reveal_strlit("Rain");
    reveal_strlit("Freezing rain");
    reveal_strlit("Snowfall");
    reveal_strlit("Snow grains");
    reveal_strlit("Rain showers");
    reveal_strlit("Snow showers");
    reveal_strlit("Thunderstorm");
    reveal_strlit("Thunderstorm, hail");
    reveal_strlit("Unknown");
    assert("Clear sky"@.len() != "Mainly clear"@.len() || "Clear sky"@[0] != "Mainly clear"@[0]);
    assert("Clear sky"@.len() != "Partly cloudy"@.len() || "Clear sky"@[0] != "Partly cloudy"@[0]);
    assert("Clear sky"@.len() != "Overcast"@.len() || "Clear sky"@[0] != "Overcast"@[0]);
    assert("Clear sky"@.len() != "Fog"@.len() || "Clear sky"@[0] != "Fog"@[0]);
    assert("Clear sky"@.len() != "Drizzle"@.len() || "Clear sky"@[0] != "Drizzle"@[0]);
    assert("Clear sky"@.len() != "Freezing drizzle"@.len() || "Clear sky"@[0] != "Freezing drizzle"@[0]);
    assert("Clear sky"@.len() != "Rain"@.len() || "Clear sky"@[0] != "Rain"@[0]);
    assert("Clear sky"@.len() != "Freezing rain"@.len() || "Clear sky"@[0] != "Freezing rain"@[0]);
    assert("Clear sky"@.len() != "Snowfall"@.len() || "Clear sky"@[0] != "Snowfall"@[0]);
    assert("Clear sky"@.len() != "Snow grains"@.len() || "Clear sky"@[0] != "Snow grains"@[0]);
    assert("Clear sky"@.len() != "Rain showers"@.len() || "Clear sky"@[0] != "Rain showers"@[0]);
    assert("Clear sky"@.len() != "Snow showers"@.len() || "Clear sky"@[0] != "Snow showers"@[0]);
    assert("Clear sky"@.len() != "Thunderstorm"@.len() || "Clear sky"@[0] != "Thunderstorm"@[0]);
    assert("Clear sky"@.len() != "Thunderstorm, hail"@.len() || "Clear sky"@[0] != "Thunderstorm, hail"@[0]);
    assert("Clear sky"@.len() != "Unknown"@.len() || "Clear sky"@[0] != "Unknown"@[0]);
    assert("Mainly clear"@.len() != "Partly cloudy"@.len() || "Mainly clear"@[0] != "Partly cloudy"@[0]);
    assert("Mainly clear"@.len() != "Overcast"@.len() || "Mainly clear"@[0] != "Overcast"@[0]);
    assert("Mainly clear"@.len() != "Fog"@.len() || "Mainly clear"@[0] != "Fog"@[0]);
    assert("Mainly clear"@.len() != "Drizzle"@.len() || "Mainly clear"@[0] != "Drizzle"@[0]);
    assert("Mainly clear"@.len() != "Freezing drizzle"@.len() || "Mainly clear"@[0] != "Freezing drizzle"@[0]);
    assert("Mainly clear"@.len() != "Rain"@.len() || "Mainly clear"@[0] != "Rain"@[0]);
    assert("Mainly clear"@.len() != "Freezing rain"@.len() || "Mainly clear"@[0] != "Freezing rain"@[0]);
    assert("Mainly clear"@.len() != "Snowfall"@.len() || "Mainly clear"@[0] != "Snowfall"@[0]);
    assert("Mainly clear"@.len() != "Snow grains"@.len() || "Mainly clear"@[0] != "Snow grains"@[0]);
    assert("Mainly clear"@.len() != "Rain showers"@.len() || "Mainly clear"@[0] != "Rain showers"@[0]);
    assert("Mainly clear"@.len() != "Snow showers"@.len() || "Mainly clear"@[0] != "Snow showers"@[0]);
    assert("Mainly clear"@.len() != "Thunderstorm"@.len() || "Mainly clear"@[0] != "Thunderstorm"@[0]);
    assert("Mainly clear"@.len() != "Thunderstorm, hail"@.len() || "Mainly clear"@[0] != "Thunderstorm, hail"@[0]);
    assert("Mainly clear"@.len() != "Unknown"@.len() || "Mainly clear"@[0] != "Unknown"@[0]);
    assert("Partly cloudy"@.len() != "Overcast"@.len() || "Partly cloudy"@[0] != "Overcast"@[0]);
    assert("Partly cloudy"@.len() != "Fog"@.len() || "Partly cloudy"@[0] != "Fog"@[0]);
    assert("Partly cloudy"@.len() != "Drizzle"@.len() || "Partly cloudy"@[0] != "Drizzle"@[0]);
    assert("Partly cloudy"@.len() != "Freezing drizzle"@.len() || "Partly cloudy"@[0] != "Freezing drizzle"@[0]);
    assert("Partly cloudy"@.len() != "Rain"@.len() || "Partly cloudy"@[0] != "Rain"@[0]);
    assert("Partly cloudy"@.len() != "Freezing rain"@.len() || "Partly cloudy"@[0] != "Freezing rain"@[0]);
    assert("Partly cloudy"@.len() != "Snowfall"@.len() || "Partly cloudy"@[0] != "Snowfall"@[0]);
    assert("Partly cloudy"@.len() != "Snow grains"@.len() || "Partly cloudy"@[0] != "Snow grains"@[0]);
    assert("Partly cloudy"@.len() != "Rain showers"@.len() || "Partly cloudy"@[0] != "Rain showers"@[0]);
    assert("Partly cloudy"@.len() != "Snow showers"@.len() || "Partly cloudy"@[0] != "Snow showers"@[0]);
    assert("Partly cloudy"@.len() != "Thunderstorm"@.len() || "Partly cloudy"@[0] != "Thunderstorm"@[0]);
    assert("Partly cloudy"@.len() != "Thunderstorm, hail"@.len() || "Partly cloudy"@[0] != "Thunderstorm, hail"@[0]);
    assert("Partly cloudy"@.len() != "Unknown"@.len() || "Partly cloudy"@[0] != "Unknown"@[0]);
    assert("Overcast"@.len() != "Fog"@.len() || "Overcast"@[0] != "Fog"@[0]);
    assert("Overcast"@.len() != "Drizzle"@.len() || "Overcast"@[0] != "Drizzle"@[0]);
    assert("Overcast"@.len() != "Freezing drizzle"@.len() || "Overcast"@[0] != "Freezing drizzle"@[0]);
    assert("Overcast"@.len() != "Rain"@.len() || "Overcast"@[0] != "Rain"@[0]);
    assert("Overcast"@.len() != "Freezing rain"@.len() || "Overcast"@[0] != "Freezing rain"@[0]);
    assert("Overcast"@.len() != "Snowfall"@.len() || "Overcast"@[0] != "Snowfall"@[0]);
    assert("Overcast"@.len() != "Snow grains"@.len() || "Overcast"@[0] != "Snow grains"@[0]);
    assert("Overcast"@.len() != "Rain showers"@.len() || "Overcast"@[0] != "Rain showers"@[0]);
    assert("Overcast"@.len() != "Snow showers"@.len() || "Overcast"@[0] != "Snow showers"@[0]);
    assert("Overcast"@.len() != "Thunderstorm"@.len() || "Overcast"@[0] != "Thunderstorm"@[0]);
    assert("Overcast"@.len() != "Thunderstorm, hail"@.len() || "Overcast"@[0] != "Thunderstorm, hail"@[0]);
    assert("Overcast"@.len() != "Unknown"@.len() || "Overcast"@[0] != "Unknown"@[0]);
    assert("Fog"@.len() != "Drizzle"@.len() || "Fog"@[0] != "Drizzle"@[0]);
    assert("Fog"@.len() != "Freezing drizzle"@.len() || "Fog"@[0] != "Freezing drizzle"@[0]);
    assert("Fog"@.len() != "Rain"@.len() || "Fog"@[0] != "Rain"@[0]);
    assert("Fog"@.len() != "Freezing rain"@.len() || "Fog"@[0] != "Freezing rain"@[0]);
    assert("Fog"@.len() != "Snowfall"@.len() || "Fog"@[0] != "Snowfall"@[0]);
    assert("Fog"@.len() != "Snow grains"@.len() || "Fog"@[0] != "Snow grains"@[0]);
    assert("Fog"@.len() != "Rain showers"@.len() || "Fog"@[0] != "Rain showers"@[0]);
    assert("Fog"@.len() != "Snow showers"@.len() || "Fog"@[0] != "Snow showers"@[0]);
    assert("Fog"@.len() != "Thunderstorm"@.len() || "Fog"@[0] != "Thunderstorm"@[0]);
    assert("Fog"@.len() != "Thunderstorm, hail"@.len() || "Fog"@[0] != "Thunderstorm, hail"@[0]);
    assert("Fog"@.len() != "Unknown"@.len() || "Fog"@[0] != "Unknown"@[0]);
    assert("Drizzle"@.len() != "Freezing drizzle"@.len() || "Drizzle"@[0] != "Freezing drizzle"@[0]);
    assert("Drizzle"@.len() != "Rain"@.len() || "Drizzle"@[0] != "Rain"@[0]);
    assert("Drizzle"@.len() != "Freezing rain"@.len() || "Drizzle"@[0] != "Freezing rain"@[0]);
    assert("Drizzle"@.len() != "Snowfall"@.len() || "Drizzle"@[0] != "Snowfall"@[0]);
    assert("Drizzle"@.len() != "Snow grains"@.len() || "Drizzle"@[0] != "Snow grains"@[0]);
    assert("Drizzle"@.len() != "Rain showers"@.len() || "Drizzle"@[0] != "Rain showers"@[0]);
    assert("Drizzle"@.len() != "Snow showers"@.len() || "Drizzle"@[0] != "Snow showers"@[0]);
    assert("Drizzle"@.len() != "Thunderstorm"@.len() || "Drizzle"@[0] != "Thunderstorm"@[0]);
    assert("Drizzle"@.len() != "Thunderstorm, hail"@.len() || "Drizzle"@[0] != "Thunderstorm, hail"@[0]);
    assert("Drizzle"@.len() != "Unknown"@.len() || "Drizzle"@[0] != "Unknown"@[0]);
    assert("Freezing drizzle"@.len() != "Rain"@.len() || "Freezing drizzle"@[0] != "Rain"@[0]);
    assert("Freezing drizzle"@.len() != "Freezing rain"@.len() || "Freezing drizzle"@[0] != "Freezing rain"@[0]);
    assert("Freezing drizzle"@.len() != "Snowfall"@.len() || "Freezing drizzle"@[0] != "Snowfall"@[0]);
    assert("Freezing drizzle"@.len() != "Snow grains"@.len() || "Freezing drizzle"@[0] != "Snow grains"@[0]);
    assert("Freezing drizzle"@.len() != "Rain showers"@.len() || "Freezing drizzle"@[0] != "Rain showers"@[0]);
    assert("Freezing drizzle"@.len() != "Snow showers"@.len() || "Freezing drizzle"@[0] != "Snow showers"@[0]);
    assert("Freezing drizzle"@.len() != "Thunderstorm"@.len() || "Freezing drizzle"@[0] != "Thunderstorm"@[0]);
    assert("Freezing drizzle"@.len() != "Thunderstorm, hail"@.len() || "Freezing drizzle"@[0] != "Thunderstorm, hail"@[0]);
    assert("Freezing drizzle"@.len() != "Unknown"@.len() || "Freezing drizzle"@[0] != "Unknown"@[0]);
    assert("Rain"@.len() != "Freezing rain"@.len() || "Rain"@[0] != "Freezing rain"@[0]);
    assert("Rain"@.len() != "Snowfall"@.len() || "Rain"@[0] != "Snowfall"@[0]);
    assert("Rain"@.len() != "Snow grains"@.len() || "Rain"@[0] != "Snow grains"@[0]);
    assert("Rain"@.len() != "Rain showers"@.len() || "Rain"@[0] != "Rain showers"@[0]);
    assert("Rain"@.len() != "Snow showers"@.len() || "Rain"@[0] != "Snow showers"@[0]);
    assert("Rain"@.len() != "Thunderstorm"@.len() || "Rain"@[0] != "Thunderstorm"@[0]);
    assert("Rain"@.len() != "Thunderstorm, hail"@.len() || "Rain"@[0] != "Thunderstorm, hail"@[0]);
    assert("Rain"@.len() != "Unknown"@.len() || "Rain"@[0] != "Unknown"@[0]);
    assert("Freezing rain"@.len() != "Snowfall"@.len() || "Freezing rain"@[0] != "Snowfall"@[0]);
    assert("Freezing rain"@.len() != "Snow grains"@.len() || "Freezing rain"@[0] != "Snow grains"@[0]);
    assert("Freezing rain"@.len() != "Rain showers"@.len() || "Freezing rain"@[0] != "Rain showers"@[0]);
    assert("Freezing rain"@.len() != "Snow showers"@.len() || "Freezing rain"@[0] != "Snow showers"@[0]);
    assert("Freezing rain"@.len() != "Thunderstorm"@.len() || "Freezing rain"@[0] != "Thunderstorm"@[0]);
    assert("Freezing rain"@.len() != "Thunderstorm, hail"@.len() || "Freezing rain"@[0] != "Thunderstorm, hail"@[0]);
    assert("Freezing rain"@.len() != "Unknown"@.len() || "Freezing rain"@[0] != "Unknown"@[0]);
    assert("Snowfall"@.len() != "Snow grains"@.len() || "Snowfall"@[0] != "Snow grains"@[0]);
    assert("Snowfall"@.len() != "Rain showers"@.len() || "Snowfall"@[0] != "Rain showers"@[0]);
    assert("Snowfall"@.len() != "Snow showers"@.len() || "Snowfall"@[0] != "Snow showers"@[0]);
    assert("Snowfall"@.len() != "Thunderstorm"@.len() || "Snowfall"@[0] != "Thunderstorm"@[0]);
    assert("Snowfall"@.len() != "Thunderstorm, hail"@.len() || "Snowfall"@[0] != "Thunderstorm, hail"@[0]);
    assert("Snowfall"@.len() != "Unknown"@.len() || "Snowfall"@[0] != "Unknown"@[0]);
    assert("Snow grains"@.len() != "Rain showers"@.len() || "Snow grains"@[0] != "Rain showers"@[0]);
    assert("Snow grains"@.len() != "Snow showers"@.len() || "Snow grains"@[0] != "Snow showers"@[0]);
    assert("Snow grains"@.len() != "Thunderstorm"@.len() || "Snow grains"@[0] != "Thunderstorm"@[0]);
    assert("Snow grains"@.len() != "Thunderstorm, hail"@.len() || "Snow grains"@[0] != "Thunderstorm, hail"@[0]);
    assert("Snow grains"@.len() != "Unknown"@.len() || "Snow grains"@[0] != "Unknown"@[0]);
    assert("Rain showers"@.len() != "Snow showers"@.len() || "Rain showers"@[0] != "Snow showers"@[0]);
    assert("Rain showers"@.len() != "Thunderstorm"@.len() || "Rain showers"@[0] != "Thunderstorm"@[0]);
    assert("Rain showers"@.len() != "Thunderstorm, hail"@.len() || "Rain showers"@[0] != "Thunderstorm, hail"@[0]);
    assert("Rain showers"@.len() != "Unknown"@.len() || "Rain showers"@[0] != "Unknown"@[0]);
    assert("Snow showers"@.len() != "Thunderstorm"@.len() || "Snow showers"@[0] != "Thunderstorm"@[0]);
    assert("Snow showers"@.len() != "Thunderstorm, hail"@.len() || "Snow showers"@[0] != "Thunderstorm, hail"@[0]);
    assert("Snow showers"@.len() != "Unknown"@.len() || "Snow showers"@[0] != "Unknown"@[0]);
    assert("Thunderstorm"@.len() != "Thunderstorm, hail"@.len() || "Thunderstorm"@[0] != "Thunderstorm, hail"@[0]);
    assert("Thunderstorm"@.len() != "Unknown"@.len() || "Thunderstorm"@[0] != "Unknown"@[0]);
    assert("Thunderstorm, hail"@.len() != "Unknown"@.len() || "Thunderstorm, hail"@[0] != "Unknown"@[0]);
}

/// The label names a freezing precipitation.
pub open spec fn is_freezing(label: Seq<char>) -> bool {
    label.len() >= 8 && label.take(8) == "Freezing"@
}

/// The detailed label of a code agrees with its coarse label: both name the
/// same kind of weather, the detailed one being `Unknown` only where the
/// WMO table has no such code.
pub proof fn lemma_wmo_labels_agree(code: int)
    ensures
        wmo_coarse_label(code) == "Clear Sky"@ ==> wmo_label(code) == "Clear sky"@,
        wmo_coarse_label(code) == "Partly Cloudy"@ ==> (wmo_label(code) == "Mainly clear"@
            || wmo_label(code) == "Partly cloudy"@ || wmo_label(code) == "Overcast"@),
        wmo_coarse_label(code) == "Fog / Mist"@ ==> wmo_label(code) == "Fog"@,
        wmo_coarse_label(code) == "Drizzle"@ ==> (wmo_label(code) == "Drizzle"@ || wmo_label(code)
            == "Unknown"@),
        wmo_coarse_label(code) == "Rain"@ ==> (wmo_label(code) == "Rain"@ || wmo_label(code)
            == "Unknown"@),
        wmo_coarse_label(code) == "Snow Fall"@ ==> (wmo_label(code) == "Snowfall"@ || wmo_label(code)
            == "Unknown"@),
        wmo_coarse_label(code) == "Rain Showers"@ ==> wmo_label(code) == "Rain showers"@,
        wmo_coarse_label(code) == "Thunderstorm"@ ==> (wmo_label(code) == "Thunderstorm"@
            || wmo_label(code) == "Thunderstorm, hail"@ || wmo_label(code) == "Unknown"@),
{
    lemma_coarse_labels_distinct();
    lemma_labels_distinct();
}

/// Only freezing drizzle and freezing rain (WMO 56, 57, 66, 67) get a
/// `Freezing ...` label.
pub proof fn lemma_wmo_freezing(code: int)
    ensures
        is_freezing(wmo_label(code)) <==> (code == 56 || code == 57 || code == 66 || code == 67),
{
    reveal_strlit("Freezing");
    reveal_strlit("Clear sky");
    reveal_strlit("Mainly clear");
    reveal_strlit("Partly cloudy");
    reveal_strlit("Overcast");
    reveal_strlit("Fog");
    reveal_strlit("Drizzle");
    reveal_strlit("Freezing drizzle");
    reveal_strlit("Rain");
    reveal_strlit("Freezing rain");
    reveal_strlit("Snowfall");
    reveal_strlit("Snow grains");
    reveal_strlit("Rain showers");
    reveal_strlit("Snow showers");
    reveal_strlit("Thunderstorm");
    reveal_strlit("Thunderstorm, hail");
    reveal_strlit("Unknown");
    let l = wmo_label(code);
    if code == 56 || code == 57 || code == 66 || code == 67 {
        assert(l.take(8) =~= "Freezing"@);
    } else if l.len() >= 8 {
        assert(l.take(8)[0] != "Freezing"@[0]);
    }
}

/// The detailed label agrees with the pictogram: rain and drizzle labels
/// show rain, snow labels snow, thunderstorm labels a thunderstorm, fog fog,
/// clear skies a sun, and an overcast sky a cloud.
pub proof fn lemma_wmo_label_icon(code: int)
    ensures
        (wmo_label(code) == "Rain"@ || wmo_label(code) == "Drizzle"@ || wmo_label(code) == "Rain showers"@
            || is_freezing(wmo_label(code))) ==> icon_for(code) == IconKind::Rain,
        (wmo_label(code) == "Snowfall"@ || wmo_label(code) == "Snow grains"@ || wmo_label(code)
            == "Snow showers"@) ==> icon_for(code) == IconKind::Snow,
        (wmo_label(code) == "Thunderstorm"@ || wmo_label(code) == "Thunderstorm, hail"@) ==> icon_for(code)
            == IconKind::Thunder,
        wmo_label(code) == "Fog"@ ==> icon_for(code) == IconKind::Fog,
        (wmo_label(code) == "Clear sky"@ || wmo_label(code) == "Mainly clear"@) ==> icon_for(code)
            == IconKind::Clear,
        wmo_label(code) == "Overcast"@ ==> icon_for(code) == IconKind::Cloudy,
{
    lemma_wmo_freezing(code);
    lemma_labels_distinct();
}

}
