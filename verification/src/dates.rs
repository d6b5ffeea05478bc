//! Calendar arithmetic and the date/time strings shown on the dashboard and
//! sent to the timetable and calendar services.

use vstd::prelude::*;
use vstd::utf8::{encode_utf8, is_ascii_chars, is_ascii_chars_encode_utf8};
use crate::text::{bytes_lt, digit_char, digits, str_lt, zeros, fmt_int, push_char, push_int, push_str, push_chars, str_chars, str_eq, str_get, field_or, lemma_field_or_bound, lemma_parse_value_bound, lemma_slice_len, parse_field, slice_of};

verus! {

/// Broken-down calendar time, field for field as the C library fills it.
#[derive(Clone, Copy, Debug, PartialEq, Eq)]
pub struct Tm {
    pub tm_sec: i32,
    pub tm_min: i32,
    pub tm_hour: i32,
    pub tm_mday: i32,
    pub tm_mon: i32,
    pub tm_year: i32,
    pub tm_wday: i32,
    pub tm_yday: i32,
    pub tm_isdst: i32,
}

/// Three-letter English month abbreviation for a 1-based month.
pub open spec fn month_name(m: int) -> Seq<char> {
    if m == 1 {
        "Jan"@
    } else if m == 2 {
        "Feb"@
    } else if m == 3 {
        "Mar"@
    } else if m == 4 {
        "Apr"@
    } else if m == 5 {
        "May"@
    } else if m == 6 {
        "Jun"@
    } else if m == 7 {
        "Jul"@
    } else if m == 8 {
        "Aug"@
    } else if m == 9 {
        "Sep"@
    } else if m == 10 {
        "Oct"@
    } else if m == 11 {
        "Nov"@
    } else if m == 12 {
        "Dec"@
    } else {
        ""@
    }
}

/// Three-letter English weekday abbreviation, 0 = Sunday.
pub open spec fn weekday_name(i: int) -> Seq<char> {
    if i == 0 {
        "Sun"@
    } else if i == 1 {
        "Mon"@
    } else if i == 2 {
        "Tue"@
    } else if i == 3 {
        "Wed"@
    } else if i == 4 {
        "Thu"@
    } else if i == 5 {
        "Fri"@
    } else if i == 6 {
        "Sat"@
    } else {
        ""@
    }
}

/// Three-letter month abbreviation for a 1-based month number; empty when the
/// number is not a month.
pub fn month_abbr(m: usize) -> (r: &'static str)
    ensures
        r@ == month_name(m as int),
{
    match m {
        1 => "Jan",
        2 => "Feb",
        3 => "Mar",
        4 => "Apr",
        5 => "May",
        6 => "Jun",
        7 => "Jul",
        8 => "Aug",
        9 => "Sep",
        10 => "Oct",
        11 => "Nov",
        12 => "Dec",
        _ => "",
    }
}

fn weekday_abbr(i: i64) -> (r: &'static str)
    ensures
        r@ == weekday_name(i as int),
{
    match i {
        0 => "Sun",
        1 => "Mon",
        2 => "Tue",
        3 => "Wed",
        4 => "Thu",
        5 => "Fri",
        6 => "Sat",
        _ => "",
    }
}

/// Division rounding towards zero, as Rust's `/` on signed integers.
pub open spec fn tdiv(a: int, b: int) -> int {
    if a >= 0 {
        a / b
    } else {
        -((-a) / b)
    }
}

/// Month offsets of Sakamoto's weekday algorithm.
pub open spec fn sakamoto_offset(m: int) -> int {
    if m == 1 {
        0
    } else if m == 2 {
        3
    } else if m == 3 {
        2
    } else if m == 4 {
        5
    } else if m == 5 {
        0
    } else if m == 6 {
        3
    } else if m == 7 {
        5
    } else if m == 8 {
        1
    } else if m == 9 {
        4
    } else if m == 10 {
        6
    } else if m == 11 {
        2
    } else {
        4
    }
}

/// Day of the week (0 = Sunday) of a proleptic Gregorian date.
pub open spec fn weekday_index(y: int, m: int, d: int) -> int {
    let yy = if m < 3 {
        y - 1
    } else {
        y
    };
    (yy + tdiv(yy, 4) - tdiv(yy, 100) + tdiv(yy, 400) + sakamoto_offset(m) + d) % 7
}

/// Year, month and day read from a `YYYY-MM-DD` string, with the defaults
/// used when a field is missing or malformed (2000, 1, 1).
pub open spec fn date_year(date: Seq<char>) -> int {
    field_or(date, 0, 4, i32::MIN as int, i32::MAX as int, 2000)
}

pub open spec fn date_month(date: Seq<char>) -> int {
    field_or(date, 5, 7, 0, usize::MAX as int, 1)
}

pub open spec fn date_day(date: Seq<char>) -> int {
    field_or(date, 8, 10, i32::MIN as int, i32::MAX as int, 1)
}

/// The weekday of `date` can be computed: its month field is a month.
pub open spec fn weekday_defined(date: Seq<char>) -> bool {
    1 <= date_month(date) <= 12
}

/// Weekday abbreviation of a `YYYY-MM-DD` date.
pub open spec fn weekday_of(date: Seq<char>) -> Seq<char> {
    weekday_name(weekday_index(date_year(date), date_month(date), date_day(date)))
}

fn sakamoto(m: i64) -> (r: i64)
    requires
        1 <= m <= 12,
    ensures
        r == sakamoto_offset(m as int),
{
    match m {
        1 => 0,
        2 => 3,
        3 => 2,
        4 => 5,
        5 => 0,
        6 => 3,
        7 => 5,
        8 => 1,
        9 => 4,
        10 => 6,
        11 => 2,
        _ => 4,
    }
}

/// Weekday abbreviation for a `YYYY-MM-DD` date using Sakamoto's algorithm.
/// Missing or malformed fields count as year 2000, month 1, day 1.
pub fn weekday(date: &str) -> (r: &'static str)
    requires
        weekday_defined(date@),
    ensures
        r@ == weekday_of(date@),
{
    let y = parse_field(date, 0, 4, i32::MIN as i64, i32::MAX as i64, 2000);
    let m = parse_field(date, 5, 7, 0, i64::MAX, 1);
    let d = parse_field(date, 8, 10, i32::MIN as i64, i32::MAX as i64, 1);
    proof {
        lemma_field_or_bound(date@, 5, 7, 0, i64::MAX as int, usize::MAX as int, 1);
        lemma_field_bounds(date@, 0, 4, 2000);
        lemma_field_bounds(date@, 8, 10, 1);
    }
    let yy = if m < 3 { y - 1 } else { y };
    let sum = yy + yy / 4 - yy / 100 + yy / 400 + sakamoto(m) + d;
    let mut idx = sum % 7;
    if idx < 0 {
        idx = idx + 7;
    }
    assert(idx == sum as int % 7);
    weekday_abbr(idx)
}

/// Fields of at most four bytes hold values of at most four digits.
proof fn lemma_field_bounds(s: Seq<char>, a: int, b: int, default: int)
    requires
        b == a + 4 || b == a + 2,
        -10000 < default < 10000,
    ensures
        -10000 < field_or(s, a, b, i32::MIN as int, i32::MAX as int, default) < 10000,
{
    if slice_of(s, a, b) is Some {
        lemma_slice_len(s, a, b);
        let t = slice_of(s, a, b).unwrap();
        lemma_parse_value_bound(t, i32::MIN as int, i32::MAX as int);
    }
}


/// Gregorian leap year.
pub open spec fn is_leap(y: int) -> bool {
    (y % 4 == 0 && y % 100 != 0) || y % 400 == 0
}

/// Days in month `m` of year `y`; 30 for a number that is not a month.
pub open spec fn month_days(y: int, m: int) -> int {
    if m == 1 || m == 3 || m == 5 || m == 7 || m == 8 || m == 10 || m == 12 {
        31
    } else if m == 4 || m == 6 || m == 9 || m == 11 {
        30
    } else if m == 2 {
        if is_leap(y) {
            29
        } else {
            28
        }
    } else {
        30
    }
}

/// Days in month `m` (1-based) of year `y`.
pub fn days_in_month(y: i32, m: usize) -> (r: i32)
    ensures
        r == month_days(y as int, m as int),
{
    match m {
        1 | 3 | 5 | 7 | 8 | 10 | 12 => 31,
        4 | 6 | 9 | 11 => 30,
        2 => {
            if (y % 4 == 0 && y % 100 != 0) || y % 400 == 0 {
                29
            } else {
                28
            }
        },
        _ => 30,
    }
}

/// `YYYY-MM-DD` as written by `{:04}-{:02}-{:02}`.
pub open spec fn ymd_text(y: int, m: int, d: int) -> Seq<char> {
    fmt_int(y, 4) + "-"@ + fmt_int(m, 2) + "-"@ + fmt_int(d, 2)
}

/// The month field read as a signed number (default 1).
pub open spec fn date_month_signed(date: Seq<char>) -> int {
    field_or(date, 5, 7, i32::MIN as int, i32::MAX as int, 1)
}

/// The day before (y, m, d): the day number drops by one; below 1 it moves
/// to the last day of the previous month, wrapping December into the
/// previous year.
pub open spec fn day_before(y: int, m: int, d: int) -> (int, int, int) {
    if d - 1 < 1 {
        if m - 1 < 1 {
            (y - 1, 12, month_days(y - 1, 12))
        } else {
            (y, m - 1, month_days(y, m - 1))
        }
    } else {
        (y, m, d - 1)
    }
}

/// `YYYY-MM-DD` of the day before `date`.
pub open spec fn prev_day_of(date: Seq<char>) -> Seq<char> {
    let (y, m, d) = day_before(date_year(date), date_month_signed(date), date_day(date));
    ymd_text(y, m, d)
}

/// Appends `{:04}-{:02}-{:02}`.
fn push_ymd(s: &mut String, y: i64, m: i64, d: i64)
    ensures
        final(s)@ == old(s)@ + ymd_text(y as int, m as int, d as int),
{
    let ghost start = s@;
    push_int(s, y, 4);
    push_str(s, "-");
    push_int(s, m, 2);
    push_str(s, "-");
    push_int(s, d, 2);
    assert(s@ =~= start + ymd_text(y as int, m as int, d as int));
}

/// The calendar date (`YYYY-MM-DD`) one day before `date`.
pub fn prev_day(date: &str) -> (r: String)
    ensures
        r@ == prev_day_of(date@),
{
    let mut y = parse_field(date, 0, 4, i32::MIN as i64, i32::MAX as i64, 2000);
    let mut m = parse_field(date, 5, 7, i32::MIN as i64, i32::MAX as i64, 1);
    let mut d = parse_field(date, 8, 10, i32::MIN as i64, i32::MAX as i64, 1);
    proof {
        lemma_field_bounds(date@, 0, 4, 2000);
        lemma_field_bounds(date@, 5, 7, 1);
        lemma_field_bounds(date@, 8, 10, 1);
    }
    d = d - 1;
    if d < 1 {
        m = m - 1;
        if m < 1 {
            m = 12;
            y = y - 1;
        }
        d = days_in_month(y as i32, m as usize) as i64;
    }
    let mut r = String::new();
    push_ymd(&mut r, y, m, d);
    assert(r@ =~= prev_day_of(date@));
    r
}

/// `s` without its leading `'0'` characters.
pub open spec fn strip_zeros(s: Seq<char>) -> Seq<char>
    decreases s.len(),
{
    if s.len() > 0 && s[0] == '0' {
        strip_zeros(s.drop_first())
    } else {
        s
    }
}

/// The day number of `date` without leading zeros (kept as is when it is
/// all zeros).
pub open spec fn day_label(date: Seq<char>) -> Seq<char> {
    let raw = match slice_of(date, 8, 10) {
        Some(t) => t,
        None => ""@,
    };
    if strip_zeros(raw).len() == 0 {
        raw
    } else {
        strip_zeros(raw)
    }
}

/// "Wed 24", or "Wed 1 Sep" when `date` lies outside `today`'s month.
pub open spec fn day_text(date: Seq<char>, today: Seq<char>) -> Seq<char> {
    if slice_of(date, 0, 7) == slice_of(today, 0, 7) {
        weekday_of(date) + " "@ + day_label(date)
    } else {
        weekday_of(date) + " "@ + day_label(date) + " "@ + month_name(
            field_or(date, 5, 7, 0, usize::MAX as int, 0),
        )
    }
}

proof fn lemma_strip_zeros(s: Seq<char>, k: int)
    requires
        0 <= k <= s.len(),
        forall|j: int| 0 <= j < k ==> s[j] == '0',
        k == s.len() || s[k] != '0',
    ensures
        strip_zeros(s) == s.subrange(k, s.len() as int),
    decreases k,
{
    if k == 0 {
        assert(s.subrange(0, s.len() as int) =~= s);
    } else {
        let t = s.drop_first();
        assert forall|j: int| 0 <= j < k - 1 implies t[j] == '0' by {
            assert(t[j] == s[j + 1]);
        }
        if k - 1 < t.len() {
            assert(t[k - 1] == s[k]);
        }
        lemma_strip_zeros(t, k - 1);
        assert(t.subrange(k - 1, t.len() as int) =~= s.subrange(k, s.len() as int));
    }
}

fn opt_str_eq(a: Option<&str>, b: Option<&str>) -> (r: bool)
    ensures
        r == (match (a, b) {
            (Some(x), Some(y)) => x@ == y@,
            (None, None) => true,
            _ => false,
        }),
{
    match (a, b) {
        (Some(x), Some(y)) => str_eq(x, y),
        (None, None) => true,
        _ => false,
    }
}

/// Format a date as "Wed 24", adding a 3-letter month ("Wed 1 Sep") when it
/// falls outside `today`'s month. Day numbers drop any leading zero.
pub fn fmt_day(date: &str, today: &str) -> (r: String)
    requires
        weekday_defined(date@),
    ensures
        r@ == day_text(date@, today@),
{
    let wd = weekday(date);
    let raw: Vec<char> = match str_get(date, 8, 10) {
        Some(t) => str_chars(t),
        None => {
            let v: Vec<char> = Vec::new();
            assert(v@ =~= ""@) by {
                reveal_strlit("");
            }
            v
        },
    };
    let mut k: usize = 0;
    while k < raw.len() && raw[k] == '0'
        invariant
            k <= raw.len(),
            forall|j: int| 0 <= j < k ==> raw@[j] == '0',
        decreases raw.len() - k,
    {
        k = k + 1;
    }
    proof {
        lemma_strip_zeros(raw@, k as int);
    }
    let mut r = String::new();
    push_str(&mut r, wd);
    push_str(&mut r, " ");
    if k == raw.len() {
        push_chars(&mut r, &raw, 0, raw.len());
        assert(raw@.subrange(0, raw.len() as int) =~= raw@);
    } else {
        push_chars(&mut r, &raw, k, raw.len());
    }
    if opt_str_eq(str_get(date, 0, 7), str_get(today, 0, 7)) {
        assert(r@ =~= day_text(date@, today@));
        r
    } else {
        let m = parse_field(date, 5, 7, 0, i64::MAX, 0);
        proof {
            lemma_field_or_bound(date@, 5, 7, 0, i64::MAX as int, usize::MAX as int, 0);
            lemma_slice_small(date@);
        }
        push_str(&mut r, " ");
        push_str(&mut r, month_abbr(m as usize));
        assert(r@ =~= day_text(date@, today@));
        r
    }
}

proof fn lemma_slice_small(date: Seq<char>)
    ensures
        0 <= field_or(date, 5, 7, 0, i64::MAX as int, 0) < 10000,
{
    if slice_of(date, 5, 7) is Some {
        lemma_slice_len(date, 5, 7);
        lemma_parse_value_bound(slice_of(date, 5, 7).unwrap(), 0, i64::MAX as int);
    }
}


/// The calendar year of a broken-down time (`tm_year + 1900`) does not
/// overflow `i32`.
pub open spec fn year_fits(tm: Tm) -> bool {
    tm.tm_year <= i32::MAX - 1900
}

/// The calendar year and the 1-based month number (`tm_mon + 1`) of a
/// broken-down time do not overflow `i32`.
pub open spec fn tm_fits(tm: Tm) -> bool {
    year_fits(tm) && tm.tm_mon < i32::MAX
}

/// `("Wed, 20 Aug 2026", "14:35")` for a broken-down local time.
pub open spec fn datetime_text(tm: Tm) -> (Seq<char>, Seq<char>) {
    (
        weekday_name((tm.tm_wday as int) % 7) + ", "@ + fmt_int(tm.tm_mday as int, 2) + " "@ + month_name(
            (tm.tm_mon as int) % 12 + 1,
        ) + " "@ + fmt_int(tm.tm_year + 1900, 0),
        fmt_int(tm.tm_hour as int, 2) + ":"@ + fmt_int(tm.tm_min as int, 2),
    )
}

/// Local (date, time) strings, e.g. ("Wed, 20 Aug 2026", "14:35").
pub fn local_datetime(tm: &Tm) -> (r: (String, String))
    requires
        year_fits(*tm),
    ensures
        r.0@ == datetime_text(*tm).0,
        r.1@ == datetime_text(*tm).1,
{
    let mut wd = tm.tm_wday % 7;
    if wd < 0 {
        wd = wd + 7;
    }
    let mut mo = tm.tm_mon % 12;
    if mo < 0 {
        mo = mo + 12;
    }
    assert(wd == tm.tm_wday as int % 7);
    assert(mo == tm.tm_mon as int % 12);
    let mut date = String::new();
    push_str(&mut date, weekday_abbr(wd as i64));
    push_str(&mut date, ", ");
    push_int(&mut date, tm.tm_mday as i64, 2);
    push_str(&mut date, " ");
    push_str(&mut date, month_abbr((mo + 1) as usize));
    push_str(&mut date, " ");
    push_int(&mut date, (tm.tm_year + 1900) as i64, 0);
    let mut time = String::new();
    push_int(&mut time, tm.tm_hour as i64, 2);
    push_str(&mut time, ":");
    push_int(&mut time, tm.tm_min as i64, 2);
    assert(date@ =~= datetime_text(*tm).0);
    assert(time@ =~= datetime_text(*tm).1);
    (date, time)
}

/// `YYMMDD` (two-digit year, month, day).
pub open spec fn db_date_text(tm: Tm) -> Seq<char> {
    fmt_int((tm.tm_year + 1900) % 100, 2) + fmt_int(tm.tm_mon + 1, 2) + fmt_int(tm.tm_mday as int, 2)
}

/// `HH`.
pub open spec fn db_hour_text(tm: Tm) -> Seq<char> {
    fmt_int(tm.tm_hour as int, 2)
}

/// `YYMMDDHHMM`.
pub open spec fn db_stamp_text(tm: Tm) -> Seq<char> {
    db_date_text(tm) + db_hour_text(tm) + fmt_int(tm.tm_min as int, 2)
}

/// `YYYY-MM-DD`.
pub open spec fn ymd_of(tm: Tm) -> Seq<char> {
    ymd_text(tm.tm_year + 1900, tm.tm_mon + 1, tm.tm_mday as int)
}

/// `YYYY-MM-DDTHH:MM:SSZ`.
pub open spec fn rfc3339_text(tm: Tm) -> Seq<char> {
    ymd_of(tm) + "T"@ + fmt_int(tm.tm_hour as int, 2) + ":"@ + fmt_int(tm.tm_min as int, 2) + ":"@
        + fmt_int(tm.tm_sec as int, 2) + "Z"@
}

/// `YYMMDD` for the DB `/plan/{eva}/{date}/{hour}` endpoint.
pub fn db_date(tm: &Tm) -> (r: String)
    requires
        tm_fits(*tm),
    ensures
        r@ == db_date_text(*tm),
{
    let mut yy = (tm.tm_year + 1900) % 100;
    if yy < 0 {
        yy = yy + 100;
    }
    assert(yy == (tm.tm_year + 1900) % 100);
    let mut r = String::new();
    push_int(&mut r, yy as i64, 2);
    push_int(&mut r, (tm.tm_mon + 1) as i64, 2);
    push_int(&mut r, tm.tm_mday as i64, 2);
    assert(r@ =~= db_date_text(*tm));
    r
}

/// `HH` for the DB `/plan/{eva}/{date}/{hour}` endpoint.
pub fn db_hour(tm: &Tm) -> (r: String)
    ensures
        r@ == db_hour_text(*tm),
{
    let mut r = String::new();
    push_int(&mut r, tm.tm_hour as i64, 2);
    assert(r@ =~= db_hour_text(*tm));
    r
}

/// `YYMMDDHHMM` timestamp used to filter and sort departures.
pub fn db_stamp(tm: &Tm) -> (r: String)
    requires
        tm_fits(*tm),
    ensures
        r@ == db_stamp_text(*tm),
{
    let mut r = db_date(tm);
    let h = db_hour(tm);
    push_str(&mut r, h.as_str());
    push_int(&mut r, tm.tm_min as i64, 2);
    assert(r@ =~= db_stamp_text(*tm));
    r
}

/// Local date as `YYYY-MM-DD` (used to decide the calendar's month display).
pub fn ymd(tm: &Tm) -> (r: String)
    requires
        tm_fits(*tm),
    ensures
        r@ == ymd_of(*tm),
{
    let mut r = String::new();
    push_ymd(&mut r, (tm.tm_year + 1900) as i64, (tm.tm_mon + 1) as i64, tm.tm_mday as i64);
    assert(r@ =~= ymd_of(*tm));
    r
}

/// A broken-down UTC time as an RFC3339 timestamp (`2026-08-20T12:34:56Z`).
pub fn rfc3339(tm: &Tm) -> (r: String)
    requires
        tm_fits(*tm),
    ensures
        r@ == rfc3339_text(*tm),
{
    let mut r = ymd(tm);
    push_str(&mut r, "T");
    push_int(&mut r, tm.tm_hour as i64, 2);
    push_str(&mut r, ":");
    push_int(&mut r, tm.tm_min as i64, 2);
    push_str(&mut r, ":");
    push_int(&mut r, tm.tm_sec as i64, 2);
    push_str(&mut r, "Z");
    assert(r@ =~= rfc3339_text(*tm));
    r
}


/// The day after (y, m, d) in the proleptic Gregorian calendar.
pub open spec fn day_after(y: int, m: int, d: int) -> (int, int, int) {
    if d < month_days(y, m) {
        (y, m, d + 1)
    } else if m < 12 {
        (y, m + 1, 1)
    } else {
        (y + 1, 1, 1)
    }
}

/// (y, m, d) is a calendar date.
pub open spec fn valid_date(y: int, m: int, d: int) -> bool {
    1 <= m <= 12 && 1 <= d <= month_days(y, m)
}

/// The day before a calendar date is a calendar date, and the day after it
/// is the date we started from.
pub proof fn lemma_day_before_inverse(y: int, m: int, d: int)
    requires
        valid_date(y, m, d),
    ensures
        valid_date(day_before(y, m, d).0, day_before(y, m, d).1, day_before(y, m, d).2),
        day_after(day_before(y, m, d).0, day_before(y, m, d).1, day_before(y, m, d).2) == (y, m, d),
{
}

/// Month lengths follow the knuckle rule: from January to July and again
/// from August to December the months alternate between 31 and 30 days,
/// starting with 31; February has 28 days, 29 in leap years.
pub proof fn lemma_month_lengths(y: int, m: int)
    requires
        1 <= m <= 12,
    ensures
        month_days(y, m) == if m == 2 {
            if is_leap(y) {
                29int
            } else {
                28int
            }
        } else {
            30 + (m + m / 8) % 2
        },
{
}

/// A year has 365 days, 366 in a leap year.
pub proof fn lemma_year_length(y: int)
    ensures
        month_days(y, 1) + month_days(y, 2) + month_days(y, 3) + month_days(y, 4) + month_days(y, 5)
            + month_days(y, 6) + month_days(y, 7) + month_days(y, 8) + month_days(y, 9) + month_days(y, 10)
            + month_days(y, 11) + month_days(y, 12) == if is_leap(y) {
            366int
        } else {
            365int
        },
{
}

/// The weekday advances by one from every calendar date to the next one,
/// across month and year ends, from year 1 on; 1 January 2000 was a
/// Saturday. Together these fix the weekday of every date from year 1 on.
/// (Before year 1 the algorithm's truncating divisions no longer count the
/// leap days, so the law is stated from year 1.)
pub proof fn lemma_weekday_calendar(y: int, m: int, d: int)
    requires
        y >= 1,
        valid_date(y, m, d),
    ensures
        weekday_index(day_after(y, m, d).0, day_after(y, m, d).1, day_after(y, m, d).2) == (
        weekday_index(y, m, d) + 1) % 7,
        0 <= weekday_index(y, m, d) < 7,
        weekday_index(2000, 1, 1) == 6,
        weekday_name(6) == "Sat"@,
{
    let s0 = y + tdiv(y, 4) - tdiv(y, 100) + tdiv(y, 400);
    let s1 = (y - 1) + tdiv(y - 1, 4) - tdiv(y - 1, 100) + tdiv(y - 1, 400);
    assert(tdiv(y, 4) == y / 4);
    assert(tdiv(y, 100) == y / 100);
    assert(tdiv(y, 400) == y / 400);
    assert(tdiv(y - 1, 4) == (y - 1) / 4);
    assert(tdiv(y - 1, 100) == (y - 1) / 100);
    assert(tdiv(y - 1, 400) == (y - 1) / 400);
    assert(y / 4 - (y - 1) / 4 == if y % 4 == 0 { 1int } else { 0int });
    assert(y / 100 - (y - 1) / 100 == if y % 100 == 0 { 1int } else { 0int });
    assert(y / 400 - (y - 1) / 400 == if y % 400 == 0 { 1int } else { 0int });
    assert(s0 - s1 == if is_leap(y) { 2int } else { 1int });
}

/// The weekday advances by one from each day of a month to the next.
pub proof fn lemma_weekday_next_day(y: int, m: int, d: int)
    requires
        1 <= m <= 12,
    ensures
        weekday_index(y, m, d + 1) == (weekday_index(y, m, d) + 1) % 7,
{
    let yy = if m < 3 { y - 1 } else { y };
    let base = yy + tdiv(yy, 4) - tdiv(yy, 100) + tdiv(yy, 400) + sakamoto_offset(m);
    assert(weekday_index(y, m, d) == (base + d) % 7);
    assert(weekday_index(y, m, d + 1) == (base + d + 1) % 7);
}


/// Whether the weekday of `date` can be computed (its month field names a
/// month).
pub fn has_weekday(date: &str) -> (r: bool)
    ensures
        r == weekday_defined(date@),
{
    let m = parse_field(date, 5, 7, 0, i64::MAX, 1);
    proof {
        lemma_field_or_bound(date@, 5, 7, 0, i64::MAX as int, usize::MAX as int, 1);
    }
    1 <= m && m <= 12
}


/// Whether the calendar year of `tm` can be formed without overflowing.
pub fn year_in_range(tm: &Tm) -> (r: bool)
    ensures
        r == year_fits(*tm),
{
    tm.tm_year <= i32::MAX - 1900
}

/// Whether the calendar year and month number of `tm` can be formed without
/// overflowing.
pub fn tm_in_range(tm: &Tm) -> (r: bool)
    ensures
        r == tm_fits(*tm),
{
    tm.tm_year <= i32::MAX - 1900 && tm.tm_mon < i32::MAX
}


/// A broken-down time whose `YYMMDDHHMM` stamp writes every field in two
/// digits: a year of this century and month, day, hour and minute in their
/// calendar ranges.
pub open spec fn stamp_fields_ok(tm: Tm) -> bool {
    &&& 2000 <= tm.tm_year + 1900 <= 2099
    &&& 0 <= tm.tm_mon <= 11
    &&& 1 <= tm.tm_mday <= 31
    &&& 0 <= tm.tm_hour <= 23
    &&& 0 <= tm.tm_min <= 59
}

/// `a` lies before `b` to the minute: compared by year, month, day, hour and
/// minute, in that order.
pub open spec fn earlier_minute(a: Tm, b: Tm) -> bool {
    if a.tm_year != b.tm_year {
        a.tm_year < b.tm_year
    } else if a.tm_mon != b.tm_mon {
        a.tm_mon < b.tm_mon
    } else if a.tm_mday != b.tm_mday {
        a.tm_mday < b.tm_mday
    } else if a.tm_hour != b.tm_hour {
        a.tm_hour < b.tm_hour
    } else {
        a.tm_min < b.tm_min
    }
}

/// `a` and `b` fall in the same minute.
pub open spec fn same_minute(a: Tm, b: Tm) -> bool {
    a.tm_year == b.tm_year && a.tm_mon == b.tm_mon && a.tm_mday == b.tm_mday && a.tm_hour == b.tm_hour
        && a.tm_min == b.tm_min
}

/// The two decimal digits of `n` (0..=99).
spec fn two_digits(n: int) -> Seq<char> {
    seq![digit_char((n / 10) as nat), digit_char((n % 10) as nat)]
}

/// Lexicographic order of characters.
spec fn chars_lt(a: Seq<char>, b: Seq<char>) -> bool
    decreases a.len(),
{
    if a.len() == 0 {
        b.len() > 0
    } else if b.len() == 0 {
        false
    } else if a[0] != b[0] {
        a[0] < b[0]
    } else {
        chars_lt(a.drop_first(), b.drop_first())
    }
}

proof fn lemma_digit_char_code(k: nat)
    requires
        k < 10,
    ensures
        digit_char(k) as int == 48 + k,
{
}

proof fn lemma_fmt2(n: int)
    requires
        0 <= n < 100,
    ensures
        fmt_int(n, 2) == two_digits(n),
        is_ascii_chars(two_digits(n)),
        digit_chars(two_digits(n)),
{
    reveal_with_fuel(digits, 2);
    lemma_digit_char_code((n / 10) as nat);
    lemma_digit_char_code((n % 10) as nat);
    if n < 10 {
        assert(zeros(1) =~= seq!['0']);
        assert(fmt_int(n, 2) =~= two_digits(n));
    } else {
        assert(digits((n / 10) as nat) == seq![digit_char((n / 10) as nat)]);
        assert(zeros(0) =~= Seq::<char>::empty());
        assert(fmt_int(n, 2) =~= two_digits(n));
    }
}

/// Every character is an ASCII digit.
spec fn digit_chars(x: Seq<char>) -> bool {
    forall|i: int| 0 <= i < x.len() ==> '0' <= #[trigger] x[i] <= '9'
}

proof fn lemma_digits_concat(x: Seq<char>, y: Seq<char>)
    requires
        digit_chars(x),
        digit_chars(y),
    ensures
        digit_chars(x + y),
{
    assert forall|i: int| 0 <= i < (x + y).len() implies '0' <= #[trigger] (x + y)[i] <= '9' by {
        if i < x.len() {
            assert((x + y)[i] == x[i]);
        } else {
            assert((x + y)[i] == y[i - x.len()]);
        }
    }
}

proof fn lemma_ascii_concat(x: Seq<char>, y: Seq<char>)
    requires
        is_ascii_chars(x),
        is_ascii_chars(y),
    ensures
        is_ascii_chars(x + y),
{
    assert forall|i: int| 0 <= i < (x + y).len() implies '\0' <= #[trigger] (x + y)[i] <= '\u{7f}' by {
        if i < x.len() {
            assert((x + y)[i] == x[i]);
        } else {
            assert((x + y)[i] == y[i - x.len()]);
        }
    }
}

proof fn lemma_ascii_drop_first(x: Seq<char>)
    requires
        is_ascii_chars(x),
        x.len() > 0,
    ensures
        is_ascii_chars(x.drop_first()),
{
    assert forall|i: int| 0 <= i < x.drop_first().len() implies '\0' <= #[trigger] x.drop_first()[i] <= '\u{7f}' by {
        assert(x.drop_first()[i] == x[i + 1]);
    }
}

/// On ASCII text, the byte-wise string order is the order of the characters.
proof fn lemma_ascii_str_lt(a: Seq<char>, b: Seq<char>)
    requires
        is_ascii_chars(a),
        is_ascii_chars(b),
    ensures
        str_lt(a, b) == chars_lt(a, b),
    decreases a.len(),
{
    is_ascii_chars_encode_utf8(a);
    is_ascii_chars_encode_utf8(b);
    let ea = encode_utf8(a);
    let eb = encode_utf8(b);
    if a.len() > 0 && b.len() > 0 {
        let a1 = a.drop_first();
        let b1 = b.drop_first();
        lemma_ascii_drop_first(a);
        lemma_ascii_drop_first(b);
        is_ascii_chars_encode_utf8(a1);
        is_ascii_chars_encode_utf8(b1);
        assert(ea.drop_first() =~= encode_utf8(a1));
        assert(eb.drop_first() =~= encode_utf8(b1));
        assert(ea[0] == a[0] as u8);
        assert(eb[0] == b[0] as u8);
        assert((a[0] as u8) as int == a[0] as int);
        assert((b[0] as u8) as int == b[0] as int);
        lemma_ascii_str_lt(a1, b1);
    }
}

proof fn lemma_chars_lt_concat(x1: Seq<char>, x2: Seq<char>, y1: Seq<char>, y2: Seq<char>)
    requires
        x1.len() == y1.len(),
    ensures
        chars_lt(x1 + x2, y1 + y2) == (if x1 == y1 {
            chars_lt(x2, y2)
        } else {
            chars_lt(x1, y1)
        }),
        (x1 + x2 == y1 + y2) == (x1 == y1 && x2 == y2),
    decreases x1.len(),
{
    if x1 + x2 == y1 + y2 {
        assert(x1 =~= (x1 + x2).subrange(0, x1.len() as int));
        assert(y1 =~= (y1 + y2).subrange(0, y1.len() as int));
        assert(x2 =~= (x1 + x2).subrange(x1.len() as int, (x1 + x2).len() as int));
        assert(y2 =~= (y1 + y2).subrange(y1.len() as int, (y1 + y2).len() as int));
    }
    if x1.len() == 0 {
        assert(x1 =~= y1);
        assert(x1 + x2 =~= x2);
        assert(y1 + y2 =~= y2);
    } else {
        assert((x1 + x2)[0] == x1[0]);
        assert((y1 + y2)[0] == y1[0]);
        assert((x1 + x2).drop_first() =~= x1.drop_first() + x2);
        assert((y1 + y2).drop_first() =~= y1.drop_first() + y2);
        lemma_chars_lt_concat(x1.drop_first(), x2, y1.drop_first(), y2);
        if x1[0] == y1[0] && x1.drop_first() == y1.drop_first() {
            assert(x1 =~= y1) by {
                assert forall|i: int| 0 <= i < x1.len() implies x1[i] == y1[i] by {
                    if i > 0 {
                        assert(x1[i] == x1.drop_first()[i - 1]);
                        assert(y1[i] == y1.drop_first()[i - 1]);
                    }
                }
            }
        }
        if x1 == y1 {
            assert(x1.drop_first() == y1.drop_first());
        }
    }
}

proof fn lemma_two_digits_order(n: int, m: int)
    requires
        0 <= n < 100,
        0 <= m < 100,
    ensures
        chars_lt(two_digits(n), two_digits(m)) == (n < m),
        (two_digits(n) == two_digits(m)) == (n == m),
{
    lemma_digit_char_code((n / 10) as nat);
    lemma_digit_char_code((n % 10) as nat);
    lemma_digit_char_code((m / 10) as nat);
    lemma_digit_char_code((m % 10) as nat);
    let a = two_digits(n);
    let b = two_digits(m);
    assert(a.drop_first() =~= seq![a[1]]);
    assert(b.drop_first() =~= seq![b[1]]);
    assert(seq![a[1]].drop_first() =~= Seq::<char>::empty());
    assert(seq![b[1]].drop_first() =~= Seq::<char>::empty());
    reveal_with_fuel(chars_lt, 3);
    if a == b {
        assert(a[0] == b[0] && a[1] == b[1]);
    }
    if n == m {
        assert(a =~= b);
    }
}

/// The stamp of a time as its five two-digit fields.
proof fn lemma_stamp_parts(t: Tm)
    requires
        stamp_fields_ok(t),
    ensures
        db_stamp_text(t) == two_digits(t.tm_year - 100) + (two_digits(t.tm_mon + 1) + (two_digits(
            t.tm_mday as int,
        ) + (two_digits(t.tm_hour as int) + two_digits(t.tm_min as int)))),
        is_ascii_chars(db_stamp_text(t)),
        db_stamp_text(t).len() == 10,
        digit_chars(db_stamp_text(t)),
{
    assert((t.tm_year + 1900) % 100 == t.tm_year - 100);
    lemma_fmt2(t.tm_year - 100);
    lemma_fmt2(t.tm_mon + 1);
    lemma_fmt2(t.tm_mday as int);
    lemma_fmt2(t.tm_hour as int);
    lemma_fmt2(t.tm_min as int);
    let y = two_digits(t.tm_year - 100);
    let mo = two_digits(t.tm_mon + 1);
    let d = two_digits(t.tm_mday as int);
    let h = two_digits(t.tm_hour as int);
    let mi = two_digits(t.tm_min as int);
    assert(db_stamp_text(t) =~= y + (mo + (d + (h + mi))));
    lemma_ascii_concat(h, mi);
    lemma_ascii_concat(d, h + mi);
    lemma_ascii_concat(mo, d + (h + mi));
    lemma_ascii_concat(y, mo + (d + (h + mi)));
    lemma_digits_concat(h, mi);
    lemma_digits_concat(d, h + mi);
    lemma_digits_concat(mo, d + (h + mi));
    lemma_digits_concat(y, mo + (d + (h + mi)));
}

/// Departure stamps sort by time: for times of this century, the
/// `YYMMDDHHMM` stamp is ten digits, one stamp is less than another exactly
/// when its time is earlier to the minute, and two stamps are equal exactly
/// when their times fall in the same minute.
pub proof fn lemma_db_stamp_order(a: Tm, b: Tm)
    requires
        stamp_fields_ok(a),
        stamp_fields_ok(b),
    ensures
        db_stamp_text(a).len() == 10,
        forall|i: int| 0 <= i < 10 ==> '0' <= #[trigger] db_stamp_text(a)[i] <= '9',
        str_lt(db_stamp_text(a), db_stamp_text(b)) == earlier_minute(a, b),
        (db_stamp_text(a) == db_stamp_text(b)) == same_minute(a, b),
{
    lemma_stamp_parts(a);
    lemma_stamp_parts(b);
    let sa = db_stamp_text(a);
    let sb = db_stamp_text(b);
    lemma_ascii_str_lt(sa, sb);
    let (ya, ma, da, ha, na) = (a.tm_year - 100, a.tm_mon + 1, a.tm_mday as int, a.tm_hour as int, a.tm_min as int);
    let (yb, mb, db, hb, nb) = (b.tm_year - 100, b.tm_mon + 1, b.tm_mday as int, b.tm_hour as int, b.tm_min as int);
    lemma_two_digits_order(ya, yb);
    lemma_two_digits_order(ma, mb);
    lemma_two_digits_order(da, db);
    lemma_two_digits_order(ha, hb);
    lemma_two_digits_order(na, nb);
    lemma_chars_lt_concat(two_digits(ha), two_digits(na), two_digits(hb), two_digits(nb));
    lemma_chars_lt_concat(two_digits(da), two_digits(ha) + two_digits(na), two_digits(db), two_digits(hb) + two_digits(nb));
    lemma_chars_lt_concat(
        two_digits(ma),
        two_digits(da) + (two_digits(ha) + two_digits(na)),
        two_digits(mb),
        two_digits(db) + (two_digits(hb) + two_digits(nb)),
    );
    lemma_chars_lt_concat(
        two_digits(ya),
        two_digits(ma) + (two_digits(da) + (two_digits(ha) + two_digits(na))),
        two_digits(yb),
        two_digits(mb) + (two_digits(db) + (two_digits(hb) + two_digits(nb))),
    );
}

}
