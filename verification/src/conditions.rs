//! The current-conditions block and the three-day forecast block: which
//! texts and pictograms they show of a forecast response, and where.
//!
//! Measured quantities arrive already written out as decimal text (the
//! rounding of the raw readings happens where they are decoded); everything
//! else, from the fallbacks for missing values to the layout, is decided here.

use vstd::prelude::*;
use crate::calendar::opt_view;
use crate::dates::{tdiv, weekday, weekday_defined, weekday_of};
use crate::draw::{
    compass_name, compass_point, draw_panel, emit, emit_text, fits, fits64, hhmm, hhmm_of, ops_view,
    panel_can_draw, panel_fits, panel_ops, text_at, DrawOp, Font, GlyphKind, HAlign, Ink, OpView,
    VAlign,
};
use crate::geometry::{inner_rect, Rect};
use crate::text::{digits, owned, push_char, push_digits, push_str};
use crate::weather::{icon_for, wmo_label, wmo_text, IconKind};

verus! {

/// The degree sign.
pub open spec fn deg() -> Seq<char> {
    seq!['\u{b0}']
}

/// What the current-conditions block shows of one forecast response.
pub struct CurrentReading {
    /// WMO weather code of the current conditions.
    pub code: u16,
    /// Temperature in degrees Celsius, one decimal.
    pub temperature: String,
    /// Apparent temperature, rounded, when reported.
    pub feels: Option<String>,
    /// Today's highest and lowest temperature, rounded, when reported.
    pub high: Option<String>,
    pub low: Option<String>,
    /// Relative humidity in percent, rounded.
    pub humidity: Option<String>,
    /// Wind speed in km/h, rounded.
    pub wind_speed: Option<String>,
    /// Wind bearing in whole eighths of a turn (rounded degrees / 45).
    pub wind_octant: Option<i32>,
    /// Today's highest rain probability in percent.
    pub rain_chance: Option<u8>,
    /// Today's highest UV index, rounded.
    pub uv: Option<String>,
    /// Today's sunrise and sunset as ISO-8601 stamps.
    pub sunrise: Option<String>,
    pub sunset: Option<String>,
    /// Today's hours of sunshine, one decimal.
    pub sunshine: Option<String>,
}

/// A reading with its texts as characters.
pub struct ReadingView {
    pub code: u16,
    pub temperature: Seq<char>,
    pub feels: Option<Seq<char>>,
    pub high: Option<Seq<char>>,
    pub low: Option<Seq<char>>,
    pub humidity: Option<Seq<char>>,
    pub wind_speed: Option<Seq<char>>,
    pub wind_octant: Option<i32>,
    pub rain_chance: Option<u8>,
    pub uv: Option<Seq<char>>,
    pub sunrise: Option<Seq<char>>,
    pub sunset: Option<Seq<char>>,
    pub sunshine: Option<Seq<char>>,
}

impl View for CurrentReading {
    type V = ReadingView;

    open spec fn view(&self) -> ReadingView {
        ReadingView {
            code: self.code,
            temperature: self.temperature@,
            feels: opt_view(self.feels),
            high: opt_view(self.high),
            low: opt_view(self.low),
            humidity: opt_view(self.humidity),
            wind_speed: opt_view(self.wind_speed),
            wind_octant: self.wind_octant,
            rain_chance: self.rain_chance,
            uv: opt_view(self.uv),
            sunrise: opt_view(self.sunrise),
            sunset: opt_view(self.sunset),
            sunshine: opt_view(self.sunshine),
        }
    }
}

/// A value followed by its unit, or `--` when the value is missing.
pub open spec fn or_dashes(v: Option<Seq<char>>, unit: Seq<char>) -> Seq<char> {
    match v {
        Some(t) => t + unit,
        None => "--"@,
    }
}

/// `Feels <t>°`, or nothing.
pub open spec fn feels_text(f: Option<Seq<char>>) -> Seq<char> {
    match f {
        Some(t) => "Feels "@ + t + deg(),
        None => Seq::empty(),
    }
}

/// `H <high>° L <low>°` when both are known, else nothing.
pub open spec fn high_low_text(h: Option<Seq<char>>, l: Option<Seq<char>>) -> Seq<char> {
    match (h, l) {
        (Some(h), Some(l)) => "H "@ + h + deg() + " L "@ + l + deg(),
        _ => Seq::empty(),
    }
}

/// `<speed> km/h <compass point>`, without the point when the bearing is
/// unknown, or `--` without a speed.
pub open spec fn wind_text(speed: Option<Seq<char>>, octant: Option<i32>) -> Seq<char> {
    match speed {
        Some(s) => match octant {
            Some(o) => s + " km/h "@ + compass_name((o as int) % 8),
            None => s + " km/h"@,
        },
        None => "--"@,
    }
}

/// A percentage, or `--`.
pub open spec fn percent_text(p: Option<u8>) -> Seq<char> {
    match p {
        Some(p) => digits(p as nat) + "%"@,
        None => "--"@,
    }
}

/// The `HH:MM` of a stamp followed by `h`, or `--`.
pub open spec fn sun_time_text(s: Option<Seq<char>>) -> Seq<char> {
    match s {
        Some(t) => hhmm_of(t) + "h"@,
        None => "--"@,
    }
}

/// One cell of the stat grid: a 14px pictogram and its value 20px further
/// right.
pub open spec fn cell_ops(kind: GlyphKind, value: Seq<char>, x: int, y: int) -> Seq<OpView> {
    seq![OpView::Glyph { glyph: kind, x, y, size: 14 }, text_at(value, x + 20, y, Font::Latin9x15)]
}

/// Right column of the stat grid.
pub open spec fn second_column(inner: Rect) -> int {
    inner.x + tdiv((inner.width as i32) as int, 2)
}

/// The steps showing a reading inside the content area: the condition's
/// pictogram, the temperature, the condition's name and the feels-like and
/// high/low line beside it, then seven cells in two columns, 16px apart:
/// humidity, wind, rain chance, UV index, sunrise, sunset and sunshine.
pub open spec fn reading_ops(r: ReadingView, inner: Rect) -> Seq<OpView> {
    let ix = inner.x as int;
    let iy = inner.y as int;
    let tx = ix + 64;
    let col2 = second_column(inner);
    let gy = iy + 56;
    seq![
        OpView::Icon { icon: icon_for(r.code as int), x: ix, y: iy, size: 54 },
        text_at(r.temperature + deg() + "C"@, tx, iy, Font::Latin10x20),
        text_at(wmo_label(r.code as int), tx, iy + 22, Font::Latin9x15),
        text_at(feels_text(r.feels) + "  "@ + high_low_text(r.high, r.low), tx, iy + 40, Font::Latin6x10),
    ] + cell_ops(GlyphKind::Humidity, or_dashes(r.humidity, "%"@), ix, gy) + cell_ops(
        GlyphKind::Wind,
        wind_text(r.wind_speed, r.wind_octant),
        col2,
        gy,
    ) + cell_ops(GlyphKind::Rain, percent_text(r.rain_chance), ix, gy + 16) + cell_ops(
        GlyphKind::Uv,
        or_dashes(r.uv, Seq::empty()),
        col2,
        gy + 16,
    ) + cell_ops(GlyphKind::Sunrise, sun_time_text(r.sunrise), ix, gy + 32) + cell_ops(
        GlyphKind::Sunset,
        sun_time_text(r.sunset),
        col2,
        gy + 32,
    ) + cell_ops(GlyphKind::Sunshine, or_dashes(r.sunshine, "h"@), ix, gy + 48)
}

/// Top-left block: the current conditions with an icon and key metrics.
pub struct CurrentWeatherModule {
    bounds: Rect,
    url: String,
    data: Option<CurrentReading>,
}

/// What the current-conditions block holds.
pub struct CurrentView {
    pub bounds: Rect,
    pub url: Seq<char>,
    pub data: Option<ReadingView>,
}

impl View for CurrentWeatherModule {
    type V = CurrentView;

    closed spec fn view(&self) -> CurrentView {
        CurrentView {
            bounds: self.bounds,
            url: self.url@,
            data: match self.data {
                Some(r) => Some(r@),
                None => None,
            },
        }
    }
}

/// The block's drawing steps: the panel titled `CURRENT WEATHER`, then the
/// reading, or `Loading...` before the first one.
pub open spec fn current_ops(v: CurrentView) -> Seq<OpView> {
    let inner = inner_rect(v.bounds);
    panel_ops(v.bounds, "CURRENT WEATHER"@) + match v.data {
        Some(r) => reading_ops(r, inner),
        None => seq![text_at("Loading..."@, inner.x as int, inner.y + 20, Font::Latin9x15)],
    }
}

/// The block's coordinates stay within `i32`.
pub open spec fn current_fits(v: CurrentView) -> bool {
    let inner = inner_rect(v.bounds);
    let ix = inner.x as int;
    let iy = inner.y as int;
    &&& panel_fits(v.bounds)
    &&& match v.data {
        Some(_) => {
            &&& fits(iy + 104)
            &&& fits(ix + 64)
            &&& fits(second_column(inner))
            &&& fits(second_column(inner) + 20)
        },
        None => fits(iy + 20),
    }
}

/// A value followed by its unit, or `--`.
fn value_or_dashes(v: &Option<String>, unit: &str) -> (r: String)
    ensures
        r@ == or_dashes(opt_view(*v), unit@),
{
    match v {
        Some(t) => {
            let mut r = owned(t.as_str());
            push_str(&mut r, unit);
            r
        },
        None => owned("--"),
    }
}

fn push_deg(s: &mut String)
    ensures
        final(s)@ == old(s)@ + deg(),
{
    push_char(s, '\u{b0}');
    assert(s@ =~= old(s)@ + deg());
}

fn feels_string(f: &Option<String>) -> (r: String)
    ensures
        r@ == feels_text(opt_view(*f)),
{
    let mut r = String::new();
    match f {
        Some(t) => {
            push_str(&mut r, "Feels ");
            push_str(&mut r, t.as_str());
            push_deg(&mut r);
            assert(r@ =~= feels_text(opt_view(*f)));
        },
        None => {
            assert(r@ =~= feels_text(opt_view(*f)));
        },
    }
    r
}

fn summary_line(r: &CurrentReading) -> (s: String)
    ensures
        s@ == feels_text(r@.feels) + "  "@ + high_low_text(r@.high, r@.low),
{
    let mut s = feels_string(&r.feels);
    push_str(&mut s, "  ");
    let ghost head = s@;
    match (&r.high, &r.low) {
        (Some(h), Some(l)) => {
            push_str(&mut s, "H ");
            push_str(&mut s, h.as_str());
            push_deg(&mut s);
            push_str(&mut s, " L ");
            push_str(&mut s, l.as_str());
            push_deg(&mut s);
            assert(s@ =~= head + high_low_text(r@.high, r@.low));
        },
        _ => {
            assert(s@ =~= head + high_low_text(r@.high, r@.low));
        },
    }
    s
}

fn wind_string(speed: &Option<String>, octant: Option<i32>) -> (r: String)
    ensures
        r@ == wind_text(opt_view(*speed), octant),
{
    match speed {
        Some(s) => {
            let mut r = owned(s.as_str());
            match octant {
                Some(o) => {
                    push_str(&mut r, " km/h ");
                    push_str(&mut r, compass_point(o));
                },
                None => {
                    push_str(&mut r, " km/h");
                },
            }
            r
        },
        None => owned("--"),
    }
}

fn percent_string(p: Option<u8>) -> (r: String)
    ensures
        r@ == percent_text(p),
{
    match p {
        Some(p) => {
            let mut r = String::new();
            push_digits(&mut r, p as u64);
            push_str(&mut r, "%");
            assert(r@ =~= percent_text(Some(p)));
            r
        },
        None => owned("--"),
    }
}

fn sun_time_string(s: &Option<String>) -> (r: String)
    ensures
        r@ == sun_time_text(opt_view(*s)),
{
    match s {
        Some(t) => {
            let mut r = owned(hhmm(t.as_str()));
            push_str(&mut r, "h");
            r
        },
        None => owned("--"),
    }
}

fn emit_cell(ops: &mut Vec<DrawOp>, kind: GlyphKind, value: String, x: i32, y: i32)
    requires
        x <= i32::MAX - 20,
    ensures
        ops_view(final(ops)@) == ops_view(old(ops)@) + cell_ops(kind, value@, x as int, y as int),
{
    let ghost start = ops_view(ops@);
    emit(ops, DrawOp::Glyph { glyph: kind, x, y, size: 14 });
    emit_text(ops, value, x + 20, y, Font::Latin9x15);
    assert(ops_view(ops@) =~= start + cell_ops(kind, value@, x as int, y as int));
}

fn render_reading(ops: &mut Vec<DrawOp>, r: &CurrentReading, inner: Rect)
    requires
        fits(inner.y + 104),
        fits(inner.x + 64),
        fits(second_column(inner)),
        fits(second_column(inner) + 20),
    ensures
        ops_view(final(ops)@) == ops_view(old(ops)@) + reading_ops(r@, inner),
{
    let ghost start = ops_view(ops@);
    let ix = inner.x;
    let iy = inner.y;
    let iw = #[verifier::truncate] (inner.width as i32);
    emit(ops, DrawOp::Icon { icon: IconKind::from_wmo(r.code), x: ix, y: iy, size: 54 });
    let tx = ix + 64;
    let mut temp = owned(r.temperature.as_str());
    push_deg(&mut temp);
    push_str(&mut temp, "C");
    emit_text(ops, temp, tx, iy, Font::Latin10x20);
    emit_text(ops, owned(wmo_text(r.code)), tx, iy + 22, Font::Latin9x15);
    emit_text(ops, summary_line(r), tx, iy + 40, Font::Latin6x10);
    let gy = iy + 56;
    let rowh: i32 = 16;
    let col1 = ix;
    let col2 = ix + iw / 2;
    assert(col2 == second_column(inner));
    let ghost head = ops_view(ops@);
    emit_cell(ops, GlyphKind::Humidity, value_or_dashes(&r.humidity, "%"), col1, gy);
    emit_cell(ops, GlyphKind::Wind, wind_string(&r.wind_speed, r.wind_octant), col2, gy);
    emit_cell(ops, GlyphKind::Rain, percent_string(r.rain_chance), col1, gy + rowh);
    emit_cell(ops, GlyphKind::Uv, value_or_dashes(&r.uv, ""), col2, gy + rowh);
    emit_cell(ops, GlyphKind::Sunrise, sun_time_string(&r.sunrise), col1, gy + 2 * rowh);
    emit_cell(ops, GlyphKind::Sunset, sun_time_string(&r.sunset), col2, gy + 2 * rowh);
    emit_cell(ops, GlyphKind::Sunshine, value_or_dashes(&r.sunshine, "h"), col1, gy + 3 * rowh);
    proof {
        reveal_strlit("");
        assert(""@ =~= Seq::<char>::empty());
    }
    assert(ops_view(ops@) =~= start + reading_ops(r@, inner));
}

impl CurrentWeatherModule {
    pub fn new(bounds: Rect, url: String) -> (r: CurrentWeatherModule)
        ensures
            r@.bounds == bounds,
            r@.url == url@,
            r@.data is None,
    {
        CurrentWeatherModule { bounds, url, data: None }
    }

    /// The block's rectangle on the panel.
    pub fn bounds(&self) -> (r: Rect)
        ensures
            r == self@.bounds,
    {
        self.bounds
    }

    /// Where the forecast is requested.
    pub fn url(&self) -> (r: &str)
        ensures
            r@ == self@.url,
    {
        self.url.as_str()
    }

    /// Takes what this tick's forecast request handed out: a new reading is
    /// kept and reported as a change; without one the block stays as it was.
    pub fn update(&mut self, fetched: Option<CurrentReading>) -> (r: bool)
        ensures
            r == fetched is Some,
            final(self)@.data == (match fetched {
                Some(x) => Some(x@),
                None => old(self)@.data,
            }),
            final(self)@.bounds == old(self)@.bounds,
            final(self)@.url == old(self)@.url,
    {
        match fetched {
            Some(x) => {
                self.data = Some(x);
                true
            },
            None => false,
        }
    }

    /// Draws the block.
    pub fn render(&self) -> (r: Vec<DrawOp>)
        requires
            current_fits(self@),
        ensures
            ops_view(r@) == current_ops(self@),
    {
        let mut ops: Vec<DrawOp> = Vec::new();
        let inner = draw_panel(&mut ops, self.bounds, "CURRENT WEATHER");
        let ghost head = ops_view(ops@);
        match &self.data {
            Some(r) => {
                render_reading(&mut ops, r, inner);
            },
            None => {
                emit_text(&mut ops, owned("Loading..."), inner.x, inner.y + 20, Font::Latin9x15);
            },
        }
        assert(ops_view(ops@) =~= current_ops(self@));
        ops
    }

    /// Whether the block's coordinates stay within `i32` (what `render`
    /// needs).
    pub fn can_render(&self) -> (r: bool)
        ensures
            r == current_fits(self@),
    {
        if !panel_can_draw(self.bounds) {
            return false;
        }
        let inner = crate::geometry::panel_inner(self.bounds);
        let ix = inner.x as i64;
        let iy = inner.y as i64;
        match &self.data {
            Some(_) => {
                let iw = #[verifier::truncate] (inner.width as i32);
                let col2 = ix + (iw / 2) as i64;
                assert(col2 == second_column(inner));
                fits64(iy + 104) && fits64(ix + 64) && fits64(col2) && fits64(col2 + 20)
            },
            None => fits64(iy + 20),
        }
    }
}


/// What the forecast block shows of one day.
pub struct DayForecast {
    /// The day as `YYYY-MM-DD`.
    pub date: String,
    /// WMO weather code of the day, when reported.
    pub code: Option<u16>,
    /// Highest and lowest temperature, rounded.
    pub high: String,
    pub low: String,
    /// Highest rain probability in percent, when reported.
    pub rain_chance: Option<u8>,
    /// Precipitation in mm, one decimal.
    pub rain_mm: String,
    /// Hours of sunshine, rounded.
    pub sunshine: String,
}

/// A day with its texts as characters.
pub struct DayView {
    pub date: Seq<char>,
    pub code: Option<u16>,
    pub high: Seq<char>,
    pub low: Seq<char>,
    pub rain_chance: Option<u8>,
    pub rain_mm: Seq<char>,
    pub sunshine: Seq<char>,
}

impl View for DayForecast {
    type V = DayView;

    open spec fn view(&self) -> DayView {
        DayView {
            date: self.date@,
            code: self.code,
            high: self.high@,
            low: self.low@,
            rain_chance: self.rain_chance,
            rain_mm: self.rain_mm@,
            sunshine: self.sunshine@,
        }
    }
}

pub open spec fn days_view(days: Seq<DayForecast>) -> Seq<DayView> {
    days.map_values(|d: DayForecast| d@)
}

/// What the forecast block shows of one forecast response: one entry per
/// forecast day, today first, or none when the response had no daily part.
pub struct DailyReading {
    pub days: Option<Vec<DayForecast>>,
}

/// How many days are shown of `n` forecast days: the three after today, or
/// as many as there are.
pub open spec fn shown_days(n: int) -> int {
    if n <= 1 {
        0
    } else if n - 1 < 3 {
        n - 1
    } else {
        3
    }
}

/// The forecast block never shows today, and shows the three days after
/// it whenever the response has them: of `n` forecast days it shows
/// `min(n - 1, 3)`.
pub proof fn lemma_three_days_after_today(n: int)
    requires
        n >= 0,
    ensures
        0 <= shown_days(n) <= 3,
        n >= 1 ==> shown_days(n) <= n - 1,
        n >= 4 ==> shown_days(n) == 3,
        n <= 1 ==> shown_days(n) == 0,
{
}

/// A text centred on its position, anchored at its top.
pub open spec fn centered(text: Seq<char>, x: int, y: int, font: Font) -> OpView {
    OpView::Text { text, x, y, font, align: HAlign::Center, baseline: VAlign::Top, ink: Ink::Black }
}

/// Left edge of column `c` of the content area (a third of its width each).
pub open spec fn column_left(inner: Rect, c: int) -> int {
    inner.x + c * tdiv((inner.width as i32) as int, 3)
}

/// Horizontal centre of column `c`.
pub open spec fn column_centre(inner: Rect, c: int) -> int {
    column_left(inner, c) + tdiv(tdiv((inner.width as i32) as int, 3), 2)
}

/// The steps of column `c`, showing day `d`: a divider from the second
/// column on, the weekday, the day's pictogram (a cloud when no code was
/// reported), high and low, then rain chance (0% when not reported) and
/// amount, and the hours of sunshine, each after its pictogram.
pub open spec fn column_ops(inner: Rect, c: int, d: DayView) -> Seq<OpView> {
    let iy = inner.y as int;
    let ih = (inner.height as i32) as int;
    let cx0 = column_left(inner, c);
    let cx = column_centre(inner, c);
    let code: u16 = match d.code {
        Some(k) => k,
        None => 3,
    };
    let chance: u8 = match d.rain_chance {
        Some(p) => p,
        None => 0,
    };
    (if c > 0 {
        seq![OpView::Line { x0: cx0, y0: iy, x1: cx0, y1: iy + ih - 4, width: 1 }]
    } else {
        seq![]
    }) + seq![
        centered(weekday_of(d.date), cx, iy, Font::Latin9x15Bold),
        OpView::Icon { icon: icon_for(code as int), x: cx - 19, y: iy + 13, size: 38 },
        centered(d.high + deg() + "/"@ + d.low + deg(), cx, iy + 52, Font::Latin9x15),
        OpView::Glyph { glyph: GlyphKind::Rain, x: cx0 + 8, y: iy + 70, size: 12 },
        text_at(digits(chance as nat) + "%"@, cx0 + 22, iy + 71, Font::Latin6x10),
        OpView::Glyph { glyph: GlyphKind::Millimeters, x: cx0 + 60, y: iy + 70, size: 12 },
        text_at(d.rain_mm + "mm"@, cx0 + 74, iy + 71, Font::Latin6x10),
        OpView::Glyph { glyph: GlyphKind::Sunshine, x: cx0 + 34, y: iy + 84, size: 12 },
        text_at(d.sunshine + "h"@, cx0 + 48, iy + 85, Font::Latin6x10),
    ]
}

/// The steps of the first `n` columns, column `c` showing `days[c + 1]`.
pub open spec fn columns_ops(days: Seq<DayView>, inner: Rect, n: int) -> Seq<OpView>
    decreases n,
{
    if n <= 0 {
        seq![]
    } else {
        columns_ops(days, inner, n - 1) + column_ops(inner, n - 1, days[n])
    }
}

/// Bottom-left block: the next three days at a glance.
pub struct DailyForecastModule {
    bounds: Rect,
    url: String,
    data: Option<DailyReading>,
}

/// What the forecast block holds: nothing yet, a response without daily
/// part, or the days of the last response.
pub struct DailyView {
    pub bounds: Rect,
    pub url: Seq<char>,
    pub data: Option<Option<Seq<DayView>>>,
}

impl View for DailyForecastModule {
    type V = DailyView;

    closed spec fn view(&self) -> DailyView {
        DailyView {
            bounds: self.bounds,
            url: self.url@,
            data: match self.data {
                Some(r) => Some(
                    match r.days {
                        Some(ds) => Some(days_view(ds@)),
                        None => None,
                    },
                ),
                None => None,
            },
        }
    }
}

/// The block's drawing steps: the panel titled `3-DAY FORECAST`, then up to
/// three columns, or `Loading...` before the first response and `No data`
/// for one without daily part.
pub open spec fn daily_ops(v: DailyView) -> Seq<OpView> {
    let inner = inner_rect(v.bounds);
    panel_ops(v.bounds, "3-DAY FORECAST"@) + match v.data {
        None => seq![centered("Loading..."@, inner.x as int, inner.y + 20, Font::Latin9x15)],
        Some(None) => seq![centered("No data"@, inner.x as int, inner.y + 20, Font::Latin9x15)],
        Some(Some(days)) => columns_ops(days, inner, shown_days(days.len() as int)),
    }
}

/// Column `c` can be drawn: its weekday is defined and its coordinates stay
/// within `i32`.
pub open spec fn column_fits(inner: Rect, c: int, d: DayView) -> bool {
    let iy = inner.y as int;
    let ih = (inner.height as i32) as int;
    &&& weekday_defined(d.date)
    &&& fits(column_left(inner, c))
    &&& fits(column_left(inner, c) + 74)
    &&& fits(column_centre(inner, c))
    &&& fits(column_centre(inner, c) - 19)
    &&& (c > 0 ==> fits(iy + ih) && fits(iy + ih - 4))
}

/// The block can be drawn.
pub open spec fn daily_fits(v: DailyView) -> bool {
    let inner = inner_rect(v.bounds);
    &&& panel_fits(v.bounds)
    &&& match v.data {
        Some(Some(days)) => {
            &&& fits(inner.y + 85)
            &&& forall|c: int|
                0 <= c < shown_days(days.len() as int) ==> column_fits(inner, c, #[trigger] days[c + 1])
        },
        _ => fits(inner.y + 20),
    }
}

fn render_column(ops: &mut Vec<DrawOp>, inner: Rect, c: usize, d: &DayForecast)
    requires
        c < 3,
        fits(inner.y + 85),
        column_fits(inner, c as int, d@),
    ensures
        ops_view(final(ops)@) == ops_view(old(ops)@) + column_ops(inner, c as int, d@),
{
    let ghost start = ops_view(ops@);
    let ix = inner.x;
    let iy = inner.y;
    let iw = #[verifier::truncate] (inner.width as i32);
    let ih = #[verifier::truncate] (inner.height as i32);
    let colw = iw / 3;
    assert(colw == tdiv(iw as int, 3));
    assert(-715827883 <= colw <= 715827883);
    assert(-1431655766 <= (c as i32) * colw <= 1431655766) by (nonlinear_arith)
        requires
            c < 3,
            -715827883 <= colw <= 715827883,
    ;
    let cx0 = ix + (c as i32) * colw;
    let cx = cx0 + colw / 2;
    if c > 0 {
        emit(ops, DrawOp::Line { x0: cx0, y0: iy, x1: cx0, y1: iy + ih - 4, width: 1 });
    }
    let ghost mid = ops_view(ops@);
    emit(ops, DrawOp::Text {
        text: owned(weekday(d.date.as_str())),
        x: cx,
        y: iy,
        font: Font::Latin9x15Bold,
        align: HAlign::Center,
        baseline: VAlign::Top,
        ink: Ink::Black,
    });
    let code: u16 = match d.code {
        Some(k) => k,
        None => 3,
    };
    emit(ops, DrawOp::Icon { icon: IconKind::from_wmo(code), x: cx - 19, y: iy + 13, size: 38 });
    let mut temps = owned(d.high.as_str());
    push_deg(&mut temps);
    push_str(&mut temps, "/");
    push_str(&mut temps, d.low.as_str());
    push_deg(&mut temps);
    emit(ops, DrawOp::Text {
        text: temps,
        x: cx,
        y: iy + 52,
        font: Font::Latin9x15,
        align: HAlign::Center,
        baseline: VAlign::Top,
        ink: Ink::Black,
    });
    let chance: u8 = match d.rain_chance {
        Some(p) => p,
        None => 0,
    };
    let gy1 = iy + 70;
    emit(ops, DrawOp::Glyph { glyph: GlyphKind::Rain, x: cx0 + 8, y: gy1, size: 12 });
    let mut pct = String::new();
    push_digits(&mut pct, chance as u64);
    push_str(&mut pct, "%");
    emit_text(ops, pct, cx0 + 22, gy1 + 1, Font::Latin6x10);
    emit(ops, DrawOp::Glyph { glyph: GlyphKind::Millimeters, x: cx0 + 60, y: gy1, size: 12 });
    let mut mm = owned(d.rain_mm.as_str());
    push_str(&mut mm, "mm");
    emit_text(ops, mm, cx0 + 74, gy1 + 1, Font::Latin6x10);
    let gy2 = iy + 84;
    emit(ops, DrawOp::Glyph { glyph: GlyphKind::Sunshine, x: cx0 + 34, y: gy2, size: 12 });
    let mut sun = owned(d.sunshine.as_str());
    push_str(&mut sun, "h");
    emit_text(ops, sun, cx0 + 48, gy2 + 1, Font::Latin6x10);
    assert(ops_view(ops@) =~= start + column_ops(inner, c as int, d@));
}

/// How many days are shown of `n` forecast days.
fn shown_count(n: usize) -> (r: usize)
    ensures
        r == shown_days(n as int),
{
    let after_today = if n >= 1 { n - 1 } else { 0 };
    if after_today < 3 { after_today } else { 3 }
}

impl DailyForecastModule {
    pub fn new(bounds: Rect, url: String) -> (r: DailyForecastModule)
        ensures
            r@.bounds == bounds,
            r@.url == url@,
            r@.data is None,
    {
        DailyForecastModule { bounds, url, data: None }
    }

    /// The block's rectangle on the panel.
    pub fn bounds(&self) -> (r: Rect)
        ensures
            r == self@.bounds,
    {
        self.bounds
    }

    /// Where the forecast is requested.
    pub fn url(&self) -> (r: &str)
        ensures
            r@ == self@.url,
    {
        self.url.as_str()
    }

    /// Takes what this tick's forecast request handed out: a new response is
    /// kept and reported as a change; without one the block stays as it was.
    pub fn update(&mut self, fetched: Option<DailyReading>) -> (r: bool)
        ensures
            r == fetched is Some,
            final(self)@.data == (match fetched {
                Some(x) => Some(
                    match x.days {
                        Some(ds) => Some(days_view(ds@)),
                        None => None,
                    },
                ),
                None => old(self)@.data,
            }),
            final(self)@.bounds == old(self)@.bounds,
            final(self)@.url == old(self)@.url,
    {
        match fetched {
            Some(x) => {
                self.data = Some(x);
                true
            },
            None => false,
        }
    }

    /// Draws the block.
    pub fn render(&self) -> (r: Vec<DrawOp>)
        requires
            daily_fits(self@),
        ensures
            ops_view(r@) == daily_ops(self@),
    {
        let mut ops: Vec<DrawOp> = Vec::new();
        let inner = draw_panel(&mut ops, self.bounds, "3-DAY FORECAST");
        let ghost head = ops_view(ops@);
        let days = match &self.data {
            None => {
                emit(&mut ops, DrawOp::Text {
                    text: owned("Loading..."),
                    x: inner.x,
                    y: inner.y + 20,
                    font: Font::Latin9x15,
                    align: HAlign::Center,
                    baseline: VAlign::Top,
                    ink: Ink::Black,
                });
                assert(ops_view(ops@) =~= daily_ops(self@));
                return ops;
            },
            Some(reading) => match &reading.days {
                None => {
                    emit(&mut ops, DrawOp::Text {
                        text: owned("No data"),
                        x: inner.x,
                        y: inner.y + 20,
                        font: Font::Latin9x15,
                        align: HAlign::Center,
                        baseline: VAlign::Top,
                        ink: Ink::Black,
                    });
                    assert(ops_view(ops@) =~= daily_ops(self@));
                    return ops;
                },
                Some(days) => days,
            },
        };
        let ghost dv = days_view(days@);
        assert(self@.data == Some(Some(dv)));
        assert(dv.len() == days@.len());
        let n = shown_count(days.len());
        proof {
            let v = self@;
            let days_v = v.data.unwrap().unwrap();
            assert(days_v == dv);
            assert forall|k: int| 0 <= k < n implies column_fits(inner, k, #[trigger] dv[k + 1]) by {
                assert(column_fits(inner, k, days_v[k + 1]));
            }
        }
        assert(daily_ops(self@) == head + columns_ops(dv, inner, n as int));
        let mut c: usize = 0;
        assert(ops_view(ops@) =~= head + columns_ops(dv, inner, 0));
        while c < n
            invariant
                c <= n,
                n == shown_days(days.len() as int),
                n <= 3,
                dv == days_view(days@),
                dv.len() == days@.len(),
                fits(inner.y + 85),
                forall|k: int| 0 <= k < n ==> column_fits(inner, k, #[trigger] dv[k + 1]),
                ops_view(ops@) == head + columns_ops(dv, inner, c as int),
            decreases n - c,
        {
            assert(column_fits(inner, c as int, dv[c + 1]));
            assert(dv[c + 1] == days@[c + 1]@);
            render_column(&mut ops, inner, c, &days[c + 1]);
            assert(ops_view(ops@) =~= head + columns_ops(dv, inner, c + 1));
            c = c + 1;
        }
        ops
    }
}

fn column_can_render(inner: Rect, c: usize, d: &DayForecast) -> (r: bool)
    requires
        c < 3,
    ensures
        r == column_fits(inner, c as int, d@),
{
    let ix = inner.x as i64;
    let iy = inner.y as i64;
    let iw = #[verifier::truncate] (inner.width as i32) as i64;
    let ih = #[verifier::truncate] (inner.height as i32) as i64;
    let colw = iw / 3;
    assert(-715827883 <= colw <= 715827883);
    assert(-1431655766 <= (c as i64) * colw <= 1431655766) by (nonlinear_arith)
        requires
            c < 3,
            -715827883 <= colw <= 715827883,
    ;
    let cx0 = ix + (c as i64) * colw;
    let cx = cx0 + colw / 2;
    assert(cx0 == column_left(inner, c as int));
    assert(cx == column_centre(inner, c as int));
    crate::dates::has_weekday(d.date.as_str()) && fits64(cx0) && fits64(cx0 + 74) && fits64(cx)
        && fits64(cx - 19) && (c == 0 || (fits64(iy + ih) && fits64(iy + ih - 4)))
}

impl DailyForecastModule {
    /// Whether the block can be drawn (what `render` needs): the weekday of
    /// every shown day is defined and the coordinates stay within `i32`.
    pub fn can_render(&self) -> (r: bool)
        ensures
            r == daily_fits(self@),
    {
        if !panel_can_draw(self.bounds) {
            return false;
        }
        let inner = crate::geometry::panel_inner(self.bounds);
        let days = match &self.data {
            Some(reading) => match &reading.days {
                Some(days) => days,
                None => {
                    return fits64(inner.y as i64 + 20);
                },
            },
            None => {
                return fits64(inner.y as i64 + 20);
            },
        };
        if !fits64(inner.y as i64 + 85) {
            return false;
        }
        let ghost dv = days_view(days@);
        assert(self@.data == Some(Some(dv)));
        assert(dv.len() == days@.len());
        let n = shown_count(days.len());
        let mut c: usize = 0;
        while c < n
            invariant
                c <= n,
                n == shown_days(days.len() as int),
                n <= 3,
                dv == days_view(days@),
                dv.len() == days@.len(),
                self@.data == Some(Some(dv)),
                inner == inner_rect(self@.bounds),
                forall|k: int| 0 <= k < c ==> column_fits(inner, k, #[trigger] dv[k + 1]),
            decreases n - c,
        {
            assert(dv[c + 1] == days@[c + 1]@);
            if !column_can_render(inner, c, &days[c + 1]) {
                assert(!column_fits(inner, c as int, dv[c + 1]));
                proof {
                    let v = self@;
                    let days_v = v.data.unwrap().unwrap();
                    assert(days_v == dv);
                    assert(0 <= c < shown_days(days_v.len() as int));
                    if daily_fits(v) {
                        assert(column_fits(inner, c as int, days_v[c + 1]));
                    }
                }
                return false;
            }
            c = c + 1;
        }
        true
    }
}

}
