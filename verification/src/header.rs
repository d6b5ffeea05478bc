//! The header bar (date, time, device address) and the refresh cadence of
//! the dashboard loop.

use vstd::prelude::*;
use crate::dates::{datetime_text, local_datetime, tdiv, year_fits, Tm};
use crate::draw::{fits, fits64, ops_view, DrawOp, Font, HAlign, Ink, OpView, VAlign};
use crate::geometry::Rect;
use crate::text::{owned, push_str};

verus! {

/// Seconds between polls of the fast data sources.
pub const POLL_SECS: u32 = 60;

/// Seconds between full weather/clock refreshes.
pub const DISPLAY_REFRESH_SECS: u32 = 1800;

/// Polls per weather/clock refresh.
pub const WEATHER_EVERY: u32 = 30;

/// Whether loop tick `tick` is a slow one (weather and clock refresh).
pub fn is_slow_tick(tick: u32) -> (r: bool)
    ensures
        r == (tick % WEATHER_EVERY == 0),
{
    tick % WEATHER_EVERY == 0
}

/// The tick after `tick` (wrapping around).
pub fn next_tick(tick: u32) -> (r: u32)
    ensures
        r == (if tick == u32::MAX { 0 } else { tick + 1 }),
{
    tick.wrapping_add(1)
}

/// Top bar showing the current date, time and the device IP address.
pub struct HeaderModule {
    bounds: Rect,
    date: String,
    time: String,
    ip: String,
}

/// What the header shows.
pub struct HeaderView {
    pub bounds: Rect,
    pub date: Seq<char>,
    pub time: Seq<char>,
    pub ip: Seq<char>,
}

impl View for HeaderModule {
    type V = HeaderView;

    closed spec fn view(&self) -> HeaderView {
        HeaderView { bounds: self.bounds, date: self.date@, time: self.time@, ip: self.ip@ }
    }
}

fn string_from(s: &str) -> (r: String)
    ensures
        r@ == s@,
{
    let mut r = String::new();
    push_str(&mut r, s);
    assert(r@ =~= s@);
    r
}

impl HeaderModule {
    pub fn new(bounds: Rect) -> (r: HeaderModule)
        ensures
            r@.bounds == bounds,
            r@.date == "--"@,
            r@.time == "--:--"@,
            r@.ip == "0.0.0.0"@,
    {
        HeaderModule {
            bounds,
            date: string_from("--"),
            time: string_from("--:--"),
            ip: string_from("0.0.0.0"),
        }
    }

    pub fn set_datetime(&mut self, date: String, time: String)
        ensures
            final(self)@.date == date@,
            final(self)@.time == time@,
            final(self)@.ip == old(self)@.ip,
            final(self)@.bounds == old(self)@.bounds,
    {
        self.date = date;
        self.time = time;
    }

    pub fn set_ip(&mut self, ip: String)
        ensures
            final(self)@.ip == ip@,
            final(self)@.date == old(self)@.date,
            final(self)@.time == old(self)@.time,
            final(self)@.bounds == old(self)@.bounds,
    {
        self.ip = ip;
    }

    /// Takes the clock reading `now`; reports a change (re-render) only on the
    /// slow heartbeat.
    pub fn update(&mut self, now: &Tm, slow: bool) -> (r: bool)
        requires
            year_fits(*now),
        ensures
            r == slow,
            final(self)@.date == datetime_text(*now).0,
            final(self)@.time == datetime_text(*now).1,
            final(self)@.ip == old(self)@.ip,
            final(self)@.bounds == old(self)@.bounds,
    {
        let (date, time) = local_datetime(now);
        self.set_datetime(date, time);
        slow
    }

    /// The block's rectangle on the panel.
    pub fn bounds(&self) -> (r: Rect)
        ensures
            r == self@.bounds,
    {
        self.bounds
    }

    pub fn date(&self) -> (r: &str)
        ensures
            r@ == self@.date,
    {
        self.date.as_str()
    }

    pub fn time(&self) -> (r: &str)
        ensures
            r@ == self@.time,
    {
        self.time.as_str()
    }

    /// The address label, `IP <address>`.
    pub fn ip_label(&self) -> (r: String)
        ensures
            r@ == "IP "@ + self@.ip,
    {
        let mut r = String::new();
        push_str(&mut r, "IP ");
        push_str(&mut r, self.ip.as_str());
        assert(r@ =~= "IP "@ + self@.ip);
        r
    }

    /// Draws the header: date on the left, time centred, address on the
    /// right, all vertically centred, over a 2px divider along the bottom.
    pub fn render(&self) -> (r: Vec<DrawOp>)
        requires
            header_fits(self@.bounds),
        ensures
            ops_view(r@) == header_ops(self@),
    {
        let tl_x = self.bounds.x;
        let tl_y = self.bounds.y;
        let w = #[verifier::truncate] (self.bounds.width as i32);
        let h = #[verifier::truncate] (self.bounds.height as i32);
        let mid_y = tl_y + (h - 20) / 2;
        let mut ops: Vec<DrawOp> = Vec::new();
        ops.push(DrawOp::Text {
            text: owned(self.date.as_str()),
            x: tl_x + 10,
            y: mid_y,
            font: Font::Ascii10x20,
            align: HAlign::Left,
            baseline: VAlign::Top,
            ink: Ink::Black,
        });
        ops.push(DrawOp::Text {
            text: owned(self.time.as_str()),
            x: tl_x + w / 2,
            y: mid_y,
            font: Font::Ascii10x20,
            align: HAlign::Center,
            baseline: VAlign::Top,
            ink: Ink::Black,
        });
        ops.push(DrawOp::Text {
            text: self.ip_label(),
            x: tl_x + w - 10,
            y: mid_y + 2,
            font: Font::Ascii9x15,
            align: HAlign::Right,
            baseline: VAlign::Top,
            ink: Ink::Black,
        });
        let y = tl_y + h - 1;
        ops.push(DrawOp::Line { x0: tl_x, y0: y, x1: tl_x + w - 1, y1: y, width: 2 });
        assert(ops_view(ops@) =~= header_ops(self@));
        ops
    }
}

/// The header's coordinates stay within `i32`.
pub open spec fn header_fits(b: Rect) -> bool {
    let w = (b.width as i32) as int;
    let h = (b.height as i32) as int;
    let mid_y = b.y + tdiv(h - 20, 2);
    &&& fits(h - 20)
    &&& fits(mid_y)
    &&& fits(mid_y + 2)
    &&& fits(b.x + 10)
    &&& fits(b.x + tdiv(w, 2))
    &&& fits(b.x + w)
    &&& fits(b.x + w - 10)
    &&& fits(b.x + w - 1)
    &&& fits(b.y + h)
    &&& fits(b.y + h - 1)
}

/// The header's drawing steps.
pub open spec fn header_ops(v: HeaderView) -> Seq<OpView> {
    let b = v.bounds;
    let w = (b.width as i32) as int;
    let h = (b.height as i32) as int;
    let mid_y = b.y + tdiv(h - 20, 2);
    seq![
        OpView::Text { text: v.date, x: b.x + 10, y: mid_y, font: Font::Ascii10x20, align: HAlign::Left, baseline: VAlign::Top, ink: Ink::Black },
        OpView::Text { text: v.time, x: b.x + tdiv(w, 2), y: mid_y, font: Font::Ascii10x20, align: HAlign::Center, baseline: VAlign::Top, ink: Ink::Black },
        OpView::Text { text: "IP "@ + v.ip, x: b.x + w - 10, y: mid_y + 2, font: Font::Ascii9x15, align: HAlign::Right, baseline: VAlign::Top, ink: Ink::Black },
        OpView::Line { x0: b.x as int, y0: b.y + h - 1, x1: b.x + w - 1, y1: b.y + h - 1, width: 2 },
    ]
}


impl HeaderModule {
    /// Whether the header's coordinates stay within `i32` (what `render`
    /// needs).
    pub fn can_render(&self) -> (r: bool)
        ensures
            r == header_fits(self@.bounds),
    {
        let b = self.bounds;
        let w = #[verifier::truncate] (b.width as i32) as i64;
        let h = #[verifier::truncate] (b.height as i32) as i64;
        let mid_y = b.y as i64 + (h - 20) / 2;
        assert(mid_y == b.y + tdiv(h - 20, 2));
        fits64(h - 20) && fits64(mid_y) && fits64(mid_y + 2) && fits64(b.x as i64 + 10) && fits64(
            b.x as i64 + w / 2,
        ) && fits64(b.x as i64 + w) && fits64(b.x as i64 + w - 10) && fits64(b.x as i64 + w - 1)
            && fits64(b.y as i64 + h) && fits64(b.y as i64 + h - 1)
    }
}

}
