//! Text shaping shared by the dashboard blocks: truncation with an ellipsis,
//! `HH:MM` extraction and compass labels.

use vstd::prelude::*;
use crate::geometry::{inner_rect, Rect};
use crate::text::{owned, push_str, slice_of, str_chars, str_get, string_of};
use crate::weather::IconKind;

verus! {

/// `s` cut to at most `max` characters: when it is longer, its first
/// `max - 3` characters followed by `...`, or as much of `...` as fits when
/// `max` is below 3.
pub open spec fn truncated(s: Seq<char>, max: int) -> Seq<char> {
    if s.len() <= max {
        s
    } else if max >= 3 {
        s.take(max - 3) + "..."@
    } else {
        "..."@.take(max)
    }
}

/// Truncate a string to `max` chars, adding a `...` ellipsis if cut.
pub fn truncate(s: &str, max: usize) -> (r: String)
    ensures
        r@ == truncated(s@, max as int),
{
    let v = str_chars(s);
    if v.len() <= max {
        let r = string_of(&v, 0, v.len());
        assert(v@.subrange(0, v.len() as int) =~= s@);
        r
    } else if max >= 3 {
        let mut r = string_of(&v, 0, max - 3);
        push_str(&mut r, "...");
        assert(r@ =~= truncated(s@, max as int));
        r
    } else {
        let dots = str_chars("...");
        proof {
            reveal_strlit("...");
        }
        let r = string_of(&dots, 0, max);
        assert(r@ =~= truncated(s@, max as int));
        r
    }
}

/// The `HH:MM` part (bytes 11..16) of an ISO-8601 timestamp, or the whole
/// input when that slice does not exist.
pub open spec fn hhmm_of(iso: Seq<char>) -> Seq<char> {
    match slice_of(iso, 11, 16) {
        Some(t) => t,
        None => iso,
    }
}

/// Extract `HH:MM` from an ISO-8601 timestamp like `2026-08-20T14:35:00+02:00`.
pub fn hhmm(iso: &str) -> (r: &str)
    ensures
        r@ == hhmm_of(iso@),
{
    match str_get(iso, 11, 16) {
        Some(t) => t,
        None => iso,
    }
}

/// Label of an 8-point compass direction, 0 = north, counting clockwise.
pub open spec fn compass_name(i: int) -> Seq<char> {
    if i == 0 {
        "N"@
    } else if i == 1 {
        "NE"@
    } else if i == 2 {
        "E"@
    } else if i == 3 {
        "SE"@
    } else if i == 4 {
        "S"@
    } else if i == 5 {
        "SW"@
    } else if i == 6 {
        "W"@
    } else if i == 7 {
        "NW"@
    } else {
        ""@
    }
}

/// The 8-point compass label for a bearing given in rounded multiples of
/// 45 degrees; only the low three bits count (`octant & 7`), so any whole
/// number of turns maps back onto the rose.
pub fn compass_point(octant: i32) -> (r: &'static str)
    ensures
        r@ == compass_name((octant as int) % 8),
{
    let mut i = octant % 8;
    if i < 0 {
        i = i + 8;
    }
    assert(i == (octant as int) % 8);
    match i {
        0 => "N",
        1 => "NE",
        2 => "E",
        3 => "SE",
        4 => "S",
        5 => "SW",
        6 => "W",
        _ => "NW",
    }
}


/// The cardinal point a quarter turn clockwise from `p`.
pub open spec fn quarter_turn(p: Seq<char>) -> Seq<char> {
    if p == "N"@ {
        "E"@
    } else if p == "E"@ {
        "S"@
    } else if p == "S"@ {
        "W"@
    } else if p == "W"@ {
        "N"@
    } else {
        ""@
    }
}

/// The compass rose as labelled: octant 0 is north; each cardinal point is
/// a quarter turn clockwise from the one two octants before it; each odd
/// octant lies between its two neighbours and is named by them, north or
/// south first (`NE`, `SE`, `SW`, `NW`); the eight labels are distinct.
pub proof fn lemma_compass_rose(i: int, j: int)
    requires
        0 <= i < 8,
        0 <= j < 8,
    ensures
        compass_name(0) == "N"@,
        i % 2 == 0 ==> compass_name((i + 2) % 8) == quarter_turn(compass_name(i)),
        i % 2 == 1 ==> {
            let a = compass_name(i - 1);
            let b = compass_name((i + 1) % 8);
            compass_name(i) == if a == "N"@ || a == "S"@ {
                a + b
            } else {
                b + a
            }
        },
        i != j ==> compass_name(i) != compass_name(j),
{
    reveal_strlit("N");
    reveal_strlit("NE");
    reveal_strlit("E");
    reveal_strlit("SE");
    reveal_strlit("S");
    reveal_strlit("SW");
    reveal_strlit("W");
    reveal_strlit("NW");
    reveal_strlit("");
    assert("E"@[0] != "N"@[0]);
    assert("S"@[0] != "N"@[0] && "S"@[0] != "E"@[0]);
    assert("W"@[0] != "N"@[0] && "W"@[0] != "E"@[0] && "W"@[0] != "S"@[0]);
    if i % 2 == 1 {
        assert("N"@ + "E"@ =~= "NE"@);
        assert("S"@ + "E"@ =~= "SE"@);
        assert("S"@ + "W"@ =~= "SW"@);
        assert("N"@ + "W"@ =~= "NW"@);
    }
    if i != j {
        assert(compass_name(i).len() != compass_name(j).len() || compass_name(i)[0] != compass_name(j)[0]
            || compass_name(i)[compass_name(i).len() - 1] != compass_name(j)[compass_name(j).len() - 1]);
    }
}

/// A truncated string never has more than `max` characters, is left alone
/// when it already fits, and otherwise keeps the beginning of the string
/// before its ellipsis (all of the ellipsis that fits when `max` is below 3).
pub proof fn lemma_truncated(s: Seq<char>, max: int)
    requires
        max >= 0,
    ensures
        truncated(s, max).len() <= max,
        s.len() <= max ==> truncated(s, max) == s,
        s.len() > max ==> truncated(s, max).len() == max,
        s.len() > max && max >= 3 ==> truncated(s, max).subrange(0, max - 3) == s.take(max - 3),
        s.len() > max && max >= 3 ==> truncated(s, max).subrange(max - 3, max) == "..."@,
        s.len() > max && max < 3 ==> truncated(s, max) == "..."@.take(max),
{
    reveal_strlit("...");
    if s.len() > max && max >= 3 {
        assert(truncated(s, max).subrange(0, max - 3) =~= s.take(max - 3));
        assert(truncated(s, max).subrange(max - 3, max) =~= "..."@);
    }
}


/// The monospaced fonts used on the panel (ASCII or Latin-1 glyph sets).
#[derive(Clone, Copy, Debug, PartialEq, Eq, Structural)]
pub enum Font {
    Ascii9x15,
    Ascii10x20,
    Latin6x10,
    Latin9x15,
    Latin9x15Bold,
    Latin10x20,
}

/// Horizontal anchoring of a text at its position.
#[derive(Clone, Copy, Debug, PartialEq, Eq, Structural)]
pub enum HAlign {
    Left,
    Center,
    Right,
}

/// Vertical anchoring of a text at its position.
#[derive(Clone, Copy, Debug, PartialEq, Eq, Structural)]
pub enum VAlign {
    Top,
    Middle,
}

/// Pixel colour.
#[derive(Clone, Copy, Debug, PartialEq, Eq, Structural)]
pub enum Ink {
    Black,
    White,
}

/// The small pictograms drawn in front of a measured value.
#[derive(Clone, Copy, Debug, PartialEq, Eq, Structural)]
pub enum GlyphKind {
    Humidity,
    Wind,
    Rain,
    Uv,
    Sunrise,
    Sunset,
    Sunshine,
    Millimeters,
}

/// One drawing step of a block, in the panel's coordinates. Strokes and
/// fills are black.
pub enum DrawOp {
    Text { text: String, x: i32, y: i32, font: Font, align: HAlign, baseline: VAlign, ink: Ink },
    Line { x0: i32, y0: i32, x1: i32, y1: i32, width: u32 },
    /// The outline of a rectangle.
    Frame { rect: Rect, width: u32 },
    /// A filled rectangle with rounded corners.
    RoundedBox { rect: Rect, radius: u32 },
    /// A weather pictogram filling a `size` x `size` box at (`x`, `y`).
    Icon { icon: IconKind, x: i32, y: i32, size: u32 },
    /// A value pictogram filling a `size` x `size` box at (`x`, `y`).
    Glyph { glyph: GlyphKind, x: i32, y: i32, size: u32 },
}

/// A drawing step with its text as characters.
pub enum OpView {
    Text { text: Seq<char>, x: int, y: int, font: Font, align: HAlign, baseline: VAlign, ink: Ink },
    Line { x0: int, y0: int, x1: int, y1: int, width: u32 },
    Frame { rect: Rect, width: u32 },
    RoundedBox { rect: Rect, radius: u32 },
    Icon { icon: IconKind, x: int, y: int, size: u32 },
    Glyph { glyph: GlyphKind, x: int, y: int, size: u32 },
}

impl View for DrawOp {
    type V = OpView;

    open spec fn view(&self) -> OpView {
        match self {
            DrawOp::Text { text, x, y, font, align, baseline, ink } => OpView::Text {
                text: text@,
                x: *x as int,
                y: *y as int,
                font: *font,
                align: *align,
                baseline: *baseline,
                ink: *ink,
            },
            DrawOp::Line { x0, y0, x1, y1, width } => OpView::Line {
                x0: *x0 as int,
                y0: *y0 as int,
                x1: *x1 as int,
                y1: *y1 as int,
                width: *width,
            },
            DrawOp::Frame { rect, width } => OpView::Frame { rect: *rect, width: *width },
            DrawOp::RoundedBox { rect, radius } => OpView::RoundedBox { rect: *rect, radius: *radius },
            DrawOp::Icon { icon, x, y, size } => OpView::Icon { icon: *icon, x: *x as int, y: *y as int, size: *size },
            DrawOp::Glyph { glyph, x, y, size } => OpView::Glyph { glyph: *glyph, x: *x as int, y: *y as int, size: *size },
        }
    }
}

/// The steps of a list of drawing steps.
pub open spec fn ops_view(ops: Seq<DrawOp>) -> Seq<OpView> {
    ops.map_values(|o: DrawOp| o@)
}

/// A black text step anchored at its top-left corner.
pub open spec fn text_at(text: Seq<char>, x: int, y: int, font: Font) -> OpView {
    OpView::Text { text, x, y, font, align: HAlign::Left, baseline: VAlign::Top, ink: Ink::Black }
}

/// `v` fits in an `i32`.
pub open spec fn fits(v: int) -> bool {
    i32::MIN <= v <= i32::MAX
}

/// A titled panel can be drawn inside `b` without overflowing coordinates:
/// its border, title, separator and content area.
pub open spec fn panel_fits(b: Rect) -> bool {
    &&& b.width >= 16
    &&& b.height >= 30
    &&& fits(b.x + 8)
    &&& fits(b.y + 23)
    &&& fits(b.x + (b.width as i32))
    &&& fits(b.x + (b.width as i32) - 1)
}

/// The steps of a titled panel: a 1px border, the title 7px in and 5px down,
/// and a separator line 18px below the top edge.
pub open spec fn panel_ops(b: Rect, title: Seq<char>) -> Seq<OpView> {
    seq![
        OpView::Frame { rect: b, width: 1 },
        text_at(title, b.x + 7, b.y + 5, Font::Latin6x10),
        OpView::Line { x0: b.x as int, y0: b.y + 18, x1: b.x + (b.width as i32) - 1, y1: b.y + 18, width: 1 },
    ]
}

/// Appends a drawing step.
pub fn emit(ops: &mut Vec<DrawOp>, op: DrawOp)
    ensures
        ops_view(final(ops)@) == ops_view(old(ops)@).push(op@),
{
    ops.push(op);
    assert(ops_view(ops@) =~= ops_view(old(ops)@).push(op@));
}

/// Appends a black top-left anchored text.
pub fn emit_text(ops: &mut Vec<DrawOp>, text: String, x: i32, y: i32, font: Font)
    ensures
        ops_view(final(ops)@) == ops_view(old(ops)@).push(text_at(text@, x as int, y as int, font)),
{
    emit(ops, DrawOp::Text { text, x, y, font, align: HAlign::Left, baseline: VAlign::Top, ink: Ink::Black });
}

/// Draw a titled panel (1px border + title bar) inside `bounds` and return the
/// inner content rectangle that a module may draw into.
pub fn draw_panel(ops: &mut Vec<DrawOp>, bounds: Rect, title: &str) -> (r: Rect)
    requires
        panel_fits(bounds),
    ensures
        ops_view(final(ops)@) == ops_view(old(ops)@) + panel_ops(bounds, title@),
        r == inner_rect(bounds),
{
    let ghost start = ops_view(ops@);
    emit(ops, DrawOp::Frame { rect: bounds, width: 1 });
    let w = #[verifier::truncate] (bounds.width as i32);
    emit_text(ops, owned(title), bounds.x + 7, bounds.y + 5, Font::Latin6x10);
    let sep_y = bounds.y + 18;
    emit(ops, DrawOp::Line { x0: bounds.x, y0: sep_y, x1: bounds.x + w - 1, y1: sep_y, width: 1 });
    assert(ops_view(ops@) =~= start + panel_ops(bounds, title@));
    crate::geometry::panel_inner(bounds)
}


/// `v` as an `i64` fits in an `i32`.
pub fn fits64(v: i64) -> (r: bool)
    ensures
        r == fits(v as int),
{
    i32::MIN as i64 <= v && v <= i32::MAX as i64
}

/// Whether a titled panel can be drawn inside `b`.
pub fn panel_can_draw(b: Rect) -> (r: bool)
    ensures
        r == panel_fits(b),
{
    let w = #[verifier::truncate] (b.width as i32) as i64;
    b.width >= 16 && b.height >= 30 && fits64(b.x as i64 + 8) && fits64(b.y as i64 + 23) && fits64(
        b.x as i64 + w,
    ) && fits64(b.x as i64 + w - 1)
}

}
