//! Panel geometry: rectangles on the 800x480 panel and the byte-aligned
//! windows pushed by a partial refresh.

use vstd::prelude::*;

verus! {

/// An axis-aligned rectangle: top-left corner and size in pixels.
#[derive(Clone, Copy, Debug, PartialEq, Eq, Structural)]
pub struct Rect {
    pub x: i32,
    pub y: i32,
    pub width: u32,
    pub height: u32,
}

impl Rect {
    pub fn new(x: i32, y: i32, width: u32, height: u32) -> (r: Rect)
        ensures
            r == (Rect { x, y, width, height }),
    {
        Rect { x, y, width, height }
    }
}


/// The content area inside a titled panel: 8 pixels in from the left, below
/// the 23-pixel title bar, 16 pixels narrower and 30 pixels lower.
pub open spec fn inner_rect(b: Rect) -> Rect {
    Rect { x: (b.x + 8) as i32, y: (b.y + 23) as i32, width: (b.width - 16) as u32, height: (b.height - 30) as u32 }
}

/// The inner content rectangle of a titled panel drawn inside `bounds`.
pub fn panel_inner(bounds: Rect) -> (r: Rect)
    requires
        bounds.width >= 16,
        bounds.height >= 30,
        bounds.x <= i32::MAX - 8,
        bounds.y <= i32::MAX - 23,
    ensures
        r == inner_rect(bounds),
{
    Rect { x: bounds.x + 8, y: bounds.y + 23, width: bounds.width - 16, height: bounds.height - 30 }
}

/// A region of the framebuffer pushed by a partial refresh: its column span
/// widened to whole bytes (8-pixel boundaries), its rows, and where it lies
/// in the framebuffer.
#[derive(Clone, Copy, Debug, PartialEq, Eq, Structural)]
pub struct Window {
    /// First pixel column (a multiple of 8).
    pub x: u32,
    pub y: u32,
    /// Width in pixels (a multiple of 8).
    pub width: u32,
    pub height: u32,
    /// First byte column.
    pub byte_x: usize,
    /// Bytes per row.
    pub row_bytes: usize,
    /// Bytes in the whole region.
    pub len: usize,
}

/// The left edge of a rectangle clamped to the panel (negative coordinates
/// count as 0).
pub open spec fn clamp0(v: i32) -> int {
    if v < 0 {
        0
    } else {
        v as int
    }
}

/// The byte-aligned window covering `b`: columns from the start of the byte
/// holding the first pixel to the end of the byte holding the last one.
pub open spec fn window_of(b: Rect) -> Window {
    let x0 = clamp0(b.x);
    let y0 = clamp0(b.y);
    let ax = x0 / 8 * 8;
    let ax_end = (x0 + b.width - 1) / 8 * 8 + 7;
    let aw = ax_end - ax + 1;
    Window {
        x: ax as u32,
        y: y0 as u32,
        width: aw as u32,
        height: b.height,
        byte_x: (ax / 8) as usize,
        row_bytes: (aw / 8) as usize,
        len: ((aw / 8) * b.height) as usize,
    }
}

/// The byte-aligned partial-refresh window of a module's rectangle, or `None`
/// for an empty rectangle.
pub fn partial_window(b: Rect) -> (r: Option<Window>)
    requires
        clamp0(b.x) + b.width <= u32::MAX - 7,
        (clamp0(b.x) + b.width + 7) / 8 * (b.height as int) <= usize::MAX,
    ensures
        r == (if b.width == 0 || b.height == 0 {
            None
        } else {
            Some(window_of(b))
        }),
{
    if b.width == 0 || b.height == 0 {
        return None;
    }
    let x0: u32 = if b.x < 0 { 0 } else { b.x as u32 };
    let y0: u32 = if b.y < 0 { 0 } else { b.y as u32 };
    let ax = x0 / 8 * 8;
    let ax_end = (x0 + b.width - 1) / 8 * 8 + 7;
    let aw = ax_end - ax + 1;
    let row_bytes = (aw / 8) as usize;
    proof {
        assert(aw / 8 <= (clamp0(b.x) + b.width + 7) / 8);
        assert(row_bytes * (b.height as int) <= (clamp0(b.x) + b.width + 7) / 8 * (b.height as int)) by (nonlinear_arith)
            requires
                row_bytes <= (clamp0(b.x) + b.width + 7) / 8,
        ;
    }
    let len = row_bytes * (b.height as usize);
    Some(Window {
        x: ax,
        y: y0,
        width: aw,
        height: b.height,
        byte_x: (ax / 8) as usize,
        row_bytes,
        len,
    })
}

/// The rows `y0 .. y0 + rows` of the byte columns `bx .. bx + rb`, packed
/// one after another.
pub open spec fn packed(full: Seq<u8>, stride: int, bx: int, rb: int, y0: int, rows: int) -> Seq<u8>
    decreases rows,
{
    if rows <= 0 {
        seq![]
    } else {
        packed(full, stride, bx, rb, y0, rows - 1) + full.subrange(
            (y0 + rows - 1) * stride + bx,
            (y0 + rows - 1) * stride + bx + rb,
        )
    }
}

/// The window lies inside a framebuffer of `full_len` bytes.
pub open spec fn window_fits(w: Window, stride: int, full_len: int) -> bool {
    w.height == 0 || (w.y + w.height - 1) * stride + w.byte_x + w.row_bytes <= full_len
}

/// Packs the window's region out of the full framebuffer into `buf`, which
/// is reused between refreshes.
pub fn pack_region(buf: &mut Vec<u8>, full: &[u8], stride: usize, w: &Window)
    requires
        window_fits(*w, stride as int, full@.len() as int),
        w.y + w.height <= usize::MAX,
    ensures
        final(buf)@ == packed(full@, stride as int, w.byte_x as int, w.row_bytes as int, w.y as int, w.height as int),
{
    buf.clear();
    let n = full.len();
    let mut r: usize = 0;
    let rows = w.height as usize;
    while r < rows
        invariant
            n == full@.len(),
            r <= rows,
            rows == w.height,
            w.y + w.height <= usize::MAX,
            window_fits(*w, stride as int, full@.len() as int),
            buf@ == packed(full@, stride as int, w.byte_x as int, w.row_bytes as int, w.y as int, r as int),
        decreases rows - r,
    {
        proof {
            assert((w.y + r) * stride <= (w.y + w.height - 1) * stride) by (nonlinear_arith)
                requires
                    r + 1 <= w.height,
            ;
            assert((w.y + w.height - 1) * stride + w.byte_x + w.row_bytes <= n);
        }
        let src = (w.y as usize + r) * stride + w.byte_x;
        let ghost before = buf@;
        let mut c: usize = 0;
        while c < w.row_bytes
            invariant
                c <= w.row_bytes,
                n == full@.len(),
                src + w.row_bytes <= full@.len(),
                buf@ == before + full@.subrange(src as int, src + c),
            decreases w.row_bytes - c,
        {
            buf.push(full[src + c]);
            c = c + 1;
            assert(buf@ =~= before + full@.subrange(src as int, src + c));
        }
        r = r + 1;
    }
}

/// Whether module `i` is pushed by a partial refresh: only when its flag in
/// `changed` is set (a missing flag counts as unchanged).
pub fn is_changed(changed: &[bool], i: usize) -> (r: bool)
    ensures
        r == (i < changed@.len() && changed@[i as int]),
{
    if i < changed.len() {
        changed[i]
    } else {
        false
    }
}


/// The partial-refresh window of a non-empty rectangle starts and ends on
/// 8-pixel column boundaries and covers every column of the rectangle (from
/// its clamped left edge) and exactly its rows; its byte count is one row of
/// bytes per pixel row.
pub proof fn lemma_window_covers(b: Rect)
    requires
        b.width > 0,
        clamp0(b.x) + b.width <= u32::MAX - 7,
    ensures
        window_of(b).x % 8 == 0,
        window_of(b).width % 8 == 0,
        window_of(b).x <= clamp0(b.x),
        clamp0(b.x) + b.width <= window_of(b).x + window_of(b).width,
        window_of(b).x + window_of(b).width <= clamp0(b.x) + b.width + 14,
        window_of(b).byte_x * 8 == window_of(b).x,
        window_of(b).row_bytes * 8 == window_of(b).width,
        window_of(b).y == clamp0(b.y),
        window_of(b).height == b.height,
{
}

/// The packed region holds one row of bytes per pixel row.
pub proof fn lemma_packed_len(full: Seq<u8>, stride: int, bx: int, rb: int, y0: int, rows: int)
    requires
        rows >= 0,
        rb >= 0,
        forall|r: int| 0 <= r < rows ==> 0 <= #[trigger] ((y0 + r) * stride) + bx && (y0 + r) * stride + bx + rb <= full.len(),
    ensures
        packed(full, stride, bx, rb, y0, rows).len() == rows * rb,
    decreases rows,
{
    if rows > 0 {
        lemma_packed_len(full, stride, bx, rb, y0, rows - 1);
        let r = rows - 1;
        assert(0 <= (y0 + r) * stride + bx);
        assert(y0 + rows - 1 == y0 + r);
        assert((y0 + rows - 1) * stride == (y0 + r) * stride);
        let a = (y0 + rows - 1) * stride + bx;
        assert(0 <= a && a + rb <= full.len());
        assert(full.subrange(a, a + rb).len() == rb);
        assert(packed(full, stride, bx, rb, y0, rows) == packed(full, stride, bx, rb, y0, rows - 1)
            + full.subrange(a, a + rb));
        assert((rows - 1) * rb + rb == rows * rb) by (nonlinear_arith);
        assert(packed(full, stride, bx, rb, y0, rows - 1).len() == (rows - 1) * rb);
    } else {
        assert(rows * rb == 0) by (nonlinear_arith)
            requires
                rows == 0,
        ;
    }
}


/// Whether the window lies inside a framebuffer of `full_len` bytes and its
/// rows can be counted in `usize` (what [`pack_region`] needs).
pub fn window_in_buffer(w: &Window, stride: usize, full_len: usize) -> (r: bool)
    ensures
        r == (window_fits(*w, stride as int, full_len as int) && w.y + w.height <= usize::MAX),
{
    let y = w.y as u128;
    let h = w.height as u128;
    if y + h > usize::MAX as u128 {
        return false;
    }
    if h == 0 {
        return true;
    }
    let a: u128 = y + h - 1;
    let st: u128 = stride as u128;
    assert(a * st <= 0xffff_ffff_ffff_ffff * 0xffff_ffff_ffff_ffff) by (nonlinear_arith)
        requires
            a <= 0xffff_ffff_ffff_ffff,
            st <= 0xffff_ffff_ffff_ffff,
    ;
    a * st + (w.byte_x as u128) + (w.row_bytes as u128) <= full_len as u128
}

/// Whether [`partial_window`] can compute the window of `b` without
/// overflowing.
pub fn window_computable(b: Rect) -> (r: bool)
    ensures
        r == (clamp0(b.x) + b.width <= u32::MAX - 7 && (clamp0(b.x) + b.width + 7) / 8 * (b.height as int) <= usize::MAX),
{
    let x0: u64 = if b.x < 0 { 0 } else { b.x as u64 };
    if x0 + b.width as u64 > u32::MAX as u64 - 7 {
        return false;
    }
    let q: u64 = (x0 + b.width as u64 + 7) / 8;
    assert(q * (b.height as u64) <= 0xffff_ffff_ffff_ffff) by (nonlinear_arith)
        requires
            q <= 0x2000_0000,
            b.height <= 0xffff_ffff,
    ;
    (q * (b.height as u64)) as u128 <= usize::MAX as u128
}

}
