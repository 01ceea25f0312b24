//! The tray icon: a monitor outline on a stand, in the accent green on a
//! clear canvas of premultiplied BGRA pixels (a Windows 32-bit DIB).
use crate::ui::pixel;
use vstd::prelude::*;

verus! {

pub const BORDER_R: u8 = 0x3D;

pub const BORDER_G: u8 = 0xDC;

pub const BORDER_B: u8 = 0x97;

/// The accent green, opaque, as a premultiplied BGRA pixel.
pub open spec fn green() -> u32 {
    0xFF3D_DC97
}

/// Rust's `/` on integers (rounds toward zero), by a positive divisor.
pub open spec fn tdiv(a: int, b: int) -> int {
    if a >= 0 {
        a / b
    } else {
        -((-a) / b)
    }
}

/// Rust's `%` on integers (takes the sign of `a`), by a positive divisor.
pub open spec fn trem(a: int, b: int) -> int {
    a - b * tdiv(a, b)
}

pub open spec fn imax(a: int, b: int) -> int {
    if a >= b {
        a
    } else {
        b
    }
}

pub open spec fn imin(a: int, b: int) -> int {
    if a <= b {
        a
    } else {
        b
    }
}

/// The measures of the icon on a `size`×`size` canvas.
pub struct Shape {
    /// Line width: 2 from 24 px on.
    pub stroke: int,
    /// Margin left and right: 2 from 20 px on.
    pub pad: int,
    /// Height kept for the stand: a quarter, at least 4.
    pub stand_h: int,
    /// Screen width: the canvas less the margins, of the canvas's parity.
    pub body_w: int,
    /// Screen height: 3/4 of its width, as far as the stand leaves room.
    pub body_h: int,
    pub x0: int,
    pub x1: int,
    pub y0: int,
    pub y1: int,
    /// The stand's column(s): one in the middle, or the two middle ones.
    pub mid_l: int,
    pub mid_r: int,
    pub neck_y1: int,
    /// How far the foot reaches out on each side of the stand.
    pub half: int,
    pub base_y0: int,
    pub base_y1: int,
}

pub open spec fn shape(size: int) -> Shape {
    let stroke = if size >= 24 { 2int } else { 1int };
    let pad = if size >= 20 { 2int } else { 1int };
    let stand_h = imax(tdiv(size, 4), 4);
    let w0 = size - pad * 2;
    let body_w = if trem(w0, 2) != trem(size, 2) { w0 - 1 } else { w0 };
    let body_h = imin(tdiv(body_w * 3, 4), size - pad - stand_h);
    let x0 = tdiv(size - body_w, 2);
    let x1 = x0 + body_w;
    let y0 = imax(tdiv(size - stand_h - body_h, 2), 0);
    let y1 = y0 + body_h;
    let mid_l = tdiv(x0 + x1 - 1, 2);
    let mid_r = tdiv(x0 + x1, 2);
    let neck_h = imax(tdiv(stand_h, 2), 1);
    let half = imax(imax(tdiv(body_w, 5), 2), stroke);
    let neck_y1 = imin(y1 + neck_h, size - stroke);
    let base_y0 = imin(neck_y1, size - stroke);
    Shape {
        stroke,
        pad,
        stand_h,
        body_w,
        body_h,
        x0,
        x1,
        y0,
        y1,
        mid_l,
        mid_r,
        neck_y1,
        half,
        base_y0,
        base_y1: imin(base_y0 + stroke, size),
    }
}

/// Whether pixel (`x`, `y`) is green: the screen's outline (top and bottom
/// rows without the corners, left and right columns without the corner
/// rows), the neck below it, and the foot.
pub open spec fn lit(size: int, x: int, y: int) -> bool {
    let s = shape(size);
    ||| s.x0 + 1 <= x < s.x1 - 1 && ((s.y0 <= y < s.y0 + s.stroke) || (s.y1 - s.stroke <= y
        <= s.y1 - 1))
    ||| s.y0 + 1 <= y < s.y1 - 1 && ((s.x0 <= x < s.x0 + s.stroke) || (s.x1 - s.stroke <= x
        <= s.x1 - 1))
    ||| s.y1 <= y < s.neck_y1 && (x == s.mid_l || x == s.mid_r)
    ||| s.base_y0 <= y < s.base_y1 && s.mid_l - s.half <= x <= s.mid_r + s.half
}

/// The pixel at index `i` of a `size`×`size` canvas (row by row); clear
/// outside the canvas.
pub open spec fn icon_pixel(size: int, i: int) -> u32 {
    if size > 0 && i < size * size && lit(size, i % size, i / size) {
        green()
    } else {
        0
    }
}

struct Geo {
    stroke: i32,
    x0: i32,
    x1: i32,
    y0: i32,
    y1: i32,
    mid_l: i32,
    mid_r: i32,
    neck_y1: i32,
    half: i32,
    base_y0: i32,
    base_y1: i32,
}

impl Geo {
    spec fn matches(&self, size: int) -> bool {
        let s = shape(size);
        &&& self.stroke == s.stroke
        &&& self.x0 == s.x0
        &&& self.x1 == s.x1
        &&& self.y0 == s.y0
        &&& self.y1 == s.y1
        &&& self.mid_l == s.mid_l
        &&& self.mid_r == s.mid_r
        &&& self.neck_y1 == s.neck_y1
        &&& self.half == s.half
        &&& self.base_y0 == s.base_y0
        &&& self.base_y1 == s.base_y1
    }

    spec fn small(&self) -> bool {
        &&& -0x10000 <= self.x0 <= 0x10000
        &&& -0x10000 <= self.x1 <= 0x10000
        &&& -0x10000 <= self.y0 <= 0x10000
        &&& -0x10000 <= self.y1 <= 0x10000
        &&& -0x10000 <= self.mid_l <= 0x10000
        &&& -0x10000 <= self.mid_r <= 0x10000
        &&& 0 <= self.half <= 0x10000
        &&& 1 <= self.stroke <= 2
    }
}

fn max32(a: i32, b: i32) -> (r: i32)
    ensures
        r == imax(a as int, b as int),
{
    if a >= b {
        a
    } else {
        b
    }
}

fn min32(a: i32, b: i32) -> (r: i32)
    ensures
        r == imin(a as int, b as int),
{
    if a <= b {
        a
    } else {
        b
    }
}

fn div(a: i32, b: i32) -> (r: i32)
    requires
        b > 0,
    ensures
        r == tdiv(a as int, b as int),
{
    a / b
}

fn rem(a: i32, b: i32) -> (r: i32)
    requires
        b > 0,
    ensures
        r == trem(a as int, b as int),
{
    let r = a % b;
    let q = a / b;
    proof {
        vstd::arithmetic::div_mod::lemma_fundamental_div_mod(a as int, b as int);
        vstd::arithmetic::div_mod::lemma_fundamental_div_mod(-(a as int), b as int);
    }
    assert(a >= 0 ==> r == a % b);
    assert(a < 0 ==> r == -((-(a as int)) % (b as int)));
    assert(q == tdiv(a as int, b as int));
    proof {
        let x = (-(a as int)) / (b as int);
        assert((b as int) * (-x) == -((b as int) * x)) by (nonlinear_arith);
    }
    r
}

/// Line width, margin, room for the stand, and the screen's size.
fn body(size: i32) -> (r: (i32, i32, i32, i32, i32))
    requires
        -46340 <= size <= 46340,
    ensures
        r.0 == shape(size as int).stroke,
        r.1 == shape(size as int).pad,
        r.2 == shape(size as int).stand_h,
        r.3 == shape(size as int).body_w,
        r.4 == shape(size as int).body_h,
        -46345 <= r.3 <= 46340,
        -46360 <= r.4 <= 46340,
        4 <= r.2 <= 11585,
{
    let stroke: i32 = if size >= 24 {
        2
    } else {
        1
    };
    let pad: i32 = if size >= 20 {
        2
    } else {
        1
    };
    let stand_h = max32(div(size, 4), 4);
    let w0 = size - pad * 2;
    let body_w = if rem(w0, 2) != rem(size, 2) {
        w0 - 1
    } else {
        w0
    };
    let body_h = min32(div(body_w * 3, 4), size - pad - stand_h);
    (stroke, pad, stand_h, body_w, body_h)
}

fn geometry(size: i32) -> (g: Geo)
    requires
        -46340 <= size <= 46340,
    ensures
        g.matches(size as int),
        g.small(),
{
    let (stroke, pad, stand_h, body_w, body_h) = body(size);
    let x0 = div(size - body_w, 2);
    let x1 = x0 + body_w;
    let y0 = max32(div(size - stand_h - body_h, 2), 0);
    let y1 = y0 + body_h;
    let mid_l = div(x0 + x1 - 1, 2);
    let mid_r = div(x0 + x1, 2);
    let neck_h = max32(div(stand_h, 2), 1);
    let half = max32(max32(div(body_w, 5), 2), stroke);
    let neck_y1 = min32(y1 + neck_h, size - stroke);
    let base_y0 = min32(neck_y1, size - stroke);
    let base_y1 = min32(base_y0 + stroke, size);
    Geo { stroke, x0, x1, y0, y1, mid_l, mid_r, neck_y1, half, base_y0, base_y1 }
}

fn lit_at(g: &Geo, x: i32, y: i32) -> (r: bool)
    requires
        g.small(),
        0 <= x <= 46340,
        0 <= y <= 46340,
    ensures
        r == ({
            ||| g.x0 + 1 <= x < g.x1 - 1 && ((g.y0 <= y < g.y0 + g.stroke) || (g.y1 - g.stroke <= y
                <= g.y1 - 1))
            ||| g.y0 + 1 <= y < g.y1 - 1 && ((g.x0 <= x < g.x0 + g.stroke) || (g.x1 - g.stroke
                <= x <= g.x1 - 1))
            ||| g.y1 <= y < g.neck_y1 && (x == g.mid_l || x == g.mid_r)
            ||| g.base_y0 <= y < g.base_y1 && g.mid_l - g.half <= x <= g.mid_r + g.half
        }),
{
    let top_bottom = g.x0 + 1 <= x && x < g.x1 - 1 && ((g.y0 <= y && y < g.y0 + g.stroke) || (g.y1
        - g.stroke <= y && y <= g.y1 - 1));
    let sides = g.y0 + 1 <= y && y < g.y1 - 1 && ((g.x0 <= x && x < g.x0 + g.stroke) || (g.x1
        - g.stroke <= x && x <= g.x1 - 1));
    let neck = g.y1 <= y && y < g.neck_y1 && (x == g.mid_l || x == g.mid_r);
    let foot = g.base_y0 <= y && y < g.base_y1 && g.mid_l - g.half <= x && x <= g.mid_r + g.half;
    top_bottom || sides || neck || foot
}

/// Draws the icon on a `size`×`size` canvas, row by row from the top left;
/// pixels past the canvas are cleared.
pub fn draw_monitor_icon(pixels: &mut [u32], size: i32)
    requires
        -46340 <= size <= 46340,
        size > 0 ==> old(pixels)@.len() >= size * size,
    ensures
        final(pixels)@.len() == old(pixels)@.len(),
        forall|i: int| 0 <= i < final(pixels)@.len() ==> final(pixels)@[i] == icon_pixel(size as int, i),
{
    let green_px = pixel(BORDER_R, BORDER_G, BORDER_B, 255);
    let clear_px = pixel(0, 0, 0, 0);
    assert(green_px == green());
    assert(clear_px == 0);
    let n = pixels.len();
    let mut i: usize = 0;
    while i < n
        invariant
            i <= n,
            n == old(pixels)@.len(),
            pixels@.len() == n,
            clear_px == 0,
            forall|k: int| 0 <= k < i ==> pixels@[k] == 0,
        decreases n - i,
    {
        pixels[i] = clear_px;
        i = i + 1;
    }
    if size <= 0 {
        return;
    }
    let g = geometry(size);
    assert(0 < size * size <= 2147395600) by (nonlinear_arith)
        requires
            0 < size <= 46340,
    ;
    let total: i32 = size * size;
    let mut j: i32 = 0;
    while j < total
        invariant
            0 < size <= 46340,
            total == size * size,
            0 <= j <= total,
            n == old(pixels)@.len(),
            pixels@.len() == n,
            n >= total,
            g.matches(size as int),
            g.small(),
            green_px == green(),
            forall|k: int| 0 <= k < j ==> pixels@[k] == icon_pixel(size as int, k),
            forall|k: int| j <= k < n ==> pixels@[k] == 0,
        decreases total - j,
    {
        let x = j % size;
        let y = j / size;
        assert(0 <= y < size) by (nonlinear_arith)
            requires
                0 <= j < total,
                total == size * size,
                0 < size,
                y == j / size,
        ;
        if lit_at(&g, x, y) {
            pixels[j as usize] = green_px;
        }
        assert(pixels@[j as int] == icon_pixel(size as int, j as int));
        j = j + 1;
    }
}

/// The screen is as wide as the canvas less its margins, so its width has
/// the canvas's parity and it sits exactly in the middle; the stand's
/// columns are the middle of the screen. Holds for canvases of 2 pixels and more.
pub proof fn lemma_icon_centred(size: int)
    requires
        2 <= size,
    ensures
        shape(size).body_w == size - 2 * shape(size).pad,
        trem(shape(size).body_w, 2) == trem(size, 2),
        shape(size).x0 == shape(size).pad,
        shape(size).x0 + shape(size).x1 == size,
        shape(size).mid_l + shape(size).mid_r == size - 1,
{
    let s = shape(size);
    let pad = s.pad;
    assert(size - pad * 2 >= 0);
    assert(trem(size - pad * 2, 2) == trem(size, 2)) by {
        assert(tdiv(size - pad * 2, 2) == tdiv(size, 2) - pad);
    }
}

/// The icon is the same mirrored left to right.
pub proof fn lemma_icon_symmetric(size: int, x: int, y: int)
    requires
        0 <= x < size,
        0 <= y < size,
    ensures
        lit(size, x, y) == lit(size, size - 1 - x, y),
{
    if size >= 2 {
        lemma_icon_centred(size);
    } else {
        assert(x == size - 1 - x);
    }
}

} // verus!
