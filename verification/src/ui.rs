//! Decisions the platform backends share: which role each overlay takes for
//! an `Action`, which key picks what, popup and button geometry, colours.
use crate::app::{Act, Action, PickKey};
use crate::config::{Style, FROST_ALPHA};
use crate::hotkey::mac_char_code;
use crate::i18n::Language;
use crate::text::str_eq;
use vstd::prelude::*;

verus! {

// ---------------------------------------------------------------------------
// Overlay roles
// ---------------------------------------------------------------------------
/// How one overlay window looks.
#[derive(Clone, Copy, Debug, PartialEq, Eq, Structural)]
pub enum Role {
    /// Not shown: nothing to veil, or the cinema itself.
    Hidden,
    /// Black, tinted or frosted cover.
    Veil,
    /// The monitor being picked: a green frame around a clear centre.
    Candidate,
}

/// The role of the overlay on display `id` after an action; `None` when the
/// action changes nothing.
pub open spec fn role_for(a: Act, id: Seq<char>) -> Option<Role> {
    match a {
        Act::Nothing => None,
        Act::HideAll => Some(Role::Hidden),
        Act::ShowPick(c) | Act::RefreshPick(c) => Some(
            if id == c {
                Role::Candidate
            } else {
                Role::Veil
            },
        ),
        Act::ShowLocked(c) => Some(
            if id == c {
                Role::Hidden
            } else {
                Role::Veil
            },
        ),
    }
}

pub fn overlay_role(action: &Action, id: &str) -> (r: Option<Role>)
    ensures
        r == role_for(action@, id@),
{
    match action {
        Action::Nothing => None,
        Action::HideAll => Some(Role::Hidden),
        Action::ShowPick { candidate } | Action::RefreshPick { candidate } => Some(
            if str_eq(id, candidate.as_str()) {
                Role::Candidate
            } else {
                Role::Veil
            },
        ),
        Action::ShowLocked { cinema } => Some(
            if str_eq(id, cinema.as_str()) {
                Role::Hidden
            } else {
                Role::Veil
            },
        ),
    }
}

/// The roles of all overlays, in the order of `ids`; `None` when nothing changes.
pub fn overlay_roles(action: &Action, ids: &[String]) -> (r: Option<Vec<Role>>)
    ensures
        match r {
            None => action@ == Act::Nothing,
            Some(roles) => action@ != Act::Nothing && roles@.len() == ids@.len() && forall|i: int|
                0 <= i < ids@.len() ==> Some(#[trigger] roles@[i]) == role_for(action@, ids@[i]@),
        },
{
    if let Action::Nothing = action {
        return None;
    }
    let mut roles: Vec<Role> = Vec::new();
    let mut i: usize = 0;
    while i < ids.len()
        invariant
            i <= ids.len(),
            action@ != Act::Nothing,
            roles@.len() == i,
            forall|j: int| 0 <= j < i ==> Some(#[trigger] roles@[j]) == role_for(action@, ids@[j]@),
        decreases ids.len() - i,
    {
        match overlay_role(action, ids[i].as_str()) {
            Some(role) => roles.push(role),
            None => {
                return None;
            },
        }
        i = i + 1;
    }
    Some(roles)
}

/// Window opacity for an overlay (X11 `_NET_WM_WINDOW_OPACITY`): full when
/// it is drawn with per-pixel alpha or is the candidate; Tint and Frost veils
/// without per-pixel alpha use `FROST_ALPHA`.
pub fn overlay_opacity(per_pixel_alpha: bool, candidate: bool, style: Style) -> (r: u32)
    ensures
        r == (if !per_pixel_alpha && !candidate && (style == Style::Tint || style == Style::Frost) {
            FROST_ALPHA as int * 0x1000000
        } else {
            0xFFFF_FFFFint
        }),
{
    if per_pixel_alpha || candidate {
        0xFFFF_FFFF
    } else if style == Style::Tint || style == Style::Frost {
        (FROST_ALPHA as u32) * 0x1000000
    } else {
        0xFFFF_FFFF
    }
}

/// Fill of a veil drawn with per-pixel alpha (r, g, b, a): Solid is opaque
/// black, Tint black at `FROST_ALPHA`, Frost a near-black at `FROST_ALPHA`.
pub fn veil_rgba(style: Style) -> (r: (u8, u8, u8, u8))
    ensures
        r == (match style {
            Style::Solid => (0u8, 0u8, 0u8, 255u8),
            Style::Tint => (0u8, 0u8, 0u8, FROST_ALPHA),
            Style::Frost => (5u8, 5u8, 5u8, FROST_ALPHA),
        }),
{
    match style {
        Style::Solid => (0, 0, 0, 255),
        Style::Tint => (0, 0, 0, FROST_ALPHA),
        Style::Frost => (5, 5, 5, FROST_ALPHA),
    }
}

/// Premultiplied BGRA pixel (a Windows 32-bit DIB): each colour scaled by alpha / 255.
pub fn pixel(r: u8, g: u8, b: u8, a: u8) -> (p: u32)
    ensures
        p == (b as int * a as int / 255) + (g as int * a as int / 255) * 0x100 + (r as int
            * a as int / 255) * 0x10000 + a as int * 0x1000000,
{
    proof {
        assert(0 <= r as int * a as int <= 255 * 255) by (nonlinear_arith)
            requires
                r < 256,
                a < 256,
        ;
        assert(0 <= g as int * a as int <= 255 * 255) by (nonlinear_arith)
            requires
                g < 256,
                a < 256,
        ;
        assert(0 <= b as int * a as int <= 255 * 255) by (nonlinear_arith)
            requires
                b < 256,
                a < 256,
        ;
    }
    let rr = (r as u32) * (a as u32) / 255;
    let gg = (g as u32) * (a as u32) / 255;
    let bb = (b as u32) * (a as u32) / 255;
    bb + gg * 0x100 + rr * 0x10000 + (a as u32) * 0x1000000
}

/// Width in pixels of the candidate's frame on Windows at `dpi` (96 at
/// least): 8 DIP, never under 6 pixels.
pub open spec fn border_px(dpi: u32) -> int {
    let d = if dpi < 96 { 96int } else { dpi as int };
    let b = 8 * d / 96;
    if b < 6 { 6 } else { b }
}

pub fn candidate_border(dpi: u32) -> (r: i32)
    requires
        dpi <= 0x0FFF_FFFF,
    ensures
        r == border_px(dpi),
{
    let d: i32 = if dpi < 96 {
        96
    } else {
        dpi as i32
    };
    let b = (8 * d) / 96;
    if b < 6 {
        6
    } else {
        b
    }
}

/// Opaque accent green, premultiplied BGRA.
pub open spec fn frame_green() -> u32 {
    0xFF3D_DC97
}

/// Black at alpha 1: all but invisible, yet the click still lands on us.
pub open spec fn clear_centre() -> u32 {
    0x0100_0000
}

/// Pixel `i` (row by row) of the candidate's `width`×`height` surface: the
/// `border`-wide frame in green, the centre nearly clear.
pub open spec fn candidate_px(width: int, height: int, border: int, i: int) -> u32 {
    let x = i % width;
    let y = i / width;
    if x < border || y < border || x >= width - border || y >= height - border {
        frame_green()
    } else {
        clear_centre()
    }
}

/// The Windows candidate surface (a top-down 32-bit DIB) for a monitor of
/// `width`×`height` pixels at `dpi`.
pub fn candidate_surface(width: i32, height: i32, dpi: u32) -> (r: Vec<u32>)
    requires
        1 <= width,
        1 <= height,
        width * height <= i32::MAX,
        dpi <= 0x0FFF_FFFF,
    ensures
        r@.len() == width * height,
        forall|i: int| 0 <= i < r@.len() ==> r@[i] == candidate_px(width as int, height as int, border_px(dpi), i),
{
    let border = candidate_border(dpi);
    let green = pixel(0x3D, 0xDC, 0x97, 255);
    let centre = pixel(0, 0, 0, 1);
    assert(green == frame_green());
    assert(centre == clear_centre());
    let total: i32 = width * height;
    let mut out: Vec<u32> = Vec::new();
    let mut i: i32 = 0;
    while i < total
        invariant
            0 <= i <= total,
            total == width * height,
            1 <= width,
            1 <= height,
            border == border_px(dpi),
            green == frame_green(),
            centre == clear_centre(),
            out@.len() == i,
            forall|k: int| 0 <= k < i ==> out@[k] == candidate_px(width as int, height as int, border_px(dpi), k),
        decreases total - i,
    {
        let x = i % width;
        let y = i / width;
        let edge = x < border || y < border || x >= width - border || y >= height - border;
        out.push(if edge { green } else { centre });
        i = i + 1;
    }
    out
}

/// No pixel of the candidate surface is fully transparent, so a click
/// anywhere on the candidate reaches Blackout; its frame is opaque.
pub proof fn lemma_candidate_catches_clicks(width: int, height: int, border: int, i: int)
    ensures
        candidate_px(width, height, border, i) / 0x100_0000 >= 1,
        candidate_px(width, height, border, i) == frame_green() || candidate_px(width, height, border, i) == clear_centre(),
{
}

/// An 8-bit channel widened to 16 bits (X Render colours): 0xAB becomes 0xABAB.
pub fn wide_channels(r: u8, g: u8, b: u8, a: u8) -> (c: (u16, u16, u16, u16))
    ensures
        c.0 == r as int * 257,
        c.1 == g as int * 257,
        c.2 == b as int * 257,
        c.3 == a as int * 257,
{
    ((r as u16) * 257, (g as u16) * 257, (b as u16) * 257, (a as u16) * 257)
}

/// A 24-bit X11 core pixel `0xRRGGBB`.
pub fn rgb(r: u8, g: u8, b: u8) -> (p: u32)
    ensures
        p == r as int * 0x10000 + g as int * 0x100 + b as int,
{
    (r as u32) * 0x10000 + (g as u32) * 0x100 + (b as u32)
}

// ---------------------------------------------------------------------------
// Keys while picking
// ---------------------------------------------------------------------------
/// The pick key of an X11 keycode (US): Esc 9, Enter 36, Left 113, Right 114, `1`–`9` = 10–18.
pub open spec fn x11_pick_key(code: u8) -> Option<PickKey> {
    if code == 9 {
        Some(PickKey::Escape)
    } else if code == 36 {
        Some(PickKey::Enter)
    } else if code == 113 {
        Some(PickKey::Left)
    } else if code == 114 {
        Some(PickKey::Right)
    } else if 10 <= code <= 18 {
        Some(PickKey::Digit((code - 9) as u8))
    } else {
        None
    }
}

pub fn pick_key_from_x11(code: u8) -> (r: Option<PickKey>)
    ensures
        r == x11_pick_key(code),
{
    if code == 9 {
        Some(PickKey::Escape)
    } else if code == 36 {
        Some(PickKey::Enter)
    } else if code == 113 {
        Some(PickKey::Left)
    } else if code == 114 {
        Some(PickKey::Right)
    } else if 10 <= code && code <= 18 {
        Some(PickKey::Digit(code - 9))
    } else {
        None
    }
}

/// The pick key of a registered Windows / Carbon hotkey id: Esc 2, Enter 3,
/// Left 4, Right 5, digits `1`–`9` at 10–18.
pub open spec fn hotkey_id_pick_key(id: i32) -> Option<PickKey> {
    if id == 2 {
        Some(PickKey::Escape)
    } else if id == 3 {
        Some(PickKey::Enter)
    } else if id == 4 {
        Some(PickKey::Left)
    } else if id == 5 {
        Some(PickKey::Right)
    } else if 10 <= id <= 18 {
        Some(PickKey::Digit((id - 9) as u8))
    } else {
        None
    }
}

pub fn pick_key_from_hotkey_id(id: i32) -> (r: Option<PickKey>)
    ensures
        r == hotkey_id_pick_key(id),
{
    if id == 2 {
        Some(PickKey::Escape)
    } else if id == 3 {
        Some(PickKey::Enter)
    } else if id == 4 {
        Some(PickKey::Left)
    } else if id == 5 {
        Some(PickKey::Right)
    } else if 10 <= id && id <= 18 {
        Some(PickKey::Digit((id - 9) as u8))
    } else {
        None
    }
}

/// The keys grabbed on the X11 root while picking: Esc, Enter, Left, Right,
/// `1`–`9` (US keycodes), each under the four Lock / NumLock masks.
pub open spec fn x11_pick_grabs() -> (Seq<u8>, Seq<u16>) {
    (seq![9u8, 36, 113, 114, 10, 11, 12, 13, 14, 15, 16, 17, 18], seq![0u16, 2, 16, 18])
}

pub fn x11_pick_grab_keys() -> (r: (Vec<u8>, Vec<u16>))
    ensures
        r.0@ == x11_pick_grabs().0,
        r.1@ == x11_pick_grabs().1,
{
    let codes: Vec<u8> = vec![9, 36, 113, 114, 10, 11, 12, 13, 14, 15, 16, 17, 18];
    let masks: Vec<u16> = vec![0, 2, 16, 18];
    assert(codes@ =~= x11_pick_grabs().0);
    assert(masks@ =~= x11_pick_grabs().1);
    (codes, masks)
}

/// Every grabbed code is a pick key, and every pick key is grabbed.
pub proof fn lemma_x11_grabs_are_pick_keys(code: u8)
    ensures
        x11_pick_grabs().0.contains(code) <==> x11_pick_key(code) is Some,
{
    let codes = x11_pick_grabs().0;
    if x11_pick_key(code) is Some {
        let i: int = if code == 9 {
            0
        } else if code == 36 {
            1
        } else if code == 113 {
            2
        } else if code == 114 {
            3
        } else {
            code - 6
        };
        assert(codes[i] == code);
    }
}

/// The bare keys registered while picking on Windows: (hotkey id, virtual
/// key) for Esc, Enter, Left, Right and `1`–`9`.
pub open spec fn win_pick_table() -> Seq<(i32, u32)> {
    seq![
        (2i32, 0x1Bu32),
        (3, 0x0D),
        (4, 0x25),
        (5, 0x27),
        (10, 0x31),
        (11, 0x32),
        (12, 0x33),
        (13, 0x34),
        (14, 0x35),
        (15, 0x36),
        (16, 0x37),
        (17, 0x38),
        (18, 0x39),
    ]
}

/// The same for macOS: (hotkey id, Carbon virtual key).
pub open spec fn mac_pick_table() -> Seq<(u32, u32)> {
    seq![
        (2u32, 0x35u32),
        (3, 0x24),
        (4, 0x7B),
        (5, 0x7C),
        (10, 0x12),
        (11, 0x13),
        (12, 0x14),
        (13, 0x15),
        (14, 0x17),
        (15, 0x16),
        (16, 0x1A),
        (17, 0x1C),
        (18, 0x19),
    ]
}

pub fn win_pick_keys() -> (r: Vec<(i32, u32)>)
    ensures
        r@ == win_pick_table(),
{
    let mut r: Vec<(i32, u32)> = Vec::new();
    r.push((2, 0x1B));
    r.push((3, 0x0D));
    r.push((4, 0x25));
    r.push((5, 0x27));
    let mut d: i32 = 0;
    while d < 9
        invariant
            0 <= d <= 9,
            r@ == win_pick_table().take(4 + d),
        decreases 9 - d,
    {
        r.push((10 + d, 0x31 + d as u32));
        d = d + 1;
        assert(r@ =~= win_pick_table().take(4 + d));
    }
    assert(win_pick_table().take(13) =~= win_pick_table());
    r
}

pub fn mac_pick_keys() -> (r: Vec<(u32, u32)>)
    ensures
        r@ == mac_pick_table(),
{
    let r: Vec<(u32, u32)> = vec![
        (2, 0x35),
        (3, 0x24),
        (4, 0x7B),
        (5, 0x7C),
        (10, 0x12),
        (11, 0x13),
        (12, 0x14),
        (13, 0x15),
        (14, 0x17),
        (15, 0x16),
        (16, 0x1A),
        (17, 0x1C),
        (18, 0x19),
    ];
    assert(r@ =~= mac_pick_table());
    r
}

/// Every key registered while picking reads back as a pick key, and a
/// digit's id is registered on that digit's own key (Windows and macOS).
pub proof fn lemma_pick_tables(i: int)
    requires
        0 <= i < 13,
    ensures
        hotkey_id_pick_key(win_pick_table()[i].0) is Some,
        hotkey_id_pick_key(mac_pick_table()[i].0 as i32) is Some,
        win_pick_table()[i].0 == mac_pick_table()[i].0,
        hotkey_id_pick_key(win_pick_table()[i].0) matches Some(PickKey::Digit(d)) ==> win_pick_table()[i].1
            == 0x30 + d,
        hotkey_id_pick_key(mac_pick_table()[i].0 as i32) matches Some(PickKey::Digit(d)) ==> mac_char_code(
            (0x30 + d) as char,
        ) == Some(mac_pick_table()[i].1),
{
}

/// The mouse has really moved since keyboard picking: more than 6 pixels on an axis.
pub fn moved_enough(anchor_x: i32, anchor_y: i32, x: i32, y: i32) -> (r: bool)
    ensures
        r == (x - anchor_x > 6 || anchor_x - x > 6 || y - anchor_y > 6 || anchor_y - y > 6),
{
    let dx = (x as i64) - (anchor_x as i64);
    let dy = (y as i64) - (anchor_y as i64);
    dx > 6 || -dx > 6 || dy > 6 || -dy > 6
}

/// The Settings → Language menu command: 20 + index into Russian, English.
pub fn lang_from_cmd(cmd: usize) -> (r: Option<Language>)
    ensures
        r == (if cmd == 20 {
            Some(Language::Ru)
        } else if cmd == 21 {
            Some(Language::En)
        } else {
            None
        }),
{
    if cmd == 20 {
        Some(Language::Ru)
    } else if cmd == 21 {
        Some(Language::En)
    } else {
        None
    }
}

/// NSEvent modifier flags as (ctrl, alt, shift, meta): bits 18, 19, 17, 20.
pub fn mac_mods(flags: usize) -> (r: (bool, bool, bool, bool))
    ensures
        r == (flags & 0x40000 != 0, flags & 0x80000 != 0, flags & 0x20000 != 0, flags & 0x100000
            != 0),
{
    (flags & 0x40000 != 0, flags & 0x80000 != 0, flags & 0x20000 != 0, flags & 0x100000 != 0)
}

// ---------------------------------------------------------------------------
// Geometry
// ---------------------------------------------------------------------------
/// A rectangle by its edges; `right` and `bottom` are exclusive.
#[derive(Clone, Copy, Debug, PartialEq, Eq, Structural)]
pub struct Rect {
    pub left: i32,
    pub top: i32,
    pub right: i32,
    pub bottom: i32,
}

/// Rust's `/` by 2 on integers (rounds toward zero).
pub open spec fn half(x: int) -> int {
    if x >= 0 {
        x / 2
    } else {
        -((-x) / 2)
    }
}

pub fn rect_contains(rect: Rect, x: i32, y: i32) -> (r: bool)
    ensures
        r == (rect.left <= x < rect.right && rect.top <= y < rect.bottom),
{
    x >= rect.left && x < rect.right && y >= rect.top && y < rect.bottom
}

/// Save / Cancel (or GitHub / Close) buttons, 176×40 with a 16 gap, centred
/// 62 above the bottom of the client rectangle.
pub open spec fn button_pair(client: Rect) -> (Rect, Rect) {
    let mid = half(client.left + client.right);
    let top = client.bottom - 62;
    (
        Rect {
            left: (mid - 176 - 8) as i32,
            top: top as i32,
            right: (mid - 8) as i32,
            bottom: (top + 40) as i32,
        },
        Rect {
            left: (mid + 8) as i32,
            top: top as i32,
            right: (mid + 8 + 176) as i32,
            bottom: (top + 40) as i32,
        },
    )
}

/// The button arithmetic stays in `i32`: the sum of the side edges, and
/// the buttons' top 62 above the bottom.
pub open spec fn fits(client: Rect) -> bool {
    &&& i32::MIN <= client.left + client.right <= i32::MAX
    &&& i32::MIN + 62 <= client.bottom
}

pub open spec fn inside(r: Rect, x: int, y: int) -> bool {
    r.left <= x < r.right && r.top <= y < r.bottom
}

/// The two buttons: Save (or GitHub) on the left, Cancel (or Close) on the
/// right, both 176×40 on one row, 16 apart, so that no point is in both.
pub fn bind_button_rects(client: Rect) -> (r: (Rect, Rect))
    requires
        fits(client),
    ensures
        r == button_pair(client),
        r.0.right - r.0.left == 176 && r.0.bottom - r.0.top == 40,
        r.1.right - r.1.left == 176 && r.1.bottom - r.1.top == 40,
        r.0.top == r.1.top,
        r.1.left - r.0.right == 16,
        forall|x: int, y: int| !(inside(r.0, x, y) && inside(r.1, x, y)),
{
    let mid = (client.left + client.right) / 2;
    let top = client.bottom - 62;
    let save = Rect { left: mid - 176 - 8, top, right: mid - 8, bottom: top + 40 };
    let cancel = Rect { left: mid + 8, top, right: mid + 8 + 176, bottom: top + 40 };
    (save, cancel)
}

/// Room for the 2-pixel frame: each edge moves 2 inwards within `i32`.
pub open spec fn inset_fits(client: Rect) -> bool {
    &&& client.left <= i32::MAX - 2
    &&& client.top <= i32::MAX - 2
    &&& i32::MIN + 2 <= client.right
    &&& i32::MIN + 2 <= client.bottom
}

/// Room for rows 28 in from the sides.
pub open spec fn sides_fit(inset: Rect) -> bool {
    &&& inset.left <= i32::MAX - 28
    &&& i32::MIN + 28 <= inset.right
}

/// Room for the wipe dialog's rows: down to 62 below the top, up to 90
/// above the bottom.
pub open spec fn wipe_fits(inset: Rect) -> bool {
    &&& sides_fit(inset)
    &&& inset.top <= i32::MAX - 62
    &&& i32::MIN + 90 <= inset.bottom
}

/// Room for the About dialog's rows: down to 154 below the top.
pub open spec fn about_fits(inset: Rect) -> bool {
    &&& sides_fit(inset)
    &&& inset.top <= i32::MAX - 154
}

/// Room for the link line: the buttons, and 40 above them.
pub open spec fn link_fits(inset: Rect) -> bool {
    &&& fits(inset)
    &&& sides_fit(inset)
    &&& i32::MIN + 102 <= inset.bottom
}

/// Room for the licence line: 22 above the link line.
pub open spec fn license_fits(inset: Rect) -> bool {
    &&& link_fits(inset)
    &&& i32::MIN + 124 <= inset.bottom
}

/// A row of a dialog, 28 in from the sides of `inset`.
pub open spec fn row(inset: Rect, top: int, bottom: int) -> Rect {
    Rect { left: (inset.left + 28) as i32, top: top as i32, right: (inset.right - 28) as i32, bottom: bottom as i32 }
}

/// The dark inside of a dialog: its client rectangle less the 2-pixel green frame.
pub fn dialog_inset(client: Rect) -> (r: Rect)
    requires
        inset_fits(client),
    ensures
        r == (Rect {
            left: (client.left + 2) as i32,
            top: (client.top + 2) as i32,
            right: (client.right - 2) as i32,
            bottom: (client.bottom - 2) as i32,
        }),
{
    Rect { left: client.left + 2, top: client.top + 2, right: client.right - 2, bottom: client.bottom - 2 }
}

/// The wipe dialog's rows: the title (36 high, 18 down), the text (8 below
/// it, down to 90 above the bottom), and the error line (88 to 68 above the
/// bottom).
pub fn wipe_rows(inset: Rect) -> (r: (Rect, Rect, Rect))
    requires
        wipe_fits(inset),
    ensures
        r.0 == row(inset, inset.top + 18, inset.top + 54),
        r.1 == row(inset, inset.top + 62, inset.bottom - 90),
        r.2 == row(inset, inset.bottom - 88, inset.bottom - 68),
{
    let left = inset.left + 28;
    let right = inset.right - 28;
    let head = Rect { left, top: inset.top + 18, right, bottom: inset.top + 18 + 36 };
    let text = Rect { left, top: head.bottom + 8, right, bottom: inset.bottom - 90 };
    let err = Rect { left, top: inset.bottom - 88, right, bottom: inset.bottom - 68 };
    (head, text, err)
}

/// The About dialog's text rows from the top: the name (40 high, 22 down),
/// the version and the author (26 each, 8 below the name), then the two
/// credit lines (18 each, 4 up into the author's row).
pub fn about_rows(inset: Rect) -> (r: [Rect; 5])
    requires
        about_fits(inset),
    ensures
        r@ == seq![
            row(inset, inset.top + 22, inset.top + 62),
            row(inset, inset.top + 70, inset.top + 96),
            row(inset, inset.top + 96, inset.top + 122),
            row(inset, inset.top + 118, inset.top + 136),
            row(inset, inset.top + 136, inset.top + 154),
        ],
{
    let left = inset.left + 28;
    let right = inset.right - 28;
    let head_top = inset.top + 22;
    let head = Rect { left, top: head_top, right, bottom: head_top + 40 };
    let version = Rect { left, top: head.bottom + 8, right, bottom: head.bottom + 8 + 26 };
    let author = Rect { left, top: version.bottom, right, bottom: version.bottom + 26 };
    let credit_top = author.bottom - 4;
    let via = Rect { left, top: credit_top, right, bottom: credit_top + 18 };
    let minds = Rect { left, top: via.bottom, right, bottom: via.bottom + 18 };
    let r = [head, version, author, via, minds];
    assert(r@ =~= seq![
        row(inset, inset.top + 22, inset.top + 62),
        row(inset, inset.top + 70, inset.top + 96),
        row(inset, inset.top + 96, inset.top + 122),
        row(inset, inset.top + 118, inset.top + 136),
        row(inset, inset.top + 136, inset.top + 154),
    ]);
    r
}

/// The GitHub link line of the About dialog: 40 to 18 above the buttons, 28 in from the sides.
pub fn about_link_rect(inset: Rect) -> (r: Rect)
    requires
        link_fits(inset),
    ensures
        r == (Rect {
            left: (inset.left + 28) as i32,
            top: (button_pair(inset).0.top - 40) as i32,
            right: (inset.right - 28) as i32,
            bottom: (button_pair(inset).0.top - 18) as i32,
        }),
{
    let buttons_top = bind_button_rects(inset).0.top;
    Rect {
        left: inset.left + 28,
        top: buttons_top - 40,
        right: inset.right - 28,
        bottom: buttons_top - 18,
    }
}

/// The license line: just above the link line.
pub fn about_license_rect(inset: Rect) -> (r: Rect)
    requires
        license_fits(inset),
    ensures
        r == (Rect {
            left: (inset.left + 28) as i32,
            top: (button_pair(inset).0.top - 62) as i32,
            right: (inset.right - 28) as i32,
            bottom: (button_pair(inset).0.top - 42) as i32,
        }),
{
    let link = about_link_rect(inset);
    Rect { left: link.left, top: link.top - 22, right: link.right, bottom: link.top - 2 }
}

pub fn about_github_button(inset: Rect) -> (r: Rect)
    requires
        fits(inset),
    ensures
        r == button_pair(inset).0,
{
    bind_button_rects(inset).0
}

pub fn about_close_button(inset: Rect) -> (r: Rect)
    requires
        fits(inset),
    ensures
        r == button_pair(inset).1,
{
    bind_button_rects(inset).1
}

/// A monitor (X11 CRTC) by its origin and size.
#[derive(Clone, Copy, Debug, PartialEq, Eq, Structural)]
pub struct Area {
    pub x: i16,
    pub y: i16,
    pub w: u16,
    pub h: u16,
}

pub open spec fn area_holds(a: Area, x: int, y: int) -> bool {
    a.x <= x && a.y <= y && x < a.x + a.w && y < a.y + a.h
}

/// The first area holding a point.
pub open spec fn area_at(areas: Seq<Area>, x: int, y: int) -> Option<int>
    decreases areas.len(),
{
    if areas.len() == 0 {
        None
    } else if area_holds(areas[0], x, y) {
        Some(0)
    } else {
        match area_at(areas.drop_first(), x, y) {
            Some(i) => Some(i + 1),
            None => None,
        }
    }
}

proof fn lemma_area_at_bounds(areas: Seq<Area>, x: int, y: int)
    ensures
        area_at(areas, x, y) matches Some(i) ==> 0 <= i < areas.len() && area_holds(areas[i], x, y),
    decreases areas.len(),
{
    if areas.len() > 0 && !area_holds(areas[0], x, y) {
        lemma_area_at_bounds(areas.drop_first(), x, y);
    }
}

fn holds(a: Area, x: i16, y: i16) -> (r: bool)
    ensures
        r == area_holds(a, x as int, y as int),
{
    let ax = a.x as i32;
    let ay = a.y as i32;
    (x as i32) >= ax && (y as i32) >= ay && (x as i32) < ax + (a.w as i32) && (y as i32) < ay + (
    a.h as i32)
}

/// Index of the monitor under a point; the first monitor when none holds it
/// (`None` only without monitors).
pub fn monitor_at(areas: &[Area], x: i16, y: i16) -> (r: Option<usize>)
    ensures
        r == (match area_at(areas@, x as int, y as int) {
            Some(i) => Some(i as usize),
            None => if areas@.len() > 0 {
                Some(0usize)
            } else {
                None
            },
        }),
{
    let mut i: usize = 0;
    assert(areas@.skip(0) =~= areas@);
    while i < areas.len()
        invariant
            i <= areas.len(),
            area_at(areas@, x as int, y as int) == (match area_at(
                areas@.skip(i as int),
                x as int,
                y as int,
            ) {
                Some(k) => Some(k + i),
                None => None,
            }),
        decreases areas.len() - i,
    {
        let ghost rest = areas@.skip(i as int);
        assert(rest[0] == areas@[i as int]);
        assert(rest.drop_first() =~= areas@.skip(i + 1));
        if holds(areas[i], x, y) {
            return Some(i);
        }
        i = i + 1;
    }
    assert(areas@.skip(i as int) =~= Seq::<Area>::empty());
    if areas.len() > 0 {
        Some(0)
    } else {
        None
    }
}

/// Top-left corner of a popup of `w`×`h` centred on the monitor under the
/// hint (else the first monitor; `(0, 0)` without monitors).
pub fn popup_origin(areas: &[Area], hint: Option<(i16, i16)>, w: u16, h: u16) -> (r: (i32, i32))
    ensures
        match (match hint {
            Some((x, y)) => match area_at(areas@, x as int, y as int) {
                Some(i) => Some(i),
                None => if areas@.len() > 0 {
                    Some(0int)
                } else {
                    None
                },
            },
            None => if areas@.len() > 0 {
                Some(0int)
            } else {
                None
            },
        }) {
            Some(i) => r == (
                (areas@[i].x + half(areas@[i].w - w)) as i32,
                (areas@[i].y + half(areas@[i].h - h)) as i32,
            ),
            None => r == (0i32, 0i32),
        },
{
    let idx = match hint {
        Some((x, y)) => {
            proof {
                lemma_area_at_bounds(areas@, x as int, y as int);
            }
            monitor_at(areas, x, y)
        },
        None => if areas.len() > 0 {
            Some(0)
        } else {
            None
        },
    };
    match idx {
        Some(i) => {
            let a = areas[i];
            let x = (a.x as i32) + ((a.w as i32) - (w as i32)) / 2;
            let y = (a.y as i32) + ((a.h as i32) - (h as i32)) / 2;
            (x, y)
        },
        None => (0, 0),
    }
}

} // verus!
