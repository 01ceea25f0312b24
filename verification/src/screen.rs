//! X11 screen rules: which monitors get an overlay and in what order, the
//! keycode that carries a keysym, the rectangles of a frame or an outline,
//! and where centred text starts.
use crate::text::owned;
use crate::ui::{half, Area};
use vstd::prelude::*;

verus! {

broadcast use vstd::seq_lib::group_to_multiset_ensures;

// ---------------------------------------------------------------------------
// Monitors
// ---------------------------------------------------------------------------
/// `a` comes before `b`: further left, or as far left and higher up.
pub open spec fn before(a: Area, b: Area) -> bool {
    a.x < b.x || (a.x == b.x && a.y < b.y)
}

/// A monitor with room to cover.
pub open spec fn shown(a: Area) -> bool {
    a.w > 0 && a.h > 0
}

/// The found monitors with room to cover, in the order found.
pub open spec fn visible<T>(found: Seq<(T, Area)>) -> Seq<(T, Area)> {
    found.filter(|m: (T, Area)| shown(m.1))
}

/// Where a monitor at `a` enters an ordered list: behind every entry that
/// does not come after it.
pub open spec fn slot<T>(s: Seq<(T, Area)>, a: Area) -> int
    decreases s.len(),
{
    if s.len() == 0 || before(a, s[0].1) {
        0
    } else {
        1 + slot(s.drop_first(), a)
    }
}

/// The stable sort by top-left corner: each entry, in the order given,
/// enters behind the entries that do not come after it.
pub open spec fn by_corner<T>(s: Seq<(T, Area)>) -> Seq<(T, Area)>
    decreases s.len(),
{
    if s.len() == 0 {
        s
    } else {
        let head = by_corner(s.drop_last());
        head.insert(slot(head, s.last().1), s.last())
    }
}

/// No entry comes before one listed ahead of it.
pub open spec fn ordered<T>(s: Seq<(T, Area)>) -> bool {
    forall|i: int, j: int|
        #![trigger s[i], s[j]]
        0 <= i < j < s.len() ==> !before(s[j].1, s[i].1)
}

proof fn lemma_slot<T>(s: Seq<(T, Area)>, a: Area)
    ensures
        0 <= slot(s, a) <= s.len(),
        forall|k: int| 0 <= k < slot(s, a) ==> !before(a, #[trigger] s[k].1),
        slot(s, a) < s.len() ==> before(a, s[slot(s, a)].1),
    decreases s.len(),
{
    if s.len() > 0 && !before(a, s[0].1) {
        lemma_slot(s.drop_first(), a);
        assert forall|k: int| 0 <= k < slot(s, a) implies !before(a, #[trigger] s[k].1) by {
            if k > 0 {
                assert(s[k] == s.drop_first()[k - 1]);
            }
        }
        if slot(s, a) < s.len() {
            assert(s[slot(s, a)] == s.drop_first()[slot(s, a) - 1]);
        }
    }
}

/// The slot is the first position whose entry comes after `a`.
proof fn lemma_slot_at<T>(s: Seq<(T, Area)>, a: Area, j: int)
    requires
        0 <= j <= s.len(),
        forall|q: int| 0 <= q < j ==> !before(a, #[trigger] s[q].1),
        j == s.len() || before(a, s[j].1),
    ensures
        slot(s, a) == j,
    decreases s.len(),
{
    if s.len() > 0 && j > 0 {
        assert(!before(a, s[0].1));
        let t = s.drop_first();
        assert forall|q: int| 0 <= q < j - 1 implies !before(a, #[trigger] t[q].1) by {
            assert(t[q] == s[q + 1]);
        }
        if j < s.len() {
            assert(t[j - 1] == s[j]);
        }
        lemma_slot_at(t, a, j - 1);
    }
}

proof fn lemma_insert_ordered<T>(s: Seq<(T, Area)>, e: (T, Area))
    requires
        ordered(s),
    ensures
        ordered(s.insert(slot(s, e.1), e)),
{
    lemma_slot(s, e.1);
    let p = slot(s, e.1);
    let r = s.insert(p, e);
    assert forall|i: int, j: int| 0 <= i < j < r.len() implies !before(
        #[trigger] r[j].1,
        #[trigger] r[i].1,
    ) by {
        if j < p {
            assert(r[i] == s[i] && r[j] == s[j]);
        } else if j == p {
            assert(r[i] == s[i] && r[j] == e);
            assert(!before(e.1, s[i].1));
        } else if i < p {
            assert(r[i] == s[i] && r[j] == s[j - 1]);
        } else if i == p {
            assert(r[i] == e && r[j] == s[j - 1]);
            assert(before(e.1, s[p].1));
            if p < j - 1 {
                assert(!before(s[j - 1].1, s[p].1));
            }
        } else {
            assert(r[i] == s[i - 1] && r[j] == s[j - 1]);
        }
    }
}

/// The corner sort puts every entry in order and keeps each entry, as often
/// as it was given.
pub proof fn lemma_by_corner<T>(s: Seq<(T, Area)>)
    ensures
        ordered(by_corner(s)),
        by_corner(s).to_multiset() == s.to_multiset(),
        by_corner(s).len() == s.len(),
    decreases s.len(),
{
    if s.len() > 0 {
        lemma_by_corner(s.drop_last());
        let head = by_corner(s.drop_last());
        lemma_slot(head, s.last().1);
        lemma_insert_ordered(head, s.last());
        assert(s.drop_last().push(s.last()) =~= s);
        assert(head.insert(slot(head, s.last().1), s.last()).to_multiset() == head.to_multiset().insert(
            s.last(),
        ));
        assert(s.drop_last().push(s.last()).to_multiset() == s.drop_last().to_multiset().insert(
            s.last(),
        ));
    }
}

/// The overlays of a session: the visible monitors by top-left corner; with
/// none, the whole screen as `SCREEN-0`.
pub open spec fn layout_holds(found: Seq<(String, Area)>, w: u16, h: u16, r: Seq<(String, Area)>) -> bool {
    if visible(found).len() > 0 {
        r == by_corner(visible(found))
    } else {
        &&& r.len() == 1
        &&& r[0].0@ == "SCREEN-0"@
        &&& r[0].1 == Area { x: 0, y: 0, w, h }
    }
}

/// Every session has at least one overlay; the overlays come by top-left
/// corner, and when monitors with room were found they are exactly those,
/// each once, every one of them with room to cover.
pub proof fn lemma_layout_covers(found: Seq<(String, Area)>, w: u16, h: u16, r: Seq<(String, Area)>)
    requires
        layout_holds(found, w, h, r),
    ensures
        r.len() >= 1,
        ordered(r),
        visible(found).len() > 0 ==> r.to_multiset() == visible(found).to_multiset(),
        visible(found).len() > 0 ==> forall|i: int| 0 <= i < r.len() ==> shown(#[trigger] r[i].1),
{
    if visible(found).len() > 0 {
        let v = visible(found);
        lemma_by_corner(v);
        assert forall|i: int| 0 <= i < r.len() implies shown(#[trigger] r[i].1) by {
            assert(r.to_multiset().count(r[i]) > 0);
            assert(v.to_multiset().count(r[i]) > 0);
            assert(v.contains(r[i]));
            let k = choose|k: int| 0 <= k < v.len() && v[k] == r[i];
            found.lemma_filter_pred(|m: (String, Area)| shown(m.1), k);
        }
    }
}

fn comes_before(a: Area, b: Area) -> (r: bool)
    ensures
        r == before(a, b),
{
    a.x < b.x || (a.x == b.x && a.y < b.y)
}

/// The monitors to cover, from those the server listed (name and area, in
/// its order) and the screen size: zero-sized ones dropped, the rest sorted
/// by top-left corner, keeping the listed order among equal corners.
pub fn monitor_layout(found: Vec<(String, Area)>, screen_w: u16, screen_h: u16) -> (r: Vec<(String, Area)>)
    ensures
        layout_holds(found@, screen_w, screen_h, r@),
{
    let ghost orig = found@;
    let mut rest = found;
    let mut out: Vec<(String, Area)> = Vec::new();
    let ghost mut k: int = 0;
    proof {
        reveal(Seq::filter);
        assert(orig.take(0).len() == 0);
        assert(visible(orig.take(0)) =~= Seq::<(String, Area)>::empty());
    }
    while rest.len() > 0
        invariant
            0 <= k <= orig.len(),
            rest@ == orig.skip(k),
            out@ == by_corner(visible(orig.take(k))),
        decreases rest.len(),
    {
        let m = rest.remove(0);
        let ghost gm = m;
        proof {
            assert(gm == orig[k]);
            assert(orig.take(k + 1).drop_last() =~= orig.take(k));
            assert(orig.take(k + 1).last() == gm);
            reveal(Seq::filter);
            assert(rest@ =~= orig.skip(k + 1));
        }
        if m.1.w > 0 && m.1.h > 0 {
            let mut j: usize = 0;
            while j < out.len() && !comes_before(m.1, out[j].1)
                invariant
                    j <= out.len(),
                    forall|q: int| 0 <= q < j ==> !before(m.1, #[trigger] out@[q].1),
                decreases out.len() - j,
            {
                j = j + 1;
            }
            proof {
                lemma_slot_at(out@, m.1, j as int);
                let v = visible(orig.take(k + 1));
                assert(v == visible(orig.take(k)).push(gm));
                assert(v.drop_last() =~= visible(orig.take(k)));
                assert(v.last() == gm);
            }
            out.insert(j, m);
        } else {
            proof {
                assert(visible(orig.take(k + 1)) == visible(orig.take(k)));
            }
        }
        proof {
            k = k + 1;
        }
    }
    proof {
        assert(orig.take(k) =~= orig);
        lemma_by_corner(visible(orig));
    }
    if out.len() == 0 {
        let id = owned("SCREEN-0");
        out.push((id, Area { x: 0, y: 0, w: screen_w, h: screen_h }));
    }
    out
}

// ---------------------------------------------------------------------------
// Keyboard map
// ---------------------------------------------------------------------------
/// A keysym in the map stands for `k`: `k` itself, or `k` with the
/// lower-case bit cleared.
pub open spec fn stands_for(x: u32, k: u32) -> bool {
    x == k || x == k & !0x20u32
}

/// The keycode whose keysyms hold `k` first, from a map that lists
/// `per_code` keysyms for each keycode from 8 on; `None` when no keycode
/// holds it.
pub fn keycode_of(keysyms: &[u32], per_code: usize, k: u32) -> (r: Option<u8>)
    requires
        per_code > 0,
        keysyms@.len() <= 248 * per_code,
    ensures
        r is None <==> forall|j: int| 0 <= j < keysyms@.len() ==> !stands_for(#[trigger] keysyms@[j], k),
        r matches Some(c) ==> exists|j: int|
            0 <= j < keysyms@.len() && stands_for(#[trigger] keysyms@[j], k) && (forall|q: int|
                0 <= q < j ==> !stands_for(#[trigger] keysyms@[q], k)) && c == j / (per_code as int) + 8,
{
    let mut j: usize = 0;
    while j < keysyms.len()
        invariant
            j <= keysyms@.len(),
            per_code > 0,
            keysyms@.len() <= 248 * per_code,
            forall|q: int| 0 <= q < j ==> !stands_for(#[trigger] keysyms@[q], k),
        decreases keysyms@.len() - j,
    {
        let x = keysyms[j];
        if x == k || x == k & !0x20u32 {
            let c = j / per_code;
            assert(c < 248) by (nonlinear_arith)
                requires
                    c == j / per_code,
                    j < 248 * per_code,
                    per_code > 0,
            ;
            let code = (c as u8) + 8;
            assert(stands_for(keysyms@[j as int], k));
            return Some(code);
        }
        j = j + 1;
    }
    None
}

// ---------------------------------------------------------------------------
// Rectangles
// ---------------------------------------------------------------------------
/// The four 8-pixel edges of a `w`×`h` window: top, bottom, left, right
/// (coordinates wrap as `i16` does).
pub open spec fn frame_of(w: u16, h: u16) -> Seq<Area> {
    seq![
        Area { x: 0, y: 0, w, h: 8 },
        Area { x: 0, y: (h - 8) as i16, w, h: 8 },
        Area { x: 0, y: 0, w: 8, h },
        Area { x: (w - 8) as i16, y: 0, w: 8, h },
    ]
}

/// The green frame drawn round the monitor being picked.
pub fn frame_rects(w: u16, h: u16) -> (r: [Area; 4])
    ensures
        r@ == frame_of(w, h),
{
    let bottom = (#[verifier::truncate] (((h as i32) - 8) as i16));
    let right = (#[verifier::truncate] (((w as i32) - 8) as i16));
    let r = [
        Area { x: 0, y: 0, w, h: 8 },
        Area { x: 0, y: bottom, w, h: 8 },
        Area { x: 0, y: 0, w: 8, h },
        Area { x: right, y: 0, w: 8, h },
    ];
    assert(r@ =~= frame_of(w, h));
    r
}

/// The four one-pixel edges of a rectangle: top, bottom, left, right
/// (coordinates wrap as `i16` does).
pub open spec fn outline_of(a: Area) -> Seq<Area> {
    seq![
        Area { x: a.x, y: a.y, w: a.w, h: 1 },
        Area { x: a.x, y: (a.y + a.h - 1) as i16, w: a.w, h: 1 },
        Area { x: a.x, y: a.y, w: 1, h: a.h },
        Area { x: (a.x + a.w - 1) as i16, y: a.y, w: 1, h: a.h },
    ]
}

/// The border drawn round a button.
pub fn outline(a: Area) -> (r: [Area; 4])
    ensures
        r@ == outline_of(a),
{
    let bottom = (#[verifier::truncate] (((a.y as i32) + (a.h as i32) - 1) as i16));
    let right = (#[verifier::truncate] (((a.x as i32) + (a.w as i32) - 1) as i16));
    let r = [
        Area { x: a.x, y: a.y, w: a.w, h: 1 },
        Area { x: a.x, y: bottom, w: a.w, h: 1 },
        Area { x: a.x, y: a.y, w: 1, h: a.h },
        Area { x: right, y: a.y, w: 1, h: a.h },
    ];
    assert(r@ =~= outline_of(a));
    r
}

/// Top-left corner of a line of `chars` glyphs, each `char_w`×`char_h`,
/// centred in `a`; the line's width wraps as `i16` arithmetic does.
pub open spec fn text_start(a: Area, chars: usize, char_w: i16, char_h: i16) -> (int, int) {
    let width = (char_w * (chars as i16)) as i16;
    (a.x + half(a.w - width), a.y + half(a.h - char_h))
}

pub fn text_origin(a: Area, chars: usize, char_w: i16, char_h: i16) -> (r: (i32, i32))
    ensures
        r.0 == text_start(a, chars, char_w, char_h).0,
        r.1 == text_start(a, chars, char_w, char_h).1,
{
    let n = (#[verifier::truncate] (chars as i16));
    let cw = char_w as i32;
    let nn = n as i32;
    assert(-0x4000_0000 <= cw * nn <= 0x4000_0000) by (nonlinear_arith)
        requires
            -0x8000 <= cw < 0x8000,
            -0x8000 <= nn < 0x8000,
    ;
    let width = (#[verifier::truncate] ((cw * nn) as i16));
    let x = (a.x as i32) + ((a.w as i32) - (width as i32)) / 2;
    let y = (a.y as i32) + ((a.h as i32) - (char_h as i32)) / 2;
    (x, y)
}

} // verus!
