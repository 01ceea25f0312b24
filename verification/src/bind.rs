//! Capturing a new hotkey in the X11 popup: the live preview freezes once a
//! full combo is pressed, until every key of it is released; Enter saves,
//! Esc cancels.
use crate::hotkey::{any_modifier, hotkey_from_x11, x11_code_key, Hotkey};
use crate::text::owned;
use crate::ui::{area_holds, Area};
use vstd::prelude::*;

verus! {

/// What the popup should do after a key or click.
#[derive(Clone, Copy, Debug, PartialEq, Eq, Structural)]
pub enum BindStep {
    /// Close the popup; `Some` saves that combo, `None` keeps the old one.
    Finish(Option<Hotkey>),
    /// A full combo was pressed: show it and hint that Enter saves it.
    Captured(Hotkey),
    /// The previous draft was dropped: redraw without it.
    Cleared,
    /// Nothing to do.
    Ignored,
}

pub struct BindCapture {
    /// The combo Enter / Save would store.
    pub draft: Option<Hotkey>,
    /// The text shown as preview.
    pub preview: String,
    /// A full combo is held: ignore keys until all of it is released.
    pub locked: bool,
    /// Keycodes pressed and not yet released.
    pub held: Vec<u8>,
}

pub struct CaptureView {
    pub draft: Option<Hotkey>,
    pub preview: Seq<char>,
    pub locked: bool,
    pub held: Seq<u8>,
}

impl View for BindCapture {
    type V = CaptureView;

    open spec fn view(&self) -> CaptureView {
        CaptureView {
            draft: self.draft,
            preview: self.preview@,
            locked: self.locked,
            held: self.held@,
        }
    }
}

/// The combo an X11 key press makes, if it has a key and a modifier.
pub open spec fn x11_combo(code: u8, state: u16) -> Option<Hotkey> {
    match x11_code_key(code) {
        None => None,
        Some(k) => if any_modifier(state & 4 != 0, state & 8 != 0, state & 1 != 0, state & 64 != 0) {
            Some(Hotkey { ctrl: state & 4 != 0, alt: state & 8 != 0, shift: state & 1 != 0, meta: state & 64 != 0, key: k })
        } else {
            None
        },
    }
}

pub open spec fn with_held(held: Seq<u8>, code: u8) -> Seq<u8> {
    if held.contains(code) {
        held
    } else {
        held.push(code)
    }
}

/// A key press while the popup is open.
pub open spec fn pressed(s: CaptureView, code: u8, state: u16) -> (CaptureView, BindStep) {
    let s1 = CaptureView { held: with_held(s.held, code), ..s };
    if code == 9 {
        (s1, BindStep::Finish(None))
    } else if code == 36 {
        (s1, BindStep::Finish(s.draft))
    } else if s.locked {
        (s1, BindStep::Ignored)
    } else {
        let s2 = if s.draft is Some {
            CaptureView { draft: None, preview: Seq::empty(), ..s1 }
        } else {
            s1
        };
        match x11_combo(code, state) {
            Some(h) => (CaptureView { draft: Some(h), preview: h.text(), locked: true, ..s2 }, BindStep::Captured(h)),
            None => (s2, if s.draft is Some { BindStep::Cleared } else { BindStep::Ignored }),
        }
    }
}

/// The keycodes other than `code`, in order.
pub open spec fn without(held: Seq<u8>, code: u8) -> Seq<u8>
    decreases held.len(),
{
    if held.len() == 0 {
        Seq::empty()
    } else {
        let rest = without(held.drop_last(), code);
        if held.last() == code {
            rest
        } else {
            rest.push(held.last())
        }
    }
}

/// A key release: it is no longer held; with nothing held the freeze ends.
pub open spec fn released(s: CaptureView, code: u8) -> CaptureView {
    let held = without(s.held, code);
    CaptureView { held, locked: s.locked && held.len() > 0, ..s }
}

/// Save (left) and Cancel (right) buttons of the 560×280 popup.
pub open spec fn in_save(x: int, y: int) -> bool {
    96 <= x < 272 && 216 <= y < 256
}

pub open spec fn in_cancel(x: int, y: int) -> bool {
    288 <= x < 464 && 216 <= y < 256
}

/// The Save and Cancel buttons of the 560×280 X11 popup: 176×40, 16 apart,
/// centred, 64 above the bottom.
pub fn x11_button_rects() -> (r: (Area, Area))
    ensures
        forall|x: int, y: int| area_holds(r.0, x, y) == in_save(x, y),
        forall|x: int, y: int| area_holds(r.1, x, y) == in_cancel(x, y),
        r.0 == (Area { x: 96, y: 216, w: 176, h: 40 }),
        r.1 == (Area { x: 288, y: 216, w: 176, h: 40 }),
{
    (Area { x: 96, y: 216, w: 176, h: 40 }, Area { x: 288, y: 216, w: 176, h: 40 })
}

/// The three text rows of the X11 popup, 28 in from each side: the prompt,
/// the modifier hint and the preview.
pub fn x11_text_rows() -> (r: (Area, Area, Area))
    ensures
        r.0 == (Area { x: 28, y: 20, w: 504, h: 32 }),
        r.1 == (Area { x: 28, y: 52, w: 504, h: 32 }),
        r.2 == (Area { x: 28, y: 96, w: 504, h: 48 }),
{
    (
        Area { x: 28, y: 20, w: 504, h: 32 },
        Area { x: 28, y: 52, w: 504, h: 32 },
        Area { x: 28, y: 96, w: 504, h: 48 },
    )
}

/// Accent green of frames, borders and a captured preview.
pub const ACCENT: u32 = 0x3DDC97;

/// Text colour of the popup.
pub const TEXT: u32 = 0xF0F0F0;

/// Dimmed text colour: no draft yet.
pub const DIM: u32 = 0xA0A0A0;

/// Whether a finished bind takes the new combo: it does when its grab
/// succeeded, or when it is the combo already in use (its own grab is what
/// made the new one fail). Otherwise the old combo stays.
pub fn bind_adopts(new: Hotkey, current: Hotkey, grabbed: bool) -> (r: bool)
    ensures
        r == (grabbed || new == current),
{
    grabbed || new == current
}

impl BindCapture {
    /// A fresh capture: no draft, empty preview, nothing held.
    pub fn new() -> (r: Self)
        ensures
            r@.draft is None,
            r@.preview == Seq::<char>::empty(),
            !r@.locked,
            r@.held == Seq::<u8>::empty(),
    {
        BindCapture { draft: None, preview: String::new(), locked: false, held: Vec::new() }
    }

    pub fn on_key(&mut self, code: u8, state: u16) -> (r: BindStep)
        ensures
            (final(self)@, r) == pressed(old(self)@, code, state),
    {
        let mut known = false;
        let mut i: usize = 0;
        while i < self.held.len()
            invariant
                i <= self.held@.len(),
                known == exists|j: int| 0 <= j < i && self.held@[j] == code,
            decreases self.held@.len() - i,
        {
            if self.held[i] == code {
                known = true;
            }
            i = i + 1;
        }
        if !known {
            self.held.push(code);
        }
        if code == 9 {
            return BindStep::Finish(None);
        }
        if code == 36 {
            return BindStep::Finish(self.draft);
        }
        if self.locked {
            return BindStep::Ignored;
        }
        let had = self.draft.is_some();
        if had {
            self.draft = None;
            self.preview = String::new();
        }
        match hotkey_from_x11(code, state) {
            Some(h) => {
                self.draft = Some(h);
                self.preview = h.to_string();
                self.locked = true;
                BindStep::Captured(h)
            },
            None => if had {
                BindStep::Cleared
            } else {
                BindStep::Ignored
            },
        }
    }

    pub fn on_release(&mut self, code: u8)
        ensures
            final(self)@ == released(old(self)@, code),
    {
        let ghost old_held = self.held@;
        let mut kept: Vec<u8> = Vec::new();
        let mut i: usize = 0;
        assert(old_held.take(0) =~= Seq::<u8>::empty());
        while i < self.held.len()
            invariant
                i <= self.held@.len(),
                self.held@ == old_held,
                kept@ == without(old_held.take(i as int), code),
            decreases self.held@.len() - i,
        {
            let c = self.held[i];
            proof {
                assert(old_held.take(i + 1).drop_last() =~= old_held.take(i as int));
                assert(old_held.take(i + 1).last() == c);
            }
            if c != code {
                kept.push(c);
            }
            i = i + 1;
        }
        assert(old_held.take(old_held.len() as int) =~= old_held);
        self.held = kept;
        if self.locked && self.held.len() == 0 {
            self.locked = false;
        }
    }

    /// The preview line as drawn: the captured combo, or `...` before any.
    pub fn shown_preview(&self) -> (r: String)
        ensures
            r@ == (if self@.preview.len() == 0 {
                "..."@
            } else {
                self@.preview
            }),
    {
        if self.preview.as_str().is_empty() {
            owned("...")
        } else {
            self.preview.clone()
        }
    }

    /// Colours of the preview line and of the Save label: accent and plain
    /// text with a draft, both dimmed without.
    pub fn shades(&self) -> (r: (u32, u32))
        ensures
            r == (if self@.draft is Some {
                (ACCENT, TEXT)
            } else {
                (DIM, DIM)
            }),
    {
        if self.draft.is_some() {
            (ACCENT, TEXT)
        } else {
            (DIM, DIM)
        }
    }

    /// A left click in the popup: Save closes with the draft (only when there
    /// is one), Cancel closes keeping the old combo.
    pub fn on_click(&self, x: i16, y: i16) -> (r: BindStep)
        ensures
            r == (if in_save(x as int, y as int) {
                if self.draft is Some {
                    BindStep::Finish(self.draft)
                } else {
                    BindStep::Ignored
                }
            } else if in_cancel(x as int, y as int) {
                BindStep::Finish(None)
            } else {
                BindStep::Ignored
            }),
    {
        if 96 <= x && x < 272 && 216 <= y && y < 256 {
            if self.draft.is_some() {
                BindStep::Finish(self.draft)
            } else {
                BindStep::Ignored
            }
        } else if 288 <= x && x < 464 && 216 <= y && y < 256 {
            BindStep::Finish(None)
        } else {
            BindStep::Ignored
        }
    }
}

/// Once a full combo is captured, Enter saves exactly that combo.
pub proof fn lemma_enter_saves_capture(s: CaptureView, code: u8, state: u16, enter_state: u16)
    requires
        pressed(s, code, state).1 matches BindStep::Captured(_),
    ensures
        pressed(s, code, state).1 matches BindStep::Captured(h) && pressed(
            pressed(s, code, state).0,
            36,
            enter_state,
        ).1 == BindStep::Finish(Some(h)),
{
}

/// While a captured combo is held, other keys change neither the draft nor
/// the preview; Esc and Enter still finish.
pub proof fn lemma_frozen_while_held(s: CaptureView, code: u8, state: u16)
    requires
        s.locked,
        code != 9,
        code != 36,
    ensures
        pressed(s, code, state).1 == BindStep::Ignored,
        pressed(s, code, state).0.draft == s.draft,
        pressed(s, code, state).0.preview == s.preview,
        pressed(s, code, state).0.locked,
{
}

/// Esc closes the popup keeping the old combo, whatever was captured.
pub proof fn lemma_escape_keeps_old(s: CaptureView, state: u16)
    ensures
        pressed(s, 9, state).1 == BindStep::Finish(None),
{
}

/// Once unfrozen, the next key starts afresh: the old draft goes, and the
/// draft becomes the pressed combo when it is one.
pub proof fn lemma_new_stroke_starts_afresh(s: CaptureView, code: u8, state: u16)
    requires
        !s.locked,
        code != 9,
        code != 36,
    ensures
        pressed(s, code, state).0.draft == x11_combo(code, state),
{
}

/// Releasing the last held key ends the freeze.
pub proof fn lemma_release_last_unfreezes(s: CaptureView, code: u8)
    requires
        s.held == seq![code],
    ensures
        !released(s, code).locked,
        released(s, code).held == Seq::<u8>::empty(),
        released(s, code).draft == s.draft,
{
    reveal_with_fuel(without, 2);
    assert(s.held.drop_last() =~= Seq::<u8>::empty());
}

} // verus!
