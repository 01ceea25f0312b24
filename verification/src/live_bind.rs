//! Capturing a new hotkey in the Windows and macOS popups, where the held
//! modifiers are read from the keyboard at each event: the preview follows
//! them, a full combo freezes it until everything is released, Enter
//! commits the draft and Esc cancels.
use crate::hotkey::{
    any_modifier, combo_text, format_combo, key_from_mac_vk, key_from_win_vk, mac_code_key,
    win_code, win_code_key, Hotkey, Key,
};
use crate::ui::mac_mods;
use vstd::prelude::*;

verus! {

/// What the popup does after an event.
#[derive(Clone, Copy, Debug, PartialEq, Eq, Structural)]
pub enum LiveStep {
    /// Close without a new combo.
    Cancel,
    /// Close and try this combo.
    Commit(Hotkey),
    /// The preview changed: draw it again.
    Redraw,
    /// Nothing to draw.
    Ignored,
}

pub struct LiveCapture {
    /// The combo Enter would commit.
    pub draft: Option<Hotkey>,
    /// The text shown as preview.
    pub preview: String,
    /// A full combo is held: ignore keys until all of it is released.
    pub locked: bool,
    /// Windows: a Win key is down (its state is tracked from key events).
    pub win_down: bool,
    /// macOS: the key of the frozen combo, until it is released.
    pub held_key: Option<u16>,
}

pub struct LiveView {
    pub draft: Option<Hotkey>,
    pub preview: Seq<char>,
    pub locked: bool,
    pub win_down: bool,
    pub held_key: Option<u16>,
}

impl View for LiveCapture {
    type V = LiveView;

    open spec fn view(&self) -> LiveView {
        LiveView {
            draft: self.draft,
            preview: self.preview@,
            locked: self.locked,
            win_down: self.win_down,
            held_key: self.held_key,
        }
    }
}

/// The preview without a key: the held modifiers, else the draft, else nothing.
pub open spec fn idle_preview(s: LiveView, ctrl: bool, alt: bool, shift: bool, meta: bool) -> Seq<char> {
    let live = combo_text(ctrl, alt, shift, meta, None);
    if live.len() > 0 {
        live
    } else {
        match s.draft {
            Some(d) => d.text(),
            None => Seq::empty(),
        }
    }
}

/// A new stroke drops the previous draft and its preview.
pub open spec fn new_stroke(s: LiveView) -> LiveView {
    if s.draft is Some {
        LiveView { draft: None, preview: Seq::empty(), ..s }
    } else {
        s
    }
}

/// The preview after a key (or none) with these modifiers: a key with a
/// modifier becomes the draft and freezes; a key alone only shows.
pub open spec fn refreshed(s: LiveView, ctrl: bool, alt: bool, shift: bool, meta: bool, key: Option<Key>) -> LiveView {
    match key {
        Some(k) => if any_modifier(ctrl, alt, shift, meta) {
            let h = Hotkey { ctrl, alt, shift, meta, key: k };
            LiveView { draft: Some(h), preview: h.text(), locked: true, ..s }
        } else {
            LiveView { preview: combo_text(ctrl, alt, shift, meta, Some(k)), ..s }
        },
        None => LiveView { preview: idle_preview(s, ctrl, alt, shift, meta), ..s },
    }
}

/// Windows virtual keys the popup treats apart.
pub open spec fn is_win_key(vk: u32) -> bool {
    vk == 0x5B || vk == 0x5C
}

/// A key press in the Windows popup, with Ctrl, Alt and Shift as read now.
pub open spec fn win_pressed(s: LiveView, vk: u32, ctrl: bool, alt: bool, shift: bool) -> (LiveView, LiveStep) {
    if is_win_key(vk) {
        let s1 = LiveView { win_down: true, ..s };
        if s.locked {
            (s1, LiveStep::Ignored)
        } else {
            (refreshed(new_stroke(s1), ctrl, alt, shift, true, None), LiveStep::Redraw)
        }
    } else if vk == 0x1B {
        (s, LiveStep::Cancel)
    } else if vk == 0x0D && !any_modifier(ctrl, alt, shift, s.win_down) {
        match s.draft {
            Some(h) => (s, LiveStep::Commit(h)),
            None => (s, LiveStep::Ignored),
        }
    } else if s.locked {
        (s, LiveStep::Ignored)
    } else {
        (refreshed(new_stroke(s), ctrl, alt, shift, s.win_down, win_code_key(vk)), LiveStep::Redraw)
    }
}

/// A key release in the Windows popup; `draft_key_down` is whether the
/// draft's own key still reads as down.
pub open spec fn win_released(s: LiveView, vk: u32, ctrl: bool, alt: bool, shift: bool, draft_key_down: bool) -> (LiveView, LiveStep) {
    let s1 = if is_win_key(vk) {
        LiveView { win_down: false, ..s }
    } else {
        s
    };
    if s1.locked {
        let held = any_modifier(ctrl, alt, shift, s1.win_down) || (s1.draft matches Some(d) && win_code(d.key) != 0 && draft_key_down);
        (if held {
            s1
        } else {
            LiveView { locked: false, ..s1 }
        }, LiveStep::Ignored)
    } else {
        (refreshed(s1, ctrl, alt, shift, s1.win_down, None), LiveStep::Redraw)
    }
}

/// The modifier bits of an NSEvent: Ctrl 18, Option 19, Shift 17, Command 20.
pub open spec fn mac_ctrl(flags: usize) -> bool {
    flags & 0x40000 != 0
}

pub open spec fn mac_alt(flags: usize) -> bool {
    flags & 0x80000 != 0
}

pub open spec fn mac_shift(flags: usize) -> bool {
    flags & 0x20000 != 0
}

pub open spec fn mac_meta(flags: usize) -> bool {
    flags & 0x100000 != 0
}

pub open spec fn mac_any(flags: usize) -> bool {
    any_modifier(mac_ctrl(flags), mac_alt(flags), mac_shift(flags), mac_meta(flags))
}

/// The frozen combo is still held: a modifier, or its key.
pub open spec fn mac_held(s: LiveView, flags: usize) -> bool {
    mac_any(flags) || s.held_key is Some
}

/// The modifiers changed in the macOS popup.
pub open spec fn mac_flags_changed(s: LiveView, flags: usize) -> (LiveView, LiveStep) {
    if s.locked {
        (if mac_held(s, flags) {
            s
        } else {
            LiveView { locked: false, ..s }
        }, LiveStep::Ignored)
    } else {
        let s1 = if s.draft is Some && mac_any(flags) {
            LiveView { draft: None, preview: Seq::empty(), ..s }
        } else {
            s
        };
        (refreshed(s1, mac_ctrl(flags), mac_alt(flags), mac_shift(flags), mac_meta(flags), None), LiveStep::Redraw)
    }
}

/// A key release in the macOS popup.
pub open spec fn mac_released(s: LiveView, code: u16, flags: usize) -> (LiveView, LiveStep) {
    let s1 = if s.held_key == Some(code) {
        LiveView { held_key: None, ..s }
    } else {
        s
    };
    if s1.locked {
        (if mac_held(s1, flags) {
            s1
        } else {
            LiveView { locked: false, ..s1 }
        }, LiveStep::Ignored)
    } else {
        mac_flags_changed(s1, flags)
    }
}

/// A key press in the macOS popup: Esc (53) cancels, Return (36) without
/// modifiers commits the draft.
pub open spec fn mac_pressed(s: LiveView, code: u16, flags: usize) -> (LiveView, LiveStep) {
    if code == 53 {
        (s, LiveStep::Cancel)
    } else if code == 36 && !mac_any(flags) && s.draft is Some {
        (LiveView { draft: None, ..s }, LiveStep::Commit(s.draft.unwrap()))
    } else if s.locked {
        (s, LiveStep::Ignored)
    } else {
        let s1 = new_stroke(s);
        match mac_code_key(code) {
            None => (s1, LiveStep::Redraw),
            Some(k) => {
                let s2 = refreshed(s1, mac_ctrl(flags), mac_alt(flags), mac_shift(flags), mac_meta(flags), Some(k));
                if mac_any(flags) {
                    (LiveView { held_key: Some(code), ..s2 }, LiveStep::Redraw)
                } else {
                    (s2, LiveStep::Redraw)
                }
            },
        }
    }
}

impl LiveCapture {
    /// A fresh capture: no draft, empty preview, nothing held.
    pub fn new() -> (r: Self)
        ensures
            r@.draft is None,
            r@.preview == Seq::<char>::empty(),
            !r@.locked,
            !r@.win_down,
            r@.held_key is None,
    {
        LiveCapture { draft: None, preview: String::new(), locked: false, win_down: false, held_key: None }
    }

    fn new_stroke(&mut self)
        ensures
            final(self)@ == new_stroke(old(self)@),
    {
        if self.draft.is_some() {
            self.draft = None;
            self.preview = String::new();
        }
    }

    fn refresh(&mut self, ctrl: bool, alt: bool, shift: bool, meta: bool, key: Option<Key>)
        ensures
            final(self)@ == refreshed(old(self)@, ctrl, alt, shift, meta, key),
    {
        match key {
            Some(k) => {
                if ctrl || alt || shift || meta {
                    let h = Hotkey { ctrl, alt, shift, meta, key: k };
                    self.draft = Some(h);
                    self.preview = h.to_string();
                    self.locked = true;
                } else {
                    self.preview = format_combo(ctrl, alt, shift, meta, Some(k));
                }
            },
            None => {
                let live = format_combo(ctrl, alt, shift, meta, None);
                if !live.as_str().is_empty() {
                    self.preview = live;
                } else {
                    match self.draft {
                        Some(d) => {
                            self.preview = d.to_string();
                        },
                        None => {
                            self.preview = String::new();
                        },
                    }
                }
            },
        }
    }

    /// A key press in the Windows popup (virtual key `vk`; Ctrl, Alt and
    /// Shift as read now).
    pub fn win_key_down(&mut self, vk: u32, ctrl: bool, alt: bool, shift: bool) -> (r: LiveStep)
        ensures
            (final(self)@, r) == win_pressed(old(self)@, vk, ctrl, alt, shift),
    {
        if vk == 0x5B || vk == 0x5C {
            self.win_down = true;
            if self.locked {
                return LiveStep::Ignored;
            }
            self.new_stroke();
            self.refresh(ctrl, alt, shift, true, None);
            return LiveStep::Redraw;
        }
        if vk == 0x1B {
            return LiveStep::Cancel;
        }
        if vk == 0x0D && !ctrl && !alt && !shift && !self.win_down {
            return match self.draft {
                Some(h) => LiveStep::Commit(h),
                None => LiveStep::Ignored,
            };
        }
        if self.locked {
            return LiveStep::Ignored;
        }
        self.new_stroke();
        let meta = self.win_down;
        self.refresh(ctrl, alt, shift, meta, key_from_win_vk(vk));
        LiveStep::Redraw
    }

    /// A key release in the Windows popup; `draft_key_down` is whether the
    /// draft's key still reads as down.
    pub fn win_key_up(&mut self, vk: u32, ctrl: bool, alt: bool, shift: bool, draft_key_down: bool) -> (r: LiveStep)
        ensures
            (final(self)@, r) == win_released(old(self)@, vk, ctrl, alt, shift, draft_key_down),
    {
        if vk == 0x5B || vk == 0x5C {
            self.win_down = false;
        }
        if self.locked {
            let mut held = ctrl || alt || shift || self.win_down;
            if let Some(d) = self.draft {
                if d.win_vk() != 0 && draft_key_down {
                    held = true;
                }
            }
            if !held {
                self.locked = false;
            }
            return LiveStep::Ignored;
        }
        let meta = self.win_down;
        self.refresh(ctrl, alt, shift, meta, None);
        LiveStep::Redraw
    }

    /// The modifier flags changed in the macOS popup.
    pub fn mac_flags(&mut self, flags: usize) -> (r: LiveStep)
        ensures
            (final(self)@, r) == mac_flags_changed(old(self)@, flags),
    {
        let (ctrl, alt, shift, meta) = mac_mods(flags);
        if self.locked {
            if !(ctrl || alt || shift || meta || self.held_key.is_some()) {
                self.locked = false;
            }
            return LiveStep::Ignored;
        }
        if self.draft.is_some() && (ctrl || alt || shift || meta) {
            self.draft = None;
            self.preview = String::new();
        }
        self.refresh(ctrl, alt, shift, meta, None);
        LiveStep::Redraw
    }

    /// A key release in the macOS popup.
    pub fn mac_key_up(&mut self, code: u16, flags: usize) -> (r: LiveStep)
        ensures
            (final(self)@, r) == mac_released(old(self)@, code, flags),
    {
        if self.held_key == Some(code) {
            self.held_key = None;
        }
        if self.locked {
            let (ctrl, alt, shift, meta) = mac_mods(flags);
            if !(ctrl || alt || shift || meta || self.held_key.is_some()) {
                self.locked = false;
            }
            return LiveStep::Ignored;
        }
        self.mac_flags(flags)
    }

    /// A key press in the macOS popup (virtual key `code`, modifier `flags`).
    pub fn mac_key_down(&mut self, code: u16, flags: usize) -> (r: LiveStep)
        ensures
            (final(self)@, r) == mac_pressed(old(self)@, code, flags),
    {
        if code == 53 {
            return LiveStep::Cancel;
        }
        let (ctrl, alt, shift, meta) = mac_mods(flags);
        if code == 36 && !ctrl && !alt && !shift && !meta {
            if let Some(h) = self.draft {
                self.draft = None;
                return LiveStep::Commit(h);
            }
        }
        if self.locked {
            return LiveStep::Ignored;
        }
        self.new_stroke();
        match key_from_mac_vk(code) {
            None => LiveStep::Redraw,
            Some(k) => {
                self.refresh(ctrl, alt, shift, meta, Some(k));
                if ctrl || alt || shift || meta {
                    self.held_key = Some(code);
                }
                LiveStep::Redraw
            },
        }
    }
}

/// Enter with no modifier commits the draft whenever there is one, on both
/// platforms, frozen or not.
pub proof fn lemma_enter_commits_draft(s: LiveView, h: Hotkey, flags: usize)
    requires
        s.draft == Some(h),
        !s.win_down,
        !mac_any(flags),
    ensures
        win_pressed(s, 0x0D, false, false, false).1 == LiveStep::Commit(h),
        mac_pressed(s, 36, flags).1 == LiveStep::Commit(h),
{
}

/// Esc always cancels and changes nothing.
pub proof fn lemma_escape_cancels(s: LiveView, ctrl: bool, alt: bool, shift: bool, flags: usize)
    ensures
        win_pressed(s, 0x1B, ctrl, alt, shift) == (s, LiveStep::Cancel),
        mac_pressed(s, 53, flags) == (s, LiveStep::Cancel),
{
}

/// While a combo is frozen, other keys change neither the draft nor the
/// preview.
pub proof fn lemma_frozen_keeps_draft(s: LiveView, vk: u32, code: u16, ctrl: bool, alt: bool, shift: bool, flags: usize)
    requires
        s.locked,
        vk != 0x1B,
        vk != 0x0D,
        code != 53,
        code != 36,
    ensures
        win_pressed(s, vk, ctrl, alt, shift).0.draft == s.draft,
        win_pressed(s, vk, ctrl, alt, shift).0.preview == s.preview,
        win_pressed(s, vk, ctrl, alt, shift).1 == LiveStep::Ignored,
        mac_pressed(s, code, flags) == (s, LiveStep::Ignored),
{
}

/// A captured combo unfreezes once every key of it is released.
pub proof fn lemma_release_unfreezes(s: LiveView, vk: u32, code: u16, flags: usize)
    requires
        s.locked,
        !s.win_down || is_win_key(vk),
        s.held_key is None || s.held_key == Some(code),
        !mac_any(flags),
    ensures
        !win_released(s, vk, false, false, false, false).0.locked,
        !mac_released(s, code, flags).0.locked,
        win_released(s, vk, false, false, false, false).0.draft == s.draft,
        mac_released(s, code, flags).0.draft == s.draft,
{
}

/// Once unfrozen, the next key starts afresh on Windows: the old draft goes,
/// and the draft becomes the pressed combo when it is one.
pub proof fn lemma_windows_new_stroke(s: LiveView, vk: u32, ctrl: bool, alt: bool, shift: bool)
    requires
        !s.locked,
        !is_win_key(vk),
        vk != 0x1B,
        !(vk == 0x0D && !any_modifier(ctrl, alt, shift, s.win_down)),
    ensures
        win_pressed(s, vk, ctrl, alt, shift).0.draft == (match win_code_key(vk) {
            Some(k) => if any_modifier(ctrl, alt, shift, s.win_down) {
                Some(Hotkey { ctrl, alt, shift, meta: s.win_down, key: k })
            } else {
                None
            },
            None => None,
        }),
{
}

/// The same on macOS.
pub proof fn lemma_mac_new_stroke(s: LiveView, code: u16, flags: usize)
    requires
        !s.locked,
        code != 53,
        !(code == 36 && !mac_any(flags) && s.draft is Some),
    ensures
        mac_pressed(s, code, flags).0.draft == (match mac_code_key(code) {
            Some(k) => if mac_any(flags) {
                Some(Hotkey { ctrl: mac_ctrl(flags), alt: mac_alt(flags), shift: mac_shift(flags), meta: mac_meta(flags), key: k })
            } else {
                None
            },
            None => None,
        }),
{
}

/// Pressing a key with a modifier captures exactly that combo, and Enter
/// then commits it.
pub proof fn lemma_capture_then_enter(s: LiveView, code: u16, flags: usize, k: Key, enter_flags: usize)
    requires
        !s.locked,
        code != 53,
        code != 36,
        mac_code_key(code) == Some(k),
        mac_any(flags),
        !mac_any(enter_flags),
    ensures
        ({
            let h = Hotkey { ctrl: mac_ctrl(flags), alt: mac_alt(flags), shift: mac_shift(flags), meta: mac_meta(flags), key: k };
            &&& mac_pressed(s, code, flags).0.draft == Some(h)
            &&& mac_pressed(s, code, flags).0.preview == h.text()
            &&& mac_pressed(mac_pressed(s, code, flags).0, 36, enter_flags).1 == LiveStep::Commit(h)
        }),
{
}

} // verus!
