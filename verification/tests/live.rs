use blackout::hotkey::{Hotkey, Key};
use blackout::live_bind::{LiveCapture, LiveStep};

const MAC_CTRL: usize = 1 << 18;
const MAC_SHIFT: usize = 1 << 17;

fn ctrl_b() -> Hotkey {
    Hotkey { ctrl: true, alt: false, shift: false, meta: false, key: Key::Char('B') }
}

#[test]
fn windows_capture_freezes_then_commits() {
    let mut c = LiveCapture::new();
    // Ctrl down: the preview shows the modifier
    assert_eq!(c.win_key_down(0x11, true, false, false), LiveStep::Redraw);
    assert_eq!(c.preview, "Ctrl");
    assert_eq!(c.draft, None);
    // B with Ctrl: captured and frozen
    assert_eq!(c.win_key_down(0x42, true, false, false), LiveStep::Redraw);
    assert_eq!(c.draft, Some(ctrl_b()));
    assert_eq!(c.preview, "Ctrl+B");
    assert!(c.locked);
    // another key while frozen changes nothing
    assert_eq!(c.win_key_down(0x43, true, true, false), LiveStep::Ignored);
    assert_eq!(c.preview, "Ctrl+B");
    // B released, Ctrl still down: still frozen
    assert_eq!(c.win_key_up(0x42, true, false, false, false), LiveStep::Ignored);
    assert!(c.locked);
    // Ctrl released: unfrozen, draft kept
    assert_eq!(c.win_key_up(0x11, false, false, false, false), LiveStep::Ignored);
    assert!(!c.locked);
    assert_eq!(c.draft, Some(ctrl_b()));
    // Enter alone commits
    assert_eq!(c.win_key_down(0x0D, false, false, false), LiveStep::Commit(ctrl_b()));
    // Esc cancels
    assert_eq!(c.win_key_down(0x1B, false, false, false), LiveStep::Cancel);
}

#[test]
fn windows_key_alone_only_shows() {
    let mut c = LiveCapture::new();
    assert_eq!(c.win_key_down(0x70, false, false, false), LiveStep::Redraw);
    assert_eq!(c.preview, "F1");
    assert_eq!(c.draft, None);
    assert!(!c.locked);
    // released with nothing held: the preview empties
    assert_eq!(c.win_key_up(0x70, false, false, false, false), LiveStep::Redraw);
    assert_eq!(c.preview, "");
    // Enter without a draft does nothing
    assert_eq!(c.win_key_down(0x0D, false, false, false), LiveStep::Ignored);
}

#[test]
fn windows_win_key_counts_as_super() {
    let mut c = LiveCapture::new();
    assert_eq!(c.win_key_down(0x5B, false, false, false), LiveStep::Redraw);
    assert!(c.win_down);
    assert_eq!(c.preview, "Super");
    assert_eq!(c.win_key_down(0x20, false, false, false), LiveStep::Redraw);
    assert_eq!(
        c.draft,
        Some(Hotkey { ctrl: false, alt: false, shift: false, meta: true, key: Key::Space })
    );
    assert_eq!(c.preview, "Super+Space");
    // releasing Win while the space bar still reads down keeps the freeze
    assert_eq!(c.win_key_up(0x5B, false, false, false, true), LiveStep::Ignored);
    assert!(!c.win_down);
    assert!(c.locked);
    assert_eq!(c.win_key_up(0x20, false, false, false, false), LiveStep::Ignored);
    assert!(!c.locked);
}

#[test]
fn windows_new_stroke_drops_old_draft() {
    let mut c = LiveCapture::new();
    c.win_key_down(0x42, true, false, false);
    c.win_key_up(0x42, false, false, false, false);
    assert_eq!(c.preview, "Ctrl+B");
    // a new modifier starts over
    assert_eq!(c.win_key_down(0x10, false, false, true), LiveStep::Redraw);
    assert_eq!(c.draft, None);
    assert_eq!(c.preview, "Shift");
}

#[test]
fn mac_capture_freezes_then_commits() {
    let mut c = LiveCapture::new();
    assert_eq!(c.mac_flags(MAC_CTRL), LiveStep::Redraw);
    assert_eq!(c.preview, "Ctrl");
    // B (0x0B) with Control
    assert_eq!(c.mac_key_down(0x0B, MAC_CTRL), LiveStep::Redraw);
    assert_eq!(c.draft, Some(ctrl_b()));
    assert_eq!(c.held_key, Some(0x0B));
    assert!(c.locked);
    assert_eq!(c.mac_key_down(0x08, MAC_CTRL | MAC_SHIFT), LiveStep::Ignored);
    // key released, Control still down
    assert_eq!(c.mac_key_up(0x0B, MAC_CTRL), LiveStep::Ignored);
    assert_eq!(c.held_key, None);
    assert!(c.locked);
    // Control released
    assert_eq!(c.mac_flags(0), LiveStep::Ignored);
    assert!(!c.locked);
    assert_eq!(c.preview, "Ctrl+B");
    // Return commits and takes the draft
    assert_eq!(c.mac_key_down(36, 0), LiveStep::Commit(ctrl_b()));
    assert_eq!(c.draft, None);
    assert_eq!(c.mac_key_down(53, MAC_CTRL), LiveStep::Cancel);
}

#[test]
fn mac_unknown_key_starts_a_stroke() {
    let mut c = LiveCapture::new();
    c.mac_key_down(0x0B, MAC_CTRL);
    c.mac_key_up(0x0B, 0);
    assert!(!c.locked);
    assert_eq!(c.mac_key_down(0x35 + 0x40, 0), LiveStep::Redraw);
    assert_eq!(c.draft, None);
    assert_eq!(c.preview, "");
    // a known key alone only shows
    assert_eq!(c.mac_key_down(0x7A, 0), LiveStep::Redraw);
    assert_eq!(c.preview, "F1");
    assert_eq!(c.held_key, None);
}
