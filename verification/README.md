# Blackout

Blackout veils every monitor but the one you watch on. A hotkey (or the tray)
enters a pick mode: the monitor under the pointer is framed in green, the others
go dark; arrows, digits, the pointer or a click choose, Enter or a click locks,
Esc or the hotkey again lifts the veils.

The decisions are a library verified with Verus; the program around it talks to
the window system.

## Layout

- `src/` — the verified library
  - `app.rs` — the cinema-mode state machine (`Logic`) and its actions;
    `mode_laws.rs` holds what every sequence of events keeps.
  - `hotkey.rs` — hotkeys: parsing and printing `Ctrl+Alt+B`, key codes of
    Windows, macOS and X11; `combo_laws.rs` proves that printing and parsing
    undo each other.
  - `bind.rs` (X11) and `live_bind.rs` (Windows, macOS) — capturing a new hotkey
    in the popup.
  - `screen.rs` — which monitors get a veil and in what order, keycode lookup,
    frame and text geometry; `ui.rs` — overlay roles, colours, the candidate
    surface, pick-key tables, button and dialog geometry; `menu.rs` — the
    tray and status-bar menu; `winmsg.rs` — what Windows messages, tray events
    and menu ids mean.
  - `config.rs` — settings and where they live; `i18n.rs` — the Russian and
    English texts and language detection; `purge.rs` — the data-wipe dialog.
  - `autostart.rs` — the autostart entry for each system (`.desktop`, plist,
    registry command) and whether a stored entry is ours; `autostart_laws.rs`
    proves that what is written is recognised again.
  - `icon.rs` — the tray icon, a monitor on a stand, pixel by pixel;
    `icon_file.rs` — that icon as PNG (through the `png` crate), as DIB frames,
    and the `.ico` and `.icns` files built from them.
  - `text.rs` — the string toolkit the rest is written with.
- `app/` — the X11 program: RandR, windows, key grabs, drawing, files.
- `tests/` — tests of the library.
