use blackout::bind::{bind_adopts, x11_text_rows, BindCapture, ACCENT, DIM, TEXT};
use blackout::hotkey::{Hotkey, Key};
use blackout::screen::{frame_rects, keycode_of, monitor_layout, outline, text_origin};
use blackout::ui::{rgb, wide_channels, Area};

fn area(x: i16, y: i16, w: u16, h: u16) -> Area {
    Area { x, y, w, h }
}

fn names(list: &[(String, Area)]) -> Vec<&str> {
    list.iter().map(|m| m.0.as_str()).collect()
}

#[test]
fn monitors_sort_by_corner() {
    let found = vec![
        ("OUTPUT-0".to_string(), area(1920, 0, 1920, 1080)),
        ("OUTPUT-1".to_string(), area(0, 0, 1920, 1080)),
        ("OUTPUT-2".to_string(), area(0, -1080, 1920, 1080)),
    ];
    let out = monitor_layout(found, 3840, 2160);
    assert_eq!(names(&out), vec!["OUTPUT-2", "OUTPUT-1", "OUTPUT-0"]);
    assert_eq!(out[0].1, area(0, -1080, 1920, 1080));
    assert_eq!(out[2].1, area(1920, 0, 1920, 1080));
}

#[test]
fn monitors_without_room_are_dropped() {
    let found = vec![
        ("OUTPUT-0".to_string(), area(0, 0, 0, 1080)),
        ("OUTPUT-1".to_string(), area(1920, 0, 1280, 1024)),
        ("OUTPUT-2".to_string(), area(0, 0, 800, 0)),
    ];
    let out = monitor_layout(found, 3200, 1080);
    assert_eq!(names(&out), vec!["OUTPUT-1"]);
}

#[test]
fn mirrored_monitors_keep_their_order() {
    let found = vec![
        ("OUTPUT-3".to_string(), area(0, 0, 1920, 1080)),
        ("OUTPUT-1".to_string(), area(0, 0, 1280, 720)),
        ("OUTPUT-2".to_string(), area(0, 0, 1920, 1080)),
    ];
    let out = monitor_layout(found, 1920, 1080);
    assert_eq!(names(&out), vec!["OUTPUT-3", "OUTPUT-1", "OUTPUT-2"]);
}

#[test]
fn no_monitor_falls_back_to_the_screen() {
    let out = monitor_layout(Vec::new(), 1366, 768);
    assert_eq!(out.len(), 1);
    assert_eq!(out[0].0, "SCREEN-0");
    assert_eq!(out[0].1, area(0, 0, 1366, 768));
    let out = monitor_layout(vec![("OUTPUT-0".to_string(), area(5, 5, 0, 0))], 800, 600);
    assert_eq!(names(&out), vec!["SCREEN-0"]);
    assert_eq!(out[0].1, area(0, 0, 800, 600));
}

#[test]
fn keycode_of_finds_the_first_keycode() {
    // two keysyms per keycode, keycodes 8, 9, 10
    let map = [0u32, 0, 0xff1b, 0, 0x61, 0x41];
    assert_eq!(keycode_of(&map, 2, 0xff1b), Some(9));
    assert_eq!(keycode_of(&map, 2, 0x41), Some(10));
    // a lower-case keysym is found through its upper-case form too
    let upper_only = [0u32, 0, 0x42, 0];
    assert_eq!(keycode_of(&upper_only, 2, 0x62), Some(9));
    assert_eq!(keycode_of(&map, 2, 0xffbe), None);
    assert_eq!(keycode_of(&[], 4, 0x61), None);
}

#[test]
fn frame_is_four_eight_pixel_edges() {
    assert_eq!(
        frame_rects(1920, 1080),
        [
            area(0, 0, 1920, 8),
            area(0, 1072, 1920, 8),
            area(0, 0, 8, 1080),
            area(1912, 0, 8, 1080),
        ]
    );
}

#[test]
fn outline_is_four_one_pixel_edges() {
    assert_eq!(
        outline(area(96, 216, 176, 40)),
        [
            area(96, 216, 176, 1),
            area(96, 255, 176, 1),
            area(96, 216, 1, 40),
            area(271, 216, 1, 40),
        ]
    );
}

#[test]
fn text_is_centred() {
    // "Save" in 10×20 glyphs inside the Save button
    assert_eq!(text_origin(area(96, 216, 176, 40), 4, 10, 20), (96 + 68, 216 + 10));
    // wider than the row: starts left of it
    assert_eq!(text_origin(area(28, 20, 504, 32), 60, 10, 20), (28 - 48, 26));
    // odd leftover rounds toward zero
    assert_eq!(text_origin(area(0, 0, 11, 21), 1, 10, 20), (0, 0));
    assert_eq!(text_origin(area(0, 0, 9, 19), 1, 10, 20), (0, 0));
}

#[test]
fn popup_rows_and_shades() {
    let (prompt, hint, preview) = x11_text_rows();
    assert_eq!(prompt, area(28, 20, 504, 32));
    assert_eq!(hint, area(28, 52, 504, 32));
    assert_eq!(preview, area(28, 96, 504, 48));

    let mut capture = BindCapture::new();
    assert_eq!(capture.shown_preview(), "...");
    assert_eq!(capture.shades(), (DIM, DIM));
    // Ctrl + B (keycode 56)
    capture.on_key(56, 4);
    assert_eq!(capture.shown_preview(), "Ctrl+B");
    assert_eq!(capture.shades(), (ACCENT, TEXT));
}

#[test]
fn bind_adopts_when_grabbed_or_unchanged() {
    let old = Hotkey { ctrl: true, alt: true, shift: false, meta: false, key: Key::Char('B') };
    let new = Hotkey { ctrl: true, alt: false, shift: true, meta: false, key: Key::F(5) };
    assert!(bind_adopts(new, old, true));
    assert!(!bind_adopts(new, old, false));
    assert!(bind_adopts(old, old, false));
}

#[test]
fn x11_colours() {
    assert_eq!(wide_channels(0x3D, 0xDC, 0x97, 255), (0x3D3D, 0xDCDC, 0x9797, 0xFFFF));
    assert_eq!(wide_channels(0, 0, 0, 1), (0, 0, 0, 0x0101));
    assert_eq!(rgb(0x3D, 0xDC, 0x97), ACCENT);
    assert_eq!(rgb(5, 5, 5), 0x050505);
}
