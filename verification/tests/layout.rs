use blackout::app::{Action, PickKey};
use blackout::bind::{BindCapture, BindStep};
use blackout::config::Style;
use blackout::hotkey::{Hotkey, Key};
use blackout::i18n::Language;
use blackout::ui::{about_rows, mac_pick_keys, win_pick_keys, candidate_border, candidate_surface, dialog_inset, wipe_rows};
use blackout::ui::{
    about_close_button, about_github_button, about_license_rect, about_link_rect,
    bind_button_rects, lang_from_cmd, mac_mods, monitor_at, moved_enough, overlay_opacity,
    overlay_roles, pick_key_from_hotkey_id, pick_key_from_x11, pixel, popup_origin,
    rect_contains, veil_rgba, Area, Rect, Role,
};

fn ids(names: &[&str]) -> Vec<String> {
    names.iter().map(|s| s.to_string()).collect()
}

#[test]
fn roles_follow_the_action() {
    let ds = ids(&["A", "B", "C"]);
    assert_eq!(overlay_roles(&Action::Nothing, &ds), None);
    assert_eq!(overlay_roles(&Action::HideAll, &ds), Some(vec![Role::Hidden; 3]));
    assert_eq!(
        overlay_roles(&Action::ShowPick { candidate: "B".into() }, &ds),
        Some(vec![Role::Veil, Role::Candidate, Role::Veil])
    );
    assert_eq!(
        overlay_roles(&Action::RefreshPick { candidate: "C".into() }, &ds),
        Some(vec![Role::Veil, Role::Veil, Role::Candidate])
    );
    assert_eq!(
        overlay_roles(&Action::ShowLocked { cinema: "A".into() }, &ds),
        Some(vec![Role::Hidden, Role::Veil, Role::Veil])
    );
}

#[test]
fn veil_opacity_and_colours() {
    assert_eq!(overlay_opacity(true, false, Style::Frost), u32::MAX);
    assert_eq!(overlay_opacity(false, true, Style::Tint), u32::MAX);
    assert_eq!(overlay_opacity(false, false, Style::Tint), 214u32 << 24);
    assert_eq!(overlay_opacity(false, false, Style::Frost), 214u32 << 24);
    assert_eq!(overlay_opacity(false, false, Style::Solid), u32::MAX);
    assert_eq!(veil_rgba(Style::Solid), (0, 0, 0, 255));
    assert_eq!(veil_rgba(Style::Tint), (0, 0, 0, 214));
    assert_eq!(veil_rgba(Style::Frost), (5, 5, 5, 214));
}

#[test]
fn premultiplied_pixels() {
    assert_eq!(pixel(0x3D, 0xDC, 0x97, 255), 0xFF3DDC97);
    assert_eq!(pixel(0, 0, 0, 0), 0);
    assert_eq!(pixel(255, 255, 255, 128), 0x80808080);
    assert_eq!(pixel(200, 100, 50, 1), 0x01000000);
}

#[test]
fn pick_keys_and_pointer() {
    assert_eq!(pick_key_from_x11(9), Some(PickKey::Escape));
    assert_eq!(pick_key_from_x11(36), Some(PickKey::Enter));
    assert_eq!(pick_key_from_x11(113), Some(PickKey::Left));
    assert_eq!(pick_key_from_x11(114), Some(PickKey::Right));
    assert_eq!(pick_key_from_x11(10), Some(PickKey::Digit(1)));
    assert_eq!(pick_key_from_x11(18), Some(PickKey::Digit(9)));
    assert_eq!(pick_key_from_x11(19), None);
    assert_eq!(pick_key_from_hotkey_id(2), Some(PickKey::Escape));
    assert_eq!(pick_key_from_hotkey_id(5), Some(PickKey::Right));
    assert_eq!(pick_key_from_hotkey_id(14), Some(PickKey::Digit(5)));
    assert_eq!(pick_key_from_hotkey_id(1), None);
    assert!(!moved_enough(100, 100, 106, 94));
    assert!(moved_enough(100, 100, 107, 100));
    assert!(moved_enough(100, 100, 100, 93));
    assert!(moved_enough(i32::MIN, 0, i32::MAX, 0));
}

#[test]
fn menu_and_modifier_flags() {
    assert_eq!(lang_from_cmd(20), Some(Language::Ru));
    assert_eq!(lang_from_cmd(21), Some(Language::En));
    assert_eq!(lang_from_cmd(19), None);
    assert_eq!(lang_from_cmd(22), None);
    assert_eq!(mac_mods((1 << 18) | (1 << 20)), (true, false, false, true));
    assert_eq!(mac_mods(1 << 17), (false, false, true, false));
    assert_eq!(mac_mods(1 << 19), (false, true, false, false));
}

#[test]
fn dialog_geometry() {
    let client = Rect { left: 2, top: 2, right: 558, bottom: 278 };
    let (save, cancel) = bind_button_rects(client);
    assert_eq!(save, Rect { left: 96, top: 216, right: 272, bottom: 256 });
    assert_eq!(cancel, Rect { left: 288, top: 216, right: 464, bottom: 256 });
    assert!(rect_contains(save, 96, 216));
    assert!(!rect_contains(save, 272, 216));
    assert_eq!(about_github_button(client), save);
    assert_eq!(about_close_button(client), cancel);
    assert_eq!(about_link_rect(client), Rect { left: 30, top: 176, right: 530, bottom: 198 });
    assert_eq!(about_license_rect(client), Rect { left: 30, top: 154, right: 530, bottom: 174 });
    let odd = Rect { left: -5, top: 0, right: 0, bottom: 100 };
    assert_eq!(bind_button_rects(odd).0.left, -2 - 176 - 8);
}

#[test]
fn monitors_and_popups() {
    let areas = [
        Area { x: 0, y: 0, w: 1920, h: 1080 },
        Area { x: 1920, y: 0, w: 1280, h: 1024 },
    ];
    assert_eq!(monitor_at(&areas, 2000, 10), Some(1));
    assert_eq!(monitor_at(&areas, 5000, 10), Some(0));
    assert_eq!(monitor_at(&[], 0, 0), None);
    assert_eq!(popup_origin(&areas, Some((2000, 10)), 560, 280), (1920 + 360, 372));
    assert_eq!(popup_origin(&areas, None, 560, 280), (680, 400));
    assert_eq!(popup_origin(&[], None, 560, 280), (0, 0));
    let small = [Area { x: 0, y: 0, w: 100, h: 100 }];
    assert_eq!(popup_origin(&small, None, 560, 280), (-230, -90));
}

#[test]
fn capture_freezes_until_released() {
    let mut cap = BindCapture::new();
    assert_eq!(cap.on_key(37, 4), BindStep::Ignored);
    let step = cap.on_key(56, 4 | 8);
    assert_eq!(step, BindStep::Captured(Hotkey::default()));
    assert_eq!(cap.preview, "Ctrl+Alt+B");
    assert!(cap.locked);
    assert_eq!(cap.on_key(24, 4), BindStep::Ignored);
    assert_eq!(cap.draft, Some(Hotkey::default()));
    cap.on_release(56);
    cap.on_release(24);
    assert!(cap.locked);
    cap.on_release(37);
    assert!(!cap.locked);
    assert_eq!(cap.on_key(10, 0), BindStep::Cleared);
    assert_eq!(cap.draft, None);
    assert_eq!(cap.preview, "");
    let h = Hotkey::new(false, false, true, false, Key::Char('1')).unwrap();
    assert_eq!(cap.on_key(10, 1), BindStep::Captured(h));
    assert_eq!(cap.on_key(36, 1), BindStep::Finish(Some(h)));
    assert_eq!(cap.on_key(9, 0), BindStep::Finish(None));
}

#[test]
fn capture_buttons() {
    let mut cap = BindCapture::new();
    assert_eq!(cap.on_click(100, 220), BindStep::Ignored);
    assert_eq!(cap.on_click(300, 220), BindStep::Finish(None));
    cap.on_key(56, 4);
    assert_eq!(
        cap.on_click(100, 220),
        BindStep::Finish(Hotkey::new(true, false, false, false, Key::Char('B')))
    );
    assert_eq!(cap.on_click(10, 10), BindStep::Ignored);
}

#[test]
fn candidate_surface_frames_and_keeps_clicks() {
    assert_eq!(candidate_border(96), 8);
    assert_eq!(candidate_border(72), 8);
    assert_eq!(candidate_border(192), 16);
    assert_eq!(candidate_border(144), 12);
    let (w, h) = (30usize, 20usize);
    let s = candidate_surface(w as i32, h as i32, 96);
    assert_eq!(s.len(), w * h);
    let at = |x: usize, y: usize| s[y * w + x];
    assert_eq!(at(0, 0), 0xFF3D_DC97);
    assert_eq!(at(7, 10), 0xFF3D_DC97);
    assert_eq!(at(8, 8), 0x0100_0000);
    assert_eq!(at(21, 11), 0x0100_0000);
    assert_eq!(at(22, 11), 0xFF3D_DC97);
    assert_eq!(at(21, 12), 0xFF3D_DC97);
    assert!(s.iter().all(|&p| p >> 24 >= 1));
    // a surface thinner than two frames is all frame
    assert!(candidate_surface(10, 5, 96).iter().all(|&p| p == 0xFF3D_DC97));
}

#[test]
fn dialog_rows_stack_from_the_top() {
    let inset = dialog_inset(Rect { left: 0, top: 0, right: 520, bottom: 360 });
    assert_eq!(inset, Rect { left: 2, top: 2, right: 518, bottom: 358 });
    let (head, text, err) = wipe_rows(inset);
    assert_eq!(head, Rect { left: 30, top: 20, right: 490, bottom: 56 });
    assert_eq!(text, Rect { left: 30, top: 64, right: 490, bottom: 268 });
    assert_eq!(err, Rect { left: 30, top: 270, right: 490, bottom: 290 });
    let rows = about_rows(inset);
    assert_eq!(rows[0], Rect { left: 30, top: 24, right: 490, bottom: 64 });
    assert_eq!(rows[1], Rect { left: 30, top: 72, right: 490, bottom: 98 });
    assert_eq!(rows[2], Rect { left: 30, top: 98, right: 490, bottom: 124 });
    assert_eq!(rows[3], Rect { left: 30, top: 120, right: 490, bottom: 138 });
    assert_eq!(rows[4], Rect { left: 30, top: 138, right: 490, bottom: 156 });
}

#[test]
fn pick_key_tables() {
    let win = win_pick_keys();
    assert_eq!(win.len(), 13);
    assert_eq!(win[0], (2, 0x1B));
    assert_eq!(win[3], (5, 0x27));
    assert_eq!(win[4], (10, 0x31));
    assert_eq!(win[12], (18, 0x39));
    for (id, _) in &win {
        assert!(pick_key_from_hotkey_id(*id).is_some());
    }
    let mac = mac_pick_keys();
    assert_eq!(mac.len(), 13);
    assert_eq!(mac[8], (14, 0x17));
    for (i, (id, _)) in mac.iter().enumerate() {
        assert_eq!(*id as i32, win[i].0);
    }
}

#[test]
fn layout_near_the_i32_limits() {
    // side edges summing to i32::MAX, bottom just high enough for the buttons
    let client = Rect { left: i32::MAX - 1000, top: 0, right: 1000, bottom: i32::MIN + 62 };
    let (save, cancel) = bind_button_rects(client);
    let mid = i32::MAX / 2;
    assert_eq!(save, Rect { left: mid - 184, top: i32::MIN, right: mid - 8, bottom: i32::MIN + 40 });
    assert_eq!(cancel, Rect { left: mid + 8, top: i32::MIN, right: mid + 184, bottom: i32::MIN + 40 });
    assert_eq!(cancel.left - save.right, 16);
    let inset = dialog_inset(Rect { left: i32::MAX - 2, top: i32::MAX - 2, right: i32::MIN + 2, bottom: i32::MIN + 2 });
    assert_eq!(inset, Rect { left: i32::MAX, top: i32::MAX, right: i32::MIN, bottom: i32::MIN });
    let rows = about_rows(Rect { left: 0, top: i32::MAX - 154, right: 100, bottom: 0 });
    assert_eq!(rows[4].bottom, i32::MAX);
    let (_, text, _) = wipe_rows(Rect { left: 0, top: i32::MAX - 62, right: 100, bottom: i32::MIN + 90 });
    assert_eq!((text.top, text.bottom), (i32::MAX, i32::MIN));
    let link = about_link_rect(Rect { left: 0, top: 0, right: 100, bottom: i32::MIN + 102 });
    assert_eq!(link.top, i32::MIN);
    let license = about_license_rect(Rect { left: 0, top: 0, right: 100, bottom: i32::MIN + 124 });
    assert_eq!(license.top, i32::MIN);
}
