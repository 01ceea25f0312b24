use blackout::hotkey::{
    format_combo, hotkey_from_x11, key_from_common_x11, key_from_mac_vk, key_from_win_vk, Hotkey,
    Key,
};

fn hk(ctrl: bool, alt: bool, shift: bool, meta: bool, key: Key) -> Hotkey {
    Hotkey::new(ctrl, alt, shift, meta, key).unwrap()
}

#[test]
fn new_needs_a_modifier() {
    assert!(Hotkey::new(false, false, false, false, Key::Space).is_none());
    let h = Hotkey::new(false, false, true, false, Key::Space).unwrap();
    assert!(h.has_modifier());
}

#[test]
fn text_form_orders_modifiers() {
    assert_eq!(hk(true, true, true, true, Key::Char('a')).to_string(), "Ctrl+Alt+Shift+Super+A");
    assert_eq!(hk(true, false, false, false, Key::F(12)).to_string(), "Ctrl+F12");
    assert_eq!(hk(false, false, false, true, Key::Space).to_string(), "Super+Space");
    assert_eq!(format_combo(false, false, false, false, None), "");
    assert_eq!(format_combo(true, false, false, true, None), "Ctrl+Super");
    assert_eq!(format_combo(false, true, false, false, Some(Key::F(1))), "Alt+F1");
}

#[test]
fn text_roundtrip_for_many_combos() {
    let keys = [Key::Char('A'), Key::Char('Z'), Key::Char('0'), Key::F(1), Key::F(10), Key::Space];
    for bits in 1u8..16 {
        for key in keys {
            let h = hk(bits & 1 != 0, bits & 2 != 0, bits & 4 != 0, bits & 8 != 0, key);
            assert_eq!(Hotkey::parse(&h.to_string()), Ok(h));
        }
    }
}

#[test]
fn parse_trims_and_skips_blank_tokens() {
    assert_eq!(Hotkey::parse(" ctrl + + b "), Ok(hk(true, false, false, false, Key::Char('B'))));
    assert_eq!(Hotkey::parse("OPT+f09"), Ok(hk(false, true, false, false, Key::F(9))));
    assert_eq!(Hotkey::parse("meta+F+9"), Ok(hk(false, false, false, true, Key::Char('9'))));
    assert_eq!(Hotkey::parse("Windows+ControlKey+x"), Ok(hk(true, false, false, true, Key::Char('X'))));
}

#[test]
fn parse_errors_name_the_token() {
    assert_eq!(Hotkey::parse("Ctrl+F13"), Err("unsupported key F13".to_string()));
    assert_eq!(Hotkey::parse("Ctrl+F300"), Err("unknown key F300".to_string()));
    assert_eq!(Hotkey::parse("Ctrl+Foo"), Err("unknown key Foo".to_string()));
    assert_eq!(Hotkey::parse("Ctrl+!"), Err("unsupported key !".to_string()));
    assert_eq!(Hotkey::parse("Ctrl+Bar"), Err("unknown token Bar".to_string()));
    assert_eq!(Hotkey::parse("Ctrl+Alt"), Err("hotkey needs a key".to_string()));
    assert_eq!(
        Hotkey::parse("B"),
        Err("hotkey needs a modifier (Ctrl, Alt, Shift or Super)".to_string())
    );
    assert_eq!(Hotkey::parse(""), Err("hotkey needs a key".to_string()));
}

#[test]
fn windows_codes() {
    let h = Hotkey::default();
    assert_eq!(h.win_mods(), 0x4003);
    assert_eq!(hk(false, false, true, true, Key::Space).win_mods(), 0x400C);
    assert_eq!(hk(true, false, false, false, Key::Char('b')).win_vk(), 0x42);
    assert_eq!(hk(true, false, false, false, Key::F(9)).win_vk(), 0x78);
    assert_eq!(hk(true, false, false, false, Key::F(0)).win_vk(), 0x70);
    assert_eq!(hk(true, false, false, false, Key::Space).win_vk(), 0x20);
    assert_eq!(key_from_win_vk(0x42), Some(Key::Char('B')));
    assert_eq!(key_from_win_vk(0x35), Some(Key::Char('5')));
    assert_eq!(key_from_win_vk(0x7B), Some(Key::F(12)));
    assert_eq!(key_from_win_vk(0x20), Some(Key::Space));
    assert_eq!(key_from_win_vk(0x2F), None);
}

#[test]
fn mac_codes() {
    assert_eq!(Hotkey::default().mac_vk(), Some(0x0B));
    assert_eq!(hk(true, false, false, false, Key::Char('m')).mac_vk(), Some(0x2E));
    assert_eq!(hk(true, false, false, false, Key::F(12)).mac_vk(), Some(0x6F));
    assert_eq!(hk(true, false, false, false, Key::F(13)).mac_vk(), None);
    assert_eq!(hk(true, false, false, false, Key::Char('!')).mac_vk(), None);
    assert_eq!(hk(false, false, true, true, Key::Space).mac_mods(), 0x0300);
    assert_eq!(Hotkey::default().mac_mods(), 0x1800);
    assert_eq!(key_from_mac_vk(0x0B), Some(Key::Char('B')));
    assert_eq!(key_from_mac_vk(0x7A), Some(Key::F(1)));
    assert_eq!(key_from_mac_vk(0x31), Some(Key::Space));
    assert_eq!(key_from_mac_vk(0x18), None);
}

#[test]
fn mac_codes_invert_for_all_keys() {
    for c in ('A'..='Z').chain('0'..='9') {
        let h = hk(true, false, false, false, Key::Char(c));
        let code = h.mac_vk().unwrap();
        assert_eq!(key_from_mac_vk(code as u16), Some(Key::Char(c)));
        assert_eq!(key_from_win_vk(h.win_vk()), Some(Key::Char(c)));
    }
}

#[test]
fn x11_codes() {
    let h = Hotkey::default();
    assert_eq!(h.x11_keysym(), 0x62);
    assert_eq!(hk(true, false, false, false, Key::F(1)).x11_keysym(), 0xFFBE);
    assert_eq!(hk(true, false, false, false, Key::Space).x11_keysym(), 0x20);
    assert_eq!(h.x11_mod_mask(), 12);
    assert_eq!(h.x11_mod_variants(), [12, 14, 28, 30]);
    assert_eq!(hk(false, false, true, true, Key::Space).x11_mod_mask(), 65);
    assert!(h.x11_pressed(56, 56, 12 | 2 | 16));
    assert!(!h.x11_pressed(56, 56, 4));
    assert!(!h.x11_pressed(0, 0, 12));
}

#[test]
fn x11_capture_decoding() {
    assert_eq!(key_from_common_x11(24), Some(Key::Char('Q')));
    assert_eq!(key_from_common_x11(46), Some(Key::Char('L')));
    assert_eq!(key_from_common_x11(47), None);
    assert_eq!(key_from_common_x11(58), Some(Key::Char('M')));
    assert_eq!(hotkey_from_x11(56, 4 | 8), Some(Hotkey::default()));
    assert_eq!(hotkey_from_x11(10, 1), Some(hk(false, false, true, false, Key::Char('1'))));
    assert_eq!(hotkey_from_x11(19, 64), Some(hk(false, false, false, true, Key::Char('0'))));
    assert_eq!(hotkey_from_x11(65, 4), Some(hk(true, false, false, false, Key::Space)));
    assert_eq!(hotkey_from_x11(95, 8), Some(hk(false, true, false, false, Key::F(11))));
    assert_eq!(hotkey_from_x11(67, 8), Some(hk(false, true, false, false, Key::F(1))));
    assert_eq!(hotkey_from_x11(56, 0), None);
    assert_eq!(hotkey_from_x11(47, 4), None);
}
