use blackout::i18n::Language;
use blackout::menu::Command;
use blackout::ui::Rect;
use blackout::winmsg::{
    about_click, about_key, buttons_click, command_id, command_of, lparam_point, tray_event,
    wipe_key, DialogStep, TrayEvent,
};

#[test]
fn lparam_points_are_signed_words() {
    assert_eq!(lparam_point(0x0010_0020), (32, 16));
    assert_eq!(lparam_point(0xFFFF_FFFE_isize), (-2, -1));
    assert_eq!(lparam_point(-2), (-2, -1));
    assert_eq!(lparam_point(0x7FFF_8000), (-32768, 32767));
}

#[test]
fn tray_events() {
    assert_eq!(tray_event(0x400), TrayEvent::Toggle);
    assert_eq!(tray_event(0x401), TrayEvent::Toggle);
    assert_eq!(tray_event(0x202), TrayEvent::Toggle);
    assert_eq!(tray_event(0x203), TrayEvent::Toggle);
    assert_eq!(tray_event(0x0001_0205), TrayEvent::Menu);
    assert_eq!(tray_event(0x7B), TrayEvent::Menu);
    assert_eq!(tray_event(0x200), TrayEvent::Ignore);
}

#[test]
fn command_ids_read_back() {
    let all = [
        Command::Toggle,
        Command::Quit,
        Command::Solid,
        Command::Frost,
        Command::Hotkey,
        Command::Autostart,
        Command::Wipe,
        Command::Tint,
        Command::About,
        Command::Lang(Language::Ru),
        Command::Lang(Language::En),
    ];
    for c in all {
        assert_eq!(command_of(command_id(c)), Some(c));
    }
    assert_eq!(command_id(Command::Lang(Language::En)), 21);
    assert_eq!(command_of(0), None);
    assert_eq!(command_of(10), None);
    assert_eq!(command_of(22), None);
}

#[test]
fn dialog_keys_and_clicks() {
    assert_eq!(wipe_key(0x1B), DialogStep::Cancel);
    assert_eq!(wipe_key(0x0D), DialogStep::Confirm);
    assert_eq!(wipe_key(0x41), DialogStep::Nothing);
    assert_eq!(about_key(0x0D), DialogStep::Cancel);
    assert_eq!(about_key(0x1B), DialogStep::Cancel);
    assert_eq!(about_key(0x20), DialogStep::Nothing);
    let client = Rect { left: 0, top: 0, right: 400, bottom: 240 };
    assert_eq!(buttons_click(client, 100, 190), DialogStep::Confirm);
    assert_eq!(buttons_click(client, 300, 190), DialogStep::Cancel);
    assert_eq!(buttons_click(client, 200, 190), DialogStep::Nothing);
    assert_eq!(buttons_click(client, 100, 100), DialogStep::Nothing);
    assert_eq!(about_click(client, 100, 140), DialogStep::OpenGithub);
    assert_eq!(about_click(client, 100, 190), DialogStep::OpenGithub);
    assert_eq!(about_click(client, 300, 190), DialogStep::Cancel);
    assert_eq!(about_click(client, 100, 170), DialogStep::Nothing);
}
