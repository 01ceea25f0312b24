use blackout::config::Style;
use blackout::i18n::Language;
use blackout::menu::{tray_menu, Command, LineKind, MenuLine};
use blackout::os::Os;

fn flat(lines: &[MenuLine]) -> Vec<(u8, &str, LineKind)> {
    lines.iter().map(|l| (l.depth, l.label.as_str(), l.kind)).collect()
}

#[test]
fn windows_menu_in_english() {
    let m = tray_menu(Os::Windows, Language::En, true, Style::Tint, "Ctrl+Alt+B", false, true);
    assert_eq!(
        flat(&m),
        vec![
            (0, "Enable\tCtrl+Alt+B", LineKind::Command(Command::Toggle, None)),
            (0, "Style", LineKind::Submenu),
            (1, "Black", LineKind::Command(Command::Solid, Some(false))),
            (1, "Tint", LineKind::Command(Command::Tint, Some(true))),
            (1, "Frosted glass", LineKind::Command(Command::Frost, Some(false))),
            (0, "Settings", LineKind::Submenu),
            (1, "Hotkey: Ctrl+Alt+B (in use)…", LineKind::Command(Command::Hotkey, None)),
            (1, "Start at login", LineKind::Command(Command::Autostart, Some(true))),
            (1, "Language", LineKind::Submenu),
            (2, "Русский", LineKind::Command(Command::Lang(Language::Ru), Some(false))),
            (2, "English", LineKind::Command(Command::Lang(Language::En), Some(true))),
            (1, "", LineKind::Separator),
            (1, "Delete data…", LineKind::Command(Command::Wipe, None)),
            (0, "About", LineKind::Command(Command::About, None)),
            (0, "", LineKind::Separator),
            (0, "Quit", LineKind::Command(Command::Quit, None)),
        ]
    );
}

#[test]
fn mac_menu_in_russian() {
    let m = tray_menu(Os::MacOs, Language::Ru, false, Style::Solid, "Ctrl+Alt+B", true, false);
    let f = flat(&m);
    assert_eq!(f.len(), 15);
    assert_eq!(f[0], (0, "Выключить", LineKind::Command(Command::Toggle, None)));
    assert_eq!(f[2], (1, "Чёрный", LineKind::Command(Command::Solid, Some(true))));
    assert_eq!(f[6], (1, "Хоткей: Ctrl+Alt+B…", LineKind::Command(Command::Hotkey, None)));
    assert_eq!(f[7], (1, "Автозагрузка", LineKind::Command(Command::Autostart, Some(false))));
    assert_eq!(f[9], (2, "Русский", LineKind::Command(Command::Lang(Language::Ru), Some(true))));
    assert_eq!(f[13], (0, "О программе", LineKind::Command(Command::About, None)));
    assert_eq!(f[14], (0, "Выход", LineKind::Command(Command::Quit, None)));
}
