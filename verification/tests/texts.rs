use blackout::about::{AUTHOR, LICENSE, NAME};
use blackout::i18n::{from_env, from_tags, meta_token, Language};
use blackout::os::Os;
use blackout::purge::dialog_body;

fn s(v: &str) -> String {
    v.to_string()
}

#[test]
fn ids_and_endonyms() {
    assert_eq!(Language::Ru.id(), "ru");
    assert_eq!(Language::En.id(), "en");
    assert_eq!(Language::Ru.endonym(), "Русский");
    assert_eq!(Language::En.endonym(), "English");
    assert_eq!(Language::from_id("  Ru "), Some(Language::Ru));
    assert_eq!(Language::default(), Language::Ru);
}

#[test]
fn os_language_order() {
    assert_eq!(Language::from_os(&[], &[]), Language::Ru);
    assert_eq!(Language::from_os(&[s("de-DE"), s("en-GB")], &[Some(s("ru_RU.UTF-8"))]), Language::En);
    assert_eq!(
        Language::from_os(&[], &[None, Some(s("C")), Some(s("de:ru_RU")), Some(s("en_US"))]),
        Language::Ru
    );
    assert_eq!(Language::from_os(&[], &[Some(s("POSIX")), None, None, Some(s("fr_FR"))]), Language::Ru);
    assert_eq!(from_tags(&[s("'en'")]), Some(Language::En));
    assert_eq!(from_env(&[None, Some(s(" \"ru\" "))]), Some(Language::Ru));
    assert_eq!(from_env(&[Some(s("de::fr"))]), None);
}

#[test]
fn catalogue_entries() {
    let en = Language::En.tr();
    assert_eq!(en.enable, "Enable");
    assert_eq!(en.frost, "Frosted glass");
    assert_eq!(Language::Ru.tr().quit, "Выход");
    assert_eq!(Language::En.toggle(true), "Enable");
    assert_eq!(Language::Ru.toggle(false), "Выключить");
    assert_eq!(Language::En.toggle_tab(false, "Ctrl+Alt+B"), "Disable\tCtrl+Alt+B");
}

#[test]
fn fill_ins() {
    assert_eq!(Language::En.hotkey_item("Ctrl+B", true), "Hotkey: Ctrl+B…");
    assert_eq!(Language::Ru.hotkey_item("Ctrl+B", false), "Хоткей: Ctrl+B (занят)…");
    assert_eq!(Language::En.hotkey_saved("Alt+X"), "Shortcut saved: Alt+X");
    assert_eq!(Language::En.hotkey_busy_retry("Alt+X"), "Alt+X is already in use. Try another one.");
    assert_eq!(
        Language::En.hotkey_busy_startup("Alt+X"),
        "Alt+X is already in use. Assign another shortcut via Tray → Settings → Hotkey"
    );
    assert_eq!(
        Language::En.x11_busy_startup("Alt+X"),
        "blackout: Alt+X is taken. Press a new shortcut in the window that opened."
    );
    assert_eq!(Language::En.x11_saved("Alt+X"), "blackout: shortcut saved: Alt+X");
    assert_eq!(
        Language::En.x11_busy_keep("Alt+X", "Ctrl+Alt+B"),
        "blackout: Alt+X is taken, keeping Ctrl+Alt+B"
    );
    assert_eq!(
        Language::En.x11_ready("Ctrl+Alt+B", "/home/a/.config/blackout/config.toml"),
        "Blackout (X11): Ctrl+Alt+B, overlays ready. Change: right-click the veil or the hotkey in /home/a/.config/blackout/config.toml"
    );
    assert_eq!(
        Language::En.x11_bind_hint("Ctrl+Q"),
        "blackout: Ctrl+Q  — Enter or click “Save”"
    );
    assert_eq!(Language::En.version_line("1.2.3"), "Version 1.2.3");
    assert_eq!(Language::Ru.author_line("Alex Shink"), "Автор Alex Shink");
    assert_eq!(Language::En.license_line("MIT"), "License MIT");
    assert_eq!(
        Language::En.credit_lines(),
        ["made with", "natural and artificial intelligence"]
    );
}

#[test]
fn meta_word_per_os() {
    assert_eq!(meta_token(Os::Windows), "Win");
    assert_eq!(meta_token(Os::MacOs), "Cmd");
    assert_eq!(meta_token(Os::Linux), "Super");
    assert_eq!(Language::En.bind_need_mod(Os::MacOs), "Needs Ctrl / Alt / Shift / Cmd");
    assert_eq!(
        Language::Ru.bind_hint(Os::Windows),
        "Нажмите новую комбинацию\nНужен Ctrl / Alt / Shift / Win"
    );
}

#[test]
fn wipe_dialog_text() {
    let ok = dialog_body(Language::En, &Ok(s("/home/a/.config/blackout/config.toml")));
    assert!(ok.contains("Config: /home/a/.config/blackout/config.toml"));
    assert!(ok.starts_with("Blackout will be removed from startup."));
    assert!(!ok.contains("{config}"));
    let err = dialog_body(Language::Ru, &Err(s("нет профиля HOME")));
    assert!(err.contains("Конфиг: профиль ОС недоступен."));
    assert_eq!(
        err,
        "Blackout будет исключена из автозагрузки, также\nбудет удален конфиг и пустая папка blackout.\nПрограмма будет закрыта.\n\nКонфиг: профиль ОС недоступен.\n\nПосле этого просто удалите файл программы."
    );
}

#[test]
fn about_lines_name_the_author_and_licence() {
    assert_eq!(NAME, "Blackout");
    assert_eq!(Language::En.author_line(AUTHOR), "Author Alex Shink");
    assert_eq!(Language::Ru.author_line(AUTHOR), "Автор Alex Shink");
    assert_eq!(Language::En.license_line(LICENSE), "License MIT");
    assert_eq!(Language::Ru.license_line(LICENSE), "Лицензия MIT");
}
