use blackout::autostart::{
    approved_allows, desktop_entry, desktop_exec, desktop_path, desktop_points_to,
    exec_from_desktop, icon_files, plist_body, plist_path, plist_points_to, run_command,
    run_value_is_ours, same_program, strip_verbatim, unquote_exec, xml_escape, xml_unescape,
};
use blackout::config::{
    absolute, config_path, rewrite_after_load, roaming_appdata, strict_config_path, user_home,
    xdg_config_home, xdg_data_home, Config, Style,
};
use blackout::hotkey::Hotkey;
use blackout::i18n::Language;
use blackout::os::Os;

fn s(v: &str) -> String {
    v.to_string()
}

#[test]
fn config_defaults_and_language() {
    let c = Config::default();
    assert_eq!(c.style, Style::Solid);
    assert_eq!(c.hotkey, Hotkey::default());
    assert_eq!(c.language, None);
    assert_eq!(c.ui_lang(Language::En), Language::En);
    let c = Config { language: Some(Language::Ru), ..c };
    assert_eq!(c.ui_lang(Language::En), Language::Ru);
    assert_eq!(Style::default(), Style::Solid);
}

#[test]
fn rewrite_when_unreadable_or_without_hotkey() {
    assert!(rewrite_after_load(None));
    assert!(rewrite_after_load(Some("style = \"solid\"\n")));
    assert!(!rewrite_after_load(Some("hotkey = \"Ctrl+Alt+B\"\n")));
}

#[test]
fn home_and_xdg() {
    assert_eq!(user_home(Some("/home/a"), Some("/x"), Os::Linux), Ok(s("/home/a")));
    assert_eq!(user_home(Some("rel"), Some("/x"), Os::Linux), Ok(s("/x")));
    assert_eq!(user_home(None, Some("rel"), Os::Linux), Err(s("нет профиля HOME")));
    assert_eq!(xdg_config_home(Some("/xdg"), Err(s("e")), Os::Linux), Ok(s("/xdg")));
    assert_eq!(
        xdg_config_home(Some("rel"), Ok(s("/home/a")), Os::Linux),
        Ok(s("/home/a/.config"))
    );
    assert_eq!(xdg_config_home(None, Ok(s("/home/a/")), Os::Linux), Ok(s("/home/a/.config")));
    assert_eq!(xdg_config_home(None, Err(s("e")), Os::Linux), Err(s("e")));
    assert_eq!(
        xdg_data_home(None, Ok(s("/home/a")), Os::Linux),
        Ok(s("/home/a/.local/share"))
    );
    assert_eq!(
        roaming_appdata(Some(r"C:\Users\A\AppData\Roaming"), None),
        Ok(s(r"C:\Users\A\AppData\Roaming"))
    );
    assert_eq!(roaming_appdata(Some("relative"), Some(r"D:\Data")), Ok(s(r"D:\Data")));
    assert_eq!(roaming_appdata(None, None), Err(s("нет профиля AppData")));
}

#[test]
fn absolute_paths_per_os() {
    assert!(absolute("/a", Os::Linux));
    assert!(!absolute("a/b", Os::Linux));
    assert!(absolute(r"C:\a", Os::Windows));
    assert!(absolute("c:/a", Os::Windows));
    assert!(absolute(r"\\server\share", Os::Windows));
    assert!(!absolute(r"C:a", Os::Windows));
    assert!(!absolute(r"\a", Os::Windows));
}

#[test]
fn config_path_is_absolute_and_ours() {
    assert_eq!(
        strict_config_path(Ok(s("/home/a/.config")), Os::Linux),
        Ok(s("/home/a/.config/blackout/config.toml"))
    );
    assert_eq!(
        strict_config_path(Ok(s("/Users/a")), Os::MacOs),
        Ok(s("/Users/a/Library/Application Support/blackout/config.toml"))
    );
    assert_eq!(
        strict_config_path(Ok(s(r"C:\Users\A\AppData\Roaming")), Os::Windows),
        Ok(s(r"C:\Users\A\AppData\Roaming\blackout\config.toml"))
    );
    assert_eq!(
        strict_config_path(Ok(s("rel")), Os::Linux),
        Err(s("путь конфига не абсолютный"))
    );
    assert_eq!(
        strict_config_path(Ok(s("C:")), Os::Windows),
        Err(s("путь конфига не абсолютный"))
    );
    assert_eq!(strict_config_path(Err(s("нет профиля HOME")), Os::Linux), Err(s("нет профиля HOME")));
    assert_eq!(config_path(Err(s("x")), Os::Linux), "");
    assert_eq!(config_path(Ok(s("/c")), Os::Linux), "/c/blackout/config.toml");
}

#[test]
fn entry_locations() {
    assert_eq!(
        plist_path("/Users/a"),
        "/Users/a/Library/LaunchAgents/local.blackout.plist"
    );
    assert_eq!(desktop_path("/home/a/.config"), "/home/a/.config/autostart/blackout.desktop");
    assert_eq!(
        icon_files("/home/a/.local/share"),
        vec![
            s("/home/a/.local/share/icons/hicolor/32x32/apps/blackout.png"),
            s("/home/a/.local/share/icons/hicolor/48x48/apps/blackout.png"),
            s("/home/a/.local/share/icons/hicolor/256x256/apps/blackout.png"),
        ]
    );
}

#[test]
fn verbatim_and_components() {
    assert_eq!(strip_verbatim(r"\\?\C:\a"), r"C:\a");
    assert_eq!(strip_verbatim("/opt/a"), "/opt/a");
    assert!(same_program("/opt//blackout/", "/opt/blackout", Os::Linux));
    assert!(same_program("/opt/./blackout", "/opt/blackout", Os::Linux));
    assert!(!same_program("opt/blackout", "/opt/blackout", Os::Linux));
    assert!(!same_program("./bo", "bo", Os::Linux));
    assert!(same_program(r#"  "\\?\C:\Apps\BO.exe"  "#, r"c:/apps/bo.EXE", Os::Windows));
}

#[test]
fn desktop_exec_quoting_roundtrip() {
    assert_eq!(desktop_exec("/opt/blackout"), "/opt/blackout");
    assert_eq!(desktop_exec("/opt/my app/bo"), "\"/opt/my app/bo\"");
    assert_eq!(desktop_exec("/a\"b\\c"), "\"/a\\\"b\\\\c\"");
    for p in ["/opt/blackout", "/opt/my app/bo", "/a\"b\\c", "", " lead", "tab\there"] {
        assert_eq!(unquote_exec(&desktop_exec(p)), p);
    }
    assert_eq!(unquote_exec("/usr/bin/bo --flag"), "/usr/bin/bo");
    assert_eq!(unquote_exec("\"/x\\"), "/x");
}

#[test]
fn desktop_entry_is_recognised() {
    let body = desktop_entry("/opt/bo", "/icons/bo.png");
    assert_eq!(
        body,
        "[Desktop Entry]\nType=Application\nName=Blackout\nComment=Cinema blackout for other monitors\nExec=/opt/bo\nIcon=/icons/bo.png\nTerminal=false\nX-GNOME-Autostart-enabled=true\n"
    );
    let p = "/home/a/my apps/blackout";
    let entry = desktop_entry(&desktop_exec(p), "/i.png");
    assert_eq!(exec_from_desktop(&entry), Some(s(p)));
    assert!(desktop_points_to(&entry, p));
    assert!(!desktop_points_to(&entry, "/usr/bin/blackout"));
    assert_eq!(
        exec_from_desktop("[Desktop Entry]\n  Exec=\"/x y/z\" %U\r\nIcon=a"),
        Some(s("/x y/z"))
    );
    assert_eq!(exec_from_desktop("Name=x\n"), None);
    assert!(!desktop_points_to("Name=x\n", "/x"));
}

#[test]
fn run_value_and_approval() {
    let cmd = run_command(r"C:\a b\bo.exe");
    assert_eq!(cmd, r#""C:\a b\bo.exe""#);
    assert!(run_value_is_ours(Some(&cmd), r"C:\A B\BO.EXE"));
    assert!(!run_value_is_ours(Some(&cmd), r"C:\other\bo.exe"));
    assert!(!run_value_is_ours(None, r"C:\a b\bo.exe"));
    assert!(approved_allows(None));
    assert!(approved_allows(Some(2)));
    assert!(!approved_allows(Some(3)));
}

#[test]
fn launch_agent() {
    assert_eq!(xml_escape("a&b<c>\"d"), "a&amp;b&lt;c&gt;&quot;d");
    assert_eq!(xml_unescape("a&amp;b&lt;c&gt;&quot;d"), "a&b<c>\"d");
    assert_eq!(xml_unescape("&amp;lt;"), "&lt;");
    let p = "/Apps/B&B <1>/bo";
    let body = plist_body(p);
    assert!(body.contains("<string>/Apps/B&amp;B &lt;1&gt;/bo</string>"));
    assert!(body.contains("<key>RunAtLoad</key>"));
    assert!(plist_points_to(&body, p));
    assert!(!plist_points_to(&body, "/Apps/other"));
    assert!(!plist_points_to("<plist></plist>", p));
    assert!(!plist_points_to(
        "<key>ProgramArguments</key><array><string>/x",
        "/x"
    ));
}
