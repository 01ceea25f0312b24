use blackout::autostart::{same_program, unquote};
use blackout::config::env_absolute;
use blackout::hotkey::{Hotkey, Key};
use blackout::i18n::{parse_tag, Language};
use blackout::os::Os;

#[test]
fn unquote_strips_quotes() {
    assert_eq!(
        unquote(r#""C:\Apps\blackout.exe""#),
        r"C:\Apps\blackout.exe"
    );
    assert_eq!(unquote("  /opt/blackout  "), "/opt/blackout");
}

#[test]
fn same_program_quoted() {
    let ours = "/opt/blackout";
    assert!(same_program("\"/opt/blackout\"", ours, Os::Linux));
    assert!(!same_program("/opt/other", ours, Os::Linux));
}

#[test]
fn same_program_windows_slash_case() {
    let ours = r"C:\Apps\blackout.exe";
    assert!(same_program(r#""C:\Apps\blackout.exe""#, ours, Os::Windows));
    assert!(same_program(r"C:/Apps/blackout.exe", ours, Os::Windows));
    assert!(!same_program(r#""C:\Other\blackout.exe""#, ours, Os::Windows));
}

#[test]
fn env_absolute_rejects_relative() {
    assert!(env_absolute(Some("not/absolute"), Os::Linux).is_none());
}

#[test]
fn env_absolute_keeps_abs() {
    assert_eq!(
        env_absolute(Some("/home/alex"), Os::Linux).as_deref(),
        Some("/home/alex")
    );
    assert_eq!(
        env_absolute(Some(r"C:\Users\Alex"), Os::Windows).as_deref(),
        Some(r"C:\Users\Alex")
    );
}

#[test]
fn default_roundtrip() {
    let hk = Hotkey::default();
    assert_eq!(hk.to_string(), "Ctrl+Alt+B");
    assert_eq!(hk.to_string().parse::<Hotkey>().unwrap(), hk);
}

#[test]
fn parse_aliases() {
    let hk: Hotkey = "Control+Option+Shift+F9".parse().unwrap();
    assert!(hk.ctrl && hk.alt && hk.shift && !hk.meta);
    assert_eq!(hk.key, Key::F(9));
    let hk: Hotkey = "cmd+space".parse().unwrap();
    assert!(hk.meta && matches!(hk.key, Key::Space));
}

#[test]
fn reject_bare_key() {
    assert!("B".parse::<Hotkey>().is_err());
}

#[test]
fn parse_ru_en_only() {
    assert_eq!(parse_tag("ru_RU.UTF-8"), Some(Language::Ru));
    assert_eq!(parse_tag("en-US"), Some(Language::En));
    assert_eq!(parse_tag("en"), Some(Language::En));
    assert_eq!(parse_tag("de_DE"), None);
    assert_eq!(parse_tag("C"), None);
    assert_eq!(Language::from_id("EN"), Some(Language::En));
    assert_eq!(Language::from_id("de"), None);
}
