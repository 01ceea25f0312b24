//! The tray menu (Windows) and status-bar menu (macOS) as a flat list of
//! lines: toggle, the Style submenu, the Settings submenu (hotkey,
//! autostart, Language, wipe), About and Quit.
use crate::config::Style;
use crate::i18n::{catalog, fill_hk, Language};
use crate::os::Os;
use crate::text::owned;
use vstd::prelude::*;

verus! {

/// What a menu line does when chosen.
#[derive(Clone, Copy, Debug, PartialEq, Eq, Structural)]
pub enum Command {
    Toggle,
    Solid,
    Tint,
    Frost,
    Hotkey,
    Autostart,
    Lang(Language),
    Wipe,
    About,
    Quit,
}

/// A line: a command (with its check mark, where it shows one), the title
/// of a submenu holding the deeper lines that follow, or a separator.
#[derive(Clone, Copy, Debug, PartialEq, Eq, Structural)]
pub enum LineKind {
    Command(Command, Option<bool>),
    Submenu,
    Separator,
}

pub struct MenuLine {
    /// 0 for the menu itself, 1 inside a submenu, 2 inside a submenu of it.
    pub depth: u8,
    /// The title; empty for a separator.
    pub label: String,
    pub kind: LineKind,
}

pub open spec fn line(depth: u8, label: Seq<char>, kind: LineKind) -> (u8, Seq<char>, LineKind) {
    (depth, label, kind)
}

pub open spec fn lines_view(v: Seq<MenuLine>) -> Seq<(u8, Seq<char>, LineKind)> {
    Seq::new(v.len(), |i: int| (v[i].depth, v[i].label@, v[i].kind))
}

/// The menu for the resolved language `lang`, the mode (`idle`), the veil
/// style, the hotkey's text, whether it is registered, and whether autostart
/// is on. Windows shows the hotkey after a tab beside the toggle and a
/// separator above Quit; the macOS menu does neither.
pub open spec fn menu_spec(
    os: Os,
    lang: Language,
    idle: bool,
    style: Style,
    hk: Seq<char>,
    hotkey_ok: bool,
    autostart_on: bool,
) -> Seq<(u8, Seq<char>, LineKind)> {
    let t = catalog(lang);
    let on_off = if idle {
        t.enable@
    } else {
        t.disable@
    };
    let toggle = if os == Os::Windows {
        on_off + seq!['\t'] + hk
    } else {
        on_off
    };
    let hotkey = fill_hk(
        if hotkey_ok {
            t.hotkey_ok_fmt
        } else {
            t.hotkey_busy_fmt
        },
        hk,
    );
    let head = seq![
        line(0, toggle, LineKind::Command(Command::Toggle, None)),
        line(0, t.style@, LineKind::Submenu),
        line(1, t.solid@, LineKind::Command(Command::Solid, Some(style == Style::Solid))),
        line(1, t.tint@, LineKind::Command(Command::Tint, Some(style == Style::Tint))),
        line(1, t.frost@, LineKind::Command(Command::Frost, Some(style == Style::Frost))),
        line(0, t.settings@, LineKind::Submenu),
        line(1, hotkey, LineKind::Command(Command::Hotkey, None)),
        line(1, t.autostart@, LineKind::Command(Command::Autostart, Some(autostart_on))),
        line(1, t.language@, LineKind::Submenu),
        line(2, "Русский"@, LineKind::Command(Command::Lang(Language::Ru), Some(lang == Language::Ru))),
        line(2, "English"@, LineKind::Command(Command::Lang(Language::En), Some(lang == Language::En))),
        line(1, Seq::empty(), LineKind::Separator),
        line(1, t.wipe@, LineKind::Command(Command::Wipe, None)),
        line(0, t.about@, LineKind::Command(Command::About, None)),
    ];
    let quit = line(0, t.quit@, LineKind::Command(Command::Quit, None));
    if os == Os::Windows {
        head + seq![line(0, Seq::empty(), LineKind::Separator), quit]
    } else {
        head.push(quit)
    }
}

fn push_line(out: &mut Vec<MenuLine>, depth: u8, label: String, kind: LineKind)
    ensures
        lines_view(final(out)@) == lines_view(old(out)@).push(line(depth, label@, kind)),
{
    out.push(MenuLine { depth, label, kind });
    assert(lines_view(final(out)@) =~= lines_view(old(out)@).push(line(depth, label@, kind)));
}

/// The menu, line by line (see `menu_spec`).
pub fn tray_menu(
    os: Os,
    lang: Language,
    idle: bool,
    style: Style,
    hk: &str,
    hotkey_ok: bool,
    autostart_on: bool,
) -> (r: Vec<MenuLine>)
    ensures
        lines_view(r@) == menu_spec(os, lang, idle, style, hk@, hotkey_ok, autostart_on),
{
    let t = lang.tr();
    let is_windows = match os {
        Os::Windows => true,
        _ => false,
    };
    let mut out: Vec<MenuLine> = Vec::new();
    let toggle = if is_windows {
        lang.toggle_tab(idle, hk)
    } else {
        owned(lang.toggle(idle))
    };
    push_line(&mut out, 0, toggle, LineKind::Command(Command::Toggle, None));
    push_line(&mut out, 0, owned(t.style), LineKind::Submenu);
    let solid = match style {
        Style::Solid => true,
        _ => false,
    };
    let tint = match style {
        Style::Tint => true,
        _ => false,
    };
    let frost = match style {
        Style::Frost => true,
        _ => false,
    };
    push_line(&mut out, 1, owned(t.solid), LineKind::Command(Command::Solid, Some(solid)));
    push_line(&mut out, 1, owned(t.tint), LineKind::Command(Command::Tint, Some(tint)));
    push_line(&mut out, 1, owned(t.frost), LineKind::Command(Command::Frost, Some(frost)));
    push_line(&mut out, 0, owned(t.settings), LineKind::Submenu);
    push_line(&mut out, 1, lang.hotkey_item(hk, hotkey_ok), LineKind::Command(Command::Hotkey, None));
    push_line(
        &mut out,
        1,
        owned(t.autostart),
        LineKind::Command(Command::Autostart, Some(autostart_on)),
    );
    push_line(&mut out, 1, owned(t.language), LineKind::Submenu);
    let ru = match lang {
        Language::Ru => true,
        _ => false,
    };
    push_line(
        &mut out,
        2,
        owned(Language::Ru.endonym()),
        LineKind::Command(Command::Lang(Language::Ru), Some(ru)),
    );
    push_line(
        &mut out,
        2,
        owned(Language::En.endonym()),
        LineKind::Command(Command::Lang(Language::En), Some(!ru)),
    );
    push_line(&mut out, 1, String::new(), LineKind::Separator);
    push_line(&mut out, 1, owned(t.wipe), LineKind::Command(Command::Wipe, None));
    push_line(&mut out, 0, owned(t.about), LineKind::Command(Command::About, None));
    if is_windows {
        push_line(&mut out, 0, String::new(), LineKind::Separator);
    }
    push_line(&mut out, 0, owned(t.quit), LineKind::Command(Command::Quit, None));
    assert(lines_view(out@) =~= menu_spec(os, lang, idle, style, hk@, hotkey_ok, autostart_on));
    out
}

/// Whether a line shows a check mark that is on.
pub open spec fn checked(k: LineKind) -> bool {
    k matches LineKind::Command(_, Some(true))
}

/// The menu checks exactly one style, the current one, and exactly one
/// language, the resolved one.
pub proof fn lemma_one_check_each(
    os: Os,
    lang: Language,
    idle: bool,
    style: Style,
    hk: Seq<char>,
    hotkey_ok: bool,
    autostart_on: bool,
)
    ensures
        ({
            let m = menu_spec(os, lang, idle, style, hk, hotkey_ok, autostart_on);
            &&& checked(m[2].2) == (style == Style::Solid)
            &&& checked(m[3].2) == (style == Style::Tint)
            &&& checked(m[4].2) == (style == Style::Frost)
            &&& (if checked(m[2].2) { 1int } else { 0 }) + (if checked(m[3].2) { 1int } else { 0 }) + (
            if checked(m[4].2) { 1int } else { 0 }) == 1
            &&& checked(m[9].2) == (lang == Language::Ru)
            &&& checked(m[10].2) == (lang == Language::En)
            &&& checked(m[9].2) != checked(m[10].2)
        }),
{
}

} // verus!
