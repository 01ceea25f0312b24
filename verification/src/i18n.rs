//! UI language: Russian or English, resolved from the config or the OS, and
//! the catalogue of UI strings with their `{hk}` / `{path}` fill-ins.
use crate::os::Os;
use crate::text::{
    chars_eq_str, chars_of, eq_ignore_case, lower_chars, lower_seq, owned,
    push_char, push_str, replace, replace_all, split, split_chars, trim, trim_chars, trim_quote_chars,
    trim_quotes, views, chars_eq_ignore_case,
};
use vstd::prelude::*;

verus! {

#[derive(Clone, Copy, Debug, PartialEq, Eq, Structural)]
pub enum Language {
    Ru,
    En,
}

impl core::default::Default for Language {
    fn default() -> (r: Self)
        ensures
            r == Language::Ru,
    {
        Language::Ru
    }
}

/// The UI strings of one language.
#[derive(Clone, Copy)]
pub struct Tr {
    pub enable: &'static str,
    pub disable: &'static str,
    pub style: &'static str,
    pub solid: &'static str,
    pub tint: &'static str,
    pub frost: &'static str,
    pub settings: &'static str,
    pub language: &'static str,
    pub hotkey_ok_fmt: &'static str,
    pub hotkey_busy_fmt: &'static str,
    pub autostart: &'static str,
    pub wipe: &'static str,
    pub about: &'static str,
    pub quit: &'static str,
    pub bind_prompt: &'static str,
    pub bind_need_mod: &'static str,
    pub bind_title: &'static str,
    pub save_enter: &'static str,
    pub cancel_esc: &'static str,
    pub version: &'static str,
    pub author_fmt: &'static str,
    pub credit_via: &'static str,
    pub credit_minds: &'static str,
    pub license: &'static str,
    pub close_esc: &'static str,
    pub wipe_title: &'static str,
    pub wipe_body: &'static str,
    pub wipe_config_fmt: &'static str,
    pub wipe_config_unavailable: &'static str,
    pub wipe_confirm: &'static str,
    pub wipe_note_title: &'static str,
    pub wipe_failed: &'static str,
    pub hotkey_title: &'static str,
    pub hotkey_busy_title: &'static str,
    pub hotkey_busy_startup: &'static str,
    pub hotkey_busy_retry: &'static str,
    pub hotkey_saved: &'static str,
    pub autostart_failed: &'static str,
    pub wayland: &'static str,
    pub x11_busy_startup: &'static str,
    pub x11_ready: &'static str,
    pub x11_saved: &'static str,
    pub x11_busy_keep: &'static str,
    pub x11_bind_hint: &'static str,
}

/// The catalogue: every UI string of each language.
pub open spec fn catalog(lang: Language) -> Tr {
    match lang {
        Language::Ru => Tr {
            enable: "Включить",
            disable: "Выключить",
            style: "Стиль",
            solid: "Чёрный",
            tint: "Тонировка",
            frost: "Матовое стекло",
            settings: "Настройки",
            language: "Язык",
            hotkey_ok_fmt: "Хоткей: {hk}…",
            hotkey_busy_fmt: "Хоткей: {hk} (занят)…",
            autostart: "Автозагрузка",
            wipe: "Удалить данные…",
            about: "О программе",
            quit: "Выход",
            bind_prompt: "Нажмите новую комбинацию",
            bind_need_mod: "Нужен Ctrl / Alt / Shift / {meta}",
            bind_title: "Хоткей Blackout",
            save_enter: "Сохранить (Enter)",
            cancel_esc: "Отмена (Esc)",
            version: "Версия",
            author_fmt: "Автор {name}",
            credit_via: "сделано с помощью",
            credit_minds: "естественного и искусственного интеллекта",
            license: "Лицензия",
            close_esc: "Закрыть (Esc)",
            wipe_title: "Удалить данные?",
            wipe_body: "Blackout будет исключена из автозагрузки, также\nбудет удален конфиг и пустая папка blackout.\nПрограмма будет закрыта.\n\n{config}\n\nПосле этого просто удалите файл программы.",
            wipe_config_fmt: "Конфиг: {path}",
            wipe_config_unavailable: "Конфиг: профиль ОС недоступен.",
            wipe_confirm: "Удалить (Enter)",
            wipe_note_title: "Удаление данных",
            wipe_failed: "Не удалось удалить данные",
            hotkey_title: "Хоткей",
            hotkey_busy_title: "Хоткей занят",
            hotkey_busy_startup: "{hk} уже используется. Назначьте другую комбинацию через Трей → Настройки → Хоткей",
            hotkey_busy_retry: "{hk} уже используется. Попробуйте другую.",
            hotkey_saved: "Комбинация сохранена: {hk}",
            autostart_failed: "Не удалось изменить автозагрузку",
            wayland: "Wayland без X11 не поддерживается. Войдите в сессию X11 или используйте XWayland.",
            x11_busy_startup: "blackout: {hk} занята. Нажмите новую комбинацию в появившемся окне.",
            x11_ready: "Blackout (X11): {hk}, overlays ready. Смена: ПКМ по пелене или hotkey в {path}",
            x11_saved: "blackout: комбинация сохранена: {hk}",
            x11_busy_keep: "blackout: {hk} занята, остаётся {old}",
            x11_bind_hint: "blackout: {hk}  — Enter или клик «Сохранить»",
        },
        Language::En => Tr {
            enable: "Enable",
            disable: "Disable",
            style: "Style",
            solid: "Black",
            tint: "Tint",
            frost: "Frosted glass",
            settings: "Settings",
            language: "Language",
            hotkey_ok_fmt: "Hotkey: {hk}…",
            hotkey_busy_fmt: "Hotkey: {hk} (in use)…",
            autostart: "Start at login",
            wipe: "Delete data…",
            about: "About",
            quit: "Quit",
            bind_prompt: "Press a new shortcut",
            bind_need_mod: "Needs Ctrl / Alt / Shift / {meta}",
            bind_title: "Blackout hotkey",
            save_enter: "Save (Enter)",
            cancel_esc: "Cancel (Esc)",
            version: "Version",
            author_fmt: "Author {name}",
            credit_via: "made with",
            credit_minds: "natural and artificial intelligence",
            license: "License",
            close_esc: "Close (Esc)",
            wipe_title: "Delete data?",
            wipe_body: "Blackout will be removed from startup. The config\nand the empty blackout folder will also be deleted.\nThe program will close.\n\n{config}\n\nAfter that, just delete the program file.",
            wipe_config_fmt: "Config: {path}",
            wipe_config_unavailable: "Config: OS profile is unavailable.",
            wipe_confirm: "Delete (Enter)",
            wipe_note_title: "Delete data",
            wipe_failed: "Could not delete data",
            hotkey_title: "Hotkey",
            hotkey_busy_title: "Hotkey in use",
            hotkey_busy_startup: "{hk} is already in use. Assign another shortcut via Tray → Settings → Hotkey",
            hotkey_busy_retry: "{hk} is already in use. Try another one.",
            hotkey_saved: "Shortcut saved: {hk}",
            autostart_failed: "Could not change startup",
            wayland: "Wayland without X11 is not supported. Sign in to an X11 session or use XWayland.",
            x11_busy_startup: "blackout: {hk} is taken. Press a new shortcut in the window that opened.",
            x11_ready: "Blackout (X11): {hk}, overlays ready. Change: right-click the veil or the hotkey in {path}",
            x11_saved: "blackout: shortcut saved: {hk}",
            x11_busy_keep: "blackout: {hk} is taken, keeping {old}",
            x11_bind_hint: "blackout: {hk}  — Enter or click “Save”",
        },
    }
}

/// The word for the Win / Cmd / Super modifier on each OS.
pub open spec fn meta_word(os: Os) -> Seq<char> {
    match os {
        Os::Windows => "Win"@,
        Os::MacOs => "Cmd"@,
        Os::Linux => "Super"@,
    }
}

pub fn meta_token(os: Os) -> (r: &'static str)
    ensures
        r@ == meta_word(os),
{
    match os {
        Os::Windows => "Win",
        Os::MacOs => "Cmd",
        Os::Linux => "Super",
    }
}

// ---------------------------------------------------------------------------
// Language tags
// ---------------------------------------------------------------------------
pub open spec fn is_tag_sep(c: char) -> bool {
    c == '_' || c == '-' || c == '.' || c == '@'
}

/// The tag up to its first `_`, `-`, `.` or `@`.
pub open spec fn primary(s: Seq<char>) -> Seq<char>
    decreases s.len(),
{
    if s.len() == 0 || is_tag_sep(s[0]) {
        Seq::empty()
    } else {
        seq![s[0]] + primary(s.drop_first())
    }
}

/// A locale tag such as `ru_RU.UTF-8`, `en-US` or `"en"`: its primary
/// subtag decides, `ru` or `en` only; empty, `C` and `POSIX` say nothing.
pub open spec fn tag_language(tag: Seq<char>) -> Option<Language> {
    let t = trim_quotes(trim(tag));
    if t.len() == 0 || eq_ignore_case(t, "c"@) || eq_ignore_case(t, "posix"@) {
        None
    } else {
        let p = lower_seq(primary(t));
        if p == "ru"@ {
            Some(Language::Ru)
        } else if p == "en"@ {
            Some(Language::En)
        } else {
            None
        }
    }
}

/// The first tag of a list that names a language.
pub open spec fn first_language(tags: Seq<Seq<char>>) -> Option<Language>
    decreases tags.len(),
{
    if tags.len() == 0 {
        None
    } else {
        match tag_language(tags[0]) {
            Some(l) => Some(l),
            None => first_language(tags.drop_first()),
        }
    }
}

/// The `:`-separated tags of the set variables, in order.
pub open spec fn env_tags(values: Seq<Option<Seq<char>>>) -> Seq<Seq<char>>
    decreases values.len(),
{
    if values.len() == 0 {
        Seq::empty()
    } else {
        let head: Seq<Seq<char>> = match values[0] {
            Some(v) => split(v, ':'),
            None => Seq::empty(),
        };
        head + env_tags(values.drop_first())
    }
}

pub open spec fn opt_views(values: Seq<Option<String>>) -> Seq<Option<Seq<char>>> {
    values.map_values(|v: Option<String>| match v {
        Some(s) => Some(s@),
        None => None,
    })
}

pub open spec fn string_views(values: Seq<String>) -> Seq<Seq<char>> {
    values.map_values(|v: String| v@)
}

/// The language of the OS: the UI language list first (Windows, macOS), then
/// `LANGUAGE`, `LC_ALL`, `LC_MESSAGES`, `LANG`; Russian when none names one.
pub open spec fn os_language(ui: Seq<Seq<char>>, env: Seq<Option<Seq<char>>>) -> Language {
    match first_language(ui) {
        Some(l) => l,
        None => match first_language(env_tags(env)) {
            Some(l) => l,
            None => Language::Ru,
        },
    }
}

proof fn lemma_first_language_concat(a: Seq<Seq<char>>, b: Seq<Seq<char>>)
    ensures
        first_language(a + b) == match first_language(a) {
            Some(l) => Some(l),
            None => first_language(b),
        },
    decreases a.len(),
{
    if a.len() == 0 {
        assert(a + b =~= b);
    } else {
        assert((a + b)[0] == a[0]);
        assert((a + b).drop_first() =~= a.drop_first() + b);
        lemma_first_language_concat(a.drop_first(), b);
    }
}

fn primary_chars(v: &Vec<char>) -> (r: Vec<char>)
    ensures
        r@ == primary(v@),
{
    let mut i: usize = 0;
    while i < v.len() && !(v[i] == '_' || v[i] == '-' || v[i] == '.' || v[i] == '@')
        invariant
            i <= v.len(),
            forall|j: int| 0 <= j < i ==> !is_tag_sep(#[trigger] v@[j]),
        decreases v.len() - i,
    {
        i = i + 1;
    }
    proof {
        lemma_primary(v@, i as int);
    }
    crate::text::slice_chars(v, 0, i)
}

proof fn lemma_primary(s: Seq<char>, i: int)
    requires
        0 <= i <= s.len(),
        forall|j: int| 0 <= j < i ==> !is_tag_sep(#[trigger] s[j]),
        i == s.len() || is_tag_sep(s[i]),
    ensures
        primary(s) == s.subrange(0, i),
    decreases i,
{
    if i == 0 {
        assert(s.subrange(0, 0) =~= Seq::<char>::empty());
    } else {
        let t = s.drop_first();
        assert forall|j: int| 0 <= j < i - 1 implies !is_tag_sep(#[trigger] t[j]) by {
            assert(t[j] == s[j + 1]);
        }
        lemma_primary(t, i - 1);
        assert(seq![s[0]] + t.subrange(0, i - 1) =~= s.subrange(0, i));
    }
}

fn tag_of(tag: &Vec<char>) -> (r: Option<Language>)
    ensures
        r == tag_language(tag@),
{
    let t0 = trim_chars(tag);
    let t = trim_quote_chars(&t0);
    let c = chars_of("c");
    let posix = chars_of("posix");
    if t.len() == 0 || chars_eq_ignore_case(&t, &c) || chars_eq_ignore_case(&t, &posix) {
        return None;
    }
    let p = lower_chars(&primary_chars(&t));
    if chars_eq_str(&p, "ru") {
        Some(Language::Ru)
    } else if chars_eq_str(&p, "en") {
        Some(Language::En)
    } else {
        None
    }
}

/// The language a locale tag names, if `ru` or `en`.
pub fn parse_tag(tag: &str) -> (r: Option<Language>)
    ensures
        r == tag_language(tag@),
{
    tag_of(&chars_of(tag))
}

fn first_of(tags: &Vec<Vec<char>>) -> (r: Option<Language>)
    ensures
        r == first_language(views(tags@)),
{
    let mut i: usize = 0;
    assert(views(tags@).skip(0) =~= views(tags@));
    while i < tags.len()
        invariant
            i <= tags.len(),
            first_language(views(tags@)) == first_language(views(tags@).skip(i as int)),
        decreases tags.len() - i,
    {
        let ghost rest = views(tags@).skip(i as int);
        assert(rest[0] == tags@[i as int]@);
        assert(rest.drop_first() =~= views(tags@).skip(i + 1));
        match tag_of(&tags[i]) {
            Some(l) => {
                return Some(l);
            },
            None => {},
        }
        i = i + 1;
    }
    None
}

/// The first of the OS UI language tags that names `ru` or `en`.
pub fn from_tags(tags: &[String]) -> (r: Option<Language>)
    ensures
        r == first_language(string_views(tags@)),
{
    let mut i: usize = 0;
    assert(string_views(tags@).skip(0) =~= string_views(tags@));
    while i < tags.len()
        invariant
            i <= tags.len(),
            first_language(string_views(tags@)) == first_language(
                string_views(tags@).skip(i as int),
            ),
        decreases tags.len() - i,
    {
        let ghost rest = string_views(tags@).skip(i as int);
        assert(rest[0] == tags@[i as int]@);
        assert(rest.drop_first() =~= string_views(tags@).skip(i + 1));
        match parse_tag(tags[i].as_str()) {
            Some(l) => {
                return Some(l);
            },
            None => {},
        }
        i = i + 1;
    }
    None
}

/// The language named by the locale variables, given in the order
/// `LANGUAGE`, `LC_ALL`, `LC_MESSAGES`, `LANG` (unset ones as `None`); each
/// value is a `:`-separated list.
pub fn from_env(values: &[Option<String>]) -> (r: Option<Language>)
    ensures
        r == first_language(env_tags(opt_views(values@))),
{
    let ghost all = opt_views(values@);
    let mut i: usize = 0;
    assert(all.skip(0) =~= all);
    while i < values.len()
        invariant
            i <= values.len(),
            all == opt_views(values@),
            first_language(env_tags(all)) == first_language(env_tags(all.skip(i as int))),
        decreases values.len() - i,
    {
        let ghost rest = all.skip(i as int);
        assert(rest.drop_first() =~= all.skip(i + 1));
        let ghost head: Seq<Seq<char>> = match rest[0] {
            Some(v) => split(v, ':'),
            None => Seq::empty(),
        };
        proof {
            lemma_first_language_concat(head, env_tags(all.skip(i + 1)));
        }
        match &values[i] {
            Some(v) => {
                let parts = split_chars(&chars_of(v.as_str()), ':');
                match first_of(&parts) {
                    Some(l) => {
                        return Some(l);
                    },
                    None => {},
                }
            },
            None => {},
        }
        i = i + 1;
    }
    assert(all.skip(i as int) =~= Seq::<Option<Seq<char>>>::empty());
    None
}

// ---------------------------------------------------------------------------
// The catalogue and its fill-ins
// ---------------------------------------------------------------------------
/// `template` with every `{hk}` replaced by `hk`.
pub open spec fn fill_hk(template: &str, hk: Seq<char>) -> Seq<char> {
    replace_all(template@, "{hk}"@, hk)
}

fn with_hk(template: &str, hk: &str) -> (r: String)
    ensures
        r@ == fill_hk(template, hk@),
{
    proof {
        reveal_strlit("{hk}");
    }
    replace(template, "{hk}", hk)
}

impl Language {
    /// The config / menu id: `ru` or `en`.
    pub fn id(self) -> (r: &'static str)
        ensures
            r@ == (match self {
                Language::Ru => "ru"@,
                Language::En => "en"@,
            }),
    {
        match self {
            Language::Ru => "ru",
            Language::En => "en",
        }
    }

    /// The language of an id, trimmed and ASCII-case-insensitive.
    pub fn from_id(raw: &str) -> (r: Option<Self>)
        ensures
            r == (if lower_seq(trim(raw@)) == "ru"@ {
                Some(Language::Ru)
            } else if lower_seq(trim(raw@)) == "en"@ {
                Some(Language::En)
            } else {
                None
            }),
    {
        let w = lower_chars(&trim_chars(&chars_of(raw)));
        if chars_eq_str(&w, "ru") {
            Some(Language::Ru)
        } else if chars_eq_str(&w, "en") {
            Some(Language::En)
        } else {
            None
        }
    }

    /// The menu label, in the language itself.
    pub fn endonym(self) -> (r: &'static str)
        ensures
            r@ == (match self {
                Language::Ru => "Русский"@,
                Language::En => "English"@,
            }),
    {
        match self {
            Language::Ru => "Русский",
            Language::En => "English",
        }
    }

    /// The OS UI language: `ui` holds the OS's preferred UI languages (Windows,
    /// macOS; empty elsewhere), `env` the locale variables as for `from_env`.
    pub fn from_os(ui: &[String], env: &[Option<String>]) -> (r: Self)
        ensures
            r == os_language(string_views(ui@), opt_views(env@)),
    {
        match from_tags(ui) {
            Some(l) => l,
            None => match from_env(env) {
                Some(l) => l,
                None => Language::Ru,
            },
        }
    }

    pub fn tr(self) -> (t: Tr)
        ensures
            t == catalog(self),
    {
        match self {
            Language::Ru => Tr {
                enable: "Включить",
                disable: "Выключить",
                style: "Стиль",
                solid: "Чёрный",
                tint: "Тонировка",
                frost: "Матовое стекло",
                settings: "Настройки",
                language: "Язык",
                hotkey_ok_fmt: "Хоткей: {hk}…",
                hotkey_busy_fmt: "Хоткей: {hk} (занят)…",
                autostart: "Автозагрузка",
                wipe: "Удалить данные…",
                about: "О программе",
                quit: "Выход",
                bind_prompt: "Нажмите новую комбинацию",
                bind_need_mod: "Нужен Ctrl / Alt / Shift / {meta}",
                bind_title: "Хоткей Blackout",
                save_enter: "Сохранить (Enter)",
                cancel_esc: "Отмена (Esc)",
                version: "Версия",
                author_fmt: "Автор {name}",
                credit_via: "сделано с помощью",
                credit_minds: "естественного и искусственного интеллекта",
                license: "Лицензия",
                close_esc: "Закрыть (Esc)",
                wipe_title: "Удалить данные?",
                wipe_body: "Blackout будет исключена из автозагрузки, также\nбудет удален конфиг и пустая папка blackout.\nПрограмма будет закрыта.\n\n{config}\n\nПосле этого просто удалите файл программы.",
                wipe_config_fmt: "Конфиг: {path}",
                wipe_config_unavailable: "Конфиг: профиль ОС недоступен.",
                wipe_confirm: "Удалить (Enter)",
                wipe_note_title: "Удаление данных",
                wipe_failed: "Не удалось удалить данные",
                hotkey_title: "Хоткей",
                hotkey_busy_title: "Хоткей занят",
                hotkey_busy_startup: "{hk} уже используется. Назначьте другую комбинацию через Трей → Настройки → Хоткей",
                hotkey_busy_retry: "{hk} уже используется. Попробуйте другую.",
                hotkey_saved: "Комбинация сохранена: {hk}",
                autostart_failed: "Не удалось изменить автозагрузку",
                wayland: "Wayland без X11 не поддерживается. Войдите в сессию X11 или используйте XWayland.",
                x11_busy_startup: "blackout: {hk} занята. Нажмите новую комбинацию в появившемся окне.",
                x11_ready: "Blackout (X11): {hk}, overlays ready. Смена: ПКМ по пелене или hotkey в {path}",
                x11_saved: "blackout: комбинация сохранена: {hk}",
                x11_busy_keep: "blackout: {hk} занята, остаётся {old}",
                x11_bind_hint: "blackout: {hk}  — Enter или клик «Сохранить»",
            },
            Language::En => Tr {
                enable: "Enable",
                disable: "Disable",
                style: "Style",
                solid: "Black",
                tint: "Tint",
                frost: "Frosted glass",
                settings: "Settings",
                language: "Language",
                hotkey_ok_fmt: "Hotkey: {hk}…",
                hotkey_busy_fmt: "Hotkey: {hk} (in use)…",
                autostart: "Start at login",
                wipe: "Delete data…",
                about: "About",
                quit: "Quit",
                bind_prompt: "Press a new shortcut",
                bind_need_mod: "Needs Ctrl / Alt / Shift / {meta}",
                bind_title: "Blackout hotkey",
                save_enter: "Save (Enter)",
                cancel_esc: "Cancel (Esc)",
                version: "Version",
                author_fmt: "Author {name}",
                credit_via: "made with",
                credit_minds: "natural and artificial intelligence",
                license: "License",
                close_esc: "Close (Esc)",
                wipe_title: "Delete data?",
                wipe_body: "Blackout will be removed from startup. The config\nand the empty blackout folder will also be deleted.\nThe program will close.\n\n{config}\n\nAfter that, just delete the program file.",
                wipe_config_fmt: "Config: {path}",
                wipe_config_unavailable: "Config: OS profile is unavailable.",
                wipe_confirm: "Delete (Enter)",
                wipe_note_title: "Delete data",
                wipe_failed: "Could not delete data",
                hotkey_title: "Hotkey",
                hotkey_busy_title: "Hotkey in use",
                hotkey_busy_startup: "{hk} is already in use. Assign another shortcut via Tray → Settings → Hotkey",
                hotkey_busy_retry: "{hk} is already in use. Try another one.",
                hotkey_saved: "Shortcut saved: {hk}",
                autostart_failed: "Could not change startup",
                wayland: "Wayland without X11 is not supported. Sign in to an X11 session or use XWayland.",
                x11_busy_startup: "blackout: {hk} is taken. Press a new shortcut in the window that opened.",
                x11_ready: "Blackout (X11): {hk}, overlays ready. Change: right-click the veil or the hotkey in {path}",
                x11_saved: "blackout: shortcut saved: {hk}",
                x11_busy_keep: "blackout: {hk} is taken, keeping {old}",
                x11_bind_hint: "blackout: {hk}  — Enter or click “Save”",
            },
        }
    }

    /// The tray toggle label: Enable when idle, else Disable.
    pub fn toggle(self, idle: bool) -> (r: &'static str)
        ensures
            r == (if idle {
                catalog(self).enable
            } else {
                catalog(self).disable
            }),
    {
        let t = self.tr();
        if idle {
            t.enable
        } else {
            t.disable
        }
    }

    /// The toggle label, a tab, and the hotkey (menu accelerator column).
    pub fn toggle_tab(self, idle: bool, hk: &str) -> (r: String)
        ensures
            r@ == (if idle {
                catalog(self).enable@
            } else {
                catalog(self).disable@
            }) + seq!['\t'] + hk@,
    {
        let mut r = owned(self.toggle(idle));
        push_char(&mut r, '\t');
        push_str(&mut r, hk);
        r
    }

    /// The hotkey menu item, marked as in use when registration failed.
    pub fn hotkey_item(self, hk: &str, ok: bool) -> (r: String)
        ensures
            r@ == fill_hk(
                if ok {
                    catalog(self).hotkey_ok_fmt
                } else {
                    catalog(self).hotkey_busy_fmt
                },
                hk@,
            ),
    {
        let t = self.tr();
        let tpl = if ok {
            t.hotkey_ok_fmt
        } else {
            t.hotkey_busy_fmt
        };
        with_hk(tpl, hk)
    }

    /// "Needs Ctrl / Alt / Shift / …" with the OS's word for the meta key.
    pub fn bind_need_mod(self, os: Os) -> (r: String)
        ensures
            r@ == replace_all(catalog(self).bind_need_mod@, "{meta}"@, meta_word(os)),
    {
        proof {
            reveal_strlit("{meta}");
        }
        replace(self.tr().bind_need_mod, "{meta}", meta_token(os))
    }

    /// The bind prompt and, on the next line, the modifier rule.
    pub fn bind_hint(self, os: Os) -> (r: String)
        ensures
            r@ == catalog(self).bind_prompt@ + seq!['\n'] + replace_all(
                catalog(self).bind_need_mod@,
                "{meta}"@,
                meta_word(os),
            ),
    {
        let mut r = owned(self.tr().bind_prompt);
        push_char(&mut r, '\n');
        let m = self.bind_need_mod(os);
        push_str(&mut r, m.as_str());
        r
    }

    pub fn version_line(self, n: &str) -> (r: String)
        ensures
            r@ == catalog(self).version@ + seq![' '] + n@,
    {
        let mut r = owned(self.tr().version);
        push_char(&mut r, ' ');
        push_str(&mut r, n);
        r
    }

    pub fn author_line(self, name: &str) -> (r: String)
        ensures
            r@ == replace_all(catalog(self).author_fmt@, "{name}"@, name@),
    {
        proof {
            reveal_strlit("{name}");
        }
        replace(self.tr().author_fmt, "{name}", name)
    }

    pub fn credit_lines(self) -> (r: [&'static str; 2])
        ensures
            r@ == seq![catalog(self).credit_via, catalog(self).credit_minds],
    {
        let t = self.tr();
        let r = [t.credit_via, t.credit_minds];
        assert(r@ =~= seq![t.credit_via, t.credit_minds]);
        r
    }

    pub fn license_line(self, name: &str) -> (r: String)
        ensures
            r@ == catalog(self).license@ + seq![' '] + name@,
    {
        let mut r = owned(self.tr().license);
        push_char(&mut r, ' ');
        push_str(&mut r, name);
        r
    }

    pub fn hotkey_busy_startup(self, hk: &str) -> (r: String)
        ensures
            r@ == fill_hk(catalog(self).hotkey_busy_startup, hk@),
    {
        with_hk(self.tr().hotkey_busy_startup, hk)
    }

    pub fn hotkey_busy_retry(self, hk: &str) -> (r: String)
        ensures
            r@ == fill_hk(catalog(self).hotkey_busy_retry, hk@),
    {
        with_hk(self.tr().hotkey_busy_retry, hk)
    }

    pub fn hotkey_saved(self, hk: &str) -> (r: String)
        ensures
            r@ == fill_hk(catalog(self).hotkey_saved, hk@),
    {
        with_hk(self.tr().hotkey_saved, hk)
    }

    pub fn x11_busy_startup(self, hk: &str) -> (r: String)
        ensures
            r@ == fill_hk(catalog(self).x11_busy_startup, hk@),
    {
        with_hk(self.tr().x11_busy_startup, hk)
    }

    /// The X11 startup line: `{hk}` is filled first, then `{path}`.
    pub fn x11_ready(self, hk: &str, path: &str) -> (r: String)
        ensures
            r@ == replace_all(fill_hk(catalog(self).x11_ready, hk@), "{path}"@, path@),
    {
        let first = with_hk(self.tr().x11_ready, hk);
        proof {
            reveal_strlit("{path}");
        }
        replace(first.as_str(), "{path}", path)
    }

    pub fn x11_saved(self, hk: &str) -> (r: String)
        ensures
            r@ == fill_hk(catalog(self).x11_saved, hk@),
    {
        with_hk(self.tr().x11_saved, hk)
    }

    /// The X11 "taken, keeping the old one" line: `{hk}` first, then `{old}`.
    pub fn x11_busy_keep(self, hk: &str, old_hk: &str) -> (r: String)
        ensures
            r@ == replace_all(fill_hk(catalog(self).x11_busy_keep, hk@), "{old}"@, old_hk@),
    {
        let first = with_hk(self.tr().x11_busy_keep, hk);
        proof {
            reveal_strlit("{old}");
        }
        replace(first.as_str(), "{old}", old_hk)
    }

    pub fn x11_bind_hint(self, hk: &str) -> (r: String)
        ensures
            r@ == fill_hk(catalog(self).x11_bind_hint, hk@),
    {
        with_hk(self.tr().x11_bind_hint, hk)
    }
}

} // verus!
