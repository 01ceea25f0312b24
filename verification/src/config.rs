//! Persistent settings: overlay style, hotkey, UI language, and where the
//! config file lives.
use crate::hotkey::{Hotkey, Key};
use crate::i18n::Language;
use crate::os::Os;
use crate::text::{has_suffix, is_ascii_lower, is_ascii_upper, matches_at, chars_of, owned, push_char, push_str};
use vstd::prelude::*;

verus! {

/// Alpha of Tint and Frost veils: about 84% opaque, a window tint rather than a light fog.
pub const FROST_ALPHA: u8 = 214;

#[derive(Clone, Copy, Debug, PartialEq, Eq, Structural)]
pub enum Style {
    Solid,
    Tint,
    Frost,
}

impl core::default::Default for Style {
    fn default() -> (r: Self)
        ensures
            r == Style::Solid,
    {
        Style::Solid
    }
}

#[derive(Clone, Copy, Debug)]
pub struct Config {
    pub style: Style,
    pub hotkey: Hotkey,
    /// `None`: follow the OS UI language.
    pub language: Option<Language>,
}

impl core::default::Default for Config {
    /// Solid veils, Ctrl+Alt+B, the OS language.
    fn default() -> (r: Self)
        ensures
            r.style == Style::Solid,
            r.hotkey == (Hotkey {
                ctrl: true,
                alt: true,
                shift: false,
                meta: false,
                key: Key::Char('B'),
            }),
            r.language is None,
    {
        Config { style: Style::Solid, hotkey: Hotkey::default(), language: None }
    }
}

impl Config {
    /// The language of the UI: the configured one, else the OS's (`os_language`).
    pub fn ui_lang(&self, os_language: Language) -> (r: Language)
        ensures
            r == match self.language {
                Some(l) => l,
                None => os_language,
            },
    {
        match self.language {
            Some(l) => l,
            None => os_language,
        }
    }
}

/// Whether `s` holds `p` somewhere.
pub open spec fn holds(s: Seq<char>, p: Seq<char>) -> bool {
    exists|i: int| 0 <= i <= s.len() - p.len() && #[trigger] s.subrange(i, i + p.len()) == p
}

fn contains_chars(v: &Vec<char>, p: &Vec<char>) -> (r: bool)
    ensures
        r == holds(v@, p@),
{
    if p.len() > v.len() {
        return false;
    }
    if p.len() == 0 {
        assert(v@.subrange(0, 0 + p@.len() as int) =~= p@);
        return true;
    }
    let mut i: usize = 0;
    while i <= v.len() - p.len()
        invariant
            0 < p.len() <= v.len(),
            i <= v.len() - p.len() + 1,
            forall|j: int| 0 <= j < i ==> #[trigger] v@.subrange(j, j + p.len()) != p@,
        decreases v.len() - p.len() + 1 - i,
    {
        if matches_at(v, i, p) {
            assert(v@.skip(i as int).take(p.len() as int) =~= v@.subrange(i as int, i + p.len()));
            return true;
        }
        assert(v@.skip(i as int).take(p.len() as int) =~= v@.subrange(i as int, i + p.len()));
        i = i + 1;
    }
    false
}

/// Whether loading should write the config back: when it could not be read,
/// and when it lacks a `hotkey` key (an older config gains the default combo).
pub fn rewrite_after_load(raw: Option<&str>) -> (r: bool)
    ensures
        r == match raw {
            None => true,
            Some(text) => !holds(text@, "hotkey"@),
        },
{
    match raw {
        None => true,
        Some(text) => !contains_chars(&chars_of(text), &chars_of("hotkey")),
    }
}

// ---------------------------------------------------------------------------
// Where the config lives
// ---------------------------------------------------------------------------
pub open spec fn is_sep(c: char, os: Os) -> bool {
    c == '/' || (os == Os::Windows && c == '\\')
}

pub open spec fn sep_of(os: Os) -> char {
    if os == Os::Windows {
        '\\'
    } else {
        '/'
    }
}

/// `Path::is_absolute`: on Unix a leading `/`; on Windows a drive with a root
/// (`C:\`, `C:/`) or a `\\` (UNC or verbatim) prefix.
pub open spec fn is_absolute(p: Seq<char>, os: Os) -> bool {
    if os == Os::Windows {
        ||| (p.len() >= 3 && (is_ascii_upper(p[0]) || is_ascii_lower(p[0])) && p[1] == ':'
            && is_sep(p[2], os))
        ||| (p.len() >= 2 && p[0] == '\\' && p[1] == '\\')
    } else {
        p.len() > 0 && p[0] == '/'
    }
}

pub open spec fn is_bare_drive(p: Seq<char>, os: Os) -> bool {
    os == Os::Windows && p.len() == 2 && (is_ascii_upper(p[0]) || is_ascii_lower(p[0])) && p[1]
        == ':'
}

/// `PathBuf::join` with a relative part: a separator goes in between unless
/// the base is empty, is a bare drive (`C:`), or already ends with one.
pub open spec fn join_path(base: Seq<char>, rel: Seq<char>, os: Os) -> Seq<char> {
    if base.len() == 0 {
        rel
    } else if is_sep(base.last(), os) || is_bare_drive(base, os) {
        base + rel
    } else {
        base.push(sep_of(os)) + rel
    }
}

pub fn absolute(p: &str, os: Os) -> (r: bool)
    ensures
        r == is_absolute(p@, os),
{
    let v = chars_of(p);
    if os == Os::Windows {
        (v.len() >= 3 && (('A' <= v[0] && v[0] <= 'Z') || ('a' <= v[0] && v[0] <= 'z')) && v[1]
            == ':' && (v[2] == '/' || v[2] == '\\')) || (v.len() >= 2 && v[0] == '\\' && v[1]
            == '\\')
    } else {
        v.len() > 0 && v[0] == '/'
    }
}

fn join(base: &str, rel: &str, os: Os) -> (r: String)
    ensures
        r@ == join_path(base@, rel@, os),
{
    let v = chars_of(base);
    let mut r = owned(base);
    let bare_drive = os == Os::Windows && v.len() == 2 && (('A' <= v[0] && v[0] <= 'Z') || ('a'
        <= v[0] && v[0] <= 'z')) && v[1] == ':';
    if v.len() > 0 && !bare_drive {
        let last = v[v.len() - 1];
        if !(last == '/' || (os == Os::Windows && last == '\\')) {
            push_char(&mut r, if os == Os::Windows {
                '\\'
            } else {
                '/'
            });
        }
    }
    push_str(&mut r, rel);
    r
}

/// A path from the environment, kept only when absolute.
pub fn env_absolute(value: Option<&str>, os: Os) -> (r: Option<String>)
    ensures
        r matches Some(p) ==> value matches Some(v) && p@ == v@ && is_absolute(v@, os),
        r is None ==> (value matches Some(v) ==> !is_absolute(v@, os)),
{
    match value {
        Some(v) => if absolute(v, os) {
            Some(owned(v))
        } else {
            None
        },
        None => None,
    }
}

pub open spec fn first_absolute(a: Option<&str>, b: Option<&str>, os: Os) -> Option<Seq<char>> {
    match a {
        Some(p) if is_absolute(p@, os) => Some(p@),
        _ => match b {
            Some(p) if is_absolute(p@, os) => Some(p@),
            _ => None,
        },
    }
}

pub open spec fn res_view(r: Result<String, String>) -> Result<Seq<char>, Seq<char>> {
    match r {
        Ok(p) => Ok(p@),
        Err(e) => Err(e@),
    }
}

/// The home directory (Unix): the password-database entry when absolute,
/// else `$HOME` when absolute.
pub fn user_home(passwd_dir: Option<&str>, env_home: Option<&str>, os: Os) -> (r: Result<
    String,
    String,
>)
    ensures
        res_view(r) == match first_absolute(passwd_dir, env_home, os) {
            Some(p) => Ok(p),
            None => Err("нет профиля HOME"@),
        },
{
    if let Some(home) = passwd_dir {
        if absolute(home, os) {
            return Ok(owned(home));
        }
    }
    match env_absolute(env_home, os) {
        Some(p) => Ok(p),
        None => Err(owned("нет профиля HOME")),
    }
}

/// Roaming AppData (Windows): the known-folder path when absolute, else
/// `%APPDATA%` when absolute.
pub fn roaming_appdata(known_folder: Option<&str>, env_appdata: Option<&str>) -> (r: Result<
    String,
    String,
>)
    ensures
        res_view(r) == match first_absolute(known_folder, env_appdata, Os::Windows) {
            Some(p) => Ok(p),
            None => Err("нет профиля AppData"@),
        },
{
    if let Some(p) = known_folder {
        if absolute(p, Os::Windows) {
            return Ok(owned(p));
        }
    }
    match env_absolute(env_appdata, Os::Windows) {
        Some(p) => Ok(p),
        None => Err(owned("нет профиля AppData")),
    }
}

pub open spec fn under_home(env_value: Option<&str>, home: Result<String, String>, rel: Seq<char>, os: Os) -> Result<Seq<char>, Seq<char>> {
    match env_value {
        Some(v) if is_absolute(v@, os) => Ok(v@),
        _ => match home {
            Ok(h) => Ok(join_path(h@, rel, os)),
            Err(e) => Err(e@),
        },
    }
}

fn env_or_home(env_value: Option<&str>, home: Result<String, String>, rel: &str, os: Os) -> (r: Result<String, String>)
    ensures
        res_view(r) == under_home(env_value, home, rel@, os),
{
    match env_absolute(env_value, os) {
        Some(p) => Ok(p),
        None => match home {
            Ok(h) => Ok(join(h.as_str(), rel, os)),
            Err(e) => Err(e),
        },
    }
}

/// `$XDG_CONFIG_HOME` when absolute, else `~/.config`.
pub fn xdg_config_home(env_value: Option<&str>, home: Result<String, String>, os: Os) -> (r: Result<String, String>)
    ensures
        res_view(r) == under_home(env_value, home, ".config"@, os),
{
    env_or_home(env_value, home, ".config", os)
}

/// `$XDG_DATA_HOME` when absolute, else `~/.local/share`.
pub fn xdg_data_home(env_value: Option<&str>, home: Result<String, String>, os: Os) -> (r: Result<String, String>)
    ensures
        res_view(r) == under_home(env_value, home, ".local/share"@, os),
{
    env_or_home(env_value, home, ".local/share", os)
}

/// Where the `blackout` folder goes under the profile root: Roaming AppData
/// on Windows, `~/Library/Application Support` on macOS, the XDG config home elsewhere.
pub open spec fn app_dir_rel(os: Os) -> Seq<char> {
    if os == Os::MacOs {
        "Library/Application Support/blackout"@
    } else {
        "blackout"@
    }
}

/// `…/blackout/config.toml` under a profile root.
pub open spec fn config_file(root: Seq<char>, os: Os) -> Seq<char> {
    join_path(join_path(root, app_dir_rel(os), os), "config.toml"@, os)
}

/// The config path from the OS profile root (`Err` when there is none); it
/// must be absolute, so the config never lands in the working directory.
pub open spec fn config_path_spec(root: Result<Seq<char>, Seq<char>>, os: Os) -> Result<Seq<char>, Seq<char>> {
    match root {
        Err(e) => Err(e),
        Ok(r) => if is_absolute(config_file(r, os), os) {
            Ok(config_file(r, os))
        } else {
            Err("путь конфига не абсолютный"@)
        },
    }
}

/// Absolute `…/blackout/config.toml` under the profile root. Never the working directory.
pub fn strict_config_path(root: Result<String, String>, os: Os) -> (r: Result<String, String>)
    ensures
        res_view(r) == config_path_spec(res_view(root), os),
{
    match root {
        Err(e) => Err(e),
        Ok(base) => {
            let rel = if os == Os::MacOs {
                "Library/Application Support/blackout"
            } else {
                "blackout"
            };
            let dir = join(base.as_str(), rel, os);
            let path = join(dir.as_str(), "config.toml", os);
            if absolute(path.as_str(), os) {
                Ok(path)
            } else {
                Err(owned("путь конфига не абсолютный"))
            }
        },
    }
}

proof fn lemma_join_keeps_absolute(base: Seq<char>, rel: Seq<char>, os: Os)
    requires
        is_absolute(base, os),
    ensures
        is_absolute(join_path(base, rel, os), os),
        join_path(base, rel, os).take(base.len() as int) == base,
{
    let j = join_path(base, rel, os);
    if is_sep(base.last(), os) || is_bare_drive(base, os) {
        assert(j == base + rel);
    } else {
        assert(j == base.push(sep_of(os)) + rel);
    }
    assert(j.take(base.len() as int) =~= base);
    assert(j[0] == base[0]);
    if base.len() >= 2 {
        assert(j[1] == base[1]);
    }
    if base.len() >= 3 {
        assert(j[2] == base[2]);
    }
}

/// The config path is always absolute and always names `config.toml` in a
/// folder `blackout`; for an absolute profile root it is that root's
/// `blackout/config.toml` (macOS: under `Library/Application Support`).
pub proof fn lemma_config_path_is_ours(root: Result<Seq<char>, Seq<char>>, os: Os)
    ensures
        config_path_spec(root, os) matches Ok(p) ==> is_absolute(p, os) && has_suffix(
            p,
            "blackout"@.push(sep_of(os)) + "config.toml"@,
        ),
        match root {
            Ok(r) => is_absolute(r, os) ==> config_path_spec(root, os) == Ok::<
                Seq<char>,
                Seq<char>,
            >(config_file(r, os)),
            Err(_) => true,
        },
{
    reveal_strlit("blackout");
    reveal_strlit("config.toml");
    reveal_strlit("Library/Application Support/blackout");
    if let Ok(r) = root {
        let rel = app_dir_rel(os);
        let dir = join_path(r, rel, os);
        let f = config_file(r, os);
        assert(has_suffix(rel, "blackout"@)) by {
            if os == Os::MacOs {
                assert(rel.skip(rel.len() - 8) =~= "blackout"@);
            } else {
                assert(rel.skip(0) =~= rel);
            }
        }
        assert(dir.len() >= 8 && dir.skip(dir.len() - 8) == "blackout"@) by {
            if r.len() == 0 {
            } else if is_sep(r.last(), os) || is_bare_drive(r, os) {
                assert(dir.skip(dir.len() - 8) =~= rel.skip(rel.len() - 8));
            } else {
                assert(dir.skip(dir.len() - 8) =~= rel.skip(rel.len() - 8));
            }
        }
        assert(dir.last() == 't') by {
            assert(dir.last() == dir.skip(dir.len() - 8)[7]);
        }
        assert(!is_bare_drive(dir, os)) by {
            if is_bare_drive(dir, os) {
                assert(dir.len() == 2);
            }
        }
        assert(f == dir.push(sep_of(os)) + "config.toml"@);
        assert(f.skip(f.len() - 20) =~= "blackout"@.push(sep_of(os)) + "config.toml"@) by {
            assert forall|k: int| 0 <= k < 20 implies #[trigger] f.skip(f.len() - 20)[k] == (
            "blackout"@.push(sep_of(os)) + "config.toml"@)[k] by {
                if k < 8 {
                    assert(f[f.len() - 20 + k] == dir[dir.len() - 8 + k]);
                    assert(dir.skip(dir.len() - 8)[k] == dir[dir.len() - 8 + k]);
                }
            }
        }
        if is_absolute(r, os) {
            lemma_join_keeps_absolute(r, rel, os);
            lemma_join_keeps_absolute(dir, "config.toml"@, os);
        }
    }
}

/// The config path for display, empty when there is none.
pub fn config_path(root: Result<String, String>, os: Os) -> (r: String)
    ensures
        r@ == match config_path_spec(res_view(root), os) {
            Ok(p) => p,
            Err(_) => Seq::empty(),
        },
{
    match strict_config_path(root, os) {
        Ok(p) => p,
        Err(_) => String::new(),
    }
}

} // verus!
