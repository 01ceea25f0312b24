//! The global toggle combo: a portable string such as `Ctrl+Alt+B` in the
//! config, and its Windows / macOS / X11 key codes and modifier masks.
//! Alt is Option on macOS; Super is Win / Cmd.
use crate::text::{
    ascii_alnum, ascii_digit, chars_eq_str, chars_of, err_view, is_ascii_alnum,
    is_ascii_digit, is_ascii_upper, join, join_chars, lower, lower_chars, lower_seq,
    message, owned, split, split_chars, to_lower, to_upper, trim, trim_chars, upper, views,
};
use vstd::prelude::*;

verus! {

#[derive(Clone, Copy, Debug, PartialEq, Eq, Structural)]
pub enum Key {
    Char(char),
    F(u8),
    Space,
}

#[derive(Clone, Copy, Debug, PartialEq, Eq, Structural)]
pub struct Hotkey {
    pub ctrl: bool,
    pub alt: bool,
    pub shift: bool,
    pub meta: bool,
    pub key: Key,
}

// ---------------------------------------------------------------------------
// What a combo is
// ---------------------------------------------------------------------------
pub open spec fn any_modifier(ctrl: bool, alt: bool, shift: bool, meta: bool) -> bool {
    ctrl || alt || shift || meta
}

/// A key as the parser produces it: an upper-case ASCII letter or digit,
/// `F1`–`F12`, or Space.
pub open spec fn key_is_canonical(k: Key) -> bool {
    match k {
        Key::Char(c) => is_ascii_upper(c) || is_ascii_digit(c),
        Key::F(n) => 1 <= n <= 12,
        Key::Space => true,
    }
}

impl Hotkey {
    pub open spec fn modified(self) -> bool {
        any_modifier(self.ctrl, self.alt, self.shift, self.meta)
    }

    /// A combo that the config string can hold: a modifier and a canonical key.
    pub open spec fn canonical(self) -> bool {
        self.modified() && key_is_canonical(self.key)
    }
}

// ---------------------------------------------------------------------------
// Text form
// ---------------------------------------------------------------------------
pub open spec fn digit_char(d: nat) -> char {
    ((48 + d) as u32) as char
}

/// Decimal digits of a number, as `format!("{n}")` writes them.
pub open spec fn decimal(n: nat) -> Seq<char>
    decreases n,
{
    if n < 10 {
        seq![digit_char(n)]
    } else {
        decimal(n / 10).push(digit_char(n % 10))
    }
}

pub open spec fn key_text(k: Key) -> Seq<char> {
    match k {
        Key::Char(c) => seq![upper(c)],
        Key::F(n) => seq!['F'] + decimal(n as nat),
        Key::Space => "Space"@,
    }
}

pub open spec fn opt_part(on: bool, part: Seq<char>) -> Seq<Seq<char>> {
    if on {
        seq![part]
    } else {
        Seq::empty()
    }
}

/// The parts of a combo in display order.
pub open spec fn combo_parts(
    ctrl: bool,
    alt: bool,
    shift: bool,
    meta: bool,
    key: Option<Key>,
) -> Seq<Seq<char>> {
    opt_part(ctrl, "Ctrl"@) + opt_part(alt, "Alt"@) + opt_part(shift, "Shift"@) + opt_part(
        meta,
        "Super"@,
    ) + match key {
        Some(k) => seq![key_text(k)],
        None => Seq::empty(),
    }
}

/// `Ctrl+Alt+Shift+Super+Key`, leaving out what is absent.
pub open spec fn combo_text(
    ctrl: bool,
    alt: bool,
    shift: bool,
    meta: bool,
    key: Option<Key>,
) -> Seq<char> {
    join(combo_parts(ctrl, alt, shift, meta, key), seq!['+'])
}

impl Hotkey {
    pub open spec fn text(self) -> Seq<char> {
        combo_text(self.ctrl, self.alt, self.shift, self.meta, Some(self.key))
    }
}

fn digit(d: u8) -> (c: char)
    requires
        d < 10,
    ensures
        c == digit_char(d as nat),
{
    (48 + d) as char
}

fn decimal_chars(n: u8) -> (r: Vec<char>)
    ensures
        r@ == decimal(n as nat),
{
    proof {
        reveal_with_fuel(decimal, 3);
    }
    if n < 10 {
        vec![digit(n)]
    } else if n < 100 {
        let r = vec![digit(n / 10), digit(n % 10)];
        assert(r@ =~= decimal(n as nat));
        r
    } else {
        let r = vec![digit(n / 100), digit((n / 10) % 10), digit(n % 10)];
        assert(n as nat / 10 / 10 == n as nat / 100);
        assert(r@ =~= decimal(n as nat));
        r
    }
}

fn key_chars(k: Key) -> (r: Vec<char>)
    ensures
        r@ == key_text(k),
{
    match k {
        Key::Char(c) => vec![to_upper(c)],
        Key::F(n) => {
            let mut r = vec!['F'];
            let d = decimal_chars(n);
            let mut i: usize = 0;
            while i < d.len()
                invariant
                    i <= d.len(),
                    r@ == seq!['F'] + d@.take(i as int),
                decreases d.len() - i,
            {
                r.push(d[i]);
                i = i + 1;
                assert(r@ =~= seq!['F'] + d@.take(i as int));
            }
            assert(d@.take(d.len() as int) =~= d@);
            r
        },
        Key::Space => chars_of("Space"),
    }
}

/// The combo as shown in menus and stored in the config: the present
/// modifiers in the order Ctrl, Alt, Shift, Super, then the key, joined by `+`.
pub fn format_combo(ctrl: bool, alt: bool, shift: bool, meta: bool, key: Option<Key>) -> (r:
    String)
    ensures
        r@ == combo_text(ctrl, alt, shift, meta, key),
{
    let mut parts: Vec<Vec<char>> = Vec::new();
    let ghost mut want: Seq<Seq<char>> = Seq::empty();
    if ctrl {
        parts.push(chars_of("Ctrl"));
    }
    proof {
        want = opt_part(ctrl, "Ctrl"@);
    }
    assert(views(parts@) =~= want);
    if alt {
        parts.push(chars_of("Alt"));
    }
    proof {
        want = want + opt_part(alt, "Alt"@);
    }
    assert(views(parts@) =~= want);
    if shift {
        parts.push(chars_of("Shift"));
    }
    proof {
        want = want + opt_part(shift, "Shift"@);
    }
    assert(views(parts@) =~= want);
    if meta {
        parts.push(chars_of("Super"));
    }
    proof {
        want = want + opt_part(meta, "Super"@);
    }
    assert(views(parts@) =~= want);
    match key {
        Some(k) => {
            parts.push(key_chars(k));
        },
        None => {},
    }
    assert(views(parts@) =~= combo_parts(ctrl, alt, shift, meta, key));
    join_chars(&parts, '+')
}

// ---------------------------------------------------------------------------
// Parsing
// ---------------------------------------------------------------------------
/// Numeric value of a run of ASCII digits.
pub open spec fn digits_value(d: Seq<char>) -> nat
    decreases d.len(),
{
    if d.len() == 0 {
        0
    } else {
        digits_value(d.drop_last()) * 10 + ((d.last() as u32) - 48) as nat
    }
}

pub open spec fn all_digits(d: Seq<char>) -> bool {
    forall|i: int| 0 <= i < d.len() ==> is_ascii_digit(#[trigger] d[i])
}

/// `u8::from_str`: an optional `+`, then one or more ASCII digits, at most 255.
pub open spec fn parse_u8(s: Seq<char>) -> Option<u8> {
    let d = if s.len() > 0 && s[0] == '+' {
        s.drop_first()
    } else {
        s
    };
    if d.len() > 0 && all_digits(d) && digits_value(d) <= 255 {
        Some(digits_value(d) as u8)
    } else {
        None
    }
}

/// `u8::from_str` on `v[from..]`.
fn parse_u8_at(v: &Vec<char>, from: usize) -> (r: Option<u8>)
    requires
        from <= v.len(),
    ensures
        r == parse_u8(v@.skip(from as int)),
{
    let ghost s = v@.skip(from as int);
    let start = if from < v.len() && v[from] == '+' {
        from + 1
    } else {
        from
    };
    let ghost d = v@.skip(start as int);
    assert(d =~= (if s.len() > 0 && s[0] == '+' {
        s.drop_first()
    } else {
        s
    }));
    if start == v.len() {
        return None;
    }
    let mut acc: u16 = 0;
    let mut i = start;
    while i < v.len()
        invariant
            start <= i <= v.len(),
            start < v.len(),
            d == v@.skip(start as int),
            s == v@.skip(from as int),
            d == (if s.len() > 0 && s[0] == '+' {
                s.drop_first()
            } else {
                s
            }),
            all_digits(v@.subrange(start as int, i as int)),
            acc as nat == (if digits_value(v@.subrange(start as int, i as int)) < 256 {
                digits_value(v@.subrange(start as int, i as int))
            } else {
                256
            }),
        decreases v.len() - i,
    {
        let c = v[i];
        if !ascii_digit(c) {
            assert(d[i - start] == c);
            assert(!all_digits(d));
            return None;
        }
        let ghost pre = v@.subrange(start as int, i as int);
        let ghost next = v@.subrange(start as int, i + 1);
        assert(next.drop_last() =~= pre);
        assert(next.last() == c);
        let dv = (c as u32 - 48) as u16;
        acc = if acc >= 26 {
            256
        } else {
            let t = acc * 10 + dv;
            if t > 256 {
                256
            } else {
                t
            }
        };
        i = i + 1;
        assert forall|j: int| 0 <= j < next.len() implies is_ascii_digit(#[trigger] next[j]) by {
            if j < pre.len() {
                assert(next[j] == pre[j]);
            }
        }
    }
    assert(v@.subrange(start as int, v.len() as int) =~= d);
    if acc > 255 {
        None
    } else {
        Some(acc as u8)
    }
}

/// Modifiers and key collected so far while reading a combo.
#[derive(Clone, Copy)]
pub struct Draft {
    pub ctrl: bool,
    pub alt: bool,
    pub shift: bool,
    pub meta: bool,
    pub key: Option<Key>,
}

pub open spec fn empty_draft() -> Draft {
    Draft { ctrl: false, alt: false, shift: false, meta: false, key: None }
}

pub open spec fn is_ctrl_word(w: Seq<char>) -> bool {
    w == "ctrl"@ || w == "control"@ || w == "controlkey"@
}

pub open spec fn is_alt_word(w: Seq<char>) -> bool {
    w == "alt"@ || w == "option"@ || w == "opt"@
}

pub open spec fn is_shift_word(w: Seq<char>) -> bool {
    w == "shift"@
}

pub open spec fn is_meta_word(w: Seq<char>) -> bool {
    w == "super"@ || w == "win"@ || w == "windows"@ || w == "cmd"@ || w == "command"@ || w
        == "meta"@
}

/// One non-empty, trimmed `+`-separated token applied to the draft; the
/// words are matched ASCII-case-insensitively, errors quote the token.
pub open spec fn token_step(d: Draft, part: Seq<char>) -> Result<Draft, Seq<char>> {
    let w = lower_seq(part);
    if is_ctrl_word(w) {
        Ok(Draft { ctrl: true, ..d })
    } else if is_alt_word(w) {
        Ok(Draft { alt: true, ..d })
    } else if is_shift_word(w) {
        Ok(Draft { shift: true, ..d })
    } else if is_meta_word(w) {
        Ok(Draft { meta: true, ..d })
    } else if w == "space"@ {
        Ok(Draft { key: Some(Key::Space), ..d })
    } else if w.len() >= 2 && w[0] == 'f' {
        match parse_u8(w.drop_first()) {
            None => Err("unknown key "@ + part),
            Some(n) => if 1 <= n <= 12 {
                Ok(Draft { key: Some(Key::F(n)), ..d })
            } else {
                Err("unsupported key "@ + part)
            },
        }
    } else if w.len() == 1 {
        if is_ascii_alnum(w[0]) {
            Ok(Draft { key: Some(Key::Char(upper(w[0]))), ..d })
        } else {
            Err("unsupported key "@ + part)
        }
    } else {
        Err("unknown token "@ + part)
    }
}

/// The tokens applied left to right; blank tokens are skipped and the
/// first error ends the reading.
pub open spec fn parse_parts(parts: Seq<Seq<char>>, d: Draft) -> Result<Draft, Seq<char>>
    decreases parts.len(),
{
    if parts.len() == 0 {
        Ok(d)
    } else if trim(parts[0]).len() == 0 {
        parse_parts(parts.drop_first(), d)
    } else {
        match token_step(d, trim(parts[0])) {
            Ok(d2) => parse_parts(parts.drop_first(), d2),
            Err(e) => Err(e),
        }
    }
}

/// What `Hotkey::from_str` gives for a string.
pub open spec fn parse_spec(s: Seq<char>) -> Result<Hotkey, Seq<char>> {
    match parse_parts(split(s, '+'), empty_draft()) {
        Err(e) => Err(e),
        Ok(d) => match d.key {
            None => Err("hotkey needs a key"@),
            Some(k) => if any_modifier(d.ctrl, d.alt, d.shift, d.meta) {
                Ok(Hotkey { ctrl: d.ctrl, alt: d.alt, shift: d.shift, meta: d.meta, key: k })
            } else {
                Err("hotkey needs a modifier (Ctrl, Alt, Shift or Super)"@)
            },
        },
    }
}

fn any_word(w: &Vec<char>, a: &str, b: &str, c: &str) -> (r: bool)
    ensures
        r == (w@ == a@ || w@ == b@ || w@ == c@),
{
    chars_eq_str(w, a) || chars_eq_str(w, b) || chars_eq_str(w, c)
}

fn token(d: Draft, part: &Vec<char>) -> (r: Result<Draft, String>)
    ensures
        err_view(r) == token_step(d, part@),
{
    let w = lower_chars(part);
    if any_word(&w, "ctrl", "control", "controlkey") {
        Ok(Draft { ctrl: true, ..d })
    } else if any_word(&w, "alt", "option", "opt") {
        Ok(Draft { alt: true, ..d })
    } else if chars_eq_str(&w, "shift") {
        Ok(Draft { shift: true, ..d })
    } else if any_word(&w, "super", "win", "windows") || any_word(&w, "cmd", "command", "meta") {
        Ok(Draft { meta: true, ..d })
    } else if chars_eq_str(&w, "space") {
        Ok(Draft { key: Some(Key::Space), ..d })
    } else if w.len() >= 2 && w[0] == 'f' {
        match parse_u8_at(&w, 1) {
            None => Err(message("unknown key ", part)),
            Some(n) => {
                if 1 <= n && n <= 12 {
                    Ok(Draft { key: Some(Key::F(n)), ..d })
                } else {
                    Err(message("unsupported key ", part))
                }
            },
        }
    } else if w.len() == 1 {
        if ascii_alnum(w[0]) {
            Ok(Draft { key: Some(Key::Char(to_upper(w[0]))), ..d })
        } else {
            Err(message("unsupported key ", part))
        }
    } else {
        Err(message("unknown token ", part))
    }
}

impl Hotkey {
    /// A combo needs at least one modifier.
    pub fn new(ctrl: bool, alt: bool, shift: bool, meta: bool, key: Key) -> (r: Option<Self>)
        ensures
            r == (if any_modifier(ctrl, alt, shift, meta) {
                Some(Hotkey { ctrl, alt, shift, meta, key })
            } else {
                None
            }),
    {
        if !ctrl && !alt && !shift && !meta {
            return None;
        }
        Some(Self { ctrl, alt, shift, meta, key })
    }

    pub fn has_modifier(&self) -> (r: bool)
        ensures
            r == self.modified(),
    {
        self.ctrl || self.alt || self.shift || self.meta
    }

    /// Reads a combo such as `Ctrl+Alt+B`, `Control+Option+Shift+F9` or
    /// `cmd+space`: tokens between `+`, trimmed, case-insensitive.
    pub fn parse(s: &str) -> (r: Result<Hotkey, String>)
        ensures
            err_view(r) == parse_spec(s@),
    {
        let v = chars_of(s);
        let parts = split_chars(&v, '+');
        let ghost all = views(parts@);
        let mut d = Draft { ctrl: false, alt: false, shift: false, meta: false, key: None };
        let mut i: usize = 0;
        assert(all.skip(0) =~= all);
        while i < parts.len()
            invariant
                i <= parts.len(),
                all == views(parts@),
                all == split(v@, '+'),
                v@ == s@,
                parse_parts(all, empty_draft()) == parse_parts(all.skip(i as int), d),
            decreases parts.len() - i,
        {
            let ghost rest = all.skip(i as int);
            assert(rest[0] == parts@[i as int]@);
            assert(rest.drop_first() =~= all.skip(i + 1));
            let part = trim_chars(&parts[i]);
            if part.len() != 0 {
                match token(d, &part) {
                    Ok(d2) => {
                        d = d2;
                    },
                    Err(e) => {
                        return Err(e);
                    },
                }
            }
            i = i + 1;
        }
        assert(all.skip(i as int) =~= Seq::<Seq<char>>::empty());
        match d.key {
            None => Err(owned("hotkey needs a key")),
            Some(key) => match Self::new(d.ctrl, d.alt, d.shift, d.meta, key) {
                Some(h) => Ok(h),
                None => Err(owned("hotkey needs a modifier (Ctrl, Alt, Shift or Super)")),
            },
        }
    }

    /// The text form, e.g. `Ctrl+Alt+B`.
    pub fn to_string(&self) -> (r: String)
        ensures
            r@ == self.text(),
    {
        format_combo(self.ctrl, self.alt, self.shift, self.meta, Some(self.key))
    }
}

impl core::default::Default for Hotkey {
    /// Ctrl+Alt+B.
    fn default() -> (r: Self)
        ensures
            r == (Hotkey { ctrl: true, alt: true, shift: false, meta: false, key: Key::Char('B') }),
    {
        Hotkey { ctrl: true, alt: true, shift: false, meta: false, key: Key::Char('B') }
    }
}

impl core::str::FromStr for Hotkey {
    type Err = String;

    fn from_str(s: &str) -> (r: Result<Self, Self::Err>)
        ensures
            err_view(r) == parse_spec(s@),
    {
        Hotkey::parse(s)
    }
}


// ---------------------------------------------------------------------------
// Platform codes
// ---------------------------------------------------------------------------
/// Carbon `kVK_ANSI_*` code of an upper-case letter or digit (US layout).
pub open spec fn mac_char_code(c: char) -> Option<u32> {
    match c {
        'A' => Some(0x00),
        'S' => Some(0x01),
        'D' => Some(0x02),
        'F' => Some(0x03),
        'H' => Some(0x04),
        'G' => Some(0x05),
        'Z' => Some(0x06),
        'X' => Some(0x07),
        'C' => Some(0x08),
        'V' => Some(0x09),
        'B' => Some(0x0B),
        'Q' => Some(0x0C),
        'W' => Some(0x0D),
        'E' => Some(0x0E),
        'R' => Some(0x0F),
        'Y' => Some(0x10),
        'T' => Some(0x11),
        '1' => Some(0x12),
        '2' => Some(0x13),
        '3' => Some(0x14),
        '4' => Some(0x15),
        '6' => Some(0x16),
        '5' => Some(0x17),
        '9' => Some(0x19),
        '7' => Some(0x1A),
        '8' => Some(0x1C),
        '0' => Some(0x1D),
        'O' => Some(0x1F),
        'U' => Some(0x20),
        'I' => Some(0x22),
        'P' => Some(0x23),
        'L' => Some(0x25),
        'J' => Some(0x26),
        'K' => Some(0x28),
        'N' => Some(0x2D),
        'M' => Some(0x2E),
        _ => None,
    }
}

/// Carbon code of `F1`–`F12`.
pub open spec fn mac_f_code(n: u8) -> Option<u32> {
    match n {
        1 => Some(0x7A),
        2 => Some(0x78),
        3 => Some(0x63),
        4 => Some(0x76),
        5 => Some(0x60),
        6 => Some(0x61),
        7 => Some(0x62),
        8 => Some(0x64),
        9 => Some(0x65),
        10 => Some(0x6D),
        11 => Some(0x67),
        12 => Some(0x6F),
        _ => None,
    }
}

/// Carbon virtual key of a key, where it has one.
pub open spec fn mac_code(k: Key) -> Option<u32> {
    match k {
        Key::Space => Some(0x31),
        Key::F(n) => mac_f_code(n),
        Key::Char(c) => mac_char_code(upper(c)),
    }
}

/// The key behind a Carbon virtual key code.
pub open spec fn mac_code_key(code: u16) -> Option<Key> {
    match code {
        0x31 => Some(Key::Space),
        0x7A => Some(Key::F(1)),
        0x78 => Some(Key::F(2)),
        0x63 => Some(Key::F(3)),
        0x76 => Some(Key::F(4)),
        0x60 => Some(Key::F(5)),
        0x61 => Some(Key::F(6)),
        0x62 => Some(Key::F(7)),
        0x64 => Some(Key::F(8)),
        0x65 => Some(Key::F(9)),
        0x6D => Some(Key::F(10)),
        0x67 => Some(Key::F(11)),
        0x6F => Some(Key::F(12)),
        0x00 => Some(Key::Char('A')),
        0x01 => Some(Key::Char('S')),
        0x02 => Some(Key::Char('D')),
        0x03 => Some(Key::Char('F')),
        0x04 => Some(Key::Char('H')),
        0x05 => Some(Key::Char('G')),
        0x06 => Some(Key::Char('Z')),
        0x07 => Some(Key::Char('X')),
        0x08 => Some(Key::Char('C')),
        0x09 => Some(Key::Char('V')),
        0x0B => Some(Key::Char('B')),
        0x0C => Some(Key::Char('Q')),
        0x0D => Some(Key::Char('W')),
        0x0E => Some(Key::Char('E')),
        0x0F => Some(Key::Char('R')),
        0x10 => Some(Key::Char('Y')),
        0x11 => Some(Key::Char('T')),
        0x12 => Some(Key::Char('1')),
        0x13 => Some(Key::Char('2')),
        0x14 => Some(Key::Char('3')),
        0x15 => Some(Key::Char('4')),
        0x16 => Some(Key::Char('6')),
        0x17 => Some(Key::Char('5')),
        0x19 => Some(Key::Char('9')),
        0x1A => Some(Key::Char('7')),
        0x1C => Some(Key::Char('8')),
        0x1D => Some(Key::Char('0')),
        0x1F => Some(Key::Char('O')),
        0x20 => Some(Key::Char('U')),
        0x22 => Some(Key::Char('I')),
        0x23 => Some(Key::Char('P')),
        0x25 => Some(Key::Char('L')),
        0x26 => Some(Key::Char('J')),
        0x28 => Some(Key::Char('K')),
        0x2D => Some(Key::Char('N')),
        0x2E => Some(Key::Char('M')),
        _ => None,
    }
}

/// Windows virtual key of a key: the upper-case ASCII code of a char
/// (low byte), `VK_SPACE`, or `VK_F1 + n - 1`.
pub open spec fn win_code(k: Key) -> u32 {
    match k {
        Key::Char(c) => ((upper(c) as u32) % 256) as u32,
        Key::Space => 0x20,
        Key::F(n) => (0x70 + (if n >= 1 { n - 1 } else { 0 })) as u32,
    }
}

/// The key behind a Windows virtual key (digits, letters, Space, F1–F12).
pub open spec fn win_code_key(vk: u32) -> Option<Key> {
    if vk == 0x20 {
        Some(Key::Space)
    } else if (0x30 <= vk <= 0x39) || (0x41 <= vk <= 0x5A) {
        Some(Key::Char(vk as char))
    } else if 0x70 <= vk <= 0x7B {
        Some(Key::F((vk - 0x6F) as u8))
    } else {
        None
    }
}

/// X11 keysym of a key: the lower-case Latin-1 char, `XK_space`, or `XK_F1 + n - 1`.
pub open spec fn x11_sym(k: Key) -> u32 {
    match k {
        Key::Char(c) => lower(c) as u32,
        Key::Space => 0x20,
        Key::F(n) => (0xFFBE + (if n >= 1 { n - 1 } else { 0 })) as u32,
    }
}

pub open spec fn flag(on: bool, bit: int) -> int {
    if on {
        bit
    } else {
        0
    }
}

impl Hotkey {
    /// `RegisterHotKey` modifiers: `MOD_NOREPEAT` plus `MOD_CONTROL`, `MOD_ALT`,
    /// `MOD_SHIFT`, `MOD_WIN`.
    pub open spec fn win_mask(self) -> int {
        0x4000 + flag(self.ctrl, 0x0002) + flag(self.alt, 0x0001) + flag(self.shift, 0x0004)
            + flag(self.meta, 0x0008)
    }

    /// Carbon modifiers: `cmdKey`, `shiftKey`, `optionKey`, `controlKey`.
    pub open spec fn mac_mask(self) -> int {
        flag(self.meta, 0x0100) + flag(self.shift, 0x0200) + flag(self.alt, 0x0800) + flag(
            self.ctrl,
            0x1000,
        )
    }

    /// X11 modifier mask without Lock / NumLock: Shift, Control, Mod1, Mod4.
    pub open spec fn x11_mask(self) -> int {
        flag(self.shift, 1) + flag(self.ctrl, 4) + flag(self.alt, 8) + flag(self.meta, 64)
    }

    pub fn win_mods(&self) -> (r: u32)
        ensures
            r == self.win_mask(),
    {
        let mut mods: u32 = 0x4000;  // MOD_NOREPEAT
        if self.ctrl {
            mods = mods + 0x0002;  // MOD_CONTROL
        }
        if self.alt {
            mods = mods + 0x0001;  // MOD_ALT
        }
        if self.shift {
            mods = mods + 0x0004;  // MOD_SHIFT
        }
        if self.meta {
            mods = mods + 0x0008;  // MOD_WIN
        }
        mods
    }

    pub fn win_vk(&self) -> (r: u32)
        ensures
            r == win_code(self.key),
    {
        match self.key {
            Key::Char(c) => {
                let u = to_upper(c) as u32;
                let r = u & 0xFF;
                assert(u & 0xFF == u % 256) by (bit_vector);
                r
            },
            Key::Space => 0x20,
            Key::F(n) => 0x70 + (if n >= 1 { n - 1 } else { 0 }) as u32,
        }
    }

    /// Carbon / `kVK_ANSI_*` (US): letters, digits, Space and F1–F12; other keys have none.
    pub fn mac_vk(&self) -> (r: Option<u32>)
        ensures
            r == mac_code(self.key),
    {
        match self.key {
            Key::Space => Some(0x31),
            Key::F(n) => match n {
                1 => Some(0x7A),
                2 => Some(0x78),
                3 => Some(0x63),
                4 => Some(0x76),
                5 => Some(0x60),
                6 => Some(0x61),
                7 => Some(0x62),
                8 => Some(0x64),
                9 => Some(0x65),
                10 => Some(0x6D),
                11 => Some(0x67),
                12 => Some(0x6F),
                _ => None,
            },
            Key::Char(c) => match to_upper(c) {
                'A' => Some(0x00),
                'S' => Some(0x01),
                'D' => Some(0x02),
                'F' => Some(0x03),
                'H' => Some(0x04),
                'G' => Some(0x05),
                'Z' => Some(0x06),
                'X' => Some(0x07),
                'C' => Some(0x08),
                'V' => Some(0x09),
                'B' => Some(0x0B),
                'Q' => Some(0x0C),
                'W' => Some(0x0D),
                'E' => Some(0x0E),
                'R' => Some(0x0F),
                'Y' => Some(0x10),
                'T' => Some(0x11),
                '1' => Some(0x12),
                '2' => Some(0x13),
                '3' => Some(0x14),
                '4' => Some(0x15),
                '6' => Some(0x16),
                '5' => Some(0x17),
                '9' => Some(0x19),
                '7' => Some(0x1A),
                '8' => Some(0x1C),
                '0' => Some(0x1D),
                'O' => Some(0x1F),
                'U' => Some(0x20),
                'I' => Some(0x22),
                'P' => Some(0x23),
                'L' => Some(0x25),
                'J' => Some(0x26),
                'K' => Some(0x28),
                'N' => Some(0x2D),
                'M' => Some(0x2E),
                _ => None,
            },
        }
    }

    pub fn mac_mods(&self) -> (r: u32)
        ensures
            r == self.mac_mask(),
    {
        let mut mods: u32 = 0;
        if self.meta {
            mods = mods + 0x0100;  // cmdKey
        }
        if self.shift {
            mods = mods + 0x0200;  // shiftKey
        }
        if self.alt {
            mods = mods + 0x0800;  // optionKey
        }
        if self.ctrl {
            mods = mods + 0x1000;  // controlKey
        }
        mods
    }

    /// X11 keysym (Latin-1 letter / `XK_Fn` / `XK_space`).
    pub fn x11_keysym(&self) -> (r: u32)
        ensures
            r == x11_sym(self.key),
    {
        match self.key {
            Key::Char(c) => to_lower(c) as u32,
            Key::Space => 0x0020,
            Key::F(n) => 0xFFBE + (if n >= 1 { n - 1 } else { 0 }) as u32,
        }
    }

    /// X11 modifier mask without Lock / NumLock.
    pub fn x11_mod_mask(&self) -> (r: u16)
        ensures
            r == self.x11_mask(),
    {
        let mut mask: u16 = 0;
        if self.shift {
            mask = mask + 1;  // Shift
        }
        if self.ctrl {
            mask = mask + 4;  // Control
        }
        if self.alt {
            mask = mask + 8;  // Mod1
        }
        if self.meta {
            mask = mask + 64;  // Mod4
        }
        mask
    }

    /// The mask with and without Lock (2) and NumLock (16), so the grab
    /// works whatever their state.
    pub fn x11_mod_variants(&self) -> (r: [u16; 4])
        ensures
            r@ == seq![
                self.x11_mask() as u16,
                (self.x11_mask() + 2) as u16,
                (self.x11_mask() + 16) as u16,
                (self.x11_mask() + 18) as u16,
            ],
    {
        let base = self.x11_mod_mask();
        let r = [base, base + 2, base + 16, base + 18];
        assert(r@ =~= seq![base, (base + 2) as u16, (base + 16) as u16, (base + 18) as u16]);
        r
    }
}

/// The key behind a Windows virtual key code.
pub fn key_from_win_vk(vk: u32) -> (r: Option<Key>)
    ensures
        r == win_code_key(vk),
{
    if vk == 0x20 {
        Some(Key::Space)
    } else if (0x30 <= vk && vk <= 0x39) || (0x41 <= vk && vk <= 0x5A) {
        Some(Key::Char((vk as u8) as char))
    } else if 0x70 <= vk && vk <= 0x7B {
        Some(Key::F((vk - 0x6F) as u8))
    } else {
        None
    }
}

/// The key behind a Carbon virtual key code.
pub fn key_from_mac_vk(code: u16) -> (r: Option<Key>)
    ensures
        r == mac_code_key(code),
{
    match code {
        0x31 => Some(Key::Space),
        0x7A => Some(Key::F(1)),
        0x78 => Some(Key::F(2)),
        0x63 => Some(Key::F(3)),
        0x76 => Some(Key::F(4)),
        0x60 => Some(Key::F(5)),
        0x61 => Some(Key::F(6)),
        0x62 => Some(Key::F(7)),
        0x64 => Some(Key::F(8)),
        0x65 => Some(Key::F(9)),
        0x6D => Some(Key::F(10)),
        0x67 => Some(Key::F(11)),
        0x6F => Some(Key::F(12)),
        0x00 => Some(Key::Char('A')),
        0x01 => Some(Key::Char('S')),
        0x02 => Some(Key::Char('D')),
        0x03 => Some(Key::Char('F')),
        0x04 => Some(Key::Char('H')),
        0x05 => Some(Key::Char('G')),
        0x06 => Some(Key::Char('Z')),
        0x07 => Some(Key::Char('X')),
        0x08 => Some(Key::Char('C')),
        0x09 => Some(Key::Char('V')),
        0x0B => Some(Key::Char('B')),
        0x0C => Some(Key::Char('Q')),
        0x0D => Some(Key::Char('W')),
        0x0E => Some(Key::Char('E')),
        0x0F => Some(Key::Char('R')),
        0x10 => Some(Key::Char('Y')),
        0x11 => Some(Key::Char('T')),
        0x12 => Some(Key::Char('1')),
        0x13 => Some(Key::Char('2')),
        0x14 => Some(Key::Char('3')),
        0x15 => Some(Key::Char('4')),
        0x16 => Some(Key::Char('6')),
        0x17 => Some(Key::Char('5')),
        0x19 => Some(Key::Char('9')),
        0x1A => Some(Key::Char('7')),
        0x1C => Some(Key::Char('8')),
        0x1D => Some(Key::Char('0')),
        0x1F => Some(Key::Char('O')),
        0x20 => Some(Key::Char('U')),
        0x22 => Some(Key::Char('I')),
        0x23 => Some(Key::Char('P')),
        0x25 => Some(Key::Char('L')),
        0x26 => Some(Key::Char('J')),
        0x28 => Some(Key::Char('K')),
        0x2D => Some(Key::Char('N')),
        0x2E => Some(Key::Char('M')),
        _ => None,
    }
}


// ---------------------------------------------------------------------------
// X11 key codes (US QWERTY), used while capturing a new combo
// ---------------------------------------------------------------------------
/// Letter on a US QWERTY keycode of the three letter rows.
pub open spec fn common_x11_key(code: u8) -> Option<Key> {
    if 24 <= code <= 33 {
        Some(Key::Char(seq!['Q', 'W', 'E', 'R', 'T', 'Y', 'U', 'I', 'O', 'P'][code - 24]))
    } else if 38 <= code <= 46 {
        Some(Key::Char(seq!['A', 'S', 'D', 'F', 'G', 'H', 'J', 'K', 'L'][code - 38]))
    } else if 52 <= code <= 58 {
        Some(Key::Char(seq!['Z', 'X', 'C', 'V', 'B', 'N', 'M'][code - 52]))
    } else {
        None
    }
}

/// The key of a US QWERTY keycode: Space, digits, letters, F1–F12.
pub open spec fn x11_code_key(code: u8) -> Option<Key> {
    if code == 65 {
        Some(Key::Space)
    } else if 10 <= code <= 18 {
        Some(Key::Char(digit_char((code - 9) as nat)))
    } else if code == 19 {
        Some(Key::Char('0'))
    } else if (24 <= code <= 33) || (38 <= code <= 47) || (52 <= code <= 58) {
        common_x11_key(code)
    } else if 67 <= code <= 76 {
        Some(Key::F((code - 66) as u8))
    } else if code == 95 {
        Some(Key::F(11))
    } else if code == 96 {
        Some(Key::F(12))
    } else {
        None
    }
}

/// A letter key from a US QWERTY keycode; enough for capture, as the config stores the letter.
pub fn key_from_common_x11(code: u8) -> (r: Option<Key>)
    ensures
        r == common_x11_key(code),
{
    let row1: [char; 10] = ['Q', 'W', 'E', 'R', 'T', 'Y', 'U', 'I', 'O', 'P'];
    let row2: [char; 9] = ['A', 'S', 'D', 'F', 'G', 'H', 'J', 'K', 'L'];
    let row3: [char; 7] = ['Z', 'X', 'C', 'V', 'B', 'N', 'M'];
    if 24 <= code && code <= 33 {
        let c = row1[(code - 24) as usize];
        assert(row1@ =~= seq!['Q', 'W', 'E', 'R', 'T', 'Y', 'U', 'I', 'O', 'P']);
        Some(Key::Char(c))
    } else if 38 <= code && code <= 46 {
        let c = row2[(code - 38) as usize];
        assert(row2@ =~= seq!['A', 'S', 'D', 'F', 'G', 'H', 'J', 'K', 'L']);
        Some(Key::Char(c))
    } else if 52 <= code && code <= 58 {
        let c = row3[(code - 52) as usize];
        assert(row3@ =~= seq!['Z', 'X', 'C', 'V', 'B', 'N', 'M']);
        Some(Key::Char(c))
    } else {
        None
    }
}

/// The combo of an X11 key press: its keycode and the modifier state bits
/// (Shift 1, Control 4, Mod1 8, Mod4 64); `None` without a known key or modifier.
pub fn hotkey_from_x11(code: u8, state: u16) -> (r: Option<Hotkey>)
    ensures
        r == match x11_code_key(code) {
            None => None,
            Some(k) => if any_modifier(state & 4 != 0, state & 8 != 0, state & 1 != 0, state & 64 != 0) {
                Some(Hotkey { ctrl: state & 4 != 0, alt: state & 8 != 0, shift: state & 1 != 0, meta: state & 64 != 0, key: k })
            } else {
                None
            },
        },
{
    let key = if code == 65 {
        Key::Space
    } else if 10 <= code && code <= 18 {
        Key::Char((49u8 + code - 10) as char)
    } else if code == 19 {
        Key::Char('0')
    } else if (24 <= code && code <= 33) || (38 <= code && code <= 47) || (52 <= code && code <= 58) {
        match key_from_common_x11(code) {
            Some(k) => k,
            None => {
                return None;
            },
        }
    } else if 67 <= code && code <= 76 {
        Key::F(code - 66)
    } else if code == 95 {
        Key::F(11)
    } else if code == 96 {
        Key::F(12)
    } else {
        return None;
    };
    let ctrl = state & 4 != 0;
    let alt = state & 8 != 0;
    let shift = state & 1 != 0;
    let meta = state & 64 != 0;
    Hotkey::new(ctrl, alt, shift, meta, key)
}

impl Hotkey {
    /// Whether an X11 key press is this combo on its grabbed keycode; Lock and
    /// NumLock bits are ignored. A zero keycode means the combo is not grabbed.
    pub fn x11_pressed(&self, grabbed: u8, code: u8, state: u16) -> (r: bool)
        ensures
            r == (grabbed != 0 && code == grabbed && (state & 77) == self.x11_mask()),
    {
        let relevant = state & 77;  // Shift | Control | Mod1 | Mod4
        grabbed != 0 && code == grabbed && relevant == self.x11_mod_mask()
    }
}

} // verus!
