//! Laws of the combo text form: what the config stores reads back as the
//! same combo, and the platform key codes invert each other.
use crate::hotkey::{
    all_digits, combo_parts, decimal, digit_char, digits_value, empty_draft,
    is_alt_word, is_ctrl_word, is_meta_word, is_shift_word, key_is_canonical, key_text, mac_code,
    mac_code_key, opt_part, parse_parts, parse_spec, parse_u8, token_step, win_code,
    win_code_key, Draft, Hotkey, Key,
};
use crate::text::{
    is_ascii_alnum, is_ascii_digit, is_ascii_upper, is_white, lemma_split_join, lemma_trim_noop, lower, lower_seq, split, trim, upper,
};
use vstd::prelude::*;

verus! {

proof fn lemma_digit_char(d: nat)
    requires
        d < 10,
    ensures
        digit_char(d) as u32 == 48 + d,
        is_ascii_digit(digit_char(d)),
        !is_white(digit_char(d)),
        digit_char(d) != '+',
        lower(digit_char(d)) == digit_char(d),
{
}

/// The decimal text of a number reads back as that number.
proof fn lemma_decimal(n: nat)
    ensures
        decimal(n).len() > 0,
        all_digits(decimal(n)),
        digits_value(decimal(n)) == n,
        decimal(n)[0] != '+',
        n <= 255 ==> decimal(n).len() <= 3,
    decreases n,
{
    lemma_digit_char(n % 10);
    if n < 10 {
        assert(decimal(n) =~= seq![digit_char(n)]);
        assert(decimal(n).drop_last() =~= Seq::<char>::empty());
        assert(n % 10 == n);
        assert(digits_value(Seq::<char>::empty()) == 0);
        assert(decimal(n).last() == digit_char(n));
    } else {
        lemma_decimal(n / 10);
        let d = decimal(n);
        let p = decimal(n / 10);
        assert(d == p.push(digit_char(n % 10)));
        assert(d.drop_last() =~= p);
        assert(d.last() == digit_char(n % 10));
        assert(digits_value(d) == digits_value(p) * 10 + (n % 10));
        assert(n == (n / 10) * 10 + n % 10);
        assert(d[0] == p[0]);
        assert forall|i: int| 0 <= i < d.len() implies is_ascii_digit(#[trigger] d[i]) by {
            if i < p.len() {
                assert(d[i] == p[i]);
            }
        }
        if n <= 255 {
            assert(n / 10 <= 25);
            if n / 10 >= 10 {
                assert(n / 10 / 10 < 10);
                assert(p == decimal(n / 10 / 10).push(digit_char(n / 10 % 10)));
            }
        }
    }
}

proof fn lemma_parse_u8_decimal(n: u8)
    ensures
        parse_u8(decimal(n as nat)) == Some(n),
{
    lemma_decimal(n as nat);
}

/// Reading a list of tokens is reading its first half, then its second.
proof fn lemma_parse_parts_concat(a: Seq<Seq<char>>, b: Seq<Seq<char>>, d: Draft)
    ensures
        parse_parts(a + b, d) == match parse_parts(a, d) {
            Ok(d1) => parse_parts(b, d1),
            Err(e) => Err(e),
        },
    decreases a.len(),
{
    if a.len() == 0 {
        assert(a + b =~= b);
    } else {
        assert((a + b)[0] == a[0]);
        assert((a + b).drop_first() =~= a.drop_first() + b);
        if trim(a[0]).len() == 0 {
            lemma_parse_parts_concat(a.drop_first(), b, d);
        } else {
            match token_step(d, trim(a[0])) {
                Ok(d2) => {
                    lemma_parse_parts_concat(a.drop_first(), b, d2);
                },
                Err(e) => {},
            }
        }
    }
}

proof fn lemma_words()
    ensures
        !is_white('C') && !is_white('t') && !is_white('r') && !is_white('l'),
        "Ctrl"@ == seq!['C', 't', 'r', 'l'],
        "Alt"@ == seq!['A', 'l', 't'],
        "Shift"@ == seq!['S', 'h', 'i', 'f', 't'],
        "Super"@ == seq!['S', 'u', 'p', 'e', 'r'],
        "Space"@ == seq!['S', 'p', 'a', 'c', 'e'],
        "ctrl"@ == seq!['c', 't', 'r', 'l'],
        "control"@.len() == 7,
        "controlkey"@.len() == 10,
        "alt"@ == seq!['a', 'l', 't'],
        "option"@.len() == 6,
        "opt"@ == seq!['o', 'p', 't'],
        "shift"@ == seq!['s', 'h', 'i', 'f', 't'],
        "super"@ == seq!['s', 'u', 'p', 'e', 'r'],
        "win"@ == seq!['w', 'i', 'n'],
        "windows"@.len() == 7,
        "cmd"@ == seq!['c', 'm', 'd'],
        "command"@.len() == 7,
        "meta"@ == seq!['m', 'e', 't', 'a'],
        "space"@ == seq!['s', 'p', 'a', 'c', 'e'],
{
    reveal_strlit("Ctrl");
    reveal_strlit("Alt");
    reveal_strlit("Shift");
    reveal_strlit("Super");
    reveal_strlit("Space");
    reveal_strlit("ctrl");
    reveal_strlit("control");
    reveal_strlit("controlkey");
    reveal_strlit("alt");
    reveal_strlit("option");
    reveal_strlit("opt");
    reveal_strlit("shift");
    reveal_strlit("super");
    reveal_strlit("win");
    reveal_strlit("windows");
    reveal_strlit("cmd");
    reveal_strlit("command");
    reveal_strlit("meta");
    reveal_strlit("space");
    assert("Ctrl"@ =~= seq!['C', 't', 'r', 'l']);
    assert("Alt"@ =~= seq!['A', 'l', 't']);
    assert("Shift"@ =~= seq!['S', 'h', 'i', 'f', 't']);
    assert("Super"@ =~= seq!['S', 'u', 'p', 'e', 'r']);
    assert("Space"@ =~= seq!['S', 'p', 'a', 'c', 'e']);
    assert("ctrl"@ =~= seq!['c', 't', 'r', 'l']);
    assert("alt"@ =~= seq!['a', 'l', 't']);
    assert("opt"@ =~= seq!['o', 'p', 't']);
    assert("shift"@ =~= seq!['s', 'h', 'i', 'f', 't']);
    assert("super"@ =~= seq!['s', 'u', 'p', 'e', 'r']);
    assert("win"@ =~= seq!['w', 'i', 'n']);
    assert("cmd"@ =~= seq!['c', 'm', 'd']);
    assert("meta"@ =~= seq!['m', 'e', 't', 'a']);
    assert("space"@ =~= seq!['s', 'p', 'a', 'c', 'e']);
}

proof fn lemma_modifier_tokens(d: Draft)
    ensures
        token_step(d, "Ctrl"@) == Ok::<Draft, Seq<char>>(Draft { ctrl: true, ..d }),
        token_step(d, "Alt"@) == Ok::<Draft, Seq<char>>(Draft { alt: true, ..d }),
        token_step(d, "Shift"@) == Ok::<Draft, Seq<char>>(Draft { shift: true, ..d }),
        token_step(d, "Super"@) == Ok::<Draft, Seq<char>>(Draft { meta: true, ..d }),
        token_step(d, "Space"@) == Ok::<Draft, Seq<char>>(Draft { key: Some(Key::Space), ..d }),
{
    lemma_words();
    assert(lower_seq("Ctrl"@) =~= "ctrl"@);
    let a = lower_seq("Alt"@);
    assert(a =~= "alt"@);
    let s = lower_seq("Shift"@);
    assert(s =~= "shift"@);
    assert(s != "ctrl"@);
    assert(s != "alt"@);
    assert(s != "opt"@);
    let u = lower_seq("Super"@);
    assert(u =~= "super"@);
    assert(u[1] != "shift"@[1]);
    assert(u != "shift"@);
    assert(u != "ctrl"@);
    assert(u != "alt"@ && u != "opt"@);
    let p = lower_seq("Space"@);
    assert(p =~= "space"@);
    assert(p[1] != "shift"@[1]);
    assert(p[1] != "super"@[1]);
    assert(!is_ctrl_word(p) && !is_alt_word(p) && !is_shift_word(p));
    assert(p != "meta"@ && p != "win"@ && p != "cmd"@);
    assert(!is_meta_word(p));
}

proof fn lemma_no_white_word(w: Seq<char>)
    requires
        forall|j: int| 0 <= j < w.len() ==> !is_white(#[trigger] w[j]),
    ensures
        trim(w) == w,
{
    lemma_trim_noop(w, |c: char| is_white(c));
}

/// A modifier word that is present sets its flag; an absent one changes nothing.
proof fn lemma_opt_modifier(on: bool, d: Draft, word: Seq<char>, d_on: Draft)
    requires
        word.len() > 0,
        trim(word) == word,
        token_step(d, word) == Ok::<Draft, Seq<char>>(d_on),
    ensures
        parse_parts(opt_part(on, word), d) == Ok::<Draft, Seq<char>>(if on {
            d_on
        } else {
            d
        }),
{
    reveal_with_fuel(parse_parts, 2);
    if on {
        assert(opt_part(on, word)[0] == word);
        assert(opt_part(on, word).drop_first() =~= Seq::<Seq<char>>::empty());
    }
}

proof fn lemma_key_token(k: Key, d: Draft)
    requires
        key_is_canonical(k),
    ensures
        trim(key_text(k)) == key_text(k),
        key_text(k).len() > 0,
        !key_text(k).contains('+'),
        token_step(d, key_text(k)) == Ok::<Draft, Seq<char>>(Draft { key: Some(k), ..d }),
{
    lemma_words();
    match k {
        Key::Char(c) => {
            let t = key_text(k);
            assert(upper(c) == c);
            assert(t =~= seq![c]);
            assert(!is_white(c));
            lemma_no_white_word(t);
            let w = lower_seq(t);
            assert(w =~= seq![lower(c)]);
            assert(w.len() == 1);
            assert(is_ascii_alnum(lower(c)));
            assert(upper(lower(c)) == c);
            if t.contains('+') {
                assert(t[0] == '+');
            }
        },
        Key::F(n) => {
            let t = key_text(k);
            lemma_decimal(n as nat);
            let dec = decimal(n as nat);
            assert(t == seq!['F'] + dec);
            assert forall|j: int| 0 <= j < t.len() implies !is_white(#[trigger] t[j]) by {
                if j > 0 {
                    assert(t[j] == dec[j - 1]);
                    assert(is_ascii_digit(dec[j - 1]));
                }
            }
            lemma_no_white_word(t);
            let w = lower_seq(t);
            assert(w =~= seq!['f'] + dec) by {
                assert forall|j: int| 0 <= j < w.len() implies w[j] == (seq!['f'] + dec)[j] by {
                    if j > 0 {
                        assert(t[j] == dec[j - 1]);
                        assert(is_ascii_digit(dec[j - 1]));
                    }
                }
            }
            assert(w[0] == 'f');
            assert(w.len() >= 2);
            assert(!is_ctrl_word(w)) by {
                assert(w[0] != "ctrl"@[0]);
            }
            assert(!is_alt_word(w)) by {
                assert(w[0] != "alt"@[0]);
                assert(w[0] != "opt"@[0]);
            }
            assert(!is_shift_word(w)) by {
                assert(w[0] != "shift"@[0]);
            }
            assert(!is_meta_word(w)) by {
                assert(w[0] != "super"@[0]);
                assert(w[0] != "win"@[0]);
                assert(w[0] != "cmd"@[0]);
                assert(w[0] != "meta"@[0]);
            }
            assert(w != "space"@) by {
                assert(w[0] != "space"@[0]);
            }
            assert(w.drop_first() =~= dec);
            lemma_parse_u8_decimal(n);
            if t.contains('+') {
                let j = choose|j: int| 0 <= j < t.len() && t[j] == '+';
                if j > 0 {
                    assert(t[j] == dec[j - 1]);
                    assert(is_ascii_digit(dec[j - 1]));
                }
            }
        },
        Key::Space => {
            lemma_modifier_tokens(d);
            let t = key_text(k);
            assert forall|j: int| 0 <= j < t.len() implies !is_white(#[trigger] t[j]) by {}
            lemma_no_white_word(t);
            if t.contains('+') {
                let j = choose|j: int| 0 <= j < t.len() && t[j] == '+';
            }
        },
    }
}

/// What `Hotkey::to_string` writes, `Hotkey::parse` reads back as the same
/// combo, for every combo with a modifier and a canonical key.
pub proof fn lemma_text_roundtrip(h: Hotkey)
    requires
        h.canonical(),
    ensures
        parse_spec(h.text()) == Ok::<Hotkey, Seq<char>>(h),
{
    lemma_words();
    let parts = combo_parts(h.ctrl, h.alt, h.shift, h.meta, Some(h.key));
    let d0 = empty_draft();
    let p1 = opt_part(h.ctrl, "Ctrl"@);
    let p2 = opt_part(h.alt, "Alt"@);
    let p3 = opt_part(h.shift, "Shift"@);
    let p4 = opt_part(h.meta, "Super"@);
    let pk = seq![key_text(h.key)];
    assert(parts == p1 + p2 + p3 + p4 + pk);
    lemma_key_token(h.key, d0);
    // no part holds the separator
    assert forall|i: int| 0 <= i < parts.len() implies !(#[trigger] parts[i]).contains('+') by {
        let w = parts[i];
        if w.contains('+') {
            let j = choose|j: int| 0 <= j < w.len() && w[j] == '+';
            if i < parts.len() - 1 {
                assert(w == "Ctrl"@ || w == "Alt"@ || w == "Shift"@ || w == "Super"@);
            } else {
                assert(w == key_text(h.key));
            }
        }
    }
    lemma_split_join(parts, '+');
    assert(split(h.text(), '+') == parts);
    // modifiers, one by one
    lemma_no_white_word("Ctrl"@);
    lemma_no_white_word("Alt"@);
    lemma_no_white_word("Shift"@);
    lemma_no_white_word("Super"@);
    lemma_modifier_tokens(d0);
    let d1 = if h.ctrl {
        Draft { ctrl: true, ..d0 }
    } else {
        d0
    };
    lemma_opt_modifier(h.ctrl, d0, "Ctrl"@, Draft { ctrl: true, ..d0 });
    lemma_modifier_tokens(d1);
    let d2 = if h.alt {
        Draft { alt: true, ..d1 }
    } else {
        d1
    };
    lemma_opt_modifier(h.alt, d1, "Alt"@, Draft { alt: true, ..d1 });
    lemma_modifier_tokens(d2);
    let d3 = if h.shift {
        Draft { shift: true, ..d2 }
    } else {
        d2
    };
    lemma_opt_modifier(h.shift, d2, "Shift"@, Draft { shift: true, ..d2 });
    lemma_modifier_tokens(d3);
    let d4 = if h.meta {
        Draft { meta: true, ..d3 }
    } else {
        d3
    };
    lemma_opt_modifier(h.meta, d3, "Super"@, Draft { meta: true, ..d3 });
    lemma_key_token(h.key, d4);
    let d5 = Draft { key: Some(h.key), ..d4 };
    assert(pk.drop_first() =~= Seq::<Seq<char>>::empty());
    assert(pk[0] == key_text(h.key));
    reveal_with_fuel(parse_parts, 2);
    assert(parse_parts(pk, d4) == Ok::<Draft, Seq<char>>(d5));
    lemma_parse_parts_concat(p1, p2, d0);
    lemma_parse_parts_concat(p1 + p2, p3, d0);
    lemma_parse_parts_concat(p1 + p2 + p3, p4, d0);
    lemma_parse_parts_concat(p1 + p2 + p3 + p4, pk, d0);
    assert(parse_parts(parts, d0) == Ok::<Draft, Seq<char>>(d5));
}

/// The key of every draft step is canonical when it was before.
proof fn lemma_parse_parts_canonical(parts: Seq<Seq<char>>, d: Draft)
    requires
        d.key matches Some(k) ==> key_is_canonical(k),
    ensures
        parse_parts(parts, d) matches Ok(d2) ==> (d2.key matches Some(k) ==> key_is_canonical(k)),
    decreases parts.len(),
{
    if parts.len() > 0 {
        let t = trim(parts[0]);
        if t.len() == 0 {
            lemma_parse_parts_canonical(parts.drop_first(), d);
        } else {
            match token_step(d, t) {
                Ok(d2) => {
                    let w = lower_seq(t);
                    if w.len() == 1 && is_ascii_alnum(w[0]) {
                        assert(is_ascii_upper(upper(w[0])) || is_ascii_digit(upper(w[0])));
                    }
                    lemma_parse_parts_canonical(parts.drop_first(), d2);
                },
                Err(_) => {},
            }
        }
    }
}

/// Every combo that `Hotkey::parse` accepts has a modifier and a canonical
/// key, so it survives a write and a read unchanged.
pub proof fn lemma_parsed_is_canonical(s: Seq<char>)
    ensures
        parse_spec(s) matches Ok(h) ==> h.canonical() && parse_spec(h.text()) == Ok::<
            Hotkey,
            Seq<char>,
        >(h),
{
    lemma_parse_parts_canonical(split(s, '+'), empty_draft());
    if let Ok(h) = parse_spec(s) {
        lemma_text_roundtrip(h);
    }
}

/// Every canonical key has a Carbon code, and that code maps back to it;
/// every code that maps to a key is that key's code.
pub proof fn lemma_mac_codes_invert(k: Key, code: u16)
    ensures
        key_is_canonical(k) ==> (mac_code(k) matches Some(c) && c < 0x10000 && mac_code_key(
            c as u16,
        ) == Some(k)),
        mac_code_key(code) matches Some(k2) ==> key_is_canonical(k2) && mac_code(k2) == Some(
            code as u32,
        ),
{
}

/// The Windows virtual key of a canonical key maps back to it, and every
/// virtual key that maps to a key is that key's code.
pub proof fn lemma_win_codes_invert(k: Key, vk: u32)
    ensures
        key_is_canonical(k) ==> win_code_key(win_code(k)) == Some(k),
        win_code_key(vk) matches Some(k2) ==> key_is_canonical(k2) && win_code(k2) == vk,
{
}

/// Every alias of the Super modifier (`super`, `win`, `windows`, `cmd`,
/// `command`, `meta`, in any ASCII case) is read as Super: the token sets
/// Super and leaves the other modifiers and the key as they were.
pub proof fn lemma_meta_aliases(d: Draft, part: Seq<char>)
    requires
        lower_seq(part) == "super"@ || lower_seq(part) == "win"@ || lower_seq(part)
            == "windows"@ || lower_seq(part) == "cmd"@ || lower_seq(part) == "command"@
            || lower_seq(part) == "meta"@,
    ensures
        token_step(d, part) == Ok::<Draft, Seq<char>>((Draft { meta: true, ..d })),
{
    reveal_strlit("ctrl");
    reveal_strlit("control");
    reveal_strlit("controlkey");
    reveal_strlit("alt");
    reveal_strlit("option");
    reveal_strlit("opt");
    reveal_strlit("shift");
    reveal_strlit("super");
    reveal_strlit("win");
    reveal_strlit("windows");
    reveal_strlit("cmd");
    reveal_strlit("command");
    reveal_strlit("meta");
    let w = lower_seq(part);
    assert("control"@[0] == 'c' && "control"@[2] == 'n');
    assert("windows"@[0] == 'w' && "command"@[2] == 'm');
    assert(!is_ctrl_word(w));
    assert(!is_alt_word(w));
    assert(!is_shift_word(w));
}

/// The Ctrl aliases (`ctrl`, `control`, `controlkey`), the Alt aliases
/// (`alt`, `option`, `opt`) and `shift`, in any ASCII case, each set their
/// own modifier and leave the rest of the draft as it was.
pub proof fn lemma_modifier_aliases(d: Draft, part: Seq<char>)
    ensures
        lower_seq(part) == "ctrl"@ || lower_seq(part) == "control"@ || lower_seq(part)
            == "controlkey"@ ==> token_step(d, part) == Ok::<Draft, Seq<char>>(
            (Draft { ctrl: true, ..d }),
        ),
        lower_seq(part) == "alt"@ || lower_seq(part) == "option"@ || lower_seq(part) == "opt"@
            ==> token_step(d, part) == Ok::<Draft, Seq<char>>((Draft { alt: true, ..d })),
        lower_seq(part) == "shift"@ ==> token_step(d, part) == Ok::<Draft, Seq<char>>(
            (Draft { shift: true, ..d }),
        ),
{
    reveal_strlit("ctrl");
    reveal_strlit("control");
    reveal_strlit("controlkey");
    reveal_strlit("alt");
    reveal_strlit("option");
    reveal_strlit("opt");
    reveal_strlit("shift");
    assert("control"@[0] == 'c' && "option"@[0] == 'o' && "shift"@[0] == 's');
}

} // verus!
