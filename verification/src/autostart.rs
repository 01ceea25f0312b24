//! Start at login: the entries Blackout writes (Windows `Run` value, macOS
//! LaunchAgent, XDG `.desktop`) and how a stored entry is recognised as ours,
//! so that only our own entry is ever removed.
use crate::config::join_path;
use crate::icon_file::{png_image, png_of};
use crate::os::Os;
use crate::text::{
    replace, replace_all,
    chars_eq, chars_of, eq_ignore_case, has_prefix, is_white, lower_chars, owned, push_char, push_str, slice_chars, split, split_chars, string_of,
    trim, trim_chars, views, white, join, join_chars, matches_at,
};
use vstd::prelude::*;

verus! {

// ---------------------------------------------------------------------------
// Comparing program paths
// ---------------------------------------------------------------------------
/// Without a leading `\\?\` (Windows verbatim prefix).
pub open spec fn without_verbatim(s: Seq<char>) -> Seq<char> {
    if has_prefix(s, seq!['\\', '\\', '?', '\\']) {
        s.skip(4)
    } else {
        s
    }
}

/// Trimmed, and without one pair of surrounding double quotes.
pub open spec fn unquoted(raw: Seq<char>) -> Seq<char> {
    let s = trim(raw);
    if s.len() >= 2 && s[0] == '"' && s.last() == '"' {
        s.subrange(1, s.len() - 1)
    } else {
        s
    }
}

/// Every `/` turned into `\`.
pub open spec fn backslashed(s: Seq<char>) -> Seq<char> {
    Seq::new(s.len(), |i: int| if s[i] == '/' { '\\' } else { s[i] })
}

/// The parts that are neither empty nor `.`.
pub open spec fn named_parts(parts: Seq<Seq<char>>) -> Seq<Seq<char>>
    decreases parts.len(),
{
    if parts.len() == 0 {
        Seq::empty()
    } else {
        let rest = named_parts(parts.drop_first());
        if parts[0].len() == 0 || parts[0] == seq!['.'] {
            rest
        } else {
            seq![parts[0]] + rest
        }
    }
}

/// The components of a Unix path, as `Path::components` gives them: the root
/// (written `/`), a leading `.` of a relative path, then the named parts;
/// repeated separators, trailing separators and inner `.` vanish.
pub open spec fn unix_components(p: Seq<char>) -> Seq<Seq<char>> {
    let raw = split(p, '/');
    let head: Seq<Seq<char>> = if p.len() > 0 && p[0] == '/' {
        seq![seq!['/']]
    } else if raw[0] == seq!['.'] {
        seq![seq!['.']]
    } else if raw[0].len() > 0 {
        seq![raw[0]]
    } else {
        Seq::empty()
    };
    head + named_parts(raw.drop_first())
}

/// Whether a stored autostart command names this program: quotes and
/// `\\?\` do not matter; on Windows neither do `/` vs `\` nor ASCII case;
/// elsewhere the paths are compared component by component.
pub open spec fn same_program_spec(stored: Seq<char>, ours: Seq<char>, os: Os) -> bool {
    let a = without_verbatim(unquoted(stored));
    let b = without_verbatim(ours);
    if os == Os::Windows {
        eq_ignore_case(backslashed(a), backslashed(b))
    } else {
        unix_components(a) == unix_components(b)
    }
}

fn verbatim_free(v: &Vec<char>) -> (r: Vec<char>)
    ensures
        r@ == without_verbatim(v@),
{
    let prefix = vec!['\\', '\\', '?', '\\'];
    assert(prefix@ =~= seq!['\\', '\\', '?', '\\']);
    if matches_at(v, 0, &prefix) {
        assert(v@.skip(0) =~= v@);
        slice_chars(v, 4, v.len())
    } else {
        assert(v@.skip(0) =~= v@);
        slice_chars(v, 0, v.len())
    }
}

/// `path` without a leading `\\?\`.
pub fn strip_verbatim(path: &str) -> (r: String)
    ensures
        r@ == without_verbatim(path@),
{
    string_of(&verbatim_free(&chars_of(path)))
}

fn unquote_chars(raw: &Vec<char>) -> (r: Vec<char>)
    ensures
        r@ == unquoted(raw@),
{
    let s = trim_chars(raw);
    if s.len() >= 2 && s[0] == '"' && s[s.len() - 1] == '"' {
        slice_chars(&s, 1, s.len() - 1)
    } else {
        s
    }
}

/// The stored command, trimmed and without surrounding quotes.
pub fn unquote(raw: &str) -> (r: String)
    ensures
        r@ == unquoted(raw@),
{
    string_of(&unquote_chars(&chars_of(raw)))
}

fn backslash_chars(v: &Vec<char>) -> (r: Vec<char>)
    ensures
        r@ == backslashed(v@),
{
    let mut r: Vec<char> = Vec::new();
    let mut i: usize = 0;
    while i < v.len()
        invariant
            i <= v.len(),
            r@.len() == i,
            forall|j: int| 0 <= j < i ==> r@[j] == (if v@[j] == '/' {
                '\\'
            } else {
                v@[j]
            }),
        decreases v.len() - i,
    {
        r.push(if v[i] == '/' {
            '\\'
        } else {
            v[i]
        });
        i = i + 1;
    }
    assert(r@ =~= backslashed(v@));
    r
}

fn named_parts_exec(parts: &Vec<Vec<char>>, from: usize) -> (r: Vec<Vec<char>>)
    requires
        from <= parts.len(),
    ensures
        views(r@) == named_parts(views(parts@).skip(from as int)),
{
    let ghost all = views(parts@);
    let mut kept: Vec<Vec<char>> = Vec::new();
    let mut i = from;
    assert(views(kept@) + named_parts(all.skip(from as int)) =~= named_parts(all.skip(from as int)));
    while i < parts.len()
        invariant
            from <= i <= parts.len(),
            all == views(parts@),
            views(kept@) + named_parts(all.skip(i as int)) == named_parts(all.skip(from as int)),
        decreases parts.len() - i,
    {
        let ghost rest = all.skip(i as int);
        assert(rest.drop_first() =~= all.skip(i + 1));
        assert(rest[0] == parts@[i as int]@);
        let p = &parts[i];
        let dot = p.len() == 1 && p[0] == '.';
        if p.len() == 1 {
            if dot {
                assert(p@ =~= seq!['.']);
            } else {
                assert(p@ != seq!['.']);
            }
        }
        if !(p.len() == 0 || dot) {
            let ghost before = views(kept@);
            let x = slice_chars(p, 0, p.len());
            assert(x@ =~= p@);
            kept.push(x);
            assert(views(kept@) =~= before.push(p@));
            assert(views(kept@) + named_parts(all.skip(i + 1)) =~= before + named_parts(rest));
        }
        i = i + 1;
    }
    assert(all.skip(i as int) =~= Seq::<Seq<char>>::empty());
    assert(views(kept@) + Seq::<Seq<char>>::empty() =~= views(kept@));
    kept
}

fn unix_components_exec(p: &Vec<char>) -> (r: Vec<Vec<char>>)
    ensures
        views(r@) == unix_components(p@),
{
    let raw = split_chars(p, '/');
    let ghost all = views(raw@);
    assert(all.len() > 0) by {
        lemma_split_nonempty(p@, '/');
    }
    let ghost want: Seq<Seq<char>> = if p@.len() > 0 && p@[0] == '/' {
        seq![seq!['/']]
    } else if all[0] == seq!['.'] {
        seq![seq!['.']]
    } else if all[0].len() > 0 {
        seq![all[0]]
    } else {
        Seq::empty()
    };
    let mut head: Vec<Vec<char>> = Vec::new();
    if p.len() > 0 && p[0] == '/' {
        let x = vec!['/'];
        assert(x@ =~= seq!['/']);
        head.push(x);
    } else if raw[0].len() == 1 && raw[0][0] == '.' {
        assert(raw@[0]@ =~= seq!['.']);
        let x = vec!['.'];
        assert(x@ =~= seq!['.']);
        head.push(x);
    } else if raw[0].len() > 0 {
        if raw[0].len() == 1 {
            assert(raw@[0]@ != seq!['.']);
        }
        let x = slice_chars(&raw[0], 0, raw[0].len());
        assert(x@ =~= raw@[0]@);
        head.push(x);
    }
    assert(views(head@) =~= want);
    let rest = named_parts_exec(&raw, 1);
    assert(all.skip(1) =~= all.drop_first());
    let mut out = head;
    let ghost h = views(out@);
    let mut k: usize = 0;
    while k < rest.len()
        invariant
            k <= rest.len(),
            views(out@) == h + views(rest@).take(k as int),
        decreases rest.len() - k,
    {
        let ghost before = views(out@);
        let x = slice_chars(&rest[k], 0, rest[k].len());
        assert(x@ =~= rest@[k as int]@);
        out.push(x);
        assert(views(out@) =~= before.push(views(rest@)[k as int]));
        k = k + 1;
        assert(views(out@) =~= h + views(rest@).take(k as int));
    }
    assert(views(rest@).take(rest.len() as int) =~= views(rest@));
    assert(views(out@) =~= unix_components(p@));
    out
}

proof fn lemma_split_from_nonempty(cur: Seq<char>, t: Seq<char>, sep: char)
    ensures
        crate::text::split_from(cur, t, sep).len() > 0,
    decreases t.len(),
{
    if t.len() > 0 {
        if t[0] == sep {
            lemma_split_from_nonempty(Seq::empty(), t.drop_first(), sep);
        } else {
            lemma_split_from_nonempty(cur.push(t[0]), t.drop_first(), sep);
        }
    }
}

proof fn lemma_split_nonempty(s: Seq<char>, sep: char)
    ensures
        split(s, sep).len() > 0,
{
    lemma_split_from_nonempty(Seq::empty(), s, sep);
}

fn parts_eq(a: &Vec<Vec<char>>, b: &Vec<Vec<char>>) -> (r: bool)
    ensures
        r == (views(a@) == views(b@)),
{
    if a.len() != b.len() {
        assert(views(a@).len() != views(b@).len());
        return false;
    }
    let mut i: usize = 0;
    while i < a.len()
        invariant
            a.len() == b.len(),
            i <= a.len(),
            forall|j: int| 0 <= j < i ==> views(a@)[j] == views(b@)[j],
        decreases a.len() - i,
    {
        if !chars_eq(&a[i], &b[i]) {
            assert(views(a@)[i as int] != views(b@)[i as int]);
            return false;
        }
        i = i + 1;
    }
    assert(views(a@) =~= views(b@));
    true
}

/// Whether the stored autostart command names the program at `ours`.
pub fn same_program(stored: &str, ours: &str, os: Os) -> (r: bool)
    ensures
        r == same_program_spec(stored@, ours@, os),
{
    let a = verbatim_free(&unquote_chars(&chars_of(stored)));
    let b = verbatim_free(&chars_of(ours));
    if os == Os::Windows {
        let la = lower_chars(&backslash_chars(&a));
        let lb = lower_chars(&backslash_chars(&b));
        chars_eq(&la, &lb)
    } else {
        parts_eq(&unix_components_exec(&a), &unix_components_exec(&b))
    }
}

// ---------------------------------------------------------------------------
// Windows: the Run value
// ---------------------------------------------------------------------------
/// The `Run` command for the program: its path in double quotes.
pub open spec fn run_command_spec(exe: Seq<char>) -> Seq<char> {
    seq!['"'] + exe + seq!['"']
}

pub fn run_command(exe: &str) -> (r: String)
    ensures
        r@ == run_command_spec(exe@),
{
    let mut r = String::new();
    push_char(&mut r, '"');
    push_str(&mut r, exe);
    push_char(&mut r, '"');
    r
}

/// Whether to remove the `Run` value: only when there is one and it names this program.
pub fn run_value_is_ours(stored: Option<&str>, ours: &str) -> (r: bool)
    ensures
        r == match stored {
            Some(s) => same_program_spec(s@, ours@, Os::Windows),
            None => false,
        },
{
    match stored {
        Some(s) => same_program(s, ours, Os::Windows),
        None => false,
    }
}

/// Whether `StartupApproved\Run` lets the entry start: with no readable
/// value it does; else bit 0 of the first byte must be clear.
pub fn approved_allows(first_byte: Option<u8>) -> (r: bool)
    ensures
        r == match first_byte {
            Some(b) => b & 1 == 0,
            None => true,
        },
{
    match first_byte {
        Some(b) => b & 1 == 0,
        None => true,
    }
}

// ---------------------------------------------------------------------------
// XDG autostart (.desktop)
// ---------------------------------------------------------------------------
/// Backslash and double quote escaped with a backslash.
pub open spec fn escaped(s: Seq<char>) -> Seq<char>
    decreases s.len(),
{
    if s.len() == 0 {
        Seq::empty()
    } else {
        (if s[0] == '\\' || s[0] == '"' {
            seq!['\\', s[0]]
        } else {
            seq![s[0]]
        }) + escaped(s.drop_first())
    }
}

pub open spec fn needs_quoting(s: Seq<char>) -> bool {
    exists|i: int| 0 <= i < s.len() && (is_white(#[trigger] s[i]) || s[i] == '"' || s[i] == '\\')
}

/// The `Exec=` value for a program path: bare when it has no whitespace,
/// quote or backslash, else quoted with `\` and `"` escaped.
pub open spec fn desktop_exec_spec(path: Seq<char>) -> Seq<char> {
    if needs_quoting(path) {
        seq!['"'] + escaped(path) + seq!['"']
    } else {
        path
    }
}

/// Reading a quoted `Exec=` value: a backslash takes the next char
/// literally, a double quote ends it.
pub open spec fn unescaped(t: Seq<char>) -> Seq<char>
    decreases t.len(),
{
    if t.len() == 0 {
        Seq::empty()
    } else if t[0] == '\\' {
        if t.len() >= 2 {
            seq![t[1]] + unescaped(t.skip(2))
        } else {
            Seq::empty()
        }
    } else if t[0] == '"' {
        Seq::empty()
    } else {
        seq![t[0]] + unescaped(t.drop_first())
    }
}

/// The text up to the first whitespace.
pub open spec fn first_word(s: Seq<char>) -> Seq<char>
    decreases s.len(),
{
    if s.len() == 0 || is_white(s[0]) {
        Seq::empty()
    } else {
        seq![s[0]] + first_word(s.drop_first())
    }
}

/// The program of an `Exec=` value: a quoted value is unescaped, a bare one
/// ends at the first whitespace.
pub open spec fn unquote_exec_spec(raw: Seq<char>) -> Seq<char> {
    let s = trim(raw);
    if s.len() > 0 && s[0] == '"' {
        unescaped(s.drop_first())
    } else {
        first_word(s)
    }
}

/// The program named by the first `Exec=` line (after trimming) of a `.desktop` file.
pub open spec fn exec_of_lines(lines: Seq<Seq<char>>) -> Option<Seq<char>>
    decreases lines.len(),
{
    if lines.len() == 0 {
        None
    } else if has_prefix(trim(lines[0]), "Exec="@) {
        Some(unquote_exec_spec(trim(lines[0]).skip(5)))
    } else {
        exec_of_lines(lines.drop_first())
    }
}

pub open spec fn exec_of_desktop(body: Seq<char>) -> Option<Seq<char>> {
    exec_of_lines(split(body, '\n'))
}

pub fn desktop_exec(path: &str) -> (r: String)
    ensures
        r@ == desktop_exec_spec(path@),
{
    let v = chars_of(path);
    let mut quote = false;
    let mut i: usize = 0;
    while i < v.len()
        invariant
            i <= v.len(),
            v@ == path@,
            quote == exists|j: int| 0 <= j < i && (is_white(#[trigger] v@[j]) || v@[j] == '"' || v@[j] == '\\'),
        decreases v.len() - i,
    {
        if white(v[i]) || v[i] == '"' || v[i] == '\\' {
            quote = true;
        }
        i = i + 1;
    }
    if !quote {
        return owned(path);
    }
    let mut r = String::new();
    push_char(&mut r, '"');
    let mut k: usize = 0;
    assert(v@.skip(0) =~= v@);
    while k < v.len()
        invariant
            k <= v.len(),
            r@ + escaped(v@.skip(k as int)) == seq!['"'] + escaped(v@),
        decreases v.len() - k,
    {
        let ghost rest = v@.skip(k as int);
        assert(rest.drop_first() =~= v@.skip(k + 1));
        let c = v[k];
        if c == '\\' || c == '"' {
            push_char(&mut r, '\\');
        }
        push_char(&mut r, c);
        k = k + 1;
    }
    assert(v@.skip(k as int) =~= Seq::<char>::empty());
    push_char(&mut r, '"');
    r
}

fn first_word_chars(s: &Vec<char>) -> (r: Vec<char>)
    ensures
        r@ == first_word(s@),
{
    let mut i: usize = 0;
    while i < s.len() && !white(s[i])
        invariant
            i <= s.len(),
            forall|j: int| 0 <= j < i ==> !is_white(#[trigger] s@[j]),
        decreases s.len() - i,
    {
        i = i + 1;
    }
    proof {
        lemma_first_word(s@, i as int);
    }
    slice_chars(s, 0, i)
}

proof fn lemma_first_word(s: Seq<char>, i: int)
    requires
        0 <= i <= s.len(),
        forall|j: int| 0 <= j < i ==> !is_white(#[trigger] s[j]),
        i == s.len() || is_white(s[i]),
    ensures
        first_word(s) == s.subrange(0, i),
    decreases i,
{
    if i == 0 {
        assert(s.subrange(0, 0) =~= Seq::<char>::empty());
    } else {
        let t = s.drop_first();
        assert forall|j: int| 0 <= j < i - 1 implies !is_white(#[trigger] t[j]) by {
            assert(t[j] == s[j + 1]);
        }
        lemma_first_word(t, i - 1);
        assert(seq![s[0]] + t.subrange(0, i - 1) =~= s.subrange(0, i));
    }
}

fn unescape_chars(t: &Vec<char>, from: usize) -> (r: Vec<char>)
    requires
        from <= t.len(),
    ensures
        r@ == unescaped(t@.skip(from as int)),
{
    let mut out: Vec<char> = Vec::new();
    let mut i = from;
    while i < t.len()
        invariant
            from <= i <= t.len(),
            out@ + unescaped(t@.skip(i as int)) == unescaped(t@.skip(from as int)),
        decreases t.len() - i,
    {
        let ghost rest = t@.skip(i as int);
        assert(rest[0] == t@[i as int]);
        let c = t[i];
        if c == '\\' {
            if i + 1 < t.len() {
                assert(rest[1] == t@[i + 1]);
                assert(rest.skip(2) =~= t@.skip(i + 2));
                out.push(t[i + 1]);
                i = i + 2;
            } else {
                assert(out@ + Seq::<char>::empty() =~= out@);
                return out;
            }
        } else if c == '"' {
            assert(out@ + Seq::<char>::empty() =~= out@);
            return out;
        } else {
            assert(rest.drop_first() =~= t@.skip(i + 1));
            out.push(c);
            i = i + 1;
        }
    }
    assert(t@.skip(i as int) =~= Seq::<char>::empty());
    assert(out@ + Seq::<char>::empty() =~= out@);
    out
}

fn unquote_exec_chars(raw: &Vec<char>) -> (r: Vec<char>)
    ensures
        r@ == unquote_exec_spec(raw@),
{
    let s = trim_chars(raw);
    if s.len() > 0 && s[0] == '"' {
        let r = unescape_chars(&s, 1);
        assert(s@.skip(1) =~= s@.drop_first());
        r
    } else {
        first_word_chars(&s)
    }
}

/// The program of an `Exec=` value.
pub fn unquote_exec(raw: &str) -> (r: String)
    ensures
        r@ == unquote_exec_spec(raw@),
{
    string_of(&unquote_exec_chars(&chars_of(raw)))
}

/// The program named by the `Exec=` line of a `.desktop` file, if any.
pub fn exec_from_desktop(body: &str) -> (r: Option<String>)
    ensures
        match r {
            Some(p) => exec_of_desktop(body@) == Some(p@),
            None => exec_of_desktop(body@) is None,
        },
{
    let lines = split_chars(&chars_of(body), '\n');
    let ghost all = views(lines@);
    let key = chars_of("Exec=");
    proof {
        reveal_strlit("Exec=");
    }
    let mut i: usize = 0;
    assert(all.skip(0) =~= all);
    while i < lines.len()
        invariant
            i <= lines.len(),
            all == views(lines@),
            all == split(body@, '\n'),
            key@ == "Exec="@,
            exec_of_lines(all) == exec_of_lines(all.skip(i as int)),
        decreases lines.len() - i,
    {
        let ghost rest = all.skip(i as int);
        assert(rest[0] == lines@[i as int]@);
        assert(rest.drop_first() =~= all.skip(i + 1));
        let line = trim_chars(&lines[i]);
        proof {
            reveal_strlit("Exec=");
        }
        if matches_at(&line, 0, &key) {
            assert(line@.skip(0) =~= line@);
            let value = slice_chars(&line, 5, line.len());
            proof {
                reveal_strlit("Exec=");
            }
            assert(value@ =~= line@.skip(5));
            return Some(string_of(&unquote_exec_chars(&value)));
        }
        assert(line@.skip(0) =~= line@);
        i = i + 1;
    }
    assert(all.skip(i as int) =~= Seq::<Seq<char>>::empty());
    None
}

/// Whether a `.desktop` file starts this program (its `Exec=` names it).
pub fn desktop_points_to(body: &str, ours: &str) -> (r: bool)
    ensures
        r == match exec_of_desktop(body@) {
            Some(p) => same_program_spec(p, ours@, Os::Linux),
            None => false,
        },
{
    match exec_from_desktop(body) {
        Some(exec) => same_program(exec.as_str(), ours, Os::Linux),
        None => false,
    }
}

/// The lines of our `.desktop` entry.
pub open spec fn desktop_lines(exec: Seq<char>, icon: Seq<char>) -> Seq<Seq<char>> {
    seq![
        "[Desktop Entry]"@,
        "Type=Application"@,
        "Name=Blackout"@,
        "Comment=Cinema blackout for other monitors"@,
        "Exec="@ + exec,
        "Icon="@ + icon,
        "Terminal=false"@,
        "X-GNOME-Autostart-enabled=true"@,
        Seq::empty(),
    ]
}

/// Our `.desktop` entry: the lines above, each ending in a newline.
pub open spec fn desktop_entry_spec(exec: Seq<char>, icon: Seq<char>) -> Seq<char> {
    join(desktop_lines(exec, icon), seq!['\n'])
}

pub fn desktop_entry(exec: &str, icon: &str) -> (r: String)
    ensures
        r@ == desktop_entry_spec(exec@, icon@),
{
    let mut lines: Vec<Vec<char>> = Vec::new();
    lines.push(chars_of("[Desktop Entry]"));
    lines.push(chars_of("Type=Application"));
    lines.push(chars_of("Name=Blackout"));
    lines.push(chars_of("Comment=Cinema blackout for other monitors"));
    let mut e = chars_of("Exec=");
    let ev = chars_of(exec);
    let ghost e0 = e@;
    let mut k: usize = 0;
    while k < ev.len()
        invariant
            k <= ev.len(),
            e@ == e0 + ev@.take(k as int),
        decreases ev.len() - k,
    {
        e.push(ev[k]);
        k = k + 1;
        assert(e@ =~= e0 + ev@.take(k as int));
    }
    assert(ev@.take(ev.len() as int) =~= ev@);
    lines.push(e);
    let mut ic = chars_of("Icon=");
    let iv = chars_of(icon);
    let ghost i0 = ic@;
    let mut k2: usize = 0;
    while k2 < iv.len()
        invariant
            k2 <= iv.len(),
            ic@ == i0 + iv@.take(k2 as int),
        decreases iv.len() - k2,
    {
        ic.push(iv[k2]);
        k2 = k2 + 1;
        assert(ic@ =~= i0 + iv@.take(k2 as int));
    }
    assert(iv@.take(iv.len() as int) =~= iv@);
    lines.push(ic);
    lines.push(chars_of("Terminal=false"));
    lines.push(chars_of("X-GNOME-Autostart-enabled=true"));
    lines.push(Vec::new());
    assert(views(lines@) =~= desktop_lines(exec@, icon@));
    join_chars(&lines, '\n')
}

// ---------------------------------------------------------------------------
// Where the entries live
// ---------------------------------------------------------------------------
fn join_rel(base: &str, rel: &str, os: Os) -> (r: String)
    ensures
        r@ == join_path(base@, rel@, os),
{
    let v = chars_of(base);
    let mut r = owned(base);
    let bare_drive = os == Os::Windows && v.len() == 2 && (('A' <= v[0] && v[0] <= 'Z') || ('a'
        <= v[0] && v[0] <= 'z')) && v[1] == ':';
    if v.len() > 0 && !bare_drive {
        let last = v[v.len() - 1];
        if !(last == '/' || (os == Os::Windows && last == '\\')) {
            push_char(&mut r, if os == Os::Windows {
                '\\'
            } else {
                '/'
            });
        }
    }
    push_str(&mut r, rel);
    r
}

/// `~/.config/autostart/blackout.desktop` under the XDG config home.
pub fn desktop_path(config_home: &str) -> (r: String)
    ensures
        r@ == join_path(config_home@, "autostart/blackout.desktop"@, Os::Linux),
{
    join_rel(config_home, "autostart/blackout.desktop", Os::Linux)
}

/// `~/Library/LaunchAgents/local.blackout.plist` under the home directory.
pub fn plist_path(home: &str) -> (r: String)
    ensures
        r@ == join_path(home@, "Library/LaunchAgents/local.blackout.plist"@, Os::MacOs),
{
    join_rel(home, "Library/LaunchAgents/local.blackout.plist", Os::MacOs)
}

/// Our icons under the XDG data home, 32, 48 and 256 pixels; the `.desktop`
/// entry names the last one.
pub fn icon_files(data_home: &str) -> (r: Vec<String>)
    ensures
        r@.len() == 3,
        r@[0]@ == join_path(join_path(data_home@, "icons/hicolor"@, Os::Linux), "32x32/apps/blackout.png"@, Os::Linux),
        r@[1]@ == join_path(join_path(data_home@, "icons/hicolor"@, Os::Linux), "48x48/apps/blackout.png"@, Os::Linux),
        r@[2]@ == join_path(join_path(data_home@, "icons/hicolor"@, Os::Linux), "256x256/apps/blackout.png"@, Os::Linux),
{
    let root = join_rel(data_home, "icons/hicolor", Os::Linux);
    let mut r: Vec<String> = Vec::new();
    r.push(join_rel(root.as_str(), "32x32/apps/blackout.png", Os::Linux));
    r.push(join_rel(root.as_str(), "48x48/apps/blackout.png", Os::Linux));
    r.push(join_rel(root.as_str(), "256x256/apps/blackout.png", Os::Linux));
    r
}

fn png_frame(size: i32) -> (r: Vec<u8>)
    requires
        0 < size <= 256,
    ensures
        r@ == png_of(size as u32),
{
    match png_image(size) {
        Ok(b) => b,
        Err(_) => Vec::new(),
    }
}

/// Our icons to install with the `.desktop` entry: each path of
/// `icon_files` with the PNG of its size.
pub fn icon_pngs(data_home: &str) -> (r: Vec<(String, Vec<u8>)>)
    ensures
        r@.len() == 3,
        r@[0].0@ == join_path(join_path(data_home@, "icons/hicolor"@, Os::Linux), "32x32/apps/blackout.png"@, Os::Linux),
        r@[1].0@ == join_path(join_path(data_home@, "icons/hicolor"@, Os::Linux), "48x48/apps/blackout.png"@, Os::Linux),
        r@[2].0@ == join_path(join_path(data_home@, "icons/hicolor"@, Os::Linux), "256x256/apps/blackout.png"@, Os::Linux),
        r@[0].1@ == png_of(32),
        r@[1].1@ == png_of(48),
        r@[2].1@ == png_of(256),
{
    let mut paths = icon_files(data_home);
    let p256 = paths.pop().unwrap();
    let p48 = paths.pop().unwrap();
    let p32 = paths.pop().unwrap();
    let mut r: Vec<(String, Vec<u8>)> = Vec::new();
    r.push((p32, png_frame(32)));
    r.push((p48, png_frame(48)));
    r.push((p256, png_frame(256)));
    r
}

// ---------------------------------------------------------------------------
// macOS LaunchAgent
// ---------------------------------------------------------------------------
/// `&`, `<`, `>` and `"` written as XML entities.
pub open spec fn xml_escaped(s: Seq<char>) -> Seq<char>
    decreases s.len(),
{
    if s.len() == 0 {
        Seq::empty()
    } else {
        (if s[0] == '&' {
            "&amp;"@
        } else if s[0] == '<' {
            "&lt;"@
        } else if s[0] == '>' {
            "&gt;"@
        } else if s[0] == '"' {
            "&quot;"@
        } else {
            seq![s[0]]
        }) + xml_escaped(s.drop_first())
    }
}

/// `&quot;`, `&lt;`, `&gt;`, then `&amp;` replaced in turn by their chars.
pub open spec fn xml_unescaped(s: Seq<char>) -> Seq<char> {
    replace_all(
        replace_all(replace_all(replace_all(s, "&quot;"@, "\""@), "&lt;"@, "<"@), "&gt;"@, ">"@),
        "&amp;"@,
        "&"@,
    )
}

pub fn xml_escape(s: &str) -> (r: String)
    ensures
        r@ == xml_escaped(s@),
{
    let v = chars_of(s);
    let mut r = String::new();
    let mut k: usize = 0;
    assert(v@.skip(0) =~= v@);
    while k < v.len()
        invariant
            k <= v.len(),
            v@ == s@,
            r@ + xml_escaped(v@.skip(k as int)) == xml_escaped(v@),
        decreases v.len() - k,
    {
        let ghost rest = v@.skip(k as int);
        assert(rest.drop_first() =~= v@.skip(k + 1));
        assert(rest[0] == v@[k as int]);
        let c = v[k];
        if c == '&' {
            push_str(&mut r, "&amp;");
        } else if c == '<' {
            push_str(&mut r, "&lt;");
        } else if c == '>' {
            push_str(&mut r, "&gt;");
        } else if c == '"' {
            push_str(&mut r, "&quot;");
        } else {
            push_char(&mut r, c);
        }
        k = k + 1;
    }
    assert(v@.skip(k as int) =~= Seq::<char>::empty());
    assert(r@ + Seq::<char>::empty() =~= r@);
    r
}

pub fn xml_unescape(s: &str) -> (r: String)
    ensures
        r@ == xml_unescaped(s@),
{
    proof {
        reveal_strlit("&quot;");
        reveal_strlit("&lt;");
        reveal_strlit("&gt;");
        reveal_strlit("&amp;");
    }
    let a = replace(s, "&quot;", "\"");
    let b = replace(a.as_str(), "&lt;", "<");
    let c = replace(b.as_str(), "&gt;", ">");
    replace(c.as_str(), "&amp;", "&")
}

/// First position where `p` occurs in `s` at or after `from`.
pub open spec fn find_from(s: Seq<char>, p: Seq<char>, from: int) -> Option<int>
    decreases s.len() + 1 - from,
{
    if from < 0 || from + p.len() > s.len() {
        None
    } else if s.subrange(from, from + p.len()) == p {
        Some(from)
    } else {
        find_from(s, p, from + 1)
    }
}

/// `str::find`.
pub open spec fn find(s: Seq<char>, p: Seq<char>) -> Option<int> {
    find_from(s, p, 0)
}

proof fn lemma_find_from_bounds(s: Seq<char>, p: Seq<char>, from: int)
    ensures
        find_from(s, p, from) matches Some(i) ==> from <= i && i + p.len() <= s.len(),
    decreases s.len() + 1 - from,
{
    if !(from < 0 || from + p.len() > s.len()) && s.subrange(from, from + p.len()) != p {
        lemma_find_from_bounds(s, p, from + 1);
    }
}

proof fn lemma_find_bounds(s: Seq<char>, p: Seq<char>)
    ensures
        find(s, p) matches Some(i) ==> 0 <= i && i + p.len() <= s.len(),
{
    lemma_find_from_bounds(s, p, 0);
}

fn find_chars(v: &Vec<char>, p: &Vec<char>) -> (r: Option<usize>)
    ensures
        match r {
            Some(i) => find(v@, p@) == Some(i as int),
            None => find(v@, p@) is None,
        },
{
    if p.len() > v.len() {
        return None;
    }
    if p.len() == 0 {
        assert(v@.subrange(0, 0) =~= p@);
        return Some(0);
    }
    let mut i: usize = 0;
    while i <= v.len() - p.len()
        invariant
            0 < p.len() <= v.len(),
            i <= v.len() - p.len() + 1,
            find(v@, p@) == find_from(v@, p@, i as int),
        decreases v.len() - i,
    {
        if matches_at(v, i, p) {
            assert(v@.skip(i as int).take(p.len() as int) =~= v@.subrange(i as int, i + p.len()));
            return Some(i);
        }
        assert(v@.skip(i as int).take(p.len() as int) =~= v@.subrange(i as int, i + p.len()));
        i = i + 1;
    }
    None
}

/// The contents of the `<string>…</string>` elements of a block, in order;
/// reading stops at an unclosed `<string>`.
pub open spec fn string_values(search: Seq<char>) -> Seq<Seq<char>>
    decreases search.len(),
{
    match find(search, "<string>"@) {
        None => Seq::empty(),
        Some(o) => {
            let rest = search.skip(o + 8);
            match find(rest, "</string>"@) {
                None => Seq::empty(),
                Some(c) => if 0 <= o && 0 <= c && o + 8 <= search.len() && c + 9 <= rest.len() {
                    seq![rest.take(c)] + string_values(rest.skip(c + 9))
                } else {
                    Seq::empty()
                },
            }
        },
    }
}

/// The `<array>` block that follows `<key>ProgramArguments</key>`, if any.
pub open spec fn program_block(body: Seq<char>) -> Option<Seq<char>> {
    match find(body, "<key>ProgramArguments</key>"@) {
        None => None,
        Some(start) => {
            let rest = body.skip(start);
            match find(rest, "<array>"@) {
                None => None,
                Some(a) => {
                    let arr = rest.skip(a);
                    match find(arr, "</array>"@) {
                        None => None,
                        Some(e) => Some(arr.take(e)),
                    }
                },
            }
        },
    }
}

/// Whether a LaunchAgent plist starts this program: one of the strings of
/// its `ProgramArguments` array, unescaped, names it.
pub open spec fn plist_points_to_spec(body: Seq<char>, ours: Seq<char>) -> bool {
    &&& program_block(body) is Some
    &&& names_program(string_values(program_block(body)->0), ours)
}

/// Whether one of the strings, unescaped, names the program.
pub open spec fn names_program(values: Seq<Seq<char>>, ours: Seq<char>) -> bool {
    exists|i: int|
        0 <= i < values.len() && same_program_spec(
            xml_unescaped(#[trigger] values[i]),
            ours,
            Os::MacOs,
        )
}

fn program_block_exec(body: &Vec<char>) -> (r: Option<Vec<char>>)
    ensures
        match r {
            Some(b) => program_block(body@) == Some(b@),
            None => program_block(body@) is None,
        },
{
    let key = chars_of("<key>ProgramArguments</key>");
    let start = match find_chars(body, &key) {
        Some(s) => s,
        None => {
            return None;
        },
    };
    proof {
        lemma_find_bounds(body@, key@);
    }
    let rest = slice_chars(body, start, body.len());
    assert(rest@ =~= body@.skip(start as int));
    let a = match find_chars(&rest, &chars_of("<array>")) {
        Some(a) => a,
        None => {
            return None;
        },
    };
    proof {
        lemma_find_bounds(rest@, "<array>"@);
    }
    let arr = slice_chars(&rest, a, rest.len());
    assert(arr@ =~= rest@.skip(a as int));
    let e = match find_chars(&arr, &chars_of("</array>")) {
        Some(e) => e,
        None => {
            return None;
        },
    };
    proof {
        lemma_find_bounds(arr@, "</array>"@);
    }
    let block = slice_chars(&arr, 0, e);
    assert(block@ =~= arr@.take(e as int));
    Some(block)
}

/// The first `<string>` value of `search` and the text after it.
fn next_string(search: &Vec<char>) -> (r: Option<(Vec<char>, Vec<char>)>)
    ensures
        match r {
            Some((value, next)) => string_values(search@) == seq![value@] + string_values(next@)
                && next@.len() < search@.len(),
            None => string_values(search@) == Seq::<Seq<char>>::empty(),
        },
{
    let open_tag = chars_of("<string>");
    let close_tag = chars_of("</string>");
    proof {
        reveal_strlit("<string>");
        reveal_strlit("</string>");
    }
    assert(open_tag@.len() == 8 && close_tag@.len() == 9);
    let o = match find_chars(search, &open_tag) {
        Some(o) => o,
        None => {
            return None;
        },
    };
    proof {
        lemma_find_bounds(search@, open_tag@);
    }
    let n = search.len();
    let rest = slice_chars(search, o + 8, n);
    assert(rest@ =~= search@.skip(o + 8));
    let c = match find_chars(&rest, &close_tag) {
        Some(c) => c,
        None => {
            return None;
        },
    };
    proof {
        lemma_find_bounds(rest@, close_tag@);
    }
    let m = rest.len();
    let value = slice_chars(&rest, 0, c);
    let next = slice_chars(&rest, c + 9, m);
    assert(value@ =~= rest@.take(c as int));
    assert(next@ =~= rest@.skip(c + 9));
    Some((value, next))
}

/// Whether a LaunchAgent plist starts the program at `ours`.
pub fn plist_points_to(body: &str, ours: &str) -> (r: bool)
    ensures
        r == plist_points_to_spec(body@, ours@),
{
    let block = match program_block_exec(&chars_of(body)) {
        Some(b) => b,
        None => {
            return false;
        },
    };
    let ghost b = block@;
    let ghost all = string_values(b);
    let mut search = block;
    let ghost mut seen: int = 0;
    assert(all.skip(0) =~= all);
    loop
        invariant
            0 <= seen <= all.len(),
            all == string_values(b),
            program_block(body@) == Some(b),
            all.skip(seen) == string_values(search@),
            forall|j: int|
                0 <= j < seen ==> !same_program_spec(xml_unescaped(#[trigger] all[j]), ours@, Os::MacOs),
        ensures
            r_done(all, seen, ours@),
            all == string_values(b),
            program_block(body@) == Some(b),
        decreases search@.len(),
    {
        let (value, next) = match next_string(&search) {
            Some(pair) => pair,
            None => {
                break;
            },
        };
        let ghost sv = string_values(search@);
        assert(sv.len() > 0);
        assert(seen < all.len());
        assert(all[seen] == value@) by {
            assert(all.skip(seen)[0] == all[seen]);
        }
        if same_program(xml_unescape(string_of(&value).as_str()).as_str(), ours, Os::MacOs) {
            assert(same_program_spec(xml_unescaped(string_values(b)[seen]), ours@, Os::MacOs));
            assert(names_program(all, ours@));
            return true;
        }
        assert(all.skip(seen + 1) =~= sv.drop_first());
        assert(sv.drop_first() =~= string_values(next@));
        proof {
            seen = seen + 1;
        }
        search = next;
    }
    false
}

/// After the scan: none of the strings names the program.
spec fn r_done(all: Seq<Seq<char>>, seen: int, ours: Seq<char>) -> bool {
    forall|j: int| 0 <= j < all.len() ==> !same_program_spec(xml_unescaped(#[trigger] all[j]), ours, Os::MacOs)
}

/// The LaunchAgent for the program at `exe` (already XML-escaped by `plist_body`).
pub open spec fn plist_spec(exe_escaped: Seq<char>) -> Seq<char> {
    "<?xml version=\"1.0\" encoding=\"UTF-8\"?>\n<!DOCTYPE plist PUBLIC \"-//Apple//DTD PLIST 1.0//EN\" \"http://www.apple.com/DTDs/PropertyList-1.0.dtd\">\n<plist version=\"1.0\">\n<dict>\n    <key>Label</key>\n    <string>local.blackout</string>\n    <key>ProgramArguments</key>\n    <array>\n        <string>"@
        + exe_escaped
        + "</string>\n    </array>\n    <key>RunAtLoad</key>\n    <true/>\n    <key>LimitLoadToSessionType</key>\n    <string>Aqua</string>\n</dict>\n</plist>\n"@
}

/// The LaunchAgent plist that starts `exe` at login in the Aqua session.
pub fn plist_body(exe: &str) -> (r: String)
    ensures
        r@ == plist_spec(xml_escaped(exe@)),
{
    let mut r = owned(
        "<?xml version=\"1.0\" encoding=\"UTF-8\"?>\n<!DOCTYPE plist PUBLIC \"-//Apple//DTD PLIST 1.0//EN\" \"http://www.apple.com/DTDs/PropertyList-1.0.dtd\">\n<plist version=\"1.0\">\n<dict>\n    <key>Label</key>\n    <string>local.blackout</string>\n    <key>ProgramArguments</key>\n    <array>\n        <string>",
    );
    let e = xml_escape(exe);
    push_str(&mut r, e.as_str());
    push_str(
        &mut r,
        "</string>\n    </array>\n    <key>RunAtLoad</key>\n    <true/>\n    <key>LimitLoadToSessionType</key>\n    <string>Aqua</string>\n</dict>\n</plist>\n",
    );
    r
}

} // verus!
