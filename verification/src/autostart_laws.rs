//! Laws of the autostart entries: what Blackout writes is what it later
//! recognises as its own.
use crate::autostart::{
    find, find_from, names_program, plist_points_to_spec, plist_spec, program_block,
    string_values, xml_escaped, xml_unescaped,
    desktop_entry_spec, desktop_exec_spec, desktop_lines, escaped, exec_of_desktop,
    exec_of_lines, first_word, needs_quoting, run_command_spec, same_program_spec, unescaped,
    unquote_exec_spec, unquoted, };
use crate::os::Os;
use crate::text::{
    replace_all,
    has_prefix, is_white, lemma_split_join, lemma_trim_end_take, lemma_trim_start_skip, split, trim,
};
use vstd::prelude::*;

verus! {

/// A sequence whose first and last chars are not whitespace is its own trim.
proof fn lemma_trim_ends(s: Seq<char>)
    requires
        s.len() > 0,
        !is_white(s[0]),
        !is_white(s.last()),
    ensures
        trim(s) == s,
{
    let f = |c: char| is_white(c);
    lemma_trim_start_skip(s, f, 0);
    assert(s.skip(0) =~= s);
    lemma_trim_end_take(s, f, s.len() as int);
    assert(s.take(s.len() as int) =~= s);
}

proof fn lemma_unescape_escaped(p: Seq<char>, rest: Seq<char>)
    ensures
        unescaped(escaped(p) + seq!['"'] + rest) == p,
    decreases p.len(),
{
    if p.len() == 0 {
        assert(escaped(p) + seq!['"'] + rest =~= seq!['"'] + rest);
    } else {
        let c = p[0];
        let tail = escaped(p.drop_first()) + seq!['"'] + rest;
        lemma_unescape_escaped(p.drop_first(), rest);
        if c == '\\' || c == '"' {
            let t = seq!['\\', c] + tail;
            assert(escaped(p) + seq!['"'] + rest =~= t);
            assert(t.skip(2) =~= tail);
            assert(seq![c] + p.drop_first() =~= p);
        } else {
            let t = seq![c] + tail;
            assert(escaped(p) + seq!['"'] + rest =~= t);
            assert(t.drop_first() =~= tail);
            assert(seq![c] + p.drop_first() =~= p);
        }
    }
}

proof fn lemma_first_word_whole(s: Seq<char>)
    requires
        forall|j: int| 0 <= j < s.len() ==> !is_white(#[trigger] s[j]),
    ensures
        first_word(s) == s,
    decreases s.len(),
{
    if s.len() > 0 {
        let t = s.drop_first();
        assert forall|j: int| 0 <= j < t.len() implies !is_white(#[trigger] t[j]) by {
            assert(t[j] == s[j + 1]);
        }
        lemma_first_word_whole(t);
        assert(seq![s[0]] + t =~= s);
    }
}

/// The `Exec=` value written for a program path reads back as that path, for every path.
pub proof fn lemma_exec_roundtrip(p: Seq<char>)
    ensures
        unquote_exec_spec(desktop_exec_spec(p)) == p,
{
    if needs_quoting(p) {
        let q = seq!['"'] + escaped(p) + seq!['"'];
        assert(q[0] == '"');
        assert(q.last() == '"');
        lemma_trim_ends(q);
        assert(q.drop_first() =~= escaped(p) + seq!['"'] + Seq::<char>::empty());
        lemma_unescape_escaped(p, Seq::empty());
    } else {
        assert forall|j: int| 0 <= j < p.len() implies !is_white(#[trigger] p[j]) by {
            if is_white(p[j]) {
                assert(needs_quoting(p));
            }
        }
        if p.len() > 0 {
            lemma_trim_ends(p);
            if p[0] == '"' {
                assert(needs_quoting(p));
            }
        } else {
            assert(trim(p) =~= p);
        }
        lemma_first_word_whole(p);
    }
}

proof fn lemma_escaped_no_newline(p: Seq<char>)
    requires
        !p.contains('\n'),
    ensures
        !escaped(p).contains('\n'),
    decreases p.len(),
{
    if p.len() > 0 {
        assert(!p.drop_first().contains('\n')) by {
            if p.drop_first().contains('\n') {
                let k = choose|k: int| 0 <= k < p.drop_first().len() && p.drop_first()[k] == '\n';
                assert(p[k + 1] == '\n');
            }
        }
        lemma_escaped_no_newline(p.drop_first());
        let head: Seq<char> = if p[0] == '\\' || p[0] == '"' {
            seq!['\\', p[0]]
        } else {
            seq![p[0]]
        };
        assert(p[0] != '\n') by {
            if p[0] == '\n' {
                assert(p.contains('\n'));
            }
        }
        assert(escaped(p) == head + escaped(p.drop_first()));
        if escaped(p).contains('\n') {
            let k = choose|k: int| 0 <= k < escaped(p).len() && escaped(p)[k] == '\n';
            if k >= head.len() {
                assert(escaped(p.drop_first())[k - head.len()] == '\n');
            }
        }
    }
}

proof fn lemma_no_newline_concat(a: Seq<char>, b: Seq<char>)
    requires
        !a.contains('\n'),
        !b.contains('\n'),
    ensures
        !(a + b).contains('\n'),
{
    if (a + b).contains('\n') {
        let k = choose|k: int| 0 <= k < (a + b).len() && (a + b)[k] == '\n';
        if k < a.len() {
            assert(a[k] == '\n');
        } else {
            assert(b[k - a.len()] == '\n');
        }
    }
}

proof fn lemma_literals()
    ensures
        "[Desktop Entry]"@ =~= seq![
            '[', 'D', 'e', 's', 'k', 't', 'o', 'p', ' ', 'E', 'n', 't', 'r', 'y', ']',
        ],
        "Type=Application"@ =~= seq![
            'T', 'y', 'p', 'e', '=', 'A', 'p', 'p', 'l', 'i', 'c', 'a', 't', 'i', 'o', 'n',
        ],
        "Name=Blackout"@ =~= seq!['N', 'a', 'm', 'e', '=', 'B', 'l', 'a', 'c', 'k', 'o', 'u', 't'],
        "Comment=Cinema blackout for other monitors"@.len() == 42,
        "Comment=Cinema blackout for other monitors"@[0] == 'C',
        "Exec="@ =~= seq!['E', 'x', 'e', 'c', '='],
        "Icon="@ =~= seq!['I', 'c', 'o', 'n', '='],
        "Terminal=false"@ =~= seq![
            'T', 'e', 'r', 'm', 'i', 'n', 'a', 'l', '=', 'f', 'a', 'l', 's', 'e',
        ],
        "X-GNOME-Autostart-enabled=true"@.len() == 30,
        forall|j: int|
            0 <= j < 42 ==> #[trigger] "Comment=Cinema blackout for other monitors"@[j] != '\n',
        forall|j: int| 0 <= j < 30 ==> #[trigger] "X-GNOME-Autostart-enabled=true"@[j] != '\n',
{
    reveal_strlit("[Desktop Entry]");
    reveal_strlit("Type=Application");
    reveal_strlit("Name=Blackout");
    reveal_strlit("Comment=Cinema blackout for other monitors");
    reveal_strlit("Exec=");
    reveal_strlit("Icon=");
    reveal_strlit("Terminal=false");
    reveal_strlit("X-GNOME-Autostart-enabled=true");
}

/// The `.desktop` entry written for the running program is recognised as
/// ours: its `Exec=` line names the program, and that name is the same
/// program. Holds for an absolute path without a newline that does not end
/// in whitespace, with an icon path without a newline.
pub proof fn lemma_desktop_entry_is_ours(p: Seq<char>, icon: Seq<char>)
    requires
        p.len() > 0,
        p[0] == '/',
        !is_white(p.last()),
        !p.contains('\n'),
        !icon.contains('\n'),
    ensures
        exec_of_desktop(desktop_entry_spec(desktop_exec_spec(p), icon)) == Some(p),
        same_program_spec(p, p, Os::Linux),
{
    lemma_literals();
    let e = desktop_exec_spec(p);
    let lines = desktop_lines(e, icon);
    // no line holds a newline
    assert(!e.contains('\n')) by {
        if needs_quoting(p) {
            lemma_escaped_no_newline(p);
            lemma_no_newline_concat(seq!['"'], escaped(p));
            lemma_no_newline_concat(seq!['"'] + escaped(p), seq!['"']);
        }
    }
    lemma_no_newline_concat("Exec="@, e);
    lemma_no_newline_concat("Icon="@, icon);
    assert forall|i: int| 0 <= i < lines.len() implies !(#[trigger] lines[i]).contains('\n') by {
        if lines[i].contains('\n') {
            let k = choose|k: int| 0 <= k < lines[i].len() && lines[i][k] == '\n';
            assert(i == 4 || i == 5);
        }
    }
    lemma_split_join(lines, '\n');
    assert(split(desktop_entry_spec(e, icon), '\n') == lines);
    // the first four lines are not the Exec line
    let l0 = lines[0];
    lemma_trim_ends(l0);
    assert(!has_prefix(trim(l0), "Exec="@)) by {
        assert(trim(l0).take(5)[0] != "Exec="@[0]);
    }
    let l1 = lines[1];
    lemma_trim_ends(l1);
    assert(!has_prefix(trim(l1), "Exec="@)) by {
        assert(trim(l1).take(5)[0] != "Exec="@[0]);
    }
    let l2 = lines[2];
    lemma_trim_ends(l2);
    assert(!has_prefix(trim(l2), "Exec="@)) by {
        assert(trim(l2).take(5)[0] != "Exec="@[0]);
    }
    let l3 = lines[3];
    reveal_strlit("Comment=Cinema blackout for other monitors");
    lemma_trim_ends(l3);
    assert(!has_prefix(trim(l3), "Exec="@)) by {
        assert(trim(l3).take(5)[1] != "Exec="@[1]);
    }
    // the Exec line
    let l4 = lines[4];
    assert(l4 == "Exec="@ + e);
    assert(!is_white(l4.last())) by {
        if e.len() == 0 {
            assert(l4.last() == '=');
        } else if needs_quoting(p) {
            assert(e.last() == '"');
            assert(l4.last() == e.last());
        } else {
            assert(e == p);
            assert(l4.last() == e.last());
        }
    }
    lemma_trim_ends(l4);
    assert(l4.take(5) =~= "Exec="@);
    assert(l4.skip(5) =~= e);
    lemma_exec_roundtrip(p);
    reveal_with_fuel(exec_of_lines, 5);
    assert(lines.drop_first().drop_first().drop_first().drop_first()[0] == l4);
    assert(exec_of_lines(lines.drop_first().drop_first().drop_first().drop_first()) == Some(p));
    assert(exec_of_lines(lines) == Some(p));
    // the name is the same program
    assert(trim(p) == p) by {
        lemma_trim_ends(p);
    }
    assert(unquoted(p) == p);
}

/// The `Run` value written for a program (its quoted path) is recognised as
/// that program, for every path.
pub proof fn lemma_run_value_is_ours(p: Seq<char>)
    ensures
        same_program_spec(run_command_spec(p), p, Os::Windows),
{
    let q = run_command_spec(p);
    assert(q[0] == '"' && q.last() == '"');
    lemma_trim_ends(q);
    assert(q.subrange(1, q.len() - 1) =~= p);
    assert(unquoted(q) == p);
}

// ---------------------------------------------------------------------------
// XML escaping
// ---------------------------------------------------------------------------
/// A char as written when escaping is on for `"` (`q`), `<` (`l`), `>` (`g`)
/// and `&` (`a`).
spec fn entity_of(c: char, q: bool, l: bool, g: bool, a: bool) -> Seq<char> {
    if c == '&' && a {
        seq!['&', 'a', 'm', 'p', ';']
    } else if c == '<' && l {
        seq!['&', 'l', 't', ';']
    } else if c == '>' && g {
        seq!['&', 'g', 't', ';']
    } else if c == '"' && q {
        seq!['&', 'q', 'u', 'o', 't', ';']
    } else {
        seq![c]
    }
}

spec fn esc(p: Seq<char>, q: bool, l: bool, g: bool, a: bool) -> Seq<char>
    decreases p.len(),
{
    if p.len() == 0 {
        Seq::empty()
    } else {
        entity_of(p[0], q, l, g, a) + esc(p.drop_first(), q, l, g, a)
    }
}

proof fn lemma_entities()
    ensures
        "&amp;"@ == seq!['&', 'a', 'm', 'p', ';'],
        "&lt;"@ == seq!['&', 'l', 't', ';'],
        "&gt;"@ == seq!['&', 'g', 't', ';'],
        "&quot;"@ == seq!['&', 'q', 'u', 'o', 't', ';'],
        "&"@ == seq!['&'],
        "<"@ == seq!['<'],
        ">"@ == seq!['>'],
        "\""@ == seq!['"'],
{
    reveal_strlit("&amp;");
    reveal_strlit("&lt;");
    reveal_strlit("&gt;");
    reveal_strlit("&quot;");
    reveal_strlit("&");
    reveal_strlit("<");
    reveal_strlit(">");
    reveal_strlit("\"");
}

proof fn lemma_escaped_is_esc(p: Seq<char>)
    ensures
        xml_escaped(p) == esc(p, true, true, true, true),
    decreases p.len(),
{
    lemma_entities();
    if p.len() > 0 {
        lemma_escaped_is_esc(p.drop_first());
    }
}

proof fn lemma_esc_plain(p: Seq<char>)
    ensures
        esc(p, false, false, false, false) == p,
    decreases p.len(),
{
    if p.len() > 0 {
        lemma_esc_plain(p.drop_first());
        assert(seq![p[0]] + p.drop_first() =~= p);
    }
}

/// Text without `&` passes unchanged through replacing an `&`-led pattern.
proof fn lemma_pass_plain(t: Seq<char>, rest: Seq<char>, pat: Seq<char>, rep: Seq<char>)
    requires
        pat.len() > 0,
        pat[0] == '&',
        forall|j: int| 0 <= j < t.len() ==> t[j] != '&',
    ensures
        replace_all(t + rest, pat, rep) == t + replace_all(rest, pat, rep),
    decreases t.len(),
{
    if t.len() == 0 {
        assert(t + rest =~= rest);
        assert(t + replace_all(rest, pat, rep) =~= replace_all(rest, pat, rep));
    } else {
        let s = t + rest;
        assert(s[0] == t[0]);
        assert(!has_prefix(s, pat)) by {
            if has_prefix(s, pat) {
                assert(s.take(pat.len() as int)[0] == pat[0]);
            }
        }
        let t2 = t.drop_first();
        assert forall|j: int| 0 <= j < t2.len() implies t2[j] != '&' by {
            assert(t2[j] == t[j + 1]);
        }
        lemma_pass_plain(t2, rest, pat, rep);
        assert(s.drop_first() =~= t2 + rest);
        assert(seq![t[0]] + (t2 + replace_all(rest, pat, rep)) =~= t + replace_all(rest, pat, rep));
    }
}

/// The pattern itself at the front is replaced.
proof fn lemma_pass_match(rest: Seq<char>, pat: Seq<char>, rep: Seq<char>)
    requires
        pat.len() > 0,
    ensures
        replace_all(pat + rest, pat, rep) == rep + replace_all(rest, pat, rep),
{
    let s = pat + rest;
    assert(s.take(pat.len() as int) =~= pat);
    assert(s.skip(pat.len() as int) =~= rest);
}

/// Another entity at the front passes unchanged.
proof fn lemma_pass_other(h: Seq<char>, rest: Seq<char>, pat: Seq<char>, rep: Seq<char>)
    requires
        pat.len() >= 2,
        pat[0] == '&',
        h.len() >= 2,
        h[0] == '&',
        h[1] != pat[1],
        forall|j: int| 1 <= j < h.len() ==> h[j] != '&',
    ensures
        replace_all(h + rest, pat, rep) == h + replace_all(rest, pat, rep),
{
    let s = h + rest;
    assert(!has_prefix(s, pat)) by {
        if has_prefix(s, pat) {
            assert(s.take(pat.len() as int)[1] == pat[1]);
            assert(s[1] == h[1]);
        }
    }
    let t = h.drop_first();
    assert forall|j: int| 0 <= j < t.len() implies t[j] != '&' by {
        assert(t[j] == h[j + 1]);
    }
    lemma_pass_plain(t, rest, pat, rep);
    assert(s.drop_first() =~= t + rest);
    assert(seq![h[0]] + (t + replace_all(rest, pat, rep)) =~= h + replace_all(rest, pat, rep));
}

/// One unescaping pass: the entity of `c0` turns back into `c0`, the rest
/// stays as it was.
proof fn lemma_stage(p: Seq<char>, q: bool, l: bool, g: bool, c0: char)
    requires
        (c0 == '"' && q) || (c0 == '<' && l) || (c0 == '>' && g) || c0 == '&',
    ensures
        replace_all(esc(p, q, l, g, true), entity_of(c0, true, true, true, true), seq![c0]) == esc(
            p,
            q && c0 != '"',
            l && c0 != '<',
            g && c0 != '>',
            c0 != '&',
        ),
    decreases p.len(),
{
    let pat = entity_of(c0, true, true, true, true);
    let rep = seq![c0];
    let q2 = q && c0 != '"';
    let l2 = l && c0 != '<';
    let g2 = g && c0 != '>';
    let a2 = c0 != '&';
    if p.len() == 0 {
    } else {
        let c = p[0];
        let rest = esc(p.drop_first(), q, l, g, true);
        let h = entity_of(c, q, l, g, true);
        lemma_stage(p.drop_first(), q, l, g, c0);
        assert(esc(p, q, l, g, true) == h + rest);
        assert(esc(p, q2, l2, g2, a2) == entity_of(c, q2, l2, g2, a2) + esc(p.drop_first(), q2, l2, g2, a2));
        if c == c0 {
            assert(h == pat);
            assert(entity_of(c, q2, l2, g2, a2) == rep);
            lemma_pass_match(rest, pat, rep);
        } else {
            assert(entity_of(c, q2, l2, g2, a2) == h);
            if h.len() == 1 {
                assert(h[0] != '&');
                lemma_pass_plain(h, rest, pat, rep);
            } else {
                lemma_pass_other(h, rest, pat, rep);
            }
        }
    }
}

/// Unescaping undoes escaping, for every text.
pub proof fn lemma_xml_roundtrip(s: Seq<char>)
    ensures
        xml_unescaped(xml_escaped(s)) == s,
{
    lemma_entities();
    lemma_escaped_is_esc(s);
    lemma_stage(s, true, true, true, '"');
    lemma_stage(s, false, true, true, '<');
    lemma_stage(s, false, false, true, '>');
    lemma_stage(s, false, false, false, '&');
    lemma_esc_plain(s);
}

// ---------------------------------------------------------------------------
// The LaunchAgent plist
// ---------------------------------------------------------------------------
/// `p` occurs in `s` at `j`.
spec fn starts_at(s: Seq<char>, p: Seq<char>, j: int) -> bool {
    0 <= j && j + p.len() <= s.len() && s.subrange(j, j + p.len()) == p
}

/// The search steps over positions where the pattern does not occur.
proof fn lemma_find_from_skip(s: Seq<char>, p: Seq<char>, from: int, to: int)
    requires
        0 <= from <= to,
        forall|j: int| from <= j < to ==> !starts_at(s, p, j),
    ensures
        find_from(s, p, from) == find_from(s, p, to),
    decreases to - from,
{
    if from < to {
        if from + p.len() <= s.len() {
            assert(!starts_at(s, p, from));
            lemma_find_from_skip(s, p, from + 1, to);
        }
    }
}

/// A search past a prefix where the pattern does not start is the search in
/// the rest, shifted.
proof fn lemma_find_from_shift(seg: Seq<char>, rest: Seq<char>, p: Seq<char>, k: int)
    requires
        0 <= k,
    ensures
        find_from(seg + rest, p, seg.len() + k) == (match find_from(rest, p, k) {
            Some(i) => Some(i + seg.len()),
            None => None,
        }),
    decreases rest.len() + 1 - k,
{
    let s = seg + rest;
    if k + p.len() <= rest.len() {
        assert(s.subrange(seg.len() + k, seg.len() + k + p.len()) =~= rest.subrange(k, k + p.len()));
        lemma_find_from_shift(seg, rest, p, k + 1);
    }
}

proof fn lemma_find_shift(seg: Seq<char>, rest: Seq<char>, p: Seq<char>)
    requires
        forall|j: int| 0 <= j < seg.len() ==> !starts_at(seg + rest, p, j),
    ensures
        find(seg + rest, p) == (match find(rest, p) {
            Some(i) => Some(i + seg.len()),
            None => None,
        }),
{
    lemma_find_from_skip(seg + rest, p, 0, seg.len() as int);
    lemma_find_from_shift(seg, rest, p, 0);
    assert(seg.len() + 0 == seg.len());
}

/// A pattern at the very front is found there.
proof fn lemma_find_front(s: Seq<char>, p: Seq<char>)
    requires
        p.len() <= s.len(),
        s.take(p.len() as int) == p,
    ensures
        find(s, p) == Some(0int),
{
    assert(s.subrange(0, p.len() as int) =~= s.take(p.len() as int));
}

/// A `<`-led pattern does not start inside a segment whose only `<` is its
/// first char, where the segment and the pattern differ at `d`.
proof fn lemma_seg_clear(seg: Seq<char>, rest: Seq<char>, p: Seq<char>, d: int)
    requires
        p.len() > 0,
        p[0] == '<',
        0 < d < p.len(),
        d < seg.len(),
        seg[d] != p[d],
        forall|j: int| 1 <= j < seg.len() ==> seg[j] != '<',
    ensures
        forall|j: int| 0 <= j < seg.len() ==> !starts_at(seg + rest, p, j),
{
    let s = seg + rest;
    assert forall|j: int| 0 <= j < seg.len() implies !starts_at(s, p, j) by {
        if starts_at(s, p, j) {
            if j == 0 {
                assert(s.subrange(0, p.len() as int)[d] == s[d]);
            } else {
                assert(s.subrange(j, j + p.len())[0] == s[j]);
            }
        }
    }
}

/// A `<`-led pattern does not start inside text without `<`.
proof fn lemma_plain_clear(x: Seq<char>, rest: Seq<char>, p: Seq<char>)
    requires
        p.len() > 0,
        p[0] == '<',
        forall|j: int| 0 <= j < x.len() ==> x[j] != '<',
    ensures
        forall|j: int| 0 <= j < x.len() ==> !starts_at(x + rest, p, j),
{
    let s = x + rest;
    assert forall|j: int| 0 <= j < x.len() implies !starts_at(s, p, j) by {
        if starts_at(s, p, j) {
            assert(s.subrange(j, j + p.len())[0] == s[j]);
        }
    }
}

/// Escaped text holds no `<`.
proof fn lemma_escaped_no_lt(p: Seq<char>)
    ensures
        forall|j: int| 0 <= j < xml_escaped(p).len() ==> xml_escaped(p)[j] != '<',
    decreases p.len(),
{
    lemma_entities();
    if p.len() > 0 {
        lemma_escaped_no_lt(p.drop_first());
        let h = entity_of(p[0], true, true, true, true);
        lemma_escaped_is_esc(p);
        lemma_escaped_is_esc(p.drop_first());
        let e = xml_escaped(p);
        assert(e == h + xml_escaped(p.drop_first()));
        assert forall|j: int| 0 <= j < e.len() implies e[j] != '<' by {
            if j >= h.len() {
                assert(e[j] == xml_escaped(p.drop_first())[j - h.len()]);
            }
        }
    }
}

/// The plist text, cut before each `<` (long runs without `<` cut too).
spec fn plist_parts() -> Seq<Seq<char>> {
    seq![
        "<?xml version=\"1.0\" encoding=\"UTF-8\"?>\n"@,
        "<!DOCTYPE plist PUBLIC \"-//Apple//DTD PLIST 1.0//EN\" "@,
        "\"http://www.apple.com/DTDs/PropertyList-1.0.dtd\">\n"@,
        "<plist version=\"1.0\">\n"@,
        "<dict>\n    "@,
        "<key>Label"@,
        "</key>\n    "@,
        "<string>local.blackout"@,
        "</string>\n    "@,
        "<key>ProgramArguments"@,
        "</key>\n    "@,
        "<array>\n        "@,
        "<string>"@,
    ]
}

proof fn lemma_plist_text()
    ensures
        "<?xml version=\"1.0\" encoding=\"UTF-8\"?>\n<!DOCTYPE plist PUBLIC \"-//Apple//DTD PLIST 1.0//EN\" \"http://www.apple.com/DTDs/PropertyList-1.0.dtd\">\n<plist version=\"1.0\">\n<dict>\n    <key>Label</key>\n    <string>local.blackout</string>\n    <key>ProgramArguments</key>\n    <array>\n        <string>"@
            == plist_parts()[0] + plist_parts()[1] + plist_parts()[2] + plist_parts()[3]
            + plist_parts()[4] + plist_parts()[5] + plist_parts()[6] + plist_parts()[7]
            + plist_parts()[8] + plist_parts()[9] + plist_parts()[10] + plist_parts()[11]
            + plist_parts()[12],
        "</string>\n    </array>\n    <key>RunAtLoad</key>\n    <true/>\n    <key>LimitLoadToSessionType</key>\n    <string>Aqua</string>\n</dict>\n</plist>\n"@
            == "</string>\n    "@ + "</array>\n    <key>RunAtLoad</key>\n    <true/>\n    <key>LimitLoadToSessionType</key>\n    <string>Aqua</string>\n</dict>\n</plist>\n"@,
{
    reveal_strlit("<?xml version=\"1.0\" encoding=\"UTF-8\"?>\n<!DOCTYPE plist PUBLIC \"-//Apple//DTD PLIST 1.0//EN\" \"http://www.apple.com/DTDs/PropertyList-1.0.dtd\">\n<plist version=\"1.0\">\n<dict>\n    <key>Label</key>\n    <string>local.blackout</string>\n    <key>ProgramArguments</key>\n    <array>\n        <string>");
    reveal_strlit("</string>\n    </array>\n    <key>RunAtLoad</key>\n    <true/>\n    <key>LimitLoadToSessionType</key>\n    <string>Aqua</string>\n</dict>\n</plist>\n");
    reveal_strlit("<?xml version=\"1.0\" encoding=\"UTF-8\"?>\n");
    reveal_strlit("<!DOCTYPE plist PUBLIC \"-//Apple//DTD PLIST 1.0//EN\" ");
    reveal_strlit("\"http://www.apple.com/DTDs/PropertyList-1.0.dtd\">\n");
    reveal_strlit("<plist version=\"1.0\">\n");
    reveal_strlit("<dict>\n    ");
    reveal_strlit("<key>Label");
    reveal_strlit("</key>\n    ");
    reveal_strlit("<string>local.blackout");
    reveal_strlit("</string>\n    ");
    reveal_strlit("<key>ProgramArguments");
    reveal_strlit("<array>\n        ");
    reveal_strlit("<string>");
    reveal_strlit("</array>\n    <key>RunAtLoad</key>\n    <true/>\n    <key>LimitLoadToSessionType</key>\n    <string>Aqua</string>\n</dict>\n</plist>\n");
    assert("<?xml version=\"1.0\" encoding=\"UTF-8\"?>\n<!DOCTYPE plist PUBLIC \"-//Apple//DTD PLIST 1.0//EN\" \"http://www.apple.com/DTDs/PropertyList-1.0.dtd\">\n<plist version=\"1.0\">\n<dict>\n    <key>Label</key>\n    <string>local.blackout</string>\n    <key>ProgramArguments</key>\n    <array>\n        <string>"@
        =~= plist_parts()[0] + plist_parts()[1] + plist_parts()[2] + plist_parts()[3]
        + plist_parts()[4] + plist_parts()[5] + plist_parts()[6] + plist_parts()[7]
        + plist_parts()[8] + plist_parts()[9] + plist_parts()[10] + plist_parts()[11]
        + plist_parts()[12]);
    assert("</string>\n    </array>\n    <key>RunAtLoad</key>\n    <true/>\n    <key>LimitLoadToSessionType</key>\n    <string>Aqua</string>\n</dict>\n</plist>\n"@
        =~= "</string>\n    "@ + "</array>\n    <key>RunAtLoad</key>\n    <true/>\n    <key>LimitLoadToSessionType</key>\n    <string>Aqua</string>\n</dict>\n</plist>\n"@);
}

/// No `<`-led pattern is found in text without `<`.
proof fn lemma_find_none_plain(s: Seq<char>, p: Seq<char>)
    requires
        p.len() > 0,
        p[0] == '<',
        forall|j: int| 0 <= j < s.len() ==> s[j] != '<',
    ensures
        find(s, p) is None,
{
    lemma_plain_clear(s, Seq::empty(), p);
    assert(s + Seq::<char>::empty() =~= s);
    lemma_find_from_skip(s, p, 0, s.len() as int);
}

/// The plist after the 9 parts before `<key>ProgramArguments</key>`.
spec fn after_key(x: Seq<char>) -> Seq<char> {
    let parts = plist_parts();
    parts[9] + (parts[10] + from_array(x))
}

/// The plist from its `<array>` on.
spec fn from_array(x: Seq<char>) -> Seq<char> {
    let parts = plist_parts();
    parts[11] + (parts[12] + (x + ("</string>\n    "@ + plist_close())))
}

spec fn plist_close() -> Seq<char> {
    "</array>\n    <key>RunAtLoad</key>\n    <true/>\n    <key>LimitLoadToSessionType</key>\n    <string>Aqua</string>\n</dict>\n</plist>\n"@
}

/// The `ProgramArguments` array's contents.
spec fn array_block(x: Seq<char>) -> Seq<char> {
    let parts = plist_parts();
    parts[11] + (parts[12] + (x + "</string>\n    "@))
}

spec fn before_key() -> Seq<char> {
    let parts = plist_parts();
    parts[0] + (parts[1] + (parts[2] + (parts[3] + (parts[4] + (parts[5] + (parts[6] + (parts[7]
        + parts[8])))))))
}

proof fn lemma_plist_shape(x: Seq<char>)
    ensures
        plist_spec(x) == before_key() + after_key(x),
{
    lemma_plist_text();
    assert(plist_spec(x) =~= before_key() + after_key(x));
}

/// `<key>ProgramArguments</key>` is first found right after the 9 parts.
proof fn lemma_find_key(x: Seq<char>)
    ensures
        find(before_key() + after_key(x), "<key>ProgramArguments</key>"@) == Some(before_key().len() as int),
{
    let parts = plist_parts();
    reveal_strlit("<?xml version=\"1.0\" encoding=\"UTF-8\"?>\n");
    reveal_strlit("<!DOCTYPE plist PUBLIC \"-//Apple//DTD PLIST 1.0//EN\" ");
    reveal_strlit("\"http://www.apple.com/DTDs/PropertyList-1.0.dtd\">\n");
    reveal_strlit("<plist version=\"1.0\">\n");
    reveal_strlit("<dict>\n    ");
    reveal_strlit("<key>Label");
    reveal_strlit("</key>\n    ");
    reveal_strlit("<string>local.blackout");
    reveal_strlit("</string>\n    ");
    reveal_strlit("<key>ProgramArguments");
    reveal_strlit("<key>ProgramArguments</key>");
    let key = "<key>ProgramArguments</key>"@;
    let t9 = after_key(x);
    let t8 = parts[8] + t9;
    let t7 = parts[7] + t8;
    let t6 = parts[6] + t7;
    let t5 = parts[5] + t6;
    let t4 = parts[4] + t5;
    let t3 = parts[3] + t4;
    let t2 = parts[2] + t3;
    let t1 = parts[1] + t2;
    let t0 = parts[0] + t1;
    assert(t9.take(key.len() as int) =~= key);
    lemma_find_front(t9, key);
    lemma_seg_clear(parts[8], t9, key, 1);
    lemma_find_shift(parts[8], t9, key);
    lemma_seg_clear(parts[7], t8, key, 1);
    lemma_find_shift(parts[7], t8, key);
    lemma_seg_clear(parts[6], t7, key, 1);
    lemma_find_shift(parts[6], t7, key);
    lemma_seg_clear(parts[5], t6, key, 5);
    lemma_find_shift(parts[5], t6, key);
    lemma_seg_clear(parts[4], t5, key, 1);
    lemma_find_shift(parts[4], t5, key);
    lemma_seg_clear(parts[3], t4, key, 1);
    lemma_find_shift(parts[3], t4, key);
    lemma_plain_clear(parts[2], t3, key);
    lemma_find_shift(parts[2], t3, key);
    lemma_seg_clear(parts[1], t2, key, 1);
    lemma_find_shift(parts[1], t2, key);
    lemma_seg_clear(parts[0], t1, key, 1);
    lemma_find_shift(parts[0], t1, key);
    assert(before_key() + after_key(x) =~= t0);
}

/// `<array>` follows the key.
proof fn lemma_find_array(x: Seq<char>)
    ensures
        find(after_key(x), "<array>"@) == Some((plist_parts()[9].len() + plist_parts()[10].len()) as int),
{
    let parts = plist_parts();
    reveal_strlit("<key>ProgramArguments");
    reveal_strlit("</key>\n    ");
    reveal_strlit("<array>\n        ");
    reveal_strlit("<array>");
    let tag = "<array>"@;
    let t11 = from_array(x);
    let t10 = parts[10] + t11;
    assert(t11.take(tag.len() as int) =~= tag);
    lemma_find_front(t11, tag);
    lemma_seg_clear(parts[10], t11, tag, 1);
    lemma_find_shift(parts[10], t11, tag);
    lemma_seg_clear(parts[9], t10, tag, 1);
    lemma_find_shift(parts[9], t10, tag);
}

/// `</array>` closes the array right after the program's string.
proof fn lemma_find_end(x: Seq<char>)
    requires
        forall|j: int| 0 <= j < x.len() ==> x[j] != '<',
    ensures
        find(from_array(x), "</array>"@) == Some(array_block(x).len() as int),
        from_array(x).take(array_block(x).len() as int) == array_block(x),
{
    let parts = plist_parts();
    reveal_strlit("<array>\n        ");
    reveal_strlit("<string>");
    reveal_strlit("</string>\n    ");
    reveal_strlit("</array>\n    <key>RunAtLoad</key>\n    <true/>\n    <key>LimitLoadToSessionType</key>\n    <string>Aqua</string>\n</dict>\n</plist>\n");
    reveal_strlit("</array>");
    let tag = "</array>"@;
    let b1 = "</string>\n    "@;
    let b2 = plist_close();
    let t13 = x + (b1 + b2);
    let t12 = parts[12] + t13;
    assert(b2.take(tag.len() as int) =~= tag);
    lemma_find_front(b2, tag);
    lemma_seg_clear(b1, b2, tag, 2);
    lemma_find_shift(b1, b2, tag);
    lemma_plain_clear(x, b1 + b2, tag);
    lemma_find_shift(x, b1 + b2, tag);
    lemma_seg_clear(parts[12], t13, tag, 1);
    lemma_find_shift(parts[12], t13, tag);
    lemma_seg_clear(parts[11], t12, tag, 1);
    lemma_find_shift(parts[11], t12, tag);
    assert(from_array(x).take(array_block(x).len() as int) =~= array_block(x));
}

/// The array holds exactly one string: the escaped program path.
proof fn lemma_array_strings(x: Seq<char>)
    requires
        forall|j: int| 0 <= j < x.len() ==> x[j] != '<',
    ensures
        string_values(array_block(x)) == seq![x],
{
    let parts = plist_parts();
    reveal_strlit("<array>\n        ");
    reveal_strlit("<string>");
    reveal_strlit("</string>\n    ");
    reveal_strlit("</string>");
    let open = "<string>"@;
    let close = "</string>"@;
    let b1 = "</string>\n    "@;
    let block = array_block(x);
    let inner = parts[12] + (x + b1);
    assert(inner.take(open.len() as int) =~= open);
    lemma_find_front(inner, open);
    lemma_seg_clear(parts[11], inner, open, 1);
    lemma_find_shift(parts[11], inner, open);
    let o = parts[11].len() as int;
    assert(find(block, open) == Some(o));
    let rest = block.skip(o + 8);
    assert(rest =~= x + b1);
    assert(b1.take(close.len() as int) =~= close);
    lemma_find_front(b1, close);
    lemma_plain_clear(x, b1, close);
    lemma_find_shift(x, b1, close);
    let c = x.len() as int;
    assert(find(rest, close) == Some(c));
    assert(rest.take(c) =~= x);
    let nl = rest.skip(c + 9);
    assert(nl =~= seq!['\n', ' ', ' ', ' ', ' ']);
    lemma_find_none_plain(nl, open);
    assert(string_values(nl) == Seq::<Seq<char>>::empty());
    assert(string_values(block) == seq![x] + string_values(nl));
    assert(string_values(block) =~= seq![x]);
}

/// The LaunchAgent written for the program is recognised as ours: its
/// `ProgramArguments` array holds one string, which unescapes to the
/// program's path and names the same program. Holds for an absolute path
/// that does not end in whitespace.
pub proof fn lemma_plist_is_ours(p: Seq<char>)
    requires
        p.len() > 0,
        p[0] == '/',
        !is_white(p.last()),
    ensures
        plist_points_to_spec(plist_spec(xml_escaped(p)), p),
{
    let x = xml_escaped(p);
    lemma_escaped_no_lt(p);
    lemma_plist_shape(x);
    lemma_find_key(x);
    let body = plist_spec(x);
    let start = before_key().len() as int;
    assert(body.skip(start) =~= after_key(x));
    lemma_find_array(x);
    let a = (plist_parts()[9].len() + plist_parts()[10].len()) as int;
    assert(after_key(x).skip(a) =~= from_array(x));
    lemma_find_end(x);
    assert(program_block(body) == Some(array_block(x)));
    lemma_array_strings(x);
    lemma_xml_roundtrip(p);
    lemma_trim_ends(p);
    assert(same_program_spec(xml_unescaped(seq![x][0]), p, Os::MacOs));
    assert(names_program(string_values(array_block(x)), p));
}

} // verus!
