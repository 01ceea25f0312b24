//! Character-level text helpers shared by the parsers and message builders.
//!
//! Every function works on `char` sequences, so each contract is stated over
//! the `Seq<char>` view of a `str` or `String`.
use vstd::prelude::*;

verus! {

// ---------------------------------------------------------------------------
// Character classes
// ---------------------------------------------------------------------------
/// Unicode `White_Space`, the set that `char::is_whitespace` and `str::trim` use.
pub open spec fn is_white(c: char) -> bool {
    ||| ('\u{9}' <= c && c <= '\u{d}')
    ||| c == ' '
    ||| c == '\u{85}'
    ||| c == '\u{a0}'
    ||| c == '\u{1680}'
    ||| ('\u{2000}' <= c && c <= '\u{200a}')
    ||| c == '\u{2028}'
    ||| c == '\u{2029}'
    ||| c == '\u{202f}'
    ||| c == '\u{205f}'
    ||| c == '\u{3000}'
}

pub open spec fn is_quote(c: char) -> bool {
    c == '"' || c == '\''
}

pub open spec fn is_ascii_upper(c: char) -> bool {
    'A' <= c && c <= 'Z'
}

pub open spec fn is_ascii_lower(c: char) -> bool {
    'a' <= c && c <= 'z'
}

pub open spec fn is_ascii_digit(c: char) -> bool {
    '0' <= c && c <= '9'
}

pub open spec fn is_ascii_alnum(c: char) -> bool {
    is_ascii_upper(c) || is_ascii_lower(c) || is_ascii_digit(c)
}

/// `char::to_ascii_lowercase`.
pub open spec fn lower(c: char) -> char {
    if is_ascii_upper(c) {
        ((c as u32) + 32) as char
    } else {
        c
    }
}

/// `char::to_ascii_uppercase`.
pub open spec fn upper(c: char) -> char {
    if is_ascii_lower(c) {
        ((c as u32) - 32) as char
    } else {
        c
    }
}

/// `str::to_ascii_lowercase`, char by char.
pub open spec fn lower_seq(s: Seq<char>) -> Seq<char> {
    Seq::new(s.len(), |i: int| lower(s[i]))
}

/// `str::eq_ignore_ascii_case`.
pub open spec fn eq_ignore_case(a: Seq<char>, b: Seq<char>) -> bool {
    lower_seq(a) == lower_seq(b)
}

pub fn white(c: char) -> (r: bool)
    ensures
        r == is_white(c),
{
    ('\u{9}' <= c && c <= '\u{d}') || c == ' ' || c == '\u{85}' || c == '\u{a0}' || c
        == '\u{1680}' || ('\u{2000}' <= c && c <= '\u{200a}') || c == '\u{2028}' || c
        == '\u{2029}' || c == '\u{202f}' || c == '\u{205f}' || c == '\u{3000}'
}

pub fn quote(c: char) -> (r: bool)
    ensures
        r == is_quote(c),
{
    c == '"' || c == '\''
}

pub fn ascii_digit(c: char) -> (r: bool)
    ensures
        r == is_ascii_digit(c),
{
    '0' <= c && c <= '9'
}

pub fn ascii_alnum(c: char) -> (r: bool)
    ensures
        r == is_ascii_alnum(c),
{
    ('A' <= c && c <= 'Z') || ('a' <= c && c <= 'z') || ('0' <= c && c <= '9')
}

pub fn to_lower(c: char) -> (r: char)
    ensures
        r == lower(c),
{
    if 'A' <= c && c <= 'Z' {
        ((c as u8) + 32) as char
    } else {
        c
    }
}

pub fn to_upper(c: char) -> (r: char)
    ensures
        r == upper(c),
{
    if 'a' <= c && c <= 'z' {
        ((c as u8) - 32) as char
    } else {
        c
    }
}

// ---------------------------------------------------------------------------
// Conversions between strings and char vectors
// ---------------------------------------------------------------------------
/// Appends one char (`String::push`).
#[verifier::external_body]
pub fn push_char(s: &mut String, c: char)
    ensures
        final(s)@ == old(s)@.push(c),
{
    s.push(c);
}

/// The chars of a string slice.
pub fn chars_of(s: &str) -> (v: Vec<char>)
    ensures
        v@ == s@,
{
    let mut v: Vec<char> = Vec::new();
    for c in it: s.chars()
        invariant
            v@ == it.seq().take(it.index() as int),
            it.seq() == s@,
    {
        v.push(c);
    }
    v
}

/// Appends a char sequence to a string.
pub fn push_chars(out: &mut String, v: &Vec<char>)
    ensures
        final(out)@ == old(out)@ + v@,
{
    let mut i: usize = 0;
    while i < v.len()
        invariant
            i <= v.len(),
            out@ == old(out)@ + v@.take(i as int),
        decreases v.len() - i,
    {
        push_char(out, v[i]);
        i = i + 1;
        assert(v@.take(i as int) == v@.take(i - 1).push(v@[i - 1]));
    }
    assert(v@.take(v.len() as int) == v@);
}

/// A string holding exactly the given chars.
pub fn string_of(v: &Vec<char>) -> (s: String)
    ensures
        s@ == v@,
{
    let mut s = String::new();
    push_chars(&mut s, v);
    s
}

/// Appends a string slice to a string.
pub fn push_str(out: &mut String, s: &str)
    ensures
        final(out)@ == old(out)@ + s@,
{
    let v = chars_of(s);
    push_chars(out, &v);
}

/// A fresh string equal to a string slice.
pub fn owned(s: &str) -> (r: String)
    ensures
        r@ == s@,
{
    let v = chars_of(s);
    string_of(&v)
}

/// Equality of two char vectors.
pub fn chars_eq(a: &Vec<char>, b: &Vec<char>) -> (r: bool)
    ensures
        r == (a@ == b@),
{
    if a.len() != b.len() {
        return false;
    }
    let mut i: usize = 0;
    while i < a.len()
        invariant
            a.len() == b.len(),
            i <= a.len(),
            forall|j: int| 0 <= j < i ==> a@[j] == b@[j],
        decreases a.len() - i,
    {
        if a[i] != b[i] {
            return false;
        }
        i = i + 1;
    }
    assert(a@ =~= b@);
    true
}

/// Equality of a char vector and a string slice.
pub fn chars_eq_str(a: &Vec<char>, b: &str) -> (r: bool)
    ensures
        r == (a@ == b@),
{
    let bv = chars_of(b);
    chars_eq(a, &bv)
}

/// Equality of two string slices.
pub fn str_eq(a: &str, b: &str) -> (r: bool)
    ensures
        r == (a@ == b@),
{
    let av = chars_of(a);
    let bv = chars_of(b);
    chars_eq(&av, &bv)
}

/// `str::to_ascii_lowercase`.
pub fn lower_chars(v: &Vec<char>) -> (r: Vec<char>)
    ensures
        r@ == lower_seq(v@),
{
    let mut r: Vec<char> = Vec::new();
    let mut i: usize = 0;
    while i < v.len()
        invariant
            i <= v.len(),
            r@.len() == i,
            forall|j: int| 0 <= j < i ==> r@[j] == lower(v@[j]),
        decreases v.len() - i,
    {
        r.push(to_lower(v[i]));
        i = i + 1;
    }
    assert(r@ =~= lower_seq(v@));
    r
}

/// `str::eq_ignore_ascii_case`.
pub fn chars_eq_ignore_case(a: &Vec<char>, b: &Vec<char>) -> (r: bool)
    ensures
        r == eq_ignore_case(a@, b@),
{
    let la = lower_chars(a);
    let lb = lower_chars(b);
    chars_eq(&la, &lb)
}

/// The chars `v[from..to]`.
pub fn slice_chars(v: &Vec<char>, from: usize, to: usize) -> (r: Vec<char>)
    requires
        from <= to <= v.len(),
    ensures
        r@ == v@.subrange(from as int, to as int),
{
    let mut r: Vec<char> = Vec::new();
    let mut i = from;
    while i < to
        invariant
            from <= i <= to <= v.len(),
            r@ == v@.subrange(from as int, i as int),
        decreases to - i,
    {
        r.push(v[i]);
        i = i + 1;
        assert(r@ =~= v@.subrange(from as int, i as int));
    }
    r
}

// ---------------------------------------------------------------------------
// Prefixes, trimming
// ---------------------------------------------------------------------------
pub open spec fn has_prefix(s: Seq<char>, p: Seq<char>) -> bool {
    p.len() <= s.len() && s.take(p.len() as int) == p
}

pub open spec fn has_suffix(s: Seq<char>, p: Seq<char>) -> bool {
    p.len() <= s.len() && s.skip(s.len() - p.len()) == p
}

/// Whether `v` starts with `p` at position `at`.
pub fn matches_at(v: &Vec<char>, at: usize, p: &Vec<char>) -> (r: bool)
    requires
        at <= v.len(),
    ensures
        r == has_prefix(v@.skip(at as int), p@),
{
    if p.len() > v.len() - at {
        return false;
    }
    let mut i: usize = 0;
    while i < p.len()
        invariant
            at + p.len() <= v.len(),
            i <= p.len(),
            forall|j: int| 0 <= j < i ==> v@[at + j] == p@[j],
        decreases p.len() - i,
    {
        if v[at + i] != p[i] {
            assert(v@.skip(at as int).take(p.len() as int)[i as int] != p@[i as int]);
            return false;
        }
        i = i + 1;
    }
    assert(v@.skip(at as int).take(p.len() as int) =~= p@);
    true
}

/// Strips characters matching `f` from the front.
pub open spec fn trim_start_by(s: Seq<char>, f: spec_fn(char) -> bool) -> Seq<char>
    decreases s.len(),
{
    if s.len() > 0 && f(s[0]) {
        trim_start_by(s.drop_first(), f)
    } else {
        s
    }
}

/// Strips characters matching `f` from the back.
pub open spec fn trim_end_by(s: Seq<char>, f: spec_fn(char) -> bool) -> Seq<char>
    decreases s.len(),
{
    if s.len() > 0 && f(s.last()) {
        trim_end_by(s.drop_last(), f)
    } else {
        s
    }
}

pub open spec fn trim_by(s: Seq<char>, f: spec_fn(char) -> bool) -> Seq<char> {
    trim_end_by(trim_start_by(s, f), f)
}

/// `str::trim`.
pub open spec fn trim(s: Seq<char>) -> Seq<char> {
    trim_by(s, |c: char| is_white(c))
}

/// `str::trim_matches` with `'"'` and `'\''`.
pub open spec fn trim_quotes(s: Seq<char>) -> Seq<char> {
    trim_by(s, |c: char| is_quote(c))
}

pub proof fn lemma_trim_start_skip(s: Seq<char>, f: spec_fn(char) -> bool, i: int)
    requires
        0 <= i <= s.len(),
        forall|j: int| 0 <= j < i ==> f(#[trigger] s[j]),
        i == s.len() || !f(s[i]),
    ensures
        trim_start_by(s, f) == s.skip(i),
    decreases i,
{
    if i == 0 {
        assert(s.skip(0) =~= s);
    } else {
        let t = s.drop_first();
        assert forall|j: int| 0 <= j < i - 1 implies f(#[trigger] t[j]) by {
            assert(t[j] == s[j + 1]);
        }
        lemma_trim_start_skip(t, f, i - 1);
        assert(t.skip(i - 1) =~= s.skip(i));
    }
}

pub proof fn lemma_trim_end_take(s: Seq<char>, f: spec_fn(char) -> bool, k: int)
    requires
        0 <= k <= s.len(),
        forall|j: int| k <= j < s.len() ==> f(#[trigger] s[j]),
        k == 0 || !f(s[k - 1]),
    ensures
        trim_end_by(s, f) == s.take(k),
    decreases s.len() - k,
{
    if k == s.len() {
        assert(s.take(k) =~= s);
    } else {
        let t = s.drop_last();
        assert(f(s.last()));
        assert forall|j: int| k <= j < t.len() implies f(#[trigger] t[j]) by {
            assert(t[j] == s[j]);
        }
        lemma_trim_end_take(t, f, k);
        assert(t.take(k) =~= s.take(k));
    }
}

/// A sequence with no trimmed character at either end is its own trim.
pub proof fn lemma_trim_noop(s: Seq<char>, f: spec_fn(char) -> bool)
    requires
        forall|j: int| 0 <= j < s.len() ==> !f(#[trigger] s[j]),
    ensures
        trim_by(s, f) == s,
{
    lemma_trim_start_skip(s, f, 0);
    assert(s.skip(0) =~= s);
    lemma_trim_end_take(s, f, s.len() as int);
    assert(s.take(s.len() as int) =~= s);
}

fn trimmable(c: char, quotes: bool) -> (r: bool)
    ensures
        r == (if quotes {
            is_quote(c)
        } else {
            is_white(c)
        }),
{
    if quotes {
        quote(c)
    } else {
        white(c)
    }
}

/// Bounds `(a, b)` such that `v[a..b]` is the trim of `v` by whitespace (or quotes).
fn trim_bounds(v: &Vec<char>, quotes: bool) -> (r: (usize, usize))
    ensures
        r.0 <= r.1 <= v.len(),
        quotes ==> trim_quotes(v@) == v@.subrange(r.0 as int, r.1 as int),
        !quotes ==> trim(v@) == v@.subrange(r.0 as int, r.1 as int),
{
    let ghost f: spec_fn(char) -> bool = if quotes {
        |c: char| is_quote(c)
    } else {
        |c: char| is_white(c)
    };
    let mut a: usize = 0;
    while a < v.len() && trimmable(v[a], quotes)
        invariant
            a <= v.len(),
            forall|j: int| 0 <= j < a ==> f(#[trigger] v@[j]),
            f == (if quotes {
                |c: char| is_quote(c)
            } else {
                |c: char| is_white(c)
            }),
        decreases v.len() - a,
    {
        a = a + 1;
    }
    proof {
        lemma_trim_start_skip(v@, f, a as int);
    }
    let ghost t = v@.skip(a as int);
    let mut b: usize = v.len();
    while b > a && trimmable(v[b - 1], quotes)
        invariant
            a <= b <= v.len(),
            t == v@.skip(a as int),
            forall|j: int| b <= j < v.len() ==> f(#[trigger] v@[j]),
            f == (if quotes {
                |c: char| is_quote(c)
            } else {
                |c: char| is_white(c)
            }),
        decreases b,
    {
        b = b - 1;
    }
    proof {
        assert forall|j: int| (b - a) <= j < t.len() implies f(#[trigger] t[j]) by {
            assert(t[j] == v@[j + a]);
        }
        if b > a {
            assert(t[b - a - 1] == v@[b - 1]);
        }
        lemma_trim_end_take(t, f, (b - a) as int);
        assert(t.take((b - a) as int) =~= v@.subrange(a as int, b as int));
    }
    (a, b)
}

/// `str::trim`.
pub fn trim_chars(v: &Vec<char>) -> (r: Vec<char>)
    ensures
        r@ == trim(v@),
{
    let (a, b) = trim_bounds(v, false);
    slice_chars(v, a, b)
}

/// `str::trim_matches(|c| c == '"' || c == '\'')`.
pub fn trim_quote_chars(v: &Vec<char>) -> (r: Vec<char>)
    ensures
        r@ == trim_quotes(v@),
{
    let (a, b) = trim_bounds(v, true);
    slice_chars(v, a, b)
}

// ---------------------------------------------------------------------------
// Splitting and joining
// ---------------------------------------------------------------------------
/// `str::split(sep)`, with `cur` the part collected so far.
pub open spec fn split_from(cur: Seq<char>, t: Seq<char>, sep: char) -> Seq<Seq<char>>
    decreases t.len(),
{
    if t.len() == 0 {
        seq![cur]
    } else if t[0] == sep {
        seq![cur] + split_from(Seq::empty(), t.drop_first(), sep)
    } else {
        split_from(cur.push(t[0]), t.drop_first(), sep)
    }
}

/// `str::split(sep)`: the parts between separators, empty parts included.
pub open spec fn split(s: Seq<char>, sep: char) -> Seq<Seq<char>> {
    split_from(Seq::empty(), s, sep)
}

/// `[String]::join(sep)`.
pub open spec fn join(parts: Seq<Seq<char>>, sep: Seq<char>) -> Seq<char>
    decreases parts.len(),
{
    if parts.len() == 0 {
        Seq::empty()
    } else if parts.len() == 1 {
        parts[0]
    } else {
        parts[0] + sep + join(parts.drop_first(), sep)
    }
}

/// The char sequences held by a list of char vectors.
pub open spec fn views(vs: Seq<Vec<char>>) -> Seq<Seq<char>> {
    vs.map_values(|x: Vec<char>| x@)
}

/// `str::split(sep)` on chars.
pub fn split_chars(v: &Vec<char>, sep: char) -> (r: Vec<Vec<char>>)
    ensures
        views(r@) == split(v@, sep),
{
    let mut done: Vec<Vec<char>> = Vec::new();
    let mut cur: Vec<char> = Vec::new();
    let mut i: usize = 0;
    assert(v@.skip(0) =~= v@);
    assert(views(done@) + split(v@, sep) =~= split(v@, sep));
    while i < v.len()
        invariant
            i <= v.len(),
            views(done@) + split_from(cur@, v@.skip(i as int), sep) == split(v@, sep),
        decreases v.len() - i,
    {
        let ghost rest = v@.skip(i as int);
        assert(rest.drop_first() =~= v@.skip(i + 1));
        assert(rest[0] == v@[i as int]);
        if v[i] == sep {
            let ghost old_done = views(done@);
            let c = cur;
            done.push(c);
            cur = Vec::new();
            assert(views(done@) =~= old_done + seq![c@]);
        } else {
            cur.push(v[i]);
        }
        i = i + 1;
    }
    assert(v@.skip(i as int) =~= Seq::<char>::empty());
    let ghost old_done = views(done@);
    let c = cur;
    done.push(c);
    assert(views(done@) =~= old_done + seq![c@]);
    done
}

/// Splitting across a stretch free of separators extends the current part.
pub proof fn lemma_split_from_append(cur: Seq<char>, tok: Seq<char>, rest: Seq<char>, sep: char)
    requires
        !tok.contains(sep),
    ensures
        split_from(cur, tok + rest, sep) == split_from(cur + tok, rest, sep),
    decreases tok.len(),
{
    if tok.len() == 0 {
        assert(tok + rest =~= rest);
        assert(cur + tok =~= cur);
    } else {
        let t = tok + rest;
        assert(t[0] == tok[0]);
        assert(t.drop_first() =~= tok.drop_first() + rest);
        assert(!tok.drop_first().contains(sep)) by {
            if tok.drop_first().contains(sep) {
                let k = choose|k: int| 0 <= k < tok.drop_first().len() && tok.drop_first()[k] == sep;
                assert(tok[k + 1] == sep);
            }
        }
        assert(tok[0] != sep) by {
            if tok[0] == sep {
                assert(tok.contains(sep));
            }
        }
        lemma_split_from_append(cur.push(tok[0]), tok.drop_first(), rest, sep);
        assert(cur.push(tok[0]) + tok.drop_first() =~= cur + tok);
    }
}

/// Splitting a joined list of separator-free parts gives the parts back.
pub proof fn lemma_split_join(parts: Seq<Seq<char>>, sep: char)
    requires
        parts.len() > 0,
        forall|i: int| 0 <= i < parts.len() ==> !(#[trigger] parts[i]).contains(sep),
    ensures
        split(join(parts, seq![sep]), sep) == parts,
{
    lemma_split_from_join(Seq::empty(), parts, sep);
    assert(seq![Seq::<char>::empty() + parts[0]] + parts.drop_first() =~= parts);
}

proof fn lemma_split_from_join(cur: Seq<char>, parts: Seq<Seq<char>>, sep: char)
    requires
        parts.len() > 0,
        forall|i: int| 0 <= i < parts.len() ==> !(#[trigger] parts[i]).contains(sep),
    ensures
        split_from(cur, join(parts, seq![sep]), sep) == seq![cur + parts[0]] + parts.drop_first(),
    decreases parts.len(),
{
    assert(!parts[0].contains(sep));
    if parts.len() == 1 {
        lemma_split_from_append(cur, parts[0], Seq::empty(), sep);
        assert(parts[0] + Seq::<char>::empty() =~= parts[0]);
        assert(parts.drop_first() =~= Seq::<Seq<char>>::empty());
        assert(seq![cur + parts[0]] + parts.drop_first() =~= seq![cur + parts[0]]);
    } else {
        let rest = parts.drop_first();
        let tail = seq![sep] + join(rest, seq![sep]);
        assert(join(parts, seq![sep]) =~= parts[0] + tail);
        lemma_split_from_append(cur, parts[0], tail, sep);
        assert(tail[0] == sep);
        assert(tail.drop_first() =~= join(rest, seq![sep]));
        assert forall|i: int| 0 <= i < rest.len() implies !(#[trigger] rest[i]).contains(sep) by {
            assert(rest[i] == parts[i + 1]);
        }
        lemma_split_from_join(Seq::empty(), rest, sep);
        assert(seq![Seq::<char>::empty() + rest[0]] + rest.drop_first() =~= rest);
        assert(seq![cur + parts[0]] + rest =~= seq![cur + parts[0]] + parts.drop_first());
    }
}

/// `[String]::join(sep)` on char vectors.
pub fn join_chars(parts: &Vec<Vec<char>>, sep: char) -> (r: String)
    ensures
        r@ == join(views(parts@), seq![sep]),
{
    let mut out = String::new();
    let mut i: usize = 0;
    while i < parts.len()
        invariant
            i <= parts.len(),
            out@ == join(views(parts@).take(i as int), seq![sep]),
        decreases parts.len() - i,
    {
        let ghost before = views(parts@).take(i as int);
        if i > 0 {
            push_char(&mut out, sep);
        }
        push_chars(&mut out, &parts[i]);
        proof {
            lemma_join_push(before, parts@[i as int]@, seq![sep]);
            assert(views(parts@).take(i + 1) =~= before.push(parts@[i as int]@));
        }
        i = i + 1;
    }
    assert(views(parts@).take(parts.len() as int) =~= views(parts@));
    out
}

/// Joining one more part appends the separator and that part.
pub proof fn lemma_join_push(parts: Seq<Seq<char>>, x: Seq<char>, sep: Seq<char>)
    ensures
        join(parts.push(x), sep) == (if parts.len() == 0 {
            x
        } else {
            join(parts, sep) + sep + x
        }),
    decreases parts.len(),
{
    let px = parts.push(x);
    if parts.len() == 0 {
        assert(px.len() == 1 && px[0] == x);
    } else if parts.len() == 1 {
        assert(px.drop_first() =~= seq![x]);
        assert(px[0] == parts[0]);
        assert(join(seq![x], sep) == x);
    } else {
        assert(px[0] == parts[0]);
        lemma_join_push(parts.drop_first(), x, sep);
        assert(parts.push(x).drop_first() =~= parts.drop_first().push(x));
        assert(parts[0] + sep + (join(parts.drop_first(), sep) + sep + x) =~= parts[0] + sep
            + join(parts.drop_first(), sep) + sep + x);
    }
}

/// A `Result` whose error string is replaced by its chars.
pub open spec fn err_view<T>(r: Result<T, String>) -> Result<T, Seq<char>> {
    match r {
        Ok(x) => Ok(x),
        Err(e) => Err(e@),
    }
}

/// A fresh string: the chars of `prefix` followed by `rest`.
pub fn message(prefix: &str, rest: &Vec<char>) -> (r: String)
    ensures
        r@ == prefix@ + rest@,
{
    let mut r = owned(prefix);
    push_chars(&mut r, rest);
    r
}

// ---------------------------------------------------------------------------
// Replacing
// ---------------------------------------------------------------------------
/// `str::replace(pat, rep)` for a non-empty pattern: matches are taken left to
/// right without overlap.
pub open spec fn replace_all(s: Seq<char>, pat: Seq<char>, rep: Seq<char>) -> Seq<char>
    decreases s.len(),
{
    if s.len() == 0 {
        Seq::empty()
    } else if pat.len() > 0 && has_prefix(s, pat) {
        rep + replace_all(s.skip(pat.len() as int), pat, rep)
    } else {
        seq![s[0]] + replace_all(s.drop_first(), pat, rep)
    }
}

/// `str::replace(pat, rep)`.
pub fn replace(s: &str, pat: &str, rep: &str) -> (r: String)
    requires
        pat@.len() > 0,
    ensures
        r@ == replace_all(s@, pat@, rep@),
{
    let v = chars_of(s);
    let p = chars_of(pat);
    let w = chars_of(rep);
    let mut out = String::new();
    let mut i: usize = 0;
    assert(v@.skip(0) =~= v@);
    assert(out@ + replace_all(v@, p@, w@) =~= replace_all(v@, p@, w@));
    while i < v.len()
        invariant
            i <= v.len(),
            v@ == s@,
            p@ == pat@,
            w@ == rep@,
            p@.len() > 0,
            out@ + replace_all(v@.skip(i as int), p@, w@) == replace_all(v@, p@, w@),
        decreases v.len() - i,
    {
        let ghost rest = v@.skip(i as int);
        if matches_at(&v, i, &p) {
            assert(rest.skip(p@.len() as int) =~= v@.skip(i + p@.len()));
            let ghost prev = out@;
            push_chars(&mut out, &w);
            assert(replace_all(rest, p@, w@) == w@ + replace_all(
                rest.skip(p@.len() as int),
                p@,
                w@,
            ));
            assert(out@ + replace_all(v@.skip(i + p@.len()), p@, w@) =~= prev + replace_all(
                rest,
                p@,
                w@,
            ));
            i = i + p.len();
        } else {
            assert(rest.drop_first() =~= v@.skip(i + 1));
            assert(rest[0] == v@[i as int]);
            push_char(&mut out, v[i]);
            i = i + 1;
        }
    }
    assert(v@.skip(i as int) =~= Seq::<char>::empty());
    assert(out@ + Seq::<char>::empty() =~= out@);
    out
}

} // verus!
