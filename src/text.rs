//! Character-level helpers on strings, stated over `Seq<char>`.

use vstd::prelude::*;

verus! {

/// Equality of two strings, character by character.
pub fn text_eq(a: &str, b: &str) -> (r: bool)
    ensures
        r == (a@ == b@),
{
    let n = a.unicode_len();
    let m = b.unicode_len();
    if n != m {
        return false;
    }
    let mut i: usize = 0;
    while i < n
        invariant
            n == a@.len(),
            m == b@.len(),
            n == m,
            i <= n,
            forall|j: int| 0 <= j < i ==> a@[j] == b@[j],
        decreases n - i,
    {
        if a.get_char(i) != b.get_char(i) {
            return false;
        }
        i = i + 1;
    }
    proof {
        assert(a@ =~= b@);
    }
    true
}

} // verus!

verus! {

/// Characters with the Unicode `White_Space` property.
pub open spec fn is_ws(c: char) -> bool {
    c == '\t' || c == '\n' || c == '\u{0B}' || c == '\u{0C}' || c == '\r' || c == ' '
        || c == '\u{85}' || c == '\u{A0}' || c == '\u{1680}' || ('\u{2000}' <= c && c
        <= '\u{200A}') || c == '\u{2028}' || c == '\u{2029}' || c == '\u{202F}' || c
        == '\u{205F}' || c == '\u{3000}'
}

pub fn is_whitespace(c: char) -> (r: bool)
    ensures
        r == is_ws(c),
{
    c == '\t' || c == '\n' || c == '\u{0B}' || c == '\u{0C}' || c == '\r' || c == ' '
        || c == '\u{85}' || c == '\u{A0}' || c == '\u{1680}' || ('\u{2000}' <= c && c
        <= '\u{200A}') || c == '\u{2028}' || c == '\u{2029}' || c == '\u{202F}' || c
        == '\u{205F}' || c == '\u{3000}'
}

/// Which characters a trim removes: whitespace, or one given character.
pub open spec fn strips(ws: bool, ch: char, c: char) -> bool {
    if ws {
        is_ws(c)
    } else {
        c == ch
    }
}

pub open spec fn trim_start_spec(s: Seq<char>, ws: bool, ch: char) -> Seq<char>
    decreases s.len(),
{
    if s.len() > 0 && strips(ws, ch, s[0]) {
        trim_start_spec(s.drop_first(), ws, ch)
    } else {
        s
    }
}

pub open spec fn trim_end_spec(s: Seq<char>, ws: bool, ch: char) -> Seq<char>
    decreases s.len(),
{
    if s.len() > 0 && strips(ws, ch, s.last()) {
        trim_end_spec(s.drop_last(), ws, ch)
    } else {
        s
    }
}

/// `s` without its leading and trailing stripped characters.
pub open spec fn trim_spec(s: Seq<char>, ws: bool, ch: char) -> Seq<char> {
    trim_end_spec(trim_start_spec(s, ws, ch), ws, ch)
}

pub open spec fn trimmed(s: Seq<char>) -> Seq<char> {
    trim_spec(s, true, ' ')
}

pub open spec fn trimmed_of(s: Seq<char>, ch: char) -> Seq<char> {
    trim_spec(s, false, ch)
}

fn strip_test(ws: bool, ch: char, c: char) -> (r: bool)
    ensures
        r == strips(ws, ch, c),
{
    if ws {
        is_whitespace(c)
    } else {
        c == ch
    }
}

proof fn lemma_trim_start_step(s: Seq<char>, i: int, ws: bool, ch: char)
    requires
        0 <= i < s.len(),
        strips(ws, ch, s[i]),
    ensures
        trim_start_spec(s.subrange(i, s.len() as int), ws, ch) == trim_start_spec(
            s.subrange(i + 1, s.len() as int),
            ws,
            ch,
        ),
{
    assert(s.subrange(i, s.len() as int).drop_first() =~= s.subrange(i + 1, s.len() as int));
}

proof fn lemma_trim_end_step(s: Seq<char>, j: int, ws: bool, ch: char)
    requires
        0 < j <= s.len(),
        strips(ws, ch, s[j - 1]),
    ensures
        trim_end_spec(s.subrange(0, j), ws, ch) == trim_end_spec(s.subrange(0, j - 1), ws, ch),
{
    assert(s.subrange(0, j).drop_last() =~= s.subrange(0, j - 1));
}

/// Removes leading and trailing characters: whitespace when `ws`, else `ch`.
pub fn trim_by<'a>(s: &'a str, ws: bool, ch: char) -> (r: &'a str)
    ensures
        r@ == trim_spec(s@, ws, ch),
{
    let n = s.unicode_len();
    let mut i: usize = 0;
    proof {
        assert(s@.subrange(0, n as int) =~= s@);
    }
    while i < n && strip_test(ws, ch, s.get_char(i))
        invariant
            n == s@.len(),
            i <= n,
            trim_start_spec(s@, ws, ch) == trim_start_spec(s@.subrange(i as int, n as int), ws, ch),
        decreases n - i,
    {
        proof {
            lemma_trim_start_step(s@, i as int, ws, ch);
        }
        i = i + 1;
    }
    let ghost rest = s@.subrange(i as int, n as int);
    proof {
        assert(s@.subrange(0, n as int) =~= s@);
        if i < n {
            assert(rest[0] == s@[i as int]);
        }
        assert(trim_start_spec(rest, ws, ch) == rest);
    }
    let mut j: usize = n;
    while j > i && strip_test(ws, ch, s.get_char(j - 1))
        invariant
            n == s@.len(),
            i <= j <= n,
            rest == s@.subrange(i as int, n as int),
            trim_end_spec(rest, ws, ch) == trim_end_spec(
                s@.subrange(i as int, j as int),
                ws,
                ch,
            ),
        decreases j - i,
    {
        proof {
            let t = s@.subrange(i as int, n as int);
            lemma_trim_end_step(t, j - i, ws, ch);
            assert(t.subrange(0, j - i) =~= s@.subrange(i as int, j as int));
            assert(t.subrange(0, j - i - 1) =~= s@.subrange(i as int, j - 1));
        }
        j = j - 1;
    }
    s.substring_char(i, j)
}

/// Whitespace-trimmed view of `s`.
pub fn trim<'a>(s: &'a str) -> (r: &'a str)
    ensures
        r@ == trimmed(s@),
{
    trim_by(s, true, ' ')
}

/// `s` without leading and trailing occurrences of `ch`.
pub fn trim_matches<'a>(s: &'a str, ch: char) -> (r: &'a str)
    ensures
        r@ == trimmed_of(s@, ch),
{
    trim_by(s, false, ch)
}

} // verus!

verus! {

pub open spec fn count_char_spec(s: Seq<char>, c: char) -> nat
    decreases s.len(),
{
    if s.len() == 0 {
        0
    } else {
        count_char_spec(s.drop_last(), c) + if s.last() == c {
            1nat
        } else {
            0nat
        }
    }
}

/// How many times `c` occurs in `s`.
pub fn count_char(s: &str, c: char) -> (r: usize)
    ensures
        r == count_char_spec(s@, c),
{
    let n = s.unicode_len();
    let mut i: usize = 0;
    let mut k: usize = 0;
    while i < n
        invariant
            n == s@.len(),
            i <= n,
            k == count_char_spec(s@.subrange(0, i as int), c),
            k <= i,
        decreases n - i,
    {
        proof {
            assert(s@.subrange(0, i + 1).drop_last() =~= s@.subrange(0, i as int));
        }
        if s.get_char(i) == c {
            k = k + 1;
        }
        i = i + 1;
    }
    proof {
        assert(s@.subrange(0, n as int) =~= s@);
    }
    k
}

/// Index of the first `c` in `s`.
pub open spec fn first_index_of(s: Seq<char>, c: char, i: int) -> bool {
    0 <= i < s.len() && s[i] == c && forall|j: int| 0 <= j < i ==> s[j] != c
}

pub fn find_char(s: &str, c: char) -> (r: Option<usize>)
    ensures
        match r {
            Some(i) => first_index_of(s@, c, i as int),
            None => forall|j: int| 0 <= j < s@.len() ==> s@[j] != c,
        },
{
    let n = s.unicode_len();
    let mut i: usize = 0;
    while i < n
        invariant
            n == s@.len(),
            i <= n,
            forall|j: int| 0 <= j < i ==> s@[j] != c,
        decreases n - i,
    {
        if s.get_char(i) == c {
            return Some(i);
        }
        i = i + 1;
    }
    None
}

/// Whether a repository string is acceptable: empty, or `owner/name` with one
/// `/` and non-empty text on both sides of it.
pub open spec fn repo_ok(r: Seq<char>) -> bool {
    r.len() == 0 || (count_char_spec(r, '/') == 1 && r[0] != '/' && r.last() != '/')
}

pub fn repo_is_valid(r: &str) -> (ok: bool)
    ensures
        ok == repo_ok(r@),
{
    let n = r.unicode_len();
    n == 0 || (count_char(r, '/') == 1 && r.get_char(0) != '/' && r.get_char(n - 1) != '/')
}

} // verus!
