//! Character-level text utilities shared by all parsers: whitespace,
//! trimming, line splitting, word splitting and string ordering.
use vstd::prelude::*;

verus! {

/// Appends one character to a `String` (std's `String::push`).
#[verifier::external_body]
pub(crate) fn push_char(s: &mut String, c: char)
    ensures
        final(s)@ == old(s)@.push(c),
{
    s.push(c);
}

/// The characters of a string slice, in order.
pub fn to_chars(s: &str) -> (res: Vec<char>)
    ensures
        res@ == s@,
{
    let mut res: Vec<char> = Vec::new();
    for c in it: s.chars()
        invariant
            res@ == it.seq().take(it.index() as int),
            it.seq() == s@,
    {
        res.push(c);
    }
    res
}

/// Builds a `String` holding exactly the given characters.
pub fn from_chars(v: &[char]) -> (res: String)
    ensures
        res@ == v@,
{
    let mut res = String::new();
    let mut i: usize = 0;
    while i < v.len()
        invariant
            i <= v.len(),
            res@ == v@.take(i as int),
        decreases v.len() - i,
    {
        push_char(&mut res, v[i]);
        assert(v@.take(i as int).push(v@[i as int]) =~= v@.take(i + 1));
        i = i + 1;
    }
    assert(v@.take(v.len() as int) =~= v@);
    res
}

// ---------------------------------------------------------------------------
// Character classes
// ---------------------------------------------------------------------------

/// Unicode `White_Space`: the characters that `char::is_whitespace`, `str::trim`
/// and the `\s` class of regular expressions treat as whitespace.
pub open spec fn is_ws(c: char) -> bool {
    ||| ('\t' <= c && c <= '\r')
    ||| c == ' '
    ||| c == '\u{85}'
    ||| c == '\u{a0}'
    ||| c == '\u{1680}'
    ||| ('\u{2000}' <= c && c <= '\u{200a}')
    ||| c == '\u{2028}'
    ||| c == '\u{2029}'
    ||| c == '\u{202f}'
    ||| c == '\u{205f}'
    ||| c == '\u{3000}'
}

pub fn is_ws_exec(c: char) -> (r: bool)
    ensures
        r == is_ws(c),
{
    ('\t' <= c && c <= '\r') || c == ' ' || c == '\u{85}' || c == '\u{a0}' || c == '\u{1680}'
        || ('\u{2000}' <= c && c <= '\u{200a}') || c == '\u{2028}' || c == '\u{2029}' || c
        == '\u{202f}' || c == '\u{205f}' || c == '\u{3000}'
}

pub open spec fn is_ascii_alpha(c: char) -> bool {
    ('a' <= c && c <= 'z') || ('A' <= c && c <= 'Z')
}

pub open spec fn is_ascii_upper(c: char) -> bool {
    'A' <= c && c <= 'Z'
}

pub open spec fn is_ascii_digit(c: char) -> bool {
    '0' <= c && c <= '9'
}

/// `[a-zA-Z_]`
pub open spec fn is_ident_start(c: char) -> bool {
    is_ascii_alpha(c) || c == '_'
}

/// `[a-zA-Z0-9_]`
pub open spec fn is_ident_char(c: char) -> bool {
    is_ascii_alpha(c) || is_ascii_digit(c) || c == '_'
}

/// `[a-zA-Z0-9_-]`
pub open spec fn is_name_char(c: char) -> bool {
    is_ident_char(c) || c == '-'
}

pub fn is_ident_start_exec(c: char) -> (r: bool)
    ensures
        r == is_ident_start(c),
{
    ('a' <= c && c <= 'z') || ('A' <= c && c <= 'Z') || c == '_'
}

pub fn is_ident_char_exec(c: char) -> (r: bool)
    ensures
        r == is_ident_char(c),
{
    ('a' <= c && c <= 'z') || ('A' <= c && c <= 'Z') || ('0' <= c && c <= '9') || c == '_'
}

pub fn is_name_char_exec(c: char) -> (r: bool)
    ensures
        r == is_name_char(c),
{
    ('a' <= c && c <= 'z') || ('A' <= c && c <= 'Z') || ('0' <= c && c <= '9') || c == '_' || c
        == '-'
}

// ---------------------------------------------------------------------------
// Runs of characters
// ---------------------------------------------------------------------------

/// The first index at or after `i` that does not hold whitespace (or the length).
pub open spec fn ws_end(s: Seq<char>, i: int) -> int
    decreases s.len() - i,
{
    if 0 <= i < s.len() && is_ws(s[i]) {
        ws_end(s, i + 1)
    } else {
        i
    }
}

/// The first index at or after `i` that holds whitespace (or the length).
pub open spec fn nonws_end(s: Seq<char>, i: int) -> int
    decreases s.len() - i,
{
    if 0 <= i < s.len() && !is_ws(s[i]) {
        nonws_end(s, i + 1)
    } else {
        i
    }
}

/// The end of the run of `[a-zA-Z0-9_]` characters starting at `i`.
pub open spec fn ident_end(s: Seq<char>, i: int) -> int
    decreases s.len() - i,
{
    if 0 <= i < s.len() && is_ident_char(s[i]) {
        ident_end(s, i + 1)
    } else {
        i
    }
}

/// The end of the run of `[a-zA-Z0-9_-]` characters starting at `i`.
pub open spec fn name_end(s: Seq<char>, i: int) -> int
    decreases s.len() - i,
{
    if 0 <= i < s.len() && is_name_char(s[i]) {
        name_end(s, i + 1)
    } else {
        i
    }
}

/// Scanning backwards from `j`: the smallest index `k <= j` such that all of
/// `s[k..j]` is whitespace.
pub open spec fn rws_start(s: Seq<char>, j: int) -> int
    decreases j,
{
    if 0 < j <= s.len() && is_ws(s[j - 1]) {
        rws_start(s, j - 1)
    } else {
        j
    }
}

/// `ws_end` stops at the first non-whitespace character at or after `i`.
pub proof fn lemma_ws_end(s: Seq<char>, i: int)
    requires
        0 <= i <= s.len(),
    ensures
        i <= ws_end(s, i) <= s.len(),
        forall|k: int| i <= k < ws_end(s, i) ==> is_ws(#[trigger] s[k]),
        ws_end(s, i) < s.len() ==> !is_ws(s[ws_end(s, i)]),
    decreases s.len() - i,
{
    if i < s.len() && is_ws(s[i]) {
        lemma_ws_end(s, i + 1);
    }
}

/// `nonws_end` stops at the first whitespace character at or after `i`.
pub proof fn lemma_nonws_end(s: Seq<char>, i: int)
    requires
        0 <= i <= s.len(),
    ensures
        i <= nonws_end(s, i) <= s.len(),
        forall|k: int| i <= k < nonws_end(s, i) ==> !is_ws(#[trigger] s[k]),
        nonws_end(s, i) < s.len() ==> is_ws(s[nonws_end(s, i)]),
    decreases s.len() - i,
{
    if i < s.len() && !is_ws(s[i]) {
        lemma_nonws_end(s, i + 1);
    }
}

/// `ident_end` stops at the first character that cannot continue an identifier.
pub proof fn lemma_ident_end(s: Seq<char>, i: int)
    requires
        0 <= i <= s.len(),
    ensures
        i <= ident_end(s, i) <= s.len(),
        forall|k: int| i <= k < ident_end(s, i) ==> is_ident_char(#[trigger] s[k]),
        ident_end(s, i) < s.len() ==> !is_ident_char(s[ident_end(s, i)]),
    decreases s.len() - i,
{
    if i < s.len() && is_ident_char(s[i]) {
        lemma_ident_end(s, i + 1);
    }
}

/// `name_end` stops at the first character that cannot continue a name.
pub proof fn lemma_name_end(s: Seq<char>, i: int)
    requires
        0 <= i <= s.len(),
    ensures
        i <= name_end(s, i) <= s.len(),
        forall|k: int| i <= k < name_end(s, i) ==> is_name_char(#[trigger] s[k]),
        name_end(s, i) < s.len() ==> !is_name_char(s[name_end(s, i)]),
    decreases s.len() - i,
{
    if i < s.len() && is_name_char(s[i]) {
        lemma_name_end(s, i + 1);
    }
}

/// `rws_start` goes back over the whitespace that ends `s[..j]`.
pub proof fn lemma_rws_start(s: Seq<char>, j: int)
    requires
        0 <= j <= s.len(),
    ensures
        0 <= rws_start(s, j) <= j,
        forall|k: int| rws_start(s, j) <= k < j ==> is_ws(#[trigger] s[k]),
        rws_start(s, j) > 0 ==> !is_ws(s[rws_start(s, j) - 1]),
    decreases j,
{
    if 0 < j && is_ws(s[j - 1]) {
        lemma_rws_start(s, j - 1);
    }
}

pub fn ws_end_exec(s: &[char], i: usize) -> (r: usize)
    requires
        i <= s@.len(),
    ensures
        r == ws_end(s@, i as int),
{
    let mut j = i;
    while j < s.len() && is_ws_exec(s[j])
        invariant
            i <= j <= s@.len(),
            ws_end(s@, i as int) == ws_end(s@, j as int),
        decreases s.len() - j,
    {
        j = j + 1;
    }
    j
}

pub fn nonws_end_exec(s: &[char], i: usize) -> (r: usize)
    requires
        i <= s@.len(),
    ensures
        r == nonws_end(s@, i as int),
{
    let mut j = i;
    while j < s.len() && !is_ws_exec(s[j])
        invariant
            i <= j <= s@.len(),
            nonws_end(s@, i as int) == nonws_end(s@, j as int),
        decreases s.len() - j,
    {
        j = j + 1;
    }
    j
}

pub fn ident_end_exec(s: &[char], i: usize) -> (r: usize)
    requires
        i <= s@.len(),
    ensures
        r == ident_end(s@, i as int),
{
    let mut j = i;
    while j < s.len() && is_ident_char_exec(s[j])
        invariant
            i <= j <= s@.len(),
            ident_end(s@, i as int) == ident_end(s@, j as int),
        decreases s.len() - j,
    {
        j = j + 1;
    }
    j
}

pub fn name_end_exec(s: &[char], i: usize) -> (r: usize)
    requires
        i <= s@.len(),
    ensures
        r == name_end(s@, i as int),
{
    let mut j = i;
    while j < s.len() && is_name_char_exec(s[j])
        invariant
            i <= j <= s@.len(),
            name_end(s@, i as int) == name_end(s@, j as int),
        decreases s.len() - j,
    {
        j = j + 1;
    }
    j
}

pub fn rws_start_exec(s: &[char], j: usize) -> (r: usize)
    requires
        j <= s@.len(),
    ensures
        r == rws_start(s@, j as int),
{
    let mut k = j;
    while k > 0 && is_ws_exec(s[k - 1])
        invariant
            k <= j <= s@.len(),
            rws_start(s@, j as int) == rws_start(s@, k as int),
        decreases k,
    {
        k = k - 1;
    }
    k
}

// ---------------------------------------------------------------------------
// Trimming
// ---------------------------------------------------------------------------

/// `str::trim`: the text without leading and trailing whitespace.
pub open spec fn trim(s: Seq<char>) -> Seq<char> {
    let a = ws_end(s, 0);
    if a >= s.len() {
        Seq::empty()
    } else {
        s.subrange(a, rws_start(s, s.len() as int))
    }
}

/// `str::trim_start`
pub open spec fn trim_start(s: Seq<char>) -> Seq<char> {
    s.subrange(ws_end(s, 0), s.len() as int)
}

/// `str::trim_end`
pub open spec fn trim_end(s: Seq<char>) -> Seq<char> {
    s.subrange(0, rws_start(s, s.len() as int))
}

/// True when every character is whitespace (so `trim` gives the empty text).
pub open spec fn is_blank(s: Seq<char>) -> bool {
    forall|i: int| 0 <= i < s.len() ==> is_ws(#[trigger] s[i])
}

/// What trimming leaves: a piece of the text without whitespace at its ends.
pub proof fn lemma_trim(s: Seq<char>)
    ensures
        is_blank(s) <==> trim(s).len() == 0,
        is_blank(s) <==> ws_end(s, 0) >= s.len(),
        trim(s).len() > 0 ==> !is_ws(trim(s)[0]) && !is_ws(trim(s).last()),
        forall|i: int| 0 <= i < trim(s).len() ==> trim(s)[i] == s[i + ws_end(s, 0)],
{
    lemma_ws_end(s, 0);
    lemma_rws_start(s, s.len() as int);
    let a = ws_end(s, 0);
    if a < s.len() {
        // the last non-whitespace character is at or after a
        assert(!is_ws(s[a]));
        if rws_start(s, s.len() as int) <= a {
            assert(is_ws(s[a]));
        }
    }
}

/// A copy of `s[a..b]`.
pub fn slice_to_vec(s: &[char], a: usize, b: usize) -> (r: Vec<char>)
    requires
        a <= b <= s@.len(),
    ensures
        r@ == s@.subrange(a as int, b as int),
{
    let mut r: Vec<char> = Vec::new();
    let mut i = a;
    while i < b
        invariant
            a <= i <= b <= s@.len(),
            r@ == s@.subrange(a as int, i as int),
        decreases b - i,
    {
        r.push(s[i]);
        assert(s@.subrange(a as int, i as int).push(s@[i as int]) =~= s@.subrange(
            a as int,
            i + 1,
        ));
        i = i + 1;
    }
    r
}

pub fn trim_exec(s: &[char]) -> (r: Vec<char>)
    ensures
        r@ == trim(s@),
{
    let a = ws_end_exec(s, 0);
    if a >= s.len() {
        Vec::new()
    } else {
        proof {
            lemma_ws_end(s@, 0);
            lemma_rws_start(s@, s@.len() as int);
            if rws_start(s@, s@.len() as int) <= a {
                assert(is_ws(s@[a as int]));
            }
        }
        let b = rws_start_exec(s, s.len());
        slice_to_vec(s, a, b)
    }
}

pub fn trim_start_exec(s: &[char]) -> (r: Vec<char>)
    ensures
        r@ == trim_start(s@),
{
    proof {
        lemma_ws_end(s@, 0);
    }
    let a = ws_end_exec(s, 0);
    slice_to_vec(s, a, s.len())
}

pub fn trim_end_exec(s: &[char]) -> (r: Vec<char>)
    ensures
        r@ == trim_end(s@),
{
    proof {
        lemma_rws_start(s@, s@.len() as int);
    }
    let b = rws_start_exec(s, s.len());
    slice_to_vec(s, 0, b)
}

pub fn is_blank_exec(s: &[char]) -> (r: bool)
    ensures
        r == is_blank(s@),
{
    proof {
        lemma_trim(s@);
    }
    ws_end_exec(s, 0) >= s.len()
}

// ---------------------------------------------------------------------------
// Lines
// ---------------------------------------------------------------------------

/// The first index at or after `i` holding a line feed (or the length).
pub open spec fn next_lf(s: Seq<char>, i: int) -> int
    decreases s.len() - i,
{
    if 0 <= i < s.len() && s[i] != '\n' {
        next_lf(s, i + 1)
    } else {
        i
    }
}

/// Removes one trailing carriage return.
pub open spec fn strip_cr(l: Seq<char>) -> Seq<char> {
    if l.len() > 0 && l.last() == '\r' {
        l.drop_last()
    } else {
        l
    }
}

/// `str::lines` from index `i`: pieces ended by `\n` (with a `\r` just before
/// the `\n` removed); a last piece without `\n` is kept as it is.
pub open spec fn lines_from(s: Seq<char>, i: int) -> Seq<Seq<char>>
    decreases s.len() - i,
{
    if i < 0 || i >= s.len() {
        Seq::empty()
    } else {
        proof {
            lemma_next_lf(s, i);
        }
        let j = next_lf(s, i);
        if j < s.len() {
            seq![strip_cr(s.subrange(i, j))] + lines_from(s, j + 1)
        } else {
            seq![s.subrange(i, s.len() as int)]
        }
    }
}

/// `str::lines`
pub open spec fn lines(s: Seq<char>) -> Seq<Seq<char>> {
    lines_from(s, 0)
}

/// `next_lf` stops at the first line feed at or after `i`.
pub proof fn lemma_next_lf(s: Seq<char>, i: int)
    requires
        0 <= i <= s.len(),
    ensures
        i <= next_lf(s, i) <= s.len(),
        forall|k: int| i <= k < next_lf(s, i) ==> #[trigger] s[k] != '\n',
        next_lf(s, i) < s.len() ==> s[next_lf(s, i)] == '\n',
    decreases s.len() - i,
{
    if i < s.len() && s[i] != '\n' {
        lemma_next_lf(s, i + 1);
    }
}

/// `next_lf` from `i` is `j` when `s[i..j]` has no line feed and `s[j]` (if
/// any) is one.
pub proof fn lemma_next_lf_at(s: Seq<char>, i: int, j: int)
    requires
        0 <= i <= j <= s.len(),
        forall|k: int| i <= k < j ==> #[trigger] s[k] != '\n',
        j < s.len() ==> s[j] == '\n',
    ensures
        next_lf(s, i) == j,
    decreases j - i,
{
    if i < j {
        lemma_next_lf_at(s, i + 1, j);
    }
}

fn strip_cr_exec(l: Vec<char>) -> (r: Vec<char>)
    ensures
        r@ == strip_cr(l@),
{
    let mut l = l;
    if l.len() > 0 && l[l.len() - 1] == '\r' {
        l.pop();
    }
    l
}

/// The character sequences held by a vector of lines.
pub open spec fn views(v: Seq<Vec<char>>) -> Seq<Seq<char>> {
    v.map_values(|l: Vec<char>| l@)
}

/// Splits text into lines as `str::lines` does.
pub fn split_lines(s: &[char]) -> (r: Vec<Vec<char>>)
    ensures
        views(r@) == lines(s@),
{
    let mut r: Vec<Vec<char>> = Vec::new();
    let mut start: usize = 0;
    let mut i: usize = 0;
    while i < s.len()
        invariant
            start <= i <= s@.len(),
            forall|k: int| start <= k < i ==> #[trigger] s@[k] != '\n',
            views(r@) + lines_from(s@, start as int) == lines(s@),
        decreases s.len() - i,
    {
        if s[i] == '\n' {
            proof {
                lemma_next_lf_at(s@, start as int, i as int);
            }
            let piece = slice_to_vec(s, start, i);
            let piece = strip_cr_exec(piece);
            let ghost old_r = views(r@);
            r.push(piece);
            assert(views(r@) =~= old_r.push(strip_cr(s@.subrange(start as int, i as int))));
            assert(lines_from(s@, start as int) == seq![strip_cr(s@.subrange(start as int, i as int))]
                + lines_from(s@, i + 1));
            assert(views(r@) + lines_from(s@, i + 1) =~= old_r + lines_from(
                s@,
                start as int,
            ));
            start = i + 1;
        }
        i = i + 1;
    }
    if start < s.len() {
        proof {
            lemma_next_lf_at(s@, start as int, s@.len() as int);
        }
        let piece = slice_to_vec(s, start, s.len());
        let ghost old_r = views(r@);
        r.push(piece);
        assert(views(r@) =~= old_r + lines_from(s@, start as int));
    } else {
        assert(views(r@) =~= views(r@) + lines_from(s@, start as int));
    }
    r
}

/// Splits a string slice into lines as `str::lines` does.
pub fn str_lines(s: &str) -> (r: Vec<Vec<char>>)
    ensures
        views(r@) == lines(s@),
{
    let cs = to_chars(s);
    split_lines(cs.as_slice())
}

// ---------------------------------------------------------------------------
// Words
// ---------------------------------------------------------------------------

/// `str::split_whitespace` from index `i`.
pub open spec fn words_from(s: Seq<char>, i: int) -> Seq<Seq<char>>
    decreases s.len() - i,
{
    if i < 0 || i >= s.len() {
        Seq::empty()
    } else {
        proof {
            lemma_ws_end(s, i);
        }
        let a = ws_end(s, i);
        if a >= s.len() {
            Seq::empty()
        } else {
            proof {
                lemma_nonws_end(s, a);
            }
            let b = nonws_end(s, a);
            if b <= i {
                Seq::empty()
            } else {
                seq![s.subrange(a, b)] + words_from(s, b)
            }
        }
    }
}

/// `str::split_whitespace`: the maximal runs of non-whitespace characters.
pub open spec fn words(s: Seq<char>) -> Seq<Seq<char>> {
    words_from(s, 0)
}

pub fn split_words(s: &[char]) -> (r: Vec<Vec<char>>)
    ensures
        views(r@) == words(s@),
{
    let mut r: Vec<Vec<char>> = Vec::new();
    let mut i: usize = 0;
    loop
        invariant
            i <= s@.len(),
            views(r@) + words_from(s@, i as int) == words(s@),
        decreases s.len() - i,
    {
        if i >= s.len() {
            assert(views(r@) =~= views(r@) + words_from(s@, i as int));
            return r;
        }
        proof {
            lemma_ws_end(s@, i as int);
        }
        let a = ws_end_exec(s, i);
        if a >= s.len() {
            assert(views(r@) =~= views(r@) + words_from(s@, i as int));
            return r;
        }
        proof {
            lemma_nonws_end(s@, a as int);
        }
        let b = nonws_end_exec(s, a);
        let w = slice_to_vec(s, a, b);
        let ghost old_r = views(r@);
        r.push(w);
        assert(views(r@) + words_from(s@, b as int) =~= old_r + words_from(s@, i as int));
        i = b;
    }
}

// ---------------------------------------------------------------------------
// Literals, prefixes, searching
// ---------------------------------------------------------------------------

/// `s[i..]` starts with `lit`.
pub open spec fn has_at(s: Seq<char>, i: int, lit: Seq<char>) -> bool {
    0 <= i && i + lit.len() <= s.len() && s.subrange(i, i + lit.len()) == lit
}

pub fn has_at_exec(s: &[char], i: usize, lit: &[char]) -> (r: bool)
    ensures
        r == has_at(s@, i as int, lit@),
{
    if i > s.len() || lit.len() > s.len() - i {
        return false;
    }
    let mut k: usize = 0;
    while k < lit.len()
        invariant
            i <= s@.len(),
            i + lit@.len() <= s.len(),
            k <= lit@.len(),
            forall|m: int| 0 <= m < k ==> s@[i + m] == lit@[m],
        decreases lit.len() - k,
    {
        assert(i + k < s@.len());
        if s[i + k] != lit[k] {
            assert(s@.subrange(i as int, i + lit@.len())[k as int] != lit@[k as int]);
            return false;
        }
        k = k + 1;
    }
    assert(s@.subrange(i as int, i + lit@.len()) =~= lit@);
    true
}

/// `s[i..]` starts with the literal `lit`.
pub fn has_lit(s: &[char], i: usize, lit: &str) -> (r: bool)
    ensures
        r == has_at(s@, i as int, lit@),
{
    let l = to_chars(lit);
    has_at_exec(s, i, l.as_slice())
}

/// Sequence equality on characters.
pub fn chars_eq(a: &[char], b: &[char]) -> (r: bool)
    ensures
        r == (a@ == b@),
{
    if a.len() != b.len() {
        return false;
    }
    let r = has_at_exec(a, 0, b);
    assert(a@.subrange(0, b@.len() as int) =~= a@);
    r
}

/// The text equals the literal.
pub fn eq_lit(a: &[char], lit: &str) -> (r: bool)
    ensures
        r == (a@ == lit@),
{
    let l = to_chars(lit);
    chars_eq(a, l.as_slice())
}

/// `c` occurs in `s[i..]`.
pub open spec fn occurs_from(s: Seq<char>, i: int, c: char) -> bool {
    exists|k: int| i <= k < s.len() && s[k] == c
}

/// The first index at or after `i` holding `c`, if any.
pub open spec fn find_from(s: Seq<char>, i: int, c: char) -> int
    decreases s.len() - i,
{
    if 0 <= i < s.len() && s[i] != c {
        find_from(s, i + 1, c)
    } else {
        i
    }
}

/// `find_from` finds the first `c` at or after `i`, or the end.
pub proof fn lemma_find_from(s: Seq<char>, i: int, c: char)
    requires
        0 <= i <= s.len(),
    ensures
        i <= find_from(s, i, c) <= s.len(),
        forall|k: int| i <= k < find_from(s, i, c) ==> #[trigger] s[k] != c,
        find_from(s, i, c) < s.len() ==> s[find_from(s, i, c)] == c,
        occurs_from(s, i, c) <==> find_from(s, i, c) < s.len(),
    decreases s.len() - i,
{
    if i < s.len() && s[i] != c {
        lemma_find_from(s, i + 1, c);
        if occurs_from(s, i, c) {
            let k = choose|k: int| i <= k < s.len() && s[k] == c;
            assert(i + 1 <= k);
        }
    }
}

pub fn find_from_exec(s: &[char], i: usize, c: char) -> (r: usize)
    requires
        i <= s@.len(),
    ensures
        r == find_from(s@, i as int, c),
{
    let mut j = i;
    while j < s.len() && s[j] != c
        invariant
            i <= j <= s@.len(),
            find_from(s@, i as int, c) == find_from(s@, j as int, c),
        decreases s.len() - j,
    {
        j = j + 1;
    }
    j
}

/// The first index at or after `i` where `lit` starts, or the length of `s`
/// when there is none (`str::find` for a literal).
pub open spec fn find_seq(s: Seq<char>, i: int, lit: Seq<char>) -> int
    decreases s.len() - i,
{
    if 0 <= i < s.len() && !has_at(s, i, lit) {
        find_seq(s, i + 1, lit)
    } else {
        i
    }
}

/// `find_seq` finds the first occurrence of `lit` at or after `i`, or the end.
pub proof fn lemma_find_seq(s: Seq<char>, i: int, lit: Seq<char>)
    requires
        0 <= i <= s.len(),
    ensures
        i <= find_seq(s, i, lit) <= s.len(),
        forall|k: int| i <= k < find_seq(s, i, lit) ==> !#[trigger] has_at(s, k, lit),
        find_seq(s, i, lit) < s.len() ==> has_at(s, find_seq(s, i, lit), lit),
    decreases s.len() - i,
{
    if i < s.len() && !has_at(s, i, lit) {
        lemma_find_seq(s, i + 1, lit);
    }
}

pub fn find_lit(s: &[char], i: usize, lit: &str) -> (r: usize)
    requires
        i <= s@.len(),
    ensures
        r == find_seq(s@, i as int, lit@),
{
    let l = to_chars(lit);
    let mut j = i;
    while j < s.len() && !has_at_exec(s, j, l.as_slice())
        invariant
            i <= j <= s@.len(),
            l@ == lit@,
            find_seq(s@, i as int, lit@) == find_seq(s@, j as int, lit@),
        decreases s.len() - j,
    {
        j = j + 1;
    }
    j
}

/// `str::ends_with` for a literal.
pub open spec fn ends_with(s: Seq<char>, lit: Seq<char>) -> bool {
    lit.len() <= s.len() && has_at(s, s.len() - lit.len(), lit)
}

pub fn ends_with_lit(s: &[char], lit: &str) -> (r: bool)
    ensures
        r == ends_with(s@, lit@),
{
    let l = to_chars(lit);
    if l.len() > s.len() {
        false
    } else {
        has_at_exec(s, s.len() - l.len(), l.as_slice())
    }
}

/// `str::trim_end_matches` for a literal: the suffix removed as many times as
/// it repeats.
pub open spec fn trim_end_matches(s: Seq<char>, lit: Seq<char>) -> Seq<char>
    decreases s.len(),
{
    if lit.len() > 0 && ends_with(s, lit) {
        trim_end_matches(s.subrange(0, s.len() - lit.len()), lit)
    } else {
        s
    }
}

pub fn trim_end_matches_lit(s: &[char], lit: &str) -> (r: Vec<char>)
    ensures
        r@ == trim_end_matches(s@, lit@),
{
    let l = to_chars(lit);
    let mut end = s.len();
    assert(s@.subrange(0, end as int) =~= s@);
    while l.len() > 0 && l.len() <= end && has_at_exec(s, end - l.len(), l.as_slice())
        invariant
            end <= s@.len(),
            l@ == lit@,
            trim_end_matches(s@, lit@) == trim_end_matches(s@.subrange(0, end as int), lit@),
        decreases end,
    {
        assert(s@.subrange(0, end as int).subrange(end - l@.len(), end as int) =~= s@.subrange(
            end - l@.len(),
            end as int,
        ));
        assert(s@.subrange(0, end as int).subrange(0, end - l@.len()) =~= s@.subrange(
            0,
            end - l@.len(),
        ));
        end = end - l.len();
    }
    proof {
        if l@.len() > 0 && l@.len() <= end {
            assert(s@.subrange(0, end as int).subrange(end - l@.len(), end as int) =~= s@.subrange(
                end - l@.len(),
                end as int,
            ));
        }
    }
    slice_to_vec(s, 0, end)
}

/// The end of `s` once trailing `c` characters are removed.
pub open spec fn strip_end_of(s: Seq<char>, c: char, j: int) -> int
    decreases j,
{
    if 0 < j <= s.len() && s[j - 1] == c {
        strip_end_of(s, c, j - 1)
    } else {
        j
    }
}

/// `str::trim_end_matches(c)`
pub open spec fn trim_end_char(s: Seq<char>, c: char) -> Seq<char> {
    s.subrange(0, strip_end_of(s, c, s.len() as int))
}

/// `strip_end_of` stays between 0 and `j`.
pub proof fn lemma_strip_end_of(s: Seq<char>, c: char, j: int)
    requires
        0 <= j <= s.len(),
    ensures
        0 <= strip_end_of(s, c, j) <= j,
    decreases j,
{
    if 0 < j && s[j - 1] == c {
        lemma_strip_end_of(s, c, j - 1);
    }
}

pub fn trim_end_char_exec(s: &[char], c: char) -> (r: Vec<char>)
    ensures
        r@ == trim_end_char(s@, c),
{
    proof {
        lemma_strip_end_of(s@, c, s@.len() as int);
    }
    let mut j = s.len();
    while j > 0 && s[j - 1] == c
        invariant
            j <= s@.len(),
            strip_end_of(s@, c, s@.len() as int) == strip_end_of(s@, c, j as int),
        decreases j,
    {
        j = j - 1;
    }
    slice_to_vec(s, 0, j)
}

/// The start of `s[i..]` once leading `c` characters are removed.
pub open spec fn strip_start_of(s: Seq<char>, c: char, i: int) -> int
    decreases s.len() - i,
{
    if 0 <= i < s.len() && s[i] == c {
        strip_start_of(s, c, i + 1)
    } else {
        i
    }
}

/// `str::trim_start_matches(c)`
pub open spec fn trim_start_char(s: Seq<char>, c: char) -> Seq<char> {
    s.subrange(strip_start_of(s, c, 0), s.len() as int)
}

/// `strip_start_of` stays between `i` and the end.
pub proof fn lemma_strip_start_of(s: Seq<char>, c: char, i: int)
    requires
        0 <= i <= s.len(),
    ensures
        i <= strip_start_of(s, c, i) <= s.len(),
    decreases s.len() - i,
{
    if i < s.len() && s[i] == c {
        lemma_strip_start_of(s, c, i + 1);
    }
}

pub fn trim_start_char_exec(s: &[char], c: char) -> (r: Vec<char>)
    ensures
        r@ == trim_start_char(s@, c),
{
    proof {
        lemma_strip_start_of(s@, c, 0);
    }
    let mut i: usize = 0;
    while i < s.len() && s[i] == c
        invariant
            i <= s@.len(),
            strip_start_of(s@, c, 0) == strip_start_of(s@, c, i as int),
        decreases s.len() - i,
    {
        i = i + 1;
    }
    slice_to_vec(s, i, s.len())
}

/// `str::trim_matches(c)`: leading and trailing `c` characters removed.
pub open spec fn trim_char(s: Seq<char>, c: char) -> Seq<char> {
    trim_end_char(trim_start_char(s, c), c)
}

pub fn trim_char_exec(s: &[char], c: char) -> (r: Vec<char>)
    ensures
        r@ == trim_char(s@, c),
{
    let a = trim_start_char_exec(s, c);
    trim_end_char_exec(a.as_slice(), c)
}

/// `str::split(c)`: the pieces between occurrences of `c` (one piece when
/// `c` does not occur).
pub open spec fn split_on(s: Seq<char>, c: char) -> Seq<Seq<char>>
    decreases s.len(),
{
    proof {
        lemma_find_from(s, 0, c);
    }
    let k = find_from(s, 0, c);
    if k >= s.len() {
        seq![s]
    } else {
        seq![s.subrange(0, k)] + split_on(s.subrange(k + 1, s.len() as int), c)
    }
}

pub fn split_on_exec(s: &[char], c: char) -> (r: Vec<Vec<char>>)
    ensures
        views(r@) == split_on(s@, c),
{
    let mut r: Vec<Vec<char>> = Vec::new();
    let mut i: usize = 0;
    assert(s@.subrange(0, s@.len() as int) =~= s@);
    assert(views(r@) + split_on(s@, c) =~= split_on(s@, c));
    loop
        invariant
            i <= s@.len(),
            views(r@) + split_on(s@.subrange(i as int, s@.len() as int), c) == split_on(s@, c),
        decreases s.len() - i,
    {
        let ghost rest = s@.subrange(i as int, s@.len() as int);
        proof {
            lemma_find_from(s@, i as int, c);
            lemma_find_from(rest, 0, c);
            lemma_find_from_shift(s@, i as int, c);
        }
        let k = find_from_exec(s, i, c);
        if k >= s.len() {
            let piece = slice_to_vec(s, i, s.len());
            let ghost old_r = views(r@);
            r.push(piece);
            assert(views(r@) =~= old_r + split_on(rest, c));
            return r;
        }
        let piece = slice_to_vec(s, i, k);
        let ghost old_r = views(r@);
        r.push(piece);
        assert(rest.subrange(k - i + 1, rest.len() as int) =~= s@.subrange(k + 1, s@.len() as int));
        assert(rest.subrange(0, k - i) =~= s@.subrange(i as int, k as int));
        assert(views(r@) + split_on(s@.subrange(k + 1, s@.len() as int), c) =~= old_r + split_on(rest, c));
        i = k + 1;
    }
}

/// Searching a suffix finds the same place, shifted.
pub proof fn lemma_find_from_shift(s: Seq<char>, i: int, c: char)
    requires
        0 <= i <= s.len(),
    ensures
        find_from(s.subrange(i, s.len() as int), 0, c) == find_from(s, i, c) - i,
{
    let t = s.subrange(i, s.len() as int);
    lemma_find_from(s, i, c);
    lemma_find_from(t, 0, c);
    let a = find_from(s, i, c);
    let b = find_from(t, 0, c);
    if b < a - i {
        assert(t[b] == s[b + i]);
    } else if b > a - i {
        assert(t[a - i] == s[a]);
    }
}

/// The number of bytes UTF-8 uses for a character.
pub open spec fn utf8_len(c: char) -> int {
    if (c as u32) < 0x80u32 {
        1
    } else if (c as u32) < 0x800u32 {
        2
    } else if (c as u32) < 0x10000u32 {
        3
    } else {
        4
    }
}

/// The UTF-8 length of a text, in bytes.
pub open spec fn utf8_bytes(s: Seq<char>) -> int
    decreases s.len(),
{
    if s.len() == 0 {
        0
    } else {
        utf8_bytes(s.drop_last()) + utf8_len(s.last())
    }
}

pub fn utf8_len_exec(c: char) -> (r: u128)
    ensures
        r == utf8_len(c),
{
    if (c as u32) < 0x80u32 {
        1
    } else if (c as u32) < 0x800u32 {
        2
    } else if (c as u32) < 0x10000u32 {
        3
    } else {
        4
    }
}

pub fn utf8_bytes_exec(s: &[char], w: usize) -> (r: u128)
    requires
        w <= s@.len(),
    ensures
        r == utf8_bytes(s@.subrange(0, w as int)),
{
    let mut total: u128 = 0;
    let mut i: usize = 0;
    while i < w
        invariant
            i <= w <= s@.len(),
            total == utf8_bytes(s@.subrange(0, i as int)),
            total <= 4 * i,
        decreases w - i,
    {
        assert(s@.subrange(0, i + 1).drop_last() =~= s@.subrange(0, i as int));
        total = total + utf8_len_exec(s[i]);
        i = i + 1;
    }
    total
}

/// `needle` occurs as a contiguous piece of `hay`.
pub open spec fn contains_seq(hay: Seq<char>, needle: Seq<char>) -> bool {
    exists|i: int| 0 <= i && i + needle.len() <= hay.len() && #[trigger] has_at(hay, i, needle)
}

pub fn contains_chars(hay: &[char], needle: &[char]) -> (r: bool)
    ensures
        r == contains_seq(hay@, needle@),
{
    if needle.len() > hay.len() {
        return false;
    }
    let mut i: usize = 0;
    let last = hay.len() - needle.len();
    loop
        invariant
            needle@.len() <= hay@.len(),
            last == hay@.len() - needle@.len(),
            i <= last,
            forall|k: int| 0 <= k < i ==> !has_at(hay@, k, needle@),
        decreases last - i,
    {
        if has_at_exec(hay, i, needle) {
            return true;
        }
        if i == last {
            return false;
        }
        i = i + 1;
    }
}

// ---------------------------------------------------------------------------
// Lexicographic order
// ---------------------------------------------------------------------------

/// Lexicographic "less than" on characters by code point, which is the order
/// `String`'s `Ord` gives (UTF-8 byte order agrees with code point order).
pub open spec fn seq_lt(a: Seq<char>, b: Seq<char>) -> bool
    decreases a.len(),
{
    if a.len() == 0 {
        b.len() > 0
    } else if b.len() == 0 {
        false
    } else if a[0] != b[0] {
        a[0] < b[0]
    } else {
        seq_lt(a.drop_first(), b.drop_first())
    }
}

/// The order of texts is transitive.
pub proof fn lemma_seq_lt_trans(a: Seq<char>, b: Seq<char>, c: Seq<char>)
    requires
        seq_lt(a, b),
        seq_lt(b, c),
    ensures
        seq_lt(a, c),
    decreases a.len(),
{
    if a.len() > 0 && b.len() > 0 && c.len() > 0 && a[0] == b[0] && b[0] == c[0] {
        lemma_seq_lt_trans(a.drop_first(), b.drop_first(), c.drop_first());
    }
}

/// No text comes before itself.
pub proof fn lemma_seq_lt_irrefl(a: Seq<char>)
    ensures
        !seq_lt(a, a),
    decreases a.len(),
{
    if a.len() > 0 {
        lemma_seq_lt_irrefl(a.drop_first());
    }
}

/// Two distinct sequences are ordered one way or the other.
pub proof fn lemma_seq_lt_total(a: Seq<char>, b: Seq<char>)
    requires
        a != b,
    ensures
        seq_lt(a, b) || seq_lt(b, a),
    decreases a.len(),
{
    if a.len() > 0 && b.len() > 0 && a[0] == b[0] {
        if a.drop_first() == b.drop_first() {
            assert(a =~= seq![a[0]] + a.drop_first());
            assert(b =~= seq![b[0]] + b.drop_first());
        }
        lemma_seq_lt_total(a.drop_first(), b.drop_first());
    } else if a.len() == 0 && b.len() == 0 {
        assert(a =~= b);
    }
}

pub fn seq_lt_exec(a: &[char], b: &[char]) -> (r: bool)
    ensures
        r == seq_lt(a@, b@),
{
    let mut i: usize = 0;
    assert(a@.skip(0) =~= a@);
    assert(b@.skip(0) =~= b@);
    while i < a.len() && i < b.len() && a[i] == b[i]
        invariant
            i <= a@.len(),
            i <= b@.len(),
            seq_lt(a@, b@) == seq_lt(a@.skip(i as int), b@.skip(i as int)),
        decreases a.len() - i,
    {
        assert(a@.skip(i as int).drop_first() =~= a@.skip(i + 1));
        assert(b@.skip(i as int).drop_first() =~= b@.skip(i + 1));
        i = i + 1;
    }
    if i == a.len() {
        i < b.len()
    } else if i == b.len() {
        false
    } else {
        let x = a[i];
        let y = b[i];
        assert(a@.skip(i as int)[0] == x);
        assert(b@.skip(i as int)[0] == y);
        x < y
    }
}


// ---------------------------------------------------------------------------
// Joining
// ---------------------------------------------------------------------------

/// `parts.join(sep)`
pub open spec fn join(parts: Seq<Seq<char>>, sep: Seq<char>) -> Seq<char>
    decreases parts.len(),
{
    if parts.len() == 0 {
        Seq::empty()
    } else if parts.len() == 1 {
        parts[0]
    } else {
        join(parts.drop_last(), sep) + sep + parts.last()
    }
}

/// The character sequences held by a vector of strings.
pub open spec fn string_views(v: Seq<String>) -> Seq<Seq<char>> {
    v.map_values(|s: String| s@)
}

/// Joins the strings with the separator between neighbours.
pub fn join_strings(parts: &[String], sep: &str) -> (r: String)
    ensures
        r@ == join(string_views(parts@), sep@),
{
    let ghost pv = string_views(parts@);
    let mut r = String::new();
    let mut i: usize = 0;
    while i < parts.len()
        invariant
            i <= parts@.len(),
            pv == string_views(parts@),
            r@ == join(pv.take(i as int), sep@),
        decreases parts.len() - i,
    {
        assert(pv.take(i + 1).drop_last() =~= pv.take(i as int));
        if i == 0 {
            r.append(parts[i].as_str());
            assert(r@ =~= join(pv.take(1), sep@));
        } else {
            r.append(sep);
            r.append(parts[i].as_str());
        }
        i = i + 1;
    }
    assert(pv.take(parts@.len() as int) =~= pv);
    r
}

/// A join of two or more parts is the first part, the separator, and the
/// join of the rest.
pub proof fn lemma_join_front(parts: Seq<Seq<char>>, sep: Seq<char>)
    requires
        parts.len() >= 2,
    ensures
        join(parts, sep) == parts[0] + sep + join(parts.drop_first(), sep),
    decreases parts.len(),
{
    if parts.len() == 2 {
        assert(parts.drop_last() =~= seq![parts[0]]);
        assert(parts.drop_first() =~= seq![parts[1]]);
        assert(join(parts.drop_last(), sep) == parts[0]);
        assert(join(parts.drop_first(), sep) == parts[1]);
        assert(join(parts, sep) == parts[0] + sep + parts[1]);
    } else {
        lemma_join_front(parts.drop_last(), sep);
        assert(parts.drop_last().drop_first() =~= parts.drop_first().drop_last());
        assert(parts.drop_first().last() == parts.last());
        assert(join(parts.drop_first(), sep) == join(parts.drop_first().drop_last(), sep) + sep + parts.last());
        assert(join(parts, sep) =~= parts[0] + sep + join(parts.drop_first(), sep));
    }
}

/// A word: not empty, with no whitespace in it.
pub open spec fn is_word(w: Seq<char>) -> bool {
    w.len() > 0 && forall|k: int| 0 <= k < w.len() ==> !is_ws(#[trigger] w[k])
}

/// Splitting words joined by single spaces gives the words back.
pub proof fn lemma_words_of_join(s: Seq<char>, i: int, ws: Seq<Seq<char>>)
    requires
        0 <= i <= s.len(),
        s.subrange(i, s.len() as int) == join(ws, " "@),
        forall|k: int| 0 <= k < ws.len() ==> is_word(#[trigger] ws[k]),
    ensures
        words_from(s, i) == ws,
    decreases ws.len(),
{
    if ws.len() == 0 {
        assert(s.subrange(i, s.len() as int).len() == 0);
        assert(words_from(s, i) =~= ws);
    } else {
        let w0 = ws[0];
        assert(is_word(w0));
        let e = i + w0.len();
        if ws.len() >= 2 {
            lemma_join_front(ws, " "@);
        }
        let rest = s.subrange(i, s.len() as int);
        reveal_strlit(" ");
        if ws.len() == 1 {
            assert(rest == w0);
        } else {
            assert(rest == w0 + " "@ + join(ws.drop_first(), " "@));
        }
        assert(rest.subrange(0, w0.len() as int) =~= w0);
        assert(e <= s.len());
        assert forall|k: int| i <= k < e implies !is_ws(#[trigger] s[k]) by {
            assert(s[k] == rest[k - i]);
            assert(w0[k - i] == rest[k - i]);
        }
        lemma_ws_end(s, i);
        assert(ws_end(s, i) == i) by {
            assert(!is_ws(s[i]));
        }
        lemma_nonws_end(s, i);
        if ws.len() >= 2 {
            assert(s[e] == rest[w0.len() as int]);
            assert(rest[w0.len() as int] == ' ');
        }
        assert(nonws_end(s, i) == e) by {
            let b = nonws_end(s, i);
            if b < e {
                assert(!is_ws(s[b]));
            }
            if b > e {
                assert(!is_ws(s[e]));
            }
        }
        assert(s.subrange(i, e) =~= w0);
        if ws.len() == 1 {
            assert(rest =~= w0);
            assert(e == s.len());
            assert(words_from(s, e) =~= Seq::<Seq<char>>::empty());
            assert(words_from(s, i) =~= ws);
        } else {
            let t = ws.drop_first();
            assert(rest.subrange(w0.len() as int + 1, rest.len() as int) =~= join(t, " "@));
            assert(s.subrange(e + 1, s.len() as int) =~= rest.subrange(w0.len() as int + 1, rest.len() as int));
            assert forall|k: int| 0 <= k < t.len() implies is_word(#[trigger] t[k]) by {
                assert(t[k] == ws[k + 1]);
            }
            lemma_words_of_join(s, e + 1, t);
            assert(is_word(t[0]));
            if t.len() >= 2 {
                lemma_join_front(t, " "@);
            }
            assert(join(t, " "@).subrange(0, t[0].len() as int) =~= t[0]);
            assert(e + 1 < s.len());
            assert(s[e + 1] == join(t, " "@)[0]);
            assert(!is_ws(s[e + 1]));
            lemma_ws_end(s, e + 1);
            assert(ws_end(s, e + 1) == e + 1);
            assert(ws_end(s, e) == ws_end(s, e + 1));
            lemma_nonws_end(s, e + 1);
            assert(words_from(s, e) == words_from(s, e + 1));
            assert(words_from(s, i) =~= seq![w0] + t);
            assert(seq![w0] + t =~= ws);
        }
    }
}


/// The words of a text are words, and each of their characters has every
/// property that all characters of the text have.
pub proof fn lemma_words_from_chars(s: Seq<char>, i: int, p: spec_fn(char) -> bool)
    requires
        forall|k: int| 0 <= k < s.len() ==> p(#[trigger] s[k]),
    ensures
        forall|j: int| 0 <= j < words_from(s, i).len() ==> is_word(#[trigger] words_from(s, i)[j]),
        forall|j: int, m: int|
            0 <= j < words_from(s, i).len() && 0 <= m < words_from(s, i)[j].len() ==> p(
                #[trigger] words_from(s, i)[j][m],
            ),
    decreases s.len() - i,
{
    if i < 0 || i >= s.len() {
    } else {
        lemma_ws_end(s, i);
        let a = ws_end(s, i);
        if a < s.len() {
            lemma_nonws_end(s, a);
            let b = nonws_end(s, a);
            if b > i {
                lemma_words_from_chars(s, b, p);
                let w = s.subrange(a, b);
                let ws = words_from(s, i);
                assert(ws == seq![w] + words_from(s, b));
                assert(b > a) by {
                    assert(!is_ws(s[a]));
                }
                assert forall|j: int| 0 <= j < ws.len() implies is_word(#[trigger] ws[j]) by {
                    if j == 0 {
                        assert forall|k: int| 0 <= k < w.len() implies !is_ws(#[trigger] w[k]) by {
                            assert(w[k] == s[a + k]);
                        }
                    } else {
                        assert(ws[j] == words_from(s, b)[j - 1]);
                    }
                }
                assert forall|j: int, m: int| 0 <= j < ws.len() && 0 <= m < ws[j].len() implies p(
                    #[trigger] ws[j][m],
                ) by {
                    if j == 0 {
                        assert(w[m] == s[a + m]);
                    } else {
                        assert(ws[j] == words_from(s, b)[j - 1]);
                    }
                }
            }
        }
    }
}

/// Every character of a join has each property that every character of
/// the parts and of the separator has.
pub proof fn lemma_join_chars(parts: Seq<Seq<char>>, sep: Seq<char>, p: spec_fn(char) -> bool)
    requires
        forall|j: int, m: int| 0 <= j < parts.len() && 0 <= m < parts[j].len() ==> p(#[trigger] parts[j][m]),
        forall|m: int| 0 <= m < sep.len() ==> p(#[trigger] sep[m]),
    ensures
        forall|k: int| 0 <= k < join(parts, sep).len() ==> p(#[trigger] join(parts, sep)[k]),
    decreases parts.len(),
{
    if parts.len() == 0 {
    } else if parts.len() == 1 {
        assert forall|k: int| 0 <= k < join(parts, sep).len() implies p(#[trigger] join(parts, sep)[k]) by {
            assert(join(parts, sep)[k] == parts[0][k]);
        }
    } else {
        let d = parts.drop_last();
        lemma_join_chars(d, sep, p);
        let l = parts.last();
        let jd = join(d, sep);
        assert forall|k: int| 0 <= k < join(parts, sep).len() implies p(#[trigger] join(parts, sep)[k]) by {
            assert(join(parts, sep) == jd + sep + l);
            if k < jd.len() {
                assert(join(parts, sep)[k] == jd[k]);
            } else if k < jd.len() + sep.len() {
                assert(join(parts, sep)[k] == sep[k - jd.len()]);
            } else {
                assert(join(parts, sep)[k] == l[k - jd.len() - sep.len()]);
                assert(l == parts[parts.len() - 1]);
            }
        }
    }
}


/// `ws_end` from `i` is `j` when `s[i..j]` is whitespace and `s[j]` (if
/// any) is not.
pub proof fn lemma_ws_end_at(s: Seq<char>, i: int, j: int)
    requires
        0 <= i <= j <= s.len(),
        forall|k: int| i <= k < j ==> is_ws(#[trigger] s[k]),
        j < s.len() ==> !is_ws(s[j]),
    ensures
        ws_end(s, i) == j,
    decreases j - i,
{
    if i < j {
        lemma_ws_end_at(s, i + 1, j);
    }
}

/// `ident_end` from `i` is `j` when `s[i..j]` are identifier characters and
/// `s[j]` (if any) is not one.
pub proof fn lemma_ident_end_at(s: Seq<char>, i: int, j: int)
    requires
        0 <= i <= j <= s.len(),
        forall|k: int| i <= k < j ==> is_ident_char(#[trigger] s[k]),
        j < s.len() ==> !is_ident_char(s[j]),
    ensures
        ident_end(s, i) == j,
    decreases j - i,
{
    if i < j {
        lemma_ident_end_at(s, i + 1, j);
    }
}

/// Whitespace is never part of an identifier.
pub proof fn lemma_ws_not_ident(c: char)
    requires
        is_ws(c),
    ensures
        !is_ident_char(c),
        !is_ident_start(c),
{
}


/// Lines read from inside a longer text, after a prefix `p`, are the lines
/// of the rest.
proof fn lemma_lines_shift(p: Seq<char>, x: Seq<char>, k: int)
    requires
        0 <= k <= x.len(),
    ensures
        lines_from(p + x, p.len() + k) == lines_from(x, k),
    decreases x.len() - k,
{
    let s = p + x;
    let i = p.len() + k;
    if k < x.len() {
        lemma_next_lf(x, k);
        let j = next_lf(x, k);
        assert forall|m: int| i <= m < p.len() + j implies #[trigger] s[m] != '\n' by {
            assert(s[m] == x[m - p.len()]);
        }
        if j < x.len() {
            assert(s[p.len() + j] == x[j]);
        }
        lemma_next_lf_at(s, i, p.len() + j);
        assert(s.subrange(i, p.len() + j) =~= x.subrange(k, j));
        if j < x.len() {
            lemma_lines_shift(p, x, j + 1);
        } else {
            assert(s.subrange(i, s.len() as int) =~= x.subrange(k, x.len() as int));
        }
    }
}

/// The lines of a text that ends with a line feed (or is empty), followed by
/// more text, are its lines followed by the lines of the rest.
pub proof fn lemma_lines_append(a: Seq<char>, x: Seq<char>)
    requires
        a.len() == 0 || a.last() == '\n',
    ensures
        lines(a + x) == lines(a) + lines(x),
{
    lemma_lines_append_from(a, x, 0);
}

proof fn lemma_lines_append_from(a: Seq<char>, x: Seq<char>, i: int)
    requires
        a.len() == 0 || a.last() == '\n',
        0 <= i <= a.len(),
    ensures
        lines_from(a + x, i) == lines_from(a, i) + lines(x),
    decreases a.len() - i,
{
    let s = a + x;
    if i == a.len() {
        lemma_lines_shift(a, x, 0);
        assert(lines_from(a, i) =~= Seq::<Seq<char>>::empty());
        assert(lines_from(s, i) =~= lines_from(a, i) + lines(x));
    } else {
        lemma_next_lf(a, i);
        let j = next_lf(a, i);
        assert(j < a.len()) by {
            if j >= a.len() {
                assert(a[a.len() - 1] != '\n');
            }
        }
        assert forall|m: int| i <= m < j implies #[trigger] s[m] != '\n' by {
            assert(s[m] == a[m]);
        }
        assert(s[j] == a[j]);
        lemma_next_lf_at(s, i, j);
        assert(s.subrange(i, j) =~= a.subrange(i, j));
        lemma_lines_append_from(a, x, j + 1);
        assert(lines_from(s, i) =~= lines_from(a, i) + lines(x));
    }
}

} // verus!
