//! Comment annotations (`@emoji`, `@description`, `@ignore`) written in the
//! comment lines directly above a definition, and a map from names to them.
use crate::text::{
    chars_eq, from_chars, has_at, has_lit, is_blank, is_blank_exec, is_ws, is_ws_exec, lemma_ws_end,
    slice_to_vec, to_chars, trim, trim_exec, views, ws_end, ws_end_exec,
};
use vstd::prelude::*;

verus! {

/// Annotations found in the comments above a definition.
#[derive(Debug, Clone)]
pub struct Annotations {
    pub emoji: Option<String>,
    pub description: Option<String>,
    pub ignored: bool,
}

/// The plain-value form of [`Annotations`].
pub struct AnnView {
    pub emoji: Option<Seq<char>>,
    pub description: Option<Seq<char>>,
    pub ignored: bool,
}

pub open spec fn opt_view(o: Option<String>) -> Option<Seq<char>> {
    match o {
        Some(s) => Some(s@),
        None => None,
    }
}

impl View for Annotations {
    type V = AnnView;

    open spec fn view(&self) -> AnnView {
        AnnView {
            emoji: opt_view(self.emoji),
            description: opt_view(self.description),
            ignored: self.ignored,
        }
    }
}

impl Default for Annotations {
    fn default() -> (r: Self)
        ensures
            r.emoji is None,
            r.description is None,
            !r.ignored,
    {
        Annotations { emoji: None, description: None, ignored: false }
    }
}

/// A copy of an optional string.
pub fn clone_opt(o: &Option<String>) -> (r: Option<String>)
    ensures
        opt_view(r) == opt_view(*o),
{
    match o {
        Some(s) => Some(s.clone()),
        None => None,
    }
}

impl Annotations {
    /// True when at least one annotation is present.
    pub open spec fn spec_any(self) -> bool {
        self.emoji is Some || self.description is Some || self.ignored
    }

    pub fn copy(&self) -> (r: Annotations)
        ensures
            r@ == self@,
    {
        Annotations {
            emoji: clone_opt(&self.emoji),
            description: clone_opt(&self.description),
            ignored: self.ignored,
        }
    }
}

/// Annotations keyed by name; a later insertion for a name replaces an
/// earlier one, as with a hash map.
#[derive(Debug, Clone)]
pub struct AnnotationMap {
    entries: Vec<(String, Annotations)>,
}

pub open spec fn entry_views(s: Seq<(String, Annotations)>) -> Seq<(Seq<char>, AnnView)> {
    s.map_values(|e: (String, Annotations)| (e.0@, e.1@))
}

/// The value of the last entry for `key`, if any.
pub open spec fn lookup(s: Seq<(Seq<char>, AnnView)>, key: Seq<char>) -> Option<AnnView>
    decreases s.len(),
{
    if s.len() == 0 {
        None
    } else if s.last().0 == key {
        Some(s.last().1)
    } else {
        lookup(s.drop_last(), key)
    }
}

impl View for AnnotationMap {
    type V = Seq<(Seq<char>, AnnView)>;

    /// The insertions made, in order.
    closed spec fn view(&self) -> Seq<(Seq<char>, AnnView)> {
        entry_views(self.entries@)
    }
}

impl AnnotationMap {
    pub fn new() -> (r: AnnotationMap)
        ensures
            r@ == Seq::<(Seq<char>, AnnView)>::empty(),
    {
        let r = AnnotationMap { entries: Vec::new() };
        assert(r@ =~= Seq::<(Seq<char>, AnnView)>::empty());
        r
    }

    /// Sets the annotations for `key`, replacing any earlier ones.
    pub fn insert(&mut self, key: String, value: Annotations)
        ensures
            final(self)@ == old(self)@.push((key@, value@)),
    {
        self.entries.push((key, value));
        assert(self@ =~= old(self)@.push((key@, value@)));
    }

    /// The annotations for `key`, if any were inserted.
    pub fn get(&self, key: &str) -> (r: Option<&Annotations>)
        ensures
            match r {
                Some(a) => lookup(self@, key@) == Some(a@),
                None => lookup(self@, key@) is None,
            },
    {
        let k = to_chars(key);
        let mut i = self.entries.len();
        assert(self.entries@.take(i as int) =~= self.entries@);
        while i > 0
            invariant
                i <= self.entries@.len(),
                k@ == key@,
                lookup(self@, key@) == lookup(entry_views(self.entries@.take(i as int)), key@),
            decreases i,
        {
            let e = &self.entries[i - 1];
            let ek = to_chars(e.0.as_str());
            assert(entry_views(self.entries@.take(i as int)).drop_last() =~= entry_views(
                self.entries@.take(i - 1),
            ));
            if chars_eq(ek.as_slice(), k.as_slice()) {
                return Some(&e.1);
            }
            i = i - 1;
        }
        assert(entry_views(self.entries@.take(0)) =~= Seq::<(Seq<char>, AnnView)>::empty());
        None
    }

    /// True when annotations were inserted for `key`.
    pub fn contains_key(&self, key: &str) -> (r: bool)
        ensures
            r == (lookup(self@, key@) is Some),
    {
        self.get(key).is_some()
    }

    /// True when nothing was inserted.
    pub fn is_empty(&self) -> (r: bool)
        ensures
            r == (self@.len() == 0),
    {
        self.entries.len() == 0
    }
}

// ---------------------------------------------------------------------------
// Comment grammar. `m` is the comment marker (`#` or `//`).
// ---------------------------------------------------------------------------

/// The index just after the comment marker when the line is `^\s*M...`.
pub open spec fn after_marker(l: Seq<char>, m: Seq<char>) -> Option<int> {
    let k = ws_end(l, 0);
    if has_at(l, k, m) {
        Some(k + m.len())
    } else {
        None
    }
}

/// The line matches `^\s*M` (a comment).
pub open spec fn is_comment(l: Seq<char>, m: Seq<char>) -> bool {
    after_marker(l, m) is Some
}

/// For `^\s*M\s*@tag\s+(.+)$`: the trimmed capture, when the line matches.
pub open spec fn tag_capture(l: Seq<char>, m: Seq<char>, tag: Seq<char>) -> Option<Seq<char>> {
    match after_marker(l, m) {
        Some(p) => {
            let q = ws_end(l, p);
            if has_at(l, q, tag) {
                let r = l.subrange(q + tag.len(), l.len() as int);
                if r.len() >= 2 && is_ws(r[0]) {
                    Some(trim(r))
                } else {
                    None
                }
            } else {
                None
            }
        },
        None => None,
    }
}

/// The line matches `^\s*M\s*@ignore\s*$`.
pub open spec fn is_ignore_line(l: Seq<char>, m: Seq<char>) -> bool {
    match after_marker(l, m) {
        Some(p) => {
            let q = ws_end(l, p);
            has_at(l, q, "@ignore"@) && is_blank(l.subrange(q + 7, l.len() as int))
        },
        None => false,
    }
}

/// For `^\s*M\s+(.+)$` (a comment with text): the trimmed capture.
pub open spec fn plain_capture(l: Seq<char>, m: Seq<char>) -> Option<Seq<char>> {
    match after_marker(l, m) {
        Some(p) => {
            let r = l.subrange(p, l.len() as int);
            if r.len() >= 2 && is_ws(r[0]) {
                Some(trim(r))
            } else {
                None
            }
        },
        None => None,
    }
}

pub fn after_marker_exec(l: &[char], m: &str) -> (r: Option<usize>)
    ensures
        match r {
            Some(p) => after_marker(l@, m@) == Some(p as int) && p <= l@.len(),
            None => after_marker(l@, m@) is None,
        },
{
    proof {
        lemma_ws_end(l@, 0);
    }
    let k = ws_end_exec(l, 0);
    if has_lit(l, k, m) {
        let mc = to_chars(m);
        assert(mc@.len() == m@.len());
        assert(k + m@.len() <= l.len());
        Some(k + mc.len())
    } else {
        None
    }
}

pub fn is_comment_exec(l: &[char], m: &str) -> (r: bool)
    ensures
        r == is_comment(l@, m@),
{
    after_marker_exec(l, m).is_some()
}

pub fn tag_capture_exec(l: &[char], m: &str, tag: &str) -> (r: Option<Vec<char>>)
    ensures
        match r {
            Some(c) => tag_capture(l@, m@, tag@) == Some(c@),
            None => tag_capture(l@, m@, tag@) is None,
        },
{
    match after_marker_exec(l, m) {
        Some(p) => {
            proof {
                lemma_ws_end(l@, p as int);
            }
            let q = ws_end_exec(l, p);
            if has_lit(l, q, tag) {
                let tc = to_chars(tag);
                assert(q + tag@.len() <= l.len());
                let r = slice_to_vec(l, q + tc.len(), l.len());
                if r.len() >= 2 && is_ws_exec(r[0]) {
                    Some(trim_exec(r.as_slice()))
                } else {
                    None
                }
            } else {
                None
            }
        },
        None => None,
    }
}

pub fn is_ignore_exec(l: &[char], m: &str) -> (r: bool)
    ensures
        r == is_ignore_line(l@, m@),
{
    match after_marker_exec(l, m) {
        Some(p) => {
            proof {
                lemma_ws_end(l@, p as int);
            }
            let q = ws_end_exec(l, p);
            if has_lit(l, q, "@ignore") {
                proof {
                    reveal_strlit("@ignore");
                }
                assert(q + 7 <= l.len());
                let rest = slice_to_vec(l, q + 7, l.len());
                is_blank_exec(rest.as_slice())
            } else {
                false
            }
        },
        None => false,
    }
}

pub fn plain_capture_exec(l: &[char], m: &str) -> (r: Option<Vec<char>>)
    ensures
        match r {
            Some(c) => plain_capture(l@, m@) == Some(c@),
            None => plain_capture(l@, m@) is None,
        },
{
    match after_marker_exec(l, m) {
        Some(p) => {
            let r = slice_to_vec(l, p, l.len());
            if r.len() >= 2 && is_ws_exec(r[0]) {
                Some(trim_exec(r.as_slice()))
            } else {
                None
            }
        },
        None => None,
    }
}

// ---------------------------------------------------------------------------
// The comment block above a definition
// ---------------------------------------------------------------------------

/// Whether the look-back continues past line `l`. With `stop_at_blank`, only
/// comment lines continue it; otherwise blank lines and comment lines do.
pub open spec fn continues_block(l: Seq<char>, m: Seq<char>, stop_at_blank: bool) -> bool {
    if stop_at_blank {
        !is_blank(l) && is_comment(l, m)
    } else {
        is_blank(l) || is_comment(l, m)
    }
}

/// The first line of the block of lines directly above line `i` that the
/// look-back walks through.
pub open spec fn block_start(ls: Seq<Seq<char>>, i: int, m: Seq<char>, stop_at_blank: bool) -> int
    decreases i,
{
    if 0 < i <= ls.len() && continues_block(ls[i - 1], m, stop_at_blank) {
        block_start(ls, i - 1, m, stop_at_blank)
    } else {
        i
    }
}

/// The capture of the topmost line in `ls[k..i]` that has the tag.
pub open spec fn first_tag(ls: Seq<Seq<char>>, k: int, i: int, m: Seq<char>, tag: Seq<char>) -> Option<Seq<char>>
    decreases i - k,
{
    if k >= i || k < 0 || i > ls.len() {
        None
    } else {
        match tag_capture(ls[k], m, tag) {
            Some(c) => Some(c),
            None => first_tag(ls, k + 1, i, m, tag),
        }
    }
}

/// Some line in `ls[k..i]` is an `@ignore` line.
pub open spec fn any_ignore(ls: Seq<Seq<char>>, k: int, i: int, m: Seq<char>) -> bool
    decreases i - k,
{
    if k >= i || k < 0 || i > ls.len() {
        false
    } else {
        is_ignore_line(ls[k], m) || any_ignore(ls, k + 1, i, m)
    }
}

/// The annotations that the comment block above line `i` gives.
pub open spec fn block_annotations(ls: Seq<Seq<char>>, i: int, m: Seq<char>, stop_at_blank: bool) -> AnnView {
    let k = block_start(ls, i, m, stop_at_blank);
    AnnView {
        emoji: first_tag(ls, k, i, m, "@emoji"@),
        description: first_tag(ls, k, i, m, "@description"@),
        ignored: any_ignore(ls, k, i, m),
    }
}

pub proof fn lemma_block_start(ls: Seq<Seq<char>>, i: int, m: Seq<char>, stop_at_blank: bool)
    requires
        0 <= i <= ls.len(),
    ensures
        0 <= block_start(ls, i, m, stop_at_blank) <= i,
    decreases i,
{
    if 0 < i && continues_block(ls[i - 1], m, stop_at_blank) {
        lemma_block_start(ls, i - 1, m, stop_at_blank);
    }
}

/// Reads the annotations in the comment block directly above line `i`.
pub fn scan_block(ls: &Vec<Vec<char>>, i: usize, m: &str, stop_at_blank: bool) -> (r: Annotations)
    requires
        i <= ls@.len(),
    ensures
        r@ == block_annotations(views(ls@), i as int, m@, stop_at_blank),
{
    let ghost lv = views(ls@);
    let mut emoji: Option<String> = None;
    let mut description: Option<String> = None;
    let mut ignored = false;
    let mut j = i;
    while j > 0
        invariant
            j <= i <= ls@.len(),
            lv == views(ls@),
            block_start(lv, i as int, m@, stop_at_blank) == block_start(lv, j as int, m@, stop_at_blank),
            opt_view(emoji) == first_tag(lv, j as int, i as int, m@, "@emoji"@),
            opt_view(description) == first_tag(lv, j as int, i as int, m@, "@description"@),
            ignored == any_ignore(lv, j as int, i as int, m@),
        ensures
            block_start(lv, i as int, m@, stop_at_blank) == j,
            opt_view(emoji) == first_tag(lv, j as int, i as int, m@, "@emoji"@),
            opt_view(description) == first_tag(lv, j as int, i as int, m@, "@description"@),
            ignored == any_ignore(lv, j as int, i as int, m@),
        decreases j,
    {
        let l = ls[j - 1].as_slice();
        assert(l@ == lv[j - 1]);
        let blank = is_blank_exec(l);
        let comment = is_comment_exec(l, m);
        let cont = if stop_at_blank {
            !blank && comment
        } else {
            blank || comment
        };
        if !cont {
            break;
        }
        if is_ignore_exec(l, m) {
            ignored = true;
        }
        match tag_capture_exec(l, m, "@emoji") {
            Some(c) => {
                emoji = Some(from_chars(c.as_slice()));
            },
            None => {},
        }
        match tag_capture_exec(l, m, "@description") {
            Some(c) => {
                description = Some(from_chars(c.as_slice()));
            },
            None => {},
        }
        j = j - 1;
    }
    Annotations { emoji, description, ignored }
}

} // verus!
