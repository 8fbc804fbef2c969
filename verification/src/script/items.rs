//! The annotated targets that the task-runner parsers produce.
use crate::script::annotations::{clone_opt, lookup, opt_view, AnnView, AnnotationMap, Annotations};
use crate::script::discovery::{display_name_of, format_display_name};
use crate::sort::SortKey;
use crate::text::{
    from_chars, lemma_seq_lt_irrefl, lemma_seq_lt_trans, seq_lt, seq_lt_exec, slice_to_vec, to_chars,
    utf8_bytes, utf8_bytes_exec, utf8_len, utf8_len_exec,
};
use vstd::prelude::*;

verus! {

/// A target, recipe or task found by one of the task-runner parsers, with
/// the annotations written above its definition applied.
#[derive(Debug, Clone)]
pub struct AnnotatedTarget {
    pub name: String,
    pub display_name: String,
    pub category: String,
    pub description: String,
    pub emoji: Option<String>,
    pub ignored: bool,
}

/// The plain-value form of an [`AnnotatedTarget`].
pub struct TargetView {
    pub name: Seq<char>,
    pub display_name: Seq<char>,
    pub category: Seq<char>,
    pub description: Seq<char>,
    pub emoji: Option<Seq<char>>,
    pub ignored: bool,
}

impl View for AnnotatedTarget {
    type V = TargetView;

    open spec fn view(&self) -> TargetView {
        TargetView {
            name: self.name@,
            display_name: self.display_name@,
            category: self.category@,
            description: self.description@,
            emoji: opt_view(self.emoji),
            ignored: self.ignored,
        }
    }
}

impl SortKey for AnnotatedTarget {
    open spec fn key_lt(a: TargetView, b: TargetView) -> bool {
        seq_lt(a.name, b.name)
    }

    proof fn lemma_key_lt_trans(a: TargetView, b: TargetView, c: TargetView) {
        lemma_seq_lt_trans(a.name, b.name, c.name);
    }

    proof fn lemma_key_lt_irrefl(a: TargetView) {
        lemma_seq_lt_irrefl(a.name);
    }

    fn exec_key_lt(&self, other: &Self) -> (r: bool) {
        let a = to_chars(self.name.as_str());
        let b = to_chars(other.name.as_str());
        seq_lt_exec(a.as_slice(), b.as_slice())
    }
}

/// The annotations recorded for `name`, when a map is given.
pub open spec fn find_annotations(map: Option<Seq<(Seq<char>, AnnView)>>, name: Seq<char>) -> Option<AnnView> {
    match map {
        Some(m) => lookup(m, name),
        None => None,
    }
}

/// A target named `name`: its description is the annotation's, else
/// `fallback`; its emoji and hidden flag come from the annotations.
pub open spec fn annotated_target(
    name: Seq<char>,
    category: Seq<char>,
    ann: Option<AnnView>,
    fallback: Seq<char>,
) -> TargetView {
    TargetView {
        name: name,
        display_name: display_name_of(name),
        category: category,
        description: match ann {
            Some(a) => match a.description {
                Some(d) => d,
                None => fallback,
            },
            None => fallback,
        },
        emoji: match ann {
            Some(a) => a.emoji,
            None => None,
        },
        ignored: match ann {
            Some(a) => a.ignored,
            None => false,
        },
    }
}

pub open spec fn map_view(m: Option<&AnnotationMap>) -> Option<Seq<(Seq<char>, AnnView)>> {
    match m {
        Some(x) => Some(x@),
        None => None,
    }
}

/// The annotations for `name` in the map, if a map is given.
pub fn find_annotations_exec<'a>(map: Option<&'a AnnotationMap>, name: &str) -> (r: Option<&'a Annotations>)
    ensures
        match r {
            Some(a) => find_annotations(map_view(map), name@) == Some(a@),
            None => find_annotations(map_view(map), name@) is None,
        },
{
    match map {
        Some(m) => m.get(name),
        None => None,
    }
}

/// Builds the target named `name` as [`annotated_target`] describes.
pub fn build_target(name: String, category: &str, ann: Option<&Annotations>, fallback: String) -> (r: AnnotatedTarget)
    ensures
        r@ == annotated_target(
            name@,
            category@,
            match ann {
                Some(a) => Some(a@),
                None => None,
            },
            fallback@,
        ),
{
    let display_name = format_display_name(name.as_str());
    let (description, emoji, ignored) = match ann {
        Some(a) => {
            let d = match &a.description {
                Some(d) => d.clone(),
                None => fallback,
            };
            (d, clone_opt(&a.emoji), a.ignored)
        },
        None => (fallback, None, false),
    };
    AnnotatedTarget {
        name,
        display_name,
        category: String::from_str(category),
        description,
        emoji,
        ignored,
    }
}

/// The number of leading characters of `s[i..]`, counted from `i`, that fit
/// in `b` bytes of UTF-8 (the end index of that prefix).
pub open spec fn fit_chars(s: Seq<char>, i: int, b: int) -> int
    decreases s.len() - i,
{
    if 0 <= i < s.len() && utf8_len(s[i]) <= b {
        fit_chars(s, i + 1, b - utf8_len(s[i]))
    } else {
        i
    }
}

/// The longest prefix of `s` within 57 bytes.
pub open spec fn preview_cut(s: Seq<char>) -> Seq<char> {
    s.take(fit_chars(s, 0, 57))
}

/// A command longer than 60 bytes is cut at byte 57, which must then fall
/// between two characters (slicing a `str` elsewhere panics).
pub open spec fn cuts_at_char_boundary(s: Seq<char>) -> bool {
    utf8_bytes(s) > 60 ==> utf8_bytes(preview_cut(s)) == 57
}

/// `<tool> <name> - <command>`, the command cut to its first 57 bytes and
/// followed by `...` when it is longer than 60 bytes.
pub open spec fn preview_description(tool: Seq<char>, name: Seq<char>, command: Seq<char>) -> Seq<char> {
    if utf8_bytes(command) > 60 {
        tool + name + " - "@ + preview_cut(command) + "..."@
    } else {
        tool + name + " - "@ + command
    }
}

proof fn lemma_fit_chars(s: Seq<char>, i: int, b: int)
    requires
        0 <= i <= s.len(),
    ensures
        i <= fit_chars(s, i, b) <= s.len(),
    decreases s.len() - i,
{
    if i < s.len() && utf8_len(s[i]) <= b {
        lemma_fit_chars(s, i + 1, b - utf8_len(s[i]));
    }
}

/// Whether a command can be previewed (see [`cuts_at_char_boundary`]).
pub fn is_previewable(command: &str) -> (r: bool)
    ensures
        r == cuts_at_char_boundary(command@),
{
    let cs = to_chars(command);
    let total = utf8_bytes_exec(cs.as_slice(), cs.len());
    assert(cs@.subrange(0, cs@.len() as int) =~= cs@);
    if total <= 60 {
        return true;
    }
    proof {
        lemma_fit_chars(cs@, 0, 57);
    }
    let mut j: usize = 0;
    let mut rem: u128 = 57;
    while j < cs.len() && utf8_len_exec(cs[j]) <= rem
        invariant
            j <= cs@.len(),
            rem <= 57,
            fit_chars(cs@, 0, 57) == fit_chars(cs@, j as int, rem as int),
            utf8_bytes(cs@.take(j as int)) == 57 - rem,
        decreases cs.len() - j,
    {
        assert(cs@.take(j + 1).drop_last() =~= cs@.take(j as int));
        rem = rem - utf8_len_exec(cs[j]);
        j = j + 1;
    }
    assert(cs@.take(0) =~= Seq::<char>::empty());
    rem == 0
}

/// The description of a script run by `tool` (such as `npm run `), with a
/// preview of its command.
pub fn command_preview(tool: &str, name: &str, command: &str) -> (r: String)
    requires
        cuts_at_char_boundary(command@),
    ensures
        r@ == preview_description(tool@, name@, command@),
{
    let cs = to_chars(command);
    let total = utf8_bytes_exec(cs.as_slice(), cs.len());
    assert(cs@.subrange(0, cs@.len() as int) =~= cs@);
    let mut r = String::from_str(tool);
    r.append(name);
    r.append(" - ");
    if total > 60 {
        proof {
            lemma_fit_chars(cs@, 0, 57);
        }
        let mut j: usize = 0;
        let mut rem: u128 = 57;
        while j < cs.len() && utf8_len_exec(cs[j]) <= rem
            invariant
                j <= cs@.len(),
                rem <= 57,
                fit_chars(cs@, 0, 57) == fit_chars(cs@, j as int, rem as int),
            decreases cs.len() - j,
        {
            rem = rem - utf8_len_exec(cs[j]);
            j = j + 1;
        }
        let cut = slice_to_vec(cs.as_slice(), 0, j);
        assert(cut@ =~= cs@.take(j as int));
        let c = from_chars(cut.as_slice());
        r.append(c.as_str());
        r.append("...");
    } else {
        r.append(command);
    }
    r
}

} // verus!
