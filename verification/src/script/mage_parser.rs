//! Targets of a magefile: annotations from the Go comments above exported
//! functions, target names from the output of `mage -l`.
use crate::script::annotations::{
    block_annotations, is_comment, is_comment_exec, scan_block, AnnView, AnnotationMap, Annotations,
};
use crate::script::discovery::{ascii_lower, is_ascii_char};
use crate::script::error::ParseError;
use crate::script::items::{
    annotated_target, build_target, find_annotations, find_annotations_exec, map_view,
    AnnotatedTarget, TargetView,
};
use crate::sort::{item_views, sort_stable, stable_sort};
use crate::text::{
    from_chars, has_at, has_lit, ident_end, ident_end_exec, is_ascii_upper, is_blank, is_blank_exec,
    is_ws, is_ws_exec, join, join_strings, lemma_ident_end, lemma_ws_end, lines, slice_to_vec,
    split_words, str_lines, trim_end_char, trim_end_char_exec, string_views, trim, trim_exec, views, words, ws_end, ws_end_exec,
};
use vstd::prelude::*;

verus! {

/// A mage target for display.
pub type MageTarget = AnnotatedTarget;

/// Annotations found above a target function.
pub type MageAnnotations = Annotations;

/// What `char::to_lowercase` gives for a character.
pub uninterp spec fn unicode_lower_char(c: char) -> Seq<char>;

/// std's `char::to_lowercase`, collected: the lowercase mapping of `c`; for
/// an ASCII character, the one ASCII lowercase character.
#[verifier::external_body]
pub(crate) fn char_to_lower(c: char) -> (r: String)
    ensures
        r@ == unicode_lower_char(c),
        is_ascii_char(c) ==> r@ == seq![ascii_lower(c)],
{
    c.to_lowercase().collect()
}

/// `^func\s+([A-Z][a-zA-Z0-9_]*)\s*\(`: the exported function's name.
pub open spec fn mage_func_name(l: Seq<char>) -> Option<Seq<char>> {
    if has_at(l, 0, "func"@) && 4 < l.len() && is_ws(l[4]) {
        let p = ws_end(l, 4);
        let e = ident_end(l, p);
        let c = ws_end(l, e);
        if p < l.len() && is_ascii_upper(l[p]) && c < l.len() && l[c] == '(' {
            Some(l.subrange(p, e))
        } else {
            None
        }
    } else {
        None
    }
}

/// Lines that cannot define a target: indented, blank or comment lines.
pub open spec fn mage_skipped_line(l: Seq<char>) -> bool {
    (l.len() > 0 && (l[0] == ' ' || l[0] == '\t')) || is_blank(l) || is_comment(l, "//"@)
}

/// The key `mage -l` shows for a function: its first letter lowercased.
pub open spec fn mage_key(n: Seq<char>) -> Seq<char> {
    if n.len() == 0 {
        Seq::empty()
    } else {
        (if is_ascii_char(n[0]) {
            seq![ascii_lower(n[0])]
        } else {
            unicode_lower_char(n[0])
        }) + n.drop_first()
    }
}

/// The target function on line `i` and its annotations, when it has any.
pub open spec fn mage_annotation_at(ls: Seq<Seq<char>>, i: int) -> Option<(Seq<char>, AnnView)> {
    let l = ls[i];
    if mage_skipped_line(l) {
        None
    } else {
        match mage_func_name(l) {
            Some(n) => {
                let a = block_annotations(ls, i, "//"@, false);
                if a.emoji is Some || a.description is Some || a.ignored {
                    Some((mage_key(n), a))
                } else {
                    None
                }
            },
            None => None,
        }
    }
}

/// The annotated targets among the first `n` lines, in order.
pub open spec fn mage_annotations(ls: Seq<Seq<char>>, n: int) -> Seq<(Seq<char>, AnnView)>
    decreases n,
{
    if n <= 0 || n > ls.len() {
        Seq::empty()
    } else {
        let prev = mage_annotations(ls, n - 1);
        match mage_annotation_at(ls, n - 1) {
            Some(e) => prev.push(e),
            None => prev,
        }
    }
}

fn mage_func_name_exec(l: &[char]) -> (r: Option<Vec<char>>)
    ensures
        match r {
            Some(n) => mage_func_name(l@) == Some(n@),
            None => mage_func_name(l@) is None,
        },
{
    if !has_lit(l, 0, "func") {
        return None;
    }
    proof {
        reveal_strlit("func");
    }
    if !(4 < l.len() && is_ws_exec(l[4])) {
        return None;
    }
    proof {
        lemma_ws_end(l@, 4);
    }
    let p = ws_end_exec(l, 4);
    proof {
        lemma_ident_end(l@, p as int);
    }
    let e = ident_end_exec(l, p);
    proof {
        lemma_ws_end(l@, e as int);
    }
    let c = ws_end_exec(l, e);
    if p < l.len() && 'A' <= l[p] && l[p] <= 'Z' && c < l.len() && l[c] == '(' {
        Some(slice_to_vec(l, p, e))
    } else {
        None
    }
}

fn mage_key_exec(n: &[char]) -> (r: String)
    ensures
        r@ == mage_key(n@),
{
    if n.len() == 0 {
        return String::new();
    }
    let mut k = char_to_lower(n[0]);
    let rest = slice_to_vec(n, 1, n.len());
    let rest = from_chars(rest.as_slice());
    k.append(rest.as_str());
    assert(n@.subrange(1, n@.len() as int) =~= n@.drop_first());
    k
}

/// Parses the annotations in the `//` comment lines (and blank lines) above
/// each exported function of a magefile. Keys have their first letter
/// lowercased, as `mage -l` prints target names.
pub fn parse_magefile_annotations_from_content(content: &str) -> (r: Result<AnnotationMap, ParseError>)
    ensures
        r is Ok,
        r matches Ok(m) ==> m@ == mage_annotations(lines(content@), lines(content@).len() as int),
{
    let ls = str_lines(content);
    let ghost lv = views(ls@);
    let mut map = AnnotationMap::new();
    let mut i: usize = 0;
    while i < ls.len()
        invariant
            i <= ls@.len(),
            lv == views(ls@),
            lv == lines(content@),
            map@ == mage_annotations(lv, i as int),
        decreases ls.len() - i,
    {
        let l = ls[i].as_slice();
        assert(l@ == lv[i as int]);
        let skipped = (l.len() > 0 && (l[0] == ' ' || l[0] == '\t')) || is_blank_exec(l)
            || is_comment_exec(l, "//");
        if !skipped {
            match mage_func_name_exec(l) {
                Some(n) => {
                    let a = scan_block(&ls, i, "//", false);
                    if a.emoji.is_some() || a.description.is_some() || a.ignored {
                        map.insert(mage_key_exec(n.as_slice()), a);
                    }
                },
                None => {},
            }
        }
        i = i + 1;
    }
    Ok(map)
}

/// One line of `mage -l` output: the target (its first word without the
/// default marker `*`) and the rest of the words as its description.
pub open spec fn mage_list_item(
    line: Seq<char>,
    category: Seq<char>,
    map: Option<Seq<(Seq<char>, AnnView)>>,
) -> Option<TargetView> {
    let t = trim(line);
    if t.len() == 0 || has_at(t, 0, "Targets"@) || words(t).len() == 0 {
        None
    } else {
        let parts = words(t);
        let name = trim_end_char(parts[0], '*');
        let from_output = join(parts.drop_first(), " "@);
        let fallback = if from_output.len() > 0 {
            from_output
        } else {
            "mage target "@ + name
        };
        Some(annotated_target(name, category, find_annotations(map, name), fallback))
    }
}

/// The targets listed on the first `n` lines, in order.
pub open spec fn mage_list_items(
    ls: Seq<Seq<char>>,
    n: int,
    category: Seq<char>,
    map: Option<Seq<(Seq<char>, AnnView)>>,
) -> Seq<TargetView>
    decreases n,
{
    if n <= 0 || n > ls.len() {
        Seq::empty()
    } else {
        let prev = mage_list_items(ls, n - 1, category, map);
        match mage_list_item(ls[n - 1], category, map) {
            Some(t) => prev.push(t),
            None => prev,
        }
    }
}

/// Parses the output of `mage -l` into targets sorted by name, applying the
/// annotations given for each target.
pub fn parse_mage_list_output(output: &str, category: &str, annotations: Option<&AnnotationMap>) -> (r:
    Result<Vec<MageTarget>, ParseError>)
    ensures
        r is Ok,
        r matches Ok(v) ==> item_views(v@) == stable_sort::<AnnotatedTarget>(
            mage_list_items(lines(output@), lines(output@).len() as int, category@, map_view(annotations)),
        ),
{
    let ls = str_lines(output);
    let ghost lv = views(ls@);
    let ghost mv = map_view(annotations);
    let mut items: Vec<AnnotatedTarget> = Vec::new();
    let mut i: usize = 0;
    while i < ls.len()
        invariant
            i <= ls@.len(),
            lv == views(ls@),
            lv == lines(output@),
            mv == map_view(annotations),
            item_views(items@) == mage_list_items(lv, i as int, category@, mv),
        decreases ls.len() - i,
    {
        let l = ls[i].as_slice();
        assert(l@ == lv[i as int]);
        let t = trim_exec(l);
        let parts = split_words(t.as_slice());
        if !(t.len() == 0 || has_lit(t.as_slice(), 0, "Targets") || parts.len() == 0) {
            let n = trim_end_char_exec(parts[0].as_slice(), '*');
            let name = from_chars(n.as_slice());
            let mut rest: Vec<String> = Vec::new();
            let mut k: usize = 1;
            while k < parts.len()
                invariant
                    1 <= k <= parts@.len(),
                    string_views(rest@) == views(parts@).subrange(1, k as int),
                decreases parts.len() - k,
            {
                let w = from_chars(parts[k].as_slice());
                let ghost old_rest = string_views(rest@);
                rest.push(w);
                assert(string_views(rest@) =~= old_rest.push(views(parts@)[k as int]));
                assert(views(parts@).subrange(1, k + 1) =~= views(parts@).subrange(1, k as int).push(
                    views(parts@)[k as int],
                ));
                k = k + 1;
            }
            assert(views(parts@).subrange(1, parts@.len() as int) =~= views(parts@).drop_first());
            let from_output = join_strings(rest.as_slice(), " ");
            let fallback = if !from_output.as_str().is_empty() {
                from_output
            } else {
                let mut d = String::from_str("mage target ");
                d.append(name.as_str());
                d
            };
            let ann = find_annotations_exec(annotations, name.as_str());
            let item = build_target(name, category, ann, fallback);
            let ghost old_items = item_views(items@);
            items.push(item);
            assert(item_views(items@) =~= old_items.push(item@));
        }
        i = i + 1;
    }
    Ok(sort_stable(items))
}

} // verus!
