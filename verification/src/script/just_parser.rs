//! Recipes of a justfile: annotations read from the justfile's comments and
//! recipe names read from the output of `just --list`.
use crate::script::annotations::{
    block_annotations, is_comment, is_comment_exec, scan_block, AnnView, AnnotationMap, Annotations,
};
use crate::script::error::ParseError;
use crate::script::items::{
    annotated_target, build_target, find_annotations, find_annotations_exec, map_view,
    AnnotatedTarget, TargetView,
};
use crate::sort::{item_views, sort_stable, stable_sort};
use crate::text::{
    contains_chars, contains_seq, eq_lit, find_from, find_from_exec, from_chars, has_at, has_lit,
    is_blank, is_blank_exec, is_ident_start, is_ident_start_exec, is_ws, is_ws_exec,
    lemma_find_from, lemma_name_end, lines, name_end, name_end_exec, occurs_from, slice_to_vec,
    split_words, str_lines, to_chars, trim, trim_exec, views, words,
};
use vstd::prelude::*;

verus! {

/// A just recipe for display.
pub type JustRecipe = AnnotatedTarget;

/// Annotations found above a recipe definition.
pub type JustAnnotations = Annotations;

/// `^([a-zA-Z_][a-zA-Z0-9_-]*)(?:\s+[^:]*)?:`: the recipe name.
pub open spec fn just_recipe_name(l: Seq<char>) -> Option<Seq<char>> {
    if l.len() > 0 && is_ident_start(l[0]) {
        let n = name_end(l, 0);
        if n < l.len() && (l[n] == ':' || (is_ws(l[n]) && occurs_from(l, n, ':'))) {
            Some(l.subrange(0, n))
        } else {
            None
        }
    } else {
        None
    }
}

/// Lines that cannot define a recipe: indented, blank or comment lines.
pub open spec fn just_skipped_line(l: Seq<char>) -> bool {
    (l.len() > 0 && (l[0] == ' ' || l[0] == '\t')) || is_blank(l) || is_comment(l, "#"@)
}

/// Variable assignments: `:=`, or `=` without any `:`.
pub open spec fn just_assignment(l: Seq<char>) -> bool {
    contains_seq(l, ":="@) || (occurs_from(l, 0, '=') && !occurs_from(l, 0, ':'))
}

/// Names that start settings and other statements, not recipes.
pub open spec fn just_keyword(n: Seq<char>) -> bool {
    n == "set"@ || n == "alias"@ || n == "export"@ || n == "import"@ || n == "mod"@ || n == "if"@
        || n == "else"@
}

/// The recipe defined on line `i` and its annotations, when it has any.
pub open spec fn just_annotation_at(ls: Seq<Seq<char>>, i: int) -> Option<(Seq<char>, AnnView)> {
    let l = ls[i];
    if just_skipped_line(l) {
        None
    } else {
        match just_recipe_name(l) {
            Some(n) => {
                let a = block_annotations(ls, i, "#"@, false);
                if just_assignment(l) || just_keyword(n) || !(a.emoji is Some || a.description is Some
                    || a.ignored) {
                    None
                } else {
                    Some((n, a))
                }
            },
            None => None,
        }
    }
}

/// The annotated recipes among the first `n` lines, in order.
pub open spec fn just_annotations(ls: Seq<Seq<char>>, n: int) -> Seq<(Seq<char>, AnnView)>
    decreases n,
{
    if n <= 0 || n > ls.len() {
        Seq::empty()
    } else {
        let prev = just_annotations(ls, n - 1);
        match just_annotation_at(ls, n - 1) {
            Some(e) => prev.push(e),
            None => prev,
        }
    }
}

fn just_recipe_name_exec(l: &[char]) -> (r: Option<Vec<char>>)
    ensures
        match r {
            Some(n) => just_recipe_name(l@) == Some(n@),
            None => just_recipe_name(l@) is None,
        },
{
    if l.len() == 0 || !is_ident_start_exec(l[0]) {
        return None;
    }
    proof {
        lemma_name_end(l@, 0);
    }
    let n = name_end_exec(l, 0);
    if n >= l.len() {
        return None;
    }
    let ok = if l[n] == ':' {
        true
    } else if is_ws_exec(l[n]) {
        proof {
            lemma_find_from(l@, n as int, ':');
        }
        find_from_exec(l, n, ':') < l.len()
    } else {
        false
    };
    if ok {
        Some(slice_to_vec(l, 0, n))
    } else {
        None
    }
}

fn occurs_exec(l: &[char], c: char) -> (r: bool)
    ensures
        r == occurs_from(l@, 0, c),
{
    proof {
        lemma_find_from(l@, 0, c);
    }
    find_from_exec(l, 0, c) < l.len()
}

fn just_keyword_exec(n: &[char]) -> (r: bool)
    ensures
        r == just_keyword(n@),
{
    eq_lit(n, "set") || eq_lit(n, "alias") || eq_lit(n, "export") || eq_lit(n, "import") || eq_lit(
        n,
        "mod",
    ) || eq_lit(n, "if") || eq_lit(n, "else")
}

/// Parses the `@emoji`, `@description` and `@ignore` annotations written in
/// the comment lines (and blank lines) above each recipe of a justfile.
pub fn parse_justfile_annotations_from_content(content: &str) -> (r: Result<AnnotationMap, ParseError>)
    ensures
        r is Ok,
        r matches Ok(m) ==> m@ == just_annotations(lines(content@), lines(content@).len() as int),
{
    let ls = str_lines(content);
    let ghost lv = views(ls@);
    let mut map = AnnotationMap::new();
    let mut i: usize = 0;
    while i < ls.len()
        invariant
            i <= ls@.len(),
            lv == views(ls@),
            lv == lines(content@),
            map@ == just_annotations(lv, i as int),
        decreases ls.len() - i,
    {
        let l = ls[i].as_slice();
        assert(l@ == lv[i as int]);
        let skipped = (l.len() > 0 && (l[0] == ' ' || l[0] == '\t')) || is_blank_exec(l)
            || is_comment_exec(l, "#");
        if !skipped {
            match just_recipe_name_exec(l) {
                Some(n) => {
                    let a = scan_block(&ls, i, "#", false);
                    let assignment = contains_chars(l, to_chars(":=").as_slice()) || (occurs_exec(
                        l,
                        '=',
                    ) && !occurs_exec(l, ':'));
                    if !assignment && !just_keyword_exec(n.as_slice()) && (a.emoji.is_some()
                        || a.description.is_some() || a.ignored) {
                        map.insert(from_chars(n.as_slice()), a);
                    }
                },
                None => {},
            }
        }
        i = i + 1;
    }
    Ok(map)
}

/// One line of `just --list` output: the recipe named by its first word, with
/// the text after `#` (if any) as the fallback description.
pub open spec fn just_list_item(
    line: Seq<char>,
    category: Seq<char>,
    map: Option<Seq<(Seq<char>, AnnView)>>,
) -> Option<TargetView> {
    let t = trim(line);
    let h = find_from(t, 0, '#');
    let name_part = t.subrange(0, h);
    let ws = words(name_part);
    if t.len() == 0 || ws.len() == 0 {
        None
    } else {
        let name = ws[0];
        let fallback = if h < t.len() {
            trim(t.subrange(h + 1, t.len() as int))
        } else {
            "just recipe "@ + name
        };
        Some(annotated_target(name, category, find_annotations(map, name), fallback))
    }
}

/// The recipes listed on the first `n` lines, in order.
pub open spec fn just_list_items(
    ls: Seq<Seq<char>>,
    n: int,
    category: Seq<char>,
    map: Option<Seq<(Seq<char>, AnnView)>>,
) -> Seq<TargetView>
    decreases n,
{
    if n <= 0 || n > ls.len() {
        Seq::empty()
    } else {
        let prev = just_list_items(ls, n - 1, category, map);
        match just_list_item(ls[n - 1], category, map) {
            Some(t) => prev.push(t),
            None => prev,
        }
    }
}

/// Parses the output of `just --list` into recipes sorted by name, applying
/// the annotations given for each recipe name.
pub fn parse_just_list_output(output: &str, category: &str, annotations: Option<&AnnotationMap>) -> (r:
    Result<Vec<JustRecipe>, ParseError>)
    ensures
        r is Ok,
        r matches Ok(v) ==> item_views(v@) == stable_sort::<AnnotatedTarget>(
            just_list_items(lines(output@), lines(output@).len() as int, category@, map_view(annotations)),
        ),
{
    let ls = str_lines(output);
    let ghost lv = views(ls@);
    let ghost mv = map_view(annotations);
    let mut items: Vec<AnnotatedTarget> = Vec::new();
    let mut i: usize = 0;
    while i < ls.len()
        invariant
            i <= ls@.len(),
            lv == views(ls@),
            lv == lines(output@),
            mv == map_view(annotations),
            item_views(items@) == just_list_items(lv, i as int, category@, mv),
        decreases ls.len() - i,
    {
        let l = ls[i].as_slice();
        assert(l@ == lv[i as int]);
        let t = trim_exec(l);
        proof {
            lemma_find_from(t@, 0, '#');
        }
        let h = find_from_exec(t.as_slice(), 0, '#');
        let name_part = slice_to_vec(t.as_slice(), 0, h);
        let ws = split_words(name_part.as_slice());
        if t.len() > 0 && ws.len() > 0 {
            let name = from_chars(ws[0].as_slice());
            assert(name@ == words(name_part@)[0]);
            let fallback = if h < t.len() {
                let c = slice_to_vec(t.as_slice(), h + 1, t.len());
                from_chars(trim_exec(c.as_slice()).as_slice())
            } else {
                let mut d = String::from_str("just recipe ");
                d.append(name.as_str());
                d
            };
            let ann = find_annotations_exec(annotations, name.as_str());
            let item = build_target(name, category, ann, fallback);
            let ghost old_items = item_views(items@);
            items.push(item);
            assert(item_views(items@) =~= old_items.push(item@));
        }
        i = i + 1;
    }
    Ok(sort_stable(items))
}

} // verus!
