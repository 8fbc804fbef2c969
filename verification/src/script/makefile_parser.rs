//! Targets of a Makefile: annotations from the Makefile's comments, target
//! names from `make --print-data-base` output or from the Makefile itself.
use crate::script::annotations::{
    block_annotations, block_start, is_comment,
    is_comment_exec, is_ignore_exec, is_ignore_line, plain_capture, plain_capture_exec, scan_block,
    tag_capture, tag_capture_exec, AnnView, AnnotationMap, Annotations,
};
use crate::script::error::ParseError;
use crate::script::items::{
    annotated_target, build_target, find_annotations, find_annotations_exec, map_view,
    AnnotatedTarget, TargetView,
};
use crate::sort::{item_views, sort_stable, stable_sort};
use crate::text::{
    chars_eq, find_from, find_from_exec, from_chars, has_at, has_lit, is_blank, is_blank_exec,
    is_ident_start, is_ident_start_exec, lemma_find_from, lemma_name_end, lemma_ws_end, lines,
    name_end, name_end_exec, occurs_from, slice_to_vec, str_lines, to_chars, trim_start,
    trim_start_exec, views, ws_end, ws_end_exec,
};
use vstd::prelude::*;

verus! {

/// A make target for display.
pub type MakeTarget = AnnotatedTarget;

/// Annotations found above a target definition.
pub type MakeAnnotations = Annotations;

/// `^([a-zA-Z_][a-zA-Z0-9_-]*)\s*:`: the target name.
pub open spec fn make_target_name(l: Seq<char>) -> Option<Seq<char>> {
    if l.len() > 0 && is_ident_start(l[0]) {
        let n = name_end(l, 0);
        let c = ws_end(l, n);
        if c < l.len() && l[c] == ':' {
            Some(l.subrange(0, n))
        } else {
            None
        }
    } else {
        None
    }
}

pub fn make_target_name_exec(l: &[char]) -> (r: Option<Vec<char>>)
    ensures
        match r {
            Some(n) => make_target_name(l@) == Some(n@),
            None => make_target_name(l@) is None,
        },
{
    if l.len() == 0 || !is_ident_start_exec(l[0]) {
        return None;
    }
    proof {
        lemma_name_end(l@, 0);
    }
    let n = name_end_exec(l, 0);
    proof {
        lemma_ws_end(l@, n as int);
    }
    let c = ws_end_exec(l, n);
    if c < l.len() && l[c] == ':' {
        Some(slice_to_vec(l, 0, n))
    } else {
        None
    }
}

/// A comment line that is no annotation and has text: that text.
pub open spec fn plain_comment_text(l: Seq<char>) -> Option<Seq<char>> {
    if is_ignore_line(l, "#"@) || tag_capture(l, "#"@, "@emoji"@) is Some || tag_capture(
        l,
        "#"@,
        "@description"@,
    ) is Some {
        None
    } else {
        match plain_capture(l, "#"@) {
            Some(t) => if t.len() > 0 {
                Some(t)
            } else {
                None
            },
            None => None,
        }
    }
}

/// The text of the lowest plain comment in `ls[k..i]`.
pub open spec fn last_plain_comment(ls: Seq<Seq<char>>, k: int, i: int) -> Option<Seq<char>>
    decreases i - k,
{
    if i <= k || k < 0 || i > ls.len() {
        None
    } else {
        match plain_comment_text(ls[i - 1]) {
            Some(t) => Some(t),
            None => last_plain_comment(ls, k, i - 1),
        }
    }
}

/// The annotations of the target on line `i`: those of the comment lines
/// directly above it (a blank line ends the block), with the lowest plain
/// comment as the description when there is no `@description`.
pub open spec fn make_block_annotations(ls: Seq<Seq<char>>, i: int) -> AnnView {
    let a = block_annotations(ls, i, "#"@, true);
    AnnView {
        emoji: a.emoji,
        description: match a.description {
            Some(d) => Some(d),
            None => last_plain_comment(ls, block_start(ls, i, "#"@, true), i),
        },
        ignored: a.ignored,
    }
}

/// The target defined on line `i` and its annotations, when it has any.
pub open spec fn make_annotation_at(ls: Seq<Seq<char>>, i: int) -> Option<(Seq<char>, AnnView)> {
    match make_target_name(ls[i]) {
        Some(n) => {
            let a = make_block_annotations(ls, i);
            if a.emoji is Some || a.description is Some || a.ignored {
                Some((n, a))
            } else {
                None
            }
        },
        None => None,
    }
}

/// The annotated targets among the first `n` lines, in order.
pub open spec fn make_annotations(ls: Seq<Seq<char>>, n: int) -> Seq<(Seq<char>, AnnView)>
    decreases n,
{
    if n <= 0 || n > ls.len() {
        Seq::empty()
    } else {
        let prev = make_annotations(ls, n - 1);
        match make_annotation_at(ls, n - 1) {
            Some(e) => prev.push(e),
            None => prev,
        }
    }
}

fn plain_comment_text_exec(l: &[char]) -> (r: Option<Vec<char>>)
    ensures
        match r {
            Some(t) => plain_comment_text(l@) == Some(t@),
            None => plain_comment_text(l@) is None,
        },
{
    if is_ignore_exec(l, "#") || tag_capture_exec(l, "#", "@emoji").is_some() || tag_capture_exec(
        l,
        "#",
        "@description",
    ).is_some() {
        return None;
    }
    match plain_capture_exec(l, "#") {
        Some(t) => if t.len() > 0 {
            Some(t)
        } else {
            None
        },
        None => None,
    }
}

/// The lowest plain comment in the comment block directly above line `i`.
fn scan_plain_comment(ls: &Vec<Vec<char>>, i: usize) -> (r: Option<Vec<char>>)
    requires
        i <= ls@.len(),
    ensures
        match r {
            Some(t) => last_plain_comment(views(ls@), block_start(views(ls@), i as int, "#"@, true), i as int)
                == Some(t@),
            None => last_plain_comment(views(ls@), block_start(views(ls@), i as int, "#"@, true), i as int) is None,
        },
{
    let ghost lv = views(ls@);
    let mut j = i;
    while j > 0
        invariant
            j <= i <= ls@.len(),
            lv == views(ls@),
            block_start(lv, i as int, "#"@, true) == block_start(lv, j as int, "#"@, true),
            last_plain_comment(lv, j as int, i as int) is None,
        ensures
            block_start(lv, i as int, "#"@, true) == j,
            last_plain_comment(lv, j as int, i as int) is None,
        decreases j,
    {
        let l = ls[j - 1].as_slice();
        assert(l@ == lv[j - 1]);
        if is_blank_exec(l) || !is_comment_exec(l, "#") {
            break;
        }
        match plain_comment_text_exec(l) {
            Some(t) => {
                proof {
                    lemma_last_plain_first_found(lv, j as int, i as int);
                    crate::script::annotations::lemma_block_start(lv, j - 1, "#"@, true);
                    lemma_last_plain_extend(
                        lv,
                        block_start(lv, i as int, "#"@, true),
                        j - 1,
                        i as int,
                    );
                }
                return Some(t);
            },
            None => {},
        }
        proof {
            lemma_last_plain_first_found(lv, j as int, i as int);
        }
        j = j - 1;
    }
    None
}

/// Extending the block one line up: the lowest plain comment is the one of
/// the block below, else the new line's.
proof fn lemma_last_plain_first_found(ls: Seq<Seq<char>>, j: int, i: int)
    requires
        0 < j <= i <= ls.len(),
        last_plain_comment(ls, j, i) is None,
    ensures
        last_plain_comment(ls, j - 1, i) == plain_comment_text(ls[j - 1]),
    decreases i - j,
{
    if i > j {
        assert(plain_comment_text(ls[i - 1]) is None);
        assert(last_plain_comment(ls, j, i - 1) is None);
        lemma_last_plain_first_found(ls, j, i - 1);
        assert(last_plain_comment(ls, j - 1, i) == last_plain_comment(ls, j - 1, i - 1));
    } else {
        assert(last_plain_comment(ls, j - 1, j - 1) is None);
    }
}

/// Once a plain comment is found, lowering the start of the block does not
/// change it.
proof fn lemma_last_plain_extend(ls: Seq<Seq<char>>, k: int, j: int, i: int)
    requires
        0 <= k <= j <= i <= ls.len(),
        last_plain_comment(ls, j, i) is Some,
    ensures
        last_plain_comment(ls, k, i) == last_plain_comment(ls, j, i),
    decreases i - j,
{
    if plain_comment_text(ls[i - 1]) is None {
        lemma_last_plain_extend(ls, k, j, i - 1);
    }
}

/// Parses the annotations written in the comment lines directly above each
/// target of a Makefile; a plain comment serves as the description when no
/// `@description` is given.
pub fn parse_makefile_annotations_from_content(content: &str) -> (r: Result<AnnotationMap, ParseError>)
    ensures
        r is Ok,
        r matches Ok(m) ==> m@ == make_annotations(lines(content@), lines(content@).len() as int),
{
    let ls = str_lines(content);
    let ghost lv = views(ls@);
    let mut map = AnnotationMap::new();
    let mut i: usize = 0;
    while i < ls.len()
        invariant
            i <= ls@.len(),
            lv == views(ls@),
            lv == lines(content@),
            map@ == make_annotations(lv, i as int),
        decreases ls.len() - i,
    {
        let l = ls[i].as_slice();
        assert(l@ == lv[i as int]);
        match make_target_name_exec(l) {
            Some(n) => {
                let a = scan_block(&ls, i, "#", true);
                let description = match a.description {
                    Some(d) => Some(d),
                    None => match scan_plain_comment(&ls, i) {
                        Some(t) => Some(from_chars(t.as_slice())),
                        None => None,
                    },
                };
                let ann = Annotations { emoji: a.emoji, description, ignored: a.ignored };
                if ann.emoji.is_some() || ann.description.is_some() || ann.ignored {
                    map.insert(from_chars(n.as_slice()), ann);
                }
            },
            None => {},
        }
        i = i + 1;
    }
    Ok(map)
}

/// The name ends with the extension of a build artifact.
pub open spec fn is_artifact_name(name: Seq<char>) -> bool {
    let exts = seq![".o"@, ".a"@, ".so"@, ".out"@, ".obj"@, ".lib"@, ".dll"@, ".dylib"@, ".exe"@];
    exists|k: int|
        0 <= k < exts.len() && name.len() >= exts[k].len() && #[trigger] has_at(
            name,
            name.len() - exts[k].len(),
            exts[k],
        )
}

fn ends_with_lit(s: &[char], lit: &str) -> (r: bool)
    ensures
        r == (s@.len() >= lit@.len() && has_at(s@, s@.len() - lit@.len(), lit@)),
{
    let l = to_chars(lit);
    if l.len() > s.len() {
        return false;
    }
    has_lit(s, s.len() - l.len(), lit)
}

/// Check if a target name looks like a build artifact based on file extensions.
pub fn is_artifact_target(name: &str) -> (r: bool)
    ensures
        r == is_artifact_name(name@),
{
    let s = to_chars(name);
    let ghost exts = seq![".o"@, ".a"@, ".so"@, ".out"@, ".obj"@, ".lib"@, ".dll"@, ".dylib"@, ".exe"@];
    let r = ends_with_lit(s.as_slice(), ".o") || ends_with_lit(s.as_slice(), ".a") || ends_with_lit(
        s.as_slice(),
        ".so",
    ) || ends_with_lit(s.as_slice(), ".out") || ends_with_lit(s.as_slice(), ".obj")
        || ends_with_lit(s.as_slice(), ".lib") || ends_with_lit(s.as_slice(), ".dll")
        || ends_with_lit(s.as_slice(), ".dylib") || ends_with_lit(s.as_slice(), ".exe");
    proof {
        if r {
            let k = if s@.len() >= exts[0].len() && has_at(s@, s@.len() - exts[0].len(), exts[0]) {
                0
            } else if s@.len() >= exts[1].len() && has_at(s@, s@.len() - exts[1].len(), exts[1]) {
                1
            } else if s@.len() >= exts[2].len() && has_at(s@, s@.len() - exts[2].len(), exts[2]) {
                2
            } else if s@.len() >= exts[3].len() && has_at(s@, s@.len() - exts[3].len(), exts[3]) {
                3
            } else if s@.len() >= exts[4].len() && has_at(s@, s@.len() - exts[4].len(), exts[4]) {
                4
            } else if s@.len() >= exts[5].len() && has_at(s@, s@.len() - exts[5].len(), exts[5]) {
                5
            } else if s@.len() >= exts[6].len() && has_at(s@, s@.len() - exts[6].len(), exts[6]) {
                6
            } else if s@.len() >= exts[7].len() && has_at(s@, s@.len() - exts[7].len(), exts[7]) {
                7
            } else {
                8
            };
            assert(has_at(s@, s@.len() - exts[k].len(), exts[k]));
        }
    }
    r
}

/// A name already taken by one of the targets.
pub open spec fn name_taken(items: Seq<TargetView>, name: Seq<char>) -> bool {
    exists|k: int| 0 <= k < items.len() && (#[trigger] items[k]).name == name
}

fn name_taken_exec(items: &Vec<AnnotatedTarget>, name: &[char]) -> (r: bool)
    ensures
        r == name_taken(item_views(items@), name@),
{
    let mut k: usize = 0;
    while k < items.len()
        invariant
            k <= items@.len(),
            forall|m: int| 0 <= m < k ==> (#[trigger] item_views(items@)[m]).name != name@,
        decreases items.len() - k,
    {
        let n = to_chars(items[k].name.as_str());
        if chars_eq(n.as_slice(), name) {
            assert(item_views(items@)[k as int].name == name@);
            return true;
        }
        k = k + 1;
    }
    false
}

/// The target named `name` with its annotations and the make fallback
/// description.
pub open spec fn make_target(name: Seq<char>, category: Seq<char>, map: Option<Seq<(Seq<char>, AnnView)>>) -> TargetView {
    annotated_target(name, category, find_annotations(map, name), "make target "@ + name)
}

/// The names that follow a `# Not a target:` line among the first `n`
/// lines of the make database (built-in rules).
pub open spec fn not_a_target_names(ls: Seq<Seq<char>>, n: int) -> Seq<Seq<char>>
    decreases n,
{
    if n <= 0 || n > ls.len() {
        Seq::empty()
    } else {
        let prev = not_a_target_names(ls, n - 1);
        if n < ls.len() && has_at(ls[n - 1], 0, "# Not a target:"@) && make_target_name(ls[n]) is Some {
            prev.push(make_target_name(ls[n]).unwrap())
        } else {
            prev
        }
    }
}

/// The targets of the database's first `n` lines: target lines that are not
/// comments, not marked as built-in rules, not build artifacts and not seen
/// before.
pub open spec fn make_db_items(
    ls: Seq<Seq<char>>,
    n: int,
    category: Seq<char>,
    map: Option<Seq<(Seq<char>, AnnView)>>,
) -> Seq<TargetView>
    decreases n,
{
    if n <= 0 || n > ls.len() {
        Seq::empty()
    } else {
        let prev = make_db_items(ls, n - 1, category, map);
        let l = ls[n - 1];
        if is_blank(l) || (l.len() > 0 && l[0] == '#') {
            prev
        } else {
            match make_target_name(l) {
                Some(name) => if not_a_target_names(ls, ls.len() as int).contains(name) || is_artifact_name(name) || name_taken(
                    prev,
                    name,
                ) {
                    prev
                } else {
                    prev.push(make_target(name, category, map))
                },
                None => prev,
            }
        }
    }
}

fn in_list(list: &Vec<Vec<char>>, name: &[char]) -> (r: bool)
    ensures
        r == views(list@).contains(name@),
{
    let mut k: usize = 0;
    while k < list.len()
        invariant
            k <= list@.len(),
            forall|m: int| 0 <= m < k ==> views(list@)[m] != name@,
        decreases list.len() - k,
    {
        if chars_eq(list[k].as_slice(), name) {
            assert(views(list@)[k as int] == name@);
            return true;
        }
        k = k + 1;
    }
    false
}

/// Builds the target with its annotations and the make fallback description.
fn make_target_exec(name: String, category: &str, annotations: Option<&AnnotationMap>) -> (r: AnnotatedTarget)
    ensures
        r@ == make_target(name@, category@, map_view(annotations)),
{
    let mut fallback = String::from_str("make target ");
    fallback.append(name.as_str());
    let ann = find_annotations_exec(annotations, name.as_str());
    build_target(name, category, ann, fallback)
}

/// Parses `make --print-data-base` output into targets sorted by name,
/// leaving out built-in rules (marked `# Not a target:`), build artifacts and
/// repeated names.
pub fn parse_make_database(output: &str, category: &str, annotations: Option<&AnnotationMap>) -> (r: Result<
    Vec<MakeTarget>,
    ParseError,
>)
    ensures
        r is Ok,
        r matches Ok(v) ==> item_views(v@) == stable_sort::<AnnotatedTarget>(
            make_db_items(lines(output@), lines(output@).len() as int, category@, map_view(annotations)),
        ),
{
    let ls = str_lines(output);
    let ghost lv = views(ls@);
    // Names marked as built-in rules.
    let mut nots: Vec<Vec<char>> = Vec::new();
    let mut i: usize = 0;
    while i < ls.len()
        invariant
            i <= ls@.len(),
            lv == views(ls@),
            views(nots@) == not_a_target_names(lv, i as int),
        decreases ls.len() - i,
    {
        let l = ls[i].as_slice();
        assert(l@ == lv[i as int]);
        if i + 1 < ls.len() && has_lit(l, 0, "# Not a target:") {
            match make_target_name_exec(ls[i + 1].as_slice()) {
                Some(n) => {
                    assert(n@ == make_target_name(lv[i + 1]).unwrap());
                    let ghost old_n = views(nots@);
                    nots.push(n);
                    assert(views(nots@) =~= old_n.push(make_target_name(lv[i + 1]).unwrap()));
                },
                None => {},
            }
        }
        i = i + 1;
    }
    let mut items: Vec<AnnotatedTarget> = Vec::new();
    let ghost mv = map_view(annotations);
    let mut i: usize = 0;
    while i < ls.len()
        invariant
            i <= ls@.len(),
            lv == views(ls@),
            lv == lines(output@),
            mv == map_view(annotations),
            views(nots@) == not_a_target_names(lv, lv.len() as int),
            item_views(items@) == make_db_items(lv, i as int, category@, mv),
        decreases ls.len() - i,
    {
        let l = ls[i].as_slice();
        assert(l@ == lv[i as int]);
        if !(is_blank_exec(l) || (l.len() > 0 && l[0] == '#')) {
            match make_target_name_exec(l) {
                Some(n) => {
                    let name = from_chars(n.as_slice());
                    if !in_list(&nots, n.as_slice()) && !is_artifact_target(name.as_str())
                        && !name_taken_exec(&items, n.as_slice()) {
                        let t = make_target_exec(name, category, annotations);
                        let ghost old_items = item_views(items@);
                        items.push(t);
                        assert(item_views(items@) =~= old_items.push(t@));
                    }
                },
                None => {},
            }
        }
        i = i + 1;
    }
    Ok(sort_stable(items))
}

/// Definition lines of a Makefile read directly: not blank, not comments,
/// not indented recipe lines, and not variable assignments (`=` before `:`).
pub open spec fn makefile_items(
    ls: Seq<Seq<char>>,
    n: int,
    category: Seq<char>,
    map: Option<Seq<(Seq<char>, AnnView)>>,
) -> Seq<TargetView>
    decreases n,
{
    if n <= 0 || n > ls.len() {
        Seq::empty()
    } else {
        let prev = makefile_items(ls, n - 1, category, map);
        let l = ls[n - 1];
        if is_blank(l) || has_at(trim_start(l), 0, "#"@) || (l.len() > 0 && (l[0] == '\t' || l[0]
            == ' ')) {
            prev
        } else {
            match make_target_name(l) {
                Some(name) => if is_artifact_name(name) || (occurs_from(l, 0, '=') && find_from(
                    l,
                    0,
                    '=',
                ) < find_from(l, 0, ':')) || name_taken(prev, name) {
                    prev
                } else {
                    prev.push(make_target(name, category, map))
                },
                None => prev,
            }
        }
    }
}

/// Parses the targets defined in a Makefile's text, sorted by name: used
/// when `make --print-data-base` is not available.
pub fn parse_makefile_targets(content: &str, category: &str, annotations: Option<&AnnotationMap>) -> (r:
    Result<Vec<MakeTarget>, ParseError>)
    ensures
        r is Ok,
        r matches Ok(v) ==> item_views(v@) == stable_sort::<AnnotatedTarget>(
            makefile_items(lines(content@), lines(content@).len() as int, category@, map_view(annotations)),
        ),
{
    let ls = str_lines(content);
    let ghost lv = views(ls@);
    let ghost mv = map_view(annotations);
    let mut items: Vec<AnnotatedTarget> = Vec::new();
    let mut i: usize = 0;
    while i < ls.len()
        invariant
            i <= ls@.len(),
            lv == views(ls@),
            lv == lines(content@),
            mv == map_view(annotations),
            item_views(items@) == makefile_items(lv, i as int, category@, mv),
        decreases ls.len() - i,
    {
        let l = ls[i].as_slice();
        assert(l@ == lv[i as int]);
        let ts = trim_start_exec(l);
        if !(is_blank_exec(l) || has_lit(ts.as_slice(), 0, "#") || (l.len() > 0 && (l[0] == '\t'
            || l[0] == ' '))) {
            match make_target_name_exec(l) {
                Some(n) => {
                    let name = from_chars(n.as_slice());
                    proof {
                        lemma_find_from(l@, 0, '=');
                    }
                    let eq = find_from_exec(l, 0, '=');
                    let colon = find_from_exec(l, 0, ':');
                    let assignment = eq < l.len() && eq < colon;
                    if !is_artifact_target(name.as_str()) && !assignment && !name_taken_exec(
                        &items,
                        n.as_slice(),
                    ) {
                        let t = make_target_exec(name, category, annotations);
                        let ghost old_items = item_views(items@);
                        items.push(t);
                        assert(item_views(items@) =~= old_items.push(t@));
                    }
                },
                None => {},
            }
        }
        i = i + 1;
    }
    Ok(sort_stable(items))
}

/// No two targets have the same name.
pub open spec fn names_once(items: Seq<TargetView>) -> bool {
    forall|i: int, j: int| 0 <= i < j < items.len() ==> (#[trigger] items[i]).name != (#[trigger] items[j]).name
}

proof fn lemma_push_new_name(prev: Seq<TargetView>, t: TargetView)
    requires
        names_once(prev),
        !name_taken(prev, t.name),
    ensures
        names_once(prev.push(t)),
{
    let r = prev.push(t);
    assert forall|i: int, j: int| 0 <= i < j < r.len() implies (#[trigger] r[i]).name != (#[trigger] r[j]).name by {
        if j == prev.len() {
            assert(r[i] == prev[i]);
            if prev[i].name == t.name {
                assert(name_taken(prev, t.name));
            }
        } else {
            assert(r[i] == prev[i] && r[j] == prev[j]);
        }
    }
}

/// A target is listed once, however often the make database or the
/// Makefile mentions it.
pub proof fn lemma_make_targets_once(
    ls: Seq<Seq<char>>,
    n: int,
    category: Seq<char>,
    map: Option<Seq<(Seq<char>, AnnView)>>,
)
    ensures
        names_once(make_db_items(ls, n, category, map)),
        names_once(makefile_items(ls, n, category, map)),
    decreases n,
{
    if 0 < n <= ls.len() {
        lemma_make_targets_once(ls, n - 1, category, map);
        let l = ls[n - 1];
        if let Some(name) = make_target_name(l) {
            let prev = make_db_items(ls, n - 1, category, map);
            if !name_taken(prev, name) {
                lemma_push_new_name(prev, make_target(name, category, map));
            }
            let prev2 = makefile_items(ls, n - 1, category, map);
            if !name_taken(prev2, name) {
                lemma_push_new_name(prev2, make_target(name, category, map));
            }
        }
    }
}

} // verus!

