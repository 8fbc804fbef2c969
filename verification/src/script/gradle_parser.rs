//! Gradle tasks from the output of `gradle tasks --all -q`, grouped by the
//! section headers of that output.
use crate::script::annotations::{clone_opt, opt_view};
use crate::script::discovery::{display_name_of, format_display_name};
use crate::script::error::ParseError;
use crate::sort::{item_views, sort_stable, stable_sort, SortKey};
use crate::text::{
    chars_eq, ends_with, ends_with_lit, find_from, find_from_exec, find_lit, find_seq, from_chars,
    has_at, has_lit, lemma_find_from, lemma_find_seq, lemma_lines_append, lemma_ws_end_at, lines_from,
    next_lf, rws_start, strip_cr, ws_end, lemma_seq_lt_irrefl, lemma_seq_lt_trans, lines,
    occurs_from, seq_lt, seq_lt_exec, slice_to_vec, str_lines, to_chars, trim, trim_end_matches,
    trim_end_matches_lit, trim_exec, views,
};
use vstd::prelude::*;

verus! {

/// A Gradle task for display.
#[derive(Debug, Clone)]
pub struct GradleTask {
    pub name: String,
    pub display_name: String,
    pub category: String,
    pub group: Option<String>,
    pub description: String,
    pub emoji: Option<String>,
    pub ignored: bool,
}

/// The plain-value form of a [`GradleTask`].
pub struct GradleTaskView {
    pub name: Seq<char>,
    pub display_name: Seq<char>,
    pub category: Seq<char>,
    pub group: Option<Seq<char>>,
    pub description: Seq<char>,
    pub emoji: Option<Seq<char>>,
    pub ignored: bool,
}

impl View for GradleTask {
    type V = GradleTaskView;

    open spec fn view(&self) -> GradleTaskView {
        GradleTaskView {
            name: self.name@,
            display_name: self.display_name@,
            category: self.category@,
            group: opt_view(self.group),
            description: self.description@,
            emoji: opt_view(self.emoji),
            ignored: self.ignored,
        }
    }
}

/// `Option<String>`'s order: no group comes before any group, groups by
/// their text.
pub open spec fn opt_seq_lt(a: Option<Seq<char>>, b: Option<Seq<char>>) -> bool {
    match (a, b) {
        (None, Some(_)) => true,
        (Some(x), Some(y)) => seq_lt(x, y),
        _ => false,
    }
}

fn opt_text_lt(a: &Option<String>, b: &Option<String>) -> (r: bool)
    ensures
        r == opt_seq_lt(opt_view(*a), opt_view(*b)),
{
    match (a, b) {
        (None, Some(_)) => true,
        (Some(x), Some(y)) => {
            let xs = to_chars(x.as_str());
            let ys = to_chars(y.as_str());
            seq_lt_exec(xs.as_slice(), ys.as_slice())
        },
        _ => false,
    }
}

fn opt_text_eq(a: &Option<String>, b: &Option<String>) -> (r: bool)
    ensures
        r == (opt_view(*a) == opt_view(*b)),
{
    match (a, b) {
        (None, None) => true,
        (Some(x), Some(y)) => {
            let xs = to_chars(x.as_str());
            let ys = to_chars(y.as_str());
            chars_eq(xs.as_slice(), ys.as_slice())
        },
        _ => false,
    }
}

impl SortKey for GradleTask {
    /// By group, then by name.
    open spec fn key_lt(a: GradleTaskView, b: GradleTaskView) -> bool {
        opt_seq_lt(a.group, b.group) || (a.group == b.group && seq_lt(a.name, b.name))
    }

    proof fn lemma_key_lt_trans(a: GradleTaskView, b: GradleTaskView, c: GradleTaskView) {
        if a.group is Some && b.group is Some && c.group is Some {
            let (x, y, z) = (a.group.unwrap(), b.group.unwrap(), c.group.unwrap());
            if seq_lt(x, y) && seq_lt(y, z) {
                lemma_seq_lt_trans(x, y, z);
            }
        }
        if a.group == b.group && b.group == c.group && seq_lt(a.name, b.name) && seq_lt(b.name, c.name) {
            lemma_seq_lt_trans(a.name, b.name, c.name);
        }
    }

    proof fn lemma_key_lt_irrefl(a: GradleTaskView) {
        lemma_seq_lt_irrefl(a.name);
        if a.group is Some {
            lemma_seq_lt_irrefl(a.group.unwrap());
        }
    }

    fn exec_key_lt(&self, other: &Self) -> (r: bool) {
        if opt_text_lt(&self.group, &other.group) {
            true
        } else if opt_text_eq(&self.group, &other.group) {
            let a = to_chars(self.name.as_str());
            let b = to_chars(other.name.as_str());
            seq_lt_exec(a.as_slice(), b.as_slice())
        } else {
            false
        }
    }
}

/// The emoji of every Gradle task (package).
pub open spec fn gradle_emoji() -> Seq<char> {
    "📦"@
}

/// The state of the scan over the lines of `gradle tasks` output.
pub struct GradleScan {
    pub tasks: Seq<GradleTaskView>,
    pub group: Option<Seq<char>>,
    pub stopped: bool,
}

/// The task a trimmed line `name - description` declares, if it has a
/// non-empty name.
pub open spec fn gradle_task_line(t: Seq<char>) -> Option<(Seq<char>, Seq<char>)> {
    let p = find_seq(t, 0, " - "@);
    if p < t.len() && trim(t.subrange(0, p)).len() > 0 {
        Some((trim(t.subrange(0, p)), trim(t.subrange(p + 3, t.len() as int))))
    } else {
        None
    }
}

/// One line of output read into the scan. The line is trimmed; blank lines,
/// rules and the "Tasks runnable from" banner are skipped, "Other tasks"
/// ends the listing, a header `<Group> tasks` starts a group, and
/// `name - description` lines are tasks of the current group.
pub open spec fn gradle_step(st: GradleScan, l: Seq<char>, category: Seq<char>) -> GradleScan {
    let t = trim(l);
    if st.stopped || t.len() == 0 || has_at(t, 0, "------------------------------------------------------------"@) || has_at(t, 0, "Tasks runnable from"@) {
        st
    } else if has_at(t, 0, "Other tasks"@) {
        GradleScan { stopped: true, ..st }
    } else if ends_with(t, " tasks"@) && !occurs_from(t, 0, '-') {
        GradleScan { group: Some(trim(trim_end_matches(t, " tasks"@))), ..st }
    } else if has_at(t, 0, "Build tasks"@) {
        GradleScan { group: Some("Build"@), ..st }
    } else if has_at(t, 0, "-"@) || has_at(t, 0, "Other"@) {
        st
    } else {
        match gradle_task_line(t) {
            Some((name, desc)) => GradleScan {
                tasks: st.tasks.push(
                    GradleTaskView {
                        name: name,
                        display_name: display_name_of(name),
                        category: category,
                        group: st.group,
                        description: desc,
                        emoji: Some(gradle_emoji()),
                        ignored: false,
                    },
                ),
                ..st
            },
            None => st,
        }
    }
}

/// The scan after the first `n` lines.
pub open spec fn gradle_scan(ls: Seq<Seq<char>>, n: int, category: Seq<char>) -> GradleScan
    decreases n,
{
    if n <= 0 || n > ls.len() {
        GradleScan { tasks: Seq::empty(), group: None, stopped: false }
    } else {
        gradle_step(gradle_scan(ls, n - 1, category), ls[n - 1], category)
    }
}

/// The tasks listed in `gradle tasks --all -q` output, in the order listed.
pub open spec fn gradle_tasks(output: Seq<char>, category: Seq<char>) -> Seq<GradleTaskView> {
    gradle_scan(lines(output), lines(output).len() as int, category).tasks
}

fn gradle_task_line_exec(t: &[char]) -> (r: Option<(Vec<char>, Vec<char>)>)
    ensures
        match r {
            Some((n, d)) => gradle_task_line(t@) == Some((n@, d@)),
            None => gradle_task_line(t@) is None,
        },
{
    proof {
        lemma_find_seq(t@, 0, " - "@);
        reveal_strlit(" - ");
    }
    let p = find_lit(t, 0, " - ");
    if p < t.len() {
        let head = slice_to_vec(t, 0, p);
        let name = trim_exec(head.as_slice());
        if name.len() > 0 {
            let tail = slice_to_vec(t, p + 3, t.len());
            let desc = trim_exec(tail.as_slice());
            return Some((name, desc));
        }
    }
    None
}

/// Reads the output of `gradle tasks --all -q` into tasks sorted by group,
/// then by name.
pub fn parse_gradle_tasks_output(output: &str, category: &str) -> (r: Result<Vec<GradleTask>, ParseError>)
    ensures
        r is Ok,
        r matches Ok(v) ==> item_views(v@) == stable_sort::<GradleTask>(gradle_tasks(output@, category@)),
{
    let ls = str_lines(output);
    let ghost lv = views(ls@);
    let mut tasks: Vec<GradleTask> = Vec::new();
    let mut group: Option<String> = None;
    let mut stopped = false;
    let mut i: usize = 0;
    while i < ls.len()
        invariant
            i <= ls@.len(),
            lv == views(ls@),
            lv == lines(output@),
            item_views(tasks@) == gradle_scan(lv, i as int, category@).tasks,
            opt_view(group) == gradle_scan(lv, i as int, category@).group,
            stopped == gradle_scan(lv, i as int, category@).stopped,
        decreases ls.len() - i,
    {
        let t = trim_exec(ls[i].as_slice());
        assert(ls@[i as int]@ == lv[i as int]);
        let ts = t.as_slice();
        if stopped || t.len() == 0 || has_lit(ts, 0, "------------------------------------------------------------") || has_lit(ts, 0, "Tasks runnable from") {
        } else if has_lit(ts, 0, "Other tasks") {
            stopped = true;
        } else if ends_with_lit(ts, " tasks") && find_from_exec(ts, 0, '-') == t.len() {
            proof {
                lemma_find_from(t@, 0, '-');
            }
            let head = trim_end_matches_lit(ts, " tasks");
            let g = trim_exec(head.as_slice());
            group = Some(from_chars(g.as_slice()));
        } else if has_lit(ts, 0, "Build tasks") {
            proof {
                lemma_find_from(t@, 0, '-');
            }
            group = Some(String::from_str("Build"));
        } else if has_lit(ts, 0, "-") || has_lit(ts, 0, "Other") {
            proof {
                lemma_find_from(t@, 0, '-');
            }
        } else {
            proof {
                lemma_find_from(t@, 0, '-');
            }
            match gradle_task_line_exec(ts) {
                Some((n, d)) => {
                    let name = from_chars(n.as_slice());
                    let display_name = format_display_name(name.as_str());
                    let task = GradleTask {
                        name,
                        display_name,
                        category: String::from_str(category),
                        group: clone_opt(&group),
                        description: from_chars(d.as_slice()),
                        emoji: Some(String::from_str("📦")),
                        ignored: false,
                    };
                    let ghost old_tasks = item_views(tasks@);
                    tasks.push(task);
                    assert(item_views(tasks@) =~= old_tasks.push(task@));
                },
                None => {},
            }
        }
        i = i + 1;
    }
    Ok(sort_stable(tasks))
}


/// The scan of the first `k` lines does not look at the lines after them.
proof fn lemma_gradle_scan_prefix(la: Seq<Seq<char>>, rest: Seq<Seq<char>>, k: int, category: Seq<char>)
    requires
        0 <= k <= la.len(),
    ensures
        gradle_scan(la + rest, k, category) == gradle_scan(la, k, category),
    decreases k,
{
    if k > 0 {
        lemma_gradle_scan_prefix(la, rest, k - 1, category);
        assert((la + rest)[k - 1] == la[k - 1]);
    }
}

/// Once the listing has ended, further lines change nothing.
proof fn lemma_gradle_scan_stopped(ls: Seq<Seq<char>>, k: int, m: int, category: Seq<char>)
    requires
        0 <= k <= m <= ls.len(),
        gradle_scan(ls, k, category).stopped,
    ensures
        gradle_scan(ls, m, category) == gradle_scan(ls, k, category),
    decreases m - k,
{
    if k < m {
        lemma_gradle_scan_stopped(ls, k, m - 1, category);
    }
}

/// Nothing after an "Other tasks" header is listed: the tasks read from
/// some lines, that header and any further lines are the tasks read from
/// the lines before the header.
pub proof fn lemma_gradle_other_tasks_ends_listing(
    la: Seq<Seq<char>>,
    l: Seq<char>,
    lb: Seq<Seq<char>>,
    category: Seq<char>,
)
    requires
        has_at(trim(l), 0, "Other tasks"@),
    ensures
        gradle_scan(la + seq![l] + lb, (la + seq![l] + lb).len() as int, category).tasks == gradle_scan(
            la,
            la.len() as int,
            category,
        ).tasks,
{
    let ls = la + seq![l] + lb;
    let k = la.len() as int;
    assert(ls =~= la + (seq![l] + lb));
    lemma_gradle_scan_prefix(la, seq![l] + lb, k, category);
    assert(ls[k] == l);
    let t = trim(l);
    reveal_strlit("Other tasks");
    reveal_strlit("------------------------------------------------------------");
    reveal_strlit("Tasks runnable from");
    assert(t.subrange(0, 11) == "Other tasks"@);
    assert(t[0] == 'O') by {
        assert(t.subrange(0, 11)[0] == t[0]);
    }
    if has_at(t, 0, "------------------------------------------------------------"@) {
        assert(t.subrange(0, 60)[0] == t[0]);
    }
    if has_at(t, 0, "Tasks runnable from"@) {
        assert(t.subrange(0, 19)[0] == t[0]);
    }
    assert(gradle_scan(ls, k + 1, category).stopped);
    assert(gradle_scan(ls, k + 1, category).tasks == gradle_scan(ls, k, category).tasks);
    lemma_gradle_scan_stopped(ls, k + 1, ls.len() as int, category);
}

/// The output of `gradle tasks` read up to an "Other tasks" line gives the
/// same tasks as the output before it: the ungrouped tasks after that
/// header are never listed.
pub proof fn lemma_gradle_tasks_stop_at_other_tasks(a: Seq<char>, b: Seq<char>, category: Seq<char>)
    requires
        a.len() == 0 || a.last() == '\n',
    ensures
        gradle_tasks(a + "Other tasks\n"@ + b, category) == gradle_tasks(a, category),
{
    let h = "Other tasks\n"@;
    let o = "Other tasks"@;
    reveal_strlit("Other tasks\n");
    reveal_strlit("Other tasks");
    assert(a + h + b =~= a + (h + b));
    lemma_lines_append(a, h + b);
    lemma_lines_append(h, b);
    // the header text is one line, "Other tasks"
    assert(next_lf(h, 0) == 11) by {
        assert forall|m: int| 0 <= m < 11 implies #[trigger] h[m] != '\n' by {}
        assert(h[11] == '\n');
        crate::text::lemma_next_lf_at(h, 0, 11);
    }
    assert(h.subrange(0, 11) =~= o);
    assert(strip_cr(o) == o);
    assert(lines_from(h, 12) =~= Seq::<Seq<char>>::empty());
    assert(lines(h) =~= seq![o]);
    // "Other tasks" is its own trimmed text
    lemma_ws_end_at(o, 0, 0);
    assert(rws_start(o, 11) == 11);
    assert(trim(o) =~= o);
    assert(has_at(trim(o), 0, "Other tasks"@)) by {
        assert(trim(o).subrange(0, 11) =~= o);
    }
    let la = lines(a);
    let lb = lines(b);
    assert(lines(a + h + b) == la + seq![o] + lb);
    lemma_gradle_other_tasks_ends_listing(la, o, lb, category);
}

} // verus!
