//! Nx project targets: the targets of each project of an Nx workspace, with
//! one display category per project.
use crate::script::annotations::opt_view;
use crate::script::discovery::{display_name_of, format_display_name};
use crate::sort::{item_views, sort_stable, stable_sort, SortKey};
use crate::text::{
    chars_eq, from_chars, lemma_seq_lt_irrefl, lemma_seq_lt_trans, lines, seq_lt, seq_lt_exec,
    str_lines, string_views, to_chars, trim, trim_exec, views,
};
use vstd::prelude::*;

verus! {

/// What `nx show project <name> --json` reports that is read: the names of
/// the project's targets, when `targets` is an object.
#[derive(Debug, Clone)]
pub struct NxProjectInfo {
    pub targets: Option<Vec<String>>,
}

/// An Nx target for display.
#[derive(Debug, Clone)]
pub struct NxTarget {
    pub name: String,
    pub display_name: String,
    pub category: String,
    pub description: String,
    pub emoji: Option<String>,
    pub ignored: bool,
    pub project: String,
    pub target: String,
}

/// The plain-value form of an [`NxTarget`].
pub struct NxTargetView {
    pub name: Seq<char>,
    pub display_name: Seq<char>,
    pub category: Seq<char>,
    pub description: Seq<char>,
    pub emoji: Option<Seq<char>>,
    pub ignored: bool,
    pub project: Seq<char>,
    pub target: Seq<char>,
}

impl View for NxTarget {
    type V = NxTargetView;

    open spec fn view(&self) -> NxTargetView {
        NxTargetView {
            name: self.name@,
            display_name: self.display_name@,
            category: self.category@,
            description: self.description@,
            emoji: opt_view(self.emoji),
            ignored: self.ignored,
            project: self.project@,
            target: self.target@,
        }
    }
}

impl SortKey for NxTarget {
    /// By project, then by target.
    open spec fn key_lt(a: NxTargetView, b: NxTargetView) -> bool {
        seq_lt(a.project, b.project) || (a.project == b.project && seq_lt(a.target, b.target))
    }

    proof fn lemma_key_lt_trans(a: NxTargetView, b: NxTargetView, c: NxTargetView) {
        if seq_lt(a.project, b.project) && seq_lt(b.project, c.project) {
            lemma_seq_lt_trans(a.project, b.project, c.project);
        }
        if a.project == b.project && b.project == c.project && seq_lt(a.target, b.target) && seq_lt(
            b.target,
            c.target,
        ) {
            lemma_seq_lt_trans(a.target, b.target, c.target);
        }
    }

    proof fn lemma_key_lt_irrefl(a: NxTargetView) {
        lemma_seq_lt_irrefl(a.project);
        lemma_seq_lt_irrefl(a.target);
    }

    fn exec_key_lt(&self, other: &Self) -> (r: bool) {
        let pa = to_chars(self.project.as_str());
        let pb = to_chars(other.project.as_str());
        if seq_lt_exec(pa.as_slice(), pb.as_slice()) {
            true
        } else if chars_eq(pa.as_slice(), pb.as_slice()) {
            let ta = to_chars(self.target.as_str());
            let tb = to_chars(other.target.as_str());
            seq_lt_exec(ta.as_slice(), tb.as_slice())
        } else {
            false
        }
    }
}

/// The category of a project's targets: `nx:<workspace>:<project>`.
pub open spec fn project_category(workspace: Seq<char>, project: Seq<char>) -> Seq<char> {
    "nx:"@ + workspace + ":"@ + project
}

/// The target `target` of project `project`.
pub open spec fn nx_target(project: Seq<char>, target: Seq<char>, workspace: Seq<char>) -> NxTargetView {
    NxTargetView {
        name: project + ":"@ + target,
        display_name: display_name_of(target),
        category: project_category(workspace, project),
        description: "nx run "@ + project + ":"@ + target,
        emoji: Some("🔷"@),
        ignored: false,
        project: project,
        target: target,
    }
}

/// The targets of a project, in the order reported (none without a
/// `targets` object).
pub open spec fn project_targets(info: NxProjectInfo, project: Seq<char>, workspace: Seq<char>) -> Seq<NxTargetView> {
    match info.targets {
        Some(ts) => string_views(ts@).map_values(|t: Seq<char>| nx_target(project, t, workspace)),
        None => Seq::empty(),
    }
}

fn concat3(a: &str, b: &str, c: &str) -> (r: String)
    ensures
        r@ == a@ + b@ + c@,
{
    let mut r = String::from_str(a);
    r.append(b);
    r.append(c);
    r
}

/// The targets of one project, sorted (all share the project, so by target
/// name); each is named `<project>:<target>` and grouped under the category
/// `nx:<workspace>:<project>`.
pub fn parse_project_targets(info: &NxProjectInfo, project: &str, workspace_name: &str) -> (r: Vec<NxTarget>)
    ensures
        item_views(r@) == stable_sort::<NxTarget>(project_targets(*info, project@, workspace_name@)),
{
    let mut targets: Vec<NxTarget> = Vec::new();
    match &info.targets {
        Some(ts) => {
            let mut category = concat3("nx:", workspace_name, ":");
            category.append(project);
            let mut i: usize = 0;
            while i < ts.len()
                invariant
                    i <= ts@.len(),
                    category@ == project_category(workspace_name@, project@),
                    item_views(targets@) == string_views(ts@).take(i as int).map_values(
                        |t: Seq<char>| nx_target(project@, t, workspace_name@),
                    ),
                decreases ts.len() - i,
            {
                let t = ts[i].as_str();
                let mut description = String::from_str("nx run ");
                let q = concat3(project, ":", t);
                description.append(q.as_str());
                assert(description@ =~= "nx run "@ + project@ + ":"@ + t@);
                let target = NxTarget {
                    name: concat3(project, ":", t),
                    display_name: format_display_name(t),
                    category: category.clone(),
                    description,
                    emoji: Some(String::from_str("🔷")),
                    ignored: false,
                    project: String::from_str(project),
                    target: String::from_str(t),
                };
                let ghost before = item_views(targets@);
                targets.push(target);
                assert(item_views(targets@) =~= before.push(nx_target(project@, t@, workspace_name@)));
                assert(string_views(ts@).take(i + 1) =~= string_views(ts@).take(i as int).push(ts@[i as int]@));
                i = i + 1;
            }
            assert(string_views(ts@).take(ts@.len() as int) =~= string_views(ts@));
        },
        None => {
            assert(item_views(targets@) =~= Seq::<NxTargetView>::empty());
        },
    }
    sort_stable(targets)
}

/// The non-blank lines, trimmed, of the first `n` lines.
pub open spec fn listed_projects(ls: Seq<Seq<char>>, n: int) -> Seq<Seq<char>>
    decreases n,
{
    if n <= 0 || n > ls.len() {
        Seq::empty()
    } else if trim(ls[n - 1]).len() > 0 {
        listed_projects(ls, n - 1).push(trim(ls[n - 1]))
    } else {
        listed_projects(ls, n - 1)
    }
}

/// The project names printed by `nx show projects`: its non-blank lines,
/// trimmed.
pub fn parse_project_list(output: &str) -> (r: Vec<String>)
    ensures
        string_views(r@) == listed_projects(lines(output@), lines(output@).len() as int),
{
    let ls = str_lines(output);
    let ghost lv = views(ls@);
    let mut r: Vec<String> = Vec::new();
    let mut i: usize = 0;
    while i < ls.len()
        invariant
            i <= ls@.len(),
            lv == views(ls@),
            lv == lines(output@),
            string_views(r@) == listed_projects(lv, i as int),
        decreases ls.len() - i,
    {
        let t = trim_exec(ls[i].as_slice());
        assert(ls@[i as int]@ == lv[i as int]);
        if t.len() > 0 {
            let ghost before = string_views(r@);
            r.push(from_chars(t.as_slice()));
            assert(string_views(r@) =~= before.push(t@));
        }
        i = i + 1;
    }
    r
}

/// The targets of all projects together, sorted by project, then target.
pub fn sort_workspace_targets(targets: Vec<NxTarget>) -> (r: Vec<NxTarget>)
    ensures
        item_views(r@) == stable_sort::<NxTarget>(item_views(targets@)),
{
    sort_stable(targets)
}

/// Display names of the categories of Nx targets, each category once.
#[derive(Debug, Clone)]
pub struct CategoryNames {
    pub entries: Vec<(String, String)>,
}

/// The pairs of category and display name, as text.
pub open spec fn pair_views(v: Seq<(String, String)>) -> Seq<(Seq<char>, Seq<char>)> {
    v.map_values(|p: (String, String)| (p.0@, p.1@))
}

/// The category is among the first components of the pairs.
pub open spec fn has_key(ps: Seq<(Seq<char>, Seq<char>)>, k: Seq<char>) -> bool {
    exists|i: int| 0 <= i < ps.len() && (#[trigger] ps[i]).0 == k
}

/// For the first `n` targets, each category in order of first appearance
/// with `🔷 ` and the display form of the project of its first target.
pub open spec fn category_names(ts: Seq<NxTargetView>, n: int) -> Seq<(Seq<char>, Seq<char>)>
    decreases n,
{
    if n <= 0 || n > ts.len() {
        Seq::empty()
    } else {
        let prev = category_names(ts, n - 1);
        if has_key(prev, ts[n - 1].category) {
            prev
        } else {
            prev.push((ts[n - 1].category, "🔷 "@ + display_name_of(ts[n - 1].project)))
        }
    }
}

/// The value of the first pair whose key is `k`.
pub open spec fn name_lookup(ps: Seq<(Seq<char>, Seq<char>)>, k: Seq<char>) -> Option<Seq<char>>
    decreases ps.len(),
{
    if ps.len() == 0 {
        None
    } else if ps[0].0 == k {
        Some(ps[0].1)
    } else {
        name_lookup(ps.drop_first(), k)
    }
}

proof fn lemma_name_lookup(ps: Seq<(Seq<char>, Seq<char>)>, k: Seq<char>)
    ensures
        name_lookup(ps, k) is None <==> !has_key(ps, k),
    decreases ps.len(),
{
    if ps.len() > 0 {
        lemma_name_lookup(ps.drop_first(), k);
        if has_key(ps, k) && ps[0].0 != k {
            let i = choose|i: int| 0 <= i < ps.len() && (#[trigger] ps[i]).0 == k;
            assert(ps.drop_first()[i - 1].0 == k);
        }
        if has_key(ps.drop_first(), k) {
            let i = choose|i: int| 0 <= i < ps.drop_first().len() && (#[trigger] ps.drop_first()[i]).0 == k;
            assert(ps[i + 1].0 == k);
        }
    }
}

impl CategoryNames {
    /// The display name recorded for a category (the first one, should a
    /// category be listed twice).
    pub fn get(&self, key: &str) -> (r: Option<&String>)
        ensures
            match r {
                Some(v) => name_lookup(pair_views(self.entries@), key@) == Some(v@),
                None => name_lookup(pair_views(self.entries@), key@) is None && !has_key(
                    pair_views(self.entries@),
                    key@,
                ),
            },
    {
        let ghost ps = pair_views(self.entries@);
        proof {
            lemma_name_lookup(ps, key@);
        }
        let k = to_chars(key);
        let mut i: usize = 0;
        assert(ps.skip(0) =~= ps);
        while i < self.entries.len()
            invariant
                i <= self.entries@.len(),
                k@ == key@,
                ps == pair_views(self.entries@),
                name_lookup(ps, key@) == name_lookup(ps.skip(i as int), key@),
            decreases self.entries.len() - i,
        {
            let c = to_chars(self.entries[i].0.as_str());
            assert(ps.skip(i as int)[0] == ps[i as int]);
            if chars_eq(c.as_slice(), k.as_slice()) {
                return Some(&self.entries[i].1);
            }
            assert(ps.skip(i as int).drop_first() =~= ps.skip(i + 1));
            i = i + 1;
        }
        assert(ps.skip(i as int) =~= Seq::<(Seq<char>, Seq<char>)>::empty());
        None
    }
}

/// The display name of each category of the targets: `🔷 ` and the display
/// form of the project of the category's first target.
pub fn collect_category_display_names(targets: &[NxTarget]) -> (r: CategoryNames)
    ensures
        pair_views(r.entries@) == category_names(item_views(targets@), targets@.len() as int),
{
    let ghost tv = item_views(targets@);
    let mut names = CategoryNames { entries: Vec::new() };
    assert(pair_views(names.entries@) =~= Seq::<(Seq<char>, Seq<char>)>::empty());
    let mut i: usize = 0;
    while i < targets.len()
        invariant
            i <= targets@.len(),
            tv == item_views(targets@),
            pair_views(names.entries@) == category_names(tv, i as int),
        decreases targets.len() - i,
    {
        let t = &targets[i];
        assert(tv[i as int] == t@);
        proof {
            lemma_name_lookup(pair_views(names.entries@), t.category@);
        }
        if names.get(t.category.as_str()).is_none() {
            let mut d = String::from_str("🔷 ");
            let pretty = format_display_name(t.project.as_str());
            d.append(pretty.as_str());
            let ghost before = pair_views(names.entries@);
            names.entries.push((t.category.clone(), d));
            assert(pair_views(names.entries@) =~= before.push((t.category@, d@)));
        }
        i = i + 1;
    }
    names
}

} // verus!
