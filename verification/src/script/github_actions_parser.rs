//! GitHub Actions workflows: the workflow name, trigger events and job ids
//! read from the YAML text of a workflow file, and a short description.
use crate::script::discovery::{display_name_of, format_display_name, WalkEntry};
use crate::sort::{item_views, sort_stable, stable_sort, SortKey};
use crate::script::error::ParseError;
use crate::paths::{extension_of, file_name_of, file_stem_of, path_extension, path_file_name, path_file_stem};
use crate::text::{
    eq_lit, from_chars, has_at, has_lit, is_blank, is_blank_exec, join, join_strings, lines,
    slice_to_vec, split_on, split_on_exec, str_lines, string_views, to_chars, trim, trim_char,
    trim_char_exec, trim_end_char, trim_end_char_exec, trim_exec, trim_start, trim_start_char,
    trim_start_char_exec, trim_start_exec, utf8_bytes, utf8_bytes_exec, views, ws_end,
    ws_end_exec, lemma_ws_end, lemma_seq_lt_irrefl, lemma_seq_lt_trans, seq_lt, seq_lt_exec,
    is_ws, lemma_next_lf_at, lemma_ws_end_at, lines_from, next_lf, rws_start, strip_cr,
    strip_end_of, strip_start_of,
};
use vstd::prelude::*;

verus! {

/// A workflow for display.
#[derive(Debug, Clone)]
pub struct GithubWorkflow {
    /// The file name, such as `build.yml`.
    pub file_name: String,
    /// The top-level `name:` of the workflow, or the file stem without one.
    pub workflow_name: String,
    pub display_name: String,
    pub category: String,
    /// Job ids of the `jobs:` section.
    pub jobs: Vec<String>,
    /// Events of the `on:` field.
    pub triggers: Vec<String>,
    pub description: String,
    pub ignored: bool,
}

/// A value with surrounding whitespace, then double quotes, then single
/// quotes removed.
pub open spec fn unquote(s: Seq<char>) -> Seq<char> {
    trim_char(trim_char(trim(s), '"'), '\'')
}

fn unquote_exec(s: &[char]) -> (r: Vec<char>)
    ensures
        r@ == unquote(s@),
{
    let t = trim_exec(s);
    let a = trim_char_exec(t.as_slice(), '"');
    trim_char_exec(a.as_slice(), '\'')
}

/// The value of a line `name: <value>` at column 0, when it is not empty.
pub open spec fn name_line_value(l: Seq<char>) -> Option<Seq<char>> {
    if has_at(l, 0, "name:"@) && unquote(l.subrange(5, l.len() as int)).len() > 0 {
        Some(unquote(l.subrange(5, l.len() as int)))
    } else {
        None
    }
}

/// The first non-empty top-level `name:` value among the first `n` lines.
pub open spec fn first_name_value(ls: Seq<Seq<char>>, n: int) -> Option<Seq<char>>
    decreases n,
{
    if n <= 0 || n > ls.len() {
        None
    } else {
        match first_name_value(ls, n - 1) {
            Some(v) => Some(v),
            None => name_line_value(ls[n - 1]),
        }
    }
}

/// The top-level `name:` of a workflow.
pub open spec fn workflow_name_of(content: Seq<char>) -> Option<Seq<char>> {
    first_name_value(lines(content), lines(content).len() as int)
}

/// The top-level `name:` value of a workflow: the first line that starts
/// with `name:` and has a non-empty value, quotes removed.
pub fn extract_workflow_name(content: &str) -> (r: Option<String>)
    ensures
        match r {
            Some(s) => workflow_name_of(content@) == Some(s@),
            None => workflow_name_of(content@) is None,
        },
{
    let ls = str_lines(content);
    let ghost lv = views(ls@);
    let mut i: usize = 0;
    while i < ls.len()
        invariant
            i <= ls@.len(),
            lv == views(ls@),
            lv == lines(content@),
            first_name_value(lv, i as int) is None,
        decreases ls.len() - i,
    {
        let l = ls[i].as_slice();
        assert(l@ == lv[i as int]);
        if has_lit(l, 0, "name:") {
            proof {
                reveal_strlit("name:");
            }
            let rest = slice_to_vec(l, 5, l.len());
            let v = unquote_exec(rest.as_slice());
            if v.len() > 0 {
                proof {
                    lemma_first_found(lv, i as int + 1, lv.len() as int);
                }
                return Some(from_chars(v.as_slice()));
            }
        }
        i = i + 1;
    }
    None
}

proof fn lemma_first_found(ls: Seq<Seq<char>>, k: int, n: int)
    requires
        0 < k <= n <= ls.len(),
        first_name_value(ls, k) is Some,
    ensures
        first_name_value(ls, n) == first_name_value(ls, k),
    decreases n - k,
{
    if n > k {
        lemma_first_found(ls, k, n - 1);
    }
}

/// The events of an inline list `[a, b]`: the pieces between commas,
/// unquoted, the empty ones left out.
pub open spec fn list_events(parts: Seq<Seq<char>>) -> Seq<Seq<char>>
    decreases parts.len(),
{
    if parts.len() == 0 {
        Seq::empty()
    } else if unquote(parts.last()).len() > 0 {
        list_events(parts.drop_last()).push(unquote(parts.last()))
    } else {
        list_events(parts.drop_last())
    }
}

/// The state of the scan over a workflow's lines for `on:` events.
pub struct TriggerScan {
    pub triggers: Seq<Seq<char>>,
    pub in_on: bool,
    pub indent: Option<int>,
}

/// The events a value written after `on:` on the same line gives.
pub open spec fn inline_events(inline: Seq<char>) -> Seq<Seq<char>> {
    if has_at(inline, 0, "["@) {
        list_events(split_on(trim_end_char(trim_start_char(inline, '['), ']'), ','))
    } else if unquote(inline).len() > 0 {
        seq![unquote(inline)]
    } else {
        Seq::empty()
    }
}

/// The key of an indented `key:` line: leading whitespace and trailing
/// colons removed, then trimmed.
pub open spec fn block_key(l: Seq<char>) -> Seq<char> {
    trim(trim_end_char(trim_start(l), ':'))
}

/// A key that is kept: not empty and not a comment.
pub open spec fn is_key(k: Seq<char>) -> bool {
    k.len() > 0 && !has_at(k, 0, "#"@)
}

/// The line starts with a space or a tab.
pub open spec fn is_indented(l: Seq<char>) -> bool {
    has_at(l, 0, " "@) || has_at(l, 0, "\t"@)
}

/// One line read into the trigger scan. `on:` starts the section (and an
/// inline value there ends it at once); inside the section a top-level line
/// ends it, and indented keys at the indentation of the first indented line
/// are events.
pub open spec fn trigger_step(st: TriggerScan, l: Seq<char>) -> TriggerScan {
    if has_at(l, 0, "on:"@) {
        let inline = trim(l.subrange(3, l.len() as int));
        if inline.len() == 0 {
            TriggerScan { triggers: st.triggers, in_on: true, indent: None }
        } else {
            TriggerScan { triggers: st.triggers + inline_events(inline), in_on: false, indent: None }
        }
    } else if !st.in_on {
        st
    } else if !is_indented(l) && !is_blank(l) {
        TriggerScan { triggers: st.triggers, in_on: false, indent: None }
    } else {
        let leading = utf8_bytes(l.subrange(0, ws_end(l, 0)));
        if leading == 0 {
            st
        } else {
            let indent = match st.indent {
                Some(i) => i,
                None => leading,
            };
            let k = block_key(l);
            TriggerScan {
                triggers: if leading == indent && is_key(k) {
                    st.triggers.push(k)
                } else {
                    st.triggers
                },
                in_on: true,
                indent: Some(indent),
            }
        }
    }
}

pub open spec fn trigger_scan(ls: Seq<Seq<char>>, n: int) -> TriggerScan
    decreases n,
{
    if n <= 0 || n > ls.len() {
        TriggerScan { triggers: Seq::empty(), in_on: false, indent: None }
    } else {
        trigger_step(trigger_scan(ls, n - 1), ls[n - 1])
    }
}

/// The trigger events of a workflow, in the order written.
pub open spec fn triggers_of(content: Seq<char>) -> Seq<Seq<char>> {
    trigger_scan(lines(content), lines(content).len() as int).triggers
}

fn push_all(v: &mut Vec<String>, items: Vec<Vec<char>>)
    ensures
        string_views(final(v)@) == string_views(old(v)@) + views(items@),
{
    let mut i: usize = 0;
    while i < items.len()
        invariant
            i <= items@.len(),
            string_views(v@) == string_views(old(v)@) + views(items@).take(i as int),
        decreases items.len() - i,
    {
        let ghost before = string_views(v@);
        v.push(from_chars(items[i].as_slice()));
        assert(string_views(v@) =~= before.push(items@[i as int]@));
        assert(views(items@).take(i + 1) =~= views(items@).take(i as int).push(items@[i as int]@));
        i = i + 1;
    }
    assert(views(items@).take(items@.len() as int) =~= views(items@));
}

fn inline_events_exec(inline: &[char]) -> (r: Vec<Vec<char>>)
    ensures
        views(r@) == inline_events(inline@),
{
    let mut r: Vec<Vec<char>> = Vec::new();
    if has_lit(inline, 0, "[") {
        let a = trim_start_char_exec(inline, '[');
        let inner = trim_end_char_exec(a.as_slice(), ']');
        let parts = split_on_exec(inner.as_slice(), ',');
        let ghost pv = views(parts@);
        let mut i: usize = 0;
        while i < parts.len()
            invariant
                i <= parts@.len(),
                pv == views(parts@),
                views(r@) == list_events(pv.take(i as int)),
            decreases parts.len() - i,
        {
            let t = unquote_exec(parts[i].as_slice());
            assert(pv.take(i + 1).drop_last() =~= pv.take(i as int));
            if t.len() > 0 {
                let ghost before = views(r@);
                r.push(t);
                assert(views(r@) =~= before.push(t@));
            }
            i = i + 1;
        }
        assert(pv.take(parts@.len() as int) =~= pv);
    } else {
        let t = unquote_exec(inline);
        if t.len() > 0 {
            r.push(t);
            assert(views(r@) =~= seq![t@]);
        }
    }
    r
}

/// The trigger events of a workflow's `on:` field, whether written inline
/// (`on: push`), as an inline list (`on: [push, pull_request]`) or as a
/// block of keys.
pub fn extract_triggers(content: &str) -> (r: Vec<String>)
    ensures
        string_views(r@) == triggers_of(content@),
{
    let ls = str_lines(content);
    let ghost lv = views(ls@);
    let mut triggers: Vec<String> = Vec::new();
    let mut in_on = false;
    let mut indent: Option<u128> = None;
    let mut i: usize = 0;
    while i < ls.len()
        invariant
            i <= ls@.len(),
            lv == views(ls@),
            lv == lines(content@),
            string_views(triggers@) == trigger_scan(lv, i as int).triggers,
            in_on == trigger_scan(lv, i as int).in_on,
            match indent {
                Some(k) => trigger_scan(lv, i as int).indent == Some(k as int),
                None => trigger_scan(lv, i as int).indent is None,
            },
        decreases ls.len() - i,
    {
        let l = ls[i].as_slice();
        assert(l@ == lv[i as int]);
        if has_lit(l, 0, "on:") {
            proof {
                reveal_strlit("on:");
            }
            let rest = slice_to_vec(l, 3, l.len());
            let inline = trim_exec(rest.as_slice());
            indent = None;
            if inline.len() == 0 {
                in_on = true;
            } else {
                let evs = inline_events_exec(inline.as_slice());
                push_all(&mut triggers, evs);
                in_on = false;
            }
        } else if !in_on {
        } else if !has_lit(l, 0, " ") && !has_lit(l, 0, "\t") && !is_blank_exec(l) {
            in_on = false;
            indent = None;
        } else {
            proof {
                lemma_ws_end(l@, 0);
            }
            let w = ws_end_exec(l, 0);
            let leading = utf8_bytes_exec(l, w);
            if leading != 0 {
                let ind = match indent {
                    Some(k) => k,
                    None => leading,
                };
                indent = Some(ind);
                if leading == ind {
                    let a = trim_start_exec(l);
                    let b = trim_end_char_exec(a.as_slice(), ':');
                    let k = trim_exec(b.as_slice());
                    if k.len() > 0 && !has_lit(k.as_slice(), 0, "#") {
                        let ghost before = string_views(triggers@);
                        triggers.push(from_chars(k.as_slice()));
                        assert(string_views(triggers@) =~= before.push(k@));
                    }
                }
            }
        }
        i = i + 1;
    }
    triggers
}

/// The state of the scan for job ids.
pub struct JobScan {
    pub jobs: Seq<Seq<char>>,
    pub in_jobs: bool,
}

/// One line read into the job scan: `jobs:` starts the section; inside it,
/// keys indented by exactly two spaces are job ids, and a top-level line
/// ends it.
pub open spec fn job_step(st: JobScan, l: Seq<char>) -> JobScan {
    if has_at(l, 0, "jobs:"@) {
        JobScan { jobs: st.jobs, in_jobs: true }
    } else if !st.in_jobs {
        st
    } else if has_at(l, 0, "  "@) && !has_at(l, 0, "   "@) {
        JobScan {
            jobs: if is_key(block_key(l)) {
                st.jobs.push(block_key(l))
            } else {
                st.jobs
            },
            in_jobs: true,
        }
    } else if !is_indented(l) && !is_blank(l) {
        JobScan { jobs: st.jobs, in_jobs: false }
    } else {
        st
    }
}

pub open spec fn job_scan(ls: Seq<Seq<char>>, n: int) -> JobScan
    decreases n,
{
    if n <= 0 || n > ls.len() {
        JobScan { jobs: Seq::empty(), in_jobs: false }
    } else {
        job_step(job_scan(ls, n - 1), ls[n - 1])
    }
}

/// The job ids of a workflow, in the order written.
pub open spec fn jobs_of(content: Seq<char>) -> Seq<Seq<char>> {
    job_scan(lines(content), lines(content).len() as int).jobs
}

/// The job ids of a workflow's `jobs:` section.
pub fn extract_jobs(content: &str) -> (r: Vec<String>)
    ensures
        string_views(r@) == jobs_of(content@),
{
    let ls = str_lines(content);
    let ghost lv = views(ls@);
    let mut jobs: Vec<String> = Vec::new();
    let mut in_jobs = false;
    let mut i: usize = 0;
    while i < ls.len()
        invariant
            i <= ls@.len(),
            lv == views(ls@),
            lv == lines(content@),
            string_views(jobs@) == job_scan(lv, i as int).jobs,
            in_jobs == job_scan(lv, i as int).in_jobs,
        decreases ls.len() - i,
    {
        let l = ls[i].as_slice();
        assert(l@ == lv[i as int]);
        if has_lit(l, 0, "jobs:") {
            in_jobs = true;
        } else if !in_jobs {
        } else if has_lit(l, 0, "  ") && !has_lit(l, 0, "   ") {
            let a = trim_start_exec(l);
            let b = trim_end_char_exec(a.as_slice(), ':');
            let k = trim_exec(b.as_slice());
            if k.len() > 0 && !has_lit(k.as_slice(), 0, "#") {
                let ghost before = string_views(jobs@);
                jobs.push(from_chars(k.as_slice()));
                assert(string_views(jobs@) =~= before.push(k@));
            }
        } else if !has_lit(l, 0, " ") && !has_lit(l, 0, "\t") && !is_blank_exec(l) {
            in_jobs = false;
        }
        i = i + 1;
    }
    jobs
}

/// `on: <triggers>` and `jobs: <jobs>` (each only when there are some),
/// joined by ` | `; without either, "GitHub Actions workflow".
pub open spec fn description_of(triggers: Seq<Seq<char>>, jobs: Seq<Seq<char>>) -> Seq<char> {
    let a: Seq<Seq<char>> = if triggers.len() > 0 {
        seq!["on: "@ + join(triggers, ", "@)]
    } else {
        Seq::empty()
    };
    let parts = if jobs.len() > 0 {
        a.push("jobs: "@ + join(jobs, ", "@))
    } else {
        a
    };
    if parts.len() == 0 {
        "GitHub Actions workflow"@
    } else {
        join(parts, " | "@)
    }
}

/// A one-line summary of a workflow's triggers and jobs.
pub fn build_description(triggers: &[String], jobs: &[String]) -> (r: String)
    ensures
        r@ == description_of(string_views(triggers@), string_views(jobs@)),
{
    let mut parts: Vec<String> = Vec::new();
    if triggers.len() > 0 {
        let mut p = String::from_str("on: ");
        let j = join_strings(triggers, ", ");
        p.append(j.as_str());
        parts.push(p);
    }
    if jobs.len() > 0 {
        let mut p = String::from_str("jobs: ");
        let j = join_strings(jobs, ", ");
        p.append(j.as_str());
        parts.push(p);
    }
    if parts.len() == 0 {
        String::from_str("GitHub Actions workflow")
    } else {
        let r = join_strings(parts.as_slice(), " | ");
        proof {
            let a: Seq<Seq<char>> = if triggers@.len() > 0 {
                seq!["on: "@ + join(string_views(triggers@), ", "@)]
            } else {
                Seq::empty()
            };
            let ps = if jobs@.len() > 0 {
                a.push("jobs: "@ + join(string_views(jobs@), ", "@))
            } else {
                a
            };
            assert(string_views(parts@) =~= ps);
        }
        r
    }
}

/// The event handed to `act`: `workflow_dispatch`, else `push`, else
/// `pull_request`, when among the triggers; else the first
/// trigger; none without triggers.
pub open spec fn act_event_of(triggers: Seq<Seq<char>>) -> Option<Seq<char>> {
    if triggers.len() == 0 {
        None
    } else if triggers.contains("workflow_dispatch"@) {
        Some("workflow_dispatch"@)
    } else if triggers.contains("push"@) {
        Some("push"@)
    } else if triggers.contains("pull_request"@) {
        Some("pull_request"@)
    } else {
        Some(triggers[0])
    }
}

fn contains_text(v: &Vec<String>, lit: &str) -> (r: bool)
    ensures
        r == string_views(v@).contains(lit@),
{
    let mut i: usize = 0;
    while i < v.len()
        invariant
            i <= v@.len(),
            forall|k: int| 0 <= k < i ==> string_views(v@)[k] != lit@,
        decreases v.len() - i,
    {
        let c = to_chars(v[i].as_str());
        if eq_lit(c.as_slice(), lit) {
            assert(string_views(v@)[i as int] == lit@);
            return true;
        }
        i = i + 1;
    }
    false
}

/// The event to run a workflow with under `act`, from the workflow's text
/// (none when the text could not be read or names no trigger).
pub fn select_act_event(content: Option<&str>) -> (r: Option<String>)
    ensures
        match content {
            None => r is None,
            Some(c) => match r {
                Some(e) => act_event_of(triggers_of(c@)) == Some(e@),
                None => act_event_of(triggers_of(c@)) is None,
            },
        },
{
    let c = match content {
        Some(c) => c,
        None => {
            return None;
        },
    };
    let triggers = extract_triggers(c);
    if triggers.len() == 0 {
        return None;
    }
    if contains_text(&triggers, "workflow_dispatch") {
        return Some(String::from_str("workflow_dispatch"));
    }
    if contains_text(&triggers, "push") {
        return Some(String::from_str("push"));
    }
    if contains_text(&triggers, "pull_request") {
        return Some(String::from_str("pull_request"));
    }
    Some(triggers[0].clone())
}

/// `w` is the workflow read from the file at `path` holding `content`:
/// named by the file's top-level `name:`, else its stem (else its file
/// name), with the triggers, jobs and description of its text.
pub open spec fn is_workflow_of(w: GithubWorkflow, path: Seq<char>, content: Seq<char>, category: Seq<char>) -> bool {
    &&& file_name_of(path) == Some(w.file_name@)
    &&& w.workflow_name@ == match workflow_name_of(content) {
        Some(n) => n,
        None => match file_stem_of(path) {
            Some(stem) => stem,
            None => w.file_name@,
        },
    }
    &&& w.display_name@ == "🐙 "@ + display_name_of(w.workflow_name@)
    &&& w.category@ == category
    &&& string_views(w.jobs@) == jobs_of(content)
    &&& string_views(w.triggers@) == triggers_of(content)
    &&& w.description@ == description_of(triggers_of(content), jobs_of(content))
    &&& !w.ignored
}

/// Reads a workflow from its path and text: the file name must be readable;
/// the workflow's name is its top-level `name:`, else the file stem (else
/// the file name).
pub fn parse_workflow_file(path: &str, content: &str, category: &str) -> (r: Result<GithubWorkflow, ParseError>)
    ensures
        match r {
            Ok(w) => file_name_of(path@) is Some && is_workflow_of(w, path@, content@, category@),
            Err(e) => file_name_of(path@) is None && e.message@ == "Invalid filename: "@ + path@,
        },
{
    let file_name = match path_file_name(path) {
        Some(n) => n,
        None => {
            let mut m = String::from_str("Invalid filename: ");
            m.append(path);
            return Err(ParseError { message: m });
        },
    };
    let workflow_name = match extract_workflow_name(content) {
        Some(n) => n,
        None => match path_file_stem(path) {
            Some(stem) => stem,
            None => file_name.clone(),
        },
    };
    let triggers = extract_triggers(content);
    let jobs = extract_jobs(content);
    let mut display_name = String::from_str("🐙 ");
    let pretty = format_display_name(workflow_name.as_str());
    display_name.append(pretty.as_str());
    let description = build_description(triggers.as_slice(), jobs.as_slice());
    Ok(GithubWorkflow {
        file_name,
        workflow_name,
        display_name,
        category: String::from_str(category),
        jobs,
        triggers,
        description,
        ignored: false,
    })
}

/// A file of a workflows directory and its file name.
#[derive(Debug, Clone)]
pub struct WorkflowFile {
    pub file_name: String,
    pub path: String,
}

/// The plain-value form of a [`WorkflowFile`].
pub struct WorkflowFileView {
    pub file_name: Seq<char>,
    pub path: Seq<char>,
}

impl View for WorkflowFile {
    type V = WorkflowFileView;

    open spec fn view(&self) -> WorkflowFileView {
        WorkflowFileView { file_name: self.file_name@, path: self.path@ }
    }
}

impl SortKey for WorkflowFile {
    /// By file name.
    open spec fn key_lt(a: WorkflowFileView, b: WorkflowFileView) -> bool {
        seq_lt(a.file_name, b.file_name)
    }

    proof fn lemma_key_lt_trans(a: WorkflowFileView, b: WorkflowFileView, c: WorkflowFileView) {
        lemma_seq_lt_trans(a.file_name, b.file_name, c.file_name);
    }

    proof fn lemma_key_lt_irrefl(a: WorkflowFileView) {
        lemma_seq_lt_irrefl(a.file_name);
    }

    fn exec_key_lt(&self, other: &Self) -> (r: bool) {
        let a = to_chars(self.file_name.as_str());
        let b = to_chars(other.file_name.as_str());
        seq_lt_exec(a.as_slice(), b.as_slice())
    }
}

/// An entry of a workflows directory holds a workflow: a file whose
/// extension is `yml` or `yaml`.
pub open spec fn is_workflow_entry(e: WalkEntry) -> bool {
    e.is_file && (extension_of(e.path@) == Some("yml"@) || extension_of(e.path@) == Some("yaml"@))
}

/// A workflow entry with its file name.
pub open spec fn workflow_file_of(e: WalkEntry) -> WorkflowFileView {
    WorkflowFileView {
        file_name: match file_name_of(e.path@) {
            Some(n) => n,
            None => Seq::empty(),
        },
        path: e.path@,
    }
}

/// The workflow files among the first `n` entries, in order.
pub open spec fn workflow_entries(es: Seq<WalkEntry>, n: int) -> Seq<WorkflowFileView>
    decreases n,
{
    if n <= 0 || n > es.len() {
        Seq::empty()
    } else if is_workflow_entry(es[n - 1]) {
        workflow_entries(es, n - 1).push(workflow_file_of(es[n - 1]))
    } else {
        workflow_entries(es, n - 1)
    }
}

/// The workflow files among the entries of a workflows directory, sorted
/// by file name.
pub fn workflow_files(entries: &[WalkEntry]) -> (r: Vec<WorkflowFile>)
    ensures
        item_views(r@) == stable_sort::<WorkflowFile>(workflow_entries(entries@, entries@.len() as int)),
{
    let mut found: Vec<WorkflowFile> = Vec::new();
    let mut i: usize = 0;
    while i < entries.len()
        invariant
            i <= entries@.len(),
            item_views(found@) == workflow_entries(entries@, i as int),
        decreases entries.len() - i,
    {
        let e = &entries[i];
        if e.is_file {
            let ext = path_extension(e.path.as_str());
            let wanted = match &ext {
                Some(x) => {
                    let c = to_chars(x.as_str());
                    eq_lit(c.as_slice(), "yml") || eq_lit(c.as_slice(), "yaml")
                },
                None => false,
            };
            proof {
                reveal_strlit("yml");
                reveal_strlit("yaml");
            }
            if wanted {
                let file_name = match path_file_name(e.path.as_str()) {
                    Some(n) => n,
                    None => String::new(),
                };
                let ghost before = item_views(found@);
                found.push(WorkflowFile { file_name, path: e.path.clone() });
                assert(item_views(found@) =~= before.push(workflow_file_of(entries@[i as int])));
            }
        }
        i = i + 1;
    }
    sort_stable(found)
}

/// The first of the files (path, text) without a readable file name.
pub open spec fn first_unnamed(files: Seq<(String, String)>, i: int) -> int
    decreases files.len() - i,
{
    if 0 <= i < files.len() && file_name_of(files[i].0@) is Some {
        first_unnamed(files, i + 1)
    } else {
        i
    }
}

proof fn lemma_first_unnamed(files: Seq<(String, String)>, i: int)
    requires
        0 <= i <= files.len(),
    ensures
        i <= first_unnamed(files, i) <= files.len(),
        forall|k: int| i <= k < first_unnamed(files, i) ==> file_name_of(#[trigger] files[k].0@) is Some,
        first_unnamed(files, i) < files.len() ==> file_name_of(files[first_unnamed(files, i)].0@) is None,
    decreases files.len() - i,
{
    if i < files.len() && file_name_of(files[i].0@) is Some {
        lemma_first_unnamed(files, i + 1);
    }
}

/// The workflows of a workflows directory, given whether it exists and the
/// path and text of each of its workflow files: none when it does not
/// exist, else one per file in order; a file without a readable name is an
/// error.
pub fn list_workflows(dir_exists: bool, files: &[(String, String)], category: &str) -> (r: Result<
    Vec<GithubWorkflow>,
    ParseError,
>)
    ensures
        !dir_exists ==> (r matches Ok(v) && v@.len() == 0),
        dir_exists ==> match r {
            Ok(v) => {
                &&& first_unnamed(files@, 0) == files@.len()
                &&& v@.len() == files@.len()
                &&& forall|k: int|
                    0 <= k < v@.len() ==> is_workflow_of(
                        #[trigger] v@[k],
                        files@[k].0@,
                        files@[k].1@,
                        category@,
                    )
            },
            Err(e) => {
                &&& first_unnamed(files@, 0) < files@.len()
                &&& e.message@ == "Invalid filename: "@ + files@[first_unnamed(files@, 0)].0@
            },
        },
{
    let mut workflows: Vec<GithubWorkflow> = Vec::new();
    if !dir_exists {
        return Ok(workflows);
    }
    proof {
        lemma_first_unnamed(files@, 0);
    }
    let mut i: usize = 0;
    while i < files.len()
        invariant
            dir_exists,
            i <= files@.len(),
            workflows@.len() == i,
            forall|k: int| 0 <= k < i ==> file_name_of(#[trigger] files@[k].0@) is Some,
            forall|k: int|
                0 <= k < i ==> is_workflow_of(#[trigger] workflows@[k], files@[k].0@, files@[k].1@, category@),
            i <= first_unnamed(files@, 0) <= files@.len(),
            forall|k: int| 0 <= k < first_unnamed(files@, 0) ==> file_name_of(#[trigger] files@[k].0@) is Some,
            first_unnamed(files@, 0) < files@.len() ==> file_name_of(files@[first_unnamed(files@, 0)].0@) is None,
        decreases files.len() - i,
    {
        match parse_workflow_file(files[i].0.as_str(), files[i].1.as_str(), category) {
            Ok(w) => {
                workflows.push(w);
            },
            Err(e) => {
                return Err(e);
            },
        }
        i = i + 1;
    }
    Ok(workflows)
}


/// A plain value: not empty, on one line, without quotes, and without
/// whitespace at either end.
pub open spec fn is_plain_value(v: Seq<char>) -> bool {
    &&& v.len() > 0
    &&& !is_ws(v[0])
    &&& !is_ws(v.last())
    &&& forall|k: int| 0 <= k < v.len() ==> #[trigger] v[k] != '\n' && v[k] != '"' && v[k] != '\''
}

/// Removing a character that does not occur changes nothing.
proof fn lemma_trim_char_absent(v: Seq<char>, c: char)
    requires
        forall|k: int| 0 <= k < v.len() ==> #[trigger] v[k] != c,
    ensures
        trim_char(v, c) == v,
{
    assert(strip_start_of(v, c, 0) == 0);
    assert(v.subrange(0, v.len() as int) =~= v);
    assert(strip_end_of(v, c, v.len() as int) == v.len());
    assert(v.subrange(0, v.len() as int) =~= v);
}

/// Removing `c` from a text wrapped in one `c` on each side gives the text.
proof fn lemma_trim_char_wrapped(v: Seq<char>, c: char)
    requires
        v.len() > 0,
        forall|k: int| 0 <= k < v.len() ==> #[trigger] v[k] != c,
    ensures
        trim_char(seq![c] + v + seq![c], c) == v,
{
    let m = seq![c] + v + seq![c];
    assert(m[1] == v[0]);
    assert(strip_start_of(m, c, 1) == 1);
    assert(strip_start_of(m, c, 0) == 1);
    let x = m.subrange(1, m.len() as int);
    assert(x =~= v + seq![c]);
    assert(x[x.len() - 2] == v.last());
    assert(strip_end_of(x, c, x.len() - 1) == x.len() - 1);
    assert(strip_end_of(x, c, x.len() as int) == x.len() - 1);
    assert(x.subrange(0, x.len() - 1) =~= v);
}

/// A space before a text that neither starts nor ends with whitespace is
/// trimmed away, and nothing else is.
proof fn lemma_trim_space_before(m: Seq<char>)
    requires
        m.len() > 0,
        !is_ws(m[0]),
        !is_ws(m.last()),
    ensures
        trim(seq![' '] + m) == m,
{
    let s = seq![' '] + m;
    assert(s[1] == m[0]);
    lemma_ws_end_at(s, 0, 1);
    assert(s[s.len() - 1] == m.last());
    assert(rws_start(s, s.len() as int) == s.len());
    assert(s.subrange(1, s.len() as int) =~= m);
}

/// The one line of a text without line feeds that does not end with a
/// carriage return is the text itself.
proof fn lemma_single_line(c: Seq<char>)
    requires
        c.len() > 0,
        c.last() != '\r',
        forall|k: int| 0 <= k < c.len() ==> #[trigger] c[k] != '\n',
    ensures
        lines(c) == seq![c],
{
    lemma_next_lf_at(c, 0, c.len() as int);
    assert(c.subrange(0, c.len() as int) =~= c);
}

/// The workflow name read from the one-line text `name: <m>`.
proof fn lemma_name_line(m: Seq<char>)
    requires
        m.len() > 0,
        m.last() != '\r',
        forall|k: int| 0 <= k < m.len() ==> #[trigger] m[k] != '\n',
    ensures
        workflow_name_of("name: "@ + m) == name_line_value("name: "@ + m),
        ("name: "@ + m).subrange(5, ("name: "@ + m).len() as int) == seq![' '] + m,
        has_at("name: "@ + m, 0, "name:"@),
{
    reveal_strlit("name: ");
    reveal_strlit("name:");
    let c = "name: "@ + m;
    assert forall|k: int| 0 <= k < c.len() implies #[trigger] c[k] != '\n' by {
        if k >= 6 {
            assert(c[k] == m[k - 6]);
        }
    }
    assert(c.last() == m.last());
    lemma_single_line(c);
    assert(first_name_value(seq![c], 0) is None);
    assert(c.subrange(0, 5) =~= "name:"@);
    assert(c.subrange(5, c.len() as int) =~= seq![' '] + m);
}

/// Quoting a workflow name, in single or double quotes, does not change it:
/// `name: '<v>'`, `name: "<v>"` and `name: <v>` all name the workflow `<v>`.
pub proof fn lemma_workflow_name_unquoted(v: Seq<char>)
    requires
        is_plain_value(v),
    ensures
        workflow_name_of("name: '"@ + v + "'"@) == Some(v),
        workflow_name_of("name: \""@ + v + "\""@) == Some(v),
        workflow_name_of("name: "@ + v) == Some(v),
{
    reveal_strlit("name: '");
    reveal_strlit("'");
    reveal_strlit("name: \"");
    reveal_strlit("\"");
    reveal_strlit("name: ");
    assert forall|k: int| 0 <= k < v.len() implies #[trigger] v[k] != '"' by {}
    assert forall|k: int| 0 <= k < v.len() implies #[trigger] v[k] != '\'' by {}
    // single quotes
    let ms = seq!['\''] + v + seq!['\''];
    assert("name: '"@ + v + "'"@ =~= "name: "@ + ms);
    assert forall|k: int| 0 <= k < ms.len() implies #[trigger] ms[k] != '\n' by {
        if 0 < k < ms.len() - 1 {
            assert(ms[k] == v[k - 1]);
        }
    }
    lemma_name_line(ms);
    lemma_trim_space_before(ms);
    assert forall|k: int| 0 <= k < ms.len() implies #[trigger] ms[k] != '"' by {
        if 0 < k < ms.len() - 1 {
            assert(ms[k] == v[k - 1]);
        }
    }
    lemma_trim_char_absent(ms, '"');
    lemma_trim_char_wrapped(v, '\'');
    assert(unquote(seq![' '] + ms) == v);
    // double quotes
    let md = seq!['"'] + v + seq!['"'];
    assert("name: \""@ + v + "\""@ =~= "name: "@ + md);
    assert forall|k: int| 0 <= k < md.len() implies #[trigger] md[k] != '\n' by {
        if 0 < k < md.len() - 1 {
            assert(md[k] == v[k - 1]);
        }
    }
    lemma_name_line(md);
    lemma_trim_space_before(md);
    lemma_trim_char_wrapped(v, '"');
    lemma_trim_char_absent(v, '\'');
    assert(unquote(seq![' '] + md) == v);
    // no quotes
    lemma_name_line(v);
    lemma_trim_space_before(v);
    lemma_trim_char_absent(v, '"');
    lemma_trim_char_absent(v, '\'');
    assert(unquote(seq![' '] + v) == v);
}

} // verus!
