//! Tasks of a Taskfile: annotations from the YAML comments above each task
//! under `tasks:`, tasks themselves from the output of `task --list-all --json`.
use crate::script::annotations::{
    block_annotations, clone_opt, is_comment, is_comment_exec, opt_view, scan_block, AnnView,
    AnnotationMap, Annotations,
};
use crate::script::error::ParseError;
use crate::script::items::{
    annotated_target, build_target, find_annotations, find_annotations_exec, map_view,
    AnnotatedTarget, TargetView,
};
use crate::sort::{item_views, sort_stable, stable_sort};
use crate::text::{
    from_chars, has_at, has_lit, is_blank, is_blank_exec, is_ident_start, is_ident_start_exec,
    lemma_name_end, lemma_ws_end, lines, name_end, name_end_exec, slice_to_vec, str_lines, views,
    ws_end, ws_end_exec, utf8_bytes, utf8_bytes_exec,
};
use vstd::prelude::*;

verus! {

/// A task for display.
pub type TaskTask = AnnotatedTarget;

/// Annotations found above a task definition.
pub type TaskAnnotations = Annotations;

/// Where a task is defined, as `task --list-all --json` reports it.
#[derive(Debug, Clone)]
pub struct TaskLocation {
    pub line: Option<u64>,
    pub column: Option<u64>,
    pub taskfile: Option<String>,
}

/// One task of `task --list-all --json`.
#[derive(Debug, Clone)]
pub struct TaskInfo {
    pub name: String,
    pub desc: Option<String>,
    pub summary: Option<String>,
    pub up_to_date: Option<bool>,
    pub location: Option<TaskLocation>,
}

/// The output of `task --list-all --json`.
#[derive(Debug, Clone)]
pub struct TaskListOutput {
    pub tasks: Vec<TaskInfo>,
    pub location: Option<String>,
}

/// `^(\s*)([a-zA-Z_][a-zA-Z0-9_-]*):\s*$`: the byte length of the
/// indentation and the task name.
pub open spec fn task_def(l: Seq<char>) -> Option<(int, Seq<char>)> {
    let w = ws_end(l, 0);
    let n = name_end(l, w);
    if w < l.len() && is_ident_start(l[w]) && n < l.len() && l[n] == ':' && is_blank(
        l.subrange(n + 1, l.len() as int),
    ) {
        Some((utf8_bytes(l.subrange(0, w)), l.subrange(w, n)))
    } else {
        None
    }
}

/// `^tasks:\s*$`
pub open spec fn is_tasks_header(l: Seq<char>) -> bool {
    has_at(l, 0, "tasks:"@) && is_blank(l.subrange(6, l.len() as int))
}

/// A line that ends the `tasks:` section: a top-level, non-comment key.
pub open spec fn ends_tasks_section(l: Seq<char>) -> bool {
    !is_blank(l) && !(l.len() > 0 && (l[0] == ' ' || l[0] == '\t')) && !is_comment(l, "#"@)
}

/// The state of the scan over the Taskfile's lines.
pub struct TaskScan {
    pub events: Seq<(Seq<char>, AnnView)>,
    pub in_tasks: bool,
    pub indent: Option<int>,
}

/// The scan after the first `n` lines: task names are keys of the `tasks:`
/// section at the indentation of its first key; those with annotations are
/// recorded in order.
pub open spec fn task_scan(ls: Seq<Seq<char>>, n: int) -> TaskScan
    decreases n,
{
    if n <= 0 || n > ls.len() {
        TaskScan { events: Seq::empty(), in_tasks: false, indent: None }
    } else {
        let st = task_scan(ls, n - 1);
        let l = ls[n - 1];
        if is_tasks_header(l) {
            TaskScan { events: st.events, in_tasks: true, indent: None }
        } else if !st.in_tasks {
            st
        } else if ends_tasks_section(l) {
            TaskScan { events: st.events, in_tasks: false, indent: None }
        } else {
            match task_def(l) {
                Some((ind, name)) => {
                    if st.indent is Some && st.indent.unwrap() != ind {
                        st
                    } else {
                        let a = block_annotations(ls, n - 1, "#"@, false);
                        let events = if a.emoji is Some || a.description is Some || a.ignored {
                            st.events.push((name, a))
                        } else {
                            st.events
                        };
                        TaskScan { events: events, in_tasks: true, indent: Some(ind) }
                    }
                },
                None => st,
            }
        }
    }
}

fn task_def_exec(l: &[char]) -> (r: Option<(u128, Vec<char>)>)
    ensures
        match r {
            Some((ind, name)) => task_def(l@) == Some((ind as int, name@)),
            None => task_def(l@) is None,
        },
{
    proof {
        lemma_ws_end(l@, 0);
    }
    let w = ws_end_exec(l, 0);
    proof {
        lemma_name_end(l@, w as int);
    }
    let n = name_end_exec(l, w);
    if w < l.len() && is_ident_start_exec(l[w]) && n < l.len() && l[n] == ':' {
        let rest = slice_to_vec(l, n + 1, l.len());
        if is_blank_exec(rest.as_slice()) {
            let ind = utf8_bytes_exec(l, w);
            return Some((ind, slice_to_vec(l, w, n)));
        }
    }
    None
}

/// Parses the annotations in the comment lines (and blank lines) above each
/// task of a Taskfile's `tasks:` section.
pub fn parse_taskfile_annotations_from_content(content: &str) -> (r: Result<AnnotationMap, ParseError>)
    ensures
        r is Ok,
        r matches Ok(m) ==> m@ == task_scan(lines(content@), lines(content@).len() as int).events,
{
    let ls = str_lines(content);
    let ghost lv = views(ls@);
    let mut map = AnnotationMap::new();
    let mut in_tasks = false;
    let mut indent: Option<u128> = None;
    let mut i: usize = 0;
    while i < ls.len()
        invariant
            i <= ls@.len(),
            lv == views(ls@),
            lv == lines(content@),
            map@ == task_scan(lv, i as int).events,
            in_tasks == task_scan(lv, i as int).in_tasks,
            task_scan(lv, i as int).indent == match indent {
                Some(x) => Some(x as int),
                None => None::<int>,
            },
        decreases ls.len() - i,
    {
        let l = ls[i].as_slice();
        assert(l@ == lv[i as int]);
        let header = if has_lit(l, 0, "tasks:") {
            proof {
                reveal_strlit("tasks:");
            }
            let rest = slice_to_vec(l, 6, l.len());
            is_blank_exec(rest.as_slice())
        } else {
            false
        };
        if header {
            in_tasks = true;
            indent = None;
        } else if in_tasks {
            let ends = !is_blank_exec(l) && !(l.len() > 0 && (l[0] == ' ' || l[0] == '\t'))
                && !is_comment_exec(l, "#");
            if ends {
                in_tasks = false;
                indent = None;
            } else {
                match task_def_exec(l) {
                    Some((ind, name)) => {
                        let skip = match indent {
                            Some(e) => e != ind,
                            None => false,
                        };
                        if !skip {
                            let a = scan_block(&ls, i, "#", false);
                            if a.emoji.is_some() || a.description.is_some() || a.ignored {
                                map.insert(from_chars(name.as_slice()), a);
                            }
                            indent = Some(ind);
                        }
                    },
                    None => {},
                }
            }
        }
        i = i + 1;
    }
    Ok(map)
}

/// The task built from one entry of the task list: its description is the
/// annotation's, else the task's `desc`, else its `summary`, else
/// `task <name>`.
pub open spec fn task_item(t: TaskInfo, category: Seq<char>, map: Option<Seq<(Seq<char>, AnnView)>>) -> TargetView {
    let fallback = match t.desc {
        Some(d) => d@,
        None => match t.summary {
            Some(s) => s@,
            None => "task "@ + t.name@,
        },
    };
    annotated_target(t.name@, category, find_annotations(map, t.name@), fallback)
}

/// Builds the tasks of a `task --list-all --json` listing, sorted by name,
/// applying the annotations given for each task.
pub fn parse_task_list(output: &TaskListOutput, category: &str, annotations: Option<&AnnotationMap>) -> (r:
    Vec<TaskTask>)
    ensures
        item_views(r@) == stable_sort::<AnnotatedTarget>(
            output.tasks@.map_values(|t: TaskInfo| task_item(t, category@, map_view(annotations))),
        ),
{
    let ghost mv = map_view(annotations);
    let ghost all = output.tasks@.map_values(|t: TaskInfo| task_item(t, category@, mv));
    let mut items: Vec<AnnotatedTarget> = Vec::new();
    let mut i: usize = 0;
    while i < output.tasks.len()
        invariant
            i <= output.tasks@.len(),
            mv == map_view(annotations),
            all == output.tasks@.map_values(|t: TaskInfo| task_item(t, category@, mv)),
            item_views(items@) == all.take(i as int),
        decreases output.tasks.len() - i,
    {
        let info = &output.tasks[i];
        let fallback = match &info.desc {
            Some(d) => d.clone(),
            None => match &info.summary {
                Some(s) => s.clone(),
                None => {
                    let mut d = String::from_str("task ");
                    d.append(info.name.as_str());
                    d
                },
            },
        };
        let ann = find_annotations_exec(annotations, info.name.as_str());
        let item = build_target(info.name.clone(), category, ann, fallback);
        let ghost old_items = item_views(items@);
        items.push(item);
        assert(item_views(items@) =~= all.take(i + 1)) by {
            assert(all[i as int] == task_item(output.tasks@[i as int], category@, mv));
            assert(all.take(i + 1) =~= all.take(i as int).push(all[i as int]));
        }
        i = i + 1;
    }
    assert(all.take(output.tasks@.len() as int) =~= all);
    sort_stable(items)
}

} // verus!
