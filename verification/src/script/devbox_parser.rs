//! Devbox scripts: the `shell.scripts` of a `devbox.json`, as runnable items.
use crate::script::discovery::{display_name_of, format_display_name};
use crate::script::items::{command_preview, cuts_at_char_boundary, is_previewable, preview_description};
use crate::sort::{item_views, sort_stable, stable_sort, SortKey};
use crate::text::{
    join, join_strings, lemma_seq_lt_irrefl, lemma_seq_lt_trans, seq_lt, seq_lt_exec, string_views,
    to_chars,
};
use vstd::prelude::*;

verus! {

/// A script's value in `devbox.json`: one command or a list of commands.
#[derive(Debug, Clone)]
pub enum ScriptValue {
    Single(String),
    Multiple(Vec<String>),
}

/// The commands a script value stands for.
pub open spec fn commands_of(v: ScriptValue) -> Seq<Seq<char>> {
    match v {
        ScriptValue::Single(c) => seq![c@],
        ScriptValue::Multiple(cs) => string_views(cs@),
    }
}

fn clone_strings(v: &Vec<String>) -> (r: Vec<String>)
    ensures
        string_views(r@) == string_views(v@),
{
    let mut r: Vec<String> = Vec::new();
    let mut i: usize = 0;
    while i < v.len()
        invariant
            i <= v@.len(),
            string_views(r@) == string_views(v@).take(i as int),
        decreases v.len() - i,
    {
        let ghost before = string_views(r@);
        r.push(v[i].clone());
        assert(string_views(r@) =~= before.push(v@[i as int]@));
        assert(string_views(v@).take(i + 1) =~= string_views(v@).take(i as int).push(v@[i as int]@));
        i = i + 1;
    }
    assert(string_views(v@).take(v@.len() as int) =~= string_views(v@));
    r
}

impl ScriptValue {
    /// The commands as a list: the single command alone, or the list itself.
    pub fn to_commands(&self) -> (r: Vec<String>)
        ensures
            string_views(r@) == commands_of(*self),
    {
        match self {
            ScriptValue::Single(c) => {
                let mut r: Vec<String> = Vec::new();
                r.push(c.clone());
                assert(string_views(r@) =~= seq![c@]);
                r
            },
            ScriptValue::Multiple(cs) => clone_strings(cs),
        }
    }
}

/// The `shell` section: its scripts, each a name and a value.
#[derive(Debug, Clone)]
pub struct DevboxShell {
    pub scripts: Vec<(String, ScriptValue)>,
}

/// The fields of a `devbox.json` that are read.
#[derive(Debug, Clone)]
pub struct DevboxJson {
    pub shell: Option<DevboxShell>,
}

/// A Devbox script for display.
#[derive(Debug, Clone)]
pub struct DevboxScript {
    pub name: String,
    pub display_name: String,
    pub category: String,
    pub description: String,
    pub commands: Vec<String>,
}

/// The plain-value form of a [`DevboxScript`].
pub struct DevboxScriptView {
    pub name: Seq<char>,
    pub display_name: Seq<char>,
    pub category: Seq<char>,
    pub description: Seq<char>,
    pub commands: Seq<Seq<char>>,
}

impl View for DevboxScript {
    type V = DevboxScriptView;

    open spec fn view(&self) -> DevboxScriptView {
        DevboxScriptView {
            name: self.name@,
            display_name: self.display_name@,
            category: self.category@,
            description: self.description@,
            commands: string_views(self.commands@),
        }
    }
}

impl SortKey for DevboxScript {
    /// By name.
    open spec fn key_lt(a: DevboxScriptView, b: DevboxScriptView) -> bool {
        seq_lt(a.name, b.name)
    }

    proof fn lemma_key_lt_trans(a: DevboxScriptView, b: DevboxScriptView, c: DevboxScriptView) {
        lemma_seq_lt_trans(a.name, b.name, c.name);
    }

    proof fn lemma_key_lt_irrefl(a: DevboxScriptView) {
        lemma_seq_lt_irrefl(a.name);
    }

    fn exec_key_lt(&self, other: &Self) -> (r: bool) {
        let a = to_chars(self.name.as_str());
        let b = to_chars(other.name.as_str());
        seq_lt_exec(a.as_slice(), b.as_slice())
    }
}

/// The script `name` with its value: the commands joined by ` && ` are
/// previewed in the description.
pub open spec fn devbox_script(name: Seq<char>, value: ScriptValue, category: Seq<char>) -> DevboxScriptView {
    DevboxScriptView {
        name: name,
        display_name: display_name_of(name),
        category: category,
        description: preview_description("devbox run "@, name, join(commands_of(value), " && "@)),
        commands: commands_of(value),
    }
}

/// The scripts of the `shell` section, in the order given (none without it).
pub open spec fn devbox_scripts(devbox: DevboxJson, category: Seq<char>) -> Seq<DevboxScriptView> {
    match devbox.shell {
        Some(shell) => shell.scripts@.map_values(
            |e: (String, ScriptValue)| devbox_script(e.0@, e.1, category),
        ),
        None => Seq::empty(),
    }
}

/// Every joined command list can be previewed (see [`cuts_at_char_boundary`]).
pub open spec fn devbox_previewable(devbox: DevboxJson) -> bool {
    match devbox.shell {
        Some(shell) => forall|i: int|
            0 <= i < shell.scripts@.len() ==> cuts_at_char_boundary(
                join(commands_of(#[trigger] shell.scripts@[i].1), " && "@),
            ),
        None => true,
    }
}

/// Whether every script's joined commands can be previewed.
pub fn devbox_is_previewable(devbox: &DevboxJson) -> (r: bool)
    ensures
        r == devbox_previewable(*devbox),
{
    match &devbox.shell {
        Some(shell) => {
            let mut i: usize = 0;
            while i < shell.scripts.len()
                invariant
                    i <= shell.scripts@.len(),
                    devbox.shell == Some(*shell),
                    forall|k: int|
                        0 <= k < i ==> cuts_at_char_boundary(
                            join(commands_of(#[trigger] shell.scripts@[k].1), " && "@),
                        ),
                decreases shell.scripts.len() - i,
            {
                let commands = shell.scripts[i].1.to_commands();
                let joined = join_strings(commands.as_slice(), " && ");
                if !is_previewable(joined.as_str()) {
                    assert(!cuts_at_char_boundary(join(commands_of(shell.scripts@[i as int].1), " && "@)));
                    assert(devbox.shell->0.scripts@[i as int] == shell.scripts@[i as int]);
                    assert(!devbox_previewable(*devbox));
                    return false;
                }
                i = i + 1;
            }
            true
        },
        None => true,
    }
}

/// The Devbox scripts of a `devbox.json`, sorted by name; each description
/// is `devbox run <name> - <commands>`, long command lists cut short.
pub fn parse_devbox_json(devbox: &DevboxJson, category: &str) -> (r: Vec<DevboxScript>)
    requires
        devbox_previewable(*devbox),
    ensures
        item_views(r@) == stable_sort::<DevboxScript>(devbox_scripts(*devbox, category@)),
{
    let mut scripts: Vec<DevboxScript> = Vec::new();
    match &devbox.shell {
        Some(shell) => {
            let mut i: usize = 0;
            while i < shell.scripts.len()
                invariant
                    i <= shell.scripts@.len(),
                    devbox.shell == Some(*shell),
                    devbox_previewable(*devbox),
                    item_views(scripts@) == shell.scripts@.take(i as int).map_values(
                        |e: (String, ScriptValue)| devbox_script(e.0@, e.1, category@),
                    ),
                decreases shell.scripts.len() - i,
            {
                let name = &shell.scripts[i].0;
                let value = &shell.scripts[i].1;
                let commands = value.to_commands();
                let preview = join_strings(commands.as_slice(), " && ");
                proof {
                    let sh = devbox.shell.unwrap();
                    assert(sh == *shell);
                    assert(cuts_at_char_boundary(join(commands_of(sh.scripts@[i as int].1), " && "@)));
                }
                let script = DevboxScript {
                    name: name.clone(),
                    display_name: format_display_name(name.as_str()),
                    category: String::from_str(category),
                    description: command_preview("devbox run ", name.as_str(), preview.as_str()),
                    commands,
                };
                let ghost before = item_views(scripts@);
                scripts.push(script);
                assert(item_views(scripts@) =~= before.push(script@));
                assert(shell.scripts@.take(i + 1) =~= shell.scripts@.take(i as int).push(shell.scripts@[i as int]));
                i = i + 1;
            }
            assert(shell.scripts@.take(shell.scripts@.len() as int) =~= shell.scripts@);
        },
        None => {
            assert(item_views(scripts@) =~= Seq::<DevboxScriptView>::empty());
        },
    }
    sort_stable(scripts)
}

} // verus!
