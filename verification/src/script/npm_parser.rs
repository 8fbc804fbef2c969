//! npm scripts: the `scripts` of a `package.json`, as runnable items.
use crate::script::discovery::{display_name_of, format_display_name};
use crate::script::items::{command_preview, cuts_at_char_boundary, is_previewable, preview_description};
use crate::sort::{item_views, sort_stable, stable_sort, SortKey};
use crate::text::{lemma_seq_lt_irrefl, lemma_seq_lt_trans, seq_lt, seq_lt_exec, to_chars};
use vstd::prelude::*;

verus! {

/// The fields of a `package.json` that are read: its name and its scripts,
/// each a name and the command it runs.
#[derive(Debug, Clone)]
pub struct PackageJson {
    pub name: Option<String>,
    pub scripts: Vec<(String, String)>,
}

/// An npm script for display.
#[derive(Debug, Clone)]
pub struct NpmScript {
    pub name: String,
    pub display_name: String,
    pub category: String,
    pub description: String,
    pub command: String,
}

/// The plain-value form of an [`NpmScript`].
pub struct NpmScriptView {
    pub name: Seq<char>,
    pub display_name: Seq<char>,
    pub category: Seq<char>,
    pub description: Seq<char>,
    pub command: Seq<char>,
}

impl View for NpmScript {
    type V = NpmScriptView;

    open spec fn view(&self) -> NpmScriptView {
        NpmScriptView {
            name: self.name@,
            display_name: self.display_name@,
            category: self.category@,
            description: self.description@,
            command: self.command@,
        }
    }
}

impl SortKey for NpmScript {
    /// By name.
    open spec fn key_lt(a: NpmScriptView, b: NpmScriptView) -> bool {
        seq_lt(a.name, b.name)
    }

    proof fn lemma_key_lt_trans(a: NpmScriptView, b: NpmScriptView, c: NpmScriptView) {
        lemma_seq_lt_trans(a.name, b.name, c.name);
    }

    proof fn lemma_key_lt_irrefl(a: NpmScriptView) {
        lemma_seq_lt_irrefl(a.name);
    }

    fn exec_key_lt(&self, other: &Self) -> (r: bool) {
        let a = to_chars(self.name.as_str());
        let b = to_chars(other.name.as_str());
        seq_lt_exec(a.as_slice(), b.as_slice())
    }
}

/// The script `name` running `command`.
pub open spec fn npm_script(name: Seq<char>, command: Seq<char>, category: Seq<char>) -> NpmScriptView {
    NpmScriptView {
        name: name,
        display_name: display_name_of(name),
        category: category,
        description: preview_description("npm run "@, name, command),
        command: command,
    }
}

/// The scripts of a package, in the order given.
pub open spec fn npm_scripts(entries: Seq<(String, String)>, category: Seq<char>) -> Seq<NpmScriptView> {
    entries.map_values(|e: (String, String)| npm_script(e.0@, e.1@, category))
}

/// Every command can be previewed (see [`cuts_at_char_boundary`]).
pub open spec fn previewable(entries: Seq<(String, String)>) -> bool {
    forall|i: int| 0 <= i < entries.len() ==> cuts_at_char_boundary(#[trigger] entries[i].1@)
}

/// Whether every command of the package can be previewed.
pub fn package_is_previewable(package: &PackageJson) -> (r: bool)
    ensures
        r == previewable(package.scripts@),
{
    let mut i: usize = 0;
    while i < package.scripts.len()
        invariant
            i <= package.scripts@.len(),
            forall|k: int| 0 <= k < i ==> cuts_at_char_boundary(#[trigger] package.scripts@[k].1@),
        decreases package.scripts.len() - i,
    {
        if !is_previewable(package.scripts[i].1.as_str()) {
            return false;
        }
        i = i + 1;
    }
    true
}

/// The npm scripts of a package, sorted by name; each description is
/// `npm run <name> - <command>`, long commands cut short.
pub fn parse_package_json(package: &PackageJson, category: &str) -> (r: Vec<NpmScript>)
    requires
        previewable(package.scripts@),
    ensures
        item_views(r@) == stable_sort::<NpmScript>(npm_scripts(package.scripts@, category@)),
{
    let mut scripts: Vec<NpmScript> = Vec::new();
    let mut i: usize = 0;
    while i < package.scripts.len()
        invariant
            i <= package.scripts@.len(),
            previewable(package.scripts@),
            item_views(scripts@) == npm_scripts(package.scripts@.take(i as int), category@),
        decreases package.scripts.len() - i,
    {
        let (name, command) = (&package.scripts[i].0, &package.scripts[i].1);
        assert(cuts_at_char_boundary(package.scripts@[i as int].1@));
        let script = NpmScript {
            name: name.clone(),
            display_name: format_display_name(name.as_str()),
            category: String::from_str(category),
            description: command_preview("npm run ", name.as_str(), command.as_str()),
            command: command.clone(),
        };
        let ghost before = item_views(scripts@);
        scripts.push(script);
        assert(item_views(scripts@) =~= before.push(script@));
        assert(package.scripts@.take(i + 1) =~= package.scripts@.take(i as int).push(package.scripts@[i as int]));
        assert(npm_scripts(package.scripts@.take(i + 1), category@) =~= npm_scripts(
            package.scripts@.take(i as int),
            category@,
        ).push(npm_script(name@, command@, category@)));
        i = i + 1;
    }
    assert(package.scripts@.take(package.scripts@.len() as int) =~= package.scripts@);
    sort_stable(scripts)
}

} // verus!
