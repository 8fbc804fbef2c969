//! Terraform commands: the common commands every configuration offers and one
//! workspace selection per workspace that `terraform workspace list` reports.
use crate::script::annotations::opt_view;
use crate::script::discovery::{display_name_of, format_display_name};
use crate::text::{has_at, has_lit, lines, slice_to_vec, str_lines, trim, trim_exec, views, from_chars, string_views};
use vstd::prelude::*;

verus! {

/// Whether a Terraform command is one of the common commands or a workspace
/// selection.
#[derive(Debug, Clone, Copy, PartialEq, Eq, Structural)]
pub enum TerraformCommandType {
    /// A common Terraform command (`init`, `plan`, `apply`, ...).
    Common,
    /// `terraform workspace select <name>`.
    Workspace,
}

/// A Terraform command for display.
#[derive(Debug, Clone)]
pub struct TerraformCommand {
    pub name: String,
    pub display_name: String,
    pub category: String,
    pub description: String,
    pub emoji: Option<String>,
    pub ignored: bool,
    pub command_type: TerraformCommandType,
}

/// The plain-value form of a [`TerraformCommand`].
pub struct TerraformCommandView {
    pub name: Seq<char>,
    pub display_name: Seq<char>,
    pub category: Seq<char>,
    pub description: Seq<char>,
    pub emoji: Option<Seq<char>>,
    pub ignored: bool,
    pub command_type: TerraformCommandType,
}

impl View for TerraformCommand {
    type V = TerraformCommandView;

    open spec fn view(&self) -> TerraformCommandView {
        TerraformCommandView {
            name: self.name@,
            display_name: self.display_name@,
            category: self.category@,
            description: self.description@,
            emoji: opt_view(self.emoji),
            ignored: self.ignored,
            command_type: self.command_type,
        }
    }
}

pub open spec fn command_views(v: Seq<TerraformCommand>) -> Seq<TerraformCommandView> {
    v.map_values(|c: TerraformCommand| c@)
}

/// The emoji of the common commands (building construction).
pub open spec fn common_emoji() -> Seq<char> {
    "🏗️"@
}

/// The emoji of the workspace commands (open folder).
pub open spec fn workspace_emoji() -> Seq<char> {
    "📂"@
}

/// A common command with its description.
pub open spec fn common_command(name: Seq<char>, desc: Seq<char>, category: Seq<char>) -> TerraformCommandView {
    TerraformCommandView {
        name: name,
        display_name: display_name_of(name),
        category: category,
        description: desc,
        emoji: Some(common_emoji()),
        ignored: false,
        command_type: TerraformCommandType::Common,
    }
}

/// The common commands, in this order.
pub open spec fn common_commands(category: Seq<char>) -> Seq<TerraformCommandView> {
    seq![
        common_command("init"@, "Initialize a Terraform working directory"@, category),
        common_command("validate"@, "Validate the Terraform configuration files"@, category),
        common_command("plan"@, "Show an execution plan for infrastructure changes"@, category),
        common_command("apply"@, "Apply the planned infrastructure changes"@, category),
        common_command("destroy"@, "Destroy all managed infrastructure"@, category),
        common_command("fmt"@, "Format Terraform configuration files"@, category),
    ]
}

fn common_command_exec(name: &str, desc: &str, category: &str) -> (r: TerraformCommand)
    ensures
        r@ == common_command(name@, desc@, category@),
{
    TerraformCommand {
        name: String::from_str(name),
        display_name: format_display_name(name),
        category: String::from_str(category),
        description: String::from_str(desc),
        emoji: Some(String::from_str("🏗️")),
        ignored: false,
        command_type: TerraformCommandType::Common,
    }
}

/// The common Terraform commands (`init`, `validate`, `plan`, `apply`,
/// `destroy`, `fmt`) under the given category.
pub fn build_common_commands(category: &str) -> (r: Vec<TerraformCommand>)
    ensures
        command_views(r@) == common_commands(category@),
{
    let mut r: Vec<TerraformCommand> = Vec::new();
    r.push(common_command_exec("init", "Initialize a Terraform working directory", category));
    r.push(common_command_exec("validate", "Validate the Terraform configuration files", category));
    r.push(common_command_exec("plan", "Show an execution plan for infrastructure changes", category));
    r.push(common_command_exec("apply", "Apply the planned infrastructure changes", category));
    r.push(common_command_exec("destroy", "Destroy all managed infrastructure", category));
    r.push(common_command_exec("fmt", "Format Terraform configuration files", category));
    assert(command_views(r@) =~= common_commands(category@));
    r
}

/// The workspace a line of `terraform workspace list` names, if any: the
/// trimmed line without the `* ` that marks the active workspace.
pub open spec fn workspace_of_line(l: Seq<char>) -> Option<Seq<char>> {
    let t = trim(l);
    if t.len() == 0 {
        None
    } else if has_at(t, 0, "* "@) {
        Some(t.subrange(2, t.len() as int))
    } else {
        Some(t)
    }
}

/// The workspaces named on the first `n` lines.
pub open spec fn workspaces_in(ls: Seq<Seq<char>>, n: int) -> Seq<Seq<char>>
    decreases n,
{
    if n <= 0 || n > ls.len() {
        Seq::empty()
    } else {
        match workspace_of_line(ls[n - 1]) {
            Some(w) => workspaces_in(ls, n - 1).push(w),
            None => workspaces_in(ls, n - 1),
        }
    }
}

/// The workspaces that `terraform workspace list` printed, in order.
pub open spec fn workspace_list(output: Seq<char>) -> Seq<Seq<char>> {
    workspaces_in(lines(output), lines(output).len() as int)
}

/// Reads the output of `terraform workspace list`: one workspace per
/// non-blank line, the active one marked by a leading `* `.
pub fn parse_workspace_list(output: &str) -> (r: Vec<String>)
    ensures
        string_views(r@) == workspace_list(output@),
{
    let ls = str_lines(output);
    let ghost lv = views(ls@);
    let mut r: Vec<String> = Vec::new();
    let mut i: usize = 0;
    while i < ls.len()
        invariant
            i <= ls@.len(),
            lv == views(ls@),
            lv == lines(output@),
            string_views(r@) == workspaces_in(lv, i as int),
        decreases ls.len() - i,
    {
        let t = trim_exec(ls[i].as_slice());
        assert(ls@[i as int]@ == lv[i as int]);
        if t.len() > 0 {
            proof {
                reveal_strlit("* ");
            }
            let name = if has_lit(t.as_slice(), 0, "* ") {
                slice_to_vec(t.as_slice(), 2, t.len())
            } else {
                t
            };
            let ghost old_r = string_views(r@);
            r.push(from_chars(name.as_slice()));
            assert(string_views(r@) =~= old_r.push(name@));
        }
        i = i + 1;
    }
    r
}

/// The command that selects workspace `ws`.
pub open spec fn workspace_command(ws: Seq<char>, category: Seq<char>) -> TerraformCommandView {
    TerraformCommandView {
        name: "workspace select "@ + ws,
        display_name: "Workspace: "@ + display_name_of(ws),
        category: category,
        description: "terraform workspace select "@ + ws,
        emoji: Some(workspace_emoji()),
        ignored: false,
        command_type: TerraformCommandType::Workspace,
    }
}

fn prefixed(prefix: &str, s: &str) -> (r: String)
    ensures
        r@ == prefix@ + s@,
{
    let mut r = String::from_str(prefix);
    r.append(s);
    r
}

/// One workspace selection command per workspace, in order.
pub fn build_workspace_commands(workspaces: &[String], category: &str) -> (r: Vec<TerraformCommand>)
    ensures
        command_views(r@) == string_views(workspaces@).map_values(
            |w: Seq<char>| workspace_command(w, category@),
        ),
{
    let mut r: Vec<TerraformCommand> = Vec::new();
    let mut i: usize = 0;
    while i < workspaces.len()
        invariant
            i <= workspaces@.len(),
            command_views(r@) == string_views(workspaces@).take(i as int).map_values(
                |w: Seq<char>| workspace_command(w, category@),
            ),
        decreases workspaces.len() - i,
    {
        let ws = workspaces[i].as_str();
        let display = format_display_name(ws);
        let cmd = TerraformCommand {
            name: prefixed("workspace select ", ws),
            display_name: prefixed("Workspace: ", display.as_str()),
            category: String::from_str(category),
            description: prefixed("terraform workspace select ", ws),
            emoji: Some(String::from_str("📂")),
            ignored: false,
            command_type: TerraformCommandType::Workspace,
        };
        let ghost old_r = command_views(r@);
        r.push(cmd);
        assert(command_views(r@) =~= old_r.push(workspace_command(workspaces@[i as int]@, category@)));
        assert(string_views(workspaces@).take(i + 1) =~= string_views(workspaces@).take(i as int).push(
            workspaces@[i as int]@,
        ));
        i = i + 1;
    }
    assert(string_views(workspaces@).take(workspaces@.len() as int) =~= string_views(workspaces@));
    r
}

/// All commands: the common ones, then, when the workspace listing names
/// more than one workspace, a selection command for each.
pub open spec fn terraform_commands(workspace_output: Option<Seq<char>>, category: Seq<char>) -> Seq<
    TerraformCommandView,
> {
    match workspace_output {
        Some(o) => if workspace_list(o).len() > 1 {
            common_commands(category) + workspace_list(o).map_values(
                |w: Seq<char>| workspace_command(w, category),
            )
        } else {
            common_commands(category)
        },
        None => common_commands(category),
    }
}

/// The commands for a Terraform directory, given the output of
/// `terraform workspace list` when it succeeded. A single workspace is not
/// worth switching to, so workspace commands come only when there are several.
pub fn parse_terraform_commands(workspace_output: Option<&str>, category: &str) -> (r: Vec<TerraformCommand>)
    ensures
        command_views(r@) == terraform_commands(
            match workspace_output {
                Some(o) => Some(o@),
                None => None,
            },
            category@,
        ),
{
    let mut commands = build_common_commands(category);
    if let Some(output) = workspace_output {
        let workspaces = parse_workspace_list(output);
        if workspaces.len() > 1 {
            let mut extra = build_workspace_commands(workspaces.as_slice(), category);
            let ghost a = command_views(commands@);
            let ghost b = command_views(extra@);
            commands.append(&mut extra);
            assert(command_views(commands@) =~= a + b);
        }
    }
    commands
}

} // verus!
