use jarvis::ui::theme::Theme;
use jarvis::script::discovery::{ScriptType, WalkEntry};
use jarvis::script::github_actions_parser::{list_workflows, workflow_files};
use jarvis::script::parser::ScriptFunction;
use jarvis::script::tools::{bazel_program, gradle_command, nx_invocation, terraform_program};
use jarvis::ui::app::App;
use jarvis::usage::storage::{
    frequent_functions, project_usage_file_name, ProjectUsage, Timestamp,
    FREQUENTLY_USED_CATEGORY,
};

fn file(path: &str) -> WalkEntry {
    WalkEntry { path: path.to_string(), is_file: true }
}

#[test]
fn test_list_workflows_ignores_non_yaml() {
    let entries = [
        file("/w/ci.yml"),
        file("/w/readme.txt"),
        file("/w/config.json"),
        WalkEntry { path: "/w/sub.yml".to_string(), is_file: false },
    ];
    let files = workflow_files(&entries);
    assert_eq!(files.len(), 1);
    assert_eq!(files[0].file_name, "ci.yml");
}

#[test]
fn test_list_workflows_multiple_files() {
    let entries = [file("/w/release.yaml"), file("/w/ci.yml")];
    let files = workflow_files(&entries);
    assert_eq!(files.len(), 2);
    assert_eq!(files[0].file_name, "ci.yml");
    assert_eq!(files[1].file_name, "release.yaml");
    let contents: Vec<(String, String)> = vec![
        (
            files[0].path.clone(),
            "name: CI\non: push\njobs:\n  build:\n    runs-on: ubuntu-latest\n".to_string(),
        ),
        (
            files[1].path.clone(),
            "name: Release\non: [push, workflow_dispatch]\njobs:\n  release:\n    runs-on: ubuntu-latest\n"
                .to_string(),
        ),
    ];
    let workflows = list_workflows(true, &contents, "GitHub Actions").unwrap();
    assert_eq!(workflows.len(), 2);
    assert_eq!(workflows[0].file_name, "ci.yml");
    assert_eq!(workflows[1].file_name, "release.yaml");
    assert_eq!(workflows[1].triggers, vec!["push", "workflow_dispatch"]);
}

#[test]
fn test_list_workflows_nonexistent_dir() {
    let result = list_workflows(false, &[], "GitHub Actions").unwrap();
    assert!(result.is_empty());
}

#[test]
fn test_list_workflows_empty_dir() {
    let result = list_workflows(true, &[], "GitHub Actions").unwrap();
    assert!(result.is_empty());
}

#[test]
fn list_workflows_stops_at_an_unnamed_file() {
    let files = vec![
        ("/w/a.yml".to_string(), "on: push\n".to_string()),
        ("/".to_string(), "on: push\n".to_string()),
    ];
    let err = list_workflows(true, &files, "GitHub Actions").err().unwrap();
    assert_eq!(err.message, "Invalid filename: /");
}

#[test]
fn tool_choices() {
    let (p, a) = nx_invocation(true);
    assert_eq!(p, "npx");
    assert_eq!(a, vec!["nx"]);
    let (p, a) = nx_invocation(false);
    assert_eq!(p, "nx");
    assert!(a.is_empty());
    assert_eq!(
        gradle_command(Some("/p/gradlew".to_string()), None, true),
        Some("/p/gradlew".to_string())
    );
    assert_eq!(
        gradle_command(None, Some("/p/gradlew.bat".to_string()), true),
        Some("/p/gradlew.bat".to_string())
    );
    assert_eq!(gradle_command(None, None, true), Some("gradle".to_string()));
    assert_eq!(gradle_command(None, None, false), None);
    assert_eq!(bazel_program(true, true), Some("bazelisk".to_string()));
    assert_eq!(bazel_program(false, true), Some("bazel".to_string()));
    assert_eq!(bazel_program(false, false), None);
    assert_eq!(terraform_program(true, true), "terraform");
    assert_eq!(terraform_program(false, true), "tofu");
    assert_eq!(terraform_program(false, false), "terraform");
}

fn item(name: &str, t: ScriptType, category: &str) -> ScriptFunction {
    ScriptFunction {
        name: name.to_string(),
        display_name: name.to_string(),
        category: category.to_string(),
        description: String::new(),
        emoji: None,
        ignored: false,
        script_type: t,
    }
}

#[test]
fn frequent_functions_match_name_and_kind() {
    let all = vec![
        item("build", ScriptType::PackageJson, "web"),
        item("build", ScriptType::Bash, "tools"),
        item("test", ScriptType::Bash, "tools"),
    ];
    let mut usage = ProjectUsage::new("/p".to_string());
    let t = Timestamp { secs: 1, nanos: 0 };
    usage.record_usage_at("build", ScriptType::Bash, "tools", t);
    usage.record_usage_at("gone", ScriptType::Bash, "tools", t);
    usage.record_usage_at("test", ScriptType::Bash, "tools", t);
    usage.record_usage_at("test", ScriptType::Bash, "tools", t);
    let frequent = frequent_functions(&usage.get_frequent(5), &all);
    assert_eq!(frequent.len(), 2);
    assert_eq!(frequent[0].name, "test");
    assert_eq!(frequent[1].name, "build");
    assert_eq!(frequent[1].script_type, ScriptType::Bash);
    assert_eq!(frequent[1].category, "tools");

    let mut app = App::new(all, "P".to_string(), Theme::default_theme());
    app.set_frequent_functions(&frequent);
    assert_eq!(app.functions.len(), 5);
    assert_eq!(app.functions[3].category, FREQUENTLY_USED_CATEGORY);
    assert_eq!(app.functions[3].name, "test");
    assert_eq!(app.functions[0].category, "web");
    assert_eq!(app.categories().last().unwrap(), FREQUENTLY_USED_CATEGORY);
}

#[test]
fn project_usage_file_name_is_hex_json() {
    let name = project_usage_file_name("/home/user/project");
    assert_eq!(name.len(), 21);
    assert!(name.ends_with(".json"));
    assert!(name[..16].chars().all(|c| c.is_ascii_hexdigit() && !c.is_ascii_uppercase()));
    assert_eq!(name, project_usage_file_name("/home/user/project"));
}
