use jarvis::script::devbox_parser::{parse_devbox_json, DevboxJson, DevboxShell, ScriptValue};
use jarvis::script::npm_parser::{parse_package_json, PackageJson};

fn package(scripts: &[(&str, &str)]) -> PackageJson {
    PackageJson {
        name: Some("test-project".to_string()),
        scripts: scripts
            .iter()
            .map(|(n, c)| (n.to_string(), c.to_string()))
            .collect(),
    }
}

fn many(cmds: &[&str]) -> ScriptValue {
    ScriptValue::Multiple(cmds.iter().map(|c| c.to_string()).collect())
}

fn one(cmd: &str) -> ScriptValue {
    ScriptValue::Single(cmd.to_string())
}

fn devbox(scripts: Vec<(&str, ScriptValue)>) -> DevboxJson {
    DevboxJson {
        shell: Some(DevboxShell {
            scripts: scripts.into_iter().map(|(n, v)| (n.to_string(), v)).collect(),
        }),
    }
}

const LONG: &str = "echo 'This is a very long command that should be truncated in the description because it exceeds the maximum length'";

#[test]
fn test_parse_package_json_valid() {
    let pkg = package(&[
        ("start", "node index.js"),
        ("test", "jest"),
        ("build", "webpack --mode production"),
    ]);
    let result = parse_package_json(&pkg, "Test");
    assert_eq!(result.len(), 3);
    assert_eq!(result[0].name, "build");
    assert_eq!(result[1].name, "start");
    assert_eq!(result[2].name, "test");
    assert_eq!(result[0].display_name, "Build");
    assert_eq!(result[1].display_name, "Start");
    assert_eq!(result[2].display_name, "Test");
    assert!(result[0].description.contains("npm run build"));
    assert!(result[0].description.contains("webpack --mode production"));
}

#[test]
fn test_parse_package_json_empty_scripts() {
    let result = parse_package_json(&package(&[]), "Test");
    assert_eq!(result.len(), 0);
}

#[test]
fn test_parse_package_json_complex_script_names() {
    let pkg = package(&[
        ("test:unit", "jest --testPathPattern=unit"),
        ("test:integration", "jest --testPathPattern=integration"),
        ("build:dev", "webpack --mode development"),
        ("deploy:prod", "node scripts/deploy.js"),
    ]);
    let result = parse_package_json(&pkg, "Test");
    assert_eq!(result.len(), 4);
    let build_dev = result.iter().find(|s| s.name == "build:dev").unwrap();
    assert_eq!(build_dev.display_name, "Build:dev");
    let test_unit = result.iter().find(|s| s.name == "test:unit").unwrap();
    assert_eq!(test_unit.display_name, "Test:unit");
}

#[test]
fn test_parse_package_json_long_commands() {
    let result = parse_package_json(&package(&[("long", LONG)]), "Test");
    assert_eq!(result.len(), 1);
    assert!(result[0].description.len() < result[0].command.len() + 20);
    assert!(result[0].description.ends_with("..."));
}

#[test]
fn test_parse_package_json_category() {
    let result = parse_package_json(&package(&[("test", "jest")]), "MyCategory");
    assert_eq!(result.len(), 1);
    assert_eq!(result[0].category, "MyCategory");
}

#[test]
fn package_json_description_is_exact() {
    let result = parse_package_json(&package(&[("test", "jest")]), "C");
    assert_eq!(result[0].description, "npm run test - jest");
    assert_eq!(result[0].command, "jest");
}

#[test]
fn test_parse_devbox_json_valid() {
    let d = devbox(vec![
        ("build", many(&["cargo build"])),
        ("test", many(&["cargo test"])),
        ("check", many(&["cargo clippy -- -D warnings", "cargo fmt -- --check"])),
    ]);
    let result = parse_devbox_json(&d, "Test");
    assert_eq!(result.len(), 3);
    assert_eq!(result[0].name, "build");
    assert_eq!(result[1].name, "check");
    assert_eq!(result[2].name, "test");
    assert_eq!(result[0].display_name, "Build");
    assert_eq!(result[1].display_name, "Check");
    assert_eq!(result[2].display_name, "Test");
    assert!(result[0].description.contains("devbox run build"));
    assert!(result[0].description.contains("cargo build"));
}

#[test]
fn test_parse_devbox_json_empty_scripts() {
    assert_eq!(parse_devbox_json(&devbox(vec![]), "Test").len(), 0);
}

#[test]
fn test_parse_devbox_json_no_shell() {
    assert_eq!(parse_devbox_json(&DevboxJson { shell: None }, "Test").len(), 0);
}

#[test]
fn test_parse_devbox_json_complex_script_names() {
    let d = devbox(vec![
        ("test:unit", many(&["jest --testPathPattern=unit"])),
        ("test:integration", many(&["jest --testPathPattern=integration"])),
        ("build:dev", many(&["webpack --mode development"])),
        ("deploy:prod", many(&["node scripts/deploy.js"])),
    ]);
    let result = parse_devbox_json(&d, "Test");
    assert_eq!(result.len(), 4);
    let build_dev = result.iter().find(|s| s.name == "build:dev").unwrap();
    assert_eq!(build_dev.display_name, "Build:dev");
    let test_unit = result.iter().find(|s| s.name == "test:unit").unwrap();
    assert_eq!(test_unit.display_name, "Test:unit");
}

#[test]
fn test_parse_devbox_json_multi_command_scripts() {
    let d = devbox(vec![(
        "check",
        many(&["cargo clippy -- -D warnings", "cargo fmt -- --check"]),
    )]);
    let result = parse_devbox_json(&d, "Test");
    assert_eq!(result.len(), 1);
    assert_eq!(result[0].commands.len(), 2);
    assert!(result[0].description.contains("cargo clippy"));
    assert!(result[0].description.contains("&&"));
}

#[test]
fn test_parse_devbox_json_long_commands() {
    let result = parse_devbox_json(&devbox(vec![("long", many(&[LONG]))]), "Test");
    assert_eq!(result.len(), 1);
    assert!(result[0].description.ends_with("..."));
}

#[test]
fn test_parse_devbox_json_category() {
    let result = parse_devbox_json(&devbox(vec![("test", many(&["cargo test"]))]), "MyCategory");
    assert_eq!(result.len(), 1);
    assert_eq!(result[0].category, "MyCategory");
}

#[test]
fn test_parse_devbox_json_hyphenated_names() {
    let d = devbox(vec![("deploy-homebrew", many(&["bash scripts/update-formula.sh"]))]);
    let result = parse_devbox_json(&d, "Test");
    assert_eq!(result.len(), 1);
    assert_eq!(result[0].display_name, "Deploy Homebrew");
}

#[test]
fn test_parse_devbox_json_string_scripts() {
    let d = devbox(vec![
        ("help", one("jq .shell.scripts devbox.json")),
        ("build", one("cargo build --release")),
        ("test", one("cargo test")),
    ]);
    let result = parse_devbox_json(&d, "Test");
    assert_eq!(result.len(), 3);
    let help = result.iter().find(|s| s.name == "help").unwrap();
    assert_eq!(help.commands.len(), 1);
    assert_eq!(help.commands[0], "jq .shell.scripts devbox.json");
    let build = result.iter().find(|s| s.name == "build").unwrap();
    assert_eq!(build.commands.len(), 1);
    assert_eq!(build.commands[0], "cargo build --release");
}

#[test]
fn test_parse_devbox_json_mixed_string_and_array_scripts() {
    let d = devbox(vec![
        ("simple", one("echo hello")),
        ("complex", many(&["cargo clippy", "cargo fmt --check"])),
    ]);
    let result = parse_devbox_json(&d, "Test");
    assert_eq!(result.len(), 2);
    let simple = result.iter().find(|s| s.name == "simple").unwrap();
    assert_eq!(simple.commands, vec!["echo hello"]);
    let complex = result.iter().find(|s| s.name == "complex").unwrap();
    assert_eq!(complex.commands, vec!["cargo clippy", "cargo fmt --check"]);
}

#[test]
fn test_parse_package_json_no_scripts() {
    let pkg = PackageJson { name: Some("test-project".to_string()), scripts: Vec::new() };
    assert_eq!(parse_package_json(&pkg, "Test").len(), 0);
}

#[test]
fn test_parse_devbox_json_no_scripts() {
    let d = DevboxJson { shell: Some(DevboxShell { scripts: Vec::new() }) };
    assert_eq!(parse_devbox_json(&d, "Test").len(), 0);
}
