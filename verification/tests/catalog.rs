use jarvis::script::bazel_parser::parse_bazel_query_output;
use jarvis::script::cargo_parser::{CargoTarget, CargoTargetType};
use jarvis::script::catalog::{
    category_display_names, functions_from_bazel, functions_from_cargo, functions_from_targets,
    visible_functions,
};
use jarvis::script::discovery::{ScriptFile, ScriptType};
use jarvis::script::items::{is_previewable, AnnotatedTarget};
use jarvis::script::nx_parser::CategoryNames;
use jarvis::script::parser::parse_script_content;

#[test]
fn ignored_functions_are_hidden() {
    let content = "# @ignore\n_helper() {\n  :\n}\n\ndeploy() {\n  :\n}\n";
    let all = parse_script_content(content, "tools");
    assert_eq!(all.len(), 2);
    let shown = visible_functions(all);
    assert_eq!(shown.len(), 1);
    assert_eq!(shown[0].name, "deploy");
}

#[test]
fn targets_become_items_of_their_kind() {
    let targets = vec![
        AnnotatedTarget {
            name: "build".to_string(),
            display_name: "Build".to_string(),
            category: "c".to_string(),
            description: "d".to_string(),
            emoji: Some("🔨".to_string()),
            ignored: false,
        },
        AnnotatedTarget {
            name: "_hidden".to_string(),
            display_name: "Hidden".to_string(),
            category: "c".to_string(),
            description: String::new(),
            emoji: None,
            ignored: true,
        },
    ];
    let items = functions_from_targets(&targets, ScriptType::Just);
    assert_eq!(items.len(), 1);
    assert_eq!(items[0].name, "build");
    assert_eq!(items[0].script_type, ScriptType::Just);
    assert_eq!(items[0].emoji, Some("🔨".to_string()));
}

#[test]
fn cargo_items_carry_their_run_flag_in_the_name() {
    let t = |name: &str, ty| CargoTarget {
        name: name.to_string(),
        display_name: name.to_string(),
        category: "c".to_string(),
        description: String::new(),
        emoji: None,
        ignored: false,
        target_type: ty,
    };
    let items = functions_from_cargo(&[t("app", CargoTargetType::Binary), t("demo", CargoTargetType::Example)]);
    assert_eq!(items[0].name, "bin:app");
    assert_eq!(items[1].name, "example:demo");
}

#[test]
fn bazel_targets_become_items() {
    let targets =
        parse_bazel_query_output("cc_binary rule //src/main:hello\ncc_test rule //src/main:hello_test\n", "ws")
            .unwrap();
    let items = functions_from_bazel(&targets);
    assert_eq!(items.len(), 2);
    assert!(items.iter().all(|f| f.script_type == ScriptType::Bazel));
}

#[test]
fn category_display_names_later_files_and_nx_win() {
    let file = |category: &str, display: &str| ScriptFile {
        path: format!("/p/{}", category),
        name: category.to_string(),
        category: category.to_string(),
        display_name: display.to_string(),
        script_type: ScriptType::Bash,
    };
    let files = vec![file("a", "A1"), file("b", "B"), file("a", "A2")];
    let nx = CategoryNames {
        entries: vec![("b".to_string(), "🔷 B".to_string()), ("n".to_string(), "🔷 N".to_string())],
    };
    let names = category_display_names(&files, &nx);
    assert_eq!(names.get("a"), Some(&"A2".to_string()));
    assert_eq!(names.get("b"), Some(&"🔷 B".to_string()));
    assert_eq!(names.get("n"), Some(&"🔷 N".to_string()));
    assert_eq!(names.get("zzz"), None);
}

#[test]
fn previewable_commands() {
    assert!(is_previewable("short"));
    assert!(is_previewable(&"x".repeat(100)));
    // A two-byte character across byte 57 cannot be cut there.
    let s = format!("{}é{}", "x".repeat(56), "y".repeat(10));
    assert!(!is_previewable(&s));
    let s = format!("{}é{}", "x".repeat(55), "y".repeat(10));
    assert!(is_previewable(&s));
}
