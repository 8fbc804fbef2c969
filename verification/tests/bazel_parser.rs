use jarvis::script::bazel_parser::{
    parse_bazel_query_output, parse_label, parse_label_kind_line, BazelTargetType,
};

fn sample_query_output() -> String {
    r#"cc_binary rule //src/main:hello
cc_test rule //src/main:hello_test
cc_binary rule //examples/greeting:greeting
cc_test rule //examples/greeting:greeting_test"#
        .to_string()
}

#[test]
fn test_parse_bazel_query_output() {
    let output = sample_query_output();
    let targets = parse_bazel_query_output(&output, "myproject").unwrap();

    assert_eq!(targets.len(), 4);

    let names: Vec<&str> = targets.iter().map(|t| t.name.as_str()).collect();
    assert!(names.contains(&"//src/main:hello"));
    assert!(names.contains(&"//src/main:hello_test"));
    assert!(names.contains(&"//examples/greeting:greeting"));
    assert!(names.contains(&"//examples/greeting:greeting_test"));
}
#[test]
fn test_parse_bazel_query_output_target_types() {
    let output = sample_query_output();
    let targets = parse_bazel_query_output(&output, "myproject").unwrap();

    let binaries: Vec<_> = targets
        .iter()
        .filter(|t| t.target_type == BazelTargetType::Binary)
        .collect();
    let tests: Vec<_> = targets
        .iter()
        .filter(|t| t.target_type == BazelTargetType::Test)
        .collect();

    assert_eq!(binaries.len(), 2);
    assert_eq!(tests.len(), 2);
}
#[test]
fn test_parse_bazel_query_output_sort_order() {
    let output = sample_query_output();
    let targets = parse_bazel_query_output(&output, "myproject").unwrap();

    // Binaries first (sorted alphabetically), then tests (sorted alphabetically)
    assert_eq!(targets[0].target_type, BazelTargetType::Binary);
    assert!(targets[0].name.contains("greeting"));
    assert_eq!(targets[1].target_type, BazelTargetType::Binary);
    assert!(targets[1].name.contains("hello"));
    assert_eq!(targets[2].target_type, BazelTargetType::Test);
    assert!(targets[2].name.contains("greeting"));
    assert_eq!(targets[3].target_type, BazelTargetType::Test);
    assert!(targets[3].name.contains("hello"));
}
#[test]
fn test_parse_bazel_query_output_descriptions() {
    let output = sample_query_output();
    let targets = parse_bazel_query_output(&output, "myproject").unwrap();

    let bin = targets
        .iter()
        .find(|t| t.name == "//src/main:hello")
        .unwrap();
    assert_eq!(bin.description, "bazel run //src/main:hello");

    let test = targets
        .iter()
        .find(|t| t.name == "//src/main:hello_test")
        .unwrap();
    assert_eq!(test.description, "bazel test //src/main:hello_test");
}
#[test]
fn test_parse_bazel_query_output_category() {
    let output = sample_query_output();
    let targets = parse_bazel_query_output(&output, "my-workspace").unwrap();

    for target in &targets {
        assert_eq!(target.category, "my-workspace");
    }
}
#[test]
fn test_parse_bazel_query_output_display_names() {
    let output = sample_query_output();
    let targets = parse_bazel_query_output(&output, "myproject").unwrap();

    let hello = targets
        .iter()
        .find(|t| t.name == "//src/main:hello")
        .unwrap();
    assert_eq!(hello.display_name, "src/main: Hello");

    let greeting = targets
        .iter()
        .find(|t| t.name == "//examples/greeting:greeting")
        .unwrap();
    assert_eq!(greeting.display_name, "examples/greeting: Greeting");
}
#[test]
fn test_parse_bazel_query_output_emojis() {
    let output = sample_query_output();
    let targets = parse_bazel_query_output(&output, "myproject").unwrap();

    let bin = targets
        .iter()
        .find(|t| t.name == "//src/main:hello")
        .unwrap();
    assert_eq!(bin.emoji, Some("\u{1f4e6}".to_string())); // 📦

    let test = targets
        .iter()
        .find(|t| t.name == "//src/main:hello_test")
        .unwrap();
    assert_eq!(test.emoji, Some("\u{1f4dd}".to_string())); // 📝
}
#[test]
fn test_parse_bazel_query_output_empty() {
    let targets = parse_bazel_query_output("", "myproject").unwrap();
    assert!(targets.is_empty());
}
#[test]
fn test_parse_label_kind_line_binary() {
    let (kind, label) = parse_label_kind_line("cc_binary rule //:hello").unwrap();
    assert_eq!(kind, "cc_binary");
    assert_eq!(label, "//:hello");
}
#[test]
fn test_parse_label_kind_line_test() {
    let (kind, label) = parse_label_kind_line("cc_test rule //src:hello_test").unwrap();
    assert_eq!(kind, "cc_test");
    assert_eq!(label, "//src:hello_test");
}
#[test]
fn test_parse_label_kind_line_java() {
    let (kind, label) = parse_label_kind_line("java_binary rule //src/main/java:app").unwrap();
    assert_eq!(kind, "java_binary");
    assert_eq!(label, "//src/main/java:app");
}
#[test]
fn test_parse_label_kind_line_invalid() {
    let result = parse_label_kind_line("invalid format");
    assert!(result.is_err());
}
#[test]
fn test_parse_label_with_colon() {
    let (package, name) = parse_label("//src/main:hello").unwrap();
    assert_eq!(package, "src/main");
    assert_eq!(name, "hello");
}
#[test]
fn test_parse_label_root() {
    let (package, name) = parse_label("//:hello").unwrap();
    assert_eq!(package, "");
    assert_eq!(name, "hello");
}
#[test]
fn test_parse_label_shorthand() {
    // //a/b/c is shorthand for //a/b/c:c
    let (package, name) = parse_label("//a/b/c").unwrap();
    assert_eq!(package, "a/b/c");
    assert_eq!(name, "c");
}
#[test]
fn test_parse_label_with_at_prefix() {
    let (package, name) = parse_label("@repo//:hello").unwrap();
    assert_eq!(package, "");
    assert_eq!(name, "hello");
}
#[test]
fn test_parse_label_invalid() {
    let result = parse_label("invalid");
    assert!(result.is_err());
}