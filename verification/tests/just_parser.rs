use jarvis::script::annotations::AnnotationMap;
use jarvis::script::just_parser::{
    parse_just_list_output, parse_justfile_annotations_from_content, JustAnnotations,
};

#[test]
fn test_parse_just_list_output_simple() {
    let output = "build\ntest\nclean\n";
    let result = parse_just_list_output(output, "myproject", None).unwrap();

    assert_eq!(result.len(), 3);
    assert_eq!(result[0].name, "build");
    assert_eq!(result[0].display_name, "Build");
    assert_eq!(result[0].category, "myproject");
    assert_eq!(result[0].description, "just recipe build");
    assert_eq!(result[0].emoji, None);
    assert!(!result[0].ignored);
}
#[test]
fn test_parse_just_list_output_with_descriptions() {
    let output = "build # Build the project\ntest # Run tests\n";
    let result = parse_just_list_output(output, "myproject", None).unwrap();

    assert_eq!(result.len(), 2);
    assert_eq!(result[0].name, "build");
    assert_eq!(result[0].description, "Build the project");
    assert_eq!(result[1].name, "test");
    assert_eq!(result[1].description, "Run tests");
}
#[test]
fn test_parse_just_list_output_with_args() {
    let output = "deploy env=\"staging\" # Deploy to environment\nbuild\n";
    let result = parse_just_list_output(output, "cat", None).unwrap();

    assert_eq!(result.len(), 2);
    assert_eq!(result[0].name, "build");
    assert_eq!(result[1].name, "deploy");
    assert_eq!(result[1].description, "Deploy to environment");
}
#[test]
fn test_parse_just_list_output_sorted() {
    let output = "z_last\na_first\nm_middle\n";
    let result = parse_just_list_output(output, "cat", None).unwrap();

    assert_eq!(result.len(), 3);
    assert_eq!(result[0].name, "a_first");
    assert_eq!(result[1].name, "m_middle");
    assert_eq!(result[2].name, "z_last");
}
#[test]
fn test_parse_just_list_output_empty() {
    let output = "";
    let result = parse_just_list_output(output, "cat", None).unwrap();
    assert!(result.is_empty());
}
#[test]
fn test_parse_just_list_output_with_annotations() {
    let output = "build\ndeploy\n";

    let mut annotations = AnnotationMap::new();
    annotations.insert(
        "deploy".to_string(),
        JustAnnotations {
            emoji: Some("🚀".to_string()),
            description: Some("Custom deploy description".to_string()),
            ignored: false,
        },
    );

    let result = parse_just_list_output(output, "cat", Some(&annotations)).unwrap();
    assert_eq!(result.len(), 2);

    // build should have no annotations
    assert_eq!(result[0].name, "build");
    assert_eq!(result[0].emoji, None);
    assert_eq!(result[0].description, "just recipe build");
    assert!(!result[0].ignored);

    // deploy should have annotations applied
    assert_eq!(result[1].name, "deploy");
    assert_eq!(result[1].emoji, Some("🚀".to_string()));
    assert_eq!(result[1].description, "Custom deploy description");
    assert!(!result[1].ignored);
}
#[test]
fn test_parse_just_list_output_annotation_overrides_comment() {
    let output = "build # Original description from just\n";

    let mut annotations = AnnotationMap::new();
    annotations.insert(
        "build".to_string(),
        JustAnnotations {
            emoji: None,
            description: Some("Overridden description from annotation".to_string()),
            ignored: false,
        },
    );

    let result = parse_just_list_output(output, "cat", Some(&annotations)).unwrap();
    assert_eq!(result.len(), 1);
    assert_eq!(
        result[0].description,
        "Overridden description from annotation"
    );
}
#[test]
fn test_parse_justfile_annotations_emoji() {
    let content = r#"# Build the project

# @emoji 🚀
deploy:
    ./deploy.sh
"#;

    let annotations = parse_justfile_annotations_from_content(content).unwrap();
    assert!(annotations.contains_key("deploy"));
    assert_eq!(annotations.get("deploy").unwrap().emoji, Some("🚀".to_string()));
    assert!(!annotations.get("deploy").unwrap().ignored);
}
#[test]
fn test_parse_justfile_annotations_description() {
    let content = r#"# @description Build the project with optimizations
build:
    cargo build --release
"#;

    let annotations = parse_justfile_annotations_from_content(content).unwrap();
    assert!(annotations.contains_key("build"));
    assert_eq!(
        annotations.get("build").unwrap().description,
        Some("Build the project with optimizations".to_string())
    );
}
#[test]
fn test_parse_justfile_annotations_ignore() {
    let content = r#"# @ignore
_helper:
    @echo "Internal helper"
"#;

    let annotations = parse_justfile_annotations_from_content(content).unwrap();
    assert!(annotations.contains_key("_helper"));
    assert!(annotations.get("_helper").unwrap().ignored);
}
#[test]
fn test_parse_justfile_annotations_multiple() {
    let content = r#"# @emoji 🔧
# @description Build the project
build:
    cargo build

# @ignore
_clean:
    rm -rf target

# @emoji 🧪
test:
    cargo test
"#;

    let annotations = parse_justfile_annotations_from_content(content).unwrap();

    assert!(annotations.contains_key("build"));
    assert_eq!(annotations.get("build").unwrap().emoji, Some("🔧".to_string()));
    assert_eq!(
        annotations.get("build").unwrap().description,
        Some("Build the project".to_string())
    );
    assert!(!annotations.get("build").unwrap().ignored);

    assert!(annotations.contains_key("_clean"));
    assert!(annotations.get("_clean").unwrap().ignored);

    assert!(annotations.contains_key("test"));
    assert_eq!(annotations.get("test").unwrap().emoji, Some("🧪".to_string()));
    assert!(!annotations.get("test").unwrap().ignored);
}
#[test]
fn test_parse_justfile_annotations_no_annotations() {
    let content = r#"build:
    cargo build

test:
    cargo test
"#;

    let annotations = parse_justfile_annotations_from_content(content).unwrap();
    assert!(!annotations.contains_key("build"));
    assert!(!annotations.contains_key("test"));
}
#[test]
fn test_parse_justfile_annotations_all_three() {
    let content = r#"# @emoji 🚀
# @description Deploy to production
# @ignore
deploy_internal:
    ./deploy.sh
"#;

    let annotations = parse_justfile_annotations_from_content(content).unwrap();
    assert!(annotations.contains_key("deploy_internal"));
    assert_eq!(annotations.get("deploy_internal").unwrap().emoji, Some("🚀".to_string()));
    assert_eq!(
        annotations.get("deploy_internal").unwrap().description,
        Some("Deploy to production".to_string())
    );
    assert!(annotations.get("deploy_internal").unwrap().ignored);
}
#[test]
fn test_parse_justfile_annotations_with_parameters() {
    let content = r#"# @emoji 🚀
deploy env="staging":
    ./deploy.sh {{env}}

# @emoji 🧪
test *args:
    cargo test {{args}}
"#;

    let annotations = parse_justfile_annotations_from_content(content).unwrap();
    assert!(annotations.contains_key("deploy"));
    assert_eq!(annotations.get("deploy").unwrap().emoji, Some("🚀".to_string()));
    assert!(annotations.contains_key("test"));
    assert_eq!(annotations.get("test").unwrap().emoji, Some("🧪".to_string()));
}
#[test]
fn test_parse_justfile_annotations_hyphenated_names() {
    let content = r#"# @emoji 🚀
deploy-production:
    ./deploy.sh

# @emoji 🧪
run-integration-tests:
    cargo test --features integration
"#;

    let annotations = parse_justfile_annotations_from_content(content).unwrap();
    assert!(annotations.contains_key("deploy-production"));
    assert_eq!(
        annotations.get("deploy-production").unwrap().emoji,
        Some("🚀".to_string())
    );
    assert!(annotations.contains_key("run-integration-tests"));
    assert_eq!(
        annotations.get("run-integration-tests").unwrap().emoji,
        Some("🧪".to_string())
    );
}
#[test]
fn test_parse_justfile_annotations_skips_variables() {
    let content = r#"name := "world"

# @emoji 🚀
build:
    cargo build
"#;

    let annotations = parse_justfile_annotations_from_content(content).unwrap();
    assert!(!annotations.contains_key("name"));
    assert!(annotations.contains_key("build"));
}
#[test]
fn test_parse_justfile_annotations_skips_keywords() {
    let content = r#"set shell := ["bash", "-c"]

# @emoji 🚀
build:
    cargo build
"#;

    let annotations = parse_justfile_annotations_from_content(content).unwrap();
    assert!(!annotations.contains_key("set"));
    assert!(annotations.contains_key("build"));
}
#[test]
fn test_parse_just_list_output_whitespace_lines() {
    let output = "  build  \n  test  \n\n";
    let result = parse_just_list_output(output, "cat", None).unwrap();
    assert_eq!(result.len(), 2);
    assert_eq!(result[0].name, "build");
    assert_eq!(result[1].name, "test");
}