use jarvis::script::makefile_parser::{
    is_artifact_target, parse_make_database, parse_makefile_annotations_from_content,
    parse_makefile_targets,
};

#[test]
fn test_parse_makefile_annotations_emoji() {
    let content = r#"# Makefile for my project

# @emoji 🚀
deploy:
	./deploy.sh
"#;

    let annotations = parse_makefile_annotations_from_content(content).unwrap();
    assert!(annotations.contains_key("deploy"));
    assert_eq!(annotations.get("deploy").unwrap().emoji, Some("🚀".to_string()));
    assert!(!annotations.get("deploy").unwrap().ignored);
}
#[test]
fn test_parse_makefile_annotations_description() {
    let content = r#"# Makefile

# @description Build the project with optimizations
build:
	cargo build --release
"#;

    let annotations = parse_makefile_annotations_from_content(content).unwrap();
    assert!(annotations.contains_key("build"));
    assert_eq!(
        annotations.get("build").unwrap().description,
        Some("Build the project with optimizations".to_string())
    );
}
#[test]
fn test_parse_makefile_annotations_ignore() {
    let content = r#"# Makefile

# @ignore
_helper:
	@echo "Internal helper"
"#;

    let annotations = parse_makefile_annotations_from_content(content).unwrap();
    assert!(annotations.contains_key("_helper"));
    assert!(annotations.get("_helper").unwrap().ignored);
}
#[test]
fn test_parse_makefile_annotations_multiple() {
    let content = r#"# Makefile

# @emoji 🔧
# @description Build the project
build:
	cargo build

# @ignore
_clean:
	@rm -rf target

# @emoji 🧪
test:
	cargo test
"#;

    let annotations = parse_makefile_annotations_from_content(content).unwrap();

    assert!(annotations.contains_key("build"));
    assert_eq!(annotations.get("build").unwrap().emoji, Some("🔧".to_string()));
    assert_eq!(
        annotations.get("build").unwrap().description,
        Some("Build the project".to_string())
    );
    assert!(!annotations.get("build").unwrap().ignored);

    assert!(annotations.contains_key("_clean"));
    assert!(annotations.get("_clean").unwrap().ignored);

    assert!(annotations.contains_key("test"));
    assert_eq!(annotations.get("test").unwrap().emoji, Some("🧪".to_string()));
    assert!(!annotations.get("test").unwrap().ignored);
}
#[test]
fn test_parse_makefile_annotations_no_annotations() {
    let content = r#"# Makefile

build:
	cargo build

test:
	cargo test
"#;

    let annotations = parse_makefile_annotations_from_content(content).unwrap();
    assert!(!annotations.contains_key("build"));
    assert!(!annotations.contains_key("test"));
}
#[test]
fn test_parse_makefile_annotations_skips_special_targets() {
    let content = r#"# Makefile

.PHONY: all clean

# @emoji 🚀
all:
	@echo "Building all"
"#;

    let annotations = parse_makefile_annotations_from_content(content).unwrap();
    // .PHONY should not be in annotations (it's a special target)
    assert!(!annotations.contains_key(".PHONY"));
    // 'all' should be in annotations
    assert!(annotations.contains_key("all"));
    assert_eq!(annotations.get("all").unwrap().emoji, Some("🚀".to_string()));
}
#[test]
fn test_parse_makefile_annotations_hyphenated_targets() {
    let content = r#"# Makefile

# @emoji 🚀
deploy-production:
	./deploy.sh

# @emoji 🧪
run-integration-tests:
	cargo test --features integration
"#;

    let annotations = parse_makefile_annotations_from_content(content).unwrap();
    assert!(annotations.contains_key("deploy-production"));
    assert_eq!(
        annotations.get("deploy-production").unwrap().emoji,
        Some("🚀".to_string())
    );
    assert!(annotations.contains_key("run-integration-tests"));
    assert_eq!(
        annotations.get("run-integration-tests").unwrap().emoji,
        Some("🧪".to_string())
    );
}
#[test]
fn test_parse_makefile_annotations_ignores_recipe_lines() {
    let content = r#"# Makefile

build:
	# This is a recipe comment, not an annotation
	cargo build
"#;

    let annotations = parse_makefile_annotations_from_content(content).unwrap();
    // Recipe comments should not be picked up as annotations for 'build'
    // because they're on recipe lines (start with tab)
    assert!(!annotations.contains_key("cargo"));
    // But 'build' itself should not have any annotations
    // because there's no comment directly above it
    assert!(!annotations.contains_key("build"));
}
#[test]
fn test_list_targets_from_parsing() {
    let content = r#"# Makefile

.PHONY: all clean test

all: build test

build:
	cargo build

test:
	cargo test

clean:
	rm -rf target

# @emoji 🚀
deploy:
	./deploy.sh
"#;

    // Parse annotations from the Makefile text
    let annotations = parse_makefile_annotations_from_content(content).ok();

    let targets =
        parse_makefile_targets(content, "myproject", annotations.as_ref()).unwrap();

    // Should find: all, build, test, clean, deploy
    // Should NOT find: .PHONY
    assert!(
        targets.iter().any(|t| t.name == "all"),
        "Should find 'all' target"
    );
    assert!(
        targets.iter().any(|t| t.name == "build"),
        "Should find 'build' target"
    );
    assert!(
        targets.iter().any(|t| t.name == "test"),
        "Should find 'test' target"
    );
    assert!(
        targets.iter().any(|t| t.name == "clean"),
        "Should find 'clean' target"
    );
    assert!(
        targets.iter().any(|t| t.name == "deploy"),
        "Should find 'deploy' target"
    );
    assert!(
        !targets.iter().any(|t| t.name == ".PHONY"),
        "Should NOT find '.PHONY' target"
    );

    // Check that deploy has the emoji annotation
    let deploy = targets.iter().find(|t| t.name == "deploy").unwrap();
    assert_eq!(deploy.emoji, Some("🚀".to_string()));
}
#[test]
fn test_list_targets_from_parsing_skips_variables() {
    let content = r#"# Makefile

CC = gcc
CFLAGS = -Wall

build:
	$(CC) $(CFLAGS) -o output main.c
"#;

    let targets = parse_makefile_targets(content, "myproject", None).unwrap();

    // Should only find 'build', not 'CC' or 'CFLAGS'
    assert!(targets.iter().any(|t| t.name == "build"));
    assert!(!targets.iter().any(|t| t.name == "CC"));
    assert!(!targets.iter().any(|t| t.name == "CFLAGS"));
}
#[test]
fn test_parse_makefile_annotations_plain_comment_description() {
    let content = r#"# Makefile

# Build the project with cargo
build:
	cargo build

# Run all tests
test:
	cargo test
"#;

    let annotations = parse_makefile_annotations_from_content(content).unwrap();
    assert!(annotations.contains_key("build"));
    assert_eq!(
        annotations.get("build").unwrap().description,
        Some("Build the project with cargo".to_string())
    );
    assert!(annotations.contains_key("test"));
    assert_eq!(
        annotations.get("test").unwrap().description,
        Some("Run all tests".to_string())
    );
}
#[test]
fn test_parse_makefile_annotations_description_overrides_plain_comment() {
    let content = r#"# Makefile

# This plain comment should be overridden
# @description Official description
build:
	cargo build
"#;

    let annotations = parse_makefile_annotations_from_content(content).unwrap();
    assert!(annotations.contains_key("build"));
    assert_eq!(
        annotations.get("build").unwrap().description,
        Some("Official description".to_string())
    );
}
#[test]
fn test_parse_make_database_filters_not_a_target() {
    let db_output = "# Not a target:\nar:\n#  Implicit rule search has not been done.\n\nbuild:\n#  Phony target (prerequisite of .PHONY).\n";

    let targets = parse_make_database(db_output, "test", None).unwrap();

    // 'ar' should be filtered out because it's marked as "# Not a target:"
    assert!(
        !targets.iter().any(|t| t.name == "ar"),
        "Should NOT find 'ar' (built-in target)"
    );
    // 'build' should be present
    assert!(
        targets.iter().any(|t| t.name == "build"),
        "Should find 'build' target"
    );
}
#[test]
fn test_parse_make_database_filters_artifact_targets() {
    let db_output = "build:\nmain.o:\nlibfoo.a:\napp.so:\nresult.out:\n";

    let targets = parse_make_database(db_output, "test", None).unwrap();

    assert!(
        targets.iter().any(|t| t.name == "build"),
        "Should find 'build' target"
    );
    assert!(
        !targets.iter().any(|t| t.name == "main"),
        "Should NOT find artifact target 'main.o'"
    );
    assert!(
        !targets.iter().any(|t| t.name.contains('.')),
        "Should NOT find any artifact targets with extensions"
    );
}
#[test]
fn test_is_artifact_target() {
    assert!(is_artifact_target("main.o"));
    assert!(is_artifact_target("libfoo.a"));
    assert!(is_artifact_target("app.so"));
    assert!(is_artifact_target("program.out"));
    assert!(is_artifact_target("mylib.dll"));
    assert!(is_artifact_target("mylib.dylib"));
    assert!(is_artifact_target("app.exe"));
    assert!(!is_artifact_target("build"));
    assert!(!is_artifact_target("deploy-production"));
    assert!(!is_artifact_target("run_tests"));
}
#[test]
fn test_list_targets_from_parsing_skips_artifact_targets() {
    let content = r#"# Makefile

build:
	cargo build

main.o:
	gcc -c main.c

libfoo.a:
	ar rcs libfoo.a foo.o
"#;

    let targets = parse_makefile_targets(content, "myproject", None).unwrap();

    assert!(
        targets.iter().any(|t| t.name == "build"),
        "Should find 'build' target"
    );
    // Targets with artifact extensions should be filtered
    // Note: the regex requires targets to start with [a-zA-Z_] so "main.o" won't match anyway,
    // but if we had "main_obj.o" it would be caught by is_artifact_target
    assert!(
        !targets.iter().any(|t| is_artifact_target(&t.name)),
        "Should NOT find any artifact targets"
    );
}