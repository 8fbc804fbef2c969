use jarvis::script::annotations::AnnotationMap;
use jarvis::script::mage_parser::{
    parse_mage_list_output, parse_magefile_annotations_from_content, MageAnnotations,
};

#[test]
fn test_parse_mage_list_basic() {
    let output = "Targets:\n  build    Compile the binary\n  test     Run tests\n";
    let result = parse_mage_list_output(output, "mage", None).unwrap();
    assert_eq!(result.len(), 2);
    // sorted alphabetically
    assert_eq!(result[0].name, "build");
    assert_eq!(result[1].name, "test");
}
#[test]
fn test_parse_mage_list_strips_default_star() {
    // `mage -l` marks the default target with a trailing `*`
    let output = "Targets:\n  build*   Compile the binary\n  test     Run tests\n";
    let result = parse_mage_list_output(output, "mage", None).unwrap();
    assert_eq!(result.len(), 2);
    // the `*` must be stripped
    assert_eq!(result[0].name, "build");
    assert_eq!(result[1].name, "test");
}
#[test]
fn test_parse_mage_list_description_from_output() {
    let output = "Targets:\n  build    Compile the binary\n";
    let result = parse_mage_list_output(output, "mage", None).unwrap();
    assert_eq!(result[0].description, "Compile the binary");
}
#[test]
fn test_parse_mage_list_fallback_description() {
    // No description in CLI output → fallback to "mage target <name>"
    let output = "Targets:\n  build\n";
    let result = parse_mage_list_output(output, "mage", None).unwrap();
    assert_eq!(result[0].description, "mage target build");
}
#[test]
fn test_parse_mage_list_empty_output() {
    let output = "";
    let result = parse_mage_list_output(output, "mage", None).unwrap();
    assert!(result.is_empty());
}
#[test]
fn test_parse_mage_list_only_header() {
    let output = "Targets:\n";
    let result = parse_mage_list_output(output, "mage", None).unwrap();
    assert!(result.is_empty());
}
#[test]
fn test_parse_mage_list_annotation_overrides_description() {
    let output = "Targets:\n  build    CLI description\n";
    let mut annotations = AnnotationMap::new();
    annotations.insert(
        "build".to_string(),
        MageAnnotations {
            description: Some("Annotation description".to_string()),
            ..Default::default()
        },
    );
    let result = parse_mage_list_output(output, "mage", Some(&annotations)).unwrap();
    assert_eq!(result[0].description, "Annotation description");
}
#[test]
fn test_parse_mage_list_annotation_emoji() {
    let output = "Targets:\n  build    Compile the binary\n";
    let mut annotations = AnnotationMap::new();
    annotations.insert(
        "build".to_string(),
        MageAnnotations {
            emoji: Some("🔨".to_string()),
            ..Default::default()
        },
    );
    let result = parse_mage_list_output(output, "mage", Some(&annotations)).unwrap();
    assert_eq!(result[0].emoji, Some("🔨".to_string()));
}
#[test]
fn test_parse_mage_list_annotation_ignored() {
    let output = "Targets:\n  build    Compile the binary\n";
    let mut annotations = AnnotationMap::new();
    annotations.insert(
        "build".to_string(),
        MageAnnotations {
            ignored: true,
            ..Default::default()
        },
    );
    let result = parse_mage_list_output(output, "mage", Some(&annotations)).unwrap();
    assert!(result[0].ignored);
}
#[test]
fn test_parse_annotations_emoji() {
    let content = "// @emoji 🔨\nfunc Build(mg.Deps) {\n}\n";
    let annotations = parse_magefile_annotations_from_content(content).unwrap();
    // key is lowercased
    assert!(annotations.contains_key("build"));
    assert_eq!(annotations.get("build").unwrap().emoji, Some("🔨".to_string()));
}
#[test]
fn test_parse_annotations_description() {
    let content = "// @description Compile the binary\nfunc Build(mg.Deps) {\n}\n";
    let annotations = parse_magefile_annotations_from_content(content).unwrap();
    assert!(annotations.contains_key("build"));
    assert_eq!(
        annotations.get("build").unwrap().description,
        Some("Compile the binary".to_string())
    );
}
#[test]
fn test_parse_annotations_ignore() {
    let content = "// @ignore\nfunc Helper() {\n}\n";
    let annotations = parse_magefile_annotations_from_content(content).unwrap();
    assert!(annotations.contains_key("helper"));
    assert!(annotations.get("helper").unwrap().ignored);
}
#[test]
fn test_parse_annotations_all_three() {
    let content =
        "// @emoji 🚀\n// @description Deploy to production\n// @ignore\nfunc Deploy() {\n}\n";
    let annotations = parse_magefile_annotations_from_content(content).unwrap();
    assert!(annotations.contains_key("deploy"));
    assert_eq!(annotations.get("deploy").unwrap().emoji, Some("🚀".to_string()));
    assert_eq!(
        annotations.get("deploy").unwrap().description,
        Some("Deploy to production".to_string())
    );
    assert!(annotations.get("deploy").unwrap().ignored);
}
#[test]
fn test_parse_annotations_no_annotations() {
    let content = "func Build(mg.Deps) {\n}\nfunc Test() {\n}\n";
    let annotations = parse_magefile_annotations_from_content(content).unwrap();
    assert!(!annotations.contains_key("build"));
    assert!(!annotations.contains_key("test"));
}
#[test]
fn test_parse_annotations_lowercase_key_matches_mage_output() {
    // PascalCase Go func `RunTests` → mage -l outputs `runTests`
    let content = "// @emoji 🧪\nfunc RunTests() {\n}\n";
    let annotations = parse_magefile_annotations_from_content(content).unwrap();
    assert!(
        annotations.contains_key("runTests"),
        "key should be camelCase to match mage -l"
    );
    assert_eq!(annotations.get("runTests").unwrap().emoji, Some("🧪".to_string()));
}
#[test]
fn test_parse_annotations_skips_unexported_funcs() {
    // unexported (lowercase) functions are not mage targets
    let content = "// @emoji 🔨\nfunc helper() {\n}\n";
    let annotations = parse_magefile_annotations_from_content(content).unwrap();
    assert!(annotations.is_empty());
}
#[test]
fn test_parse_annotations_multiple_targets() {
    let content = "\
// @emoji 🔨
func Build() {}

// @emoji 🧪
func Test() {}

// @ignore
func Internal() {}
";
    let annotations = parse_magefile_annotations_from_content(content).unwrap();
    assert_eq!(annotations.get("build").unwrap().emoji, Some("🔨".to_string()));
    assert_eq!(annotations.get("test").unwrap().emoji, Some("🧪".to_string()));
    assert!(annotations.get("internal").unwrap().ignored);
}