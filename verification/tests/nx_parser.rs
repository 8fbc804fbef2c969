use jarvis::script::nx_parser::{
    collect_category_display_names, parse_project_list, parse_project_targets, NxProjectInfo,
};

fn info(targets: &[&str]) -> NxProjectInfo {
    NxProjectInfo {
        targets: Some(targets.iter().map(|t| t.to_string()).collect()),
    }
}

fn sample_project() -> NxProjectInfo {
    info(&["build", "lint", "serve", "test"])
}

#[test]
fn test_parse_project_targets_extracts_all_targets() {
    let targets = parse_project_targets(&sample_project(), "my-app", "myworkspace");
    assert_eq!(targets.len(), 4);
    let names: Vec<&str> = targets.iter().map(|t| t.target.as_str()).collect();
    assert!(names.contains(&"build"));
    assert!(names.contains(&"serve"));
    assert!(names.contains(&"test"));
    assert!(names.contains(&"lint"));
}

#[test]
fn test_parse_project_targets_qualified_names() {
    let targets = parse_project_targets(&sample_project(), "my-app", "myworkspace");
    let build = targets.iter().find(|t| t.target == "build").unwrap();
    assert_eq!(build.name, "my-app:build");
    let serve = targets.iter().find(|t| t.target == "serve").unwrap();
    assert_eq!(serve.name, "my-app:serve");
}

#[test]
fn test_parse_project_targets_descriptions() {
    let targets = parse_project_targets(&sample_project(), "my-app", "myworkspace");
    let build = targets.iter().find(|t| t.target == "build").unwrap();
    assert_eq!(build.description, "nx run my-app:build");
    let test = targets.iter().find(|t| t.target == "test").unwrap();
    assert_eq!(test.description, "nx run my-app:test");
}

#[test]
fn test_parse_project_targets_display_names() {
    let targets = parse_project_targets(&sample_project(), "my-app", "myworkspace");
    let build = targets.iter().find(|t| t.target == "build").unwrap();
    assert_eq!(build.display_name, "Build");
    let serve = targets.iter().find(|t| t.target == "serve").unwrap();
    assert_eq!(serve.display_name, "Serve");
}

#[test]
fn test_parse_project_targets_category() {
    let targets = parse_project_targets(&sample_project(), "my-app", "my-workspace");
    for target in &targets {
        assert_eq!(target.category, "nx:my-workspace:my-app");
    }
}

#[test]
fn test_parse_project_targets_emoji() {
    let targets = parse_project_targets(&sample_project(), "my-app", "myworkspace");
    for target in &targets {
        assert_eq!(target.emoji, Some("\u{1f537}".to_string()));
    }
}

#[test]
fn test_parse_project_targets_project_field() {
    let targets = parse_project_targets(&sample_project(), "my-app", "myworkspace");
    for target in &targets {
        assert_eq!(target.project, "my-app");
    }
}

#[test]
fn test_parse_project_targets_sort_order() {
    let targets = parse_project_targets(&info(&["test", "build", "serve", "lint"]), "my-app", "ws");
    let target_names: Vec<&str> = targets.iter().map(|t| t.target.as_str()).collect();
    let mut sorted = target_names.clone();
    sorted.sort();
    assert_eq!(target_names, sorted);
    assert_eq!(target_names, vec!["build", "lint", "serve", "test"]);
}

#[test]
fn test_parse_project_targets_empty_targets() {
    let targets = parse_project_targets(&info(&[]), "empty-project", "myworkspace");
    assert!(targets.is_empty());
}

#[test]
fn test_parse_project_targets_no_targets_key() {
    let targets = parse_project_targets(&NxProjectInfo { targets: None }, "no-targets", "myworkspace");
    assert!(targets.is_empty());
}

#[test]
fn test_parse_project_targets_complex_target_names() {
    let targets = parse_project_targets(
        &info(&["build", "build-storybook", "component-test", "e2e"]),
        "my-lib",
        "myworkspace",
    );
    assert_eq!(targets.len(), 4);
    let build_storybook = targets.iter().find(|t| t.target == "build-storybook").unwrap();
    assert_eq!(build_storybook.display_name, "Build Storybook");
    assert_eq!(build_storybook.name, "my-lib:build-storybook");
    let component_test = targets.iter().find(|t| t.target == "component-test").unwrap();
    assert_eq!(component_test.display_name, "Component Test");
}

#[test]
fn test_parse_project_targets_multiple_projects() {
    let app_targets = parse_project_targets(&info(&["build", "serve"]), "app", "ws");
    let lib_targets = parse_project_targets(&info(&["build", "test"]), "lib", "ws");
    assert_eq!(app_targets.len(), 2);
    assert_eq!(lib_targets.len(), 2);
    for t in &app_targets {
        assert_eq!(t.project, "app");
        assert_eq!(t.category, "nx:ws:app");
    }
    for t in &lib_targets {
        assert_eq!(t.project, "lib");
        assert_eq!(t.category, "nx:ws:lib");
    }
}

#[test]
fn test_parse_project_targets_per_project_categories() {
    let app_targets = parse_project_targets(&info(&["build", "test", "lint"]), "app", "monopoly");
    let lib_targets = parse_project_targets(&info(&["build", "test", "lint"]), "lib", "monopoly");
    assert_ne!(app_targets[0].category, lib_targets[0].category);
    assert_eq!(app_targets[0].category, "nx:monopoly:app");
    assert_eq!(lib_targets[0].category, "nx:monopoly:lib");
}

#[test]
fn test_nx_target_not_ignored() {
    let targets = parse_project_targets(&sample_project(), "my-app", "myworkspace");
    for target in &targets {
        assert!(!target.ignored);
    }
}

#[test]
fn test_collect_category_display_names() {
    let mut all_targets = parse_project_targets(&info(&["build"]), "service.auth", "monopoly");
    all_targets.extend(parse_project_targets(&info(&["test"]), "service.api", "monopoly"));
    let names = collect_category_display_names(&all_targets);
    assert_eq!(
        names.get("nx:monopoly:service.auth"),
        Some(&"🔷 Service Auth".to_string())
    );
    assert_eq!(
        names.get("nx:monopoly:service.api"),
        Some(&"🔷 Service Api".to_string())
    );
    assert_eq!(names.get("nx:monopoly:other"), None);
}

#[test]
fn parse_project_list_reads_one_name_per_line() {
    assert_eq!(parse_project_list("app\n  lib \n\nweb\n"), vec!["app", "lib", "web"]);
}
