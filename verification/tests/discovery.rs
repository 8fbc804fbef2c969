use jarvis::script::discovery::{
    check_functions_found, check_scripts_found, script_subdirectories, determine_script_type, discover_in, discover_single_file, format_display_name, ScriptType,
    ToolAvailability, WalkEntry,
};

fn all_tools() -> ToolAvailability {
    ToolAvailability {
        devbox: true,
        task: true,
        make: true,
        just: true,
        cargo: true,
        nx: true,
        gradle: true,
        bazel: true,
        terraform: true,
    }
}

fn no_tools() -> ToolAvailability {
    ToolAvailability {
        devbox: false,
        task: false,
        make: false,
        just: false,
        cargo: false,
        nx: false,
        gradle: false,
        bazel: false,
        terraform: false,
    }
}

fn file(path: &str) -> WalkEntry {
    WalkEntry { path: path.to_string(), is_file: true }
}

fn dir(path: &str) -> WalkEntry {
    WalkEntry { path: path.to_string(), is_file: false }
}

#[test]
fn discovery_test_format_display_name() {
    assert_eq!(format_display_name("example"), "Example");
    assert_eq!(format_display_name("example_file"), "Example File");
    assert_eq!(format_display_name("example-file"), "Example File");
    assert_eq!(format_display_name("my_test_script"), "My Test Script");
    assert_eq!(
        format_display_name("another-test-script"),
        "Another Test Script"
    );
    assert_eq!(format_display_name("🏠 homelab"), "🏠 Homelab");
    assert_eq!(format_display_name("🛠️ utilities"), "🛠️ Utilities");
    assert_eq!(format_display_name("UPPERCASE"), "Uppercase");
    assert_eq!(
        format_display_name("mixed_CASE-example"),
        "Mixed Case Example"
    );
    assert_eq!(format_display_name("service.auth"), "Service Auth");
    assert_eq!(
        format_display_name("service.api-gateway"),
        "Service Api Gateway"
    );
}

#[test]
fn format_display_name_of_empty_and_separators_only() {
    assert_eq!(format_display_name(""), "");
    assert_eq!(format_display_name("__--"), "");
    assert_eq!(format_display_name("éclair"), "Éclair");
}

#[test]
fn test_discover_scripts_empty_directory() {
    let result = discover_in("/d", true, true, &[dir("/d")], all_tools()).unwrap();
    assert!(result.is_empty());
}

#[test]
fn test_discover_scripts_nonexistent_directory() {
    let result = discover_in("/d/nonexistent", false, false, &[], all_tools()).unwrap();
    assert!(result.is_empty());
}

#[test]
fn test_discover_scripts_single_script() {
    let entries = [dir("/d"), file("/d/test.sh")];
    let result = discover_in("/d", true, true, &entries, all_tools()).unwrap();
    assert_eq!(result.len(), 1);
    assert_eq!(result[0].name, "test");
    assert_eq!(result[0].category, "test");
    assert_eq!(result[0].display_name, "Test");
    assert_eq!(result[0].script_type, ScriptType::Bash);
}

#[test]
fn test_discover_scripts_ignores_non_sh_files() {
    let entries = [
        dir("/d"),
        file("/d/script.sh"),
        file("/d/readme.txt"),
        file("/d/data.json"),
    ];
    let result = discover_in("/d", true, true, &entries, all_tools()).unwrap();
    assert_eq!(result.len(), 1);
    assert_eq!(result[0].name, "script");
    assert_eq!(result[0].display_name, "Script");
}

#[test]
fn test_discover_scripts_subdirectories() {
    let entries = [
        dir("/d"),
        file("/d/root.sh"),
        dir("/d/subdir"),
        file("/d/subdir/sub.sh"),
    ];
    let result = discover_in("/d", true, true, &entries, all_tools()).unwrap();
    assert_eq!(result.len(), 2);
}

#[test]
fn test_discover_scripts_file_instead_of_directory() {
    let result = discover_in("/d/file.txt", true, false, &[], all_tools());
    let err = result.err().unwrap();
    assert!(err.message.contains("not a directory"));
    assert_eq!(err.message, "Path '/d/file.txt' exists but is not a directory");
}

#[test]
fn test_discover_scripts_with_emoji_filenames() {
    let entries = [
        dir("/d"),
        file("/d/🏠 homelab.sh"),
        file("/d/🛠️ utilities.sh"),
        file("/d/🖥️ system.sh"),
    ];
    let result = discover_in("/d", true, true, &entries, all_tools()).unwrap();
    assert_eq!(result.len(), 3);
    let homelab = result.iter().find(|s| s.name == "🏠 homelab").unwrap();
    assert_eq!(homelab.category, "🏠 homelab");
    assert_eq!(homelab.display_name, "🏠 Homelab");
    let utilities = result.iter().find(|s| s.name == "🛠️ utilities").unwrap();
    assert_eq!(utilities.display_name, "🛠️ Utilities");
    let system = result.iter().find(|s| s.name == "🖥️ system").unwrap();
    assert_eq!(system.display_name, "🖥️ System");
}

#[test]
fn test_discover_package_json() {
    let entries = [dir("/work/proj"), file("/work/proj/package.json")];
    let result = discover_in("/work/proj", true, true, &entries, all_tools()).unwrap();
    assert_eq!(result.len(), 1);
    assert_eq!(result[0].script_type, ScriptType::PackageJson);
    assert_eq!(result[0].category, "proj");
}

#[test]
fn test_discover_all_script_types() {
    let entries = [
        dir("/p"),
        file("/p/script.sh"),
        file("/p/package.json"),
        file("/p/devbox.json"),
    ];
    let result = discover_in("/p", true, true, &entries, all_tools()).unwrap();
    assert_eq!(result.len(), 3);
    assert_eq!(result[0].script_type, ScriptType::Bash);
    assert_eq!(result[1].script_type, ScriptType::PackageJson);
    assert_eq!(result[2].script_type, ScriptType::DevboxJson);
}

#[test]
fn test_discover_makefile() {
    let entries = [dir("/p"), file("/p/Makefile")];
    let with_make = discover_in("/p", true, true, &entries, all_tools()).unwrap();
    assert_eq!(with_make.len(), 1);
    assert_eq!(with_make[0].script_type, ScriptType::Makefile);
    assert!(with_make[0].path.ends_with("Makefile"));
    assert!(with_make[0].display_name.contains("🔨"));
    let without = discover_in("/p", true, true, &entries, no_tools()).unwrap();
    assert!(without.is_empty());
}

#[test]
fn test_discover_terraform_single_tf_file_per_dir() {
    let entries = [
        dir("/infra"),
        file("/infra/main.tf"),
        file("/infra/outputs.tf"),
        file("/infra/variables.tf"),
    ];
    let result = discover_in("/infra", true, true, &entries, all_tools()).unwrap();
    assert_eq!(result.len(), 1);
    assert_eq!(result[0].script_type, ScriptType::Terraform);
    assert_eq!(result[0].path, "/infra");
    assert!(result[0].display_name.contains("🏗️"));
}

#[test]
fn test_discover_bazel_single_entry_per_dir() {
    let entries = [
        dir("/b"),
        file("/b/WORKSPACE"),
        file("/b/BUILD"),
        file("/b/MODULE.bazel"),
    ];
    let result = discover_in("/b", true, true, &entries, all_tools()).unwrap();
    assert_eq!(result.len(), 1);
    assert_eq!(result[0].script_type, ScriptType::Bazel);
    assert_eq!(result[0].path, "/b");
    assert!(result[0].display_name.contains("🌿"));
}

#[test]
fn test_discover_gradle_single_entry_per_dir() {
    let entries = [dir("/g"), file("/g/build.gradle"), file("/g/settings.gradle")];
    let result = discover_in("/g", true, true, &entries, all_tools()).unwrap();
    assert_eq!(result.len(), 1);
    assert_eq!(result[0].script_type, ScriptType::Gradle);
}

#[test]
fn test_discover_single_file_bash() {
    let result = discover_single_file("/tmp/x/deploy.sh", true, true, all_tools()).unwrap();
    assert_eq!(result.name, "deploy");
    assert_eq!(result.category, "deploy");
    assert_eq!(result.display_name, "Deploy");
    assert_eq!(result.script_type, ScriptType::Bash);
}

#[test]
fn test_discover_single_file_bash_with_underscores() {
    let result =
        discover_single_file("/tmp/x/my_deploy_script.sh", true, true, all_tools()).unwrap();
    assert_eq!(result.name, "my_deploy_script");
    assert_eq!(result.display_name, "My Deploy Script");
}

#[test]
fn test_discover_single_file_package_json() {
    let result = discover_single_file("/tmp/web/package.json", true, true, all_tools()).unwrap();
    assert_eq!(result.script_type, ScriptType::PackageJson);
    assert_eq!(result.category, "web");
}

#[test]
fn test_discover_single_file_nonexistent() {
    let err = discover_single_file("/tmp/x/nonexistent.sh", false, false, all_tools())
        .err()
        .unwrap();
    assert!(err.message.contains("does not exist"));
}

#[test]
fn test_discover_single_file_directory() {
    let err = discover_single_file("/tmp/x", true, false, all_tools()).err().unwrap();
    assert!(err.message.contains("is not a file"));
}

#[test]
fn test_discover_single_file_unsupported_type() {
    let err = discover_single_file("/tmp/x/readme.txt", true, true, all_tools())
        .err()
        .unwrap();
    assert!(err.message.contains("Unsupported file type"));
}

#[test]
fn test_discover_single_file_with_emoji() {
    let result = discover_single_file("/tmp/x/🏠 homelab.sh", true, true, all_tools()).unwrap();
    assert_eq!(result.name, "🏠 homelab");
    assert_eq!(result.display_name, "🏠 Homelab");
}

#[test]
fn determine_script_type_needs_the_runner() {
    assert_eq!(
        determine_script_type("Makefile", "/p/Makefile", all_tools()).unwrap(),
        ScriptType::Makefile
    );
    let err = determine_script_type("Makefile", "/p/Makefile", no_tools()).err().unwrap();
    assert!(!err.message.is_empty());
    assert_eq!(
        determine_script_type("x.sh", "/p/x.sh", no_tools()).unwrap(),
        ScriptType::Bash
    );
}

#[test]
fn test_discover_scripts_categorization() {
    let entries = [
        dir("/d"),
        file("/d/fedora.sh"),
        file("/d/homelab.sh"),
        file("/d/util.sh"),
        file("/d/custom.sh"),
    ];
    let result = discover_in("/d", true, true, &entries, all_tools()).unwrap();
    assert_eq!(result.len(), 4);
    for (name, display) in [("fedora", "Fedora"), ("homelab", "Homelab"), ("util", "Util"), ("custom", "Custom")] {
        let s = result.iter().find(|s| s.name == name).unwrap();
        assert_eq!(s.category, name);
        assert_eq!(s.display_name, display);
    }
}

#[test]
fn test_discover_scripts_with_underscores_and_hyphens() {
    let entries = [
        dir("/d"),
        file("/d/example_file.sh"),
        file("/d/example-file.sh"),
        file("/d/my_test_script.sh"),
        file("/d/another-test-script.sh"),
    ];
    let result = discover_in("/d", true, true, &entries, all_tools()).unwrap();
    assert_eq!(result.len(), 4);
    let a = result.iter().find(|s| s.name == "example_file").unwrap();
    assert_eq!(a.category, "example_file");
    assert_eq!(a.display_name, "Example File");
    let b = result.iter().find(|s| s.name == "example-file").unwrap();
    assert_eq!(b.display_name, "Example File");
    let c = result.iter().find(|s| s.name == "my_test_script").unwrap();
    assert_eq!(c.display_name, "My Test Script");
    let d = result.iter().find(|s| s.name == "another-test-script").unwrap();
    assert_eq!(d.display_name, "Another Test Script");
}

#[test]
fn test_discover_mixed_scripts() {
    let entries = [dir("/p"), file("/p/script.sh"), file("/p/package.json")];
    let result = discover_in("/p", true, true, &entries, all_tools()).unwrap();
    assert_eq!(result.len(), 2);
    assert_eq!(result.iter().filter(|s| s.script_type == ScriptType::Bash).count(), 1);
    assert_eq!(result.iter().filter(|s| s.script_type == ScriptType::PackageJson).count(), 1);
}

#[test]
fn test_discover_devbox_json() {
    let entries = [dir("/work/proj"), file("/work/proj/devbox.json")];
    let result = discover_in("/work/proj", true, true, &entries, all_tools()).unwrap();
    assert_eq!(result.len(), 1);
    assert_eq!(result[0].script_type, ScriptType::DevboxJson);
    assert!(!result[0].category.is_empty());
    let without = discover_in("/work/proj", true, true, &entries, no_tools()).unwrap();
    assert!(without.is_empty());
}

#[test]
fn test_discover_taskfile() {
    let entries = [dir("/p"), file("/p/Taskfile.yml")];
    let result = discover_in("/p", true, true, &entries, all_tools()).unwrap();
    assert_eq!(result.len(), 1);
    assert_eq!(result[0].script_type, ScriptType::Task);
    assert!(result[0].path.ends_with("Taskfile.yml"));
    assert!(result[0].display_name.contains("📋"));
}

#[test]
fn test_discover_terraform_tf_files() {
    let entries = [dir("/infra"), file("/infra/main.tf"), file("/infra/variables.tf")];
    let result = discover_in("/infra", true, true, &entries, all_tools()).unwrap();
    let tf: Vec<_> = result.iter().filter(|s| s.script_type == ScriptType::Terraform).collect();
    assert_eq!(tf.len(), 1);
    assert!(tf[0].display_name.contains("🏗️"));
    assert_eq!(tf[0].path, "/infra");
    let without = discover_in("/infra", true, true, &entries, no_tools()).unwrap();
    assert!(without.is_empty());
}

#[test]
fn terraform_directories_each_get_one_entry() {
    let entries = [
        dir("/r"),
        file("/r/a/main.tf"),
        file("/r/b/main.tf"),
        file("/r/a/vars.tf"),
    ];
    let result = discover_in("/r", true, true, &entries, all_tools()).unwrap();
    let paths: Vec<&str> = result.iter().map(|s| s.path.as_str()).collect();
    assert_eq!(paths, vec!["/r/a", "/r/b"]);
}

#[test]
fn formatting_a_formatted_ascii_name_changes_nothing() {
    for name in ["example_file", "service.auth-API", "  MiXeD__case--x ", "a.b_c-d", ""] {
        let once = format_display_name(name);
        assert_eq!(format_display_name(&once), once);
    }
}

#[test]
fn the_script_subdirectories_are_searched() {
    assert_eq!(script_subdirectories(), vec!["script", "scripts", "jarvis"]);
}

#[test]
fn discovery_fails_without_scripts_or_functions() {
    assert!(check_scripts_found("/p", 2).is_ok());
    let e = check_scripts_found("/p", 0).unwrap_err();
    assert!(e.message.starts_with("No scripts found in /p (also checked: ./script/, ./scripts/, ./jarvis/)."));
    assert!(check_functions_found(1).is_ok());
    assert_eq!(
        check_functions_found(0).unwrap_err().message,
        "No functions found in any scripts. Make sure your scripts define bash functions."
    );
}

#[test]
fn scripts_in_a_subdirectory_take_its_name_as_category() {
    let entries = [
        dir("/d"),
        file("/d/root.sh"),
        dir("/d/subdir"),
        file("/d/subdir/sub.sh"),
        file("/d/subdir/other_tools.sh"),
    ];
    let result = discover_in("/d/", true, true, &entries, all_tools()).unwrap();
    assert_eq!(result.len(), 3);
    assert_eq!(result[0].name, "root");
    assert_eq!(result[0].category, "root");
    assert_eq!(result[0].display_name, "Root");
    assert_eq!(result[1].name, "sub");
    assert_eq!(result[1].category, "subdir");
    assert_eq!(result[1].display_name, "Subdir");
    assert_eq!(result[2].name, "other_tools");
    assert_eq!(result[2].category, "subdir");
}
