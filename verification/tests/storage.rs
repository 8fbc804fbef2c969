use std::hash::{Hash, Hasher};
use jarvis::script::discovery::ScriptType;
use jarvis::ui::pty_runner::ExecutionStatus;
use jarvis::usage::storage::{simple_hash, usage_file_name, ProjectUsage, Timestamp};

const NOW: Timestamp = Timestamp { secs: 1_700_000_000, nanos: 0 };

fn count_of(usage: &ProjectUsage, name: &str) -> Option<u64> {
    usage
        .entries
        .iter()
        .find(|e| e.function_name == name)
        .map(|e| e.count)
}

#[test]
fn test_project_usage_new() {
    let usage = ProjectUsage::new("/test/project".to_string());
    assert_eq!(usage.project_path, "/test/project");
    assert!(usage.entries.is_empty());
}

#[test]
fn test_project_usage_record_usage() {
    let mut usage = ProjectUsage::new("/test/project".to_string());

    usage.record_usage_at("build", ScriptType::Bash, "Build", NOW);
    assert_eq!(usage.entries.len(), 1);
    assert_eq!(count_of(&usage, "build"), Some(1));

    usage.record_usage_at("build", ScriptType::Bash, "Build", NOW);
    assert_eq!(count_of(&usage, "build"), Some(2));

    usage.record_usage_at("test", ScriptType::PackageJson, "Test", NOW);
    assert_eq!(usage.entries.len(), 2);
    assert_eq!(count_of(&usage, "test"), Some(1));
}

#[test]
fn test_project_usage_get_frequent() {
    let mut usage = ProjectUsage::new("/test/project".to_string());

    for _ in 0..10 {
        usage.record_usage_at("build", ScriptType::Bash, "Build", NOW);
    }
    for _ in 0..5 {
        usage.record_usage_at("test", ScriptType::Bash, "Test", NOW);
    }
    for _ in 0..3 {
        usage.record_usage_at("lint", ScriptType::Bash, "Lint", NOW);
    }

    let frequent = usage.get_frequent(2);
    assert_eq!(frequent.len(), 2);
    assert_eq!(frequent[0].function_name, "build");
    assert_eq!(frequent[0].count, 10);
    assert_eq!(frequent[1].function_name, "test");
    assert_eq!(frequent[1].count, 5);
}

#[test]
fn record_usage_at_sets_the_time_kind_and_category() {
    let mut usage = ProjectUsage::new("/p".to_string());
    let t1 = Timestamp { secs: 100, nanos: 5 };
    let t2 = Timestamp { secs: 200, nanos: 0 };
    usage.record_usage_at("build", ScriptType::Bash, "Old", t1);
    usage.record_usage_at("build", ScriptType::Makefile, "New", t2);
    assert_eq!(usage.entries.len(), 1);
    let e = &usage.entries[0];
    assert_eq!(e.count, 2);
    assert_eq!(e.last_used, t2);
    assert_eq!(e.script_type, ScriptType::Makefile);
    assert_eq!(e.category, "New");
}

#[test]
fn get_frequent_keeps_first_recorded_order_on_ties() {
    let mut usage = ProjectUsage::new("/p".to_string());
    let t = Timestamp { secs: 1, nanos: 0 };
    usage.record_usage_at("a", ScriptType::Bash, "c", t);
    usage.record_usage_at("b", ScriptType::Bash, "c", t);
    usage.record_usage_at("c", ScriptType::Bash, "c", t);
    usage.record_usage_at("c", ScriptType::Bash, "c", t);
    let frequent = usage.get_frequent(10);
    let names: Vec<&str> = frequent.iter().map(|e| e.function_name.as_str()).collect();
    assert_eq!(names, vec!["c", "a", "b"]);
    assert!(usage.get_frequent(0).is_empty());
}

#[test]
fn test_simple_hash() {
    let hash1 = simple_hash("/home/user/project1");
    let hash2 = simple_hash("/home/user/project2");
    let hash3 = simple_hash("/home/user/project1");

    assert_ne!(hash1, hash2);
    assert_eq!(hash1, hash3);
}

#[test]
fn usage_file_name_is_sixteen_hex_digits() {
    assert_eq!(usage_file_name(0), "0000000000000000.json");
    assert_eq!(usage_file_name(0xdead_beef), "00000000deadbeef.json");
    assert_eq!(usage_file_name(u64::MAX), "ffffffffffffffff.json");
}

#[test]
fn only_successful_runs_are_counted() {
    let mut usage = ProjectUsage::new("/p".to_string());
    assert!(!usage.record_finished_run("build", ScriptType::Bash, "Build", ExecutionStatus::Failed, NOW));
    assert!(usage.entries.is_empty());
    assert!(usage.record_finished_run("build", ScriptType::Bash, "Build", ExecutionStatus::Succeeded, NOW));
    assert_eq!(count_of(&usage, "build"), Some(1));
    assert_eq!(usage.entries[0].last_used, NOW);
    assert!(usage.can_record("build"));
}

#[test]
fn simple_hash_is_the_std_hash_of_the_text() {
    for s in ["", "/home/user/project1", "ünïcode/path"] {
        let mut hasher = std::collections::hash_map::DefaultHasher::new();
        s.hash(&mut hasher);
        assert_eq!(simple_hash(s), hasher.finish());
    }
}
