use jarvis::script::gradle_parser::parse_gradle_tasks_output;

#[test]
fn test_parse_gradle_tasks_basic() {
    let output = r#"
------------------------------------------------------------
Tasks runnable from root project 'my-project'
------------------------------------------------------------

Build tasks
-----------
assemble - Assembles the outputs of this project.
build - Assembles and tests this project.
clean - Deletes the build directory.

Application tasks
------------------
run - Runs this project as a JVM application.

Custom tasks
-----------
myTask - My custom task description.
"#;
    let tasks = parse_gradle_tasks_output(output, "myproject").unwrap();

    assert!(tasks.len() >= 3);
    let names: Vec<&str> = tasks.iter().map(|t| t.name.as_str()).collect();
    assert!(names.contains(&"assemble"));
    assert!(names.contains(&"build"));
    assert!(names.contains(&"clean"));
}
#[test]
fn test_parse_gradle_tasks_with_groups() {
    let output = r#"
------------------------------------------------------------
Tasks runnable from root project 'my-project'
------------------------------------------------------------

Build tasks
-----------
assemble - Assembles the outputs of this project.
build - Assembles and tests this project.

Application tasks
-----------------
run - Runs this project as a JVM application.

Other tasks
-----------
wrapper - Generates Gradle wrapper files.
"#;
    let tasks = parse_gradle_tasks_output(output, "myproject").unwrap();

    let build_tasks: Vec<_> = tasks
        .iter()
        .filter(|t| t.group.as_ref() == Some(&"Build".to_string()))
        .collect();
    assert!(!build_tasks.is_empty());

    let run_task = tasks.iter().find(|t| t.name == "run").unwrap();
    assert_eq!(run_task.group, Some("Application".to_string()));
}
#[test]
fn test_parse_gradle_tasks_descriptions() {
    let output = r#"
Build tasks
-----------
assemble - Assembles the outputs of this project.
build - Assembles and tests this project.
"#;
    let tasks = parse_gradle_tasks_output(output, "myproject").unwrap();

    let assemble = tasks.iter().find(|t| t.name == "assemble").unwrap();
    assert_eq!(assemble.description, "Assembles the outputs of this project.");
}
#[test]
fn test_parse_gradle_tasks_empty_output() {
    let tasks = parse_gradle_tasks_output("", "myproject").unwrap();
    assert!(tasks.is_empty());
}
#[test]
fn test_parse_gradle_tasks_category() {
    let output = "Build tasks\n-----------\nassemble - Build project.\n";
    let tasks = parse_gradle_tasks_output(output, "my-gradle-project").unwrap();

    for task in &tasks {
        assert_eq!(task.category, "my-gradle-project");
    }
}
#[test]
fn test_parse_gradle_tasks_display_names() {
    let output = "Build tasks\n-----------\nassemble - Assembles the outputs of this project.\n";
    let tasks = parse_gradle_tasks_output(output, "myproject").unwrap();

    let task = tasks.iter().find(|t| t.name == "assemble").unwrap();
    assert_eq!(task.display_name, "Assemble");
}