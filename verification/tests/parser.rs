use jarvis::script::parser::parse_script_content;

#[test]
fn test_parse_script_valid_single_function() {
            let content = r#"#!/bin/bash

hello_world() {
    echo "Hello"
}
"#;
    
    let result = parse_script_content(content, "Test");
    assert_eq!(result.len(), 1);
    assert_eq!(result[0].name, "hello_world");
    assert_eq!(result[0].display_name, "Hello World");
    assert_eq!(result[0].category, "Test");
}
#[test]
fn test_parse_script_multiple_functions() {
            let content = r#"#!/bin/bash

func_one() {
    echo "one"
}

func_two() {
    echo "two"
}

func_three() {
    echo "three"
}
"#;
    
    let result = parse_script_content(content, "Test");
    assert_eq!(result.len(), 3);
    assert_eq!(result[0].name, "func_one");
    assert_eq!(result[0].display_name, "Func One");
    assert_eq!(result[1].name, "func_two");
    assert_eq!(result[1].display_name, "Func Two");
    assert_eq!(result[2].name, "func_three");
    assert_eq!(result[2].display_name, "Func Three");
}
#[test]
fn test_parse_script_function_keyword() {
            let content = r#"#!/bin/bash

function first() {
    echo "first"
}

function second() {
    echo "second"
}
"#;
    
    let result = parse_script_content(content, "Test");
    assert_eq!(result.len(), 2);
    assert_eq!(result[0].name, "first");
    assert_eq!(result[0].display_name, "First");
    assert_eq!(result[1].name, "second");
    assert_eq!(result[1].display_name, "Second");
}
#[test]
fn test_parse_script_no_functions() {
            let content = r#"#!/bin/bash
echo "Just a script"
"#;
    
    let result = parse_script_content(content, "Test");
    assert_eq!(result.len(), 0);
}
#[test]
fn test_parse_script_empty_file() {
            let content = "";
    
    let result = parse_script_content(content, "Test");
    assert_eq!(result.len(), 0);
}
#[test]
fn test_parse_script_underscore_functions() {
            let content = r#"#!/bin/bash

my_custom_function() {
    echo "custom"
}

another_test_func() {
    echo "test"
}
"#;
    
    let result = parse_script_content(content, "Test");
    assert_eq!(result.len(), 2);
    assert_eq!(result[0].name, "my_custom_function");
    assert_eq!(result[0].display_name, "My Custom Function");
    assert_eq!(result[1].name, "another_test_func");
    assert_eq!(result[1].display_name, "Another Test Func");
}
#[test]
fn test_parse_script_mixed_styles() {
            let content = r#"#!/bin/bash

# Function with 'function' keyword
function with_keyword() {
    echo "keyword"
}

# Function without 'function' keyword
without_keyword() {
    echo "no keyword"
}

# Another with keyword
function another_with_keyword() {
    echo "another"
}
"#;
    
    let result = parse_script_content(content, "Test");
    assert_eq!(result.len(), 3);
    assert_eq!(result[0].name, "with_keyword");
    assert_eq!(result[1].name, "without_keyword");
    assert_eq!(result[2].name, "another_with_keyword");
}
#[test]
fn test_parse_script_whitespace_variations() {
            let content = r#"#!/bin/bash

# Various whitespace patterns
func1(){
    echo "no spaces"
}

func2() {
    echo "space before brace"
}

func3()  {
    echo "multiple spaces"
}

function func4(){
    echo "keyword no spaces"
}
"#;
    
    let result = parse_script_content(content, "Test");
    assert_eq!(result.len(), 4);
    assert_eq!(result[0].name, "func1");
    assert_eq!(result[1].name, "func2");
    assert_eq!(result[2].name, "func3");
    assert_eq!(result[3].name, "func4");
}
#[test]
fn test_parse_script_with_emoji_annotation() {
            let content = r#"#!/bin/bash

# @emoji 🚀
# @description Deploy the application to production
deploy_app() {
    echo "Deploying..."
}

# No annotations
simple_func() {
    echo "Simple"
}

# @emoji 🧪
test_suite() {
    echo "Testing..."
}
"#;
    
    let result = parse_script_content(content, "Test");

    assert_eq!(result.len(), 3);

    // First function with both emoji and description
    assert_eq!(result[0].name, "deploy_app");
    assert_eq!(result[0].emoji, Some("🚀".to_string()));
    assert_eq!(
        result[0].description,
        "Deploy the application to production"
    );

    // Second function without annotations
    assert_eq!(result[1].name, "simple_func");
    assert_eq!(result[1].emoji, None);
    assert_eq!(result[1].description, "Execute: Simple Func");

    // Third function with emoji only
    assert_eq!(result[2].name, "test_suite");
    assert_eq!(result[2].emoji, Some("🧪".to_string()));
    assert_eq!(result[2].description, "Execute: Test Suite");
}
#[test]
fn test_parse_script_description_only() {
            let content = r#"#!/bin/bash

# @description This is a custom description
my_function() {
    echo "Hello"
}
"#;
    
    let result = parse_script_content(content, "Test");
    assert_eq!(result.len(), 1);
    assert_eq!(result[0].name, "my_function");
    assert_eq!(result[0].emoji, None);
    assert_eq!(result[0].description, "This is a custom description");
}
#[test]
fn test_parse_script_annotations_with_spacing() {
            let content = r#"#!/bin/bash

#@emoji    💾  
#    @description    Backup database with extra spaces   
backup_db() {
    echo "Backing up..."
}
"#;
    
    let result = parse_script_content(content, "Test");
    assert_eq!(result.len(), 1);
    assert_eq!(result[0].name, "backup_db");
    assert_eq!(result[0].emoji, Some("💾".to_string()));
    assert_eq!(result[0].description, "Backup database with extra spaces");
}
#[test]
fn test_parse_script_ignore_annotation() {
            let content = r#"#!/bin/bash

# @ignore
format_string() {
    echo "Utility function"
}

public_function() {
    echo "Public function"
}
"#;
    
    let result = parse_script_content(content, "Test");
    assert_eq!(result.len(), 2);

    // First function should be ignored
    let format_func = result.iter().find(|f| f.name == "format_string").unwrap();
    assert_eq!(format_func.ignored, true);

    // Second function should not be ignored
    let public_func = result.iter().find(|f| f.name == "public_function").unwrap();
    assert_eq!(public_func.ignored, false);
}
#[test]
fn test_parse_script_ignore_with_other_annotations() {
            let content = r#"#!/bin/bash

# @ignore
# @emoji 🔧
# @description Helper function for string formatting
_helper_function() {
    echo "Helper"
}

# @emoji 🚀
# @description Main deployment function
deploy() {
    echo "Deploying..."
}
"#;
    
    let result = parse_script_content(content, "Test");
    assert_eq!(result.len(), 2);

    // Helper function should be ignored but still have metadata
    let helper = result
        .iter()
        .find(|f| f.name == "_helper_function")
        .unwrap();
    assert_eq!(helper.ignored, true);
    assert_eq!(helper.emoji, Some("🔧".to_string()));
    assert_eq!(helper.description, "Helper function for string formatting");

    // Deploy function should not be ignored
    let deploy = result.iter().find(|f| f.name == "deploy").unwrap();
    assert_eq!(deploy.ignored, false);
    assert_eq!(deploy.emoji, Some("🚀".to_string()));
    assert_eq!(deploy.description, "Main deployment function");
}
#[test]
fn test_parse_script_multiple_ignored_functions() {
            let content = r#"#!/bin/bash

# @ignore
_private_helper() {
    echo "Private"
}

# @ignore
validate_input() {
    echo "Validate"
}

main_function() {
    echo "Main"
}

# @ignore
another_helper() {
    echo "Helper"
}
"#;
    
    let result = parse_script_content(content, "Test");
    assert_eq!(result.len(), 4);

    // Count ignored functions
    let ignored_count = result.iter().filter(|f| f.ignored).count();
    assert_eq!(ignored_count, 3);

    // Verify main_function is not ignored
    let main = result.iter().find(|f| f.name == "main_function").unwrap();
    assert_eq!(main.ignored, false);
}