use jarvis::script::executor::function_invocation;
use jarvis::script::executor::is_valid_bash_identifier as executor_is_valid_bash_identifier;
use jarvis::script::utils::is_valid_bash_identifier;

#[test]
fn utils_test_is_valid_bash_identifier_valid_names() {
    assert!(is_valid_bash_identifier("valid_name"));
    assert!(is_valid_bash_identifier("_underscore"));
    assert!(is_valid_bash_identifier("name123"));
    assert!(is_valid_bash_identifier("CamelCase"));
    assert!(is_valid_bash_identifier("UPPERCASE"));
    assert!(is_valid_bash_identifier("mixed_Case_123"));
    assert!(is_valid_bash_identifier("snake_case_123"));
}

#[test]
fn utils_test_is_valid_bash_identifier_invalid_names() {
    assert!(!is_valid_bash_identifier(""));
    assert!(!is_valid_bash_identifier("123start"));
    assert!(!is_valid_bash_identifier("has-dash"));
    assert!(!is_valid_bash_identifier("has space"));
    assert!(!is_valid_bash_identifier("has.dot"));
    assert!(!is_valid_bash_identifier("has$dollar"));
    assert!(!is_valid_bash_identifier("has@at"));
    assert!(!is_valid_bash_identifier("has!bang"));
}

#[test]
fn executor_test_is_valid_bash_identifier_valid_names() {
    assert!(executor_is_valid_bash_identifier("valid_name"));
    assert!(executor_is_valid_bash_identifier("_underscore"));
    assert!(executor_is_valid_bash_identifier("name123"));
    assert!(executor_is_valid_bash_identifier("CamelCase"));
    assert!(executor_is_valid_bash_identifier("UPPERCASE"));
    assert!(executor_is_valid_bash_identifier("mixed_Case_123"));
}

#[test]
fn executor_test_is_valid_bash_identifier_invalid_names() {
    assert!(!executor_is_valid_bash_identifier(""));
    assert!(!executor_is_valid_bash_identifier("123start"));
    assert!(!executor_is_valid_bash_identifier("has-dash"));
    assert!(!executor_is_valid_bash_identifier("has space"));
    assert!(!executor_is_valid_bash_identifier("has.dot"));
    assert!(!executor_is_valid_bash_identifier("has$dollar"));
    assert!(!executor_is_valid_bash_identifier("has@at"));
    assert!(!executor_is_valid_bash_identifier("has!bang"));
}

#[test]
fn test_execute_function_interactive_invalid_function_name() {
    let err = function_invocation("/tmp/s/test.sh", "123invalid").err().unwrap();
    assert!(err.message.contains("Invalid function name"));
}

#[test]
fn test_execute_function_interactive_empty_function_name() {
    let err = function_invocation("/tmp/s/test.sh", "").err().unwrap();
    assert!(err.message.contains("cannot be empty"));
}

#[test]
fn function_invocation_sources_the_script_from_its_directory() {
    let cmd = function_invocation("/tmp/s/test.sh", "hello").unwrap();
    assert_eq!(cmd, "cd \"/tmp/s\" && source \"test.sh\" && hello");
}
