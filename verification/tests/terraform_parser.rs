use jarvis::script::terraform_parser::{
    build_common_commands, build_workspace_commands, parse_terraform_commands,
    parse_workspace_list, TerraformCommandType,
};

#[test]
fn test_parse_workspace_list_single_default() {
    let output = "* default\n";
    let workspaces = parse_workspace_list(output);
    assert_eq!(workspaces, vec!["default"]);
}
#[test]
fn test_parse_workspace_list_multiple() {
    let output = "  default\n* staging\n  production\n";
    let workspaces = parse_workspace_list(output);
    assert_eq!(workspaces, vec!["default", "staging", "production"]);
}
#[test]
fn test_parse_workspace_list_with_extra_whitespace() {
    let output = "  default  \n  staging  \n";
    let workspaces = parse_workspace_list(output);
    // trim() will strip trailing whitespace, but workspace names shouldn't
    // have trailing spaces — terraform doesn't produce them. We trim for safety.
    assert_eq!(workspaces.len(), 2);
}
#[test]
fn test_parse_workspace_list_empty() {
    let output = "";
    let workspaces = parse_workspace_list(output);
    assert!(workspaces.is_empty());
}
#[test]
fn test_parse_workspace_list_blank_lines() {
    let output = "\n\n* default\n\n  staging\n\n";
    let workspaces = parse_workspace_list(output);
    assert_eq!(workspaces, vec!["default", "staging"]);
}
#[test]
fn test_parse_workspace_list_complex_names() {
    let output = "  dev-us-east-1\n* prod-eu-west-1\n  staging-ap-south-1\n";
    let workspaces = parse_workspace_list(output);
    assert_eq!(
        workspaces,
        vec!["dev-us-east-1", "prod-eu-west-1", "staging-ap-south-1"]
    );
}
#[test]
fn test_build_common_commands_count() {
    let commands = build_common_commands("myproject");
    assert_eq!(commands.len(), 6);
}
#[test]
fn test_build_common_commands_names() {
    let commands = build_common_commands("myproject");
    let names: Vec<&str> = commands.iter().map(|c| c.name.as_str()).collect();
    assert_eq!(
        names,
        vec!["init", "validate", "plan", "apply", "destroy", "fmt"]
    );
}
#[test]
fn test_build_common_commands_category() {
    let commands = build_common_commands("infra");
    for cmd in &commands {
        assert_eq!(cmd.category, "infra");
    }
}
#[test]
fn test_build_common_commands_display_names() {
    let commands = build_common_commands("myproject");
    let init = commands.iter().find(|c| c.name == "init").expect("init");
    assert_eq!(init.display_name, "Init");

    let validate = commands
        .iter()
        .find(|c| c.name == "validate")
        .expect("validate");
    assert_eq!(validate.display_name, "Validate");
}
#[test]
fn test_build_common_commands_descriptions() {
    let commands = build_common_commands("myproject");
    let plan = commands.iter().find(|c| c.name == "plan").expect("plan");
    assert!(plan.description.contains("execution plan"));

    let apply = commands.iter().find(|c| c.name == "apply").expect("apply");
    assert!(apply.description.contains("Apply"));
}
#[test]
fn test_build_common_commands_emoji() {
    let commands = build_common_commands("myproject");
    for cmd in &commands {
        assert_eq!(cmd.emoji, Some("\u{1f3d7}\u{fe0f}".to_string()));
        assert_eq!(cmd.command_type, TerraformCommandType::Common);
    }
}
#[test]
fn test_build_common_commands_not_ignored() {
    let commands = build_common_commands("myproject");
    for cmd in &commands {
        assert!(!cmd.ignored);
    }
}
#[test]
fn test_build_workspace_commands() {
    let workspaces = vec!["default".to_string(), "staging".to_string()];
    let commands = build_workspace_commands(&workspaces, "infra");

    assert_eq!(commands.len(), 2);

    assert_eq!(commands[0].name, "workspace select default");
    assert_eq!(commands[0].display_name, "Workspace: Default");
    assert_eq!(
        commands[0].description,
        "terraform workspace select default"
    );
    assert_eq!(commands[0].command_type, TerraformCommandType::Workspace);
    assert_eq!(commands[0].emoji, Some("\u{1f4c2}".to_string())); // 📂

    assert_eq!(commands[1].name, "workspace select staging");
    assert_eq!(commands[1].display_name, "Workspace: Staging");
}
#[test]
fn test_build_workspace_commands_complex_names() {
    let workspaces = vec!["dev-us-east-1".to_string()];
    let commands = build_workspace_commands(&workspaces, "infra");

    assert_eq!(commands[0].name, "workspace select dev-us-east-1");
    assert_eq!(commands[0].display_name, "Workspace: Dev Us East 1");
}
#[test]
fn test_build_workspace_commands_empty() {
    let commands = build_workspace_commands(&[], "infra");
    assert!(commands.is_empty());
}
#[test]
fn test_build_workspace_commands_category() {
    let workspaces = vec!["staging".to_string()];
    let commands = build_workspace_commands(&workspaces, "my-infra");
    assert_eq!(commands[0].category, "my-infra");
}
#[test]
fn test_parse_terraform_commands_no_workspaces() {
    let commands = parse_terraform_commands(None, "myproject");
    // Should have only common commands
    assert_eq!(commands.len(), 6);
    for cmd in &commands {
        assert_eq!(cmd.command_type, TerraformCommandType::Common);
    }
}
#[test]
fn test_parse_terraform_commands_single_default_workspace() {
    // A single "default" workspace shouldn't produce workspace commands
    let ws_output = "* default\n";
    let commands = parse_terraform_commands(Some(ws_output), "myproject");
    assert_eq!(commands.len(), 6); // only common commands
}
#[test]
fn test_parse_terraform_commands_multiple_workspaces() {
    let ws_output = "  default\n* staging\n  production\n";
    let commands = parse_terraform_commands(Some(ws_output), "myproject");

    // 6 common + 3 workspace = 9
    assert_eq!(commands.len(), 9);

    let common: Vec<_> = commands
        .iter()
        .filter(|c| c.command_type == TerraformCommandType::Common)
        .collect();
    let workspace: Vec<_> = commands
        .iter()
        .filter(|c| c.command_type == TerraformCommandType::Workspace)
        .collect();

    assert_eq!(common.len(), 6);
    assert_eq!(workspace.len(), 3);
}
#[test]
fn test_parse_terraform_commands_empty_workspace_output() {
    let commands = parse_terraform_commands(Some(""), "myproject");
    // Empty output => no workspaces => only common commands
    assert_eq!(commands.len(), 6);
}
#[test]
fn test_parse_terraform_commands_two_workspaces() {
    let ws_output = "* default\n  staging\n";
    let commands = parse_terraform_commands(Some(ws_output), "infra");

    // 6 common + 2 workspace = 8
    assert_eq!(commands.len(), 8);

    let ws_cmds: Vec<_> = commands
        .iter()
        .filter(|c| c.command_type == TerraformCommandType::Workspace)
        .collect();
    assert_eq!(ws_cmds.len(), 2);

    let ws_names: Vec<&str> = ws_cmds.iter().map(|c| c.name.as_str()).collect();
    assert!(ws_names.contains(&"workspace select default"));
    assert!(ws_names.contains(&"workspace select staging"));
}
#[test]
fn test_terraform_command_type_equality() {
    assert_eq!(TerraformCommandType::Common, TerraformCommandType::Common);
    assert_eq!(
        TerraformCommandType::Workspace,
        TerraformCommandType::Workspace
    );
    assert_ne!(
        TerraformCommandType::Common,
        TerraformCommandType::Workspace
    );
}