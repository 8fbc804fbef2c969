use jarvis::ui::theme::Theme;
use jarvis::script::discovery::ScriptType;
use jarvis::script::parser::ScriptFunction;
use jarvis::ui::app::{App, FocusPane, TreeItem};

fn create_test_functions() -> Vec<ScriptFunction> {
    vec![
        ScriptFunction {
            name: "func1".to_string(),
            display_name: "Function 1".to_string(),
            category: "System".to_string(),
            description: "Test function 1".to_string(),
            emoji: None,
            ignored: false,
            script_type: ScriptType::Bash,
        },
        ScriptFunction {
            name: "func2".to_string(),
            display_name: "Function 2".to_string(),
            category: "System".to_string(),
            description: "Test function 2".to_string(),
            emoji: None,
            ignored: false,
            script_type: ScriptType::Bash,
        },
        ScriptFunction {
            name: "func3".to_string(),
            display_name: "Function 3".to_string(),
            category: "Utilities".to_string(),
            description: "Test function 3".to_string(),
            emoji: None,
            ignored: false,
            script_type: ScriptType::Bash,
        },
    ]
}

#[test]
fn test_app_new() {
    let functions = create_test_functions();
    let app = App::new(functions.clone(), "Test".to_string(), Theme::default_theme());

    assert_eq!(app.functions.len(), 3);
    assert_eq!(app.selected_index, 0);
    assert!(!app.should_quit);
    assert!(!app.search_mode);
    assert_eq!(app.focus, FocusPane::ScriptList);
    assert_eq!(app.project_title, "Test");
}

#[test]
fn test_app_categories() {
    let functions = create_test_functions();
    let app = App::new(functions, "Test".to_string(), Theme::default_theme());

    let categories = app.categories();
    assert_eq!(categories.len(), 2);
    assert!(categories.contains(&"System".to_string()));
    assert!(categories.contains(&"Utilities".to_string()));
}

#[test]
fn test_app_toggle_category() {
    let functions = create_test_functions();
    let mut app = App::new(functions, "Test".to_string(), Theme::default_theme());

    assert!(!app.is_category_expanded("System"));

    app.toggle_category("System");
    assert!(app.is_category_expanded("System"));

    app.toggle_category("System");
    assert!(!app.is_category_expanded("System"));
}

#[test]
fn test_app_expand_collapse_category() {
    let functions = create_test_functions();
    let mut app = App::new(functions, "Test".to_string(), Theme::default_theme());

    app.expand_category("System");
    assert!(app.is_category_expanded("System"));

    // Expanding again does not duplicate.
    app.expand_category("System");
    assert_eq!(app.expanded_categories.len(), 1);

    app.collapse_category("System");
    assert!(!app.is_category_expanded("System"));

    // Collapsing again is harmless.
    app.collapse_category("System");
    assert!(!app.is_category_expanded("System"));
}

#[test]
fn test_app_navigation_next_previous() {
    let functions = create_test_functions();
    let mut app = App::new(functions, "Test".to_string(), Theme::default_theme());

    assert_eq!(app.selected_index, 0);

    app.next();
    assert_eq!(app.selected_index, 1);

    app.next();
    assert_eq!(app.selected_index, 0); // wraps around

    app.previous();
    assert_eq!(app.selected_index, 1); // goes to the last row

    app.previous();
    assert_eq!(app.selected_index, 0);
}

#[test]
fn test_app_toggle_focus() {
    let functions = create_test_functions();
    let mut app = App::new(functions, "Test".to_string(), Theme::default_theme());

    assert_eq!(app.focus, FocusPane::ScriptList);

    app.toggle_focus();
    assert_eq!(app.focus, FocusPane::Details);

    app.toggle_focus();
    assert_eq!(app.focus, FocusPane::ScriptList);
}

#[test]
fn test_app_toggle_focus_with_output() {
    let functions = create_test_functions();
    let mut app = App::new(functions, "Test".to_string(), Theme::default_theme());

    app.output.push("Test output".to_string());

    assert_eq!(app.focus, FocusPane::ScriptList);

    app.toggle_focus();
    assert_eq!(app.focus, FocusPane::Details);

    app.toggle_focus();
    assert_eq!(app.focus, FocusPane::Output);

    app.toggle_focus();
    assert_eq!(app.focus, FocusPane::ScriptList);
}

#[test]
fn test_app_search_mode() {
    let functions = create_test_functions();
    let mut app = App::new(functions, "Test".to_string(), Theme::default_theme());

    assert!(!app.search_mode);
    assert_eq!(app.search_query, "");

    app.enter_search_mode();
    assert!(app.search_mode);
    assert_eq!(app.search_query, "");

    app.search_push_char('t');
    app.search_push_char('e');
    app.search_push_char('s');
    app.search_push_char('t');
    assert_eq!(app.search_query, "test");

    app.search_pop_char();
    assert_eq!(app.search_query, "tes");

    app.exit_search_mode();
    assert!(!app.search_mode);
    assert_eq!(app.search_query, "");
}

#[test]
fn test_app_output_scroll() {
    let functions = create_test_functions();
    let mut app = App::new(functions, "Test".to_string(), Theme::default_theme());

    for i in 0..10 {
        app.output.push(format!("Line {}", i));
    }

    assert_eq!(app.output_scroll, 0);

    app.scroll_output_down();
    assert_eq!(app.output_scroll, 1);

    app.scroll_output_down();
    assert_eq!(app.output_scroll, 2);

    app.scroll_output_up();
    assert_eq!(app.output_scroll, 1);

    app.scroll_output_up();
    assert_eq!(app.output_scroll, 0);

    // Never below zero.
    app.scroll_output_up();
    assert_eq!(app.output_scroll, 0);

    app.reset_output_scroll();
    assert_eq!(app.output_scroll, 0);
}

#[test]
fn test_app_toggle_info() {
    let functions = create_test_functions();
    let mut app = App::new(functions, "Test".to_string(), Theme::default_theme());

    assert!(!app.show_info);

    app.toggle_info();
    assert!(app.show_info);

    app.toggle_info();
    assert!(!app.show_info);
}

#[test]
fn test_app_tree_items_collapsed() {
    let functions = create_test_functions();
    let app = App::new(functions, "Test".to_string(), Theme::default_theme());

    let items = app.tree_items();
    // Only the categories show while collapsed.
    assert_eq!(items.len(), 2);

    match &items[0] {
        TreeItem::Category(name) => assert!(name == "System" || name == "Utilities"),
        _ => panic!("Expected category"),
    }
}

#[test]
fn test_app_tree_items_expanded() {
    let functions = create_test_functions();
    let mut app = App::new(functions, "Test".to_string(), Theme::default_theme());

    app.expand_category("System");

    let items = app.tree_items();
    // System, its two functions, then Utilities.
    assert_eq!(items.len(), 4);
}

#[test]
fn test_app_selected_item() {
    let functions = create_test_functions();
    let app = App::new(functions, "Test".to_string(), Theme::default_theme());

    let item = app.selected_item();
    assert!(item.is_some());

    match item.unwrap() {
        TreeItem::Category(_) => {}
        _ => panic!("Expected category at index 0"),
    }
}

#[test]
fn test_app_handle_left_right() {
    let functions = create_test_functions();
    let mut app = App::new(functions, "Test".to_string(), Theme::default_theme());

    assert!(!app.is_category_expanded("System"));

    app.selected_index = 0;

    app.handle_right();
    assert!(app.is_category_expanded("System"));

    app.handle_left();
    assert!(!app.is_category_expanded("System"));
}

#[test]
fn test_app_empty_functions() {
    let app = App::new(vec![], "Test".to_string(), Theme::default_theme());

    assert_eq!(app.functions.len(), 0);
    assert_eq!(app.categories().len(), 0);
    assert_eq!(app.tree_items().len(), 0);
}

#[test]
fn test_app_search_filtering() {
    let functions = create_test_functions();
    let mut app = App::new(functions, "Test".to_string(), Theme::default_theme());

    app.enter_search_mode();
    app.search_push_char('f');
    app.search_push_char('u');
    app.search_push_char('n');
    app.search_push_char('c');
    app.search_push_char('3');

    // Only Utilities and func3 match.
    let items = app.tree_items();
    assert_eq!(items.len(), 2);
}

#[test]
fn categories_come_out_sorted_without_duplicates() {
    let mut functions = create_test_functions();
    functions.reverse();
    let app = App::new(functions, "Test".to_string(), Theme::default_theme());
    assert_eq!(app.categories(), vec!["System".to_string(), "Utilities".to_string()]);
}

#[test]
fn focus_cycles_back_after_three_steps_with_output() {
    let mut app = App::new(create_test_functions(), "Test".to_string(), Theme::default_theme());
    app.output.push("x".to_string());
    let start = app.focus;
    app.toggle_focus();
    app.toggle_focus();
    app.toggle_focus();
    assert_eq!(app.focus, start);
}

#[test]
fn next_then_previous_returns_to_the_same_row() {
    let mut app = App::new(create_test_functions(), "Test".to_string(), Theme::default_theme());
    app.expand_category("System");
    app.selected_index = 2;
    app.next();
    app.previous();
    assert_eq!(app.selected_index, 2);
    app.selected_index = 3;
    app.next();
    assert_eq!(app.selected_index, 0);
    app.previous();
    assert_eq!(app.selected_index, 3);
}

#[test]
fn search_push_then_pop_restores_the_query() {
    let mut app = App::new(create_test_functions(), "Test".to_string(), Theme::default_theme());
    app.enter_search_mode();
    app.search_push_char('a');
    let before = app.search_query.clone();
    app.search_push_char('é');
    app.search_pop_char();
    assert_eq!(app.search_query, before);
}

#[test]
fn search_matches_description_case_insensitively() {
    let mut app = App::new(create_test_functions(), "Test".to_string(), Theme::default_theme());
    app.enter_search_mode();
    for c in "TEST FUNCTION 2".chars() {
        app.search_push_char(c);
    }
    let items = app.tree_items();
    assert_eq!(items.len(), 2);
    match &items[1] {
        TreeItem::Function(f) => assert_eq!(f.name, "func2"),
        _ => panic!("Expected function"),
    }
}

#[test]
fn ensure_selected_visible_scrolls_the_list() {
    let mut app = App::new(create_test_functions(), "Test".to_string(), Theme::default_theme());
    app.expand_category("System");
    app.expand_category("Utilities");
    app.selected_index = 4;
    app.ensure_selected_visible(2);
    assert_eq!(app.script_scroll, 3);
    app.selected_index = 0;
    app.ensure_selected_visible(2);
    assert_eq!(app.script_scroll, 0);
}
