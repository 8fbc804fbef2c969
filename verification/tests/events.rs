use jarvis::ui::theme::Theme;
use jarvis::cli::{Key, KeyCode};
use jarvis::script::discovery::ScriptType;
use jarvis::script::parser::ScriptFunction;
use jarvis::ui::app::{App, FocusPane};
use jarvis::ui::events::{handle_key, original_category, pty_size, show_started_output, KeyAction};
use jarvis::usage::storage::FREQUENTLY_USED_CATEGORY;

fn key(code: KeyCode) -> Key {
    Key { code, ctrl: false }
}

fn create_test_app() -> App {
    let functions = vec![
        ScriptFunction {
            name: "test_func1".to_string(),
            display_name: "Test Function 1".to_string(),
            category: "test_category".to_string(),
            description: "Test description 1".to_string(),
            emoji: Some("\u{1f680}".to_string()),
            ignored: false,
            script_type: ScriptType::Bash,
        },
        ScriptFunction {
            name: "test_func2".to_string(),
            display_name: "Test Function 2".to_string(),
            category: "test_category".to_string(),
            description: "Test description 2".to_string(),
            emoji: None,
            ignored: false,
            script_type: ScriptType::Bash,
        },
    ];
    App::new(functions, "Test Project".to_string(), Theme::default_theme())
}

#[test]
fn test_quit_with_q_key() {
    let mut app = create_test_app();
    assert!(!app.should_quit);
    handle_key(&mut app, key(KeyCode::Char('q')), false);
    assert!(app.should_quit);
}

#[test]
fn test_quit_with_capital_q_key() {
    let mut app = create_test_app();
    handle_key(&mut app, key(KeyCode::Char('Q')), false);
    assert!(app.should_quit);
}

#[test]
fn test_info_modal_toggle() {
    let mut app = create_test_app();
    assert!(!app.show_info);
    handle_key(&mut app, key(KeyCode::Char('i')), false);
    assert!(app.show_info);
    handle_key(&mut app, key(KeyCode::Char('i')), false);
    assert!(!app.show_info);
}

#[test]
fn test_info_modal_closes_with_esc() {
    let mut app = create_test_app();
    handle_key(&mut app, key(KeyCode::Char('i')), false);
    assert!(app.show_info);
    handle_key(&mut app, key(KeyCode::Esc), false);
    assert!(!app.show_info);
}

#[test]
fn test_search_mode_enter_and_exit() {
    let mut app = create_test_app();
    assert!(!app.search_mode);
    handle_key(&mut app, key(KeyCode::Char('/')), false);
    assert!(app.search_mode);
    handle_key(&mut app, key(KeyCode::Esc), false);
    assert!(!app.search_mode);
}

#[test]
fn test_search_input_handling() {
    let mut app = create_test_app();
    handle_key(&mut app, key(KeyCode::Char('/')), false);
    for c in "test".chars() {
        handle_key(&mut app, key(KeyCode::Char(c)), false);
    }
    handle_key(&mut app, key(KeyCode::Backspace), false);
    assert!(app.search_mode);
    assert_eq!(app.search_query, "tes");
}

#[test]
fn enter_on_a_category_expands_it_and_on_an_item_runs_it() {
    let mut app = create_test_app();
    let action = handle_key(&mut app, key(KeyCode::Enter), false);
    assert!(matches!(action, KeyAction::Nothing));
    assert!(app.is_category_expanded("test_category"));
    handle_key(&mut app, key(KeyCode::Char('j')), false);
    assert_eq!(app.selected_index, 1);
    match handle_key(&mut app, key(KeyCode::Enter), false) {
        KeyAction::Run(f) => assert_eq!(f.name, "test_func1"),
        _ => panic!("Expected a run"),
    }
}

#[test]
fn keys_go_to_the_running_command_in_the_output_pane() {
    let mut app = create_test_app();
    show_started_output(&mut app);
    assert_eq!(app.focus, FocusPane::Output);
    assert_eq!(app.output_scroll, 0);
    match handle_key(&mut app, Key { code: KeyCode::Char('c'), ctrl: true }, true) {
        KeyAction::Send(bytes) => assert_eq!(bytes, vec![0x03]),
        _ => panic!("Expected bytes for the command"),
    }
    handle_key(&mut app, key(KeyCode::Esc), true);
    assert_eq!(app.focus, FocusPane::ScriptList);
}

#[test]
fn original_category_of_a_frequent_item() {
    let mut app = create_test_app();
    let frequent = vec![app.functions[1].clone()];
    app.set_frequent_functions(&frequent);
    let f = app.functions[2].clone();
    assert_eq!(f.category, FREQUENTLY_USED_CATEGORY);
    assert_eq!(original_category(&app, &f), "test_category");
    let g = app.functions[1].clone();
    assert_eq!(original_category(&app, &g), "test_category");
}

#[test]
fn pty_size_examples() {
    assert_eq!(pty_size(100, 40), (78, 34));
    assert_eq!(pty_size(20, 5), (40, 10));
}

#[test]
fn test_navigation_next_previous() {
    let mut app = create_test_app();
    app.next();
    app.previous();
    assert_eq!(app.selected_index, 0);
}

#[test]
fn test_search_mode_esc_key() {
    let mut app = create_test_app();
    app.enter_search_mode();
    assert!(app.search_mode);
    app.exit_search_mode();
    assert!(!app.search_mode);
}

#[test]
fn app_state_tests_test_format_display_name() {
    use_format_display_name();
}

fn use_format_display_name() {
    assert_eq!(jarvis::script::discovery::format_display_name("test_name"), "Test Name");
    assert_eq!(jarvis::script::discovery::format_display_name("my_function"), "My Function");
    assert_eq!(jarvis::script::discovery::format_display_name("single"), "Single");
    assert_eq!(jarvis::script::discovery::format_display_name(""), "");
}

fn output_app(lines: usize) -> App {
    let mut app = create_test_app();
    show_started_output(&mut app);
    app.output = (0..lines).map(|i| format!("line {}", i)).collect();
    app
}

#[test]
fn g_g_goes_to_the_top_and_capital_g_to_the_bottom() {
    let mut app = output_app(10);
    handle_key(&mut app, key(KeyCode::Char('G')), false);
    assert_eq!(app.output_scroll, 9);
    handle_key(&mut app, key(KeyCode::Char('g')), false);
    assert!(app.pending_g);
    assert_eq!(app.output_scroll, 9);
    handle_key(&mut app, key(KeyCode::Char('g')), false);
    assert!(!app.pending_g);
    assert_eq!(app.output_scroll, 0);
    handle_key(&mut app, key(KeyCode::Char('g')), false);
    handle_key(&mut app, key(KeyCode::Char('x')), false);
    assert!(!app.pending_g);
}

#[test]
fn ctrl_d_and_ctrl_u_ask_for_half_a_page() {
    let mut app = output_app(100);
    let ctrl_d = Key { code: KeyCode::Char('d'), ctrl: true };
    let ctrl_u = Key { code: KeyCode::Char('u'), ctrl: true };
    assert!(matches!(handle_key(&mut app, ctrl_d, false), KeyAction::HalfPageDown));
    app.scroll_output_half_page_down(20);
    assert_eq!(app.output_scroll, 10);
    app.scroll_output_half_page_down(400);
    assert_eq!(app.output_scroll, 99);
    assert!(matches!(handle_key(&mut app, ctrl_u, false), KeyAction::HalfPageUp));
    app.scroll_output_half_page_up(20);
    assert_eq!(app.output_scroll, 89);
    app.scroll_output_half_page_up(400);
    assert_eq!(app.output_scroll, 0);
    assert!(matches!(handle_key(&mut app, key(KeyCode::Char('d')), false), KeyAction::Nothing));
}

#[test]
fn the_theme_picker_previews_applies_and_cancels() {
    let mut app = create_test_app();
    assert_eq!(app.theme.name, "Catppuccin Mocha");
    assert_eq!(app.theme_picker_index, 0);
    handle_key(&mut app, key(KeyCode::Char('t')), false);
    assert!(app.show_theme_picker);
    handle_key(&mut app, key(KeyCode::Down), false);
    assert_eq!(app.theme_picker_index, 1);
    assert_eq!(app.theme.name, "Catppuccin Macchiato");
    handle_key(&mut app, key(KeyCode::Esc), false);
    assert!(!app.show_theme_picker);
    assert_eq!(app.theme.name, "Catppuccin Mocha");
    assert_eq!(app.theme_picker_index, 0);

    handle_key(&mut app, key(KeyCode::Char('t')), false);
    handle_key(&mut app, key(KeyCode::Up), false);
    assert_eq!(app.theme_picker_index, 10);
    assert_eq!(app.theme.name, "Rose Pine");
    match handle_key(&mut app, key(KeyCode::Enter), false) {
        KeyAction::SaveTheme(name) => assert_eq!(name, "Rose Pine"),
        _ => panic!("expected the theme to be saved"),
    }
    assert!(!app.show_theme_picker);
    assert_eq!(app.theme.name, "Rose Pine");
}

#[test]
fn the_picker_starts_on_the_theme_in_use() {
    let app = App::new(vec![], "P".to_string(), Theme::by_name("nord").unwrap());
    assert_eq!(app.theme_picker_index, 4);
}
