use jarvis::ui::theme::Theme;
use jarvis::script::discovery::ScriptType;
use jarvis::script::parser::ScriptFunction;
use jarvis::ui::app::{App, FocusPane, TreeItem};
use jarvis::ui::pty_runner::{finished_status, ExecutionStatus};
use jarvis::ui::view::{
    category_count_text, centered, decimal_string, footer_help, output_title, picker_height, picker_row,
    tree_row_label, tree_title, visible_rows,
};

fn func(name: &str, category: &str, emoji: Option<&str>) -> ScriptFunction {
    ScriptFunction {
        name: name.to_string(),
        display_name: name.to_uppercase(),
        category: category.to_string(),
        description: String::new(),
        emoji: emoji.map(|e| e.to_string()),
        ignored: false,
        script_type: ScriptType::Bash,
    }
}

#[test]
fn decimal_string_examples() {
    assert_eq!(decimal_string(0), "0");
    assert_eq!(decimal_string(7), "7");
    assert_eq!(decimal_string(10), "10");
    assert_eq!(decimal_string(4096), "4096");
    assert_eq!(decimal_string(u64::MAX), u64::MAX.to_string());
}

#[test]
fn tree_rows_read_like_the_list() {
    let mut app = App::new(
        vec![func("a", "Sys", Some("🚀")), func("b", "Sys", None)],
        "P".to_string(), Theme::default_theme());
    let cat = TreeItem::Category("Sys".to_string());
    assert_eq!(tree_row_label(&app, &cat), "▶ Sys");
    app.expand_category("Sys");
    assert_eq!(tree_row_label(&app, &cat), "▼ Sys");
    let items = app.tree_items();
    assert_eq!(tree_row_label(&app, &items[1]), "    🚀 A");
    assert_eq!(tree_row_label(&app, &items[2]), "    B");
}

#[test]
fn tree_title_shows_position_only_when_rows_overflow() {
    assert_eq!(tree_title("My Project", 0, 3, 10), "🤖 My Project");
    assert_eq!(tree_title("My Project", 4, 30, 10), "🤖 My Project [5/30]");
}

#[test]
fn visible_rows_clip_to_the_list() {
    assert_eq!(visible_rows(0, 10, 3), (0, 3));
    assert_eq!(visible_rows(5, 10, 30), (5, 15));
    assert_eq!(visible_rows(25, 10, 30), (25, 30));
    assert_eq!(visible_rows(40, 10, 30), (30, 30));
}

#[test]
fn category_count_counts_the_items_of_the_category() {
    let app = App::new(
        vec![func("a", "Sys", None), func("b", "Sys", None), func("c", "Other", None)],
        "P".to_string(), Theme::default_theme());
    assert_eq!(category_count_text(&app, "Sys"), "  (2 functions)");
    assert_eq!(category_count_text(&app, "None"), "  (0 functions)");
}

#[test]
fn output_titles_follow_the_status() {
    assert_eq!(output_title(ExecutionStatus::Idle, Some("Build"), 0, None), "💬 Output");
    assert_eq!(
        output_title(ExecutionStatus::Running, Some("Build"), 12, None),
        "⠹ Running: Build"
    );
    assert_eq!(output_title(ExecutionStatus::Succeeded, None, 0, None), "✅ Command");
    assert_eq!(
        output_title(ExecutionStatus::Failed, Some("Build"), 0, Some(2)),
        "❌ Build (exit 2)"
    );
    assert_eq!(
        output_title(ExecutionStatus::Failed, Some("Build"), 0, Some(-9)),
        "❌ Build (exit -9)"
    );
    assert_eq!(output_title(ExecutionStatus::Failed, Some("Build"), 0, None), "❌ Build");
}

#[test]
fn footer_help_depends_on_mode_and_focus() {
    assert!(footer_help(true, FocusPane::ScriptList).contains("Exit Search"));
    assert!(footer_help(false, FocusPane::Output).contains("Scroll"));
    assert!(footer_help(false, FocusPane::Details).contains("Quit"));
}

#[test]
fn centered_boxes() {
    assert_eq!(centered(100, 40, 60, 14), (20, 13));
    assert_eq!(centered(50, 10, 60, 14), (0, 0));
}

#[test]
fn finished_status_from_exit_codes() {
    assert_eq!(finished_status(Some(0)), (ExecutionStatus::Succeeded, 0));
    assert_eq!(finished_status(Some(3)), (ExecutionStatus::Failed, 3));
    assert_eq!(finished_status(Some(u32::MAX)), (ExecutionStatus::Failed, 1));
    assert_eq!(finished_status(None), (ExecutionStatus::Failed, 1));
}

#[test]
fn the_theme_picker_rows_and_height() {
    assert_eq!(picker_row("Nord", true), "▶ Nord");
    assert_eq!(picker_row("Nord", false), "  Nord");
    assert_eq!(picker_height(11, 40), 15);
    assert_eq!(picker_height(11, 12), 8);
    assert_eq!(picker_height(11, 3), 0);
}

#[test]
fn the_footer_names_the_theme_picker_and_the_output_keys() {
    assert!(footer_help(false, FocusPane::ScriptList).contains("[t] Theme"));
    assert!(footer_help(false, FocusPane::Output).contains("[gg] Top"));
}
