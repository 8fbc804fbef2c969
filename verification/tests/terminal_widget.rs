use jarvis::ui::terminal_widget::{drag_selection, get_selected_text, press_selection, ScreenGrid, Selection};

fn selection(active: bool, start: Option<(usize, usize)>, end: Option<(usize, usize)>) -> Selection {
    Selection { active, start, end }
}

/// A 24x80 screen showing `lines`, empty cells elsewhere.
fn grid_with_lines(lines: &[&str]) -> ScreenGrid {
    let rows = 24;
    let cols = 80;
    let mut cells = Vec::new();
    for r in 0..rows {
        let chars: Vec<char> = lines.get(r).map(|l| l.chars().collect()).unwrap_or_default();
        let mut row = Vec::new();
        for c in 0..cols {
            row.push(Some(chars.get(c).map(|ch| ch.to_string()).unwrap_or_default()));
        }
        cells.push(row);
    }
    ScreenGrid { rows, cols, cells }
}

#[test]
fn test_is_selected_inactive() {
    let view = selection(false, Some((0, 0)), Some((2, 5)));
    assert!(!view.is_selected(1, 3));
}

#[test]
fn test_is_selected_no_start() {
    let view = selection(true, None, Some((2, 5)));
    assert!(!view.is_selected(1, 3));
}

#[test]
fn test_is_selected_no_end() {
    let view = selection(true, Some((0, 0)), None);
    assert!(!view.is_selected(1, 3));
}

#[test]
fn test_is_selected_single_row() {
    let view = selection(true, Some((2, 3)), Some((2, 7)));
    assert!(!view.is_selected(2, 2));
    assert!(view.is_selected(2, 3));
    assert!(view.is_selected(2, 5));
    assert!(view.is_selected(2, 7));
    assert!(!view.is_selected(2, 8));
    assert!(!view.is_selected(1, 5));
    assert!(!view.is_selected(3, 5));
}

#[test]
fn test_is_selected_multi_row() {
    let view = selection(true, Some((1, 5)), Some((3, 10)));
    assert!(!view.is_selected(0, 5));
    assert!(!view.is_selected(1, 4));
    assert!(view.is_selected(1, 5));
    assert!(view.is_selected(1, 79));
    assert!(view.is_selected(2, 0));
    assert!(view.is_selected(2, 40));
    assert!(view.is_selected(2, 79));
    assert!(view.is_selected(3, 0));
    assert!(view.is_selected(3, 10));
    assert!(!view.is_selected(3, 11));
    assert!(!view.is_selected(4, 5));
}

#[test]
fn test_is_selected_reversed_start_end() {
    let view = selection(true, Some((3, 10)), Some((1, 5)));
    assert!(view.is_selected(1, 5));
    assert!(view.is_selected(2, 0));
    assert!(view.is_selected(3, 10));
    assert!(!view.is_selected(3, 11));
}

#[test]
fn test_get_selected_text_simple() {
    let grid = grid_with_lines(&["Hello, World!"]);
    let text = get_selected_text(&grid, (0, 0), (0, 4));
    assert_eq!(text, "Hello");
}

#[test]
fn test_get_selected_text_reversed_selection() {
    let grid = grid_with_lines(&["Hello, World!"]);
    let text = get_selected_text(&grid, (0, 4), (0, 0));
    assert_eq!(text, "Hello");
}

#[test]
fn test_get_selected_text_multiline() {
    let grid = grid_with_lines(&["line1", "line2", "line3"]);
    let text = get_selected_text(&grid, (0, 0), (1, 4));
    assert!(text.contains("line1"));
    assert!(text.contains("line2"));
}

#[test]
fn get_selected_text_trims_each_line() {
    let grid = grid_with_lines(&["ab", "cd"]);
    let text = get_selected_text(&grid, (0, 0), (1, 79));
    assert_eq!(text, "ab\ncd");
}

#[test]
fn a_press_in_the_output_area_starts_a_selection_there() {
    let area = Some((10u16, 5u16, 20u16, 8u16));
    let s = press_selection(area, 12, 6);
    assert!(s.active);
    assert_eq!(s.start, Some((1, 2)));
    assert_eq!(s.end, Some((1, 2)));
    let outside = press_selection(area, 30, 6);
    assert!(!outside.active);
    assert_eq!(outside.start, None);
    let no_output = press_selection(None, 12, 6);
    assert!(!no_output.active);
    assert_eq!(no_output.end, None);
}

#[test]
fn a_drag_ends_the_selection_at_the_nearest_cell_of_the_area() {
    let area = Some((10u16, 5u16, 20u16, 8u16));
    let mut s = press_selection(area, 12, 6);
    drag_selection(&mut s, area, 100, 0);
    assert_eq!(s.start, Some((1, 2)));
    assert_eq!(s.end, Some((0, 19)));
    drag_selection(&mut s, area, 0, 100);
    assert_eq!(s.end, Some((7, 0)));
    let mut idle = selection(false, None, None);
    drag_selection(&mut idle, area, 12, 6);
    assert_eq!(idle.end, None);
}
