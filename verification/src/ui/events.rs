//! What a key press does: the change of the browser's state and what the
//! terminal loop must do besides (run an item, or pass the key to the
//! running command).
use crate::cli::{key_bytes, key_event_to_bytes, Key, KeyCode};
use crate::script::parser::{FunctionView, ScriptFunction};
use crate::text::{chars_eq, to_chars};
use crate::ui::app::{
    expanded, focus_toggled, info_toggled, moved_next, moved_previous, output_scrolled_down,
    output_scrolled_up, output_to_bottom, output_to_top, row_at, search_deleted, search_entered, search_exited, search_typed,
    toggled, tree_of, went_left, went_right, App, AppView, FocusPane, TreeItem, TreeItemView,
};
use crate::usage::storage::FREQUENTLY_USED_CATEGORY;
use crate::ui::theme::{built_in_themes, theme_position, theme_position_exec, Theme};
use vstd::prelude::*;

verus! {

/// What the terminal loop does after a key press.
#[derive(Debug)]
pub enum KeyAction {
    Nothing,
    /// Run this item.
    Run(ScriptFunction),
    /// Write these bytes to the running command.
    Send(Vec<u8>),
    /// Scroll the output half of the visible lines down.
    HalfPageDown,
    /// Scroll the output half of the visible lines up.
    HalfPageUp,
    /// Keep the theme with this name in the settings.
    SaveTheme(String),
}

/// The plain-value form of a [`KeyAction`].
pub enum KeyActionView {
    Nothing,
    Run(FunctionView),
    Send(Seq<u8>),
    HalfPageDown,
    HalfPageUp,
    SaveTheme(Seq<char>),
}

impl View for KeyAction {
    type V = KeyActionView;

    open spec fn view(&self) -> KeyActionView {
        match self {
            KeyAction::Nothing => KeyActionView::Nothing,
            KeyAction::Run(f) => KeyActionView::Run(f@),
            KeyAction::Send(b) => KeyActionView::Send(b@),
            KeyAction::HalfPageDown => KeyActionView::HalfPageDown,
            KeyAction::HalfPageUp => KeyActionView::HalfPageUp,
            KeyAction::SaveTheme(n) => KeyActionView::SaveTheme(n@),
        }
    }
}

/// The key moves the selection down (and so may need the next row).
pub open spec fn moves_down(v: AppView, k: Key) -> bool {
    !v.show_info && !v.show_theme_picker && ((v.search_mode && k.code == KeyCode::Down) || (!v.search_mode && v.focus
        != FocusPane::Output && (k.code == KeyCode::Down || k.code == KeyCode::Char('j'))))
}

/// What a key does while the theme picker is open: arrows (and `j`, `k`)
/// move through the built-in themes, wrapping around, and preview the one
/// highlighted; Enter keeps it, to be saved; Esc or `t` puts back the theme
/// in use when the picker was opened.
pub open spec fn picker_step(v: AppView, c: KeyCode) -> (AppView, KeyActionView) {
    let ts = built_in_themes();
    if c == KeyCode::Esc || c == KeyCode::Char('t') {
        (match v.theme_before_picker {
            Some(saved) => AppView {
                theme: saved,
                theme_picker_index: theme_position(saved.name) as usize,
                show_theme_picker: false,
                theme_before_picker: None,
                ..v
            },
            None => AppView { show_theme_picker: false, theme_before_picker: None, ..v },
        }, KeyActionView::Nothing)
    } else if c == KeyCode::Down || c == KeyCode::Char('j') {
        let i = ((v.theme_picker_index + 1) % (ts.len() as int)) as usize;
        (AppView { theme_picker_index: i, theme: ts[i as int], ..v }, KeyActionView::Nothing)
    } else if c == KeyCode::Up || c == KeyCode::Char('k') {
        let i = if v.theme_picker_index == 0 {
            (ts.len() - 1) as usize
        } else {
            (v.theme_picker_index - 1) as usize
        };
        (AppView { theme_picker_index: i, theme: ts[i as int], ..v }, KeyActionView::Nothing)
    } else if c == KeyCode::Enter {
        (
            AppView { show_theme_picker: false, theme_before_picker: None, ..v },
            KeyActionView::SaveTheme(v.theme.name),
        )
    } else {
        (v, KeyActionView::Nothing)
    }
}

/// The picker can take the key: moving down needs a next index, and moving
/// up from a place past the first needs the place before it in the list.
pub open spec fn picker_key_ok(v: AppView, k: Key) -> bool {
    (v.show_theme_picker && !v.show_info) ==> {
        &&& (k.code == KeyCode::Down || k.code == KeyCode::Char('j')) ==> v.theme_picker_index < usize::MAX
        &&& (k.code == KeyCode::Up || k.code == KeyCode::Char('k')) ==> v.theme_picker_index
            <= built_in_themes().len()
    }
}

/// The state after a key press and what else it asks for. `running` says
/// whether the selected item's command is running, so that keys in the
/// output pane go to it.
pub open spec fn key_step(v: AppView, k: Key, running: bool) -> (AppView, KeyActionView) {
    let c = k.code;
    if v.show_info {
        if c == KeyCode::Char('i') || c == KeyCode::Esc {
            (info_toggled(v), KeyActionView::Nothing)
        } else {
            (v, KeyActionView::Nothing)
        }
    } else if v.show_theme_picker {
        picker_step(v, c)
    } else if v.search_mode {
        match c {
            KeyCode::Esc => (search_exited(v), KeyActionView::Nothing),
            KeyCode::Down => (moved_next(v), KeyActionView::Nothing),
            KeyCode::Up => (moved_previous(v), KeyActionView::Nothing),
            KeyCode::Backspace => (search_deleted(v), KeyActionView::Nothing),
            KeyCode::Enter => match row_at(tree_of(v), v.selected_index as int) {
                Some(TreeItemView::Function(f)) => (search_exited(v), KeyActionView::Run(f)),
                _ => (v, KeyActionView::Nothing),
            },
            KeyCode::Char(ch) => (search_typed(v, ch), KeyActionView::Nothing),
            _ => (v, KeyActionView::Nothing),
        }
    } else if v.focus == FocusPane::Output {
        if running {
            if c == KeyCode::Esc {
                (AppView { focus: FocusPane::ScriptList, pending_g: false, ..v }, KeyActionView::Nothing)
            } else if c == KeyCode::Tab && !k.ctrl {
                (focus_toggled(v), KeyActionView::Nothing)
            } else if key_bytes(k).len() > 0 {
                (v, KeyActionView::Send(key_bytes(k)))
            } else {
                (v, KeyActionView::Nothing)
            }
        } else if c == KeyCode::Char('q') || c == KeyCode::Esc {
            (AppView { focus: FocusPane::ScriptList, pending_g: false, ..v }, KeyActionView::Nothing)
        } else if c == KeyCode::Tab {
            (focus_toggled(v), KeyActionView::Nothing)
        } else if c == KeyCode::Char('j') || c == KeyCode::Down {
            (AppView { pending_g: false, ..output_scrolled_down(v) }, KeyActionView::Nothing)
        } else if c == KeyCode::Char('k') || c == KeyCode::Up {
            (AppView { pending_g: false, ..output_scrolled_up(v) }, KeyActionView::Nothing)
        } else if c == KeyCode::Char('d') && k.ctrl {
            (v, KeyActionView::HalfPageDown)
        } else if c == KeyCode::Char('u') && k.ctrl {
            (v, KeyActionView::HalfPageUp)
        } else if c == KeyCode::Char('G') {
            (AppView { pending_g: false, ..output_to_bottom(v) }, KeyActionView::Nothing)
        } else if c == KeyCode::Char('g') {
            if v.pending_g {
                (AppView { pending_g: false, ..output_to_top(v) }, KeyActionView::Nothing)
            } else {
                (AppView { pending_g: true, ..v }, KeyActionView::Nothing)
            }
        } else if c == KeyCode::Char('i') {
            (AppView { pending_g: false, ..info_toggled(v) }, KeyActionView::Nothing)
        } else {
            (AppView { pending_g: false, ..v }, KeyActionView::Nothing)
        }
    } else if c == KeyCode::Char('q') || c == KeyCode::Char('Q') {
        (AppView { should_quit: true, ..v }, KeyActionView::Nothing)
    } else if c == KeyCode::Char('i') {
        (info_toggled(v), KeyActionView::Nothing)
    } else if c == KeyCode::Char('/') {
        (search_entered(v), KeyActionView::Nothing)
    } else if c == KeyCode::Char('t') {
        (AppView { theme_before_picker: Some(v.theme), show_theme_picker: true, ..v }, KeyActionView::Nothing)
    } else if c == KeyCode::Tab {
        (focus_toggled(v), KeyActionView::Nothing)
    } else if c == KeyCode::Down || c == KeyCode::Char('j') {
        (moved_next(v), KeyActionView::Nothing)
    } else if c == KeyCode::Up || c == KeyCode::Char('k') {
        (moved_previous(v), KeyActionView::Nothing)
    } else if c == KeyCode::Left || c == KeyCode::Char('h') {
        (if v.focus == FocusPane::ScriptList {
            went_left(v)
        } else {
            v
        }, KeyActionView::Nothing)
    } else if c == KeyCode::Right || c == KeyCode::Char('l') {
        (if v.focus == FocusPane::ScriptList {
            went_right(v)
        } else {
            v
        }, KeyActionView::Nothing)
    } else if c == KeyCode::Enter {
        match row_at(tree_of(v), v.selected_index as int) {
            Some(TreeItemView::Category(cat)) => (toggled(v, cat), KeyActionView::Nothing),
            Some(TreeItemView::Function(f)) => (v, KeyActionView::Run(f)),
            None => (v, KeyActionView::Nothing),
        }
    } else {
        (v, KeyActionView::Nothing)
    }
}

/// Handles a key press while the theme picker is open.
fn picker_key(app: &mut App, c: KeyCode) -> (r: KeyAction)
    requires
        old(app).show_theme_picker,
        (c == KeyCode::Down || c == KeyCode::Char('j')) ==> old(app).theme_picker_index < usize::MAX,
        (c == KeyCode::Up || c == KeyCode::Char('k')) ==> old(app).theme_picker_index <= built_in_themes().len(),
    ensures
        (final(app)@, r@) == picker_step(old(app)@, c),
{
    let n: usize = 11;
    assert(built_in_themes().len() == 11);
    if c == KeyCode::Esc || c == KeyCode::Char('t') {
        let saved = app.theme_before_picker.take();
        if let Some(t) = saved {
            app.theme_picker_index = theme_position_exec(t.name.as_str());
            app.theme = t;
        }
        app.show_theme_picker = false;
        KeyAction::Nothing
    } else if c == KeyCode::Down || c == KeyCode::Char('j') {
        let i = (app.theme_picker_index + 1) % n;
        app.theme_picker_index = i;
        app.theme = Theme::at(i);
        KeyAction::Nothing
    } else if c == KeyCode::Up || c == KeyCode::Char('k') {
        let i = if app.theme_picker_index == 0 {
            n - 1
        } else {
            app.theme_picker_index - 1
        };
        app.theme_picker_index = i;
        app.theme = Theme::at(i);
        KeyAction::Nothing
    } else if c == KeyCode::Enter {
        app.show_theme_picker = false;
        app.theme_before_picker = None;
        KeyAction::SaveTheme(app.theme.name.clone())
    } else {
        KeyAction::Nothing
    }
}

/// Handles a key press: changes the browser's state and says what the
/// terminal loop must do besides.
pub fn handle_key(app: &mut App, key: Key, running: bool) -> (r: KeyAction)
    requires
        moves_down(old(app)@, key) ==> (tree_of(old(app)@).len() > 0 ==> old(app).selected_index < usize::MAX),
        picker_key_ok(old(app)@, key),
    ensures
        (final(app)@, r@) == key_step(old(app)@, key, running),
{
    let c = key.code;
    if app.show_info {
        if c == KeyCode::Char('i') || c == KeyCode::Esc {
            app.toggle_info();
        }
        return KeyAction::Nothing;
    }
    if app.show_theme_picker {
        return picker_key(app, c);
    }
    if app.search_mode {
        match c {
            KeyCode::Esc => app.exit_search_mode(),
            KeyCode::Down => app.next(),
            KeyCode::Up => app.previous(),
            KeyCode::Backspace => app.search_pop_char(),
            KeyCode::Enter => {
                if let Some(TreeItem::Function(f)) = app.selected_item() {
                    app.exit_search_mode();
                    return KeyAction::Run(f);
                }
            },
            KeyCode::Char(ch) => app.search_push_char(ch),
            _ => {},
        }
        return KeyAction::Nothing;
    }
    if app.focus == FocusPane::Output {
        if running {
            if c == KeyCode::Esc {
                app.focus = FocusPane::ScriptList;
                app.pending_g = false;
            } else if c == KeyCode::Tab && !key.ctrl {
                app.toggle_focus();
            } else {
                let bytes = key_event_to_bytes(&key);
                if bytes.len() > 0 {
                    return KeyAction::Send(bytes);
                }
            }
            return KeyAction::Nothing;
        }
        if c == KeyCode::Char('q') || c == KeyCode::Esc {
            app.focus = FocusPane::ScriptList;
            app.pending_g = false;
        } else if c == KeyCode::Tab {
            app.toggle_focus();
        } else if c == KeyCode::Char('j') || c == KeyCode::Down {
            app.scroll_output_down();
            app.pending_g = false;
        } else if c == KeyCode::Char('k') || c == KeyCode::Up {
            app.scroll_output_up();
            app.pending_g = false;
        } else if c == KeyCode::Char('d') && key.ctrl {
            return KeyAction::HalfPageDown;
        } else if c == KeyCode::Char('u') && key.ctrl {
            return KeyAction::HalfPageUp;
        } else if c == KeyCode::Char('G') {
            app.scroll_output_to_bottom();
            app.pending_g = false;
        } else if c == KeyCode::Char('g') {
            if app.pending_g {
                app.scroll_output_to_top();
                app.pending_g = false;
            } else {
                app.pending_g = true;
            }
        } else if c == KeyCode::Char('i') {
            app.toggle_info();
            app.pending_g = false;
        } else {
            app.pending_g = false;
        }
        return KeyAction::Nothing;
    }
    if c == KeyCode::Char('q') || c == KeyCode::Char('Q') {
        app.should_quit = true;
    } else if c == KeyCode::Char('i') {
        app.toggle_info();
    } else if c == KeyCode::Char('/') {
        app.enter_search_mode();
    } else if c == KeyCode::Char('t') {
        app.theme_before_picker = Some(app.theme.copy());
        app.show_theme_picker = true;
    } else if c == KeyCode::Tab {
        app.toggle_focus();
    } else if c == KeyCode::Down || c == KeyCode::Char('j') {
        app.next();
    } else if c == KeyCode::Up || c == KeyCode::Char('k') {
        app.previous();
    } else if c == KeyCode::Left || c == KeyCode::Char('h') {
        if app.focus == FocusPane::ScriptList {
            app.handle_left();
        }
    } else if c == KeyCode::Right || c == KeyCode::Char('l') {
        if app.focus == FocusPane::ScriptList {
            app.handle_right();
        }
    } else if c == KeyCode::Enter {
        match app.selected_item() {
            Some(TreeItem::Category(cat)) => app.toggle_category(cat.as_str()),
            Some(TreeItem::Function(f)) => {
                return KeyAction::Run(f);
            },
            None => {},
        }
    }
    KeyAction::Nothing
}

/// The index of the first item with this name and kind (the length if
/// none), from `i`.
pub open spec fn same_item_index(fs: Seq<FunctionView>, f: FunctionView, i: int) -> int
    decreases fs.len() - i,
{
    if 0 <= i < fs.len() && !(fs[i].name == f.name && fs[i].script_type == f.script_type) {
        same_item_index(fs, f, i + 1)
    } else {
        i
    }
}

/// The category an item comes from: an item listed under "Frequently Used"
/// comes from the category of the first item with its name and kind.
pub open spec fn original_category_of(fs: Seq<FunctionView>, f: FunctionView) -> Seq<char> {
    if f.category == FREQUENTLY_USED_CATEGORY@ {
        let k = same_item_index(fs, f, 0);
        if k < fs.len() {
            fs[k].category
        } else {
            f.category
        }
    } else {
        f.category
    }
}

/// The category an item comes from, looked up among the browser's items
/// when it is listed under "Frequently Used".
pub fn original_category(app: &App, func: &ScriptFunction) -> (r: String)
    ensures
        r@ == original_category_of(app@.functions, func@),
{
    let c = to_chars(func.category.as_str());
    let fu = to_chars(FREQUENTLY_USED_CATEGORY);
    if !chars_eq(c.as_slice(), fu.as_slice()) {
        return func.category.clone();
    }
    let ghost fs = app@.functions;
    let n = to_chars(func.name.as_str());
    let mut i: usize = 0;
    while i < app.functions.len()
        invariant
            i <= app.functions@.len(),
            fs == app@.functions,
            n@ == func.name@,
            func.category@ == FREQUENTLY_USED_CATEGORY@,
            same_item_index(fs, func@, 0) == same_item_index(fs, func@, i as int),
        decreases app.functions.len() - i,
    {
        let g = &app.functions[i];
        assert(fs[i as int] == g@);
        let gn = to_chars(g.name.as_str());
        if chars_eq(gn.as_slice(), n.as_slice()) && g.script_type == func.script_type {
            return g.category.clone();
        }
        i = i + 1;
    }
    func.category.clone()
}

/// The items of `frequent` as listed under Frequently Used.
pub open spec fn tagged_frequent(frequent: Seq<FunctionView>) -> Seq<FunctionView> {
    frequent.map_values(|f: FunctionView| FunctionView { category: FREQUENTLY_USED_CATEGORY@, ..f })
}

proof fn lemma_same_item_index(fs: Seq<FunctionView>, f: FunctionView, i: int)
    requires
        0 <= i <= fs.len(),
    ensures
        i <= same_item_index(fs, f, i) <= fs.len(),
        forall|k: int|
            i <= k < same_item_index(fs, f, i) ==> !((#[trigger] fs[k]).name == f.name && fs[k].script_type
                == f.script_type),
        same_item_index(fs, f, i) < fs.len() ==> fs[same_item_index(fs, f, i)].name == f.name && fs[same_item_index(
            fs,
            f,
            i,
        )].script_type == f.script_type,
    decreases fs.len() - i,
{
    if i < fs.len() && !(fs[i].name == f.name && fs[i].script_type == f.script_type) {
        lemma_same_item_index(fs, f, i + 1);
    }
}

proof fn lemma_same_item_index_prefix(fs: Seq<FunctionView>, extra: Seq<FunctionView>, f: FunctionView, i: int)
    requires
        0 <= i <= same_item_index(fs, f, 0),
        same_item_index(fs, f, 0) < fs.len(),
    ensures
        same_item_index(fs + extra, f, i) == same_item_index(fs, f, 0),
    decreases fs.len() - i,
{
    lemma_same_item_index(fs, f, 0);
    assert((fs + extra)[i] == fs[i]);
    if i < same_item_index(fs, f, 0) {
        lemma_same_item_index_prefix(fs, extra, f, i + 1);
    }
}

/// An item listed under Frequently Used (added after the browser's items)
/// runs from its original category: that of the first item with its name
/// and kind, whenever the browser has one.
pub proof fn lemma_frequent_runs_from_original_category(fs: Seq<FunctionView>, frequent: Seq<FunctionView>, i: int)
    requires
        0 <= i < frequent.len(),
        same_item_index(fs, frequent[i], 0) < fs.len(),
    ensures
        original_category_of(fs + tagged_frequent(frequent), tagged_frequent(frequent)[i]) == fs[same_item_index(
            fs,
            frequent[i],
            0,
        )].category,
{
    let t = tagged_frequent(frequent)[i];
    assert(t.name == frequent[i].name && t.script_type == frequent[i].script_type);
    assert(t.category == FREQUENTLY_USED_CATEGORY@);
    lemma_same_item_index_agree(fs, t, frequent[i], 0);
    lemma_same_item_index(fs, t, 0);
    lemma_same_item_index_prefix(fs, tagged_frequent(frequent), t, 0);
    let k = same_item_index(fs, t, 0);
    assert((fs + tagged_frequent(frequent))[k] == fs[k]);
}

proof fn lemma_same_item_index_agree(fs: Seq<FunctionView>, f: FunctionView, g: FunctionView, k: int)
    requires
        0 <= k <= fs.len(),
        f.name == g.name,
        f.script_type == g.script_type,
    ensures
        same_item_index(fs, f, k) == same_item_index(fs, g, k),
    decreases fs.len() - k,
{
    if k < fs.len() {
        lemma_same_item_index_agree(fs, f, g, k + 1);
    }
}

/// The size of the terminal given to a command: 80% of the width less the
/// borders (at least 40 columns), the height less header, footer and
/// borders (at least 10 rows).
pub open spec fn pty_size_of(width: u16, height: u16) -> (u16, u16) {
    let w = width * 80 / 100;
    let cols = if w >= 2 {
        w - 2
    } else {
        0
    };
    let rows = if height >= 6 {
        height - 6
    } else {
        0
    };
    ((if cols > 40 {
        cols
    } else {
        40
    }) as u16, (if rows > 10 {
        rows
    } else {
        10
    }) as u16)
}

/// The size of the terminal given to a command in a window of this size.
pub fn pty_size(width: u16, height: u16) -> (r: (u16, u16))
    requires
        width * 80 <= u16::MAX,
    ensures
        r == pty_size_of(width, height),
{
    let cols = (width * 80 / 100).saturating_sub(2);
    let rows = height.saturating_sub(6);
    (if cols > 40 {
        cols
    } else {
        40
    }, if rows > 10 {
        rows
    } else {
        10
    })
}

/// After a command is started: its output is shown from the bottom and has
/// the focus.
pub fn show_started_output(app: &mut App)
    ensures
        final(app)@ == (AppView { output_scroll: 0, focus: FocusPane::Output, ..old(app)@ }),
{
    app.output_scroll = 0;
    app.focus = FocusPane::Output;
}


/// Opening the theme picker with `t` and cancelling it with Esc gives back
/// the state as it was, but for the picker's highlighted place, which is
/// the place of the theme in use (and no theme kept for cancelling).
pub proof fn lemma_theme_picker_cancel(v: AppView, running: bool)
    requires
        !v.show_info,
        !v.show_theme_picker,
        !v.search_mode,
        v.focus != FocusPane::Output,
    ensures
        ({
            let w = key_step(v, Key { code: KeyCode::Char('t'), ctrl: false }, running).0;
            key_step(w, Key { code: KeyCode::Esc, ctrl: false }, running).0
        }) == (AppView {
            theme_picker_index: theme_position(v.theme.name) as usize,
            theme_before_picker: None,
            ..v
        }),
{
}

/// In the theme picker, moving down then up comes back to the same place,
/// previewing the theme there.
pub proof fn lemma_theme_picker_down_up(v: AppView, running: bool)
    requires
        v.show_theme_picker,
        !v.show_info,
        v.theme_picker_index < built_in_themes().len(),
    ensures
        ({
            let w = key_step(v, Key { code: KeyCode::Down, ctrl: false }, running).0;
            let u = key_step(w, Key { code: KeyCode::Up, ctrl: false }, running).0;
            u == AppView { theme: built_in_themes()[v.theme_picker_index as int], ..v }
        }),
{
    assert(built_in_themes().len() == 11);
}

} // verus!
