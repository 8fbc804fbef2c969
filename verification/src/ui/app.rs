//! The state of the script browser: the runnable items, the tree of
//! categories shown, the selection, search, focus and scroll positions.
use crate::script::discovery::{str_to_lower, unicode_lower};
use crate::script::nx_parser::{has_key, name_lookup, pair_views, CategoryNames};
use crate::script::parser::{function_views, FunctionView, ScriptFunction};
use crate::sort::{item_views, lemma_stable_sort, sort_stable, stable_sort};
use crate::script::annotations::clone_opt;
use crate::usage::storage::FREQUENTLY_USED_CATEGORY;
use crate::ui::theme::{theme_position, theme_position_exec, Theme, ThemeView};
use crate::text::{
    chars_eq, contains_chars, contains_seq, from_chars, lemma_seq_lt_total, seq_lt, slice_to_vec, string_views,
    to_chars,
};
use vstd::prelude::*;

verus! {

/// The pane that has the keyboard focus.
#[derive(Debug, Clone, Copy, PartialEq, Eq, Structural)]
pub enum FocusPane {
    ScriptList,
    Details,
    Output,
}

/// A row of the script tree: a category or one of its items.
#[derive(Debug, Clone)]
pub enum TreeItem {
    Category(String),
    Function(ScriptFunction),
}

/// The plain-value form of a [`TreeItem`].
pub enum TreeItemView {
    Category(Seq<char>),
    Function(FunctionView),
}

impl View for TreeItem {
    type V = TreeItemView;

    open spec fn view(&self) -> TreeItemView {
        match self {
            TreeItem::Category(c) => TreeItemView::Category(c@),
            TreeItem::Function(f) => TreeItemView::Function(f@),
        }
    }
}

/// The browser's state.
pub struct App {
    pub functions: Vec<ScriptFunction>,
    pub selected_index: usize,
    pub output: Vec<String>,
    pub output_scroll: usize,
    pub script_scroll: usize,
    pub should_quit: bool,
    pub focus: FocusPane,
    pub expanded_categories: Vec<String>,
    pub search_mode: bool,
    pub search_query: String,
    pub show_info: bool,
    pub category_display_names: CategoryNames,
    pub project_title: String,
    /// `g` was pressed once in the output pane; a second `g` goes to the top.
    pub pending_g: bool,
    /// The colors in use (while the theme picker is open, the one previewed).
    pub theme: Theme,
    pub show_theme_picker: bool,
    /// The place of the highlighted theme in the picker's list.
    pub theme_picker_index: usize,
    /// The theme in use when the picker was opened, restored on cancel.
    pub theme_before_picker: Option<Theme>,
}

/// The plain-value form of an [`App`].
pub struct AppView {
    pub functions: Seq<FunctionView>,
    pub selected_index: usize,
    pub output: Seq<Seq<char>>,
    pub output_scroll: usize,
    pub script_scroll: usize,
    pub should_quit: bool,
    pub focus: FocusPane,
    pub expanded: Seq<Seq<char>>,
    pub search_mode: bool,
    pub search_query: Seq<char>,
    pub show_info: bool,
    pub display_names: Seq<(Seq<char>, Seq<char>)>,
    pub project_title: Seq<char>,
    pub pending_g: bool,
    pub theme: ThemeView,
    pub show_theme_picker: bool,
    pub theme_picker_index: usize,
    pub theme_before_picker: Option<ThemeView>,
}

impl View for App {
    type V = AppView;

    open spec fn view(&self) -> AppView {
        AppView {
            functions: function_views(self.functions@),
            selected_index: self.selected_index,
            output: string_views(self.output@),
            output_scroll: self.output_scroll,
            script_scroll: self.script_scroll,
            should_quit: self.should_quit,
            focus: self.focus,
            expanded: string_views(self.expanded_categories@),
            search_mode: self.search_mode,
            search_query: self.search_query@,
            show_info: self.show_info,
            display_names: pair_views(self.category_display_names.entries@),
            project_title: self.project_title@,
            pending_g: self.pending_g,
            theme: self.theme@,
            show_theme_picker: self.show_theme_picker,
            theme_picker_index: self.theme_picker_index,
            theme_before_picker: match self.theme_before_picker {
                Some(t) => Some(t@),
                None => None,
            },
        }
    }
}

// ---------------------------------------------------------------------------
// The model
// ---------------------------------------------------------------------------

/// The categories of the first `n` items, each once, in order of first
/// appearance.
pub open spec fn distinct_categories(fs: Seq<FunctionView>, n: int) -> Seq<Seq<char>>
    decreases n,
{
    if n <= 0 || n > fs.len() {
        Seq::empty()
    } else if distinct_categories(fs, n - 1).contains(fs[n - 1].category) {
        distinct_categories(fs, n - 1)
    } else {
        distinct_categories(fs, n - 1).push(fs[n - 1].category)
    }
}

/// The categories of the items, each once, sorted.
pub open spec fn categories_of(fs: Seq<FunctionView>) -> Seq<Seq<char>> {
    stable_sort::<String>(distinct_categories(fs, fs.len() as int))
}

/// An item matches the search when not searching, when the query is empty,
/// or when the lowercased query occurs in the lowercased display name, name,
/// description or category.
pub open spec fn matches_search(f: FunctionView, search_mode: bool, query: Seq<char>) -> bool {
    !search_mode || query.len() == 0 || {
        let q = unicode_lower(query);
        ||| contains_seq(unicode_lower(f.display_name), q)
        ||| contains_seq(unicode_lower(f.name), q)
        ||| contains_seq(unicode_lower(f.description), q)
        ||| contains_seq(unicode_lower(f.category), q)
    }
}

/// The items among the first `n` of category `c` that match the search.
pub open spec fn funcs_in(fs: Seq<FunctionView>, n: int, c: Seq<char>, search_mode: bool, query: Seq<char>) -> Seq<
    FunctionView,
>
    decreases n,
{
    if n <= 0 || n > fs.len() {
        Seq::empty()
    } else if fs[n - 1].category == c && matches_search(fs[n - 1], search_mode, query) {
        funcs_in(fs, n - 1, c, search_mode, query).push(fs[n - 1])
    } else {
        funcs_in(fs, n - 1, c, search_mode, query)
    }
}

/// The rows of one category: the category (left out while searching when
/// nothing in it matches) followed by its matching items when searching or
/// when it is expanded.
pub open spec fn category_rows(v: AppView, c: Seq<char>) -> Seq<TreeItemView> {
    let funcs = funcs_in(v.functions, v.functions.len() as int, c, v.search_mode, v.search_query);
    if !v.search_mode || funcs.len() > 0 {
        seq![TreeItemView::Category(c)] + if v.search_mode || v.expanded.contains(c) {
            funcs.map_values(|f: FunctionView| TreeItemView::Function(f))
        } else {
            Seq::empty()
        }
    } else {
        Seq::empty()
    }
}

/// The rows of the first `k` categories.
pub open spec fn rows_upto(v: AppView, cats: Seq<Seq<char>>, k: int) -> Seq<TreeItemView>
    decreases k,
{
    if k <= 0 || k > cats.len() {
        Seq::empty()
    } else {
        rows_upto(v, cats, k - 1) + category_rows(v, cats[k - 1])
    }
}

/// The rows of the script tree.
pub open spec fn tree_of(v: AppView) -> Seq<TreeItemView> {
    rows_upto(v, categories_of(v.functions), categories_of(v.functions).len() as int)
}

/// The index of the first `c` in `s` at or after `i` (the length if none).
pub open spec fn first_index(s: Seq<Seq<char>>, c: Seq<char>, i: int) -> int
    decreases s.len() - i,
{
    if 0 <= i < s.len() && s[i] != c {
        first_index(s, c, i + 1)
    } else {
        i
    }
}

/// `s` without its first `c` (unchanged when there is none).
pub open spec fn remove_first(s: Seq<Seq<char>>, c: Seq<char>) -> Seq<Seq<char>> {
    let p = first_index(s, c, 0);
    if p < s.len() {
        s.remove(p)
    } else {
        s
    }
}

pub open spec fn with_expanded(v: AppView, e: Seq<Seq<char>>) -> AppView {
    AppView { expanded: e, ..v }
}

/// `toggle_category`: a listed category is removed, another added at the end.
pub open spec fn toggled(v: AppView, c: Seq<char>) -> AppView {
    if v.expanded.contains(c) {
        with_expanded(v, remove_first(v.expanded, c))
    } else {
        with_expanded(v, v.expanded.push(c))
    }
}

/// `expand_category`: the category is added when it is not listed.
pub open spec fn expanded(v: AppView, c: Seq<char>) -> AppView {
    if v.expanded.contains(c) {
        v
    } else {
        with_expanded(v, v.expanded.push(c))
    }
}

/// `collapse_category`: the first listing of the category is removed.
pub open spec fn collapsed(v: AppView, c: Seq<char>) -> AppView {
    with_expanded(v, remove_first(v.expanded, c))
}

/// The selection after moving down among `n` rows: the next row, from the
/// last back to the first.
pub open spec fn next_index(s: int, n: int) -> int {
    if n > 0 {
        (s + 1) % n
    } else {
        s
    }
}

/// The selection after moving up among `n` rows: the previous row, from the
/// first to the last.
pub open spec fn previous_index(s: int, n: int) -> int {
    if n > 0 {
        if s > 0 {
            s - 1
        } else {
            n - 1
        }
    } else {
        s
    }
}

/// The focus after Tab: list, details, output (only when there is output),
/// and back to the list.
pub open spec fn next_focus(f: FocusPane, has_output: bool) -> FocusPane {
    match f {
        FocusPane::ScriptList => FocusPane::Details,
        FocusPane::Details => if has_output {
            FocusPane::Output
        } else {
            FocusPane::ScriptList
        },
        FocusPane::Output => FocusPane::ScriptList,
    }
}

/// The query after typing `c`.
pub open spec fn query_pushed(q: Seq<char>, c: char) -> Seq<char> {
    q.push(c)
}

/// The query after a backspace: its last character removed, if any.
pub open spec fn query_popped(q: Seq<char>) -> Seq<char> {
    if q.len() > 0 {
        q.drop_last()
    } else {
        q
    }
}

/// The first category row `cat` before row `sel`, searching from `k`.
pub open spec fn parent_row(items: Seq<TreeItemView>, cat: Seq<char>, sel: int, k: int) -> Option<int>
    decreases items.len() - k,
{
    if k < 0 || k >= items.len() {
        None
    } else if items[k] == TreeItemView::Category(cat) && k < sel {
        Some(k)
    } else {
        parent_row(items, cat, sel, k + 1)
    }
}

/// The display name recorded for a category, or the category itself.
pub open spec fn display_name_for(names: Seq<(Seq<char>, Seq<char>)>, c: Seq<char>) -> Seq<char> {
    match name_lookup(names, c) {
        Some(n) => n,
        None => c,
    }
}

/// The row at index `i`, if there is one.
pub open spec fn row_at(items: Seq<TreeItemView>, i: int) -> Option<TreeItemView> {
    if 0 <= i < items.len() {
        Some(items[i])
    } else {
        None
    }
}

/// The scroll position after making row `sel` visible in a window of `h`
/// rows that starts at row `scroll`.
pub open spec fn visible_scroll(sel: int, scroll: int, h: int) -> int {
    let s1 = if sel < scroll {
        sel
    } else {
        scroll
    };
    if sel >= s1 + h {
        sel - (h - 1)
    } else {
        s1
    }
}

// ---------------------------------------------------------------------------
// The operations, as changes of the state
// ---------------------------------------------------------------------------

/// Tab.
pub open spec fn focus_toggled(v: AppView) -> AppView {
    AppView { focus: next_focus(v.focus, v.output.len() > 0), ..v }
}

/// The info panel shown or hidden.
pub open spec fn info_toggled(v: AppView) -> AppView {
    AppView { show_info: !v.show_info, ..v }
}

/// The output scrolled up one line (not past the top).
pub open spec fn output_scrolled_up(v: AppView) -> AppView {
    AppView {
        output_scroll: if v.output_scroll > 0 {
            (v.output_scroll - 1) as usize
        } else {
            0
        },
        ..v
    }
}

/// The index of the output's last line (0 when there is none).
pub open spec fn last_output_line(v: AppView) -> int {
    if v.output.len() > 0 {
        v.output.len() - 1
    } else {
        0
    }
}

/// The output scrolled to its first line.
pub open spec fn output_to_top(v: AppView) -> AppView {
    AppView { output_scroll: 0, ..v }
}

/// The output scrolled to its last line.
pub open spec fn output_to_bottom(v: AppView) -> AppView {
    AppView { output_scroll: last_output_line(v) as usize, ..v }
}

/// The output scrolled down by half of `height` lines, not past the last
/// line (and never up).
pub open spec fn output_half_page_down(v: AppView, height: int) -> AppView {
    let target = v.output_scroll + height / 2;
    AppView {
        output_scroll: if target <= last_output_line(v) {
            target as usize
        } else if v.output_scroll <= last_output_line(v) {
            last_output_line(v) as usize
        } else {
            v.output_scroll
        },
        ..v
    }
}

/// The output scrolled up by half of `height` lines, not past the top.
pub open spec fn output_half_page_up(v: AppView, height: int) -> AppView {
    AppView {
        output_scroll: if v.output_scroll >= height / 2 {
            (v.output_scroll - height / 2) as usize
        } else {
            0
        },
        ..v
    }
}

/// The output scrolled down one line (not past the last line).
pub open spec fn output_scrolled_down(v: AppView) -> AppView {
    AppView {
        output_scroll: if v.output_scroll + 1 < v.output.len() {
            (v.output_scroll + 1) as usize
        } else {
            v.output_scroll
        },
        ..v
    }
}

/// The selection moved down.
pub open spec fn moved_next(v: AppView) -> AppView {
    AppView { selected_index: next_index(v.selected_index as int, tree_of(v).len() as int) as usize, ..v }
}

/// The selection moved up.
pub open spec fn moved_previous(v: AppView) -> AppView {
    AppView { selected_index: previous_index(v.selected_index as int, tree_of(v).len() as int) as usize, ..v }
}

/// Search started: empty query, top of the list.
pub open spec fn search_entered(v: AppView) -> AppView {
    AppView { search_mode: true, search_query: Seq::empty(), selected_index: 0, script_scroll: 0, ..v }
}

/// Search ended: query cleared, top of the list.
pub open spec fn search_exited(v: AppView) -> AppView {
    AppView { search_mode: false, search_query: Seq::empty(), selected_index: 0, script_scroll: 0, ..v }
}

/// A character typed into the search.
pub open spec fn search_typed(v: AppView, c: char) -> AppView {
    AppView { search_query: query_pushed(v.search_query, c), selected_index: 0, script_scroll: 0, ..v }
}

/// A character deleted from the search.
pub open spec fn search_deleted(v: AppView) -> AppView {
    AppView { search_query: query_popped(v.search_query), selected_index: 0, script_scroll: 0, ..v }
}

/// Left arrow: an expanded category is collapsed; from an item the
/// selection goes to its category row.
pub open spec fn went_left(v: AppView) -> AppView {
    match row_at(tree_of(v), v.selected_index as int) {
        Some(TreeItemView::Category(c)) => if v.expanded.contains(c) {
            collapsed(v, c)
        } else {
            v
        },
        Some(TreeItemView::Function(f)) => match parent_row(tree_of(v), f.category, v.selected_index as int, 0) {
            Some(k) => AppView { selected_index: k as usize, ..v },
            None => v,
        },
        None => v,
    }
}

/// Right arrow: a category is expanded.
pub open spec fn went_right(v: AppView) -> AppView {
    match row_at(tree_of(v), v.selected_index as int) {
        Some(TreeItemView::Category(c)) => expanded(v, c),
        _ => v,
    }
}

fn text_eq(a: &str, b: &str) -> (r: bool)
    ensures
        r == (a@ == b@),
{
    let x = to_chars(a);
    let y = to_chars(b);
    chars_eq(x.as_slice(), y.as_slice())
}

impl App {
    pub fn new(functions: Vec<ScriptFunction>, project_title: String, theme: Theme) -> (r: App)
        ensures
            r@ == (AppView {
                functions: function_views(functions@),
                selected_index: 0,
                output: Seq::empty(),
                output_scroll: 0,
                script_scroll: 0,
                should_quit: false,
                focus: FocusPane::ScriptList,
                expanded: Seq::empty(),
                search_mode: false,
                search_query: Seq::empty(),
                show_info: false,
                display_names: Seq::empty(),
                project_title: project_title@,
                pending_g: false,
                theme: theme@,
                show_theme_picker: false,
                theme_picker_index: theme_position(theme@.name) as usize,
                theme_before_picker: None,
            }),
    {
        let index = theme_position_exec(theme.name.as_str());
        let r = App {
            functions,
            selected_index: 0,
            output: Vec::new(),
            output_scroll: 0,
            script_scroll: 0,
            should_quit: false,
            focus: FocusPane::ScriptList,
            expanded_categories: Vec::new(),
            search_mode: false,
            search_query: String::new(),
            show_info: false,
            category_display_names: CategoryNames { entries: Vec::new() },
            project_title,
            pending_g: false,
            theme,
            show_theme_picker: false,
            theme_picker_index: index,
            theme_before_picker: None,
        };
        assert(r@.output =~= Seq::<Seq<char>>::empty());
        assert(r@.expanded =~= Seq::<Seq<char>>::empty());
        assert(r@.display_names =~= Seq::<(Seq<char>, Seq<char>)>::empty());
        r
    }

    pub fn set_category_display_names(&mut self, display_names: CategoryNames)
        ensures
            final(self)@ == (AppView { display_names: pair_views(display_names.entries@), ..old(self)@ }),
    {
        self.category_display_names = display_names;
    }

    /// Adds the frequently used items, after all others, under the
    /// Frequently Used category (each a copy of its item with that
    /// category), so that an item's first occurrence stays the original.
    pub fn set_frequent_functions(&mut self, frequent: &[ScriptFunction])
        ensures
            final(self)@ == (AppView {
                functions: old(self)@.functions + function_views(frequent@).map_values(
                    |f: FunctionView| FunctionView { category: FREQUENTLY_USED_CATEGORY@, ..f },
                ),
                ..old(self)@
            }),
    {
        let ghost old_fs = self@.functions;
        let ghost tagged = function_views(frequent@).map_values(
            |f: FunctionView| FunctionView { category: FREQUENTLY_USED_CATEGORY@, ..f },
        );
        let mut i: usize = 0;
        while i < frequent.len()
            invariant
                i <= frequent@.len(),
                tagged == function_views(frequent@).map_values(
                    |f: FunctionView| FunctionView { category: FREQUENTLY_USED_CATEGORY@, ..f },
                ),
                function_views(self.functions@) == old_fs + tagged.take(i as int),
                self@ == (AppView { functions: self@.functions, ..old(self)@ }),
                old_fs == old(self)@.functions,
            decreases frequent.len() - i,
        {
            let mut f = frequent[i].copy();
            f.category = String::from_str(FREQUENTLY_USED_CATEGORY);
            let ghost before = function_views(self.functions@);
            self.functions.push(f);
            assert(function_views(frequent@)[i as int] == frequent@[i as int]@);
            assert(self.functions@.last()@ == tagged[i as int]);
            assert(function_views(self.functions@) =~= before.push(tagged[i as int]));
            assert(function_views(self.functions@) =~= old_fs + tagged.take(i + 1));
            i = i + 1;
        }
        assert(tagged.take(frequent@.len() as int) =~= tagged);
    }

    /// The display name recorded for a category, or the category itself.
    pub fn get_category_display_name(&self, category: &str) -> (r: String)
        ensures
            r@ == display_name_for(self@.display_names, category@),
    {
        match self.category_display_names.get(category) {
            Some(n) => n.clone(),
            None => String::from_str(category),
        }
    }

    /// Tab: list, details, output (only when there is output), list.
    pub fn toggle_focus(&mut self)
        ensures
            final(self)@ == focus_toggled(old(self)@),
    {
        self.focus = match self.focus {
            FocusPane::ScriptList => FocusPane::Details,
            FocusPane::Details => {
                if self.output.len() > 0 {
                    FocusPane::Output
                } else {
                    FocusPane::ScriptList
                }
            },
            FocusPane::Output => FocusPane::ScriptList,
        };
    }

    pub fn toggle_info(&mut self)
        ensures
            final(self)@ == info_toggled(old(self)@),
    {
        self.show_info = !self.show_info;
    }

    pub fn scroll_output_up(&mut self)
        ensures
            final(self)@ == output_scrolled_up(old(self)@),
    {
        if self.output_scroll > 0 {
            self.output_scroll = self.output_scroll - 1;
        }
    }

    /// Scrolls down while the output has lines below the first one shown.
    pub fn scroll_output_down(&mut self)
        ensures
            final(self)@ == output_scrolled_down(old(self)@),
    {
        let last = if self.output.len() > 0 {
            self.output.len() - 1
        } else {
            0
        };
        if self.output_scroll < last {
            self.output_scroll = self.output_scroll + 1;
        }
    }

    /// Scrolls to the output's first line.
    pub fn scroll_output_to_top(&mut self)
        ensures
            final(self)@ == output_to_top(old(self)@),
    {
        self.output_scroll = 0;
    }

    /// Scrolls to the output's last line.
    pub fn scroll_output_to_bottom(&mut self)
        ensures
            final(self)@ == output_to_bottom(old(self)@),
    {
        self.output_scroll = if self.output.len() > 0 {
            self.output.len() - 1
        } else {
            0
        };
    }

    /// Scrolls down half of `visible_height` lines, stopping at the last
    /// line.
    pub fn scroll_output_half_page_down(&mut self, visible_height: usize)
        ensures
            final(self)@ == output_half_page_down(old(self)@, visible_height as int),
    {
        let last = if self.output.len() > 0 {
            self.output.len() - 1
        } else {
            0
        };
        let half = visible_height / 2;
        if self.output_scroll <= last {
            if half <= last - self.output_scroll {
                self.output_scroll = self.output_scroll + half;
            } else {
                self.output_scroll = last;
            }
        }
    }

    /// Scrolls up half of `visible_height` lines, stopping at the top.
    pub fn scroll_output_half_page_up(&mut self, visible_height: usize)
        ensures
            final(self)@ == output_half_page_up(old(self)@, visible_height as int),
    {
        let half = visible_height / 2;
        if self.output_scroll >= half {
            self.output_scroll = self.output_scroll - half;
        } else {
            self.output_scroll = 0;
        }
    }

    pub fn reset_output_scroll(&mut self)
        ensures
            final(self)@ == (AppView { output_scroll: 0, ..old(self)@ }),
    {
        self.output_scroll = 0;
    }

    pub fn reset_script_scroll(&mut self)
        ensures
            final(self)@ == (AppView { script_scroll: 0, ..old(self)@ }),
    {
        self.script_scroll = 0;
    }

    fn expanded_position(&self, category: &str) -> (r: usize)
        ensures
            r == first_index(self@.expanded, category@, 0),
    {
        let mut i: usize = 0;
        while i < self.expanded_categories.len() && !text_eq(self.expanded_categories[i].as_str(), category)
            invariant
                i <= self.expanded_categories@.len(),
                first_index(self@.expanded, category@, 0) == first_index(self@.expanded, category@, i as int),
            decreases self.expanded_categories.len() - i,
        {
            i = i + 1;
        }
        i
    }

    /// Whether the category's items are shown.
    pub fn is_category_expanded(&self, category: &str) -> (r: bool)
        ensures
            r == self@.expanded.contains(category@),
    {
        proof {
            lemma_first_index(self@.expanded, category@, 0);
        }
        self.expanded_position(category) < self.expanded_categories.len()
    }

    /// Collapses an expanded category and expands a collapsed one.
    pub fn toggle_category(&mut self, category: &str)
        ensures
            final(self)@ == toggled(old(self)@, category@),
    {
        proof {
            lemma_first_index(self@.expanded, category@, 0);
        }
        let p = self.expanded_position(category);
        if p < self.expanded_categories.len() {
            self.expanded_categories.remove(p);
            assert(self@.expanded =~= remove_first(old(self)@.expanded, category@));
        } else {
            self.expanded_categories.push(String::from_str(category));
            assert(self@.expanded =~= old(self)@.expanded.push(category@));
        }
    }

    /// Shows the category's items; nothing changes when they are shown.
    pub fn expand_category(&mut self, category: &str)
        ensures
            final(self)@ == expanded(old(self)@, category@),
    {
        if !self.is_category_expanded(category) {
            self.expanded_categories.push(String::from_str(category));
            assert(self@.expanded =~= old(self)@.expanded.push(category@));
        }
    }

    /// Hides the category's items.
    pub fn collapse_category(&mut self, category: &str)
        ensures
            final(self)@ == collapsed(old(self)@, category@),
    {
        proof {
            lemma_first_index(self@.expanded, category@, 0);
        }
        let p = self.expanded_position(category);
        if p < self.expanded_categories.len() {
            self.expanded_categories.remove(p);
            assert(self@.expanded =~= remove_first(old(self)@.expanded, category@));
        } else {
            assert(self@.expanded =~= remove_first(old(self)@.expanded, category@));
        }
    }
}

/// `first_index` finds the first `c` at or after `i`, or the end.
pub proof fn lemma_first_index(s: Seq<Seq<char>>, c: Seq<char>, i: int)
    requires
        0 <= i <= s.len(),
    ensures
        i <= first_index(s, c, i) <= s.len(),
        forall|k: int| i <= k < first_index(s, c, i) ==> s[k] != c,
        first_index(s, c, i) < s.len() ==> s[first_index(s, c, i)] == c,
        i == 0 ==> (s.contains(c) <==> first_index(s, c, i) < s.len()),
    decreases s.len() - i,
{
    if i < s.len() && s[i] != c {
        lemma_first_index(s, c, i + 1);
    }
    if i == 0 && s.contains(c) {
        let k = choose|k: int| 0 <= k < s.len() && s[k] == c;
        assert(first_index(s, c, 0) <= k);
    }
}

fn contains_text(v: &Vec<String>, t: &str) -> (r: bool)
    ensures
        r == string_views(v@).contains(t@),
{
    let mut i: usize = 0;
    while i < v.len()
        invariant
            i <= v@.len(),
            forall|k: int| 0 <= k < i ==> string_views(v@)[k] != t@,
        decreases v.len() - i,
    {
        if text_eq(v[i].as_str(), t) {
            assert(string_views(v@)[i as int] == t@);
            return true;
        }
        i = i + 1;
    }
    false
}

fn lower_contains(hay: &str, q: &[char]) -> (r: bool)
    ensures
        r == contains_seq(unicode_lower(hay@), q@),
{
    let h = str_to_lower(hay);
    let hc = to_chars(h.as_str());
    contains_chars(hc.as_slice(), q)
}

impl App {
    /// The categories of the items, each once, sorted.
    pub fn categories(&self) -> (r: Vec<String>)
        ensures
            string_views(r@) == categories_of(self@.functions),
    {
        let ghost fs = self@.functions;
        let mut cats: Vec<String> = Vec::new();
        let mut i: usize = 0;
        while i < self.functions.len()
            invariant
                i <= self.functions@.len(),
                fs == self@.functions,
                string_views(cats@) == distinct_categories(fs, i as int),
            decreases self.functions.len() - i,
        {
            let c = &self.functions[i].category;
            assert(fs[i as int].category == c@);
            if !contains_text(&cats, c.as_str()) {
                let ghost before = string_views(cats@);
                cats.push(c.clone());
                assert(string_views(cats@) =~= before.push(c@));
            }
            i = i + 1;
        }
        let r = sort_stable(cats);
        assert(item_views::<String>(r@) =~= string_views(r@));
        assert(item_views::<String>(cats@) =~= string_views(cats@));
        r
    }

    /// Whether an item is shown under the current search.
    pub fn matches_search(&self, func: &ScriptFunction) -> (r: bool)
        ensures
            r == matches_search(func@, self.search_mode, self.search_query@),
    {
        if !self.search_mode || self.search_query.as_str().is_empty() {
            return true;
        }
        let q = str_to_lower(self.search_query.as_str());
        let qc = to_chars(q.as_str());
        lower_contains(func.display_name.as_str(), qc.as_slice()) || lower_contains(
            func.name.as_str(),
            qc.as_slice(),
        ) || lower_contains(func.description.as_str(), qc.as_slice()) || lower_contains(
            func.category.as_str(),
            qc.as_slice(),
        )
    }

    fn funcs_of(&self, c: &str) -> (r: Vec<ScriptFunction>)
        ensures
            function_views(r@) == funcs_in(
                self@.functions,
                self@.functions.len() as int,
                c@,
                self.search_mode,
                self.search_query@,
            ),
    {
        let ghost fs = self@.functions;
        let mut funcs: Vec<ScriptFunction> = Vec::new();
        let mut i: usize = 0;
        while i < self.functions.len()
            invariant
                i <= self.functions@.len(),
                fs == self@.functions,
                function_views(funcs@) == funcs_in(fs, i as int, c@, self.search_mode, self.search_query@),
            decreases self.functions.len() - i,
        {
            let f = &self.functions[i];
            assert(fs[i as int] == f@);
            if text_eq(f.category.as_str(), c) && self.matches_search(f) {
                let ghost before = function_views(funcs@);
                let g = f.copy();
                funcs.push(g);
                assert(function_views(funcs@) =~= before.push(f@));
            }
            i = i + 1;
        }
        funcs
    }

    /// The rows of the script tree: each category (while searching, only
    /// those with matches), followed by its items when searching or when
    /// it is expanded.
    pub fn tree_items(&self) -> (r: Vec<TreeItem>)
        ensures
            item_views(r@) == tree_of(self@),
    {
        let cats = self.categories();
        let ghost cv = string_views(cats@);
        let mut items: Vec<TreeItem> = Vec::new();
        assert(item_views(items@) =~= Seq::<TreeItemView>::empty());
        let mut k: usize = 0;
        while k < cats.len()
            invariant
                k <= cats@.len(),
                cv == string_views(cats@),
                cv == categories_of(self@.functions),
                item_views(items@) == rows_upto(self@, cv, k as int),
            decreases cats.len() - k,
        {
            let c = &cats[k];
            assert(cv[k as int] == c@);
            let funcs = self.funcs_of(c.as_str());
            let ghost fv = function_views(funcs@);
            let ghost before = item_views(items@);
            if !self.search_mode || funcs.len() > 0 {
                items.push(TreeItem::Category(c.clone()));
                if self.search_mode || self.is_category_expanded(c.as_str()) {
                    let mut j: usize = 0;
                    while j < funcs.len()
                        invariant
                            j <= funcs@.len(),
                            fv == function_views(funcs@),
                            item_views(items@) == before + seq![TreeItemView::Category(c@)] + fv.take(
                                j as int,
                            ).map_values(|f: FunctionView| TreeItemView::Function(f)),
                        decreases funcs.len() - j,
                    {
                        let g = funcs[j].copy();
                        let ghost mid = item_views(items@);
                        items.push(TreeItem::Function(g));
                        assert(item_views(items@) =~= mid.push(TreeItemView::Function(fv[j as int])));
                        assert(fv.take(j + 1) =~= fv.take(j as int).push(fv[j as int]));
                        assert(fv.take(j + 1).map_values(|f: FunctionView| TreeItemView::Function(f))
                            =~= fv.take(j as int).map_values(|f: FunctionView| TreeItemView::Function(f)).push(
                            TreeItemView::Function(fv[j as int]),
                        ));
                        j = j + 1;
                    }
                    assert(fv.take(funcs@.len() as int) =~= fv);
                    assert(item_views(items@) =~= before + category_rows(self@, c@));
                } else {
                    assert(item_views(items@) =~= before + category_rows(self@, c@));
                }
            } else {
                assert(item_views(items@) =~= before + category_rows(self@, c@));
            }
            k = k + 1;
        }
        items
    }

    /// The selected row, if the selection is within the tree.
    pub fn selected_item(&self) -> (r: Option<TreeItem>)
        ensures
            match r {
                Some(t) => row_at(tree_of(self@), self.selected_index as int) == Some(t@),
                None => row_at(tree_of(self@), self.selected_index as int) is None,
            },
    {
        let mut items = self.tree_items();
        if self.selected_index < items.len() {
            let ghost iv = item_views(items@);
            let t = items.remove(self.selected_index);
            assert(iv[self.selected_index as int] == t@);
            Some(t)
        } else {
            None
        }
    }

    /// Moves the selection down, from the last row back to the first.
    pub fn next(&mut self)
        requires
            tree_of(old(self)@).len() > 0 ==> old(self).selected_index < usize::MAX,
        ensures
            final(self)@ == moved_next(old(self)@),
    {
        let n = self.tree_items().len();
        if n > 0 {
            self.selected_index = (self.selected_index + 1) % n;
        }
    }

    /// Moves the selection up, from the first row to the last.
    pub fn previous(&mut self)
        ensures
            final(self)@ == moved_previous(old(self)@),
    {
        let n = self.tree_items().len();
        if n > 0 {
            if self.selected_index > 0 {
                self.selected_index = self.selected_index - 1;
            } else {
                self.selected_index = n - 1;
            }
        }
    }

    /// Scrolls the list so that the selected row is within a window of
    /// `visible_height` rows.
    pub fn ensure_selected_visible(&mut self, visible_height: usize)
        requires
            tree_of(old(self)@).len() > 0 ==> visible_height > 0 && (if old(self).selected_index
                < old(self).script_scroll {
                old(self).selected_index
            } else {
                old(self).script_scroll
            }) + visible_height <= usize::MAX,
        ensures
            tree_of(old(self)@).len() == 0 ==> final(self)@ == old(self)@,
            tree_of(old(self)@).len() > 0 ==> final(self)@ == (AppView {
                script_scroll: visible_scroll(
                    old(self).selected_index as int,
                    old(self).script_scroll as int,
                    visible_height as int,
                ) as usize,
                ..old(self)@
            }),
    {
        let n = self.tree_items().len();
        if n == 0 {
            return;
        }
        if self.selected_index < self.script_scroll {
            self.script_scroll = self.selected_index;
        }
        if self.selected_index >= self.script_scroll + visible_height {
            self.script_scroll = self.selected_index - (visible_height - 1);
        }
    }

    /// Starts a search with an empty query at the top of the list.
    pub fn enter_search_mode(&mut self)
        ensures
            final(self)@ == search_entered(old(self)@),
    {
        self.search_mode = true;
        self.search_query = String::new();
        self.selected_index = 0;
        self.reset_script_scroll();
    }

    /// Ends the search, clearing the query, at the top of the list.
    pub fn exit_search_mode(&mut self)
        ensures
            final(self)@ == search_exited(old(self)@),
    {
        self.search_mode = false;
        self.search_query = String::new();
        self.selected_index = 0;
        self.reset_script_scroll();
    }

    /// Adds a character to the query; the selection goes back to the top.
    pub fn search_push_char(&mut self, c: char)
        ensures
            final(self)@ == search_typed(old(self)@, c),
    {
        crate::text::push_char(&mut self.search_query, c);
        self.selected_index = 0;
        self.reset_script_scroll();
    }

    /// Removes the query's last character, if any; the selection goes back to
    /// the top.
    pub fn search_pop_char(&mut self)
        ensures
            final(self)@ == search_deleted(old(self)@),
    {
        let cs = to_chars(self.search_query.as_str());
        if cs.len() > 0 {
            let kept = slice_to_vec(cs.as_slice(), 0, cs.len() - 1);
            self.search_query = from_chars(kept.as_slice());
            assert(self.search_query@ =~= old(self)@.search_query.drop_last());
        }
        self.selected_index = 0;
        self.reset_script_scroll();
    }

    /// Left arrow: collapses an expanded category, or moves from an item to
    /// its category row.
    pub fn handle_left(&mut self)
        ensures
            final(self)@ == went_left(old(self)@),
    {
        match self.selected_item() {
            Some(TreeItem::Category(c)) => {
                if self.is_category_expanded(c.as_str()) {
                    self.collapse_category(c.as_str());
                }
            },
            Some(TreeItem::Function(f)) => {
                let items = self.tree_items();
                let ghost iv = item_views(items@);
                let sel = self.selected_index;
                let mut i: usize = 0;
                while i < items.len()
                    invariant
                        i <= items@.len(),
                        iv == item_views(items@),
                        iv == tree_of(old(self)@),
                        row_at(iv, sel as int) == Some(TreeItemView::Function(f@)),
                        sel == self.selected_index,
                        self@ == old(self)@,
                        parent_row(iv, f.category@, sel as int, 0) == parent_row(iv, f.category@, sel as int, i as int),
                    decreases items.len() - i,
                {
                    let found = match &items[i] {
                        TreeItem::Category(cat) => text_eq(cat.as_str(), f.category.as_str()) && i < sel,
                        TreeItem::Function(_) => false,
                    };
                    assert(found == (iv[i as int] == TreeItemView::Category(f.category@) && i < sel));
                    if found {
                        assert(parent_row(iv, f.category@, sel as int, i as int) == Some(i as int));
                        assert(iv == tree_of(old(self)@));
                        self.selected_index = i;
                        assert(self@ == (AppView { selected_index: i, ..old(self)@ }));
                        return;
                    }
                    i = i + 1;
                }
            },
            None => {},
        }
    }

    /// Right arrow: expands a collapsed category.
    pub fn handle_right(&mut self)
        ensures
            final(self)@ == went_right(old(self)@),
    {
        match self.selected_item() {
            Some(TreeItem::Category(c)) => {
                if !self.is_category_expanded(c.as_str()) {
                    self.expand_category(c.as_str());
                }
            },
            _ => {},
        }
    }
}

// ---------------------------------------------------------------------------
// Laws
// ---------------------------------------------------------------------------

proof fn lemma_distinct_categories(fs: Seq<FunctionView>, n: int)
    requires
        0 <= n <= fs.len(),
    ensures
        distinct_categories(fs, n).no_duplicates(),
        forall|c: Seq<char>|
            distinct_categories(fs, n).contains(c) <==> exists|i: int| 0 <= i < n && #[trigger] fs[i].category == c,
    decreases n,
{
    if n > 0 {
        lemma_distinct_categories(fs, n - 1);
        let p = distinct_categories(fs, n - 1);
        assert forall|c: Seq<char>|
            distinct_categories(fs, n).contains(c) <==> exists|i: int| 0 <= i < n && #[trigger] fs[i].category == c by {
            if distinct_categories(fs, n).contains(c) && !p.contains(c) {
                assert(c == fs[n - 1].category);
            }
            if exists|i: int| 0 <= i < n && #[trigger] fs[i].category == c {
                let i = choose|i: int| 0 <= i < n && #[trigger] fs[i].category == c;
                if i < n - 1 {
                    assert(p.contains(c));
                    if !p.contains(fs[n - 1].category) {
                        assert(p.push(fs[n - 1].category)[p.index_of(c)] == c);
                    }
                } else if !p.contains(fs[n - 1].category) {
                    assert(p.push(fs[n - 1].category)[p.len() as int] == c);
                }
            }
        }
    }
}

/// The category list holds each category of the items exactly once, in
/// strictly increasing order.
pub proof fn lemma_categories(fs: Seq<FunctionView>)
    ensures
        forall|c: Seq<char>|
            categories_of(fs).contains(c) <==> exists|i: int| 0 <= i < fs.len() && #[trigger] fs[i].category == c,
        forall|i: int, j: int|
            0 <= i < j < categories_of(fs).len() ==> seq_lt(
                #[trigger] categories_of(fs)[i],
                #[trigger] categories_of(fs)[j],
            ),
{
    let d = distinct_categories(fs, fs.len() as int);
    let s = categories_of(fs);
    lemma_distinct_categories(fs, fs.len() as int);
    lemma_stable_sort::<String>(d);
    broadcast use vstd::seq_lib::group_to_multiset_ensures;
    assert forall|c: Seq<char>| s.contains(c) <==> d.contains(c) by {
        assert(s.to_multiset().count(c) == d.to_multiset().count(c));
    }
    d.lemma_multiset_has_no_duplicates();
    assert forall|x: Seq<char>| s.to_multiset().contains(x) implies s.to_multiset().count(x) == 1 by {
        assert(d.to_multiset().contains(x));
    }
    s.lemma_multiset_has_no_duplicates_conv();
    assert forall|i: int, j: int| 0 <= i < j < s.len() implies seq_lt(#[trigger] s[i], #[trigger] s[j]) by {
        assert(!seq_lt(s[j], s[i]));
        assert(s[i] != s[j]);
        lemma_seq_lt_total(s[i], s[j]);
    }
}

proof fn lemma_remove_first(s: Seq<Seq<char>>, c: Seq<char>)
    requires
        s.no_duplicates(),
        s.contains(c),
    ensures
        remove_first(s, c).no_duplicates(),
        forall|x: Seq<char>| #[trigger] remove_first(s, c).contains(x) <==> (s.contains(x) && x != c),
{
    lemma_first_index(s, c, 0);
    let p = first_index(s, c, 0);
    let r = s.remove(p);
    assert forall|x: Seq<char>| #[trigger] r.contains(x) <==> (s.contains(x) && x != c) by {
        if r.contains(x) {
            let k = choose|k: int| 0 <= k < r.len() && r[k] == x;
            if k < p {
                assert(s[k] == x);
            } else {
                assert(s[k + 1] == x);
            }
        }
        if s.contains(x) && x != c {
            let k = choose|k: int| 0 <= k < s.len() && s[k] == x;
            if k < p {
                assert(r[k] == x);
            } else {
                assert(k != p);
                assert(r[k - 1] == x);
            }
        }
    }
}

proof fn lemma_push_new(s: Seq<Seq<char>>, c: Seq<char>)
    requires
        s.no_duplicates(),
        !s.contains(c),
    ensures
        s.push(c).no_duplicates(),
        forall|x: Seq<char>| #[trigger] s.push(c).contains(x) <==> (s.contains(x) || x == c),
{
    assert forall|x: Seq<char>| #[trigger] s.push(c).contains(x) <==> (s.contains(x) || x == c) by {
        if s.push(c).contains(x) {
            let k = choose|k: int| 0 <= k < s.push(c).len() && s.push(c)[k] == x;
            if k < s.len() {
                assert(s[k] == x);
            }
        }
        if s.contains(x) {
            let k = choose|k: int| 0 <= k < s.len() && s[k] == x;
            assert(s.push(c)[k] == x);
        }
        if x == c {
            assert(s.push(c)[s.len() as int] == x);
        }
    }
}

/// Toggling a category flips whether it is expanded and leaves every other
/// category as it was; the expanded list keeps each category at most once.
pub proof fn lemma_toggle_category(v: AppView, c: Seq<char>)
    requires
        v.expanded.no_duplicates(),
    ensures
        toggled(v, c).expanded.no_duplicates(),
        toggled(v, c).expanded.contains(c) == !v.expanded.contains(c),
        forall|x: Seq<char>| x != c ==> #[trigger] toggled(v, c).expanded.contains(x) == v.expanded.contains(x),
{
    if v.expanded.contains(c) {
        lemma_remove_first(v.expanded, c);
    } else {
        lemma_push_new(v.expanded, c);
    }
}

/// Toggling a category twice restores which categories are expanded, and
/// restores the whole state when the category was collapsed.
pub proof fn lemma_toggle_category_twice(v: AppView, c: Seq<char>)
    requires
        v.expanded.no_duplicates(),
    ensures
        forall|x: Seq<char>| #[trigger] toggled(toggled(v, c), c).expanded.contains(x) == v.expanded.contains(x),
        !v.expanded.contains(c) ==> toggled(toggled(v, c), c) == v,
{
    lemma_toggle_category(v, c);
    lemma_toggle_category(toggled(v, c), c);
    if !v.expanded.contains(c) {
        let e = v.expanded.push(c);
        lemma_first_index(e, c, 0);
        let p = first_index(e, c, 0);
        if p < v.expanded.len() {
            assert(v.expanded[p] == c);
        }
        assert(e.remove(p) =~= v.expanded);
    }
}

/// Expanding shows the category, keeps the list free of repeats, and a
/// second expansion changes nothing.
pub proof fn lemma_expand_category(v: AppView, c: Seq<char>)
    requires
        v.expanded.no_duplicates(),
    ensures
        expanded(v, c).expanded.contains(c),
        expanded(v, c).expanded.no_duplicates(),
        expanded(expanded(v, c), c) == expanded(v, c),
        forall|x: Seq<char>| x != c ==> #[trigger] expanded(v, c).expanded.contains(x) == v.expanded.contains(x),
{
    if !v.expanded.contains(c) {
        lemma_push_new(v.expanded, c);
    }
}

/// Collapsing hides the category and no other; collapsing again changes
/// nothing.
pub proof fn lemma_collapse_category(v: AppView, c: Seq<char>)
    requires
        v.expanded.no_duplicates(),
    ensures
        !collapsed(v, c).expanded.contains(c),
        collapsed(v, c).expanded.no_duplicates(),
        collapsed(collapsed(v, c), c) == collapsed(v, c),
        forall|x: Seq<char>| x != c ==> #[trigger] collapsed(v, c).expanded.contains(x) == v.expanded.contains(x),
{
    lemma_first_index(v.expanded, c, 0);
    if v.expanded.contains(c) {
        lemma_remove_first(v.expanded, c);
        lemma_first_index(collapsed(v, c).expanded, c, 0);
    }
}

/// Moving down then up, or up then down, comes back to the same row, and
/// the selection stays among the rows.
pub proof fn lemma_next_previous(s: int, n: int)
    requires
        0 <= s < n,
    ensures
        0 <= next_index(s, n) < n,
        0 <= previous_index(s, n) < n,
        previous_index(next_index(s, n), n) == s,
        next_index(previous_index(s, n), n) == s,
{
    if s + 1 < n {
        vstd::arithmetic::div_mod::lemma_small_mod((s + 1) as nat, n as nat);
    } else {
        vstd::arithmetic::div_mod::lemma_mod_self_0(n);
    }
    if s > 0 {
        vstd::arithmetic::div_mod::lemma_small_mod(s as nat, n as nat);
    } else {
        vstd::arithmetic::div_mod::lemma_mod_self_0(n);
    }
}

/// The rows depend only on the items, the expanded categories and the
/// search, not on the rest of the state.
proof fn lemma_rows_upto_same(v: AppView, w: AppView, cats: Seq<Seq<char>>, k: int)
    requires
        v.functions == w.functions,
        v.expanded == w.expanded,
        v.search_mode == w.search_mode,
        v.search_query == w.search_query,
    ensures
        rows_upto(v, cats, k) == rows_upto(w, cats, k),
    decreases k,
{
    if 0 < k <= cats.len() {
        lemma_rows_upto_same(v, w, cats, k - 1);
    }
}

/// The rows of the list do not depend on which row is selected.
pub proof fn lemma_rows_ignore_selection(v: AppView, k: usize)
    ensures
        tree_of(AppView { selected_index: k, ..v }) == tree_of(v),
{
    let w = AppView { selected_index: k, ..v };
    lemma_rows_upto_same(w, v, categories_of(v.functions), categories_of(v.functions).len() as int);
}

/// On a selected row, moving down then up, or up then down, gives back the
/// browser's state (the rows, as those of a list in memory, number at most
/// `usize::MAX`).
pub proof fn lemma_next_then_previous(v: AppView)
    requires
        v.selected_index < tree_of(v).len(),
        tree_of(v).len() <= usize::MAX,
    ensures
        moved_previous(moved_next(v)) == v,
        moved_next(moved_previous(v)) == v,
{
    let n = tree_of(v).len() as int;
    let s = v.selected_index as int;
    lemma_next_previous(s, n);
    let a = moved_next(v);
    lemma_rows_ignore_selection(v, next_index(s, n) as usize);
    assert(a == AppView { selected_index: next_index(s, n) as usize, ..v });
    assert(tree_of(a) == tree_of(v));
    assert(a.selected_index as int == next_index(s, n));
    assert(moved_previous(a) == v);
    let b = moved_previous(v);
    lemma_rows_ignore_selection(v, previous_index(s, n) as usize);
    assert(b == AppView { selected_index: previous_index(s, n) as usize, ..v });
    assert(tree_of(b) == tree_of(v));
    assert(b.selected_index as int == previous_index(s, n));
    assert(moved_next(b) == v);
}

/// Tab visits the list, the details and (when there is output) the output
/// pane, then comes back to the start.
pub proof fn lemma_focus_cycle(f: FocusPane, has_output: bool)
    ensures
        has_output ==> next_focus(next_focus(next_focus(f, has_output), has_output), has_output) == f,
        !has_output && f != FocusPane::Output ==> next_focus(next_focus(f, has_output), has_output) == f,
{
}

/// Typing a character and deleting it gives back the query.
pub proof fn lemma_search_push_pop(q: Seq<char>, c: char)
    ensures
        query_popped(query_pushed(q, c)) == q,
{
    assert(q.push(c).drop_last() =~= q);
}

/// After scrolling to the selection, it is within the visible window.
pub proof fn lemma_visible_scroll(sel: int, scroll: int, h: int)
    requires
        0 <= sel,
        0 <= scroll,
        h > 0,
    ensures
        0 <= visible_scroll(sel, scroll, h) <= sel < visible_scroll(sel, scroll, h) + h,
{
}

} // verus!
