//! The text the interface shows: the rows and title of the script list, the
//! header's summary of the selected row, the title of the output pane, the
//! footer's key help, and where a modal sits on the screen.
use crate::script::parser::FunctionView;
use crate::text::{from_chars};
use crate::ui::app::{display_name_for, App, AppView, FocusPane, TreeItem, TreeItemView};
use crate::ui::pty_runner::ExecutionStatus;
use vstd::prelude::*;

verus! {

/// The character of a decimal digit (below 10).
pub open spec fn digit_char(d: nat) -> char {
    (d + 48) as char
}

/// The decimal notation of `n`, without leading zeros.
pub open spec fn decimal(n: nat) -> Seq<char>
    decreases n,
{
    if n < 10 {
        seq![digit_char(n)]
    } else {
        decimal(n / 10).push(digit_char(n % 10))
    }
}

fn digit_exec(d: u64) -> (r: char)
    requires
        d < 10,
    ensures
        r == digit_char(d as nat),
{
    let b = d as u8;
    (b + 48) as char
}

/// The decimal notation of `n`.
pub fn decimal_string(n: u64) -> (r: String)
    ensures
        r@ == decimal(n as nat),
{
    let mut digits: Vec<char> = Vec::new();
    let mut v = n;
    while v >= 10
        invariant
            decimal(n as nat) == decimal(v as nat) + digits@,
        decreases v,
    {
        let d = digit_exec(v % 10);
        let ghost before = digits@;
        digits.insert(0, d);
        assert(decimal(v as nat) == decimal((v / 10) as nat).push(digit_char((v % 10) as nat)));
        assert(decimal((v / 10) as nat).push(digit_char((v % 10) as nat)) + before =~= decimal(
            (v / 10) as nat,
        ) + digits@);
        v = v / 10;
    }
    let ghost before = digits@;
    digits.insert(0, digit_exec(v));
    assert(decimal(v as nat) == seq![digit_char(v as nat)]);
    assert(digits@ =~= decimal(v as nat) + before);
    from_chars(digits.as_slice())
}

/// The decimal notation of an integer, with `-` before a negative one.
pub open spec fn signed_decimal(i: int) -> Seq<char> {
    if i < 0 {
        seq!['-'] + decimal((-i) as nat)
    } else {
        decimal(i as nat)
    }
}

/// The decimal notation of `i`.
pub fn signed_decimal_string(i: i32) -> (r: String)
    ensures
        r@ == signed_decimal(i as int),
{
    if i < 0 {
        let mut r = String::from_str("-");
        let m = (-(i as i64)) as u64;
        let d = decimal_string(m);
        r.append(d.as_str());
        proof {
            reveal_strlit("-");
        }
        assert(r@ =~= seq!['-'] + decimal((-i) as nat));
        r
    } else {
        decimal_string(i as u64)
    }
}

/// How a row of the script list reads: a category with its fold marker
/// (`▼` when expanded, `▶` when not) and display name; an item indented,
/// with its emoji when it has one, and its display name.
pub open spec fn row_label(v: AppView, item: TreeItemView) -> Seq<char> {
    match item {
        TreeItemView::Category(c) => (if v.expanded.contains(c) {
            "▼"@
        } else {
            "▶"@
        }) + " "@ + display_name_for(v.display_names, c),
        TreeItemView::Function(f) => "    "@ + emoji_prefix(f) + f.display_name,
    }
}

/// An item's emoji followed by a space, or nothing.
pub open spec fn emoji_prefix(f: FunctionView) -> Seq<char> {
    match f.emoji {
        Some(e) => e + " "@,
        None => Seq::empty(),
    }
}

/// The text of a row of the script list.
pub fn tree_row_label(app: &App, item: &TreeItem) -> (r: String)
    ensures
        r@ == row_label(app@, item@),
{
    match item {
        TreeItem::Category(c) => {
            let mut r = if app.is_category_expanded(c.as_str()) {
                String::from_str("▼")
            } else {
                String::from_str("▶")
            };
            r.append(" ");
            let name = app.get_category_display_name(c.as_str());
            r.append(name.as_str());
            r
        },
        TreeItem::Function(f) => {
            let mut r = String::from_str("    ");
            match &f.emoji {
                Some(e) => {
                    r.append(e.as_str());
                    r.append(" ");
                },
                None => {},
            }
            r.append(f.display_name.as_str());
            r
        },
    }
}

/// The title of the script list: the project's name, and the position of
/// the first shown row among all rows when they do not all fit.
pub open spec fn list_title(project: Seq<char>, start: nat, total: nat, visible_height: nat) -> Seq<char> {
    if total > visible_height {
        "🤖 "@ + project + " ["@ + decimal(start + 1) + "/"@ + decimal(total) + "]"@
    } else {
        "🤖 "@ + project
    }
}

/// The title of the script list.
pub fn tree_title(project: &str, start: usize, total: usize, visible_height: usize) -> (r: String)
    requires
        start < usize::MAX,
    ensures
        r@ == list_title(project@, start as nat, total as nat, visible_height as nat),
{
    let mut r = String::from_str("🤖 ");
    r.append(project);
    if total > visible_height {
        r.append(" [");
        let a = decimal_string((start + 1) as u64);
        r.append(a.as_str());
        r.append("/");
        let b = decimal_string(total as u64);
        r.append(b.as_str());
        r.append("]");
    }
    r
}

/// The rows of the list that fit in a window of `height` rows scrolled to
/// `scroll`: from `scroll` up to `scroll + height`, within the `total` rows.
pub open spec fn window(scroll: nat, height: nat, total: nat) -> (nat, nat) {
    let end = if scroll + height < total {
        scroll + height
    } else {
        total
    };
    (if scroll < end {
        scroll
    } else {
        end
    }, end)
}

/// The range of rows that the list shows.
pub fn visible_rows(scroll: usize, height: usize, total: usize) -> (r: (usize, usize))
    ensures
        r.0 as nat == window(scroll as nat, height as nat, total as nat).0,
        r.1 as nat == window(scroll as nat, height as nat, total as nat).1,
        r.0 <= r.1 <= total,
{
    let end = if height < total && scroll < total - height {
        scroll + height
    } else {
        total
    };
    let start = if scroll < end {
        scroll
    } else {
        end
    };
    (start, end)
}

/// The number of the first `n` items in category `c`.
pub open spec fn count_in(fs: Seq<FunctionView>, c: Seq<char>, n: int) -> nat
    decreases n,
{
    if n <= 0 || n > fs.len() {
        0
    } else {
        count_in(fs, c, n - 1) + if fs[n - 1].category == c {
            1nat
        } else {
            0nat
        }
    }
}

proof fn lemma_count_in_bound(fs: Seq<FunctionView>, c: Seq<char>, n: int)
    requires
        0 <= n <= fs.len(),
    ensures
        count_in(fs, c, n) <= n,
    decreases n,
{
    if n > 0 {
        lemma_count_in_bound(fs, c, n - 1);
    }
}

/// The header's description of a category: how many items it holds.
pub open spec fn category_summary(v: AppView, c: Seq<char>) -> Seq<char> {
    "  ("@ + decimal(count_in(v.functions, c, v.functions.len() as int)) + " functions)"@
}

/// The header's description of a category, `  (3 functions)`.
pub fn category_count_text(app: &App, category: &str) -> (r: String)
    ensures
        r@ == category_summary(app@, category@),
{
    let ghost fs = app@.functions;
    let c = crate::text::to_chars(category);
    let mut n: u64 = 0;
    let mut i: usize = 0;
    while i < app.functions.len()
        invariant
            i <= app.functions@.len(),
            fs == app@.functions,
            fs.len() == app.functions@.len(),
            c@ == category@,
            n == count_in(fs, category@, i as int),
            n <= i,
            i <= usize::MAX,
        decreases app.functions.len() - i,
    {
        proof {
            lemma_count_in_bound(fs, category@, i as int);
        }
        let fc = crate::text::to_chars(app.functions[i].category.as_str());
        assert(fs[i as int] == app.functions@[i as int]@);
        assert(fc@ == fs[i as int].category);
        let same = crate::text::chars_eq(fc.as_slice(), c.as_slice());
        assert(same == (fs[i as int].category == category@));
        assert(count_in(fs, category@, i + 1) == count_in(fs, category@, i as int) + if fs[i as int].category
            == category@ {
            1nat
        } else {
            0nat
        });
        if same {
            n = n + 1;
        }
        i = i + 1;
    }
    let mut r = String::from_str("  (");
    let d = decimal_string(n);
    r.append(d.as_str());
    r.append(" functions)");
    r
}

/// The spinner's frames, one per tick while a command runs.
pub open spec fn spinner_frames() -> Seq<char> {
    seq!['⠋', '⠙', '⠹', '⠸', '⠼', '⠴', '⠦', '⠧', '⠇', '⠏']
}

fn spinner_exec(tick: u64) -> (r: char)
    ensures
        r == spinner_frames()[(tick % 10) as int],
{
    let i = tick % 10;
    if i == 0 {
        '⠋'
    } else if i == 1 {
        '⠙'
    } else if i == 2 {
        '⠹'
    } else if i == 3 {
        '⠸'
    } else if i == 4 {
        '⠼'
    } else if i == 5 {
        '⠴'
    } else if i == 6 {
        '⠦'
    } else if i == 7 {
        '⠧'
    } else if i == 8 {
        '⠇'
    } else {
        '⠏'
    }
}

/// The title of the output pane: a plain title while nothing runs, a
/// spinner frame and the item's name while it runs, a check mark when it
/// succeeded, and a cross with the exit code, when known, when it failed.
/// Without a selected item the name reads `Command`.
pub open spec fn output_title_of(status: ExecutionStatus, name: Option<Seq<char>>, tick: nat, exit_code: Option<i32>) -> Seq<char> {
    let n = match name {
        Some(s) => s,
        None => "Command"@,
    };
    match status {
        ExecutionStatus::Idle => "💬 Output"@,
        ExecutionStatus::Running => seq![spinner_frames()[(tick % 10) as int]] + " Running: "@ + n,
        ExecutionStatus::Succeeded => "✅ "@ + n,
        ExecutionStatus::Failed => match exit_code {
            Some(code) => "❌ "@ + n + " (exit "@ + signed_decimal(code as int) + ")"@,
            None => "❌ "@ + n,
        },
    }
}

/// The title of the output pane.
pub fn output_title(status: ExecutionStatus, name: Option<&str>, tick: u64, exit_code: Option<i32>) -> (r: String)
    ensures
        r@ == output_title_of(
            status,
            match name {
                Some(s) => Some(s@),
                None => None,
            },
            tick as nat,
            exit_code,
        ),
{
    let n = match name {
        Some(s) => s,
        None => "Command",
    };
    match status {
        ExecutionStatus::Idle => String::from_str("💬 Output"),
        ExecutionStatus::Running => {
            let mut r = String::new();
            crate::text::push_char(&mut r, spinner_exec(tick));
            r.append(" Running: ");
            r.append(n);
            assert(r@ =~= seq![spinner_frames()[(tick % 10) as int]] + " Running: "@ + n@);
            r
        },
        ExecutionStatus::Succeeded => {
            let mut r = String::from_str("✅ ");
            r.append(n);
            r
        },
        ExecutionStatus::Failed => {
            let mut r = String::from_str("❌ ");
            r.append(n);
            match exit_code {
                Some(code) => {
                    r.append(" (exit ");
                    let d = signed_decimal_string(code);
                    r.append(d.as_str());
                    r.append(")");
                },
                None => {},
            }
            r
        },
    }
}

/// The key help in the footer: for searching, for the output pane, and
/// for the list and details panes.
pub open spec fn help_text(search_mode: bool, focus: FocusPane) -> Seq<char> {
    if search_mode {
        "[↑↓] Navigate  [Enter] Execute  [ESC] Exit Search  [Backspace] Delete"@
    } else if focus == FocusPane::Output {
        "[jk] Scroll  [Ctrl+d/u] Half-page  [G] Bottom  [gg] Top  [Mouse] Select  [Esc/q] Back  [Tab] Switch"@
    } else {
        "[↑↓/jk] Navigate  [←→/hl] Collapse/Expand  [/] Search  [t] Theme  [i] Info  [Enter] Toggle/Execute  [Tab] Switch  [Q] Quit"@
    }
}

/// The key help in the footer.
pub fn footer_help(search_mode: bool, focus: FocusPane) -> (r: String)
    ensures
        r@ == help_text(search_mode, focus),
{
    if search_mode {
        String::from_str("[↑↓] Navigate  [Enter] Execute  [ESC] Exit Search  [Backspace] Delete")
    } else if focus == FocusPane::Output {
        String::from_str("[jk] Scroll  [Ctrl+d/u] Half-page  [G] Bottom  [gg] Top  [Mouse] Select  [Esc/q] Back  [Tab] Switch")
    } else {
        String::from_str(
            "[↑↓/jk] Navigate  [←→/hl] Collapse/Expand  [/] Search  [t] Theme  [i] Info  [Enter] Toggle/Execute  [Tab] Switch  [Q] Quit",
        )
    }
}

/// The top left corner of a `width` by `height` box centered in an area of
/// `area_width` by `area_height` (at the edge when the box does not fit).
pub open spec fn centered_at(area_width: nat, area_height: nat, width: nat, height: nat) -> (nat, nat) {
    (
        if area_width > width {
            ((area_width - width) / 2) as nat
        } else {
            0
        },
        if area_height > height {
            ((area_height - height) / 2) as nat
        } else {
            0
        },
    )
}

/// Where a modal box sits: centered in the area.
pub fn centered(area_width: u16, area_height: u16, width: u16, height: u16) -> (r: (u16, u16))
    ensures
        r.0 as nat == centered_at(area_width as nat, area_height as nat, width as nat, height as nat).0,
        r.1 as nat == centered_at(area_width as nat, area_height as nat, width as nat, height as nat).1,
{
    let x = if area_width > width {
        (area_width - width) / 2
    } else {
        0
    };
    let y = if area_height > height {
        (area_height - height) / 2
    } else {
        0
    };
    (x, y)
}


/// The theme picker's row for a theme: a marker before the highlighted one.
pub fn picker_row(name: &str, highlighted: bool) -> (r: String)
    ensures
        r@ == (if highlighted {
            "▶ "@
        } else {
            "  "@
        }) + name@,
{
    let mut r = if highlighted {
        String::from_str("▶ ")
    } else {
        String::from_str("  ")
    };
    r.append(name);
    r
}

/// The height of the theme picker: a row for each of `themes` themes, two
/// borders and two spare rows, but no taller than the area less four rows.
pub fn picker_height(themes: u16, area_height: u16) -> (r: u16)
    requires
        themes + 4 <= u16::MAX,
    ensures
        r == (if themes + 4 <= area_height - 4 {
            themes + 4
        } else if area_height >= 4 {
            area_height - 4
        } else {
            0
        }),
{
    let room = if area_height >= 4 {
        area_height - 4
    } else {
        0
    };
    if themes + 4 <= room {
        themes + 4
    } else {
        room
    }
}

} // verus!
