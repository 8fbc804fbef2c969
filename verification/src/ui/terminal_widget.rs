//! Text selection in the output pane: which cells a mouse selection covers,
//! and the text it copies from a snapshot of the terminal screen.
use crate::script::annotations::opt_view;
use crate::text::{
    join, join_strings, lines, split_lines, string_views, to_chars, trim_end, trim_end_exec, views,
    from_chars,
};
use vstd::prelude::*;

verus! {

/// `(row, col)` comes no later than the other position in reading order
/// (the order of tuples).
pub open spec fn pos_le(a: (usize, usize), b: (usize, usize)) -> bool {
    a.0 < b.0 || (a.0 == b.0 && a.1 <= b.1)
}

fn pos_le_exec(a: (usize, usize), b: (usize, usize)) -> (r: bool)
    ensures
        r == pos_le(a, b),
{
    a.0 < b.0 || (a.0 == b.0 && a.1 <= b.1)
}

/// A mouse selection: whether one is being made, and its two ends (in the
/// order they were set; either may come first).
#[derive(Debug, Clone, Copy)]
pub struct Selection {
    pub active: bool,
    pub start: Option<(usize, usize)>,
    pub end: Option<(usize, usize)>,
}

/// The two ends in reading order.
pub open spec fn ordered(s: (usize, usize), e: (usize, usize)) -> ((usize, usize), (usize, usize)) {
    if pos_le(s, e) {
        (s, e)
    } else {
        (e, s)
    }
}

/// The cell is selected: on the first row from the start column, on the
/// last row up to the end column, and every column of the rows between.
pub open spec fn cell_selected(sel: Selection, row: usize, col: usize) -> bool {
    match (sel.start, sel.end) {
        (Some(s), Some(e)) => {
            let (a, b) = ordered(s, e);
            if !sel.active || row < a.0 || row > b.0 {
                false
            } else if row == a.0 && row == b.0 {
                col >= a.1 && col <= b.1
            } else if row == a.0 {
                col >= a.1
            } else if row == b.0 {
                col <= b.1
            } else {
                true
            }
        },
        _ => false,
    }
}

impl Selection {
    /// Whether the cell at `(row, col)` is within the selection.
    pub fn is_selected(&self, row: usize, col: usize) -> (r: bool)
        ensures
            r == cell_selected(*self, row, col),
    {
        if !self.active {
            return false;
        }
        let start = match self.start {
            Some(s) => s,
            None => {
                return false;
            },
        };
        let end = match self.end {
            Some(e) => e,
            None => {
                return false;
            },
        };
        let (start, end) = if pos_le_exec(start, end) {
            (start, end)
        } else {
            (end, start)
        };
        if row < start.0 || row > end.0 {
            return false;
        }
        if row == start.0 && row == end.0 {
            return col >= start.1 && col <= end.1;
        }
        if row == start.0 {
            return col >= start.1;
        }
        if row == end.0 {
            return col <= end.1;
        }
        true
    }
}

/// No selection.
pub open spec fn no_selection() -> Selection {
    Selection { active: false, start: None, end: None }
}

/// An area of the screen (`column`, `row`, `width`, `height`) that lies
/// within the screen's coordinates.
pub open spec fn area_fits(a: (u16, u16, u16, u16)) -> bool {
    a.0 + a.2 <= u16::MAX && a.1 + a.3 <= u16::MAX
}

/// The `(row, col)` of the area's cell under the screen position
/// (`column`, `row`), if the position is inside the area.
pub open spec fn cell_at(a: (u16, u16, u16, u16), column: u16, row: u16) -> Option<(usize, usize)> {
    if a.0 <= column < a.0 + a.2 && a.1 <= row < a.1 + a.3 {
        Some(((row - a.1) as usize, (column - a.0) as usize))
    } else {
        None
    }
}

/// `v` moved into `lo ..= lo + len - 1`.
pub open spec fn clamp_into(v: int, lo: int, len: int) -> int {
    if v < lo {
        lo
    } else if v > lo + len - 1 {
        lo + len - 1
    } else {
        v
    }
}

/// The selection after the left button is pressed at (`column`, `row`):
/// one that starts and ends at the output area's cell there, or none when
/// the press is outside the area or no output is shown.
pub fn press_selection(area: Option<(u16, u16, u16, u16)>, column: u16, row: u16) -> (r: Selection)
    requires
        area matches Some(a) ==> area_fits(a),
    ensures
        r == match area {
            Some(a) => match cell_at(a, column, row) {
                Some(p) => Selection { active: true, start: Some(p), end: Some(p) },
                None => no_selection(),
            },
            None => no_selection(),
        },
{
    match area {
        Some((x, y, w, h)) => {
            if column >= x && column < x + w && row >= y && row < y + h {
                let p = ((row - y) as usize, (column - x) as usize);
                Selection { active: true, start: Some(p), end: Some(p) }
            } else {
                Selection { active: false, start: None, end: None }
            }
        },
        None => Selection { active: false, start: None, end: None },
    }
}

/// Dragging with the left button to (`column`, `row`): a selection being
/// made ends at the output area's cell nearest that position; otherwise
/// nothing changes.
pub fn drag_selection(sel: &mut Selection, area: Option<(u16, u16, u16, u16)>, column: u16, row: u16)
    requires
        area matches Some(a) ==> area_fits(a) && a.2 > 0 && a.3 > 0,
    ensures
        *final(sel) == match area {
            Some(a) => if old(sel).active {
                Selection {
                    end: Some(
                        (
                            (clamp_into(row as int, a.1 as int, a.3 as int) - a.1) as usize,
                            (clamp_into(column as int, a.0 as int, a.2 as int) - a.0) as usize,
                        ),
                    ),
                    ..*old(sel)
                }
            } else {
                *old(sel)
            },
            None => *old(sel),
        },
{
    if let Some((x, y, w, h)) = area {
        if sel.active {
            let mut col = if column < x { x } else { column };
            if col > x + w - 1 {
                col = x + w - 1;
            }
            let mut r = if row < y { y } else { row };
            if r > y + h - 1 {
                r = y + h - 1;
            }
            sel.end = Some(((r - y) as usize, (col - x) as usize));
        }
    }
}


/// A selection covers exactly the cells between its two ends in reading
/// order, whichever end was set first.
pub proof fn lemma_selection_range(sel: Selection, row: usize, col: usize)
    requires
        sel.active,
        sel.start is Some,
        sel.end is Some,
    ensures
        cell_selected(sel, row, col) == ({
            let (a, b) = ordered(sel.start.unwrap(), sel.end.unwrap());
            pos_le(a, (row, col)) && pos_le((row, col), b)
        }),
        cell_selected(sel, row, col) == cell_selected(
            Selection { active: sel.active, start: sel.end, end: sel.start },
            row,
            col,
        ),
{
}

/// A snapshot of the terminal screen as the output pane shows it: its size
/// and the contents of each cell (none where the screen has no cell).
#[derive(Debug, Clone)]
pub struct ScreenGrid {
    pub rows: usize,
    pub cols: usize,
    pub cells: Vec<Vec<Option<String>>>,
}

pub open spec fn cells_view(cells: Seq<Vec<Option<String>>>) -> Seq<Seq<Option<Seq<char>>>> {
    cells.map_values(|r: Vec<Option<String>>| r@.map_values(|c: Option<String>| opt_view(c)))
}

/// The text a cell contributes: its contents, a space for an empty cell,
/// nothing where there is no cell.
pub open spec fn cell_text(cells: Seq<Seq<Option<Seq<char>>>>, row: int, col: int) -> Seq<char> {
    if 0 <= row < cells.len() && 0 <= col < cells[row].len() {
        match cells[row][col] {
            Some(s) => if s.len() == 0 {
                seq![' ']
            } else {
                s
            },
            None => Seq::empty(),
        }
    } else {
        Seq::empty()
    }
}

/// The text of the cells `from..=to` of a row.
pub open spec fn row_text(cells: Seq<Seq<Option<Seq<char>>>>, row: int, from: int, to: int) -> Seq<char>
    decreases to - from + 1,
{
    if from > to {
        Seq::empty()
    } else {
        row_text(cells, row, from, to - 1) + cell_text(cells, row, to)
    }
}

pub open spec fn min(a: int, b: int) -> int {
    if a < b {
        a
    } else {
        b
    }
}

/// The selected part of one row, followed by a line break unless it is the
/// selection's last row.
pub open spec fn selected_row(
    cells: Seq<Seq<Option<Seq<char>>>>,
    cols: int,
    a: (usize, usize),
    b: (usize, usize),
    row: int,
) -> Seq<char> {
    let from = if row == a.0 {
        a.1 as int
    } else {
        0
    };
    let to = if row == b.0 {
        b.1 as int
    } else {
        cols - 1
    };
    row_text(cells, row, from, min(to, cols - 1)) + if row < b.0 {
        seq!['\n']
    } else {
        Seq::empty()
    }
}

/// The selected rows `a.0..=last`, concatenated.
pub open spec fn selected_rows(
    cells: Seq<Seq<Option<Seq<char>>>>,
    cols: int,
    a: (usize, usize),
    b: (usize, usize),
    last: int,
) -> Seq<char>
    decreases last - a.0 + 1,
{
    if last < a.0 {
        Seq::empty()
    } else {
        selected_rows(cells, cols, a, b, last - 1) + selected_row(cells, cols, a, b, last)
    }
}

/// The copied text: the selected cells row by row, each line without
/// trailing whitespace, and no trailing whitespace at the end.
pub open spec fn selection_text(grid_cells: Seq<Seq<Option<Seq<char>>>>, rows: int, cols: int, start: (usize, usize), end: (usize, usize)) -> Seq<char> {
    let (a, b) = ordered(start, end);
    let raw = selected_rows(grid_cells, cols, a, b, min(b.0 as int, rows - 1));
    trim_end(join(lines(raw).map_values(|l: Seq<char>| trim_end(l)), "\n"@))
}

fn cell_text_exec(grid: &ScreenGrid, row: usize, col: usize, out: &mut Vec<char>)
    ensures
        final(out)@ == old(out)@ + cell_text(cells_view(grid.cells@), row as int, col as int),
{
    let ghost cv = cells_view(grid.cells@);
    if row < grid.cells.len() && col < grid.cells[row].len() {
        assert(cv[row as int] == grid.cells@[row as int]@.map_values(|c: Option<String>| opt_view(c)));
        assert(cv[row as int][col as int] == opt_view(grid.cells@[row as int]@[col as int]));
        match &grid.cells[row][col] {
            Some(s) => {
                let cs = to_chars(s.as_str());
                if cs.len() == 0 {
                    out.push(' ');
                    assert(out@ =~= old(out)@ + seq![' ']);
                } else {
                    let mut i: usize = 0;
                    while i < cs.len()
                        invariant
                            i <= cs@.len(),
                            out@ == old(out)@ + cs@.take(i as int),
                        decreases cs.len() - i,
                    {
                        out.push(cs[i]);
                        assert(out@ =~= old(out)@ + cs@.take(i + 1));
                        i = i + 1;
                    }
                    assert(cs@.take(cs@.len() as int) =~= cs@);
                }
            },
            None => {
                assert(out@ =~= old(out)@ + Seq::<char>::empty());
            },
        }
    } else {
        assert(out@ =~= old(out)@ + Seq::<char>::empty());
    }
}

/// The text of a selection, read from a snapshot of the screen.
pub fn get_selected_text(grid: &ScreenGrid, start: (usize, usize), end: (usize, usize)) -> (r: String)
    requires
        grid.rows > 0,
        grid.cols > 0 || ordered(start, end).0.0 > min(ordered(start, end).1.0 as int, grid.rows - 1),
    ensures
        r@ == selection_text(cells_view(grid.cells@), grid.rows as int, grid.cols as int, start, end),
{
    let ghost cv = cells_view(grid.cells@);
    let (a, b) = if pos_le_exec(start, end) {
        (start, end)
    } else {
        (end, start)
    };
    let last = if b.0 < grid.rows - 1 {
        b.0
    } else {
        grid.rows - 1
    };
    let mut raw: Vec<char> = Vec::new();
    let mut row = a.0;
    assert(raw@ =~= selected_rows(cv, grid.cols as int, a, b, a.0 - 1));
    while row <= last
        invariant
            a.0 <= row,
            row <= last + 1 || row == a.0,
            last == min(b.0 as int, grid.rows - 1),
            last < grid.rows,
            grid.cols > 0 || a.0 > last,
            raw@ == selected_rows(cv, grid.cols as int, a, b, row - 1),
            cv == cells_view(grid.cells@),
        decreases last + 1 - row,
    {
        let from = if row == a.0 {
            a.1
        } else {
            0
        };
        let to0 = if row == b.0 {
            b.1
        } else {
            grid.cols - 1
        };
        let to = if to0 < grid.cols - 1 {
            to0
        } else {
            grid.cols - 1
        };
        let ghost before = raw@;
        if from <= to {
            let mut col = from;
            while col <= to
                invariant
                    from <= col,
                    col <= to + 1,
                    to < grid.cols,
                    raw@ == before + row_text(cv, row as int, from as int, col - 1),
                    cv == cells_view(grid.cells@),
                decreases to + 1 - col,
            {
                cell_text_exec(grid, row, col, &mut raw);
                assert(raw@ =~= before + row_text(cv, row as int, from as int, col as int));
                col = col + 1;
            }
        }
        if row < b.0 {
            raw.push('\n');
        }
        assert(raw@ =~= before + selected_row(cv, grid.cols as int, a, b, row as int));
        row = row + 1;
    }
    assert(raw@ == selected_rows(cv, grid.cols as int, a, b, last as int));
    let ls = split_lines(raw.as_slice());
    let ghost lv = views(ls@);
    let mut trimmed: Vec<String> = Vec::new();
    let mut i: usize = 0;
    while i < ls.len()
        invariant
            i <= ls@.len(),
            lv == views(ls@),
            string_views(trimmed@) == lv.take(i as int).map_values(|l: Seq<char>| trim_end(l)),
        decreases ls.len() - i,
    {
        let t = trim_end_exec(ls[i].as_slice());
        let ghost bt = string_views(trimmed@);
        trimmed.push(from_chars(t.as_slice()));
        assert(string_views(trimmed@) =~= bt.push(trim_end(lv[i as int])));
        assert(lv.take(i + 1).map_values(|l: Seq<char>| trim_end(l)) =~= lv.take(i as int).map_values(
            |l: Seq<char>| trim_end(l),
        ).push(trim_end(lv[i as int])));
        i = i + 1;
    }
    assert(lv.take(ls@.len() as int) =~= lv);
    let joined = join_strings(trimmed.as_slice(), "\n");
    let jc = to_chars(joined.as_str());
    let r = trim_end_exec(jc.as_slice());
    from_chars(r.as_slice())
}

/// The copied text does not depend on which end of the selection was set
/// first.
pub proof fn lemma_selection_text_either_way(
    cells: Seq<Seq<Option<Seq<char>>>>,
    rows: int,
    cols: int,
    start: (usize, usize),
    end: (usize, usize),
)
    ensures
        selection_text(cells, rows, cols, start, end) == selection_text(cells, rows, cols, end, start),
{
    assert(ordered(start, end) == ordered(end, start));
}

} // verus!

