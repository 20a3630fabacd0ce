//! The mathematical model of a terminal screen: what a grid holds and what
//! each operation makes of it.

use vstd::prelude::*;

use crate::cell::Cell;
use crate::cursor::CursorState;
use crate::event::MouseMode;
use crate::selection::Selection;

verus! {

/// Pool slots are 16-bit ids; the last id is never handed out.
pub open spec fn pool_limit() -> int {
    u16::MAX as int
}

/// The smaller of two numbers.
pub open spec fn least(a: int, b: int) -> int {
    if a <= b {
        a
    } else {
        b
    }
}

/// `v` brought into `low..=high`.
pub open spec fn clamped(v: int, low: int, high: int) -> int {
    if v < low {
        low
    } else if v > high {
        high
    } else {
        v
    }
}

/// `a - b`, or zero where that would be negative.
pub open spec fn minus(a: int, b: int) -> int {
    if a >= b {
        a - b
    } else {
        0
    }
}

/// `lines` with `line` appended, the oldest dropped when `max` are held.
pub open spec fn push_bounded(
    lines: Seq<Seq<Cell>>,
    line: Seq<Cell>,
    max: int,
) -> Seq<Seq<Cell>> {
    if lines.len() == max {
        lines.skip(1).push(line)
    } else {
        lines.push(line)
    }
}

/// `line` padded with blanks, or cut, to `cols` positions.
pub open spec fn fit_width(line: Seq<Cell>, cols: int) -> Seq<Cell> {
    Seq::new(
        cols as nat,
        |x: int|
            if x < line.len() {
                line[x]
            } else {
                Cell::blank()
            },
    )
}

/// The characters of a run of cells.
pub open spec fn cell_chars(cells: Seq<Cell>) -> Seq<char> {
    cells.map_values(|cell: Cell| cell.c)
}

/// Column of the cell that a zero-width character attaches to, looking left
/// from column `col` of the row that starts at `base`: right halves of wide
/// glyphs are passed over, except in the first column.
pub open spec fn attach_col(cells: Seq<Cell>, base: int, col: int) -> int
    decreases col,
{
    if col > 0 && cells[base + col].trailing() {
        attach_col(cells, base, col - 1)
    } else {
        col
    }
}

/// A terminal screen.
#[verifier::ext_equal]
pub struct Screen {
    pub cols: usize,
    pub rows: usize,
    /// The viewport, row by row.
    pub cells: Seq<Cell>,
    /// Lines that scrolled off the top, oldest first.
    pub history: Seq<Seq<Cell>>,
    pub max_history: usize,
    /// Scroll region, both rows inclusive.
    pub top: usize,
    pub bottom: usize,
    pub autowrap: bool,
    pub alt: bool,
    /// Primary viewport put aside while the alternate screen is shown.
    pub stash: Option<Seq<Cell>>,
    pub bracketed_paste: bool,
    pub mouse_mode: MouseMode,
    pub selection: Option<Selection>,
    pub bell_seq: u64,
    pub title: Seq<char>,
    pub title_seq: u64,
    pub pending_clipboard: Option<Seq<char>>,
    pub active_link: Option<Seq<char>>,
    /// Hyperlink targets by absolute row and column.
    pub links: Map<(usize, usize), Seq<char>>,
    /// Interned combining-mark sequences; slot 0 is the empty one.
    pub marks: Seq<Seq<char>>,
    /// Lines scrolled into history since the last drain.
    pub log: Seq<Seq<Cell>>,
    /// Rows that the view is scrolled up from the bottom.
    pub view_offset: usize,
}

impl Screen {
    /// A blank screen of the given size with an empty history.
    pub open spec fn fresh(cols: usize, rows: usize, max_history: usize) -> Screen {
        Screen {
            cols,
            rows,
            cells: crate::cell::blanks((cols * rows) as nat),
            history: Seq::empty(),
            max_history,
            top: 0,
            bottom: minus(rows as int, 1) as usize,
            autowrap: true,
            alt: false,
            stash: None,
            bracketed_paste: false,
            mouse_mode: MouseMode::off(),
            selection: None,
            bell_seq: 0,
            title: Seq::empty(),
            title_seq: 0,
            pending_clipboard: None,
            active_link: None,
            links: Map::empty(),
            marks: seq![Seq::<char>::empty()],
            log: Seq::empty(),
            view_offset: 0,
        }
    }

    /// What every operation keeps: the viewport has the screen's size, the
    /// history stays under its ceiling, the scroll region lies on the screen,
    /// and no combining sequence is pooled twice.
    pub open spec fn wf(self) -> bool {
        &&& self.cells.len() == self.cols * self.rows
        &&& self.history.len() <= self.max_history
        &&& self.max_history <= isize::MAX
        &&& self.rows + self.max_history <= usize::MAX
        &&& self.top <= self.bottom
        &&& if self.rows > 0 {
            self.bottom < self.rows
        } else {
            self.bottom == 0
        }
        &&& self.pool_ok()
    }

    pub open spec fn pool_ok(self) -> bool {
        &&& 1 <= self.marks.len() <= pool_limit()
        &&& self.marks[0].len() == 0
        &&& self.marks.no_duplicates()
    }

    /// The view stays within the history, and at the bottom while the
    /// alternate screen is shown.
    pub open spec fn view_ok(self) -> bool {
        &&& self.view_offset <= self.history.len()
        &&& self.alt ==> self.view_offset == 0
    }

    /// Position of column `x` of row `y` in the viewport.
    pub open spec fn at(self, x: int, y: int) -> int {
        y * self.cols + x
    }

    /// Row `y` of the viewport.
    pub open spec fn row(self, y: int) -> Seq<Cell> {
        self.cells.subrange(y * self.cols, y * self.cols + self.cols)
    }

    // ---- Lines, text ----

    /// Absolute row `r`: history first, then the viewport.
    pub open spec fn line(self, r: int) -> Option<Seq<Cell>> {
        if 0 <= r < self.history.len() {
            Some(self.history[r])
        } else if self.history.len() <= r < self.history.len() + self.rows {
            Some(self.row(r - self.history.len()))
        } else {
            None
        }
    }

    /// Absolute row displayed at the top of the view.
    pub open spec fn view_top(self) -> int {
        minus(self.history.len() as int, self.view_offset as int)
    }

    /// Cells displayed in row `y` of the view.
    pub open spec fn displayed(self, y: int) -> Seq<Cell> {
        if y >= self.rows {
            Seq::empty()
        } else {
            self.line(self.view_top() + y)->0
        }
    }

    /// The characters of absolute row `r`; empty where there is no such row.
    pub open spec fn text_of_row(self, r: int) -> Seq<char> {
        match self.line(r) {
            Some(cells) => cell_chars(cells),
            None => Seq::empty(),
        }
    }

    /// Combining marks pooled under `id`.
    pub open spec fn extras(self, id: u16) -> Seq<char> {
        if id < self.marks.len() {
            self.marks[id as int]
        } else {
            Seq::empty()
        }
    }

    /// A cell's base character followed by its combining marks.
    pub open spec fn cluster(self, cell: Cell) -> Seq<char> {
        if cell.combining_id == 0 {
            seq![cell.c]
        } else {
            seq![cell.c] + self.extras(cell.combining_id)
        }
    }

    /// The text of a run of cells: the clusters of all but right halves.
    pub open spec fn clusters(self, cells: Seq<Cell>) -> Seq<char>
        decreases cells.len(),
    {
        if cells.len() == 0 {
            Seq::empty()
        } else {
            let before = self.clusters(cells.drop_last());
            if cells.last().trailing() {
                before
            } else {
                before + self.cluster(cells.last())
            }
        }
    }

    /// First selected column of absolute row `r`.
    pub open spec fn select_from(self, sel: Selection, r: int) -> int {
        if r == sel.start().abs_row {
            sel.start().col as int
        } else {
            0
        }
    }

    /// End of the selected columns of absolute row `r`.
    pub open spec fn select_to(self, sel: Selection, r: int) -> int {
        if r == sel.end().abs_row {
            least(sel.end().col + 1, self.cols as int)
        } else {
            self.cols as int
        }
    }

    /// Every selected row is wide enough for the columns selected of it.
    pub open spec fn selectable(self, sel: Selection) -> bool {
        forall|r: int|
            sel.start().abs_row <= r <= sel.end().abs_row && r < self.history.len()
                && self.select_from(sel, r) < self.select_to(sel, r) ==> self.select_to(sel, r)
                <= (#[trigger] self.history[r]).len()
    }

    /// Selected text of absolute row `r`, without trailing spaces.
    pub open spec fn selected_in_row(self, sel: Selection, r: int) -> Seq<char> {
        let from = self.select_from(sel, r);
        let to = self.select_to(sel, r);
        match self.line(r) {
            Some(cells) => if from < to {
                crate::text::trim_end_spaces(self.clusters(cells.subrange(from, to)))
            } else {
                Seq::empty()
            },
            None => Seq::empty(),
        }
    }

    /// Selected text of the rows from `r` to the end, joined by line feeds.
    pub open spec fn selected_from(self, sel: Selection, r: int) -> Seq<char>
        decreases sel.end().abs_row - r,
    {
        if r >= sel.end().abs_row {
            self.selected_in_row(sel, r)
        } else {
            self.selected_in_row(sel, r).push('\n') + self.selected_from(sel, r + 1)
        }
    }

    /// Text of a selection.
    pub open spec fn selected(self, sel: Selection) -> Seq<char> {
        self.selected_from(sel, sel.start().abs_row as int)
    }

    // ---- Combining marks ----

    /// Slot under which `seq` is pooled, adding it when it is new: the pool
    /// and the id. The empty sequence is slot 0, as is everything new once the
    /// pool is full.
    pub open spec fn interned(self, seq: Seq<char>) -> (Seq<Seq<char>>, u16) {
        if seq.len() == 0 {
            (self.marks, 0)
        } else if self.marks.contains(seq) {
            (self.marks, self.marks.index_of(seq) as u16)
        } else if self.marks.len() >= pool_limit() {
            (self.marks, 0)
        } else {
            (self.marks.push(seq), self.marks.len() as u16)
        }
    }

    /// The cell that a zero-width character at this cursor attaches to.
    pub open spec fn attach_at(self, cur: CursorState) -> int {
        let base = cur.row * self.cols;
        base + attach_col(self.cells, base, cur.col - 1)
    }

    /// `ch` attached to the character before the cursor.
    pub open spec fn attach(self, cur: CursorState, ch: char) -> Screen {
        if cur.col == 0 {
            self
        } else {
            let at = self.attach_at(cur);
            let cell = self.cells[at];
            let (marks, id) = self.interned(self.extras(cell.combining_id).push(ch));
            Screen { marks, cells: self.cells.update(at, Cell { combining_id: id, ..cell }), ..self }
        }
    }

    // ---- Scrolling ----

    /// Does scrolling feed history? Only a full-screen primary scroll does.
    pub open spec fn feeds_history(self) -> bool {
        !self.alt && self.top == 0 && self.bottom == self.rows - 1 && self.max_history > 0
    }

    /// The scroll region moved up by one line.
    pub open spec fn scroll_up(self) -> Screen {
        let cells = crate::cell::deleted(
            self.cells,
            self.top * self.cols,
            (self.bottom + 1) * self.cols,
            self.cols as int,
        );
        if self.feeds_history() {
            Screen {
                cells,
                history: push_bounded(self.history, self.row(0), self.max_history as int),
                log: self.log.push(self.row(0)),
                ..self
            }
        } else {
            Screen { cells, ..self }
        }
    }

    /// The scroll region moved down by one line.
    pub open spec fn scroll_down(self) -> Screen {
        Screen {
            cells: crate::cell::inserted(
                self.cells,
                self.top * self.cols,
                (self.bottom + 1) * self.cols,
                self.cols as int,
            ),
            ..self
        }
    }

    /// Line feed: down one row, scrolling at the bottom margin.
    pub open spec fn line_feed(self, cur: CursorState) -> (Screen, CursorState) {
        if cur.row == self.bottom {
            (self.scroll_up(), cur)
        } else if cur.row + 1 < self.rows {
            (self, cur.at(cur.row + 1, cur.col as int))
        } else {
            (self, cur)
        }
    }

    /// Up one row, scrolling at the top margin.
    pub open spec fn reverse_index(self, cur: CursorState) -> (Screen, CursorState) {
        if cur.row == self.top {
            (self.scroll_down(), cur)
        } else if cur.row > 0 {
            (self, cur.at(cur.row - 1, cur.col as int))
        } else {
            (self, cur)
        }
    }

    /// Do the positions of the scroll region lie in the viewport? They do not
    /// on a screen that has columns and no rows.
    pub open spec fn region_fits(self) -> bool {
        self.rows > 0 || self.cols == 0
    }

    /// Can a line feed be taken at this cursor?
    pub open spec fn can_feed(self, cur: CursorState) -> bool {
        cur.row < usize::MAX && (cur.row == self.bottom ==> self.can_scroll_up())
    }

    /// Can the scroll region move up?
    pub open spec fn can_scroll_up(self) -> bool {
        self.rows > 0 || (self.alt && self.cols == 0)
    }

    /// Can a reverse index be taken at this cursor?
    pub open spec fn can_reverse(self, cur: CursorState) -> bool {
        cur.row == self.top ==> self.region_fits()
    }

    /// Can lines be put in or taken out at this cursor?
    pub open spec fn can_edit_lines(self, cur: CursorState) -> bool {
        self.top <= cur.row <= self.bottom ==> self.region_fits()
    }

    // ---- Writing ----

    /// The hyperlink in force recorded for column `col` of row `row`.
    pub open spec fn linked(self, row: int, col: int) -> Map<(usize, usize), Seq<char>> {
        match self.active_link {
            Some(url) => if self.alt {
                self.links
            } else {
                self.links.insert(((self.history.len() + row) as usize, col as usize), url)
            },
            None => self.links,
        }
    }

    /// Where the next character goes: past the right edge, the cursor wraps to
    /// a new line or stays on the last column.
    pub open spec fn wrap(self, cur: CursorState) -> (Screen, CursorState) {
        if cur.col < self.cols {
            (self, cur)
        } else if self.autowrap {
            self.line_feed(cur.at(cur.row as int, 0))
        } else {
            (self, cur.at(cur.row as int, self.cols - 1))
        }
    }

    /// `ch` written at the cursor with its pen.
    pub open spec fn put(self, cur: CursorState, ch: char) -> (Screen, CursorState) {
        let (scr, cur) = self.wrap(cur);
        (
            Screen {
                cells: scr.cells.update(
                    scr.at(cur.col as int, cur.row as int),
                    Cell { c: ch, ..cur.pen },
                ),
                links: scr.linked(cur.row as int, cur.col as int),
                ..scr
            },
            cur.at(cur.row as int, cur.col + 1),
        )
    }

    /// Where the next double-width character goes.
    pub open spec fn wrap_wide(self, cur: CursorState) -> (Screen, CursorState) {
        if cur.col + 2 <= self.cols {
            (self, cur)
        } else if self.autowrap {
            self.line_feed(cur.at(cur.row as int, 0))
        } else {
            (self, cur.at(cur.row as int, minus(self.cols as int, 2)))
        }
    }

    /// The double-width `ch` written at the cursor; not at all where even an
    /// empty row is too narrow for it and wrapping is on.
    pub open spec fn put_wide(self, cur: CursorState, ch: char) -> (Screen, CursorState) {
        let (scr, next) = self.wrap_wide(cur);
        if self.cols < 2 && self.autowrap {
            (scr, next)
        } else {
            let lead = scr.at(next.col as int, next.row as int);
            let pen = next.pen;
            (
                Screen {
                    cells: scr.cells.update(
                        lead,
                        Cell { c: ch, flags: pen.flags | crate::cell::ATTR_WIDE, ..pen },
                    ).update(
                        lead + 1,
                        Cell { c: ' ', flags: pen.flags | crate::cell::ATTR_WIDE_TRAILING, ..pen },
                    ),
                    links: scr.linked(next.row as int, next.col as int),
                    ..scr
                },
                next.at(next.row as int, next.col + 2),
            )
        }
    }

    /// Is there room for a double-width character at this cursor?
    pub open spec fn can_put_wide(self, cur: CursorState) -> bool {
        if self.cols >= 2 {
            cur.row < self.rows
        } else if self.autowrap {
            self.can_feed(cur)
        } else {
            self.cols == 1 && cur.row + 1 < self.rows
        }
    }

    // ---- Lines and characters in place ----

    /// `n` blank lines put in at the cursor row, within the region.
    pub open spec fn insert_lines(self, cur: CursorState, n: int) -> Screen {
        if cur.row < self.top || cur.row > self.bottom {
            self
        } else {
            let n = least(n, self.bottom - cur.row + 1);
            Screen {
                cells: crate::cell::inserted(
                    self.cells,
                    cur.row * self.cols,
                    (self.bottom + 1) * self.cols,
                    n * self.cols,
                ),
                ..self
            }
        }
    }

    /// `n` lines taken out at the cursor row, within the region.
    pub open spec fn delete_lines(self, cur: CursorState, n: int) -> Screen {
        if cur.row < self.top || cur.row > self.bottom {
            self
        } else {
            let n = least(n, self.bottom - cur.row + 1);
            Screen {
                cells: crate::cell::deleted(
                    self.cells,
                    cur.row * self.cols,
                    (self.bottom + 1) * self.cols,
                    n * self.cols,
                ),
                ..self
            }
        }
    }

    /// The positions `start..end` of the viewport blanked.
    pub open spec fn erase(self, start: int, end: int) -> Screen {
        Screen { cells: crate::cell::erased(self.cells, start, end), ..self }
    }

    /// CSI J: 0 erases from the cursor on, 1 up to the cursor, 2 and 3 all.
    pub open spec fn erase_display(self, cur: CursorState, mode: u16) -> Screen {
        let here = self.at(
            least(cur.col as int, self.cols - 1),
            least(cur.row as int, self.rows - 1),
        );
        let len = self.cells.len() as int;
        if mode == 0 {
            self.erase(here, len)
        } else if mode == 1 {
            self.erase(0, here + 1)
        } else if mode == 2 || mode == 3 {
            self.erase(0, len)
        } else {
            self
        }
    }

    /// Start of the cursor row, the last row standing for all beyond it.
    pub open spec fn row_base(self, cur: CursorState) -> int {
        least(cur.row as int, self.rows - 1) * self.cols
    }

    /// CSI K: 0 erases from the cursor to the end of the row, 1 from its start
    /// to the cursor, 2 the row.
    pub open spec fn erase_line(self, cur: CursorState, mode: u16) -> Screen {
        let base = self.row_base(cur);
        let cols = self.cols as int;
        let col = least(cur.col as int, cols);
        if mode == 0 {
            self.erase(base + col, base + cols)
        } else if mode == 1 {
            self.erase(base, base + least(col + 1, cols))
        } else if mode == 2 {
            self.erase(base, base + cols)
        } else {
            self
        }
    }

    /// `n` characters taken out at the cursor; the rest of the row moves left.
    pub open spec fn delete_chars(self, cur: CursorState, n: int) -> Screen {
        let base = self.row_base(cur);
        let col = least(cur.col as int, minus(self.cols as int, 1));
        Screen {
            cells: crate::cell::deleted(
                self.cells,
                base + col,
                base + self.cols,
                least(n, self.cols - col),
            ),
            ..self
        }
    }

    /// `n` blanks put in at the cursor; the rest of the row moves right.
    pub open spec fn insert_chars(self, cur: CursorState, n: int) -> Screen {
        let base = self.row_base(cur);
        let col = least(cur.col as int, minus(self.cols as int, 1));
        Screen {
            cells: crate::cell::inserted(
                self.cells,
                base + col,
                base + self.cols,
                least(n, self.cols - col),
            ),
            ..self
        }
    }

    /// `n` characters blanked at the cursor, nothing moved.
    pub open spec fn erase_chars(self, cur: CursorState, n: int) -> Screen {
        let base = self.row_base(cur);
        let col = least(cur.col as int, self.cols as int);
        self.erase(base + col, base + least(col + n, self.cols as int))
    }

    // ---- Cursor movement ----

    pub open spec fn col_set(self, cur: CursorState, col_1based: int) -> CursorState {
        cur.at(cur.row as int, least(minus(col_1based, 1), minus(self.cols as int, 1)))
    }

    pub open spec fn row_set(self, cur: CursorState, row_1based: int) -> CursorState {
        cur.at(least(minus(row_1based, 1), minus(self.rows as int, 1)), cur.col as int)
    }

    /// The cursor moved by so many columns and rows, kept on the screen.
    pub open spec fn moved(self, cur: CursorState, dcol: int, drow: int) -> CursorState {
        cur.at(
            clamped((cur.row as isize) + drow, 0, self.rows - 1),
            clamped((cur.col as isize) + dcol, 0, self.cols - 1),
        )
    }

    /// Can the cursor be moved so without leaving the signed range?
    pub open spec fn can_move(self, cur: CursorState, dcol: int, drow: int) -> bool {
        &&& 0 < self.cols <= isize::MAX
        &&& 0 < self.rows <= isize::MAX
        &&& isize::MIN <= (cur.col as isize) + dcol <= isize::MAX
        &&& isize::MIN <= (cur.row as isize) + drow <= isize::MAX
    }

    /// Next 8-column tab stop, no further than the last column.
    pub open spec fn tabbed(self, cur: CursorState) -> CursorState {
        cur.at(
            cur.row as int,
            least((cur.col as int / 8 + 1) * 8, minus(self.cols as int, 1)),
        )
    }

    // ---- Modes ----

    /// DECSTBM: rows `top..=bottom`, one-based; a region of fewer than two
    /// rows means the whole screen.
    pub open spec fn with_region(self, top_1based: int, bottom_1based: int) -> Screen {
        let top = minus(top_1based, 1);
        let bottom = least(minus(bottom_1based, 1), self.rows - 1);
        if top < bottom {
            Screen { top: top as usize, bottom: bottom as usize, ..self }
        } else {
            Screen { top: 0, bottom: (self.rows - 1) as usize, ..self }
        }
    }

    /// The alternate screen shown, the primary put aside.
    pub open spec fn entered_alt(self) -> Screen {
        if self.alt {
            self
        } else {
            Screen {
                cells: crate::cell::blanks((self.cols * self.rows) as nat),
                stash: Some(self.cells),
                alt: true,
                top: 0,
                bottom: (self.rows - 1) as usize,
                view_offset: 0,
                ..self
            }
        }
    }

    /// The primary screen shown again, blank if its size no longer fits.
    pub open spec fn left_alt(self) -> Screen {
        if !self.alt {
            self
        } else {
            Screen {
                cells: match self.stash {
                    Some(p) => if p.len() == self.cols * self.rows {
                        p
                    } else {
                        crate::cell::blanks((self.cols * self.rows) as nat)
                    },
                    None => crate::cell::blanks((self.cols * self.rows) as nat),
                },
                stash: None,
                alt: false,
                top: 0,
                bottom: (self.rows - 1) as usize,
                ..self
            }
        }
    }

    // ---- History and view ----

    /// `line` appended to history without being logged.
    pub open spec fn remember(self, line: Seq<Cell>) -> Screen {
        if self.max_history == 0 {
            self
        } else {
            Screen {
                history: push_bounded(
                    self.history,
                    fit_width(line, self.cols as int),
                    self.max_history as int,
                ),
                ..self
            }
        }
    }

    /// The view moved up by `delta` rows, kept within the history.
    pub open spec fn scrolled(self, delta: int) -> Screen {
        if self.alt {
            self
        } else {
            Screen {
                view_offset: clamped(
                    (self.view_offset as isize) + delta,
                    0,
                    self.history.len() as int,
                ) as usize,
                ..self
            }
        }
    }

    /// Viewport of another size: what fits of the old one, the rest blank.
    pub open spec fn resized_cells(self, cols: usize, rows: usize) -> Seq<Cell> {
        Seq::new(
            (cols * rows) as nat,
            |i: int|
                {
                    let (x, y) = (i % (cols as int), i / (cols as int));
                    if x < self.cols && y < self.rows {
                        self.cells[y * self.cols + x]
                    } else {
                        Cell::blank()
                    }
                },
        )
    }

    /// The screen at another size. Region and put-aside primary are dropped.
    pub open spec fn resized(self, cols: usize, rows: usize) -> Screen {
        if cols == self.cols && rows == self.rows {
            self
        } else {
            Screen {
                cols,
                rows,
                cells: self.resized_cells(cols, rows),
                top: 0,
                bottom: minus(rows as int, 1) as usize,
                stash: None,
                view_offset: least(self.view_offset as int, self.history.len() as int) as usize,
                ..self
            }
        }
    }

    /// The cursor kept on a screen of another size.
    pub open spec fn resized_cursor(self, cols: usize, rows: usize, cur: CursorState) -> CursorState {
        if cols == self.cols && rows == self.rows {
            cur
        } else {
            cur.at(
                least(cur.row as int, minus(rows as int, 1)),
                least(cur.col as int, minus(cols as int, 1)),
            )
        }
    }
}

/// A column and a row of the screen name a position of the viewport.
pub proof fn lemma_position(scr: Screen, x: int, y: int)
    requires
        scr.cells.len() == scr.cols * scr.rows,
        0 <= x < scr.cols,
        0 <= y < scr.rows,
    ensures
        0 <= scr.at(x, y) < scr.cells.len(),
{
    assert(0 <= y * scr.cols) by (nonlinear_arith)
        requires
            0 <= y,
            0 <= scr.cols,
    ;
    assert(y * scr.cols + scr.cols <= scr.cols * scr.rows) by (nonlinear_arith)
        requires
            0 <= y < scr.rows,
            0 <= scr.cols,
    ;
}

} // verus!
