//! The terminal screen: viewport, bounded scrollback, and everything that
//! control sequences do to them.

use std::collections::VecDeque;

use vstd::prelude::*;

pub use crate::cell::{
    brighten_palette_color, Cell, ANSI_PALETTE, ATTR_BOLD, ATTR_ITALIC, ATTR_UNDERLINE, ATTR_WIDE,
    ATTR_WIDE_TRAILING,
};
pub use crate::cursor::{CursorState, CursorStyle};
pub use crate::event::MouseMode;
pub use crate::selection::{AbsCoord, Selection};

use crate::cell::{blank_cells, copy_cells, delete_cells, erase_cells, insert_cells};
use crate::linkmap::LinkMap;
use crate::params::CsiParams;
use crate::screen::Screen;
use crate::sgr::apply_sgr;
use crate::text::{push_chars, same_chars, trim_spaces};

verus! {

/// The screen of a terminal.
///
/// `Grid` has private fields, so verified code outside this module reaches
/// none of its fields: it reads and changes the public ones through the
/// methods under "Accessors", each of which says what becomes of the view.
pub struct Grid {
    cols: usize,
    rows: usize,
    /// The active viewport, row by row.
    viewport: Vec<Cell>,
    /// Ring buffer enforcing a strict memory ceiling for historical lines.
    scrollback: VecDeque<Vec<Cell>>,
    max_scrollback: usize,
    /// DECSTBM scroll region, inclusive row bounds (default full screen).
    scroll_top: usize,
    scroll_bottom: usize,
    /// DECAWM (`CSI ?7 h/l`): wrap to next line at the right edge.
    autowrap: bool,
    /// Alternate screen active (vim/less/htop); suppresses scrollback.
    alt_active: bool,
    /// Primary viewport stashed while the alternate screen is active.
    saved_primary: Option<Vec<Cell>>,
    /// `CSI ?2004 h/l`: pasted text is wrapped in ESC[200~/201~.
    pub bracketed_paste: bool,
    /// DEC mouse-reporting modes (`?1000`/`?1002`/`?1006`).
    pub mouse_mode: MouseMode,
    /// Active text selection in absolute-row coords (anchor + floating head).
    pub selection: Option<Selection>,
    /// Monotonic counter incremented on each BEL (`0x07`). The orchestrator
    /// records the value once per parse pass; an increment triggers the
    /// visual-bell flash (when `[chrome] visual_bell = true`).
    pub bell_seq: u64,
    /// Window-title string and a monotonic counter; the orchestrator pushes
    /// the title to the window when the counter moves.
    pub title: String,
    pub title_seq: u64,
    /// Clipboard payload waiting to be copied to the OS clipboard.
    pub pending_clipboard: Option<String>,
    /// Active hyperlink applied to subsequent writes.
    pub active_link: Option<String>,
    /// Sparse map of (absolute row, col) to URL.
    pub hyperlinks: LinkMap,
    /// Interned combining-mark sequences. Slot 0 is reserved as the empty
    /// "no extras" sentinel so a fresh `Cell` (combining_id = 0) means
    /// "single codepoint". Cells with combining marks point at later slots.
    combining_pool: Vec<Vec<char>>,
    /// Lines pushed into scrollback since the orchestrator last drained.
    /// The orchestrator writes these to the plain-text session log (if any)
    /// and uses the count to keep `view_offset` anchored on growth.
    pub pending_log: Vec<Vec<Cell>>,
    /// Rows the live view is scrolled up from the bottom (0 = at bottom).
    /// Always 0 while the alternate screen is active.
    pub view_offset: usize,
}

impl View for Grid {
    type V = Screen;

    closed spec fn view(&self) -> Screen {
        Screen {
            cols: self.cols,
            rows: self.rows,
            cells: self.viewport@,
            history: self.scrollback@.map_values(|line: Vec<Cell>| line@),
            max_history: self.max_scrollback,
            top: self.scroll_top,
            bottom: self.scroll_bottom,
            autowrap: self.autowrap,
            alt: self.alt_active,
            stash: match self.saved_primary {
                Some(cells) => Some(cells@),
                None => None,
            },
            bracketed_paste: self.bracketed_paste,
            mouse_mode: self.mouse_mode,
            selection: self.selection,
            bell_seq: self.bell_seq,
            title: self.title@,
            title_seq: self.title_seq,
            pending_clipboard: match self.pending_clipboard {
                Some(text) => Some(text@),
                None => None,
            },
            active_link: match self.active_link {
                Some(url) => Some(url@),
                None => None,
            },
            links: self.hyperlinks@,
            marks: self.combining_pool@.map_values(|seq: Vec<char>| seq@),
            log: self.pending_log@.map_values(|line: Vec<Cell>| line@),
            view_offset: self.view_offset,
        }
    }
}

/// Rows of a viewport lie within it, one after the other.
proof fn lemma_rows(cols: int, rows: int, a: int, b: int)
    requires
        0 <= cols,
        0 <= a <= b <= rows,
    ensures
        0 <= a * cols <= b * cols <= cols * rows,
        (b - a) * cols == b * cols - a * cols,
        (a + 1) * cols == a * cols + cols,
{
    assert(a * cols <= b * cols) by (nonlinear_arith)
        requires
            0 <= cols,
            a <= b,
    ;
    assert(b * cols <= cols * rows) by (nonlinear_arith)
        requires
            0 <= cols,
            b <= rows,
    ;
    assert(0 <= a * cols) by (nonlinear_arith)
        requires
            0 <= cols,
            0 <= a,
    ;
    assert((b - a) * cols == b * cols - a * cols) by (nonlinear_arith);
    assert((a + 1) * cols == a * cols + cols) by (nonlinear_arith);
}

impl Grid {
    /// The viewport is a vector: its length is a machine integer, and so are
    /// the products that index its rows.
    proof fn lemma_rows_fit(&self, a: int, b: int)
        requires
            self@.wf(),
            0 <= a <= b <= self@.rows,
        ensures
            0 <= a * self@.cols <= b * self@.cols <= self@.cells.len() <= usize::MAX,
            (b - a) * self@.cols == b * self@.cols - a * self@.cols,
            (a + 1) * self@.cols == a * self@.cols + self@.cols,
    {
        lemma_rows(self.cols as int, self.rows as int, a, b);
        assert(self.viewport.len() == self@.cells.len());
    }

    /// The rows up to the end of the scroll region, in the same way.
    proof fn lemma_region_fits(&self, a: int, b: int)
        requires
            self@.wf(),
            self@.region_fits(),
            0 <= a <= b <= self@.bottom + 1,
        ensures
            0 <= a * self@.cols <= b * self@.cols <= self@.cells.len() <= usize::MAX,
            (b - a) * self@.cols == b * self@.cols - a * self@.cols,
            (a + 1) * self@.cols == a * self@.cols + self@.cols,
    {
        if self@.rows > 0 {
            self.lemma_rows_fit(a, b);
        } else {
            assert(self.viewport.len() == self@.cells.len());
        }
    }

    pub fn new(cols: usize, rows: usize, max_scrollback: usize) -> (grid: Self)
        requires
            cols * rows <= usize::MAX,
            max_scrollback <= isize::MAX,
            rows + max_scrollback <= usize::MAX,
        ensures
            grid@ == Screen::fresh(cols, rows, max_scrollback),
            grid@.wf(),
            grid@.view_ok(),
    {
        let mut pool: Vec<Vec<char>> = Vec::new();
        pool.push(Vec::new());
        let grid = Grid {
            cols,
            rows,
            viewport: blank_cells(cols * rows),
            scrollback: VecDeque::new(),
            max_scrollback,
            scroll_top: 0,
            scroll_bottom: rows.saturating_sub(1),
            autowrap: true,
            alt_active: false,
            saved_primary: None,
            bracketed_paste: false,
            mouse_mode: MouseMode::default(),
            selection: None,
            bell_seq: 0,
            title: String::new(),
            title_seq: 0,
            pending_clipboard: None,
            active_link: None,
            hyperlinks: LinkMap::new(),
            combining_pool: pool,
            pending_log: Vec::new(),
            view_offset: 0,
        };
        assert(grid@ =~= Screen::fresh(cols, rows, max_scrollback));
        grid
    }

    /// Intern a combining sequence and return its `combining_id`. Empty
    /// sequences map to 0. The pool grows monotonically; pool entries become
    /// unreferenced when their cells are overwritten (bounded leak). Once the
    /// pool is exhausted, new sequences map to 0 as well.
    fn intern_combining(&mut self, marks: Vec<char>) -> (id: u16)
        requires
            old(self)@.pool_ok(),
        ensures
            (final(self)@.marks, id) == old(self)@.interned(marks@),
            final(self)@ == (Screen { marks: final(self)@.marks, ..old(self)@ }),
            final(self)@.pool_ok(),
    {
        let ghost before = self@;
        if marks.len() == 0 {
            return 0;
        }
        let mut i: usize = 1;
        while i < self.combining_pool.len()
            invariant
                self@ == before,
                before.pool_ok(),
                1 <= i <= self.combining_pool.len(),
                marks.len() > 0,
                forall|j: int| 0 <= j < i ==> #[trigger] before.marks[j] != marks@,
            decreases self.combining_pool.len() - i,
        {
            assert(before.marks[i as int] == self.combining_pool@[i as int]@);
            if same_chars(&self.combining_pool[i], &marks) {
                assert(before.marks.contains(marks@));
                assert(before.marks.index_of(marks@) == i);
                return i as u16;
            }
            i += 1;
        }
        assert(!before.marks.contains(marks@));
        if self.combining_pool.len() >= u16::MAX as usize {
            return 0;
        }
        let id = self.combining_pool.len() as u16;
        self.combining_pool.push(marks);
        assert(self@.marks =~= before.marks.push(marks@));
        assert(self@ =~= (Screen { marks: before.marks.push(marks@), ..before }));
        id
    }

    /// Concatenate a cell's base codepoint with its combining marks (if any).
    pub fn cluster_string(&self, cell: &Cell) -> (s: String)
        ensures
            s@ == self@.cluster(*cell),
    {
        let mut s = String::new();
        s.push(cell.c);
        assert(s@ =~= seq![cell.c]);
        if cell.combining_id == 0 {
            return s;
        }
        let id = cell.combining_id as usize;
        if id < self.combining_pool.len() {
            let extras = &self.combining_pool[id];
            assert(self@.extras(cell.combining_id) == extras@);
            let mut i: usize = 0;
            while i < extras.len()
                invariant
                    i <= extras.len(),
                    s@ =~= seq![cell.c] + extras@.take(i as int),
                decreases extras.len() - i,
            {
                s.push(extras[i]);
                i += 1;
            }
            assert(extras@.take(extras@.len() as int) =~= extras@);
        }
        assert(s@ =~= seq![cell.c] + self@.extras(cell.combining_id));
        s
    }

    /// Append a cell's cluster to `line`.
    fn push_cluster(&self, cell: &Cell, line: &mut Vec<char>)
        ensures
            final(line)@ == old(line)@ + self@.cluster(*cell),
    {
        line.push(cell.c);
        let id = cell.combining_id as usize;
        if id != 0 && id < self.combining_pool.len() {
            push_chars(line, &self.combining_pool[id]);
        }
        assert(line@ =~= old(line)@ + self@.cluster(*cell));
    }

    /// Attach a zero-width codepoint to the cell at the previous cursor
    /// position. No-op if the cursor is at the start of a row.
    pub fn attach_combining(&mut self, cursor: &CursorState, c: char)
        requires
            old(self)@.wf(),
            cursor.col > 0 ==> old(self)@.at(cursor.col - 1, cursor.row as int)
                < old(self)@.cells.len(),
        ensures
            final(self)@ == old(self)@.attach(*cursor, c),
            final(self)@.wf(),
    {
        if cursor.col == 0 {
            return;
        }
        let ghost before = self@;
        let ghost base = cursor.row * self.cols;
        // Find the visible (non wide-trailing) cell to attach to.
        let mut col: usize = cursor.col - 1;
        assert(0 <= base) by (nonlinear_arith)
            requires
                base == cursor.row * self.cols,
        ;
        assert(self.viewport.len() == before.cells.len());
        let mut idx: usize = self.index(col, cursor.row);
        while col > 0 && self.viewport[idx].flags & ATTR_WIDE_TRAILING != 0
            invariant
                self@ == before,
                0 <= base,
                idx == base + col,
                idx < self.viewport.len(),
                crate::screen::attach_col(before.cells, base, col as int)
                    == crate::screen::attach_col(before.cells, base, cursor.col - 1),
            decreases col,
        {
            col -= 1;
            idx -= 1;
        }
        let mut cell = self.viewport[idx];
        let id = cell.combining_id as usize;
        let mut extras: Vec<char> = Vec::new();
        if id < self.combining_pool.len() {
            push_chars(&mut extras, &self.combining_pool[id]);
        }
        assert(extras@ =~= before.extras(cell.combining_id));
        extras.push(c);
        let new_id = self.intern_combining(extras);
        cell.combining_id = new_id;
        self.viewport.set(idx, cell);
        assert(self@ =~= before.attach(*cursor, c));
    }

    /// Bring the cursor to where a width-2 character can start.
    fn wrap_wide(&mut self, cursor: &mut CursorState)
        requires
            old(self)@.wf(),
            old(cursor).col + 2 <= usize::MAX,
            old(self)@.can_put_wide(*old(cursor)),
        ensures
            (final(self)@, *final(cursor)) == old(self)@.wrap_wide(*old(cursor)),
            final(self)@.wf(),
            final(self)@.cols == old(self)@.cols,
            final(self)@.rows == old(self)@.rows,
            final(self)@.autowrap == old(self)@.autowrap,
            old(self)@.cols >= 2 ==> final(cursor).row < final(self)@.rows && final(cursor).col + 2
                <= final(self)@.cols,
            old(self)@.cols < 2 && !old(self)@.autowrap ==> final(cursor).row == old(cursor).row
                && final(cursor).col == 0,
    {
        if cursor.col + 2 > self.cols {
            if self.autowrap {
                cursor.col = 0;
                self.line_feed(cursor);
            } else {
                cursor.col = self.cols.saturating_sub(2);
            }
        }
    }

    /// Place a width-2 character spanning two adjacent cells. Wraps at the
    /// right edge if autowrap is on; clamps and overwrites otherwise.
    pub fn write_wide(&mut self, cursor: &mut CursorState, c: char)
        requires
            old(self)@.wf(),
            old(cursor).col + 2 <= usize::MAX,
            old(self)@.can_put_wide(*old(cursor)),
        ensures
            (final(self)@, *final(cursor)) == old(self)@.put_wide(*old(cursor), c),
            final(self)@.wf(),
    {
        self.wrap_wide(cursor);
        if self.cols < 2 && self.autowrap {
            return ; // viewport too narrow for any wide char
        }
        let ghost mid = self@;
        let ghost next = *cursor;
        proof {
            self.lemma_rows_fit(next.row as int, next.row + 1);
            if mid.cols == 1 {
                self.lemma_rows_fit(next.row + 1, next.row + 2);
            }
        }
        let row = cursor.row;
        let lead_idx = self.index(cursor.col, row);
        let mut lead = cursor.pen;
        lead.c = c;
        lead.flags = lead.flags | ATTR_WIDE;
        let mut trail = cursor.pen;
        trail.c = ' ';
        trail.flags = trail.flags | ATTR_WIDE_TRAILING;
        self.viewport.set(lead_idx, lead);
        self.viewport.set(lead_idx + 1, trail);
        assert(self@ =~= (Screen {
            cells: mid.cells.update(lead_idx as int, lead).update(lead_idx + 1, trail),
            ..mid
        }));
        self.record_link(row, cursor.col);
        cursor.col += 2;
    }

    /// Record the active hyperlink for a cell (primary screen only).
    fn record_link(&mut self, row: usize, col: usize)
        requires
            old(self)@.history.len() + row <= usize::MAX,
        ensures
            final(self)@ == (Screen { links: old(self)@.linked(row as int, col as int), ..old(self)@ }),
    {
        if !self.alt_active {
            if let Some(url) = &self.active_link {
                let abs_row = self.scrollback.len() + row;
                self.hyperlinks.insert(abs_row, col, url.clone());
            }
        }
        assert(self@ =~= (Screen {
            links: old(self)@.linked(row as int, col as int),
            ..old(self)@
        }));
    }

    /// Called from the parser on BEL (`0x07`); increments the counter the
    /// orchestrator watches to fire the visual bell.
    pub fn ring_bell(&mut self)
        ensures
            final(self)@ == (Screen {
                bell_seq: old(self)@.bell_seq.wrapping_add(1),
                ..old(self)@
            }),
    {
        self.bell_seq = self.bell_seq.wrapping_add(1);
    }

    /// Translates 2D coordinate to 1D index.
    pub fn index(&self, x: usize, y: usize) -> (i: usize)
        requires
            self@.at(x as int, y as int) <= usize::MAX,
        ensures
            i == self@.at(x as int, y as int),
    {
        assert(0 <= y * self.cols) by (nonlinear_arith)
            requires
                y >= 0,
                self.cols >= 0,
        ;
        y * self.cols + x
    }

    /// Standard printable character insertion with right-edge wrap.
    pub fn write_char(&mut self, cursor: &mut CursorState, c: char)
        requires
            old(self)@.wf(),
            old(self)@.cols > 0,
            old(cursor).row < old(self)@.rows,
        ensures
            (final(self)@, *final(cursor)) == old(self)@.put(*old(cursor), c),
            final(self)@.wf(),
    {
        let ghost before = self@;
        if cursor.col >= self.cols {
            if self.autowrap {
                cursor.col = 0;
                self.line_feed(cursor);
            } else {
                // DECAWM off: stay on the last column, overwriting it.
                cursor.col = self.cols - 1;
            }
        }
        let ghost mid = self@;
        let ghost cur = *cursor;
        proof {
            self.lemma_rows_fit(cur.row as int, cur.row + 1);
        }
        let idx = self.index(cursor.col, cursor.row);
        let mut cell = cursor.pen;
        cell.c = c;
        self.viewport.set(idx, cell);
        self.record_link(cursor.row, cursor.col);
        cursor.col += 1;
        assert(self@ =~= before.put(*old(cursor), c).0);
    }

    /// Line feed: advance a row, scrolling the region when at its bottom margin.
    pub fn line_feed(&mut self, cursor: &mut CursorState)
        requires
            old(self)@.wf(),
            old(self)@.can_feed(*old(cursor)),
        ensures
            (final(self)@, *final(cursor)) == old(self)@.line_feed(*old(cursor)),
            final(self)@.wf(),
    {
        if cursor.row == self.scroll_bottom {
            self.scroll_region_up();
        } else if cursor.row + 1 < self.rows {
            cursor.row += 1;
        }
    }

    /// Can a line feed be taken at this cursor?
    pub(crate) fn can_feed(&self, cursor: &CursorState) -> (yes: bool)
        ensures
            yes == self@.can_feed(*cursor),
    {
        cursor.row < usize::MAX && (cursor.row != self.scroll_bottom || self.rows > 0 || (
        self.alt_active && self.cols == 0))
    }

    /// Can a reverse index be taken at this cursor?
    pub(crate) fn can_reverse(&self, cursor: &CursorState) -> (yes: bool)
        ensures
            yes == self@.can_reverse(*cursor),
    {
        cursor.row != self.scroll_top || self.rows > 0 || self.cols == 0
    }

    /// Can lines be put in or taken out at this cursor?
    pub(crate) fn can_edit_lines(&self, cursor: &CursorState) -> (yes: bool)
        ensures
            yes == self@.can_edit_lines(*cursor),
    {
        cursor.row < self.scroll_top || cursor.row > self.scroll_bottom || self.rows > 0
            || self.cols == 0
    }

    /// RI (ESC M): move up one row, scrolling the region down at the top margin.
    pub fn reverse_index(&mut self, cursor: &mut CursorState)
        requires
            old(self)@.wf(),
            old(self)@.can_reverse(*old(cursor)),
        ensures
            (final(self)@, *final(cursor)) == old(self)@.reverse_index(*old(cursor)),
            final(self)@.wf(),
    {
        if cursor.row == self.scroll_top {
            self.scroll_region_down();
        } else if cursor.row > 0 {
            cursor.row -= 1;
        }
    }

    /// Scroll the [top, bottom] region up by one line. Only a full-screen
    /// primary scroll feeds scrollback (alt screen / regions never do).
    fn scroll_region_up(&mut self)
        requires
            old(self)@.wf(),
            old(self)@.can_scroll_up(),
        ensures
            final(self)@ == old(self)@.scroll_up(),
            final(self)@.wf(),
    {
        let ghost before = self@;
        let (top, bot) = (self.scroll_top, self.scroll_bottom);
        proof {
            self.lemma_region_fits(0, 1);
            self.lemma_region_fits(top as int, bot + 1);
            self.lemma_region_fits(bot as int, bot + 1);
            self.lemma_region_fits(top as int, bot as int);
        }
        if !self.alt_active && top == 0 && bot == self.rows - 1 && self.max_scrollback > 0 {
            let line0 = copy_cells(&self.viewport, 0, self.cols);
            let logged = copy_cells(&self.viewport, 0, self.cols);
            // Tee the about-to-scroll line for plain-text session logging.
            self.pending_log.push(logged);
            self.push_line(line0);
            assert(self@ =~= (Screen {
                history: crate::screen::push_bounded(
                    before.history,
                    before.row(0),
                    before.max_history as int,
                ),
                log: before.log.push(before.row(0)),
                ..before
            }));
        }
        let start = top * self.cols;
        let end = (bot + 1) * self.cols;
        delete_cells(&mut self.viewport, start, end, self.cols);
        assert(self@ =~= before.scroll_up());
    }

    /// Append to scrollback, evicting the oldest line at the ceiling.
    fn push_line(&mut self, line: Vec<Cell>)
        requires
            old(self).max_scrollback > 0,
            old(self).scrollback@.len() <= old(self).max_scrollback,
        ensures
            final(self)@ == (Screen {
                history: crate::screen::push_bounded(
                    old(self)@.history,
                    line@,
                    old(self)@.max_history as int,
                ),
                ..old(self)@
            }),
    {
        let ghost before = self@;
        if self.scrollback.len() == self.max_scrollback {
            self.scrollback.pop_front();
        }
        self.scrollback.push_back(line);
        assert(self@.history =~= crate::screen::push_bounded(
            before.history,
            line@,
            before.max_history as int,
        ));
        assert(self@ =~= (Screen { history: self@.history, ..before }));
    }

    /// Scroll the [top, bottom] region down by one line, clearing the top row.
    fn scroll_region_down(&mut self)
        requires
            old(self)@.wf(),
            old(self)@.region_fits(),
        ensures
            final(self)@ == old(self)@.scroll_down(),
            final(self)@.wf(),
    {
        let ghost before = self@;
        let (top, bot) = (self.scroll_top, self.scroll_bottom);
        proof {
            self.lemma_region_fits(top as int, bot + 1);
            self.lemma_region_fits(bot as int, bot + 1);
            self.lemma_region_fits(top as int, bot as int);
        }
        let start = top * self.cols;
        let end = (bot + 1) * self.cols;
        insert_cells(&mut self.viewport, start, end, self.cols);
        assert(self@ =~= before.scroll_down());
    }

    // ---- Accessors ----

    pub fn cols(&self) -> (n: usize)
        ensures
            n == self@.cols,
    {
        self.cols
    }

    pub fn rows(&self) -> (n: usize)
        ensures
            n == self@.rows,
    {
        self.rows
    }

    /// Raw viewport slice. Renderers use `display_row` (scrollback-aware).
    pub fn viewport(&self) -> (cells: &[Cell])
        ensures
            cells@ == self@.cells,
    {
        self.viewport.as_slice()
    }

    /// Absolute row index of viewport row 0 (== `scrollback_len`).
    pub fn viewport_first_abs_row(&self) -> (r: usize)
        ensures
            r == self@.history.len(),
    {
        self.scrollback.len()
    }

    pub fn scrollback_len(&self) -> (n: usize)
        ensures
            n == self@.history.len(),
    {
        self.scrollback.len()
    }

    /// `true` while a child app is on the alternate screen (vim, htop, ...).
    pub fn is_alt(&self) -> (alt: bool)
        ensures
            alt == self@.alt,
    {
        self.alt_active
    }

    /// Is pasted text to be wrapped in markers?
    pub fn bracketed_paste(&self) -> (on: bool)
        ensures
            on == self@.bracketed_paste,
    {
        self.bracketed_paste
    }

    pub fn set_bracketed_paste(&mut self, on: bool)
        ensures
            final(self)@ == (Screen { bracketed_paste: on, ..old(self)@ }),
    {
        self.bracketed_paste = on;
    }

    pub fn mouse_mode(&self) -> (mode: MouseMode)
        ensures
            mode == self@.mouse_mode,
    {
        self.mouse_mode
    }

    pub fn set_mouse_mode(&mut self, mode: MouseMode)
        ensures
            final(self)@ == (Screen { mouse_mode: mode, ..old(self)@ }),
    {
        self.mouse_mode = mode;
    }

    pub fn selection(&self) -> (sel: Option<Selection>)
        ensures
            sel == self@.selection,
    {
        self.selection
    }

    pub fn set_selection(&mut self, sel: Option<Selection>)
        ensures
            final(self)@ == (Screen { selection: sel, ..old(self)@ }),
    {
        self.selection = sel;
    }

    pub fn bell_seq(&self) -> (n: u64)
        ensures
            n == self@.bell_seq,
    {
        self.bell_seq
    }

    pub fn title_seq(&self) -> (n: u64)
        ensures
            n == self@.title_seq,
    {
        self.title_seq
    }

    pub fn title(&self) -> (title: String)
        ensures
            title@ == self@.title,
    {
        self.title.clone()
    }

    /// Hand over the clipboard payload that is waiting, if any.
    pub fn take_clipboard(&mut self) -> (text: Option<String>)
        ensures
            text is Some <==> old(self)@.pending_clipboard is Some,
            text matches Some(t) ==> t@ == old(self)@.pending_clipboard->0,
            final(self)@ == (Screen { pending_clipboard: None, ..old(self)@ }),
    {
        self.pending_clipboard.take()
    }

    /// The hyperlink that text written from now on gets, if any.
    pub fn set_active_link(&mut self, url: Option<String>)
        ensures
            final(self)@ == (Screen {
                active_link: match url {
                    Some(u) => Some(u@),
                    None => None,
                },
                ..old(self)@
            }),
    {
        self.active_link = url;
    }

    /// Hyperlink recorded for a position.
    pub fn link_at(&self, abs_row: usize, col: usize) -> (url: Option<String>)
        ensures
            url is Some <==> self@.links.contains_key((abs_row, col)),
            url matches Some(u) ==> u@ == self@.links[(abs_row, col)],
    {
        self.hyperlinks.get(abs_row, col)
    }

    /// Hand over the lines scrolled into history since the last call.
    pub fn take_log(&mut self) -> (lines: Vec<Vec<Cell>>)
        ensures
            lines@.map_values(|line: Vec<Cell>| line@) == old(self)@.log,
            final(self)@ == (Screen { log: Seq::empty(), ..old(self)@ }),
    {
        let mut lines: Vec<Vec<Cell>> = Vec::new();
        std::mem::swap(&mut lines, &mut self.pending_log);
        assert(self@ =~= (Screen { log: Seq::empty(), ..old(self)@ }));
        lines
    }

    // ---- View ----

    pub fn view_offset(&self) -> (n: usize)
        ensures
            n == self@.view_offset,
    {
        self.view_offset
    }

    pub fn set_view_offset(&mut self, n: usize)
        ensures
            final(self)@ == (Screen { view_offset: n, ..old(self)@ }),
    {
        self.view_offset = n;
    }

    /// Scroll the live view up (positive delta) or down (negative). No-op when
    /// the alternate screen is active (vim/htop own scrolling there).
    pub fn scroll_lines(&mut self, delta: isize)
        requires
            old(self)@.wf(),
            !old(self)@.alt ==> isize::MIN <= (old(self)@.view_offset as isize) + delta
                <= isize::MAX,
        ensures
            final(self)@ == old(self)@.scrolled(delta as int),
    {
        if self.alt_active {
            return ;
        }
        let cur: isize = self.view_offset as isize + delta;
        let max: isize = self.scrollback.len() as isize;
        self.view_offset = clamp(cur, 0, max) as usize;
        assert(self@ =~= old(self)@.scrolled(delta as int));
    }

    pub fn scroll_to_top(&mut self)
        ensures
            final(self)@ == (Screen {
                view_offset: if old(self)@.alt {
                    old(self)@.view_offset
                } else {
                    old(self)@.history.len() as usize
                },
                ..old(self)@
            }),
    {
        if !self.alt_active {
            self.view_offset = self.scrollback.len();
        }
    }

    pub fn scroll_to_bottom(&mut self)
        ensures
            final(self)@ == (Screen { view_offset: 0, ..old(self)@ }),
    {
        self.view_offset = 0;
    }

    /// Are we showing the live viewport (the bottom) right now?
    pub fn at_bottom(&self) -> (yes: bool)
        ensures
            yes == (self@.view_offset == 0),
    {
        self.view_offset == 0
    }

    /// Absolute row displayed in row `y` of the view.
    pub fn displayed_abs_row(&self, y: usize) -> (r: usize)
        requires
            self@.view_top() + y <= usize::MAX,
        ensures
            r == self@.view_top() + y,
    {
        self.scrollback.len().saturating_sub(self.view_offset) + y
    }

    /// Return cells for displayed row `y` (0 = top of view). When
    /// `view_offset > 0`, the topmost rows come from scrollback.
    pub fn display_row(&self, y: usize) -> (cells: &[Cell])
        requires
            self@.wf(),
        ensures
            cells@ == self@.displayed(y as int),
    {
        if y >= self.rows {
            let cells = vstd::slice::slice_subrange(self.viewport.as_slice(), 0, 0);
            assert(cells@ =~= Seq::<Cell>::empty());
            return cells;
        }
        let abs_row = self.displayed_abs_row(y);
        let vp_top = self.scrollback.len();
        if abs_row < vp_top {
            // Scrollback row.
            self.scrollback[abs_row].as_slice()
        } else {
            let vy = abs_row - vp_top;
            proof {
                self.lemma_rows_fit(vy as int, vy + 1);
            }
            let base = vy * self.cols;
            vstd::slice::slice_subrange(self.viewport.as_slice(), base, base + self.cols)
        }
    }

    /// Append a line to scrollback without recording it in `pending_log`
    /// (used by cross-session restore so we don't re-log restored history).
    pub fn push_history_line(&mut self, line: Vec<Cell>)
        requires
            old(self)@.wf(),
        ensures
            final(self)@ == old(self)@.remember(line@),
            final(self)@.wf(),
    {
        if self.max_scrollback == 0 {
            return ;
        }
        let ghost given = line@;
        let mut line = line;
        // Pad/truncate to current grid width.
        line.resize(self.cols, Cell::default());
        proof {
            let want = crate::screen::fit_width(given, self.cols as int);
            if self.cols > given.len() {
                assert forall|x: int| 0 <= x < self.cols implies line@[x] == want[x] by {
                    if x < given.len() {
                        assert(line@.subrange(0, given.len() as int)[x] == given[x]);
                    }
                }
            }
            assert(line@ =~= want);
        }
        self.push_line(line);
    }

    // ---- Text ----

    /// Copy of absolute row `abs_row`, if there is one.
    fn line_at(&self, abs_row: usize) -> (line: Option<Vec<Cell>>)
        requires
            self@.wf(),
        ensures
            line is Some <==> self@.line(abs_row as int) is Some,
            line matches Some(cells) ==> cells@ == self@.line(abs_row as int)->0,
    {
        let top = self.scrollback.len();
        if abs_row < top {
            let cells = &self.scrollback[abs_row];
            let copy = copy_cells(cells, 0, cells.len());
            assert(copy@ =~= self@.history[abs_row as int]);
            Some(copy)
        } else {
            let vy = abs_row - top;
            if vy < self.rows {
                proof {
                    self.lemma_rows_fit(vy as int, vy + 1);
                }
                let base = vy * self.cols;
                Some(copy_cells(&self.viewport, base, base + self.cols))
            } else {
                None
            }
        }
    }

    /// The characters of an absolute row, one per column.
    pub fn row_chars(&self, abs_row: usize) -> (chars: Vec<char>)
        requires
            self@.wf(),
        ensures
            chars@ == self@.text_of_row(abs_row as int),
    {
        let mut chars: Vec<char> = Vec::new();
        if let Some(cells) = self.line_at(abs_row) {
            let mut i: usize = 0;
            while i < cells.len()
                invariant
                    i <= cells.len(),
                    chars@ =~= crate::screen::cell_chars(cells@.take(i as int)),
                decreases cells.len() - i,
            {
                chars.push(cells[i].c);
                i += 1;
            }
            assert(cells@.take(cells@.len() as int) =~= cells@);
        }
        assert(chars@ =~= self@.text_of_row(abs_row as int));
        chars
    }

    /// Return the text of an absolute row as a String (cells joined, trailing
    /// spaces preserved). Used for URL detection at click sites.
    pub fn row_text(&self, abs_row: usize) -> (s: String)
        requires
            self@.wf(),
        ensures
            s@ == self@.text_of_row(abs_row as int),
    {
        let chars = self.row_chars(abs_row);
        let s = crate::text::string_of(&chars, 0, chars.len());
        assert(s@ =~= chars@);
        s
    }

    /// Is every selected row wide enough for the columns selected of it?
    /// Lines that scrolled off before the screen was widened may not be.
    pub fn can_select(&self, sel: Selection) -> (yes: bool)
        ensures
            yes == self@.selectable(sel),
    {
        let (start, end) = sel.normalized();
        let top = self.scrollback.len();
        let mut r: usize = start.abs_row;
        while r <= end.abs_row && r < top
            invariant
                start == sel.start(),
                end == sel.end(),
                top == self@.history.len(),
                top == self.scrollback@.len(),
                start.abs_row <= r,
                forall|k: int|
                    start.abs_row <= k < r && k <= end.abs_row && k < top
                        && self@.select_from(sel, k) < self@.select_to(sel, k)
                        ==> self@.select_to(sel, k) <= (#[trigger] self@.history[k]).len(),
            decreases top - r,
        {
            let from = if r == start.abs_row {
                start.col
            } else {
                0
            };
            let to = if r == end.abs_row && end.col < self.cols {
                end.col + 1
            } else {
                self.cols
            };
            assert(self@.history[r as int] == self.scrollback@[r as int]@);
            if from < to && to > self.scrollback[r].len() {
                assert(self@.select_from(sel, r as int) < self@.select_to(sel, r as int));
                return false;
            }
            r += 1;
        }
        true
    }

    /// Text of the columns selected of one row, without trailing spaces.
    fn selected_row(&self, sel: Selection, abs_row: usize) -> (line: Vec<char>)
        requires
            self@.wf(),
            self@.selectable(sel),
            sel.start().abs_row <= abs_row <= sel.end().abs_row,
        ensures
            line@ == self@.selected_in_row(sel, abs_row as int),
    {
        let (start, end) = sel.normalized();
        let col_start = if abs_row == start.abs_row {
            start.col
        } else {
            0
        };
        // Inclusive end column, clamped.
        let col_end = if abs_row == end.abs_row && end.col < self.cols {
            end.col + 1
        } else {
            self.cols
        };
        let mut line: Vec<char> = Vec::new();
        if let Some(cells) = self.line_at(abs_row) {
            if col_start < col_end {
                proof {
                    if abs_row < self@.history.len() {
                        assert(self@.history[abs_row as int] == cells@);
                    } else {
                        self.lemma_rows_fit(
                            abs_row - self@.history.len(),
                            abs_row - self@.history.len() + 1,
                        );
                    }
                }
                let mut i: usize = col_start;
                assert(cells@.subrange(col_start as int, col_start as int) =~= Seq::empty());
                while i < col_end
                    invariant
                        col_start <= i <= col_end <= cells.len(),
                        line@ == self@.clusters(cells@.subrange(col_start as int, i as int)),
                    decreases col_end - i,
                {
                    let cell = cells[i];
                    assert(cells@.subrange(col_start as int, i + 1).drop_last()
                        =~= cells@.subrange(col_start as int, i as int));
                    assert(cells@.subrange(col_start as int, i + 1).last() == cell);
                    if cell.flags & ATTR_WIDE_TRAILING == 0 {
                        self.push_cluster(&cell, &mut line);
                    }
                    i += 1;
                }
                trim_spaces(&mut line);
            }
        }
        assert(line@ =~= self@.selected_in_row(sel, abs_row as int));
        line
    }

    /// Extract selection text in reading order. Each row is trimmed of trailing
    /// spaces (DECAWM wrap-tracking is a deferred refinement). Rows are joined
    /// with '\n'. Out-of-bounds rows yield empty contributions.
    pub fn get_selection_text(&self, sel: Selection) -> (text: String)
        requires
            self@.wf(),
            self@.selectable(sel),
        ensures
            text@ == self@.selected(sel),
    {
        let (start, end) = sel.normalized();
        let mut out: Vec<char> = Vec::new();
        let mut abs_row: usize = start.abs_row;
        assert(out@ + self@.selected_from(sel, abs_row as int) =~= self@.selected(sel));
        while abs_row < end.abs_row
            invariant
                self@.wf(),
                self@.selectable(sel),
                start == sel.start(),
                end == sel.end(),
                start.abs_row <= abs_row <= end.abs_row,
                out@ + self@.selected_from(sel, abs_row as int) == self@.selected(sel),
            decreases end.abs_row - abs_row,
        {
            let ghost before = out@;
            let line = self.selected_row(sel, abs_row);
            push_chars(&mut out, &line);
            out.push('\n');
            abs_row += 1;
            assert(out@ + self@.selected_from(sel, abs_row as int) =~= before
                + self@.selected_from(sel, abs_row - 1));
        }
        let line = self.selected_row(sel, abs_row);
        push_chars(&mut out, &line);
        let text = crate::text::string_of(&out, 0, out.len());
        assert(text@ =~= out@);
        text
    }
}

impl Grid {
    // ---- Lines and characters in place ----

    /// CSI L (IL): insert n blank lines at the cursor, within the region.
    pub fn insert_lines(&mut self, cursor: &CursorState, n: usize)
        requires
            old(self)@.wf(),
            old(self)@.can_edit_lines(*cursor),
        ensures
            final(self)@ == old(self)@.insert_lines(*cursor, n as int),
            final(self)@.wf(),
    {
        let (row, bot) = (cursor.row, self.scroll_bottom);
        if row < self.scroll_top || row > bot {
            return ;
        }
        let ghost before = self@;
        let lines = if n < bot - row + 1 {
            n
        } else {
            bot - row + 1
        };
        proof {
            self.lemma_region_fits(row as int, bot + 1);
            self.lemma_region_fits(0, lines as int);
            self.lemma_region_fits(lines as int, bot - row + 1);
        }
        let start = row * self.cols;
        let end = (bot + 1) * self.cols;
        insert_cells(&mut self.viewport, start, end, lines * self.cols);
        assert(self@ =~= before.insert_lines(*cursor, n as int));
    }

    /// CSI M (DL): delete n lines at the cursor, within the region.
    pub fn delete_lines(&mut self, cursor: &CursorState, n: usize)
        requires
            old(self)@.wf(),
            old(self)@.can_edit_lines(*cursor),
        ensures
            final(self)@ == old(self)@.delete_lines(*cursor, n as int),
            final(self)@.wf(),
    {
        let (row, bot) = (cursor.row, self.scroll_bottom);
        if row < self.scroll_top || row > bot {
            return ;
        }
        let ghost before = self@;
        let lines = if n < bot - row + 1 {
            n
        } else {
            bot - row + 1
        };
        proof {
            self.lemma_region_fits(row as int, bot + 1);
            self.lemma_region_fits(0, lines as int);
            self.lemma_region_fits(lines as int, bot - row + 1);
        }
        let start = row * self.cols;
        let end = (bot + 1) * self.cols;
        delete_cells(&mut self.viewport, start, end, lines * self.cols);
        assert(self@ =~= before.delete_lines(*cursor, n as int));
    }

    /// CSI J: clear screen variants (0 = cursor->end, 1 = start->cursor, 2 = all).
    pub fn erase_in_display(&mut self, cursor: &CursorState, params: &CsiParams)
        requires
            old(self)@.wf(),
            old(self)@.cols > 0,
            old(self)@.rows > 0,
        ensures
            final(self)@ == old(self)@.erase_display(
                *cursor,
                crate::params::param_or(params@, 0, 0),
            ),
            final(self)@.wf(),
    {
        let ghost before = self@;
        let mode = params.first_or(0, 0);
        let col = at_most(cursor.col, self.cols - 1);
        let row = at_most(cursor.row, self.rows - 1);
        proof {
            self.lemma_rows_fit(row as int, row + 1);
        }
        let cursor_idx = self.index(col, row);
        let len = self.viewport.len();
        if mode == 0 {
            erase_cells(&mut self.viewport, cursor_idx, len);
        } else if mode == 1 {
            erase_cells(&mut self.viewport, 0, cursor_idx + 1);
        } else if mode == 2 || mode == 3 {
            erase_cells(&mut self.viewport, 0, len);
        }
        assert(self@ =~= before.erase_display(*cursor, mode));
    }

    /// Start of the cursor row, the last row standing for all beyond it.
    fn row_base(&self, cursor: &CursorState) -> (base: usize)
        requires
            self@.wf(),
            self@.rows > 0,
        ensures
            base == self@.row_base(*cursor),
            base + self@.cols <= self@.cells.len() <= usize::MAX,
    {
        let row = at_most(cursor.row, self.rows - 1);
        proof {
            self.lemma_rows_fit(row as int, row + 1);
        }
        row * self.cols
    }

    /// CSI K: erase in line (0 = cursor->eol, 1 = bol->cursor, 2 = whole row).
    pub fn erase_in_line(&mut self, cursor: &CursorState, mode: u16)
        requires
            old(self)@.wf(),
            old(self)@.rows > 0,
        ensures
            final(self)@ == old(self)@.erase_line(*cursor, mode),
            final(self)@.wf(),
    {
        let ghost before = self@;
        let base = self.row_base(cursor);
        let cols = self.cols;
        let col = at_most(cursor.col, cols);
        if mode == 0 {
            erase_cells(&mut self.viewport, base + col, base + cols);
        } else if mode == 1 {
            let end = if col < cols {
                col + 1
            } else {
                cols
            };
            erase_cells(&mut self.viewport, base, base + end);
        } else if mode == 2 {
            erase_cells(&mut self.viewport, base, base + cols);
        }
        assert(self@ =~= before.erase_line(*cursor, mode));
    }

    /// CSI P (DCH): delete n chars at the cursor, shifting the rest of the row left.
    pub fn delete_chars(&mut self, cursor: &CursorState, n: usize)
        requires
            old(self)@.wf(),
            old(self)@.rows > 0,
        ensures
            final(self)@ == old(self)@.delete_chars(*cursor, n as int),
            final(self)@.wf(),
    {
        let ghost before = self@;
        let base = self.row_base(cursor);
        let cols = self.cols;
        let col = at_most(cursor.col, cols.saturating_sub(1));
        let n = at_most(n, cols - col);
        delete_cells(&mut self.viewport, base + col, base + cols, n);
        assert(self@ =~= before.delete_chars(*cursor, n as int));
    }

    /// CSI @ (ICH): insert n blanks at the cursor, shifting the rest of the row right.
    pub fn insert_chars(&mut self, cursor: &CursorState, n: usize)
        requires
            old(self)@.wf(),
            old(self)@.rows > 0,
        ensures
            final(self)@ == old(self)@.insert_chars(*cursor, n as int),
            final(self)@.wf(),
    {
        let ghost before = self@;
        let base = self.row_base(cursor);
        let cols = self.cols;
        let col = at_most(cursor.col, cols.saturating_sub(1));
        let n = at_most(n, cols - col);
        insert_cells(&mut self.viewport, base + col, base + cols, n);
        assert(self@ =~= before.insert_chars(*cursor, n as int));
    }

    /// CSI X (ECH): erase n chars at the cursor in place (no shift).
    pub fn erase_chars(&mut self, cursor: &CursorState, n: usize)
        requires
            old(self)@.wf(),
            old(self)@.rows > 0,
            crate::screen::least(cursor.col as int, old(self)@.cols as int) + n <= usize::MAX,
        ensures
            final(self)@ == old(self)@.erase_chars(*cursor, n as int),
            final(self)@.wf(),
    {
        let ghost before = self@;
        let base = self.row_base(cursor);
        let cols = self.cols;
        let col = at_most(cursor.col, cols);
        let end = at_most(col + n, cols);
        erase_cells(&mut self.viewport, base + col, base + end);
        assert(self@ =~= before.erase_chars(*cursor, n as int));
    }

    // ---- Modes ----

    /// DECSTBM (CSI t;b r): set scroll region (1-based) and home the cursor.
    pub fn set_scroll_region(
        &mut self,
        top_1based: usize,
        bottom_1based: usize,
        cursor: &mut CursorState,
    )
        requires
            old(self)@.wf(),
            old(self)@.rows > 0,
        ensures
            final(self)@ == old(self)@.with_region(top_1based as int, bottom_1based as int),
            *final(cursor) == old(cursor).at(0, 0),
            final(self)@.wf(),
    {
        let top = top_1based.saturating_sub(1);
        let bottom = at_most(bottom_1based.saturating_sub(1), self.rows - 1);
        if top < bottom {
            self.scroll_top = top;
            self.scroll_bottom = bottom;
        } else {
            self.scroll_top = 0;
            self.scroll_bottom = self.rows - 1;
        }
        cursor.row = 0;
        cursor.col = 0;
        assert(self@ =~= old(self)@.with_region(top_1based as int, bottom_1based as int));
    }

    pub fn set_autowrap(&mut self, on: bool)
        ensures
            final(self)@ == (Screen { autowrap: on, ..old(self)@ }),
    {
        self.autowrap = on;
    }

    /// Enter the alternate screen: stash primary, present a cleared buffer.
    pub fn enter_alt_screen(&mut self)
        requires
            old(self)@.wf(),
            old(self)@.alt || old(self)@.rows > 0,
        ensures
            final(self)@ == old(self)@.entered_alt(),
            final(self)@.wf(),
    {
        if self.alt_active {
            return ;
        }
        proof {
            self.lemma_rows_fit(0, self.rows as int);
        }
        let mut cells = blank_cells(self.cols * self.rows);
        std::mem::swap(&mut cells, &mut self.viewport);
        self.saved_primary = Some(cells);
        self.alt_active = true;
        self.scroll_top = 0;
        self.scroll_bottom = self.rows - 1;
        // Alt screen has no scrollback semantics; snap the view to the bottom.
        self.view_offset = 0;
        assert(self@ =~= old(self)@.entered_alt());
    }

    /// Leave the alternate screen, restoring the primary buffer.
    pub fn exit_alt_screen(&mut self)
        requires
            old(self)@.wf(),
            !old(self)@.alt || old(self)@.rows > 0,
        ensures
            final(self)@ == old(self)@.left_alt(),
            final(self)@.wf(),
    {
        if !self.alt_active {
            return ;
        }
        let ghost before = self@;
        proof {
            self.lemma_rows_fit(0, self.rows as int);
        }
        let size = self.cols * self.rows;
        let primary = self.saved_primary.take();
        self.viewport = match primary {
            Some(p) => if p.len() == size {
                p
            } else {
                // Size changed while in alt screen: fall back to a clear primary.
                blank_cells(size)
            },
            None => blank_cells(size),
        };
        self.alt_active = false;
        self.scroll_top = 0;
        self.scroll_bottom = self.rows - 1;
        assert(self@ =~= before.left_alt());
    }

    /// SGR (CSI m): mutate the active pen on the cursor.
    pub fn update_attributes(&mut self, cursor: &mut CursorState, params: &CsiParams)
        ensures
            *final(self) == *old(self),
            *final(cursor) == (CursorState {
                pen: crate::sgr::sgr_pen(old(cursor).pen, params@),
                ..*old(cursor)
            }),
    {
        cursor.pen = apply_sgr(cursor.pen, params);
    }

    // ---- Cursor movement ----

    /// CSI G / HPA: set column, 1-based, clamped to the row.
    pub fn set_col(&self, cursor: &mut CursorState, col_1based: usize)
        ensures
            *final(cursor) == self@.col_set(*old(cursor), col_1based as int),
    {
        cursor.col = at_most(col_1based.saturating_sub(1), self.cols.saturating_sub(1));
    }

    /// CSI d / VPA: set row, 1-based, clamped to the screen.
    pub fn set_row(&self, cursor: &mut CursorState, row_1based: usize)
        ensures
            *final(cursor) == self@.row_set(*old(cursor), row_1based as int),
    {
        cursor.row = at_most(row_1based.saturating_sub(1), self.rows.saturating_sub(1));
    }

    /// CSI A/B/C/D: relative cursor move, clamped (no scroll, no wrap).
    pub fn move_rel(&self, cursor: &mut CursorState, dcol: isize, drow: isize)
        requires
            self@.can_move(*old(cursor), dcol as int, drow as int),
        ensures
            *final(cursor) == self@.moved(*old(cursor), dcol as int, drow as int),
    {
        let col: isize = cursor.col as isize + dcol;
        let row: isize = cursor.row as isize + drow;
        cursor.col = clamp(col, 0, self.cols as isize - 1) as usize;
        cursor.row = clamp(row, 0, self.rows as isize - 1) as usize;
    }

    /// Advance to the next 8-column tab stop, no further than the last column.
    pub fn tab(&self, cursor: &mut CursorState)
        requires
            (old(cursor).col as int / 8 + 1) * 8 <= usize::MAX,
        ensures
            *final(cursor) == self@.tabbed(*old(cursor)),
    {
        let next: usize = (cursor.col / 8 + 1) * 8;
        cursor.col = at_most(next, self.cols.saturating_sub(1));
    }

    // ---- Size ----

    /// Simple resize: reallocate and clamp. Rewrapping lines to the new width
    /// is deferred.
    pub fn resize(&mut self, cols: usize, rows: usize, cursor: &mut CursorState)
        requires
            old(self)@.wf(),
            cols * rows <= usize::MAX,
            rows + old(self)@.max_history <= usize::MAX,
        ensures
            final(self)@ == old(self)@.resized(cols, rows),
            *final(cursor) == old(self)@.resized_cursor(cols, rows, *old(cursor)),
            final(self)@.wf(),
    {
        if cols == self.cols && rows == self.rows {
            return ;
        }
        let ghost before = self@;
        let next = self.refitted(cols, rows);
        self.viewport = next;
        self.cols = cols;
        self.rows = rows;
        // Scroll region and the stashed alt-primary are sized to the old
        // geometry; reset them rather than index out of bounds.
        self.scroll_top = 0;
        self.scroll_bottom = rows.saturating_sub(1);
        self.saved_primary = None;
        // View offset can't outlive scrollback after a resize-driven trim.
        self.view_offset = at_most(self.view_offset, self.scrollback.len());
        cursor.row = at_most(cursor.row, rows.saturating_sub(1));
        cursor.col = at_most(cursor.col, cols.saturating_sub(1));
        assert(self@ =~= before.resized(cols, rows));
    }

    /// The viewport at another size: what fits, the rest blank.
    fn refitted(&self, cols: usize, rows: usize) -> (next: Vec<Cell>)
        requires
            self@.wf(),
            cols * rows <= usize::MAX,
        ensures
            next@ == self@.resized_cells(cols, rows),
    {
        let mut next: Vec<Cell> = Vec::new();
        let mut y: usize = 0;
        while y < rows
            invariant
                self@.wf(),
                y <= rows,
                next@.len() == y * cols,
                cols * rows <= usize::MAX,
                forall|i: int|
                    0 <= i < next@.len() ==> #[trigger] next@[i] == self@.resized_cells(
                        cols,
                        rows,
                    )[i],
            decreases rows - y,
        {
            proof {
                lemma_rows(cols as int, rows as int, y as int, y + 1);
            }
            let ghost done = next@;
            let mut x: usize = 0;
            while x < cols
                invariant
                    self@.wf(),
                    x <= cols,
                    y < rows,
                    cols * rows <= usize::MAX,
                    done.len() == y * cols,
                    y * cols + cols <= cols * rows,
                    next@.len() == done.len() + x,
                    forall|i: int| 0 <= i < done.len() ==> #[trigger] next@[i] == done[i],
                    forall|i: int|
                        done.len() <= i < next@.len() ==> #[trigger] next@[i]
                            == self@.resized_cells(cols, rows)[i],
                decreases cols - x,
            {
                let cell = if x < self.cols && y < self.rows {
                    proof {
                        self.lemma_rows_fit(y as int, y + 1);
                    }
                    self.viewport[y * self.cols + x]
                } else {
                    Cell::default()
                };
                proof {
                    let i = y * cols + x;
                    assert(0 <= y * cols) by (nonlinear_arith)
                        requires
                            y >= 0,
                            cols >= 0,
                    ;
                    vstd::arithmetic::div_mod::lemma_fundamental_div_mod_converse(
                        i,
                        cols as int,
                        y as int,
                        x as int,
                    );
                }
                next.push(cell);
                x += 1;
            }
            y += 1;
        }
        assert(rows * cols == cols * rows) by (nonlinear_arith);
        assert(next@ =~= self@.resized_cells(cols, rows));
        next
    }
}

/// The smaller of the two.
fn at_most(v: usize, max: usize) -> (r: usize)
    ensures
        r == crate::screen::least(v as int, max as int),
{
    if v <= max {
        v
    } else {
        max
    }
}

/// `v` brought into `low..=high`.
fn clamp(v: isize, low: isize, high: isize) -> (r: isize)
    requires
        low <= high,
    ensures
        r == crate::screen::clamped(v as int, low as int, high as int),
{
    if v < low {
        low
    } else if v > high {
        high
    } else {
        v
    }
}

} // verus!
