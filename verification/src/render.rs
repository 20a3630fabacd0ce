//! Dirty-cell tracking and the frames of the crossterm backend.

use vstd::prelude::*;

use crate::cell::{Cell, ATTR_BOLD, ATTR_ITALIC, ATTR_UNDERLINE};
use crate::cursor::CursorState;
use crate::grid::Grid;

verus! {

/// A cell that no screen shows, so that it counts as changed.
pub open spec fn sentinel() -> Cell {
    Cell { c: '\0', ..Cell::blank() }
}

/// The cells among the first `n` that differ between two frames: column, row
/// and the new cell, in order.
pub open spec fn changes(
    prev: Seq<Cell>,
    cur: Seq<Cell>,
    cols: int,
    n: int,
) -> Seq<(usize, usize, Cell)>
    decreases n,
{
    if n <= 0 {
        Seq::empty()
    } else {
        let before = changes(prev, cur, cols, n - 1);
        if prev[n - 1] != cur[n - 1] {
            before.push((((n - 1) % cols) as usize, ((n - 1) / cols) as usize, cur[n - 1]))
        } else {
            before
        }
    }
}

/// How many positions two frames have in common.
pub open spec fn shared(prev: Seq<Cell>, cur: Seq<Cell>) -> int {
    crate::screen::least(prev.len() as int, cur.len() as int)
}

/// The old frame brought up to date, as far as the two have positions in
/// common.
pub open spec fn caught_up(prev: Seq<Cell>, cur: Seq<Cell>) -> Seq<Cell> {
    Seq::new(
        prev.len(),
        |i: int|
            if i < cur.len() {
                cur[i]
            } else {
                prev[i]
            },
    )
}

/// The frame with one position marked for repainting.
pub open spec fn invalidated(prev: Seq<Cell>, idx: int) -> Seq<Cell> {
    if 0 <= idx < prev.len() {
        prev.update(idx, Cell { c: '\0', fg: 0xDEAD, ..prev[idx] })
    } else {
        prev
    }
}

/// Utility for tracking rendering deltas.
pub struct FrameDiff {
    pub previous_viewport: Vec<Cell>,
}

impl View for FrameDiff {
    type V = Seq<Cell>;

    open spec fn view(&self) -> Seq<Cell> {
        self.previous_viewport@
    }
}

impl FrameDiff {
    pub fn new(cols: usize, rows: usize) -> (diff: Self)
        requires
            cols * rows <= usize::MAX,
        ensures
            diff@ == Seq::new((cols * rows) as nat, |i: int| sentinel()),
    {
        // Sentinel that differs from Cell::default() so the first frame is
        // fully drawn (every cell counts as dirty).
        let mut cell = Cell::default();
        cell.c = '\0';
        let previous_viewport = vec![cell; cols * rows];
        assert(previous_viewport@ =~= Seq::new((cols * rows) as nat, |i: int| sentinel()));
        FrameDiff { previous_viewport }
    }

    /// Resize the diff buffer; forces a full repaint next frame.
    pub fn resize(&mut self, cols: usize, rows: usize)
        requires
            cols * rows <= usize::MAX,
        ensures
            final(self)@ == Seq::new((cols * rows) as nat, |i: int| sentinel()),
    {
        *self = FrameDiff::new(cols, rows);
    }

    /// The cells that have mutated since the last render pass, which this one
    /// then becomes.
    pub fn calculate_diff(&mut self, current_grid: &Grid) -> (dirty: Vec<(usize, usize, Cell)>)
        requires
            current_grid@.wf(),
        ensures
            dirty@ == changes(
                old(self)@,
                current_grid@.cells,
                current_grid@.cols as int,
                shared(old(self)@, current_grid@.cells),
            ),
            final(self)@ == caught_up(old(self)@, current_grid@.cells),
    {
        let cols = current_grid.cols();
        let cells = current_grid.viewport();
        let mut dirty: Vec<(usize, usize, Cell)> = Vec::new();
        let mut idx: usize = 0;
        let ghost prev = self@;
        proof {
            if cols == 0 {
                assert(cols * current_grid@.rows == 0) by (nonlinear_arith)
                    requires
                        cols == 0,
                ;
            }
        }
        while idx < cells.len() && idx < self.previous_viewport.len()
            invariant
                cells@.len() > 0 ==> cols > 0,
                self@.len() == prev.len(),
                idx <= cells@.len(),
                idx <= prev.len(),
                dirty@ == changes(prev, cells@, cols as int, idx as int),
                forall|i: int| 0 <= i < idx ==> self@[i] == cells@[i],
                forall|i: int| idx <= i < prev.len() ==> self@[i] == prev[i],
            decreases cells@.len() - idx,
        {
            let cell = cells[idx];
            if self.previous_viewport[idx] != cell {
                self.previous_viewport.set(idx, cell);
                dirty.push((idx % cols, idx / cols, cell));
            }
            idx += 1;
        }
        assert(self@ =~= caught_up(prev, cells@));
        dirty
    }

    /// Force a single cell to repaint next frame (used for cursor invalidation).
    pub fn invalidate(&mut self, idx: usize)
        ensures
            final(self)@ == invalidated(old(self)@, idx as int),
    {
        if idx < self.previous_viewport.len() {
            let mut cell = self.previous_viewport[idx];
            cell.c = '\0';
            cell.fg = 0xDEAD;
            self.previous_viewport.set(idx, cell);
        }
    }
}

/// Red, green and blue of `0x00RRGGBB`.
pub open spec fn channels_of(rgb: u32) -> (u8, u8, u8) {
    (((rgb / 0x10000) % 0x100) as u8, ((rgb / 0x100) % 0x100) as u8, (rgb % 0x100) as u8)
}

/// Split `0x00RRGGBB` into red, green and blue.
pub fn channels(rgb: u32) -> (parts: (u8, u8, u8))
    ensures
        parts == channels_of(rgb),
{
    (((rgb / 0x10000) % 0x100) as u8, ((rgb / 0x100) % 0x100) as u8, (rgb % 0x100) as u8)
}

/// Draw call for one cell.
#[derive(Debug, Clone, Copy, PartialEq, Eq)]
pub struct CellDraw {
    pub x: usize,
    pub y: usize,
    pub c: char,
    pub fg: (u8, u8, u8),
    pub bg: (u8, u8, u8),
    pub bold: bool,
    pub italic: bool,
    pub underline: bool,
}

impl CellDraw {
    /// How `cell` is drawn at `x`, `y`; `inverse` swaps its colors.
    pub open spec fn of(x: usize, y: usize, cell: Cell, inverse: bool) -> CellDraw {
        CellDraw {
            x,
            y,
            c: cell.c,
            fg: channels_of(
                if inverse {
                    cell.bg
                } else {
                    cell.fg
                },
            ),
            bg: channels_of(
                if inverse {
                    cell.fg
                } else {
                    cell.bg
                },
            ),
            bold: cell.flags & ATTR_BOLD != 0,
            italic: cell.flags & ATTR_ITALIC != 0,
            underline: cell.flags & ATTR_UNDERLINE != 0,
        }
    }
}

/// The draw for one cell at (x, y). `inverse` swaps fg/bg for the cursor.
pub fn draw_cell(x: usize, y: usize, cell: &Cell, inverse: bool) -> (draw: CellDraw)
    ensures
        draw == CellDraw::of(x, y, *cell, inverse),
{
    let (fg, bg) = if inverse {
        (cell.bg, cell.fg)
    } else {
        (cell.fg, cell.bg)
    };
    CellDraw {
        x,
        y,
        c: cell.c,
        fg: channels(fg),
        bg: channels(bg),
        bold: cell.flags & ATTR_BOLD != 0,
        italic: cell.flags & ATTR_ITALIC != 0,
        underline: cell.flags & ATTR_UNDERLINE != 0,
    }
}

/// The draws for a list of changed cells; the one under the cursor is inverse.
pub open spec fn draws(
    dirty: Seq<(usize, usize, Cell)>,
    cursor: Option<(usize, usize)>,
) -> Seq<CellDraw> {
    dirty.map_values(
        |d: (usize, usize, Cell)| CellDraw::of(d.0, d.1, d.2, cursor == Some((d.0, d.1))),
    )
}

/// What the crossterm backend remembers between frames.
pub struct CrosstermRenderer {
    pub diff: FrameDiff,
    pub cols: usize,
    pub rows: usize,
    pub last_cursor: Option<(usize, usize)>,
}

impl CrosstermRenderer {
    /// The frame has a size that can be indexed, and so has the old cursor.
    pub open spec fn wf(&self) -> bool {
        &&& self.cols * self.rows <= usize::MAX
        &&& self.last_cursor matches Some(p) ==> p.1 * self.cols + p.0 <= usize::MAX
    }

    /// Where the cursor block is drawn, if it is visible: no further than the
    /// last column and row.
    pub open spec fn cursor_at(&self, cursor: CursorState) -> Option<(usize, usize)> {
        if cursor.visible {
            Some(
                (
                    crate::screen::least(
                        cursor.col as int,
                        crate::screen::minus(self.cols as int, 1),
                    ) as usize,
                    crate::screen::least(
                        cursor.row as int,
                        crate::screen::minus(self.rows as int, 1),
                    ) as usize,
                ),
            )
        } else {
            None
        }
    }

    /// The old frame with a cursor cell marked for repainting.
    pub open spec fn unmasked(&self, prev: Seq<Cell>, at: Option<(usize, usize)>) -> Seq<Cell> {
        match at {
            Some(p) => invalidated(prev, p.1 * self.cols + p.0),
            None => prev,
        }
    }

    /// The old frame as it is compared: old and new cursor cells must repaint
    /// even if their data is unchanged.
    pub open spec fn compared(&self, cursor: CursorState) -> Seq<Cell> {
        self.unmasked(self.unmasked(self.diff@, self.last_cursor), self.cursor_at(cursor))
    }

    pub fn new(cols: usize, rows: usize) -> (r: Self)
        requires
            cols * rows <= usize::MAX,
        ensures
            r.cols == cols,
            r.rows == rows,
            r.diff@ == Seq::new((cols * rows) as nat, |i: int| sentinel()),
            r.last_cursor is None,
            r.wf(),
    {
        CrosstermRenderer { diff: FrameDiff::new(cols, rows), cols, rows, last_cursor: None }
    }

    pub fn resize(&mut self, cols: usize, rows: usize)
        requires
            cols * rows <= usize::MAX,
        ensures
            final(self).cols == cols,
            final(self).rows == rows,
            final(self).diff@ == Seq::new((cols * rows) as nat, |i: int| sentinel()),
            final(self).last_cursor is None,
            final(self).wf(),
    {
        self.cols = cols;
        self.rows = rows;
        self.diff.resize(cols, rows);
        self.last_cursor = None;
    }

    /// The target has been set up with this many columns and rows.
    pub fn started(&mut self, cols: u16, rows: u16)
        ensures
            final(self).cols == cols,
            final(self).rows == rows,
            final(self).diff@ == old(self).diff@,
            final(self).last_cursor == old(self).last_cursor,
            old(self).last_cursor is None ==> final(self).wf(),
    {
        self.cols = cols as usize;
        self.rows = rows as usize;
        proof {
            assert(cols * rows <= 0xFFFF * 0xFFFF) by (nonlinear_arith)
                requires
                    0 <= cols <= 0xFFFF,
                    0 <= rows <= 0xFFFF,
            ;
        }
    }

    /// Compare the grid to the previous frame: what to draw, and where the
    /// cursor block then stands. When DECTCEM hides the cursor, only its old
    /// cell repaints.
    pub fn plan_frame(&mut self, grid: &Grid, cursor: &CursorState) -> (frame: (
        Vec<CellDraw>,
        Option<(usize, usize)>,
    ))
        requires
            old(self).wf(),
            grid@.wf(),
        ensures
            frame.1 == old(self).cursor_at(*cursor),
            frame.0@ == draws(
                changes(
                    old(self).compared(*cursor),
                    grid@.cells,
                    grid@.cols as int,
                    shared(old(self).compared(*cursor), grid@.cells),
                ),
                frame.1,
            ),
            final(self).diff@ == caught_up(old(self).compared(*cursor), grid@.cells),
            final(self).cols == old(self).cols,
            final(self).rows == old(self).rows,
            final(self).last_cursor == old(self).last_cursor,
            final(self).wf(),
    {
        if let Some((px, py)) = self.last_cursor {
            proof {
                assert(py * self.cols >= 0) by (nonlinear_arith)
                    requires
                        py >= 0,
                        self.cols >= 0,
                ;
            }
            let idx = py * self.cols + px;
            self.diff.invalidate(idx);
        }
        let new_cursor = if cursor.visible {
            let x = min_usize(cursor.col, self.cols.saturating_sub(1));
            let y = min_usize(cursor.row, self.rows.saturating_sub(1));
            proof {
                self.lemma_cursor_fits(x as int, y as int);
            }
            let idx = y * self.cols + x;
            self.diff.invalidate(idx);
            Some((x, y))
        } else {
            None
        };
        let dirty = self.diff.calculate_diff(grid);
        let mut out: Vec<CellDraw> = Vec::new();
        let mut i: usize = 0;
        while i < dirty.len()
            invariant
                i <= dirty.len(),
                out@ =~= draws(dirty@.take(i as int), new_cursor),
            decreases dirty.len() - i,
        {
            let (x, y, cell) = dirty[i];
            let here = match new_cursor {
                Some((cx, cy)) => cx == x && cy == y,
                None => false,
            };
            out.push(draw_cell(x, y, &cell, here));
            i += 1;
        }
        assert(dirty@.take(dirty@.len() as int) =~= dirty@);
        (out, new_cursor)
    }

    /// A position no further than the last column and row can be indexed.
    proof fn lemma_cursor_fits(&self, x: int, y: int)
        requires
            self.wf(),
            0 <= x <= crate::screen::minus(self.cols as int, 1),
            0 <= y <= crate::screen::minus(self.rows as int, 1),
        ensures
            0 <= y * self.cols <= usize::MAX,
            0 <= y * self.cols + x <= usize::MAX,
    {
        assert(0 <= y * self.cols) by (nonlinear_arith)
            requires
                0 <= y,
                0 <= self.cols,
        ;
        if self.rows == 0 {
            assert(y * self.cols == 0) by (nonlinear_arith)
                requires
                    y == 0,
            ;
        } else {
            assert(y * self.cols + self.cols <= self.cols * self.rows) by (nonlinear_arith)
                requires
                    y + 1 <= self.rows,
                    0 <= self.cols,
            ;
        }
    }

    /// The planned frame is on the target; its cursor is the old one now.
    pub fn finish_frame(&mut self, cursor: Option<(usize, usize)>)
        requires
            cursor matches Some(p) ==> p.1 * old(self).cols + p.0 <= usize::MAX,
        ensures
            final(self).last_cursor == cursor,
            final(self).diff@ == old(self).diff@,
            final(self).cols == old(self).cols,
            final(self).rows == old(self).rows,
            old(self).wf() ==> final(self).wf(),
    {
        self.last_cursor = cursor;
    }
}

fn min_usize(a: usize, b: usize) -> (m: usize)
    ensures
        m == crate::screen::least(a as int, b as int),
{
    if a <= b {
        a
    } else {
        b
    }
}

// ---- What holds of every frame ----

/// After a frame has been taken over, an unchanged screen has nothing to draw.
pub proof fn law_unchanged_screen_draws_nothing(
    prev: Seq<Cell>,
    cur: Seq<Cell>,
    cols: int,
    n: int,
)
    requires
        0 <= n <= shared(prev, cur),
    ensures
        changes(caught_up(prev, cur), cur, cols, n) == Seq::<(usize, usize, Cell)>::empty(),
    decreases n,
{
    if n > 0 {
        law_unchanged_screen_draws_nothing(prev, cur, cols, n - 1);
    }
}

/// The first frame, and the first after a change of size, draws every cell
/// that shows a character.
pub proof fn law_first_frame_draws_all(cur: Seq<Cell>, cols: int, n: int)
    requires
        0 <= n <= cur.len(),
        forall|i: int| 0 <= i < n ==> (#[trigger] cur[i]).c != '\0',
    ensures
        changes(Seq::new(cur.len(), |i: int| sentinel()), cur, cols, n) == Seq::new(
            n as nat,
            |i: int| ((i % cols) as usize, (i / cols) as usize, cur[i]),
        ),
    decreases n,
{
    let prev = Seq::new(cur.len(), |i: int| sentinel());
    let all = |m: int|
        Seq::new(m as nat, |i: int| ((i % cols) as usize, (i / cols) as usize, cur[i]));
    if n > 0 {
        law_first_frame_draws_all(cur, cols, n - 1);
        assert(cur[n - 1].c != '\0');
        assert(changes(prev, cur, cols, n) =~= all(n));
    } else {
        assert(changes(prev, cur, cols, n) =~= all(n));
    }
}

/// Old and new cursor cells are always among those drawn, as long as the
/// screen shows a character there.
pub proof fn law_cursor_cell_repaints(prev: Seq<Cell>, cur: Seq<Cell>, idx: int)
    requires
        0 <= idx < prev.len(),
        idx < cur.len(),
        cur[idx].c != '\0',
    ensures
        invalidated(prev, idx)[idx] != cur[idx],
{
}

/// Is `d` the draw of position `i`, in its column and row?
pub open spec fn draws_position(d: (usize, usize, Cell), cur: Seq<Cell>, cols: int, i: int) -> bool {
    &&& d.0 < cols
    &&& d.1 * cols + d.0 == i
    &&& d.2 == cur[i]
}

proof fn lemma_place(i: int, cols: int)
    requires
        0 <= i <= usize::MAX,
        0 < cols,
    ensures
        0 <= i % cols < cols,
        0 <= i / cols <= i,
        (i / cols) * cols + i % cols == i,
{
    vstd::arithmetic::div_mod::lemma_fundamental_div_mod(i, cols);
    assert(cols * (i / cols) == (i / cols) * cols) by (nonlinear_arith);
    assert(0 <= i / cols <= i) by (nonlinear_arith)
        requires
            0 <= i,
            0 < cols,
    ;
}

/// Exactly what differs is drawn: each position whose cell is another one is
/// among the draws, with its column, its row and its new cell, and every draw
/// is one of these.
pub proof fn law_changes_are_drawn(prev: Seq<Cell>, cur: Seq<Cell>, cols: int, n: int)
    requires
        0 < cols,
        0 <= n <= shared(prev, cur),
        n <= usize::MAX,
    ensures
        forall|i: int|
            0 <= i < n && #[trigger] prev[i] != cur[i] ==> exists|k: int|
                0 <= k < changes(prev, cur, cols, n).len() && draws_position(
                    #[trigger] changes(prev, cur, cols, n)[k],
                    cur,
                    cols,
                    i,
                ),
        forall|k: int|
            0 <= k < changes(prev, cur, cols, n).len() ==> exists|i: int|
                0 <= i < n && prev[i] != cur[i] && draws_position(
                    #[trigger] changes(prev, cur, cols, n)[k],
                    cur,
                    cols,
                    i,
                ),
    decreases n,
{
    let all = changes(prev, cur, cols, n);
    if n > 0 {
        law_changes_are_drawn(prev, cur, cols, n - 1);
        lemma_place(n - 1, cols);
        let before = changes(prev, cur, cols, n - 1);
        assert forall|i: int| 0 <= i < n && #[trigger] prev[i] != cur[i] implies exists|k: int|
            0 <= k < all.len() && draws_position(#[trigger] all[k], cur, cols, i) by {
            if i == n - 1 {
                assert(draws_position(all[before.len() as int], cur, cols, i));
            } else {
                let k = choose|k: int|
                    0 <= k < before.len() && draws_position(#[trigger] before[k], cur, cols, i);
                assert(all[k] == before[k]);
            }
        }
        assert forall|k: int| 0 <= k < all.len() implies exists|i: int|
            0 <= i < n && prev[i] != cur[i] && draws_position(#[trigger] all[k], cur, cols, i) by {
            if k == before.len() {
                assert(draws_position(all[k], cur, cols, n - 1));
            } else {
                assert(all[k] == before[k]);
                let i = choose|i: int|
                    0 <= i < n - 1 && prev[i] != cur[i] && draws_position(
                        #[trigger] before[k],
                        cur,
                        cols,
                        i,
                    );
                assert(draws_position(all[k], cur, cols, i));
            }
        }
    }
}

/// Draws come row by row from the left, each position at most once.
pub proof fn law_changes_in_order(
    prev: Seq<Cell>,
    cur: Seq<Cell>,
    cols: int,
    n: int,
    k: int,
    l: int,
)
    requires
        0 < cols,
        0 <= n <= shared(prev, cur),
        n <= usize::MAX,
        0 <= k < l < changes(prev, cur, cols, n).len(),
    ensures
        ({
            let (a, b) = (changes(prev, cur, cols, n)[k], changes(prev, cur, cols, n)[l]);
            a.1 * cols + a.0 < b.1 * cols + b.0 < n
        }),
    decreases n,
{
    let before = changes(prev, cur, cols, n - 1);
    lemma_place(n - 1, cols);
    if l < before.len() {
        law_changes_in_order(prev, cur, cols, n - 1, k, l);
    } else {
        law_changes_are_drawn(prev, cur, cols, n - 1);
        let i = choose|i: int|
            0 <= i < n - 1 && prev[i] != cur[i] && draws_position(
                #[trigger] before[k],
                cur,
                cols,
                i,
            );
        assert(draws_position(before[k], cur, cols, i));
    }
}

/// After a frame, what is remembered is what the screen shows; where only one
/// cell was marked, only that one is forgotten.
pub proof fn law_frame_is_remembered(prev: Seq<Cell>, cur: Seq<Cell>, idx: int, i: int)
    requires
        0 <= i < prev.len(),
    ensures
        caught_up(prev, cur).len() == prev.len(),
        i < cur.len() ==> caught_up(prev, cur)[i] == cur[i],
        i >= cur.len() ==> caught_up(prev, cur)[i] == prev[i],
        invalidated(prev, idx).len() == prev.len(),
        i != idx ==> invalidated(prev, idx)[i] == prev[i],
        i == idx ==> invalidated(prev, idx)[i].c == '\0',
        sentinel().c == '\0',
        prev.len() <= cur.len() ==> shared(prev, cur) == prev.len(),
        cur.len() <= prev.len() ==> shared(prev, cur) == cur.len(),
{
}

/// Red, green and blue are the three low bytes of a colour, red highest.
pub proof fn law_channels(rgb: u32)
    ensures
        channels_of(rgb).0 * 0x10000 + channels_of(rgb).1 * 0x100 + channels_of(rgb).2 == rgb
            % 0x1000000,
{
}

/// A cell is drawn in its place with its character, its colours and its
/// attributes; under the cursor its two colours change places. Exactly the
/// cell at the cursor is drawn so.
pub proof fn law_drawn_cell(
    x: usize,
    y: usize,
    cell: Cell,
    dirty: Seq<(usize, usize, Cell)>,
    cursor: Option<(usize, usize)>,
    k: int,
)
    ensures
        ({
            let plain = CellDraw::of(x, y, cell, false);
            let inverse = CellDraw::of(x, y, cell, true);
            &&& plain.x == x && plain.y == y && plain.c == cell.c
            &&& plain.fg == channels_of(cell.fg) && plain.bg == channels_of(cell.bg)
            &&& plain.bold == crate::sgr::has(cell.flags, 1)
            &&& plain.italic == crate::sgr::has(cell.flags, 2)
            &&& plain.underline == crate::sgr::has(cell.flags, 4)
            &&& inverse == (CellDraw { fg: plain.bg, bg: plain.fg, ..plain })
        }),
        draws(dirty, cursor).len() == dirty.len(),
        0 <= k < dirty.len() ==> {
            let d = dirty[k];
            let here = cursor is Some && (cursor->0).0 == d.0 && (cursor->0).1 == d.1;
            draws(dirty, cursor)[k] == CellDraw::of(d.0, d.1, d.2, here)
        },
{
    let f = cell.flags;
    assert((f & 1 != 0) == ((f / 1) % 2 == 1)) by (bit_vector);
    assert((f & 2 != 0) == ((f / 2) % 2 == 1)) by (bit_vector);
    assert((f & 4 != 0) == ((f / 4) % 2 == 1)) by (bit_vector);
}

/// The cursor block stands at the cursor, or on the last column or row where
/// that is beyond it, and nowhere while the cursor is hidden. Old and new place
/// are both drawn anew; all other cells are compared as they were.
pub proof fn law_cursor_block(r: &CrosstermRenderer, cursor: CursorState, i: int)
    requires
        0 < r.cols,
        0 < r.rows,
        0 <= i < r.diff@.len(),
    ensures
        ({
            let at = r.cursor_at(cursor);
            let old = r.last_cursor is Some && (r.last_cursor->0).1 * r.cols + (r.last_cursor->0).0
                == i;
            let new = at is Some && (at->0).1 * r.cols + (at->0).0 == i;
            &&& at is Some <==> cursor.visible
            &&& at is Some ==> {
                &&& cursor.col < r.cols ==> (at->0).0 == cursor.col
                &&& cursor.col >= r.cols ==> (at->0).0 == r.cols - 1
                &&& cursor.row < r.rows ==> (at->0).1 == cursor.row
                &&& cursor.row >= r.rows ==> (at->0).1 == r.rows - 1
            }
            &&& r.compared(cursor).len() == r.diff@.len()
            &&& old || new ==> r.compared(cursor)[i].c == '\0'
            &&& !old && !new ==> r.compared(cursor)[i] == r.diff@[i]
        }),
{
}

} // verus!
