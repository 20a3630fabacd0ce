//! What editing sequences do to the screen, cell by cell.

use vstd::prelude::*;

use crate::ansi::Term;
use crate::cell::Cell;
use crate::cursor::CursorState;
use crate::screen::Screen;

verus! {

/// The cell in column `x` of row `y`.
pub open spec fn shown(scr: Screen, x: int, y: int) -> Cell {
    scr.cells[y * scr.cols + x]
}

/// A space, white on black, with no attribute and no mark.
pub open spec fn is_clear(cell: Cell) -> bool {
    cell.c == ' ' && cell.fg == 0xFFFFFF && cell.bg == 0 && cell.flags == 0 && cell.combining_id
        == 0
}

/// Is `n` the count that a sequence names? Absent and zero mean one.
pub open spec fn counts(params: Seq<Seq<u16>>, n: int) -> bool {
    if params.len() > 0 && params[0].len() > 0 && params[0][0] > 0 {
        n == params[0][0]
    } else {
        n == 1
    }
}

/// Is `m` the variant that a sequence names? Absent means zero.
pub open spec fn variant(params: Seq<Seq<u16>>, m: u16) -> bool {
    if params.len() > 0 && params[0].len() > 0 {
        m == params[0][0]
    } else {
        m == 0
    }
}

/// Nothing differs but what the cells show.
pub open spec fn only_cells(before: Term, after: Term) -> bool {
    &&& after.screen.cells.len() == before.screen.cells.len()
    &&& after == (Term {
        screen: Screen { cells: after.screen.cells, ..before.screen },
        ..before
    })
}

/// Nothing differs but where the cursor stands.
pub open spec fn only_position(before: Term, after: Term) -> bool {
    after == (Term {
        cursor: CursorState { row: after.cursor.row, col: after.cursor.col, ..before.cursor },
        ..before
    })
}

/// Does row `y` column `x` come before row `v` column `u`, reading row by row?
pub open spec fn earlier(x: int, y: int, u: int, v: int) -> bool {
    y < v || (y == v && x < u)
}

/// Positions count row by row.
pub proof fn lemma_reading_order(cols: int, x: int, y: int, u: int, v: int)
    requires
        0 <= x < cols,
        0 <= u < cols,
    ensures
        y * cols + x < v * cols + u <==> earlier(x, y, u, v),
        y * cols + x == v * cols + u <==> x == u && y == v,
{
    if y < v {
        assert(y * cols + cols <= v * cols) by (nonlinear_arith)
            requires
                y + 1 <= v,
                0 <= cols,
        ;
    } else if y > v {
        assert(v * cols + cols <= y * cols) by (nonlinear_arith)
            requires
                v + 1 <= y,
                0 <= cols,
        ;
    }
}

/// A column and a row of the screen name a cell.
pub proof fn lemma_on_screen(scr: Screen, x: int, y: int)
    requires
        scr.cells.len() == scr.cols * scr.rows,
        0 <= x < scr.cols,
        0 <= y < scr.rows,
    ensures
        0 <= y * scr.cols,
        0 <= y * scr.cols + x < scr.cells.len(),
        y * scr.cols + scr.cols <= scr.cells.len(),
{
    assert(0 <= y * scr.cols) by (nonlinear_arith)
        requires
            0 <= y,
            0 <= scr.cols,
    ;
    assert(y * scr.cols + scr.cols <= scr.cols * scr.rows) by (nonlinear_arith)
        requires
            y + 1 <= scr.rows,
            0 <= scr.cols,
    ;
}

/// CSI J erases from the cursor to the end of the screen (0), from the start
/// of the screen up to and including the cursor (1), or all of it (2 and 3).
/// What is erased is clear, everything else stays, and so does the cursor. A
/// cursor beyond the edge counts as standing on it.
pub proof fn law_erase_display(
    t: Term,
    params: Seq<Seq<u16>>,
    intermediates: Seq<u8>,
    m: u16,
    cx: int,
    cy: int,
    x: int,
    y: int,
)
    requires
        t.screen.wf(),
        0 <= x < t.screen.cols,
        0 <= y < t.screen.rows,
        variant(params, m),
        cx == t.cursor.col && cx < t.screen.cols || cx == t.screen.cols - 1 && cx < t.cursor.col,
        cy == t.cursor.row && cy < t.screen.rows || cy == t.screen.rows - 1 && cy < t.cursor.row,
    ensures
        ({
            let after = t.csi(params, intermediates, 'J');
            let erased = m == 2 || m == 3 || (m == 0 && !earlier(x, y, cx, cy)) || (m == 1
                && !earlier(cx, cy, x, y));
            &&& only_cells(t, after)
            &&& erased ==> is_clear(shown(after.screen, x, y))
            &&& !erased ==> shown(after.screen, x, y) == shown(t.screen, x, y)
        }),
{
    lemma_on_screen(t.screen, x, y);
    lemma_on_screen(t.screen, cx, cy);
    lemma_reading_order(t.screen.cols as int, x, y, cx, cy);
    lemma_reading_order(t.screen.cols as int, cx, cy, x, y);
}

/// CSI K erases, in the cursor's row alone, from the cursor to the end (0),
/// from the start up to and including the cursor (1), or all of it (2).
pub proof fn law_erase_line(
    t: Term,
    params: Seq<Seq<u16>>,
    intermediates: Seq<u8>,
    m: u16,
    cy: int,
    x: int,
    y: int,
)
    requires
        t.screen.wf(),
        0 <= x < t.screen.cols,
        0 <= y < t.screen.rows,
        variant(params, m),
        cy == t.cursor.row && cy < t.screen.rows || cy == t.screen.rows - 1 && cy < t.cursor.row,
    ensures
        ({
            let after = t.csi(params, intermediates, 'K');
            let erased = y == cy && (m == 2 || (m == 0 && x >= t.cursor.col) || (m == 1 && x
                <= t.cursor.col));
            &&& only_cells(t, after)
            &&& erased ==> is_clear(shown(after.screen, x, y))
            &&& !erased ==> shown(after.screen, x, y) == shown(t.screen, x, y)
        }),
{
    lemma_on_screen(t.screen, x, y);
    lemma_on_screen(t.screen, 0, cy);
    lemma_reading_order(t.screen.cols as int, x, y, 0, cy);
    lemma_reading_order(t.screen.cols as int, x, y, t.screen.cols - 1, cy);
    assert(y == cy ==> y * t.screen.cols == cy * t.screen.cols);
}

/// CSI P takes characters out at the cursor: what stood that many columns to
/// the right moves in, and the end of the row is clear. CSI @ puts blanks in:
/// the rest of the row moves right. CSI X clears in place. Each touches only
/// the cursor's row from the cursor on.
pub proof fn law_edit_characters(
    t: Term,
    params: Seq<Seq<u16>>,
    intermediates: Seq<u8>,
    n: int,
    cx: int,
    cy: int,
    x: int,
    y: int,
)
    requires
        t.screen.wf(),
        0 <= x < t.screen.cols,
        0 <= y < t.screen.rows,
        counts(params, n),
        cx == t.cursor.col && cx < t.screen.cols || cx == t.screen.cols - 1 && cx < t.cursor.col,
        cy == t.cursor.row && cy < t.screen.rows || cy == t.screen.rows - 1 && cy < t.cursor.row,
    ensures
        ({
            let deleted = t.csi(params, intermediates, 'P');
            let inserted = t.csi(params, intermediates, '@');
            let erased = t.csi(params, intermediates, 'X');
            let here = shown(t.screen, x, y);
            &&& only_cells(t, deleted)
            &&& only_cells(t, inserted)
            &&& only_cells(t, erased)
            &&& y != cy || x < cx ==> shown(deleted.screen, x, y) == here && shown(
                inserted.screen,
                x,
                y,
            ) == here && shown(erased.screen, x, y) == here
            &&& y == cy && cx <= x && x + n < t.screen.cols ==> shown(deleted.screen, x, y)
                == shown(t.screen, x + n, y)
            &&& y == cy && cx <= x && x + n >= t.screen.cols ==> is_clear(
                shown(deleted.screen, x, y),
            )
            &&& y == cy && cx <= x < cx + n ==> is_clear(shown(inserted.screen, x, y))
            &&& y == cy && cx + n <= x ==> shown(inserted.screen, x, y) == shown(
                t.screen,
                x - n,
                y,
            )
            &&& y == cy && t.cursor.col <= x < t.cursor.col + n ==> is_clear(
                shown(erased.screen, x, y),
            )
            &&& !(y == cy && t.cursor.col <= x < t.cursor.col + n) ==> shown(erased.screen, x, y)
                == here
        }),
{
    lemma_on_screen(t.screen, x, y);
    lemma_on_screen(t.screen, cx, cy);
    lemma_reading_order(t.screen.cols as int, x, y, cx, cy);
    lemma_reading_order(t.screen.cols as int, x, y, 0, cy);
    lemma_reading_order(t.screen.cols as int, x, y, t.screen.cols - 1, cy);
    assert(y == cy ==> y * t.screen.cols == cy * t.screen.cols);
}

/// CSI L puts blank lines in at the cursor's row and CSI M takes lines out
/// there, moving only the rows from there to the end of the scroll region.
/// Outside of the region neither does anything.
pub proof fn law_edit_lines(
    t: Term,
    params: Seq<Seq<u16>>,
    intermediates: Seq<u8>,
    n: int,
    x: int,
    y: int,
)
    requires
        t.screen.wf(),
        0 <= x < t.screen.cols,
        0 <= y < t.screen.rows,
        counts(params, n),
    ensures
        ({
            let inserted = t.csi(params, intermediates, 'L');
            let deleted = t.csi(params, intermediates, 'M');
            let row = t.cursor.row as int;
            let moves = t.screen.top <= row && row <= y <= t.screen.bottom;
            &&& only_cells(t, inserted)
            &&& only_cells(t, deleted)
            &&& !moves ==> shown(inserted.screen, x, y) == shown(t.screen, x, y) && shown(
                deleted.screen,
                x,
                y,
            ) == shown(t.screen, x, y)
            &&& moves && y < row + n ==> is_clear(shown(inserted.screen, x, y))
            &&& moves && y >= row + n ==> shown(inserted.screen, x, y) == shown(
                t.screen,
                x,
                y - n,
            )
            &&& moves && y + n <= t.screen.bottom ==> shown(deleted.screen, x, y) == shown(
                t.screen,
                x,
                y + n,
            )
            &&& moves && y + n > t.screen.bottom ==> is_clear(shown(deleted.screen, x, y))
        }),
{
    let scr = t.screen;
    let cols = scr.cols as int;
    let (row, bot) = (t.cursor.row as int, scr.bottom as int);
    lemma_on_screen(scr, x, y);
    if scr.top <= row <= bot {
        let k = if n <= bot - row + 1 {
            n
        } else {
            bot - row + 1
        };
        lemma_reading_order(cols, x, y, 0, row);
        lemma_reading_order(cols, x, y, 0, bot + 1);
        lemma_reading_order(cols, x, y, 0, row + k);
        lemma_reading_order(cols, x, y, 0, bot + 1 - k);
        assert(k * cols == (row + k) * cols - row * cols) by (nonlinear_arith);
        assert(k * cols == (bot + 1) * cols - (bot + 1 - k) * cols) by (nonlinear_arith);
        assert(k * cols == (y + k) * cols - y * cols) by (nonlinear_arith);
        assert(k * cols == y * cols - (y - k) * cols) by (nonlinear_arith);
    }
}

/// Scrolling: each row of the region takes the place of its neighbour and the
/// freed row is clear; rows outside of the region stay.
proof fn lemma_scrolled(scr: Screen, x: int, y: int)
    requires
        scr.wf(),
        0 <= x < scr.cols,
        0 <= y < scr.rows,
    ensures
        ({
            let (up, down) = (scr.scroll_up(), scr.scroll_down());
            &&& up.cells.len() == scr.cells.len() && down.cells.len() == scr.cells.len()
            &&& !(scr.top <= y <= scr.bottom) ==> shown(up, x, y) == shown(scr, x, y) && shown(
                down,
                x,
                y,
            ) == shown(scr, x, y)
            &&& scr.top <= y < scr.bottom ==> shown(up, x, y) == shown(scr, x, y + 1)
            &&& y == scr.bottom ==> is_clear(shown(up, x, y))
            &&& scr.top < y <= scr.bottom ==> shown(down, x, y) == shown(scr, x, y - 1)
            &&& y == scr.top ==> is_clear(shown(down, x, y))
        }),
{
    let cols = scr.cols as int;
    let (top, bot) = (scr.top as int, scr.bottom as int);
    lemma_on_screen(scr, x, y);
    lemma_reading_order(cols, x, y, 0, top);
    lemma_reading_order(cols, x, y, 0, bot + 1);
    lemma_reading_order(cols, x, y, 0, top + 1);
    lemma_reading_order(cols, x, y, 0, bot);
    assert((top + 1) * cols == top * cols + cols) by (nonlinear_arith);
    assert((bot + 1) * cols == bot * cols + cols) by (nonlinear_arith);
    assert((y + 1) * cols == y * cols + cols) by (nonlinear_arith);
    assert((y - 1) * cols == y * cols - cols) by (nonlinear_arith);
}

/// A line feed, and ESC D, go down one row; ESC E goes to the start of the
/// next. At the bottom margin the cursor stays and the region moves up by one
/// row; on the last row below the region, or beyond it, nothing happens.
pub proof fn law_line_feed(t: Term, x: int, y: int)
    requires
        t.screen.wf(),
        0 <= x < t.screen.cols,
        0 <= y < t.screen.rows,
    ensures
        t.esc(0x44) == t.execute(0x0a),
        t.esc(0x45) == (Term {
            cursor: CursorState { col: 0, ..t.cursor },
            ..t
        }).execute(0x0a),
        ({
            let after = t.execute(0x0a);
            let scr = t.screen;
            &&& after.replies == t.replies
            &&& after.cursor == (CursorState { row: after.cursor.row, ..t.cursor })
            &&& t.cursor.row != scr.bottom ==> after.screen == scr && after.cursor.row == if t.cursor.row
                + 1 < scr.rows {
                t.cursor.row + 1
            } else {
                t.cursor.row as int
            }
            &&& t.cursor.row == scr.bottom ==> {
                &&& after.cursor.row == t.cursor.row
                &&& after.screen == (Screen {
                    cells: after.screen.cells,
                    history: after.screen.history,
                    log: after.screen.log,
                    ..scr
                })
                &&& after.screen.cells.len() == scr.cells.len()
                &&& !(scr.top <= y <= scr.bottom) ==> shown(after.screen, x, y) == shown(scr, x, y)
                &&& scr.top <= y < scr.bottom ==> shown(after.screen, x, y) == shown(scr, x, y + 1)
                &&& y == scr.bottom ==> is_clear(shown(after.screen, x, y))
            }
        }),
{
    lemma_scrolled(t.screen, x, y);
}

/// ESC M goes up one row. At the top margin the cursor stays and the region
/// moves down by one row. History is never touched.
pub proof fn law_reverse_index(t: Term, x: int, y: int)
    requires
        t.screen.wf(),
        0 <= x < t.screen.cols,
        0 <= y < t.screen.rows,
    ensures
        ({
            let after = t.esc(0x4d);
            let scr = t.screen;
            &&& t.cursor.row != scr.top ==> only_position(t, after) && after.cursor.col
                == t.cursor.col && after.cursor.row == if t.cursor.row > 0 {
                t.cursor.row - 1
            } else {
                0
            }
            &&& t.cursor.row == scr.top ==> {
                &&& only_cells(t, after)
                &&& !(scr.top <= y <= scr.bottom) ==> shown(after.screen, x, y) == shown(scr, x, y)
                &&& scr.top < y <= scr.bottom ==> shown(after.screen, x, y) == shown(scr, x, y - 1)
                &&& y == scr.top ==> is_clear(shown(after.screen, x, y))
            }
        }),
{
    lemma_scrolled(t.screen, x, y);
}

/// The line that leaves the top of the screen goes to the end of history and
/// of the log, cell by cell, and the oldest line goes once history is full.
/// That is so only on the primary screen, with the region covering all of it
/// and history wanted; otherwise history and log stay.
pub proof fn law_scrolled_line_is_kept(t: Term, x: int, i: int)
    requires
        t.screen.wf(),
        t.cursor.row == t.screen.bottom,
        t.screen.rows > 0,
        0 <= x < t.screen.cols,
    ensures
        ({
            let scr = t.screen;
            let after = t.execute(0x0a).screen;
            let kept = !scr.alt && scr.top == 0 && scr.bottom + 1 == scr.rows && scr.max_history
                > 0;
            &&& !kept ==> after.history == scr.history && after.log == scr.log
            &&& kept ==> {
                &&& after.log.len() == scr.log.len() + 1
                &&& after.log.drop_last() == scr.log
                &&& after.log.last() == after.history.last()
                &&& after.history.last().len() == scr.cols
                &&& after.history.last()[x] == shown(scr, x, 0)
                &&& scr.history.len() < scr.max_history ==> after.history.len()
                    == scr.history.len() + 1 && (0 <= i < scr.history.len() ==> after.history[i]
                    == scr.history[i])
                &&& scr.history.len() == scr.max_history ==> after.history.len()
                    == scr.history.len() && (0 <= i < scr.history.len() - 1 ==> after.history[i]
                    == scr.history[i + 1])
            }
        }),
{
    lemma_on_screen(t.screen, x, 0);
    let after = t.execute(0x0a).screen;
    if t.screen.feeds_history() {
        assert(after.log.drop_last() =~= t.screen.log);
    }
}

} // verus!
