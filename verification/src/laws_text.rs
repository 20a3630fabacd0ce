//! What is written where, what a view shows, and what a selection copies.

use vstd::prelude::*;

use crate::ansi::Term;
use crate::cell::Cell;
use crate::cursor::CursorState;
use crate::laws_edit::{is_clear, lemma_on_screen, lemma_reading_order, shown};
use crate::screen::Screen;
use crate::selection::{AbsCoord, Selection};

verus! {

// ---- Selections ----

/// The text of the selected positions among the first `n` of a row: each
/// character with its marks, right halves of wide ones left out.
pub open spec fn picked(scr: Screen, sel: Selection, cells: Seq<Cell>, r: usize, n: int) -> Seq<
    char,
>
    decreases n,
{
    if n <= 0 {
        Seq::empty()
    } else {
        let before = picked(scr, sel, cells, r, n - 1);
        let p = AbsCoord { abs_row: r, col: (n - 1) as usize };
        let cell = cells[n - 1];
        if crate::selection::between(sel.start(), p, sel.end()) && !cell.trailing() {
            before + scr.cluster(cell)
        } else {
            before
        }
    }
}

proof fn lemma_picked(scr: Screen, sel: Selection, cells: Seq<Cell>, r: usize, n: int)
    requires
        sel.start().abs_row <= r <= sel.end().abs_row,
        0 <= n <= cells.len(),
        n <= scr.cols,
    ensures
        ({
            let from = scr.select_from(sel, r as int);
            let to = crate::screen::least(scr.select_to(sel, r as int), n);
            picked(scr, sel, cells, r, n) == if from < to {
                scr.clusters(cells.subrange(from, to))
            } else {
                Seq::empty()
            }
        }),
    decreases n,
{
    if n > 0 {
        lemma_picked(scr, sel, cells, r, n - 1);
        let from = scr.select_from(sel, r as int);
        let to = scr.select_to(sel, r as int);
        let p = AbsCoord { abs_row: r, col: (n - 1) as usize };
        if from <= n - 1 < to {
            let part = cells.subrange(from, n);
            assert(crate::selection::between(sel.start(), p, sel.end()));
            assert(part.drop_last() =~= cells.subrange(from, n - 1));
            assert(part.last() == cells[n - 1]);
            if from == n - 1 {
                assert(part.drop_last() =~= Seq::empty());
            }
            assert(scr.clusters(part) == if part.last().trailing() {
                scr.clusters(part.drop_last())
            } else {
                scr.clusters(part.drop_last()) + scr.cluster(part.last())
            });
        } else {
            assert(!crate::selection::between(sel.start(), p, sel.end()));
        }
    }
}

/// What is copied of a row is the text of exactly those of its positions that
/// the selection contains, without trailing spaces. Of a row between the first
/// and the last of the selection that is the whole row.
pub proof fn law_selected_row(scr: Screen, sel: Selection, r: usize)
    requires
        scr.wf(),
        scr.selectable(sel),
        sel.start().abs_row <= r <= sel.end().abs_row,
        scr.line(r as int) is Some,
    ensures
        ({
            let cells = scr.line(r as int)->0;
            let width = if cells.len() < scr.cols {
                cells.len() as int
            } else {
                scr.cols as int
            };
            &&& scr.selected_in_row(sel, r as int) == crate::text::trim_end_spaces(
                picked(scr, sel, cells, r, width),
            )
            &&& sel.start().abs_row < r < sel.end().abs_row ==> {
                &&& width == scr.cols
                &&& scr.selected_in_row(sel, r as int) == crate::text::trim_end_spaces(
                    scr.clusters(cells.take(scr.cols as int)),
                )
            }
        }),
{
    let cells = scr.line(r as int)->0;
    law_rows_of_a_selection(scr, sel, r as int);
    if r < scr.history.len() {
        assert(scr.history[r as int] == cells);
    }
    let width = if cells.len() < scr.cols {
        cells.len() as int
    } else {
        scr.cols as int
    };
    lemma_picked(scr, sel, cells, r, width);
    if sel.start().abs_row < r < sel.end().abs_row {
        assert(cells.subrange(0, scr.cols as int) =~= cells.take(scr.cols as int));
        if scr.cols == 0 {
            assert(cells.take(0) =~= Seq::empty());
        }
    }
}

/// A row that is not there contributes nothing, and rows on the screen have
/// its width.
pub proof fn law_rows_of_a_selection(scr: Screen, sel: Selection, r: int)
    requires
        scr.wf(),
        0 <= r,
    ensures
        scr.line(r) is Some <==> r < scr.history.len() + scr.rows,
        r >= scr.history.len() + scr.rows ==> scr.selected_in_row(sel, r).len() == 0,
        scr.history.len() <= r < scr.history.len() + scr.rows ==> scr.line(r)->0.len() == scr.cols,
{
    if scr.history.len() <= r < scr.history.len() + scr.rows {
        let y = r - scr.history.len();
        if scr.cols > 0 {
            lemma_on_screen(scr, 0, y);
        } else {
            assert(y * scr.cols == 0) by (nonlinear_arith)
                requires
                    scr.cols == 0,
            ;
            assert(scr.cols * scr.rows == 0) by (nonlinear_arith)
                requires
                    scr.cols == 0,
            ;
        }
    }
}

/// Every selection can be copied while each line of history is as wide as the
/// screen.
pub proof fn law_wide_lines_can_be_copied(scr: Screen, sel: Selection)
    requires
        forall|r: int| 0 <= r < scr.history.len() ==> (#[trigger] scr.history[r]).len() >= scr.cols,
    ensures
        scr.selectable(sel),
{
}

/// Lines joined by line feeds.
pub open spec fn joined(lines: Seq<Seq<char>>) -> Seq<char>
    decreases lines.len(),
{
    if lines.len() == 0 {
        Seq::empty()
    } else if lines.len() == 1 {
        lines[0]
    } else {
        joined(lines.drop_last()) + seq!['\n'] + lines.last()
    }
}

proof fn lemma_joined_front(line: Seq<char>, rest: Seq<Seq<char>>)
    requires
        rest.len() > 0,
    ensures
        joined(seq![line] + rest) == line.push('\n') + joined(rest),
    decreases rest.len(),
{
    let all = seq![line] + rest;
    assert(all.last() == rest.last());
    reveal_with_fuel(joined, 3);
    if rest.len() == 1 {
        assert(all.drop_last() =~= seq![line]);
        assert(joined(all) =~= line.push('\n') + rest[0]);
    } else {
        assert(all.drop_last() =~= seq![line] + rest.drop_last());
        lemma_joined_front(line, rest.drop_last());
        assert(joined(all) =~= line.push('\n') + joined(rest));
    }
}

proof fn lemma_selected_from(scr: Screen, sel: Selection, r: int)
    requires
        sel.start().abs_row <= r <= sel.end().abs_row,
    ensures
        scr.selected_from(sel, r) == joined(
            Seq::new(
                (sel.end().abs_row - r + 1) as nat,
                |i: int| scr.selected_in_row(sel, r + i),
            ),
        ),
    decreases sel.end().abs_row - r,
{
    let lines = Seq::new(
        (sel.end().abs_row - r + 1) as nat,
        |i: int| scr.selected_in_row(sel, r + i),
    );
    if r < sel.end().abs_row {
        lemma_selected_from(scr, sel, r + 1);
        let rest = Seq::new(
            (sel.end().abs_row - r) as nat,
            |i: int| scr.selected_in_row(sel, r + 1 + i),
        );
        assert(lines =~= seq![scr.selected_in_row(sel, r)] + rest);
        lemma_joined_front(scr.selected_in_row(sel, r), rest);
    }
}

/// The text of a selection is the text of its rows, from the first to the last
/// that it touches, joined by line feeds.
pub proof fn law_selection_text(scr: Screen, sel: Selection)
    ensures
        scr.selected(sel) == joined(
            Seq::new(
                (sel.end().abs_row - sel.start().abs_row + 1) as nat,
                |i: int| scr.selected_in_row(sel, sel.start().abs_row + i),
            ),
        ),
        sel.start().abs_row <= sel.anchor.abs_row <= sel.end().abs_row,
        sel.start().abs_row <= sel.head.abs_row <= sel.end().abs_row,
{
    lemma_selected_from(scr, sel, sel.start().abs_row as int);
}

/// The text of a run of cells is that of its parts, one after the other; a
/// right half has none, and a character without marks is itself.
pub proof fn law_cell_text(scr: Screen, cells: Seq<Cell>, cell: Cell)
    ensures
        scr.clusters(Seq::empty()).len() == 0,
        scr.clusters(cells.push(cell)) == if cell.flags & 16 != 0 {
            scr.clusters(cells)
        } else {
            scr.clusters(cells) + scr.cluster(cell)
        },
        scr.cluster(cell)[0] == cell.c,
        cell.combining_id == 0 || cell.combining_id >= scr.marks.len() ==> scr.cluster(cell)
            == seq![cell.c],
        0 < cell.combining_id < scr.marks.len() ==> scr.cluster(cell) == seq![cell.c]
            + scr.marks[cell.combining_id as int],
{
    assert(cells.push(cell).drop_last() =~= cells);
    assert(seq![cell.c] + Seq::<char>::empty() =~= seq![cell.c]);
}

// ---- Rows and views ----

/// Rows count from the oldest line of history on; below history come the rows
/// of the screen. The text of a row is the characters of its cells.
pub proof fn law_absolute_rows(scr: Screen, r: int, x: int, y: int)
    requires
        scr.wf(),
        0 <= x < scr.cols,
        0 <= y < scr.rows,
    ensures
        0 <= r < scr.history.len() ==> scr.line(r) == Some(scr.history[r]),
        0 <= r < scr.history.len() && x < scr.history[r].len() ==> scr.text_of_row(r).len()
            == scr.history[r].len() && scr.text_of_row(r)[x] == scr.history[r][x].c,
        ({
            let here = scr.history.len() + y;
            &&& scr.line(here) is Some
            &&& scr.line(here)->0.len() == scr.cols
            &&& scr.line(here)->0[x] == shown(scr, x, y)
            &&& scr.text_of_row(here).len() == scr.cols
            &&& scr.text_of_row(here)[x] == shown(scr, x, y).c
        }),
        r >= scr.history.len() + scr.rows ==> scr.text_of_row(r).len() == 0,
{
    lemma_on_screen(scr, x, y);
}

/// A view scrolled up by `k` rows shows the last `k` lines of history above
/// the first rows of the screen.
pub proof fn law_scrolled_view(scr: Screen, x: int, y: int)
    requires
        scr.wf(),
        scr.view_ok(),
        0 <= x < scr.cols,
        0 <= y < scr.rows,
    ensures
        scr.view_top() + scr.view_offset == scr.history.len(),
        y < scr.view_offset ==> scr.displayed(y) == scr.history[scr.history.len()
            - scr.view_offset + y],
        y >= scr.view_offset ==> scr.displayed(y).len() == scr.cols && scr.displayed(y)[x]
            == shown(scr, x, y - scr.view_offset),
        scr.displayed(scr.rows as int).len() == 0,
{
    lemma_on_screen(scr, x, y);
    if y >= scr.view_offset {
        lemma_on_screen(scr, x, y - scr.view_offset);
    }
}

/// Scrolling the view moves it by so many lines, up for more, and stops at
/// both ends of history; the alternate screen does not scroll. Nothing else
/// changes.
pub proof fn law_view_scrolls(scr: Screen, delta: int)
    requires
        scr.wf(),
        scr.view_ok(),
    ensures
        ({
            let after = scr.scrolled(delta);
            let want = scr.view_offset + delta;
            &&& after == (Screen { view_offset: after.view_offset, ..scr })
            &&& scr.alt ==> after == scr
            &&& !scr.alt && 0 <= want <= scr.history.len() ==> after.view_offset == want
            &&& !scr.alt && want < 0 ==> after.view_offset == 0
            &&& !scr.alt && want > scr.history.len() ==> after.view_offset == scr.history.len()
        }),
{
}

/// A remembered line goes to the end of history, cut or filled with blanks to
/// the width of the screen; the oldest line goes once history is full. Where
/// no history is wanted, none is kept.
pub proof fn law_remembered_line(scr: Screen, line: Seq<Cell>, x: int, i: int)
    requires
        scr.wf(),
        0 <= x < scr.cols,
    ensures
        ({
            let after = scr.remember(line);
            &&& after == (Screen { history: after.history, ..scr })
            &&& scr.max_history == 0 ==> after == scr
            &&& scr.max_history > 0 ==> {
                &&& after.history.last().len() == scr.cols
                &&& x < line.len() ==> after.history.last()[x] == line[x]
                &&& x >= line.len() ==> is_clear(after.history.last()[x])
                &&& scr.history.len() < scr.max_history ==> after.history.len()
                    == scr.history.len() + 1 && (0 <= i < scr.history.len() ==> after.history[i]
                    == scr.history[i])
                &&& scr.history.len() == scr.max_history ==> after.history.len()
                    == scr.history.len() && (0 <= i < scr.history.len() - 1 ==> after.history[i]
                    == scr.history[i + 1])
            }
        }),
{
}

// ---- Writing ----

/// A printed character takes the pen's colours and attributes, goes where the
/// cursor stands and moves it on by one column. No other cell changes.
pub proof fn law_print_in_row(t: Term, c: char, x: int, y: int)
    requires
        t.screen.wf(),
        t.cursor.row < t.screen.rows,
        t.cursor.col < t.screen.cols,
        0 <= x < t.screen.cols,
        0 <= y < t.screen.rows,
    ensures
        ({
            let after = t.print(c);
            let (row, col) = (t.cursor.row, t.cursor.col);
            &&& after.replies == t.replies
            &&& after.cursor == (CursorState { col: after.cursor.col, ..t.cursor })
            &&& after.cursor.col == col + 1
            &&& after.screen == (Screen {
                cells: after.screen.cells,
                links: after.screen.links,
                ..t.screen
            })
            &&& after.screen.cells.len() == t.screen.cells.len()
            &&& shown(after.screen, x, y) == if x == col && y == row {
                (Cell { c, ..t.cursor.pen })
            } else {
                shown(t.screen, x, y)
            }
        }),
{
    lemma_on_screen(t.screen, x, y);
    lemma_on_screen(t.screen, t.cursor.col as int, t.cursor.row as int);
    lemma_reading_order(
        t.screen.cols as int,
        x,
        y,
        t.cursor.col as int,
        t.cursor.row as int,
    );
}

/// Past the right edge a character goes, with wrapping on, to the first column
/// of the next line, exactly as if a carriage return and a line feed had come
/// first; with wrapping off, it replaces what is in the last column.
pub proof fn law_print_past_the_edge(t: Term, c: char)
    requires
        t.screen.wf(),
        t.can_print(),
        t.cursor.col >= t.screen.cols,
    ensures
        t.screen.autowrap ==> t.print(c) == t.execute(0x0d).execute(0x0a).print(c),
        !t.screen.autowrap ==> t.print(c) == (Term {
            cursor: CursorState { col: (t.screen.cols - 1) as usize, ..t.cursor },
            ..t
        }).print(c),
{
    let cr = t.execute(0x0d);
    assert(cr.cursor == t.cursor.at(t.cursor.row as int, 0));
    assert(t.print(c) =~= if t.screen.autowrap {
        cr.execute(0x0a).print(c)
    } else {
        (Term {
            cursor: CursorState { col: (t.screen.cols - 1) as usize, ..t.cursor },
            ..t
        }).print(c)
    });
}

/// What is written while a hyperlink is in force is linked to it, under its
/// absolute row and column, on the primary screen only; other links stay.
pub proof fn law_print_links(t: Term, c: char, at: (usize, usize))
    requires
        t.screen.wf(),
        t.cursor.row < t.screen.rows,
        t.cursor.col < t.screen.cols,
    ensures
        ({
            let links = t.print(c).screen.links;
            let here = at.0 == t.screen.history.len() + t.cursor.row && at.1 == t.cursor.col;
            let linked = here && t.screen.active_link is Some && !t.screen.alt;
            &&& linked ==> links.contains_key(at) && Some(links[at]) == t.screen.active_link
            &&& !linked ==> links.contains_key(at) == t.screen.links.contains_key(at)
                && links[at] == t.screen.links[at]
        }),
{
}

/// A double-width character takes two cells of one row, the first holding it
/// and the second marked as its right half, and moves the cursor on by two.
/// No other cell changes.
pub proof fn law_wide_in_row(scr: Screen, cur: CursorState, c: char, x: int, y: int)
    requires
        scr.wf(),
        cur.row < scr.rows,
        cur.col + 2 <= scr.cols,
        0 <= x < scr.cols,
        0 <= y < scr.rows,
    ensures
        ({
            let (after, next) = scr.put_wide(cur, c);
            let cell = shown(after, x, y);
            &&& next == (CursorState { col: next.col, ..cur })
            &&& next.col == cur.col + 2
            &&& after == (Screen { cells: after.cells, links: after.links, ..scr })
            &&& after.cells.len() == scr.cells.len()
            &&& x == cur.col && y == cur.row ==> cell == (Cell {
                c,
                flags: cur.pen.flags | 8,
                ..cur.pen
            })
            &&& x == cur.col + 1 && y == cur.row ==> cell == (Cell {
                c: ' ',
                flags: cur.pen.flags | 16,
                ..cur.pen
            })
            &&& !(y == cur.row && cur.col <= x < cur.col + 2) ==> cell == shown(scr, x, y)
        }),
{
    let cols = scr.cols as int;
    lemma_on_screen(scr, x, y);
    lemma_on_screen(scr, cur.col as int, cur.row as int);
    lemma_on_screen(scr, cur.col + 1, cur.row as int);
    lemma_reading_order(cols, x, y, cur.col as int, cur.row as int);
    lemma_reading_order(cols, x, y, cur.col + 1, cur.row as int);
}

/// A double-width character is linked by its first cell alone.
pub proof fn law_wide_links(scr: Screen, cur: CursorState, c: char, at: (usize, usize))
    requires
        scr.wf(),
        cur.row < scr.rows,
        cur.col + 2 <= scr.cols,
    ensures
        ({
            let links = scr.put_wide(cur, c).0.links;
            let here = at.0 == scr.history.len() + cur.row && at.1 == cur.col;
            let linked = here && scr.active_link is Some && !scr.alt;
            &&& linked ==> links.contains_key(at) && Some(links[at]) == scr.active_link
            &&& !linked ==> links.contains_key(at) == scr.links.contains_key(at) && links[at]
                == scr.links[at]
        }),
{
}

/// A double-width character that does not fit the rest of its row goes to the
/// next line with wrapping on, and to the last two columns with wrapping off.
/// On a screen of one column with wrapping on it is not written.
pub proof fn law_wide_past_the_edge(scr: Screen, cur: CursorState, c: char)
    requires
        scr.wf(),
        cur.row < scr.rows,
        cur.col + 2 > scr.cols,
    ensures
        ({
            let (fed, down) = scr.line_feed(CursorState { col: 0, ..cur });
            &&& scr.autowrap && scr.cols >= 2 ==> scr.put_wide(cur, c) == fed.put_wide(down, c)
            &&& scr.autowrap && scr.cols < 2 ==> scr.put_wide(cur, c) == (fed, down)
            &&& !scr.autowrap && scr.cols >= 2 ==> scr.put_wide(cur, c) == scr.put_wide(
                CursorState { col: (scr.cols - 2) as usize, ..cur },
                c,
            )
        }),
{
    assert(cur.at(cur.row as int, 0) == (CursorState { col: 0, ..cur }));
}

/// The cell that a mark attaches to is the nearest one left of the cursor that
/// is no right half, or the first of the row.
pub proof fn law_mark_finds_its_character(cells: Seq<Cell>, base: int, col: int, k: int)
    requires
        0 <= col,
    ensures
        ({
            let at = crate::screen::attach_col(cells, base, col);
            &&& 0 <= at <= col
            &&& at < k <= col ==> cells[base + k].trailing()
            &&& at > 0 ==> !cells[base + at].trailing()
        }),
    decreases col,
{
    if col > 0 && cells[base + col].trailing() {
        law_mark_finds_its_character(cells, base, col - 1, k);
    }
}

/// Attaching a mark changes one cell's marks and nothing else of the screen;
/// in the first column it does nothing.
pub proof fn law_mark_changes_one_cell(scr: Screen, cur: CursorState, ch: char, i: int)
    requires
        scr.pool_ok(),
        cur.row < scr.rows,
        cur.col <= scr.cols,
        scr.wf(),
        0 <= i < scr.cells.len(),
    ensures
        ({
            let after = scr.attach(cur, ch);
            let at = cur.row * scr.cols + crate::screen::attach_col(
                scr.cells,
                cur.row * scr.cols,
                cur.col - 1,
            );
            &&& cur.col == 0 ==> after == scr
            &&& after == (Screen { cells: after.cells, marks: after.marks, ..scr })
            &&& after.cells.len() == scr.cells.len()
            &&& cur.col > 0 && i == at ==> after.cells[i] == (Cell {
                combining_id: after.cells[i].combining_id,
                ..scr.cells[i]
            })
            &&& cur.col == 0 || i != at ==> after.cells[i] == scr.cells[i]
        }),
{
    if cur.col > 0 {
        let base = cur.row * scr.cols;
        law_mark_finds_its_character(scr.cells, base, cur.col - 1, 0);
        lemma_on_screen(
            scr,
            crate::screen::attach_col(scr.cells, base, cur.col - 1),
            cur.row as int,
        );
    }
}

// ---- Resizing ----

/// At another size, a cell within both sizes stays in its column and row and
/// one that is new is clear. The whole screen scrolls, the stashed primary is
/// dropped, and history stays. The same size changes nothing.
pub proof fn law_resized(scr: Screen, cols: usize, rows: usize, cur: CursorState, x: int, y: int)
    requires
        scr.wf(),
        scr.view_ok(),
        0 <= x < cols,
        0 <= y < rows,
    ensures
        ({
            let after = scr.resized(cols, rows);
            let moved = scr.resized_cursor(cols, rows, cur);
            &&& cols == scr.cols && rows == scr.rows ==> after == scr && moved == cur
            &&& after.cols == cols && after.rows == rows
            &&& after.cells.len() == cols * rows
            &&& x < scr.cols && y < scr.rows ==> shown(after, x, y) == shown(scr, x, y)
            &&& !(x < scr.cols && y < scr.rows) ==> is_clear(shown(after, x, y))
            &&& !(cols == scr.cols && rows == scr.rows) ==> {
                &&& after == (Screen {
                    cols,
                    rows,
                    cells: after.cells,
                    top: 0,
                    bottom: (rows - 1) as usize,
                    stash: None,
                    ..scr
                })
                &&& moved == (CursorState { row: moved.row, col: moved.col, ..cur })
                &&& cur.row < rows ==> moved.row == cur.row
                &&& cur.row >= rows ==> moved.row == rows - 1
                &&& cur.col < cols ==> moved.col == cur.col
                &&& cur.col >= cols ==> moved.col == cols - 1
            }
        }),
{
    let after = scr.resized(cols, rows);
    if !(cols == scr.cols && rows == scr.rows) {
        let i = y * cols + x;
        assert(0 <= y * cols) by (nonlinear_arith)
            requires
                0 <= y,
                0 <= cols,
        ;
        assert(y * cols + cols <= cols * rows) by (nonlinear_arith)
            requires
                0 <= y < rows,
                0 <= cols,
        ;
        vstd::arithmetic::div_mod::lemma_fundamental_div_mod_converse(i, cols as int, y, x);
    }
}

} // verus!
