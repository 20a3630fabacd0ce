//! Where the cursor goes, which modes change, and what is answered.

use vstd::prelude::*;

use crate::ansi::Term;
use crate::cell::Cell;
use crate::cursor::{CursorState, CursorStyle};
use crate::event::MouseMode;
use crate::laws_edit::{counts, is_clear, only_position};
use crate::screen::Screen;

verus! {

/// Does a parameter group `i` hold a value?
pub open spec fn given(params: Seq<Seq<u16>>, i: int) -> bool {
    0 <= i < params.len() && params[i].len() > 0
}

/// Nothing differs but where the cursor stands, and that is here.
pub open spec fn goes_to(before: Term, after: Term, row: int, col: int) -> bool {
    &&& only_position(before, after)
    &&& after.cursor.row == row
    &&& after.cursor.col == col
}

/// `v` if it lies on a side of so many columns or rows, else the end of the
/// side that it lies beyond.
pub open spec fn kept(v: int, side: int) -> int {
    if v < 0 {
        0
    } else if v < side {
        v
    } else {
        side - 1
    }
}

/// CSI A goes up, B down, C right and D left by as many rows or columns as are
/// named, stopping at the edge of the screen. The other coordinate stays, but
/// that a cursor beyond the edge comes back to it, and so does everything
/// else.
pub proof fn law_cursor_moves(
    t: Term,
    params: Seq<Seq<u16>>,
    intermediates: Seq<u8>,
    n: int,
)
    requires
        t.bounded(),
        counts(params, n),
        0 < t.screen.rows,
        0 < t.screen.cols,
    ensures
        ({
            let (rows, cols) = (t.screen.rows as int, t.screen.cols as int);
            let (row, col) = (t.cursor.row as int, t.cursor.col as int);
            let up = t.csi(params, intermediates, 'A');
            let down = t.csi(params, intermediates, 'B');
            let right = t.csi(params, intermediates, 'C');
            let left = t.csi(params, intermediates, 'D');
            &&& goes_to(t, up, kept(row - n, rows), kept(col, cols))
            &&& goes_to(t, down, kept(row + n, rows), kept(col, cols))
            &&& goes_to(t, right, kept(row, rows), kept(col + n, cols))
            &&& goes_to(t, left, kept(row, rows), kept(col - n, cols))
        }),
{
}

/// On the screen that is: up to row `r - n` or the first, down to row `r + n`
/// or the last, and columns likewise, the other coordinate unchanged.
pub proof fn law_cursor_moves_on_screen(
    t: Term,
    params: Seq<Seq<u16>>,
    intermediates: Seq<u8>,
    n: int,
)
    requires
        t.bounded(),
        counts(params, n),
        t.cursor.row < t.screen.rows,
        t.cursor.col < t.screen.cols,
    ensures
        ({
            let (row, col) = (t.cursor.row as int, t.cursor.col as int);
            let up = t.csi(params, intermediates, 'A');
            let down = t.csi(params, intermediates, 'B');
            let right = t.csi(params, intermediates, 'C');
            let left = t.csi(params, intermediates, 'D');
            &&& n <= row ==> goes_to(t, up, row - n, col)
            &&& n > row ==> goes_to(t, up, 0, col)
            &&& row + n < t.screen.rows ==> goes_to(t, down, row + n, col)
            &&& row + n >= t.screen.rows ==> goes_to(t, down, t.screen.rows - 1, col)
            &&& col + n < t.screen.cols ==> goes_to(t, right, row, col + n)
            &&& col + n >= t.screen.cols ==> goes_to(t, right, row, t.screen.cols - 1)
            &&& n <= col ==> goes_to(t, left, row, col - n)
            &&& n > col ==> goes_to(t, left, row, 0)
        }),
{
    law_cursor_moves(t, params, intermediates, n);
}

/// Going up and down again by the same count, or left and right, leads back,
/// as long as no edge is in the way.
pub proof fn law_moves_undo_each_other(
    t: Term,
    params: Seq<Seq<u16>>,
    intermediates: Seq<u8>,
    n: int,
)
    requires
        t.bounded(),
        counts(params, n),
        t.cursor.row < t.screen.rows,
        t.cursor.col < t.screen.cols,
    ensures
        n <= t.cursor.row ==> t.csi(params, intermediates, 'A').csi(params, intermediates, 'B')
            == t,
        n <= t.cursor.col ==> t.csi(params, intermediates, 'D').csi(params, intermediates, 'C')
            == t,
{
}

/// CSI H and CSI f name row and column counting from one; what is absent or
/// zero means the first. The position is taken as it is.
pub proof fn law_cursor_position(t: Term, params: Seq<Seq<u16>>, intermediates: Seq<u8>)
    ensures
        t.csi(params, intermediates, 'f') == t.csi(params, intermediates, 'H'),
        ({
            let after = t.csi(params, intermediates, 'H');
            &&& only_position(t, after)
            &&& given(params, 0) && params[0][0] > 0 ==> after.cursor.row + 1 == params[0][0]
            &&& !(given(params, 0) && params[0][0] > 0) ==> after.cursor.row == 0
            &&& given(params, 1) && params[1][0] > 0 ==> after.cursor.col + 1 == params[1][0]
            &&& !(given(params, 1) && params[1][0] > 0) ==> after.cursor.col == 0
        }),
{
}

/// CSI G and CSI ` name a column, CSI d a row, counting from one and kept on
/// the screen; the other coordinate stays.
pub proof fn law_cursor_column_and_row(
    t: Term,
    params: Seq<Seq<u16>>,
    intermediates: Seq<u8>,
    n: int,
)
    requires
        counts(params, n),
        0 < t.screen.cols,
        0 < t.screen.rows,
    ensures
        t.csi(params, intermediates, '`') == t.csi(params, intermediates, 'G'),
        ({
            let across = t.csi(params, intermediates, 'G');
            let down = t.csi(params, intermediates, 'd');
            &&& n <= t.screen.cols ==> goes_to(t, across, t.cursor.row as int, n - 1)
            &&& n > t.screen.cols ==> goes_to(t, across, t.cursor.row as int, t.screen.cols - 1)
            &&& n <= t.screen.rows ==> goes_to(t, down, n - 1, t.cursor.col as int)
            &&& n > t.screen.rows ==> goes_to(t, down, t.screen.rows - 1, t.cursor.col as int)
        }),
{
}

/// Carriage return goes to the first column, backspace one to the left as far
/// as there is one, and a tab to the next column that is a multiple of eight,
/// or to the last column. The bell is counted. No other control does anything,
/// the line feed apart.
pub proof fn law_controls(t: Term, byte: u8)
    requires
        0 < t.screen.cols,
        t.cursor.col <= isize::MAX / 2,
    ensures
        goes_to(t, t.execute(0x0d), t.cursor.row as int, 0),
        goes_to(
            t,
            t.execute(0x08),
            t.cursor.row as int,
            if t.cursor.col > 0 {
                t.cursor.col - 1
            } else {
                0
            },
        ),
        ({
            let tab = t.execute(0x09);
            &&& only_position(t, tab)
            &&& tab.cursor.row == t.cursor.row
            &&& tab.cursor.col < t.screen.cols
            &&& tab.cursor.col == t.screen.cols - 1 || (tab.cursor.col % 8 == 0 && t.cursor.col
                < tab.cursor.col <= t.cursor.col + 8)
            &&& tab.cursor.col == t.screen.cols - 1 ==> t.screen.cols - 1 <= t.cursor.col + 8
        }),
        t.execute(0x07) == (Term {
            screen: Screen { bell_seq: t.execute(0x07).screen.bell_seq, ..t.screen },
            ..t
        }),
        t.screen.bell_seq < u64::MAX ==> t.execute(0x07).screen.bell_seq == t.screen.bell_seq + 1,
        t.screen.bell_seq == u64::MAX ==> t.execute(0x07).screen.bell_seq == 0,
        byte != 0x07 && byte != 0x08 && byte != 0x09 && byte != 0x0a && byte != 0x0d ==> t.execute(
            byte,
        ) == t,
{
}

/// A tab stop lies between the cursor and the place a tab leads to only if it
/// is that place.
pub proof fn law_tab_skips_no_stop(t: Term, stop: int)
    requires
        0 < t.screen.cols,
        t.cursor.col <= isize::MAX / 2,
        stop % 8 == 0,
        t.cursor.col < stop < t.screen.cols,
    ensures
        t.execute(0x09).cursor.col <= stop,
{
}

/// ESC 7 and CSI s remember position and pen, ESC 8 and CSI u bring them back;
/// with nothing remembered they do nothing. Other escapes do nothing.
pub proof fn law_save_and_restore(
    t: Term,
    params: Seq<Seq<u16>>,
    row: usize,
    col: usize,
    pen: Cell,
    byte: u8,
)
    ensures
        t.csi(params, Seq::empty(), 's') == t.esc(0x37),
        t.csi(params, Seq::empty(), 'u') == t.esc(0x38),
        t.esc(0x37) == (Term {
            cursor: CursorState { saved: t.esc(0x37).cursor.saved, ..t.cursor },
            ..t
        }),
        t.cursor.saved is None ==> t.esc(0x38) == t,
        ({
            let saved = t.esc(0x37);
            let away = Term { cursor: CursorState { row, col, pen, ..saved.cursor }, ..saved };
            away.esc(0x38) == saved
        }),
        byte != 0x37 && byte != 0x38 && byte != 0x44 && byte != 0x45 && byte != 0x4d ==> t.esc(byte)
            == t,
{
    let saved = t.esc(0x37);
    let away = Term { cursor: CursorState { row, col, pen, ..saved.cursor }, ..saved };
    assert(away.esc(0x38).cursor == saved.cursor);
}

/// DECSTBM names the first and the last row of the scroll region, counting
/// from one, and homes the cursor. Without parameters, and where fewer than
/// two rows would remain, the region is the whole screen.
pub proof fn law_scroll_region(t: Term, params: Seq<Seq<u16>>, first: int, last: int)
    requires
        t.screen.wf(),
        t.screen.rows > 0,
        first == if given(params, 0) && params[0][0] > 0 {
            params[0][0] as int
        } else {
            1
        },
        last == if given(params, 1) && params[1][0] > 0 && params[1][0] < t.screen.rows {
            params[1][0] as int
        } else {
            t.screen.rows as int
        },
    ensures
        ({
            let after = t.csi(params, Seq::empty(), 'r');
            &&& after.replies == t.replies
            &&& after.cursor == (CursorState { row: 0, col: 0, ..t.cursor })
            &&& after.screen == (Screen {
                top: after.screen.top,
                bottom: after.screen.bottom,
                ..t.screen
            })
            &&& first < last ==> after.screen.top + 1 == first && after.screen.bottom + 1 == last
            &&& first >= last ==> after.screen.top == 0 && after.screen.bottom + 1 == t.screen.rows
        }),
{
}

/// What a cursor position report looks like: `ESC [ row ; column R`, where row
/// and column are numbers counting from one.
pub open spec fn is_position_report(bytes: Seq<u8>, row: int, col: int) -> bool {
    exists|k: int|
        #![trigger bytes[k]]
        {
            &&& 3 <= k < bytes.len() - 2
            &&& bytes[0] == 0x1b && bytes[1] == 0x5b
            &&& bytes[k] == 0x3b
            &&& bytes.last() == 0x52
            &&& crate::text::number(bytes.subrange(2, k)) == Some(row + 1)
            &&& crate::text::number(bytes.subrange(k + 1, bytes.len() - 1)) == Some(col + 1)
        }
}

/// Queries are answered and change nothing else: CSI c with the identity of a
/// VT102, CSI 5 n with "ready", CSI 6 n with the cursor's place.
pub proof fn law_queries_are_answered(t: Term, params: Seq<Seq<u16>>, intermediates: Seq<u8>)
    ensures
        ({
            let who = t.csi(params, Seq::empty(), 'c');
            let how = t.csi(params, intermediates, 'n');
            &&& who == (Term { replies: who.replies, ..t })
            &&& who.replies == t.replies + seq![0x1bu8, 0x5bu8, 0x3fu8, 0x36u8, 0x63u8]
            &&& how == (Term { replies: how.replies, ..t })
            &&& given(params, 0) && params[0][0] == 5 ==> how.replies == t.replies + seq![
                0x1bu8,
                0x5bu8,
                0x30u8,
                0x6eu8,
            ]
            &&& given(params, 0) && params[0][0] == 6 ==> {
                &&& how.replies.len() >= t.replies.len()
                &&& how.replies.take(t.replies.len() as int) == t.replies
                &&& is_position_report(
                    how.replies.skip(t.replies.len() as int),
                    t.cursor.row as int,
                    t.cursor.col as int,
                )
            }
            &&& !(given(params, 0) && (params[0][0] == 5 || params[0][0] == 6)) ==> how == t
        }),
{
    let how = t.csi(params, intermediates, 'n');
    if given(params, 0) && params[0][0] == 6 {
        let row = crate::text::decimal((t.cursor.row + 1) as nat);
        let col = crate::text::decimal((t.cursor.col + 1) as nat);
        crate::text::law_decimal((t.cursor.row + 1) as nat);
        crate::text::law_decimal((t.cursor.col + 1) as nat);
        let report = how.replies.skip(t.replies.len() as int);
        assert(report =~= seq![0x1bu8, 0x5bu8] + row + seq![0x3bu8] + col + seq![0x52u8]);
        let k = 2 + row.len() as int;
        assert(report.subrange(2, k) =~= row);
        assert(report.subrange(k + 1, report.len() - 1) =~= col);
        assert(report[k] == 0x3b);
        assert(how.replies.take(t.replies.len() as int) =~= t.replies);
    }
}

/// Each DEC private mode changes its own switch and nothing else; a mode that
/// is not known changes nothing.
pub proof fn law_modes(t: Term, n: u16, set: bool)
    ensures
        t.mode(7, set) == (Term { screen: Screen { autowrap: set, ..t.screen }, ..t }),
        t.mode(25, set) == (Term { cursor: CursorState { visible: set, ..t.cursor }, ..t }),
        t.mode(2004, set) == (Term { screen: Screen { bracketed_paste: set, ..t.screen }, ..t }),
        ({
            let m = t.screen.mouse_mode;
            let (a, b, c) = (
                t.mode(1000, set).screen.mouse_mode,
                t.mode(1002, set).screen.mouse_mode,
                t.mode(1006, set).screen.mouse_mode,
            );
            &&& a.button == set && a.drag == m.drag && a.sgr_encoded == m.sgr_encoded
            &&& b.drag == set && b.button == m.button && b.sgr_encoded == m.sgr_encoded
            &&& c.sgr_encoded == set && c.button == m.button && c.drag == m.drag
        }),
        n == 1000 || n == 1002 || n == 1006 ==> t.mode(n, set) == (Term {
            screen: Screen { mouse_mode: t.mode(n, set).screen.mouse_mode, ..t.screen },
            ..t
        }),
        t.mode(1047, set) == t.mode(47, set),
        t.mode(1049, true) == t.esc(0x37).mode(47, true),
        t.mode(1049, false) == t.mode(47, false).esc(0x38),
        n != 7 && n != 25 && n != 47 && n != 1000 && n != 1002 && n != 1006 && n != 1047 && n
            != 1049 && n != 2004 ==> t.mode(n, set) == t,
{
}

/// CSI ? h sets and CSI ? l resets the modes named, one after the other. The
/// same letters without the question mark do nothing.
pub proof fn law_mode_sequences(
    t: Term,
    params: Seq<Seq<u16>>,
    intermediates: Seq<u8>,
    group: Seq<u16>,
)
    requires
        intermediates.len() > 0 && intermediates[0] == 0x3f,
    ensures
        ({
            let n = if group.len() > 0 {
                group[0]
            } else {
                0
            };
            let more = params.push(group);
            &&& t.csi(more, intermediates, 'h') == t.csi(params, intermediates, 'h').mode(n, true)
            &&& t.csi(more, intermediates, 'l') == t.csi(params, intermediates, 'l').mode(n, false)
        }),
        t.csi(Seq::empty(), intermediates, 'h') == t,
        t.csi(Seq::empty(), intermediates, 'l') == t,
        t.csi(params, Seq::empty(), 'h') == t,
        t.csi(params, Seq::empty(), 'l') == t,
{
    lemma_modes_push(t, params, 0, group, true);
    lemma_modes_push(t, params, 0, group, false);
}

proof fn lemma_modes_push(
    t: Term,
    params: Seq<Seq<u16>>,
    i: int,
    group: Seq<u16>,
    set: bool,
)
    requires
        0 <= i <= params.len(),
    ensures
        t.modes_from(params.push(group), i, set) == t.modes_from(params, i, set).mode(
            if group.len() > 0 {
                group[0]
            } else {
                0
            },
            set,
        ),
    decreases params.len() - i,
{
    let more = params.push(group);
    reveal_with_fuel(Term::modes_from, 2);
    if i < params.len() {
        assert(more[i] == params[i]);
        let next = t.mode(crate::params::param_or(params, i, 0), set);
        lemma_modes_push(next, params, i + 1, group, set);
    } else {
        assert(more[i] == group);
    }
}

/// The alternate screen starts clear, with the whole of it scrolling and the
/// view at the bottom; the primary's cells are put aside and come back when it
/// is left, unless the size has changed: then the primary is clear. Entering
/// or leaving twice is the same as once.
pub proof fn law_alternate_screen(t: Term, i: int)
    requires
        t.screen.wf(),
        t.screen.rows > 0,
        0 <= i < t.screen.cells.len(),
    ensures
        ({
            let there = t.mode(47, true);
            &&& there.cursor == t.cursor && there.replies == t.replies
            &&& t.screen.alt ==> there == t
            &&& !t.screen.alt ==> {
                &&& there.screen == (Screen {
                    cells: there.screen.cells,
                    stash: Some(t.screen.cells),
                    alt: true,
                    top: 0,
                    bottom: there.screen.bottom,
                    view_offset: 0,
                    ..t.screen
                })
                &&& there.screen.bottom + 1 == t.screen.rows
                &&& there.screen.cells.len() == t.screen.cells.len()
                &&& is_clear(there.screen.cells[i])
            }
        }),
        ({
            let back = t.mode(47, false);
            &&& back.cursor == t.cursor && back.replies == t.replies
            &&& !t.screen.alt ==> back == t
            &&& t.screen.alt ==> {
                &&& back.screen == (Screen {
                    cells: back.screen.cells,
                    stash: None,
                    alt: false,
                    top: 0,
                    bottom: back.screen.bottom,
                    ..t.screen
                })
                &&& back.screen.bottom + 1 == t.screen.rows
                &&& back.screen.cells.len() == t.screen.cells.len()
                &&& if t.screen.stash is Some && t.screen.stash->0.len() == t.screen.cells.len() {
                    back.screen.cells == t.screen.stash->0
                } else {
                    is_clear(back.screen.cells[i])
                }
            }
        }),
{
}

/// A letter that names no sequence does nothing.
pub proof fn law_unknown_sequences(
    t: Term,
    params: Seq<Seq<u16>>,
    intermediates: Seq<u8>,
    letter: char,
)
    requires
        !"mHfABCDG`dJKP@XcnhlrsuLM"@.contains(letter),
    ensures
        t.csi(params, intermediates, letter) == t,
{
    reveal_strlit("mHfABCDG`dJKP@XcnhlrsuLM");
    let known = "mHfABCDG`dJKP@XcnhlrsuLM"@;
    assert(forall|i: int| 0 <= i < known.len() ==> letter != #[trigger] known[i]);
    assert(known[0] == 'm' && known[1] == 'H' && known[2] == 'f' && known[3] == 'A' && known[4]
        == 'B' && known[5] == 'C' && known[6] == 'D' && known[7] == 'G' && known[8] == '`'
        && known[9] == 'd' && known[10] == 'J' && known[11] == 'K' && known[12] == 'P' && known[13]
        == '@' && known[14] == 'X' && known[15] == 'c' && known[16] == 'n' && known[17] == 'h'
        && known[18] == 'l' && known[19] == 'r' && known[20] == 's' && known[21] == 'u'
        && known[22] == 'L' && known[23] == 'M');
}

/// The sequences that exist in one form only do nothing with intermediates.
pub proof fn law_plain_sequences(
    t: Term,
    params: Seq<Seq<u16>>,
    intermediates: Seq<u8>,
    letter: char,
)
    requires
        intermediates.len() > 0,
        letter == 'c' || letter == 'r' || letter == 's' || letter == 'u',
    ensures
        t.csi(params, intermediates, letter) == t,
{
}

/// A new terminal: the cursor in the corner with a plain pen, visible and
/// steady; a clear screen that scrolls as a whole and wraps, with nothing in
/// history and every mode off.
pub proof fn law_fresh_terminal(cols: usize, rows: usize, max_history: usize, i: int)
    requires
        0 < rows,
        0 <= i < cols * rows,
    ensures
        ({
            let c = CursorState::home();
            &&& c.row == 0 && c.col == 0 && c.visible && !c.blink && c.style == CursorStyle::Block
            &&& c.saved is None
            &&& is_clear(c.pen)
        }),
        ({
            let scr = Screen::fresh(cols, rows, max_history);
            &&& scr.cols == cols && scr.rows == rows && scr.max_history == max_history
            &&& scr.cells.len() == cols * rows
            &&& is_clear(scr.cells[i])
            &&& scr.history.len() == 0 && scr.log.len() == 0 && scr.view_offset == 0
            &&& scr.top == 0 && scr.bottom + 1 == rows
            &&& scr.autowrap && !scr.alt && scr.stash is None && !scr.bracketed_paste
            &&& scr.mouse_mode == (MouseMode { button: false, drag: false, sgr_encoded: false })
            &&& scr.selection is None && scr.active_link is None && scr.pending_clipboard is None
            &&& scr.bell_seq == 0 && scr.title_seq == 0 && scr.title.len() == 0
            &&& scr.marks.len() == 1 && scr.marks[0].len() == 0
        }),
{
}

} // verus!
