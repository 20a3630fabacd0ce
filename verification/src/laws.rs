//! What holds of the terminal as a whole.

use vstd::prelude::*;

use crate::ansi::Term;
use crate::cell::Cell;
use crate::cursor::CursorState;
use crate::screen::Screen;
use crate::stream::Action;

verus! {

// ---- The byte stream ----

/// Where the output is cut into chunks does not matter to the parser: the
/// actions of `a` followed by `b` are those of `a` and then, with `a` seen,
/// those of `b`. So a character or sequence split between two reads is safe.
pub proof fn law_parse_in_chunks(before: Seq<u8>, a: Seq<u8>, b: Seq<u8>)
    ensures
        crate::stream::actions_of(before, a + b) == crate::stream::actions_of(before, a)
            + crate::stream::actions_of(before + a, b),
    decreases b.len(),
{
    if b.len() == 0 {
        assert(a + b =~= a);
        assert(crate::stream::actions_of(before, a) + Seq::<Action>::empty()
            =~= crate::stream::actions_of(before, a));
    } else {
        law_parse_in_chunks(before, a, b.drop_last());
        assert((a + b).drop_last() =~= a + b.drop_last());
        assert((a + b).last() == b.last());
        assert(before + (a + b.drop_last()) =~= before + a + b.drop_last());
        assert(crate::stream::actions_of(before, a + b) =~= crate::stream::actions_of(before, a)
            + crate::stream::actions_of(before + a, b));
    }
}

/// A byte completes what the parser says it does after those before it.
pub proof fn law_parse_byte(before: Seq<u8>, byte: u8)
    ensures
        crate::stream::actions_of(before, seq![byte]) == crate::stream::actions_for(before, byte),
        crate::stream::actions_of(before, Seq::empty()).len() == 0,
{
    assert(seq![byte].drop_last() =~= Seq::empty());
    assert(before + Seq::<u8>::empty() =~= before);
    reveal_with_fuel(crate::stream::actions_of, 2);
    assert(crate::stream::actions_of(before, seq![byte]) =~= crate::stream::actions_for(
        before,
        byte,
    ));
}

/// Actions taken in two batches do what they do in one.
pub proof fn law_run_in_batches(t: Term, x: Seq<Action>, y: Seq<Action>)
    requires
        t.runs(x),
    ensures
        t.run(x + y) == t.run(x).run(y),
        t.runs(x + y) == t.run(x).runs(y),
    decreases x.len(),
{
    if x.len() == 0 {
        assert(x + y =~= y);
    } else {
        law_run_in_batches(t.take(x[0]), x.drop_first(), y);
        assert((x + y).drop_first() =~= x.drop_first() + y);
        assert((x + y)[0] == x[0]);
    }
}

/// Each action does what its kind does, and a run takes them one by one.
pub proof fn law_actions(
    t: Term,
    c: char,
    byte: u8,
    params: Seq<Seq<u16>>,
    intermediates: Seq<u8>,
    action: Action,
)
    ensures
        t.take(Action::Print(c)) == t.print(c),
        t.take(Action::Execute(byte)) == t.execute(byte),
        t.take(Action::Csi { params, intermediates, action: c }) == t.csi(params, intermediates, c),
        t.take(Action::Esc(byte)) == t.esc(byte),
        t.run(Seq::empty()) == t,
        t.can_take(action) ==> t.run(seq![action]) == t.take(action) && t.runs(seq![action]),
        !t.can_take(action) ==> t.run(seq![action]) == t && !t.runs(seq![action]),
{
    assert(seq![action].drop_first() =~= Seq::empty());
    reveal_with_fuel(Term::run, 2);
    reveal_with_fuel(Term::runs, 2);
}

/// Output fed in two chunks leaves the terminal as the whole fed at once does.
pub proof fn law_feed_in_chunks(t: Term, before: Seq<u8>, a: Seq<u8>, b: Seq<u8>)
    requires
        t.runs(crate::stream::actions_of(before, a)),
    ensures
        t.run(crate::stream::actions_of(before, a + b)) == t.run(
            crate::stream::actions_of(before, a),
        ).run(crate::stream::actions_of(before + a, b)),
{
    law_parse_in_chunks(before, a, b);
    law_run_in_batches(
        t,
        crate::stream::actions_of(before, a),
        crate::stream::actions_of(before + a, b),
    );
}

/// Whatever arrives, the screen stays well-formed and every position within
/// bounds: the viewport keeps its size, history its ceiling, the scroll region
/// its place on the screen.
pub proof fn law_output_keeps_invariant(t: Term, actions: Seq<Action>)
    requires
        t.bounded(),
    ensures
        t.run(actions).bounded(),
    decreases actions.len(),
{
    if actions.len() > 0 && t.can_take(actions[0]) {
        crate::stream::lemma_take_bounded(t, actions[0]);
        law_output_keeps_invariant(t.take(actions[0]), actions.drop_first());
    }
}

/// While the cursor stands on the screen, every action can be taken.
pub proof fn law_on_screen_nothing_refused(t: Term, action: Action)
    requires
        t.bounded(),
        0 < t.screen.cols,
        t.cursor.row < t.screen.rows,
    ensures
        t.can_take(action),
{
    crate::stream::lemma_only_print_refused(t, action);
}

/// Text, controls and escapes are never answered: only queries are.
pub proof fn law_text_gets_no_reply(t: Term, actions: Seq<Action>)
    requires
        forall|i: int| 0 <= i < actions.len() ==> !(#[trigger] actions[i] is Csi),
    ensures
        t.run(actions).replies == t.replies,
    decreases actions.len(),
{
    if actions.len() > 0 && t.can_take(actions[0]) {
        assert(t.take(actions[0]).replies == t.replies);
        assert forall|i: int| 0 <= i < actions.drop_first().len() implies !(
        #[trigger] actions.drop_first()[i] is Csi) by {
            assert(actions.drop_first()[i] == actions[i + 1]);
        }
        law_text_gets_no_reply(t.take(actions[0]), actions.drop_first());
    }
}

// ---- The view ----

proof fn lemma_modes_keep_view(t: Term, params: Seq<Seq<u16>>, i: int, set: bool)
    requires
        t.screen.view_ok(),
    ensures
        t.modes_from(params, i, set).screen.view_ok(),
    decreases params.len() - i,
{
    if 0 <= i < params.len() {
        let n = crate::params::param_or(params, i, 0);
        lemma_modes_keep_view(t.mode(n, set), params, i + 1, set);
    }
}

proof fn lemma_scroll_keeps_view(scr: Screen)
    requires
        scr.view_ok(),
        scr.history.len() <= scr.max_history,
    ensures
        scr.scroll_up().view_ok(),
{
}

proof fn lemma_take_keeps_view(t: Term, action: Action)
    requires
        t.screen.view_ok(),
        t.screen.history.len() <= t.screen.max_history,
    ensures
        t.take(action).screen.view_ok(),
{
    lemma_scroll_keeps_view(t.screen);
    match action {
        Action::Csi { params, intermediates, action: last } => {
            if last == 'h' || last == 'l' {
                lemma_modes_keep_view(t, params, 0, last == 'h');
            }
        },
        _ => {},
    }
}

/// Whatever arrives, the view stays within the history, and at the bottom
/// while the alternate screen is shown.
pub proof fn law_output_keeps_view(t: Term, actions: Seq<Action>)
    requires
        t.bounded(),
        t.screen.view_ok(),
    ensures
        t.run(actions).screen.view_ok(),
    decreases actions.len(),
{
    if actions.len() > 0 && t.can_take(actions[0]) {
        lemma_take_keeps_view(t, actions[0]);
        crate::stream::lemma_take_bounded(t, actions[0]);
        law_output_keeps_view(t.take(actions[0]), actions.drop_first());
    }
}

/// Whatever arrives, the screen keeps its size and its history its ceiling.
pub proof fn law_output_keeps_sizes(t: Term, actions: Seq<Action>)
    ensures
        t.run(actions).screen.cols == t.screen.cols,
        t.run(actions).screen.rows == t.screen.rows,
        t.run(actions).screen.max_history == t.screen.max_history,
    decreases actions.len(),
{
    if actions.len() > 0 && t.can_take(actions[0]) {
        lemma_take_keeps_sizes(t, actions[0]);
        law_output_keeps_sizes(t.take(actions[0]), actions.drop_first());
    }
}

proof fn lemma_take_keeps_sizes(t: Term, action: Action)
    ensures
        t.take(action).screen.cols == t.screen.cols,
        t.take(action).screen.rows == t.screen.rows,
        t.take(action).screen.max_history == t.screen.max_history,
{
    match action {
        Action::Csi { params, intermediates, action: last } => {
            if last == 'h' || last == 'l' {
                lemma_modes_keep_sizes(t, params, 0, last == 'h');
            }
        },
        _ => {},
    }
}

proof fn lemma_modes_keep_sizes(t: Term, params: Seq<Seq<u16>>, i: int, set: bool)
    ensures
        t.modes_from(params, i, set).screen.cols == t.screen.cols,
        t.modes_from(params, i, set).screen.rows == t.screen.rows,
        t.modes_from(params, i, set).screen.max_history == t.screen.max_history,
    decreases params.len() - i,
{
    if 0 <= i < params.len() {
        let n = crate::params::param_or(params, i, 0);
        lemma_modes_keep_sizes(t.mode(n, set), params, i + 1, set);
    }
}

/// Scrolling the view, resizing and remembering lines keep the view within the
/// history, and at the bottom while the alternate screen is shown.
pub proof fn law_view_operations_keep_view(
    scr: Screen,
    delta: int,
    cols: usize,
    rows: usize,
    line: Seq<Cell>,
)
    requires
        scr.wf(),
        scr.view_ok(),
    ensures
        scr.scrolled(delta).view_ok(),
        scr.resized(cols, rows).view_ok(),
        scr.remember(line).view_ok(),
{
}

/// At the bottom, the view shows the viewport; scrolled to the top, it shows
/// the oldest lines first.
pub proof fn law_view_shows(scr: Screen, y: int)
    requires
        scr.wf(),
        0 <= y < scr.rows,
    ensures
        scr.view_offset == 0 ==> scr.displayed(y) == scr.row(y),
        scr.view_offset == scr.history.len() && y < scr.history.len() ==> scr.displayed(y)
            == scr.history[y],
{
}

// ---- History ----

/// Absolute rows are stable: a line that scrolls into history keeps its
/// absolute row, and so do all others, until the ceiling is reached; from then
/// on each scroll moves all of them up by one.
pub proof fn law_absolute_rows_stable(scr: Screen, r: int)
    requires
        scr.wf(),
        scr.rows > 0,
        scr.feeds_history(),
        0 <= r < scr.history.len() + scr.rows,
    ensures
        scr.history.len() < scr.max_history ==> scr.scroll_up().line(r) == scr.line(r),
        scr.history.len() == scr.max_history && r > 0 ==> scr.scroll_up().line(r - 1) == scr.line(
            r,
        ),
{
    let up = scr.scroll_up();
    let h = scr.history.len() as int;
    if r > h {
        law_scrolled_rows(scr, r - h - 1);
    }
    if h < scr.max_history {
        if r < h {
            assert(up.history[r] == scr.history[r]);
        } else if r == h {
            assert(up.history[r] == scr.row(0));
        } else {
            assert(up.line(r) == Some(up.row(r - h - 1)));
        }
    } else if r > 0 {
        if r < h {
            assert(up.history[r - 1] == scr.history[r]);
        } else if r == h {
            assert(up.history[h - 1] == scr.row(0));
        } else {
            assert(up.line(r - 1) == Some(up.row(r - 1 - h)));
        }
    }
}

/// Row `y` spans whole positions of the viewport.
proof fn lemma_row_span(scr: Screen, y: int)
    requires
        scr.wf(),
        0 <= y < scr.rows,
    ensures
        0 <= y * scr.cols,
        y * scr.cols + scr.cols == (y + 1) * scr.cols,
        (y + 1) * scr.cols <= scr.cells.len(),
{
    assert(0 <= y * scr.cols) by (nonlinear_arith)
        requires
            0 <= y,
            0 <= scr.cols,
    ;
    assert((y + 1) * scr.cols <= scr.cols * scr.rows) by (nonlinear_arith)
        requires
            y + 1 <= scr.rows,
            0 <= scr.cols,
    ;
    assert(y * scr.cols + scr.cols == (y + 1) * scr.cols) by (nonlinear_arith);
}

proof fn lemma_row_order(scr: Screen, a: int, b: int)
    requires
        a <= b,
    ensures
        a * scr.cols <= b * scr.cols,
{
    assert(a * scr.cols <= b * scr.cols) by (nonlinear_arith)
        requires
            a <= b,
            0 <= scr.cols,
    ;
}

/// Scrolling up: inside the region each row takes the next one's place and the
/// last is blank; outside it nothing moves.
pub proof fn law_scrolled_rows(scr: Screen, y: int)
    requires
        scr.wf(),
        0 <= y < scr.rows,
    ensures
        scr.top <= y < scr.bottom ==> scr.scroll_up().row(y) == scr.row(y + 1),
        y == scr.bottom ==> scr.scroll_up().row(y) == crate::cell::blanks(scr.cols as nat),
        !(scr.top <= y <= scr.bottom) ==> scr.scroll_up().row(y) == scr.row(y),
        scr.top < y <= scr.bottom ==> scr.scroll_down().row(y) == scr.row(y - 1),
        y == scr.top ==> scr.scroll_down().row(y) == crate::cell::blanks(scr.cols as nat),
        !(scr.top <= y <= scr.bottom) ==> scr.scroll_down().row(y) == scr.row(y),
{
    lemma_row_span(scr, y);
    lemma_row_span(scr, scr.top as int);
    lemma_row_span(scr, scr.bottom as int);
    lemma_row_order(scr, scr.top as int, scr.bottom as int);
    if y < scr.top {
        lemma_row_order(scr, y + 1, scr.top as int);
    } else if y > scr.bottom {
        lemma_row_order(scr, scr.bottom + 1, y);
    } else {
        lemma_row_order(scr, scr.top as int, y);
        lemma_row_order(scr, y + 1, scr.bottom + 1);
        if y < scr.bottom {
            lemma_row_span(scr, y + 1);
            lemma_row_order(scr, y + 2, scr.bottom + 1);
            assert(scr.scroll_up().row(y) =~= scr.row(y + 1));
        } else {
            assert(scr.scroll_up().row(y) =~= crate::cell::blanks(scr.cols as nat));
        }
        if y > scr.top {
            lemma_row_span(scr, y - 1);
            lemma_row_order(scr, scr.top + 1, y);
            assert(scr.scroll_down().row(y) =~= scr.row(y - 1));
        } else {
            assert(scr.scroll_down().row(y) =~= crate::cell::blanks(scr.cols as nat));
        }
    }
    if !(scr.top <= y <= scr.bottom) {
        assert(scr.scroll_up().row(y) =~= scr.row(y));
        assert(scr.scroll_down().row(y) =~= scr.row(y));
    }
}

/// Deleting lines moves the rows below up and blanks the end of the region;
/// inserting lines moves them down. Rows above the cursor and outside the
/// region stay.
pub proof fn law_edited_rows(scr: Screen, cur: CursorState, n: int, y: int)
    requires
        scr.wf(),
        scr.top <= cur.row <= scr.bottom < scr.rows,
        0 <= n <= scr.bottom - cur.row + 1,
        0 <= y < scr.rows,
    ensures
        cur.row <= y && y + n <= scr.bottom ==> scr.delete_lines(cur, n).row(y) == scr.row(y + n),
        scr.bottom - n < y <= scr.bottom ==> scr.delete_lines(cur, n).row(y)
            == crate::cell::blanks(scr.cols as nat),
        cur.row + n <= y <= scr.bottom ==> scr.insert_lines(cur, n).row(y) == scr.row(y - n),
        cur.row <= y < cur.row + n ==> scr.insert_lines(cur, n).row(y) == crate::cell::blanks(
            scr.cols as nat,
        ),
        y < cur.row || y > scr.bottom ==> scr.delete_lines(cur, n).row(y) == scr.row(y)
            && scr.insert_lines(cur, n).row(y) == scr.row(y),
{
    let cols = scr.cols as int;
    let (row, bot) = (cur.row as int, scr.bottom as int);
    let (del, ins) = (scr.delete_lines(cur, n), scr.insert_lines(cur, n));
    lemma_row_span(scr, y);
    lemma_row_span(scr, row);
    lemma_row_span(scr, bot);
    assert(n * cols == (y + n) * cols - y * cols) by (nonlinear_arith);
    assert(n * cols == y * cols - (y - n) * cols) by (nonlinear_arith);
    assert(n * cols == (row + n) * cols - row * cols) by (nonlinear_arith);
    assert(n * cols == (bot + 1) * cols - (bot + 1 - n) * cols) by (nonlinear_arith);
    if y < row {
        lemma_row_order(scr, y + 1, row);
        lemma_row_order(scr, row, bot + 1 - n);
        lemma_row_order(scr, row, row + n);
    } else if y > bot {
        lemma_row_order(scr, bot + 1, y);
        lemma_row_order(scr, bot + 1 - n, y);
        lemma_row_order(scr, row + n, bot + 1);
    } else {
        lemma_row_order(scr, row, y);
        lemma_row_order(scr, y + 1, bot + 1);
        if y + n <= bot {
            lemma_row_span(scr, y + n);
            lemma_row_order(scr, y + 1, bot + 1 - n);
            assert(del.row(y) =~= scr.row(y + n));
        } else {
            lemma_row_order(scr, bot + 1 - n, y);
            assert(del.row(y) =~= crate::cell::blanks(scr.cols as nat));
        }
        if y >= row + n {
            lemma_row_span(scr, y - n);
            lemma_row_order(scr, row + n, y);
            assert(ins.row(y) =~= scr.row(y - n));
        } else {
            lemma_row_order(scr, y + 1, row + n);
            assert(ins.row(y) =~= crate::cell::blanks(scr.cols as nat));
        }
    }
    if y < row || y > bot {
        assert(del.row(y) =~= scr.row(y));
        assert(ins.row(y) =~= scr.row(y));
    }
}

/// Taking out as many lines as were put in brings back every row of the region
/// but those that had fallen off its end, which are blank then.
pub proof fn law_delete_lines_undoes_insert(scr: Screen, cur: CursorState, n: int, y: int)
    requires
        scr.wf(),
        scr.top <= cur.row <= scr.bottom < scr.rows,
        0 <= n <= scr.bottom - cur.row + 1,
        0 <= y < scr.rows,
    ensures
        ({
            let back = scr.insert_lines(cur, n).delete_lines(cur, n);
            back.row(y) == if scr.bottom - n < y <= scr.bottom {
                crate::cell::blanks(scr.cols as nat)
            } else {
                scr.row(y)
            }
        }),
{
    let mid = scr.insert_lines(cur, n);
    law_edited_rows(mid, cur, n, y);
    law_edited_rows(scr, cur, n, y);
    if cur.row <= y && y + n <= scr.bottom {
        law_edited_rows(scr, cur, n, y + n);
    }
}

// ---- The alternate screen ----

/// A mode that switches between the primary and the alternate screen.
pub open spec fn is_alt_mode(n: u16) -> bool {
    n == 47 || n == 1047 || n == 1049
}

/// Does this action leave the alternate screen?
pub open spec fn leaves_alt(action: Action) -> bool {
    match action {
        Action::Csi { params, intermediates, action } => action == 'l' && Term::private(
            intermediates,
        ) && exists|i: int|
            0 <= i < params.len() && is_alt_mode(#[trigger] crate::params::param_or(params, i, 0)),
        _ => false,
    }
}

/// On the alternate screen with the given primary put aside.
pub open spec fn in_alt(t: Term, stash: Option<Seq<Cell>>, cols: usize, rows: usize) -> bool {
    &&& t.screen.alt
    &&& t.screen.stash == stash
    &&& t.screen.cols == cols
    &&& t.screen.rows == rows
}

proof fn lemma_modes_stay_in_alt(
    t: Term,
    params: Seq<Seq<u16>>,
    i: int,
    set: bool,
    stash: Option<Seq<Cell>>,
)
    requires
        in_alt(t, stash, t.screen.cols, t.screen.rows),
        0 <= i,
        set || forall|k: int|
            i <= k < params.len() ==> !is_alt_mode(
                #[trigger] crate::params::param_or(params, k, 0),
            ),
    ensures
        in_alt(t.modes_from(params, i, set), stash, t.screen.cols, t.screen.rows),
        t.modes_from(params, i, set).screen.history == t.screen.history,
        t.modes_from(params, i, set).screen.log == t.screen.log,
        t.modes_from(params, i, set).screen.links == t.screen.links,
    decreases params.len() - i,
{
    if i < params.len() {
        let n = crate::params::param_or(params, i, 0);
        assert(set || !is_alt_mode(n));
        lemma_modes_stay_in_alt(t.mode(n, set), params, i + 1, set, stash);
    }
}

proof fn lemma_take_stays_in_alt(t: Term, action: Action, stash: Option<Seq<Cell>>)
    requires
        in_alt(t, stash, t.screen.cols, t.screen.rows),
        !leaves_alt(action),
    ensures
        in_alt(t.take(action), stash, t.screen.cols, t.screen.rows),
        t.take(action).screen.history == t.screen.history,
        t.take(action).screen.log == t.screen.log,
        t.take(action).screen.links == t.screen.links,
{
    match action {
        Action::Csi { params, intermediates, action: last } => {
            if (last == 'h' || last == 'l') && Term::private(intermediates) {
                lemma_modes_stay_in_alt(t, params, 0, last == 'h', stash);
            }
        },
        _ => {},
    }
}

/// As long as the alternate screen is not left, whatever arrives neither
/// touches the primary put aside nor reaches history, log or hyperlinks.
pub proof fn law_alt_screen_is_isolated(t: Term, actions: Seq<Action>)
    requires
        t.screen.alt,
        forall|i: int| 0 <= i < actions.len() ==> !leaves_alt(#[trigger] actions[i]),
    ensures
        t.run(actions).screen.alt,
        t.run(actions).screen.stash == t.screen.stash,
        t.run(actions).screen.cols == t.screen.cols,
        t.run(actions).screen.rows == t.screen.rows,
        t.run(actions).screen.history == t.screen.history,
        t.run(actions).screen.log == t.screen.log,
        t.run(actions).screen.links == t.screen.links,
    decreases actions.len(),
{
    if actions.len() > 0 && t.can_take(actions[0]) {
        lemma_take_stays_in_alt(t, actions[0], t.screen.stash);
        assert forall|i: int| 0 <= i < actions.drop_first().len() implies !leaves_alt(
            #[trigger] actions.drop_first()[i],
        ) by {
            assert(actions.drop_first()[i] == actions[i + 1]);
        }
        law_alt_screen_is_isolated(t.take(actions[0]), actions.drop_first());
    }
}

/// A trip to the alternate screen and back by `?1049` restores the primary
/// viewport, whatever was done there; the cursor comes back too, unless
/// another position was saved on the way.
pub proof fn law_alt_round_trip(t: Term, actions: Seq<Action>)
    requires
        t.screen.wf(),
        !t.screen.alt,
        forall|i: int| 0 <= i < actions.len() ==> !leaves_alt(#[trigger] actions[i]),
    ensures
        ({
            let there = t.mode(1049, true);
            let busy = there.run(actions);
            let back = busy.mode(1049, false);
            &&& back.screen.cells == t.screen.cells
            &&& back.screen.history == t.screen.history
            &&& !back.screen.alt
            &&& busy.cursor.saved == there.cursor.saved ==> back.cursor.row == t.cursor.row
                && back.cursor.col == t.cursor.col && back.cursor.pen == t.cursor.pen
        }),
{
    law_alt_screen_is_isolated(t.mode(1049, true), actions);
}

/// Entering the alternate screen presents a blank one.
pub proof fn law_alt_starts_blank(scr: Screen, i: int)
    requires
        scr.wf(),
        !scr.alt,
        0 <= i < scr.cells.len(),
    ensures
        scr.entered_alt().cells[i] == Cell::blank(),
{
}

// ---- Combining marks ----

/// The pool only grows, every sequence given a slot of its own is found there,
/// and ids handed out before keep their meaning.
pub proof fn law_interned_marks_stay(scr: Screen, seq: Seq<char>, id: u16)
    requires
        scr.pool_ok(),
    ensures
        ({
            let (marks, new) = scr.interned(seq);
            let after = Screen { marks, ..scr };
            &&& after.pool_ok()
            &&& new != 0 ==> after.extras(new) == seq
            &&& id < scr.marks.len() ==> after.extras(id) == scr.extras(id)
            &&& scr.marks.contains(seq) ==> marks == scr.marks
        }),
{
    if scr.marks.contains(seq) {
        let i = scr.marks.index_of(seq);
        assert(scr.marks[i] == seq);
    } else {
        assert(scr.marks.push(seq).no_duplicates());
    }
}

/// There is room for 65534 different sequences of marks. As long as there is,
/// each gets a slot that is not the empty one, the same whenever it comes
/// again; no marks at all are the empty slot.
pub proof fn law_marks_get_a_slot(scr: Screen, seq: Seq<char>)
    requires
        scr.pool_ok(),
    ensures
        seq.len() == 0 ==> scr.interned(seq) == (scr.marks, 0u16),
        seq.len() > 0 && scr.marks.len() < 65535 ==> scr.interned(seq).1 != 0,
        ({
            let (marks, id) = scr.interned(seq);
            &&& id < marks.len() && (id != 0 ==> marks[id as int] == seq)
            &&& (Screen { marks, ..scr }).interned(seq) == (marks, id)
        }),
{
    law_interned_marks_stay(scr, seq, 0);
    if scr.marks.contains(seq) {
        let i = scr.marks.index_of(seq);
        assert(scr.marks[i] == seq);
    } else if seq.len() > 0 && scr.marks.len() < 65535 {
        let more = scr.marks.push(seq);
        assert(more[scr.marks.len() as int] == seq);
        assert(more.contains(seq));
        let i = more.index_of(seq);
        assert(more[i] == seq);
        assert(more.no_duplicates());
    }
}

/// A zero-width character joins the cluster of the character before the
/// cursor, as long as the pool has room.
pub proof fn law_mark_joins_its_character(scr: Screen, cur: CursorState, ch: char)
    requires
        scr.pool_ok(),
        scr.marks.len() < crate::screen::pool_limit(),
        cur.col > 0,
        0 <= scr.attach_at(cur) < scr.cells.len(),
    ensures
        ({
            let after = scr.attach(cur, ch);
            let at = scr.attach_at(cur);
            &&& after.cluster(after.cells[at]) == scr.cluster(scr.cells[at]).push(ch)
            &&& after.cells[at].c == scr.cells[at].c
        }),
{
    let at = scr.attach_at(cur);
    let cell = scr.cells[at];
    let seq = scr.extras(cell.combining_id).push(ch);
    law_interned_marks_stay(scr, seq, 0);
    let (marks, id) = scr.interned(seq);
    if scr.marks.contains(seq) {
        let i = scr.marks.index_of(seq);
        assert(scr.marks[i] == seq);
        assert(i != 0);
    }
    assert(id != 0);
    let after = scr.attach(cur, ch);
    assert(after.cluster(after.cells[at]) =~= scr.cluster(cell).push(ch));
}

// ---- Writing and resizing ----

/// A double-width character takes two positions: its own, marked as leading,
/// and the next, marked as trailing.
pub proof fn law_wide_takes_two_positions(scr: Screen, cur: CursorState, ch: char)
    requires
        scr.wf(),
        cur.row < scr.rows,
        cur.col + 2 <= scr.cols,
    ensures
        ({
            let (after, next) = scr.put_wide(cur, ch);
            let lead = scr.at(cur.col as int, cur.row as int);
            &&& after.cells[lead].c == ch
            &&& after.cells[lead].flags & crate::cell::ATTR_WIDE != 0
            &&& after.cells[lead + 1].trailing()
            &&& next.row == cur.row
            &&& next.col == cur.col + 2
        }),
{
    crate::screen::lemma_position(scr, cur.col as int, cur.row as int);
    crate::screen::lemma_position(scr, cur.col + 1, cur.row as int);
    let flags = cur.pen.flags;
    assert((flags | 8) & 8 != 0) by (bit_vector);
    assert((flags | 16) & 16 != 0) by (bit_vector);
}

/// A printed character lands in exactly one position; with wrapping off, text
/// past the right edge overwrites the last column of the same row.
pub proof fn law_print_writes_one_position(t: Term, c: char)
    requires
        t.screen.wf(),
        t.can_print(),
        t.cursor.col < t.screen.cols || !t.screen.autowrap,
    ensures
        ({
            let col = crate::screen::least(t.cursor.col as int, t.screen.cols - 1);
            let here = t.screen.at(col, t.cursor.row as int);
            &&& t.print(c).screen.cells[here] == (Cell { c, ..t.cursor.pen })
            &&& forall|i: int|
                0 <= i < t.screen.cells.len() && i != here ==> #[trigger] t.print(
                    c,
                ).screen.cells[i] == t.screen.cells[i]
            &&& t.print(c).cursor.row == t.cursor.row
            &&& t.print(c).cursor.col == col + 1
        }),
{
    let col = crate::screen::least(t.cursor.col as int, t.screen.cols - 1);
    crate::screen::lemma_position(t.screen, col, t.cursor.row as int);
}

/// Resizing keeps what lies within both sizes where it was.
pub proof fn law_resize_keeps_overlap(scr: Screen, cols: usize, rows: usize, x: int, y: int)
    requires
        scr.wf(),
        0 <= x < scr.cols,
        0 <= y < scr.rows,
        x < cols,
        y < rows,
    ensures
        scr.resized(cols, rows).cells[scr.resized(cols, rows).at(x, y)] == scr.cells[scr.at(x, y)],
{
    let after = scr.resized(cols, rows);
    if !(cols == scr.cols && rows == scr.rows) {
        let i = after.at(x, y);
        assert(0 <= y * cols) by (nonlinear_arith)
            requires
                0 <= y,
                0 <= cols,
        ;
        assert(y * cols + cols <= cols * rows) by (nonlinear_arith)
            requires
                0 <= y < rows,
                0 <= cols,
        ;
        vstd::arithmetic::div_mod::lemma_fundamental_div_mod_converse(i, cols as int, y, x);
    }
}

/// After a change of size, the cursor stands on a screen that has any room.
pub proof fn law_resize_keeps_cursor_on_screen(
    scr: Screen,
    cols: usize,
    rows: usize,
    cur: CursorState,
)
    requires
        cols > 0,
        rows > 0,
        !(cols == scr.cols && rows == scr.rows),
    ensures
        scr.resized_cursor(cols, rows, cur).row < rows,
        scr.resized_cursor(cols, rows, cur).col < cols,
{
}

} // verus!
