//! Find-in-scrollback: query, matches and the highlighted one.

use vstd::prelude::*;

use crate::grid::Grid;
use crate::screen::Screen;
use crate::selection::AbsCoord;

verus! {

/// Inclusive (start, end) coordinates of a single match in absolute rows.
pub type FindMatch = (AbsCoord, AbsCoord);

/// The match of a `len`-character query at column `col` of a row.
pub open spec fn match_at(row: int, col: int, len: int) -> FindMatch {
    (
        AbsCoord { abs_row: row as usize, col: col as usize },
        AbsCoord { abs_row: row as usize, col: (col + len - 1) as usize },
    )
}

/// Matches of `query` in `text` from column `from` on: leftmost first, each
/// search going on after the match before it.
pub open spec fn row_matches(
    text: Seq<char>,
    query: Seq<char>,
    row: int,
    from: int,
) -> Seq<FindMatch>
    decreases text.len() - from,
{
    if query.len() == 0 || from + query.len() > text.len() {
        Seq::empty()
    } else if crate::text::occurs_at(text, query, from) {
        seq![match_at(row, from, query.len() as int)] + row_matches(
            text,
            query,
            row,
            from + query.len(),
        )
    } else {
        row_matches(text, query, row, from + 1)
    }
}

/// Matches of `query` in the first `rows` absolute rows.
pub open spec fn found(scr: Screen, query: Seq<char>, rows: int) -> Seq<FindMatch>
    decreases rows,
{
    if rows <= 0 {
        Seq::empty()
    } else {
        found(scr, query, rows - 1) + row_matches(scr.text_of_row(rows - 1), query, rows - 1, 0)
    }
}

/// Every match of `query` on the screen and in its history.
pub open spec fn all_matches(scr: Screen, query: Seq<char>) -> Seq<FindMatch> {
    found(scr, query, scr.history.len() + scr.rows)
}

pub open spec fn next_index(current: int, len: int) -> int {
    (current + 1) % len
}

pub open spec fn prev_index(current: int, len: int) -> int {
    (current + len - 1) % len
}

/// View offset that brings absolute row `row` to about the middle of the view.
pub open spec fn centered_offset(scr: Screen, row: int) -> int {
    crate::screen::least(
        crate::screen::minus(
            scr.history.len() as int,
            crate::screen::minus(row, (scr.rows / 2) as int),
        ),
        scr.history.len() as int,
    )
}

/// A search: what is looked for, where it is, and which match is highlighted.
#[verifier::ext_equal]
pub struct FindModel {
    pub query: Seq<char>,
    pub matches: Seq<FindMatch>,
    pub current: usize,
}

impl FindModel {
    /// Nothing looked for.
    pub open spec fn empty() -> FindModel {
        FindModel { query: Seq::empty(), matches: Seq::empty(), current: 0 }
    }

    /// The highlighted match exists, if any does.
    pub open spec fn wf(self) -> bool {
        self.matches.len() > 0 ==> self.current < self.matches.len()
    }

    /// The search for `query` on this screen; the highlight stays where it was
    /// or, if that match is gone, goes to the first.
    pub open spec fn search(self, scr: Screen, query: Seq<char>) -> FindModel {
        FindModel {
            query,
            matches: all_matches(scr, query),
            current: if self.current < all_matches(scr, query).len() {
                self.current
            } else {
                0
            },
        }
    }

    /// The search with one character more.
    pub open spec fn pushed(self, scr: Screen, c: char) -> FindModel {
        self.search(scr, self.query.push(c))
    }

    /// The search without the last character of its query.
    pub open spec fn popped(self, scr: Screen) -> FindModel {
        self.search(
            scr,
            if self.query.len() > 0 {
                self.query.drop_last()
            } else {
                self.query
            },
        )
    }

    /// The following match highlighted; after the last comes the first.
    pub open spec fn forwards(self) -> FindModel {
        if self.matches.len() == 0 {
            self
        } else {
            FindModel {
                current: next_index(self.current as int, self.matches.len() as int) as usize,
                ..self
            }
        }
    }

    /// The preceding match highlighted; before the first comes the last.
    pub open spec fn backwards(self) -> FindModel {
        if self.matches.len() == 0 {
            self
        } else {
            FindModel {
                current: prev_index(self.current as int, self.matches.len() as int) as usize,
                ..self
            }
        }
    }

    /// The screen scrolled so that the highlighted match is visible, roughly in
    /// the middle. The alternate screen has no history to scroll through.
    pub open spec fn revealed(self, scr: Screen) -> Screen {
        if self.current < self.matches.len() && !scr.alt {
            Screen {
                view_offset: centered_offset(
                    scr,
                    self.matches[self.current as int].0.abs_row as int,
                ) as usize,
                ..scr
            }
        } else {
            scr
        }
    }
}

#[derive(Debug)]
pub struct FindState {
    pub query: String,
    pub matches: Vec<FindMatch>,
    /// Index into `matches` for the currently-highlighted match.
    pub current: usize,
}

impl View for FindState {
    type V = FindModel;

    open spec fn view(&self) -> FindModel {
        FindModel { query: self.query@, matches: self.matches@, current: self.current }
    }
}

impl Default for FindState {
    fn default() -> (state: Self)
        ensures
            state@ == FindModel::empty(),
    {
        FindState { query: String::new(), matches: Vec::new(), current: 0 }
    }
}

impl FindState {
    pub fn new() -> (state: Self)
        ensures
            state@ == FindModel::empty(),
    {
        FindState::default()
    }

    /// Recompute matches across scrollback and viewport. Case-sensitive.
    pub fn recompute(&mut self, grid: &Grid)
        requires
            grid@.wf(),
        ensures
            final(self)@ == old(self)@.search(grid@, old(self)@.query),
            final(self)@.wf(),
    {
        self.matches = Vec::new();
        let query = crate::text::chars_of(self.query.as_str());
        let total = grid.viewport_first_abs_row() + grid.rows();
        let mut row: usize = 0;
        while row < total
            invariant
                grid@.wf(),
                total == grid@.history.len() + grid@.rows,
                row <= total,
                query@ == self.query@,
                self.query@ == old(self).query@,
                self.current == old(self).current,
                self.matches@ == found(grid@, query@, row as int),
            decreases total - row,
        {
            self.push_row_matches(&grid.row_chars(row), &query, row);
            row += 1;
        }
        if self.current >= self.matches.len() {
            self.current = 0;
        }
    }

    /// Append the matches of one row.
    fn push_row_matches(&mut self, text: &Vec<char>, query: &Vec<char>, row: usize)
        ensures
            final(self).matches@ == old(self).matches@ + row_matches(
                text@,
                query@,
                row as int,
                0,
            ),
            final(self).query@ == old(self).query@,
            final(self).current == old(self).current,
    {
        if query.len() == 0 {
            assert(self.matches@ =~= old(self).matches@ + row_matches(
                text@,
                query@,
                row as int,
                0,
            ));
            return ;
        }
        let mut from: usize = 0;
        while from <= text.len() && query.len() <= text.len() - from
            invariant
                query.len() > 0,
                from <= text.len(),
                self.query@ == old(self).query@,
                self.current == old(self).current,
                self.matches@ + row_matches(text@, query@, row as int, from as int) == old(
                    self,
                ).matches@ + row_matches(text@, query@, row as int, 0),
            decreases text.len() - from,
        {
            let ghost before = self.matches@;
            let ghost rest = row_matches(text@, query@, row as int, from as int);
            if crate::text::stands_at(text, query, from) {
                self.matches.push(
                    (
                        AbsCoord { abs_row: row, col: from },
                        AbsCoord { abs_row: row, col: from + (query.len() - 1) },
                    ),
                );
                from += query.len();
                assert(self.matches@ + row_matches(text@, query@, row as int, from as int)
                    =~= before + rest);
            } else {
                from += 1;
            }
        }
        assert(row_matches(text@, query@, row as int, from as int) =~= Seq::empty());
        assert(self.matches@ =~= self.matches@ + row_matches(
            text@,
            query@,
            row as int,
            from as int,
        ));
    }

    pub fn push_char(&mut self, c: char, grid: &Grid)
        requires
            grid@.wf(),
        ensures
            final(self)@ == old(self)@.pushed(grid@, c),
            final(self)@.wf(),
    {
        self.query.push(c);
        self.recompute(grid);
    }

    pub fn pop_char(&mut self, grid: &Grid)
        requires
            grid@.wf(),
        ensures
            final(self)@ == old(self)@.popped(grid@),
            final(self)@.wf(),
    {
        self.query.pop();
        self.recompute(grid);
    }

    /// Highlight the following match; after the last comes the first.
    pub fn next(&mut self)
        ensures
            final(self)@ == old(self)@.forwards(),
            final(self)@.matches.len() > 0 ==> final(self)@.wf(),
    {
        let len = self.matches.len();
        if len > 0 {
            let here = self.current % len;
            proof {
                lemma_step(self.current as int, len as int);
            }
            self.current = if here + 1 < len {
                here + 1
            } else {
                0
            };
        }
    }

    /// Highlight the preceding match; before the first comes the last.
    pub fn prev(&mut self)
        ensures
            final(self)@ == old(self)@.backwards(),
            final(self)@.matches.len() > 0 ==> final(self)@.wf(),
    {
        let len = self.matches.len();
        if len > 0 {
            let here = self.current % len;
            proof {
                lemma_step(self.current as int, len as int);
            }
            self.current = if here > 0 {
                here - 1
            } else {
                len - 1
            };
        }
    }

    /// Adjust the grid's view so the current match is visible.
    pub fn scroll_to_current(&self, grid: &mut Grid)
        requires
            old(grid)@.wf(),
        ensures
            final(grid)@ == self@.revealed(old(grid)@),
    {
        if self.current >= self.matches.len() || grid.is_alt() {
            return ;
        }
        let row = self.matches[self.current].0.abs_row;
        let first = grid.viewport_first_abs_row();
        let target = row.saturating_sub(grid.rows() / 2);
        let mut offset = first.saturating_sub(target);
        if offset > grid.scrollback_len() {
            offset = grid.scrollback_len();
        }
        grid.set_view_offset(offset);
    }
}

/// Stepping from an index is stepping from its place in the cycle.
proof fn lemma_step(current: int, len: int)
    requires
        0 <= current,
        0 < len,
    ensures
        ({
            let here = current % len;
            &&& 0 <= here < len
            &&& next_index(current, len) == if here + 1 < len {
                here + 1
            } else {
                0
            }
            &&& prev_index(current, len) == if here > 0 {
                here - 1
            } else {
                len - 1
            }
        }),
{
    let (q, here) = (current / len, current % len);
    vstd::arithmetic::div_mod::lemma_fundamental_div_mod(current, len);
    assert(len * q == q * len && (q + 1) * len == q * len + len) by (nonlinear_arith);
    if here + 1 < len {
        vstd::arithmetic::div_mod::lemma_fundamental_div_mod_converse(
            current + 1,
            len,
            q,
            here + 1,
        );
    } else {
        vstd::arithmetic::div_mod::lemma_fundamental_div_mod_converse(current + 1, len, q + 1, 0);
    }
    if here > 0 {
        vstd::arithmetic::div_mod::lemma_fundamental_div_mod_converse(
            current + len - 1,
            len,
            q + 1,
            here - 1,
        );
    } else {
        vstd::arithmetic::div_mod::lemma_fundamental_div_mod_converse(
            current + len - 1,
            len,
            q,
            len - 1,
        );
    }
}

// ---- What holds of every search ----

/// Does `m` mark a place in the row's text, at or after column `from`, where
/// the query stands?
pub open spec fn marks(text: Seq<char>, query: Seq<char>, row: int, from: int, m: FindMatch) -> bool {
    &&& from <= m.0.col
    &&& crate::text::occurs_at(text, query, m.0.col as int)
    &&& m.0.abs_row == row as usize
    &&& m.1.abs_row == row as usize
    &&& m.1.col == m.0.col + query.len() - 1
}

/// Each match in a row is a place where the query stands, and matches come
/// from left to right without overlapping.
pub proof fn law_row_matches(text: Seq<char>, query: Seq<char>, row: int, from: int)
    requires
        query.len() > 0,
        0 <= from,
        text.len() <= usize::MAX,
    ensures
        ({
            let ms = row_matches(text, query, row, from);
            &&& forall|i: int| 0 <= i < ms.len() ==> marks(text, query, row, from, #[trigger] ms[i])
            &&& forall|i: int, j: int|
                0 <= i < j < ms.len() ==> (#[trigger] ms[i]).1.col < (#[trigger] ms[j]).0.col
        }),
    decreases text.len() - from,
{
    let ms = row_matches(text, query, row, from);
    if from + query.len() > text.len() {
    } else if crate::text::occurs_at(text, query, from) {
        let rest = row_matches(text, query, row, from + query.len());
        law_row_matches(text, query, row, from + query.len());
        assert forall|i: int| 0 <= i < ms.len() implies marks(
            text,
            query,
            row,
            from,
            #[trigger] ms[i],
        ) by {
            if i > 0 {
                assert(ms[i] == rest[i - 1]);
            }
        }
        assert forall|i: int, j: int| 0 <= i < j < ms.len() implies (#[trigger] ms[i]).1.col < (
        #[trigger] ms[j]).0.col by {
            assert(ms[j] == rest[j - 1]);
            if i > 0 {
                assert(ms[i] == rest[i - 1]);
            }
        }
    } else {
        law_row_matches(text, query, row, from + 1);
        assert(ms == row_matches(text, query, row, from + 1));
        assert forall|i: int| 0 <= i < ms.len() implies marks(
            text,
            query,
            row,
            from,
            #[trigger] ms[i],
        ) by {
            assert(marks(text, query, row, from + 1, ms[i]));
        }
    }
}

/// Every place where the query stands in a row begins within one of the
/// matches.
pub proof fn law_no_place_missed(text: Seq<char>, query: Seq<char>, row: int, from: int, p: int)
    requires
        query.len() > 0,
        0 <= from <= p,
        text.len() <= usize::MAX,
        crate::text::occurs_at(text, query, p),
    ensures
        ({
            let ms = row_matches(text, query, row, from);
            exists|i: int| 0 <= i < ms.len() && (#[trigger] ms[i]).0.col <= p <= ms[i].1.col
        }),
    decreases text.len() - from,
{
    let ms = row_matches(text, query, row, from);
    if crate::text::occurs_at(text, query, from) {
        let rest = row_matches(text, query, row, from + query.len());
        if p < from + query.len() {
            assert(ms[0] == match_at(row, from, query.len() as int));
            assert(ms[0].0.col <= p <= ms[0].1.col);
        } else {
            law_no_place_missed(text, query, row, from + query.len(), p);
            let i = choose|i: int|
                0 <= i < rest.len() && (#[trigger] rest[i]).0.col <= p <= rest[i].1.col;
            assert(ms[i + 1] == rest[i]);
        }
    } else {
        law_no_place_missed(text, query, row, from + 1, p);
    }
}

/// Every match lies where the query stands in its row, and matches come in
/// reading order without overlapping.
pub proof fn law_matches_in_order(scr: Screen, query: Seq<char>, rows: int)
    requires
        query.len() > 0,
        rows <= usize::MAX,
        forall|r: int| #[trigger] scr.text_of_row(r).len() <= usize::MAX,
    ensures
        ({
            let ms = found(scr, query, rows);
            &&& forall|i: int|
                0 <= i < ms.len() ==> {
                    &&& (#[trigger] ms[i]).0.abs_row < rows
                    &&& marks(
                        scr.text_of_row(ms[i].0.abs_row as int),
                        query,
                        ms[i].0.abs_row as int,
                        0,
                        ms[i],
                    )
                }
            &&& forall|i: int, j: int|
                0 <= i < j < ms.len() ==> (#[trigger] ms[i]).1.at_or_before(
                    (#[trigger] ms[j]).0,
                ) && ms[i].1 != ms[j].0
        }),
    decreases rows,
{
    if rows > 0 {
        let before = found(scr, query, rows - 1);
        let text = scr.text_of_row(rows - 1);
        let here = row_matches(text, query, rows - 1, 0);
        let ms = found(scr, query, rows);
        law_matches_in_order(scr, query, rows - 1);
        law_row_matches(text, query, rows - 1, 0);
        assert(ms =~= before + here);
        assert forall|i: int| 0 <= i < ms.len() implies #[trigger] ms[i] == (if i < before.len() {
            before[i]
        } else {
            here[i - before.len()]
        }) by {}
    }
}

/// Index of the match highlighted after `n` steps forwards.
pub open spec fn index_after(current: int, len: int, n: int) -> int
    decreases n,
{
    if n <= 0 {
        current
    } else {
        next_index(index_after(current, len, n - 1), len)
    }
}

proof fn lemma_index_after(current: int, len: int, n: int)
    requires
        0 <= current < len,
        0 <= n,
    ensures
        index_after(current, len, n) == (current + n) % len,
    decreases n,
{
    if n == 0 {
        vstd::arithmetic::div_mod::lemma_small_mod(current as nat, len as nat);
    } else {
        lemma_index_after(current, len, n - 1);
        lemma_step(current + n - 1, len);
        lemma_step((current + n - 1) % len, len);
        vstd::arithmetic::div_mod::lemma_mod_twice(current + n - 1, len);
    }
}

/// Stepping forwards and stepping back undo each other, and as many steps as
/// there are matches lead back to the same one.
pub proof fn law_steps_cycle(current: int, len: int)
    requires
        0 <= current < len,
    ensures
        0 <= next_index(current, len) < len,
        0 <= prev_index(current, len) < len,
        prev_index(next_index(current, len), len) == current,
        next_index(prev_index(current, len), len) == current,
        next_index(len - 1, len) == 0,
        prev_index(0, len) == len - 1,
        index_after(current, len, len) == current,
{
    lemma_index_after(current, len, len);
    vstd::arithmetic::div_mod::lemma_small_mod(current as nat, len as nat);
    vstd::arithmetic::div_mod::lemma_small_mod((len - 1) as nat, len as nat);
    vstd::arithmetic::div_mod::lemma_small_mod(0, len as nat);
    vstd::arithmetic::div_mod::lemma_mod_add_multiples_vanish(current, len);
    lemma_step(current, len);
    lemma_step(len - 1, len);
    lemma_step(0, len);
    let (n, p) = (next_index(current, len), prev_index(current, len));
    vstd::arithmetic::div_mod::lemma_small_mod(n as nat, len as nat);
    vstd::arithmetic::div_mod::lemma_small_mod(p as nat, len as nat);
    lemma_step(n, len);
    lemma_step(p, len);
}

/// Scrolling to a match brings its row into view.
pub proof fn law_match_scrolled_into_view(scr: Screen, row: int)
    requires
        scr.wf(),
        scr.rows > 0,
        !scr.alt,
        0 <= row < scr.history.len() + scr.rows,
    ensures
        ({
            let after = Screen { view_offset: centered_offset(scr, row) as usize, ..scr };
            &&& after.view_ok()
            &&& after.view_top() <= row < after.view_top() + scr.rows
        }),
{
}

/// Does `m` cover column `p` of row `r`?
pub open spec fn covers(m: FindMatch, r: int, p: int) -> bool {
    m.0.abs_row == r && m.1.abs_row == r && m.0.col <= p <= m.1.col
}

proof fn lemma_found_in_row(scr: Screen, query: Seq<char>, rows: int, r: int, p: int)
    requires
        query.len() > 0,
        0 <= r < rows <= usize::MAX,
        scr.text_of_row(r).len() <= usize::MAX,
        crate::text::occurs_at(scr.text_of_row(r), query, p),
    ensures
        exists|i: int|
            0 <= i < found(scr, query, rows).len() && covers(
                #[trigger] found(scr, query, rows)[i],
                r,
                p,
            ),
    decreases rows,
{
    let before = found(scr, query, rows - 1);
    let here = row_matches(scr.text_of_row(rows - 1), query, rows - 1, 0);
    let all = found(scr, query, rows);
    if r == rows - 1 {
        let text = scr.text_of_row(r);
        law_row_matches(text, query, r, 0);
        law_no_place_missed(text, query, r, 0, p);
        let i = choose|i: int|
            0 <= i < here.len() && (#[trigger] here[i]).0.col <= p <= here[i].1.col;
        assert(marks(text, query, r, 0, here[i]));
        assert(all[before.len() + i] == here[i]);
        assert(covers(all[before.len() + i], r, p));
    } else {
        lemma_found_in_row(scr, query, rows - 1, r, p);
        let i = choose|i: int| 0 <= i < before.len() && covers(#[trigger] before[i], r, p);
        assert(all[i] == before[i]);
    }
}

/// The search covers everything: wherever the query stands, in history or on
/// the screen, a match covers the place.
pub proof fn law_everything_is_searched(scr: Screen, query: Seq<char>, r: int, p: int)
    requires
        scr.wf(),
        query.len() > 0,
        0 <= r < scr.history.len() + scr.rows,
        scr.text_of_row(r).len() <= usize::MAX,
        crate::text::occurs_at(scr.text_of_row(r), query, p),
    ensures
        exists|i: int|
            0 <= i < all_matches(scr, query).len() && covers(
                #[trigger] all_matches(scr, query)[i],
                r,
                p,
            ),
{
    let rows = scr.history.len() + scr.rows;
    lemma_found_in_row(scr, query, rows, r, p);
    let i = choose|i: int|
        0 <= i < found(scr, query, rows).len() && covers(
            #[trigger] found(scr, query, rows)[i],
            r,
            p,
        );
    assert(covers(all_matches(scr, query)[i], r, p));
}

/// An empty query is found nowhere.
pub proof fn law_empty_query(scr: Screen, rows: int)
    ensures
        found(scr, Seq::empty(), rows).len() == 0,
    decreases rows,
{
    if rows > 0 {
        law_empty_query(scr, rows - 1);
    }
}

/// A search asks for what is typed, finds all there is of it, and keeps the
/// highlight on the match of the same number or, if there is none, the first.
/// Taking off the character that was added leads back to the same matches.
pub proof fn law_query_edits(find: FindModel, scr: Screen, c: char)
    ensures
        find.pushed(scr, c).query == find.query.push(c),
        find.pushed(scr, c).matches == all_matches(scr, find.query.push(c)),
        find.pushed(scr, c).current < find.pushed(scr, c).matches.len() || find.pushed(
            scr,
            c,
        ).current == 0,
        find.current < find.pushed(scr, c).matches.len() ==> find.pushed(scr, c).current
            == find.current,
        find.pushed(scr, c).popped(scr).query == find.query,
        find.pushed(scr, c).popped(scr).matches == all_matches(scr, find.query),
        find.query.len() == 0 ==> find.popped(scr).query == find.query,
        FindModel::empty().query.len() == 0 && FindModel::empty().matches.len() == 0
            && FindModel::empty().current == 0,
{
    assert(find.query.push(c).drop_last() =~= find.query);
}

/// Following the highlight makes the view begin half a screen above the row of
/// the match, as far as history and screen reach, and changes nothing else. On
/// the alternate screen, and without a match, the view stays.
pub proof fn law_view_follows_match(find: FindModel, scr: Screen)
    requires
        scr.wf(),
    ensures
        ({
            let after = find.revealed(scr);
            let h = scr.history.len() as int;
            let row = find.matches[find.current as int].0.abs_row as int;
            let top = row - scr.rows as int / 2;
            &&& after == (Screen { view_offset: after.view_offset, ..scr })
            &&& scr.alt || find.current >= find.matches.len() ==> after == scr
            &&& !scr.alt && find.current < find.matches.len() ==> {
                &&& top < 0 ==> after.view_offset == h
                &&& 0 <= top <= h ==> after.view_offset == h - top
                &&& top > h ==> after.view_offset == 0
            }
        }),
{
}

} // verus!
