//! Session storage: the plain-text scrollback log and its restore.

use vstd::prelude::*;

use crate::cell::Cell;
use crate::grid::Grid;
use crate::screen::Screen;

verus! {

/// How a scrolled-off line is logged: its characters without trailing spaces.
pub open spec fn logged(line: Seq<Cell>) -> Seq<char> {
    crate::text::trim_end_spaces(crate::screen::cell_chars(line))
}

/// Position of the first line feed at or after `i`, or the end of the text.
pub open spec fn line_end(text: Seq<char>, i: int) -> int
    decreases text.len() - i,
{
    if i >= text.len() || text[i] == '\n' {
        i
    } else {
        line_end(text, i + 1)
    }
}

/// `start..end` without the carriage return at its end, if there is one.
pub open spec fn without_cr(text: Seq<char>, start: int, end: int) -> Seq<char> {
    if end > start && text[end - 1] == '\r' {
        text.subrange(start, end - 1)
    } else {
        text.subrange(start, end)
    }
}

/// The lines of a text from position `from` on. A line feed, with or without a
/// carriage return before it, ends a line; the last line may lack it.
pub open spec fn lines_from(text: Seq<char>, from: int) -> Seq<Seq<char>>
    decreases
            (if from < text.len() {
                text.len() - from
            } else {
                0
            }),
{
    let end = line_end(text, from);
    if from >= text.len() {
        Seq::empty()
    } else if end >= text.len() {
        seq![text.skip(from)]
    } else if end < from {
        Seq::empty()
    } else {
        seq![without_cr(text, from, end)] + lines_from(text, end + 1)
    }
}

/// The last `n` of some lines.
pub open spec fn last_lines(lines: Seq<Seq<char>>, n: int) -> Seq<Seq<char>> {
    lines.skip(crate::screen::minus(lines.len() as int, n))
}

/// A character in a default cell.
pub open spec fn plain_cell(c: char) -> Cell {
    Cell { c, ..Cell::blank() }
}

/// A line of text in default cells.
pub open spec fn text_cells(line: Seq<char>) -> Seq<Cell> {
    line.map_values(|c: char| plain_cell(c))
}

/// The screen with lines of text appended to its history.
pub open spec fn with_lines(scr: Screen, lines: Seq<Seq<char>>) -> Screen
    decreases lines.len(),
{
    if lines.len() == 0 {
        scr
    } else {
        with_lines(scr, lines.drop_last()).remember(text_cells(lines.last()))
    }
}

/// The text to log of the lines that scrolled into history since the last
/// call, one string per line. The number of lines is what the orchestrator
/// keeps the view anchored by.
pub fn drain_text(grid: &mut Grid) -> (texts: Vec<String>)
    ensures
        texts@.len() == old(grid)@.log.len(),
        forall|i: int|
            0 <= i < texts@.len() ==> (#[trigger] texts@[i])@ == logged(old(grid)@.log[i]),
        final(grid)@ == (Screen { log: Seq::empty(), ..old(grid)@ }),
{
    let lines = grid.take_log();
    let ghost log = old(grid)@.log;
    let mut texts: Vec<String> = Vec::new();
    let mut i: usize = 0;
    while i < lines.len()
        invariant
            i <= lines@.len(),
            lines@.map_values(|line: Vec<Cell>| line@) == log,
            texts@.len() == i,
            forall|k: int| 0 <= k < i ==> (#[trigger] texts@[k])@ == logged(log[k]),
        decreases lines@.len() - i,
    {
        assert(log[i as int] == lines@[i as int]@);
        let mut chars = chars_of_cells(&lines[i]);
        crate::text::trim_spaces(&mut chars);
        let len = chars.len();
        assert(chars@.subrange(0, len as int) =~= chars@);
        texts.push(crate::text::string_of(&chars, 0, len));
        i += 1;
    }
    texts
}

fn chars_of_cells(line: &Vec<Cell>) -> (chars: Vec<char>)
    ensures
        chars@ == crate::screen::cell_chars(line@),
{
    let mut chars: Vec<char> = Vec::new();
    let mut i: usize = 0;
    while i < line.len()
        invariant
            i <= line@.len(),
            chars@ =~= crate::screen::cell_chars(line@.take(i as int)),
        decreases line@.len() - i,
    {
        chars.push(line[i].c);
        i += 1;
    }
    assert(line@.take(line@.len() as int) =~= line@);
    chars
}

proof fn lemma_line_end(text: Seq<char>, i: int)
    requires
        0 <= i <= text.len(),
    ensures
        i <= line_end(text, i) <= text.len(),
        line_end(text, i) < text.len() ==> text[line_end(text, i)] == '\n',
    decreases text.len() - i,
{
    if i < text.len() && text[i] != '\n' {
        lemma_line_end(text, i + 1);
    }
}

/// The lines of a text: start and end of each, without what ends it.
fn split_lines(text: &Vec<char>) -> (spans: Vec<(usize, usize)>)
    ensures
        spans@.len() == lines_from(text@, 0).len(),
        forall|i: int|
            0 <= i < spans@.len() ==> {
                &&& (#[trigger] spans@[i]).0 <= spans@[i].1 <= text@.len()
                &&& text@.subrange(spans@[i].0 as int, spans@[i].1 as int) == lines_from(
                    text@,
                    0,
                )[i]
            },
{
    let mut spans: Vec<(usize, usize)> = Vec::new();
    let mut from: usize = 0;
    let ghost mut done: Seq<Seq<char>> = Seq::empty();
    assert(done + lines_from(text@, 0) =~= lines_from(text@, 0));
    while from < text.len()
        invariant
            from <= text@.len(),
            done.len() == spans@.len(),
            done + lines_from(text@, from as int) == lines_from(text@, 0),
            forall|i: int|
                0 <= i < spans@.len() ==> {
                    &&& (#[trigger] spans@[i]).0 <= spans@[i].1 <= text@.len()
                    &&& text@.subrange(spans@[i].0 as int, spans@[i].1 as int) == done[i]
                },
        decreases text@.len() - from,
    {
        let mut end: usize = from;
        while end < text.len() && text[end] != '\n'
            invariant
                from <= end <= text@.len(),
                line_end(text@, end as int) == line_end(text@, from as int),
            decreases text@.len() - end,
        {
            end += 1;
        }
        let ghost before = done;
        if end >= text.len() {
            spans.push((from, end));
            proof {
                done = done.push(text@.skip(from as int));
                assert(text@.subrange(from as int, end as int) =~= text@.skip(from as int));
                assert(before + seq![text@.skip(from as int)] =~= done + lines_from(
                    text@,
                    end as int,
                ));
            }
            from = end;
        } else {
            let stop = if end > from && text[end - 1] == '\r' {
                end - 1
            } else {
                end
            };
            spans.push((from, stop));
            proof {
                let line = without_cr(text@, from as int, end as int);
                done = done.push(line);
                assert(before + (seq![line] + lines_from(text@, end + 1)) =~= done + lines_from(
                    text@,
                    end + 1,
                ));
            }
            from = end + 1;
        }
    }
    assert(lines_from(text@, from as int) =~= Seq::empty());
    assert(done =~= lines_from(text@, 0));
    spans
}

/// The characters `start..end` in default cells.
fn cells_of_span(text: &Vec<char>, start: usize, end: usize) -> (cells: Vec<Cell>)
    requires
        start <= end <= text@.len(),
    ensures
        cells@ == text_cells(text@.subrange(start as int, end as int)),
{
    let mut cells: Vec<Cell> = Vec::new();
    let ghost line = text@.subrange(start as int, end as int);
    let mut k: usize = start;
    while k < end
        invariant
            start <= k <= end <= text@.len(),
            line == text@.subrange(start as int, end as int),
            cells@.len() == k - start,
            forall|j: int| 0 <= j < cells@.len() ==> cells@[j] == #[trigger] text_cells(line)[j],
        decreases end - k,
    {
        let mut cell = Cell::default();
        cell.c = text[k];
        cells.push(cell);
        k += 1;
    }
    assert(cells@ =~= text_cells(line));
    cells
}

/// Seed the scrollback with the last `max_lines` lines of a text log. Each
/// restored line uses default cell attributes; width is clamped to current
/// grid columns.
pub fn restore_lines(grid: &mut Grid, contents: &str, max_lines: usize)
    requires
        old(grid)@.wf(),
    ensures
        final(grid)@ == with_lines(
            old(grid)@,
            last_lines(lines_from(contents@, 0), max_lines as int),
        ),
        final(grid)@.wf(),
{
    let text = crate::text::chars_of(contents);
    let spans = split_lines(&text);
    let ghost all = lines_from(contents@, 0);
    let first: usize = if spans.len() > max_lines {
        spans.len() - max_lines
    } else {
        0
    };
    let ghost chosen = last_lines(all, max_lines as int);
    let mut i: usize = first;
    assert(chosen.take(0) =~= Seq::empty());
    while i < spans.len()
        invariant
            text@ == contents@,
            all == lines_from(contents@, 0),
            spans@.len() == all.len(),
            forall|k: int|
                0 <= k < spans@.len() ==> {
                    &&& (#[trigger] spans@[k]).0 <= spans@[k].1 <= text@.len()
                    &&& text@.subrange(spans@[k].0 as int, spans@[k].1 as int) == all[k]
                },
            chosen == all.skip(first as int),
            first <= i <= spans@.len(),
            grid@.wf(),
            grid@ == with_lines(old(grid)@, chosen.take(i - first)),
        decreases spans@.len() - i,
    {
        let (start, end) = spans[i];
        assert(spans@[i as int].0 <= spans@[i as int].1);
        let cells = cells_of_span(&text, start, end);
        proof {
            let n = i - first;
            assert(chosen[n] == all[i as int]);
            assert(chosen.take(n + 1).drop_last() =~= chosen.take(n));
            assert(chosen.take(n + 1).last() == chosen[n]);
        }
        grid.push_history_line(cells);
        i += 1;
    }
    assert(chosen.take(chosen.len() as int) =~= chosen);
}

// ---- What holds of every log ----

/// Restored lines are not logged again, and the screen itself stays as it is.
pub proof fn law_restored_lines_are_not_logged(scr: Screen, lines: Seq<Seq<char>>)
    ensures
        with_lines(scr, lines).log == scr.log,
        with_lines(scr, lines).cells == scr.cells,
    decreases lines.len(),
{
    if lines.len() > 0 {
        law_restored_lines_are_not_logged(scr, lines.drop_last());
    }
}

/// A log: each line followed by a line feed.
pub open spec fn log_text(lines: Seq<Seq<char>>) -> Seq<char>
    decreases lines.len(),
{
    if lines.len() == 0 {
        Seq::empty()
    } else {
        lines[0].push('\n') + log_text(lines.drop_first())
    }
}

proof fn lemma_line_end_of_first(line: Seq<char>, rest: Seq<char>, i: int)
    requires
        0 <= i <= line.len(),
        forall|k: int| 0 <= k < line.len() ==> #[trigger] line[k] != '\n',
    ensures
        line_end(line.push('\n') + rest, i) == line.len(),
    decreases line.len() - i,
{
    let text = line.push('\n') + rest;
    if i < line.len() {
        assert(text[i] == line[i]);
        lemma_line_end_of_first(line, rest, i + 1);
    } else {
        assert(text[i] == '\n');
    }
}

/// Lines are found the same wherever the text before them has been cut off.
proof fn lemma_lines_shift(head: Seq<char>, text: Seq<char>, from: int)
    requires
        0 <= from <= text.len(),
    ensures
        line_end(head + text, head.len() + from) == head.len() + line_end(text, from),
        lines_from(head + text, head.len() + from) == lines_from(text, from),
    decreases text.len() - from,
{
    let whole = head + text;
    lemma_line_end_shift(head, text, from);
    lemma_line_end(text, from);
    if from < text.len() {
        let end = line_end(text, from);
        if end < text.len() {
            lemma_lines_shift(head, text, end + 1);
            assert(without_cr(whole, head.len() + from, head.len() + end) =~= without_cr(
                text,
                from,
                end,
            ));
        } else {
            assert(whole.skip(head.len() + from) =~= text.skip(from));
        }
    }
}

proof fn lemma_line_end_shift(head: Seq<char>, text: Seq<char>, from: int)
    requires
        0 <= from <= text.len(),
    ensures
        line_end(head + text, head.len() + from) == head.len() + line_end(text, from),
    decreases text.len() - from,
{
    if from < text.len() {
        assert((head + text)[head.len() + from] == text[from]);
        if text[from] != '\n' {
            lemma_line_end_shift(head, text, from + 1);
        }
    }
}

/// What was logged is what is restored: the lines of a log are the lines
/// written to it, as long as none of them holds a line feed or ends in a
/// carriage return.
pub proof fn law_log_restores(lines: Seq<Seq<char>>)
    requires
        forall|i: int, k: int|
            0 <= i < lines.len() && 0 <= k < lines[i].len() ==> #[trigger] lines[i][k] != '\n',
        forall|i: int|
            0 <= i < lines.len() && (#[trigger] lines[i]).len() > 0 ==> lines[i].last() != '\r',
    ensures
        lines_from(log_text(lines), 0) == lines,
    decreases lines.len(),
{
    if lines.len() > 0 {
        let rest = lines.drop_first();
        let tail = log_text(rest);
        let line = lines[0];
        let head = line.push('\n');
        let text = head + tail;
        assert forall|i: int, k: int| 0 <= i < rest.len() && 0 <= k < rest[i].len() implies
            #[trigger] rest[i][k] != '\n' by {
            assert(rest[i] == lines[i + 1]);
            assert(lines[i + 1][k] != '\n');
        }
        assert forall|i: int| 0 <= i < rest.len() && (#[trigger] rest[i]).len() > 0 implies
            rest[i].last() != '\r' by {
            assert(rest[i] == lines[i + 1]);
        }
        law_log_restores(rest);
        lemma_line_end_of_first(line, tail, 0);
        lemma_lines_shift(head, tail, 0);
        if line.len() > 0 {
            assert(text[line.len() - 1] == line.last());
        }
        assert(without_cr(text, 0, line.len() as int) =~= line);
        assert(lines_from(text, 0) == seq![line] + lines_from(text, head.len() as int));
        assert(seq![line] + rest =~= lines);
    }
}

/// A logged line is the characters of its cells, less the spaces at the end.
pub proof fn law_logged_line(line: Seq<Cell>, i: int)
    ensures
        logged(line).len() <= line.len(),
        0 <= i < logged(line).len() ==> logged(line)[i] == line[i].c,
        logged(line).len() <= i < line.len() ==> line[i].c == ' ',
        logged(line).len() > 0 ==> logged(line).last() != ' ',
{
    let chars = crate::screen::cell_chars(line);
    crate::text::law_trimmed_text(chars);
    if logged(line).len() <= i < line.len() {
        assert(chars[i] == ' ');
    }
}

/// A text is read line by line: up to each line feed, a carriage return in
/// front of it left out; what follows the last line feed is a line if there is
/// anything.
pub proof fn law_lines_of_a_text(line: Seq<char>, rest: Seq<char>)
    requires
        forall|k: int| 0 <= k < line.len() ==> #[trigger] line[k] != '\n',
    ensures
        ({
            let bare = if line.len() > 0 && line.last() == '\r' {
                line.drop_last()
            } else {
                line
            };
            lines_from(line.push('\n') + rest, 0) == seq![bare] + lines_from(rest, 0)
        }),
        line.len() > 0 ==> lines_from(line, 0) == seq![line],
        lines_from(Seq::empty(), 0).len() == 0,
{
    let head = line.push('\n');
    let text = head + rest;
    lemma_line_end_of_first(line, rest, 0);
    lemma_lines_shift(head, rest, 0);
    if line.len() > 0 {
        assert(text[line.len() - 1] == line.last());
        assert(text.subrange(0, line.len() - 1) =~= line.drop_last());
        lemma_no_line_end(line, 0);
        assert(line.skip(0) =~= line);
    }
    assert(text.subrange(0, line.len() as int) =~= line);
}

proof fn lemma_no_line_end(line: Seq<char>, i: int)
    requires
        0 <= i <= line.len(),
        forall|k: int| 0 <= k < line.len() ==> #[trigger] line[k] != '\n',
    ensures
        line_end(line, i) == line.len(),
    decreases line.len() - i,
{
    if i < line.len() {
        assert(line[i] != '\n');
        lemma_no_line_end(line, i + 1);
    }
}

/// The last lines are those at the end, in their order: as many as are asked
/// for, or all of them where there are fewer.
pub proof fn law_last_lines(lines: Seq<Seq<char>>, n: int, i: int)
    requires
        0 <= n,
    ensures
        ({
            let last = last_lines(lines, n);
            &&& n <= lines.len() ==> last.len() == n
            &&& n > lines.len() ==> last.len() == lines.len()
            &&& 0 <= i < last.len() ==> last[i] == lines[lines.len() - last.len() + i]
        }),
{
}

/// Restored lines go to history one after the other, each character in a cell
/// of default colours and attributes.
pub proof fn law_restored_lines(scr: Screen, lines: Seq<Seq<char>>, line: Seq<char>, i: int)
    ensures
        with_lines(scr, Seq::empty()) == scr,
        with_lines(scr, lines.push(line)) == with_lines(scr, lines).remember(text_cells(line)),
        text_cells(line).len() == line.len(),
        0 <= i < line.len() ==> text_cells(line)[i] == (Cell {
            c: line[i],
            fg: 0xFFFFFF,
            bg: 0,
            flags: 0,
            combining_id: 0,
        }),
{
    assert(lines.push(line).drop_last() =~= lines);
}

} // verus!
