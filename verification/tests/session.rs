use gator::grid::{Cell, CursorState, Grid};
use gator::session::{drain_text, restore_lines};

#[test]
fn restore_truncates_to_last_n_lines_and_clamps_width() {
    // 5 lines, request the last 2.
    let contents = "one\ntwo\nthree\nfour\nfive_too_long_for_4_cols\n";

    let mut g = Grid::new(4, 2, 100);
    restore_lines(&mut g, contents, 2);
    assert_eq!(g.scrollback_len(), 2);
    // Scroll the view to the top so display_row pulls from scrollback.
    g.scroll_lines(g.scrollback_len() as isize);
    let row0: String = g.display_row(0).iter().map(|c| c.c).collect();
    let row1: String = g.display_row(1).iter().map(|c| c.c).collect();
    assert_eq!(row0.trim_end(), "four");
    // Width clamped to 4: "five_too_long..." becomes "five".
    assert_eq!(row1, "five");
}

#[test]
fn drain_text_consumes_pending_log() {
    let mut g = Grid::new(4, 2, 100);
    g.pending_log.push(vec![Cell::default(); 4]);
    let n = drain_text(&mut g).len();
    assert_eq!(n, 1);
    assert!(g.pending_log.is_empty());
}

#[test]
fn lines_end_as_in_text_files() {
    let mut g = Grid::new(4, 2, 100);
    restore_lines(&mut g, "a\r\n\nb\rc\nd\r", 100);
    assert_eq!(g.scrollback_len(), 4);
    assert_eq!(g.row_text(0), "a   ");
    assert_eq!(g.row_text(1), "    ");
    assert_eq!(g.row_text(2), "b\rc ");
    assert_eq!(g.row_text(3), "d\r  ");
    let mut none = Grid::new(4, 2, 100);
    restore_lines(&mut none, "", 10);
    restore_lines(&mut none, "x\n", 0);
    assert_eq!(none.scrollback_len(), 0);
}

#[test]
fn what_is_logged_is_restored() {
    let mut g = Grid::new(6, 2, 100);
    let mut cursor = CursorState::new();
    for line in ["one", "", "  two"] {
        for c in line.chars() {
            g.write_char(&mut cursor, c);
        }
        cursor.col = 0;
        g.line_feed(&mut cursor);
    }
    let texts = drain_text(&mut g);
    assert_eq!(texts, vec!["one", ""]);
    let mut log = String::new();
    for t in &texts {
        log.push_str(t);
        log.push('\n');
    }
    let mut again = Grid::new(6, 2, 100);
    restore_lines(&mut again, &log, 10);
    assert_eq!(again.scrollback_len(), 2);
    // Restored lines are not logged again.
    assert!(again.pending_log.is_empty());
    assert_eq!(again.row_text(0), g.row_text(0));
    assert_eq!(again.row_text(1), g.row_text(1));
}
