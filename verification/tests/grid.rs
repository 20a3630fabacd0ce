use gator::cell::{ansi_16, brighten_palette_color, xterm_256};
use gator::grid::{
    AbsCoord, Cell, CursorState, Grid, Selection, ATTR_WIDE, ATTR_WIDE_TRAILING,
};

fn write(g: &mut Grid, c: &mut CursorState, text: &str) {
    for ch in text.chars() {
        g.write_char(c, ch);
    }
}

fn rows(g: &Grid) -> Vec<String> {
    (0..g.rows())
        .map(|y| {
            let line: String = g.display_row(y).iter().map(|c| c.c).collect();
            line.trim_end().to_string()
        })
        .collect()
}

#[test]
fn text_wraps_and_scrolls_into_history() {
    let mut g = Grid::new(3, 2, 2);
    let mut c = CursorState::new();
    write(&mut g, &mut c, "abcdefghij");
    assert_eq!(rows(&g), vec!["ghi", "j"]);
    assert_eq!(g.scrollback_len(), 2);
    assert_eq!(g.row_text(0), "abc");
    assert_eq!(g.row_text(1), "def");
    assert_eq!((c.row, c.col), (1, 1));
    // The ceiling: the oldest line makes room, the others move up by one.
    write(&mut g, &mut c, "klm");
    assert_eq!(g.scrollback_len(), 2);
    assert_eq!(g.row_text(0), "def");
    assert_eq!(g.row_text(4), "");
    assert_eq!(g.pending_log.len(), 3);
}

#[test]
fn absolute_rows_are_stable_below_the_ceiling() {
    let mut g = Grid::new(3, 2, 10);
    let mut c = CursorState::new();
    write(&mut g, &mut c, "abcdef");
    let before: Vec<String> = (0..2).map(|r| g.row_text(r)).collect();
    write(&mut g, &mut c, "ghi");
    let after: Vec<String> = (0..2).map(|r| g.row_text(r)).collect();
    assert_eq!(before, after);
    assert_eq!(g.viewport_first_abs_row(), 1);
}

#[test]
fn no_history_is_kept_when_none_is_wanted() {
    let mut g = Grid::new(2, 1, 0);
    let mut c = CursorState::new();
    write(&mut g, &mut c, "abcd");
    assert_eq!(g.scrollback_len(), 0);
    assert!(g.pending_log.is_empty());
    g.push_history_line(vec![Cell::default()]);
    assert_eq!(g.scrollback_len(), 0);
}

#[test]
fn the_view_scrolls_within_the_history() {
    let mut g = Grid::new(2, 2, 10);
    let mut c = CursorState::new();
    write(&mut g, &mut c, "aabbccddee");
    assert_eq!(rows(&g), vec!["dd", "ee"]);
    g.scroll_lines(1);
    assert_eq!(rows(&g), vec!["cc", "dd"]);
    assert_eq!(g.displayed_abs_row(0), 2);
    g.scroll_lines(100);
    assert_eq!(g.view_offset, 3);
    assert_eq!(rows(&g), vec!["aa", "bb"]);
    g.scroll_lines(-2);
    assert_eq!(g.view_offset, 1);
    g.scroll_to_top();
    assert_eq!(g.view_offset, 3);
    g.scroll_to_bottom();
    assert!(g.at_bottom());
    g.enter_alt_screen();
    g.scroll_lines(1);
    g.scroll_to_top();
    assert!(g.at_bottom());
    assert!(g.display_row(9).is_empty());
}

#[test]
fn wide_characters_take_two_cells() {
    let mut g = Grid::new(4, 2, 10);
    let mut c = CursorState::new();
    write(&mut g, &mut c, "abc");
    g.write_wide(&mut c, '\u{4e2d}');
    let v = g.viewport();
    assert_eq!(v[4].c, '\u{4e2d}');
    assert!(v[4].flags & ATTR_WIDE != 0);
    assert!(v[5].flags & ATTR_WIDE_TRAILING != 0);
    assert_eq!((c.row, c.col), (1, 2));
    // The right half is passed over when text is taken out.
    let sel = Selection {
        anchor: AbsCoord { abs_row: 0, col: 1 },
        head: AbsCoord { abs_row: 1, col: 3 },
    };
    assert_eq!(g.get_selection_text(sel), "bc\n\u{4e2d}");
}

#[test]
fn wide_characters_without_wrapping_stay_in_the_row() {
    let mut g = Grid::new(3, 1, 10);
    let mut c = CursorState::new();
    g.set_autowrap(false);
    write(&mut g, &mut c, "abc");
    g.write_wide(&mut c, '\u{4e2d}');
    assert_eq!(g.viewport()[1].c, '\u{4e2d}');
    assert_eq!(c.col, 3);
}

#[test]
fn combining_marks_join_the_character_before() {
    let mut g = Grid::new(6, 1, 10);
    let mut c = CursorState::new();
    g.attach_combining(&c, '\u{301}');
    assert_eq!(g.cluster_string(&g.viewport()[0]), " ");
    write(&mut g, &mut c, "e");
    g.attach_combining(&c, '\u{301}');
    g.attach_combining(&c, '\u{302}');
    assert_eq!(g.cluster_string(&g.viewport()[0]), "e\u{301}\u{302}");
    let first = g.viewport()[0].combining_id;
    write(&mut g, &mut c, "o");
    g.attach_combining(&c, '\u{301}');
    g.attach_combining(&c, '\u{302}');
    // The same marks share a slot.
    assert_eq!(g.viewport()[1].combining_id, first);
    g.write_wide(&mut c, '\u{4e2d}');
    g.attach_combining(&c, '\u{301}');
    assert_eq!(g.cluster_string(&g.viewport()[2]), "\u{4e2d}\u{301}");
}

#[test]
fn selections_run_forwards_however_dragged() {
    let mut g = Grid::new(5, 2, 10);
    let mut c = CursorState::new();
    write(&mut g, &mut c, "ab cdxy");
    let a = AbsCoord { abs_row: 0, col: 1 };
    let b = AbsCoord { abs_row: 1, col: 0 };
    let down = Selection { anchor: a, head: b };
    let up = Selection { anchor: b, head: a };
    assert_eq!(down.normalized(), up.normalized());
    assert!(down.contains(AbsCoord { abs_row: 0, col: 4 }));
    assert!(!down.contains(AbsCoord { abs_row: 1, col: 1 }));
    assert_eq!(g.get_selection_text(down), "b cd\nx");
    assert_eq!(g.get_selection_text(up), "b cd\nx");
    assert_eq!(g.get_selection_text(Selection::new(a)), "b");
    assert!(g.can_select(down));
}

#[test]
fn region_scrolling_leaves_the_rest() {
    let mut g = Grid::new(1, 4, 10);
    let mut c = CursorState::new();
    write(&mut g, &mut c, "abcd");
    g.set_scroll_region(2, 3, &mut c);
    c.row = 2;
    g.line_feed(&mut c);
    assert_eq!(rows(&g), vec!["a", "c", "", "d"]);
    c.row = 1;
    g.reverse_index(&mut c);
    assert_eq!(rows(&g), vec!["a", "", "c", "d"]);
    assert_eq!(g.scrollback_len(), 0);
    c.row = 1;
    g.delete_lines(&c, 1);
    assert_eq!(rows(&g), vec!["a", "c", "", "d"]);
    g.insert_lines(&c, 9);
    assert_eq!(rows(&g), vec!["a", "", "", "d"]);
    c.row = 3;
    g.insert_lines(&c, 1);
    assert_eq!(rows(&g), vec!["a", "", "", "d"]);
}

#[test]
fn deleting_lines_undoes_inserting_them() {
    let mut g = Grid::new(1, 4, 10);
    let mut c = CursorState::new();
    write(&mut g, &mut c, "abcd");
    c.row = 1;
    g.insert_lines(&c, 2);
    assert_eq!(rows(&g), vec!["a", "", "", "b"]);
    g.delete_lines(&c, 2);
    assert_eq!(rows(&g), vec!["a", "b", "", ""]);
}

#[test]
fn erasing_and_shifting_in_a_row() {
    let mut g = Grid::new(5, 1, 10);
    let mut c = CursorState::new();
    write(&mut g, &mut c, "abcde");
    c.col = 1;
    g.erase_chars(&c, 2);
    assert_eq!(rows(&g), vec!["a  de"]);
    g.erase_in_line(&c, 1);
    assert_eq!(rows(&g), vec!["   de"]);
    g.insert_chars(&c, 1);
    assert_eq!(rows(&g), vec!["    d"]);
    g.delete_chars(&c, 3);
    assert_eq!(rows(&g), vec![" d"]);
    g.erase_in_line(&c, 2);
    assert_eq!(rows(&g), vec![""]);
}

#[test]
fn resizing_keeps_what_fits() {
    let mut g = Grid::new(4, 2, 10);
    let mut c = CursorState::new();
    write(&mut g, &mut c, "abcdefgh");
    g.resize(2, 3, &mut c);
    assert_eq!(rows(&g), vec!["ab", "ef", ""]);
    assert_eq!((c.row, c.col), (1, 1));
    g.resize(3, 3, &mut c);
    assert_eq!(rows(&g), vec!["ab", "ef", ""]);
    let before = g.viewport().to_vec();
    g.resize(3, 3, &mut c);
    assert_eq!(g.viewport(), before.as_slice());
}

#[test]
fn cursor_moves_stay_on_the_screen() {
    let g = Grid::new(10, 5, 0);
    let mut c = CursorState::new();
    g.move_rel(&mut c, 100, -3);
    assert_eq!((c.row, c.col), (0, 9));
    g.set_row(&mut c, 99);
    g.set_col(&mut c, 0);
    assert_eq!((c.row, c.col), (4, 0));
    c.save();
    g.move_rel(&mut c, 2, -2);
    c.restore();
    assert_eq!((c.row, c.col), (4, 0));
    c.backspace();
    assert_eq!(c.col, 0);
}

#[test]
fn links_are_recorded_where_text_is_written() {
    let mut g = Grid::new(4, 2, 10);
    let mut c = CursorState::new();
    g.set_active_link(Some("http://x".to_string()));
    write(&mut g, &mut c, "a");
    g.set_active_link(None);
    write(&mut g, &mut c, "b");
    assert_eq!(g.link_at(0, 0).unwrap(), "http://x");
    assert!(g.link_at(0, 1).is_none());
}

#[test]
fn bell_counter_counts() {
    let mut g = Grid::new(1, 1, 0);
    g.ring_bell();
    g.ring_bell();
    assert_eq!(g.bell_seq, 2);
    g.bell_seq = u64::MAX;
    g.ring_bell();
    assert_eq!(g.bell_seq, 0);
}

#[test]
fn palette_values() {
    assert_eq!(ansi_16(0), 0x000000);
    assert_eq!(xterm_256(16), 0x000000);
    assert_eq!(xterm_256(21), 0x0000FF);
    assert_eq!(xterm_256(231), 0xFFFFFF);
    assert_eq!(xterm_256(232), 0x080808);
    assert_eq!(xterm_256(255), 0xEEEEEE);
    assert_eq!(brighten_palette_color(ansi_16(1)), ansi_16(9));
    assert_eq!(brighten_palette_color(0x123456), 0x123456);
}
