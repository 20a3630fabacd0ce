use gator::ansi::StateMutator;
use gator::grid::{CursorState, Grid};
use gator::params::CsiParams;
use gator::stream::ByteStream;

/// Feed bytes through the parser onto a screen; panics if they cannot all be
/// taken.
fn feed(stream: &mut ByteStream, grid: &mut Grid, cursor: &mut CursorState, input: &[u8]) -> Vec<u8> {
    let mut responses = Vec::new();
    let mut m = StateMutator { grid, cursor, responses: &mut responses };
    assert!(stream.feed(&mut m, input));
    responses
}

/// Feed bytes and capture query replies.
fn run(input: &[u8]) -> (Vec<u8>, CursorState) {
    let mut grid = Grid::new(80, 24, 100);
    let mut cursor = CursorState::new();
    let mut stream = ByteStream::new();
    let responses = feed(&mut stream, &mut grid, &mut cursor, input);
    (responses, cursor)
}

#[test]
fn da1_query_gets_vt102_reply() {
    let (resp, _) = run(b"\x1b[c");
    assert_eq!(resp, b"\x1b[?6c");
}

#[test]
fn dsr_cursor_position_reports_1_based() {
    let (resp, _) = run(b"\x1b[3;5H\x1b[6n");
    assert_eq!(resp, b"\x1b[3;5R");
}

#[test]
fn dsr_device_status_ok() {
    let (resp, _) = run(b"\x1b[5n");
    assert_eq!(resp, b"\x1b[0n");
}

#[test]
fn plain_text_produces_no_replies() {
    let (resp, cursor) = run(b"hello");
    assert!(resp.is_empty());
    assert_eq!(cursor.col, 5);
}

/// Feed bytes and return row 0 as a trimmed string.
fn row0(input: &[u8]) -> String {
    let (grid, _) = drive(20, 4, input);
    screen(&grid)[0].clone()
}

#[test]
fn cha_then_erase_line_repaint() {
    // A shell's per-keystroke repaint: print, jump to col 1, erase line,
    // reprint.
    assert_eq!(row0(b"ls\x1b[1G\x1b[Kls -l"), "ls -l");
}

#[test]
fn erase_in_line_to_eol() {
    assert_eq!(row0(b"hello\r\x1b[Khi"), "hi");
}

#[test]
fn delete_chars_shifts_left() {
    assert_eq!(row0(b"abcde\x1b[1G\x1b[2P"), "cde");
}

#[test]
fn insert_chars_shifts_right() {
    assert_eq!(row0(b"abc\x1b[1G\x1b[2@"), "  abc");
}

#[test]
fn cursor_back_then_overwrite() {
    assert_eq!(row0(b"abc\x1b[2DX"), "aXc");
}

/// Drive a sized grid and return it plus the cursor for inspection.
fn drive(cols: usize, rows: usize, input: &[u8]) -> (Grid, CursorState) {
    let mut grid = Grid::new(cols, rows, 100);
    let mut cursor = CursorState::new();
    let mut stream = ByteStream::new();
    feed(&mut stream, &mut grid, &mut cursor, input);
    (grid, cursor)
}

fn screen(grid: &Grid) -> Vec<String> {
    let cols = grid.cols();
    grid.viewport()
        .chunks(cols)
        .map(|row| row.iter().map(|c| c.c).collect::<String>().trim_end().to_string())
        .collect()
}

#[test]
fn autowrap_off_clamps_last_column() {
    // DECAWM off: past the right edge overwrites the last column.
    let (g, _) = drive(5, 2, b"\x1b[?7labcdefgh");
    assert_eq!(screen(&g)[0], "abcdh");
}

#[test]
fn alt_screen_round_trip_restores_primary() {
    let (g, c) = drive(20, 2, b"hi\x1b[?1049hGARBAGE\x1b[?1049l");
    assert_eq!(screen(&g)[0], "hi");
    // ?1049 restores the saved cursor too.
    assert_eq!((c.row, c.col), (0, 2));
}

#[test]
fn alt_screen_clears_on_enter() {
    let (g, _) = drive(20, 2, b"shell\x1b[?1049h");
    assert_eq!(screen(&g)[0], "");
}

#[test]
fn dectcem_toggles_cursor_visibility() {
    assert!(!drive(10, 2, b"\x1b[?25l").1.visible);
    assert!(drive(10, 2, b"\x1b[?25l\x1b[?25h").1.visible);
}

#[test]
fn decsc_decrc_via_esc_save_restore() {
    // Write at (0,0..3), ESC7 save, move + write, ESC8 restore.
    let (_, c) = drive(20, 4, b"abc\x1b7\x1b[3;10HX\x1b8");
    assert_eq!((c.row, c.col), (0, 3));
}

#[test]
fn decstbm_scrolls_only_within_region() {
    // Region = rows 2..3 (1-based). Park cursor at the region bottom
    // (row 3) and line-feed: only rows 2-3 rotate, row 1 is untouched.
    let (g, _) = drive(4, 4, b"top\x1b[2;3r\x1b[3;1Hone\rN\x1b[3;1H\ntwo");
    let s = screen(&g);
    assert_eq!(s[0], "top"); // outside region: preserved
    assert_eq!(s[2], "two"); // region bottom after scroll
}

#[test]
fn insert_and_delete_line_within_region() {
    // Three rows of text, delete the first line: lines shift up.
    let (g, _) = drive(4, 3, b"aaa\r\nbbb\r\nccc\x1b[1;1H\x1b[M");
    let s = screen(&g);
    assert_eq!(s[0], "bbb");
    assert_eq!(s[1], "ccc");
    assert_eq!(s[2], "");
}

#[test]
fn bracketed_paste_mode_tracked() {
    assert!(drive(10, 2, b"\x1b[?2004h").0.bracketed_paste);
    assert!(!drive(10, 2, b"\x1b[?2004h\x1b[?2004l").0.bracketed_paste);
}

// ---- More of the same ----

#[test]
fn chunks_do_not_matter() {
    // Cuts inside a UTF-8 character and inside an escape sequence.
    let text = "a\u{20ac}\x1b[1;31mb".as_bytes();
    let (whole, _) = drive(10, 2, text);
    for cut in 0..=text.len() {
        let mut grid = Grid::new(10, 2, 100);
        let mut cursor = CursorState::new();
        let mut stream = ByteStream::new();
        feed(&mut stream, &mut grid, &mut cursor, &text[..cut]);
        feed(&mut stream, &mut grid, &mut cursor, &text[cut..]);
        assert_eq!(grid.viewport(), whole.viewport());
        assert_eq!(cursor.col, 3);
    }
    assert_eq!(whole.viewport()[1].c, '\u{20ac}');
    assert_eq!(whole.viewport()[2].fg, gator::cell::ansi_16(1));
}

#[test]
fn alternate_screen_keeps_history_out() {
    let (g, _) = drive(4, 2, b"\x1b[?1049ha\r\nb\r\nc\r\nd");
    assert!(g.is_alt());
    assert_eq!(g.scrollback_len(), 0);
    assert_eq!(screen(&g), vec!["c", "d"]);
}

#[test]
fn printing_below_the_last_row_is_cut_off() {
    let mut grid = Grid::new(4, 2, 10);
    let mut cursor = CursorState::new();
    let mut responses = Vec::new();
    let mut stream = ByteStream::new();
    let mut m = StateMutator { grid: &mut grid, cursor: &mut cursor, responses: &mut responses };
    assert!(!stream.feed(&mut m, b"ab\x1b[9;1Hcd"));
    assert_eq!(cursor.row, 8);
    assert_eq!(grid.viewport()[0].c, 'a');
}

#[test]
fn bel_rings_and_mouse_modes_are_tracked() {
    let (g, _) = drive(10, 2, b"\x07\x07\x1b[?1000h\x1b[?1006h");
    assert_eq!(g.bell_seq, 2);
    assert!(g.mouse_mode.button && g.mouse_mode.sgr_encoded && !g.mouse_mode.drag);
    let (g, _) = drive(10, 2, b"\x1b[?1002h\x1b[?1002l");
    assert!(!g.mouse_mode.enabled());
}

#[test]
fn tab_backspace_and_reverse_index() {
    let (g, c) = drive(20, 2, b"a\tb\x08\x08X");
    assert_eq!(screen(&g)[0], "a      Xb");
    assert_eq!(c.col, 8);
    let (g, _) = drive(4, 2, b"aa\r\nbb\x1b[1;1H\x1bM");
    assert_eq!(screen(&g), vec!["", "aa"]);
}

#[test]
fn colors_of_all_kinds() {
    let (g, _) = drive(10, 2, b"\x1b[38;5;196ma\x1b[48;2;1;2;3mb\x1b[0mc\x1b[97md\x1b[39;49me");
    let v = g.viewport();
    assert_eq!(v[0].fg, 0xFF0000);
    assert_eq!(v[1].bg, 0x010203);
    assert_eq!((v[2].fg, v[2].bg), (0xFFFFFF, 0x000000));
    assert_eq!(v[3].fg, 0xFFFFFF);
    assert_eq!(v[4].fg, 0xFFFFFF);
}

#[test]
fn parameters_are_handed_over_in_groups() {
    // Colon subparameters stay with their group.
    let mut stream = ByteStream::new();
    let rec = stream.parse(b"\x1b[38:5:1;4m");
    assert_eq!(rec.actions.len(), 1);
    let p = CsiParams { groups: vec![vec![38, 5, 1], vec![4]] };
    assert_eq!(p.len(), 2);
    assert_eq!(p.first(0), Some(38));
    match &rec.actions[0] {
        gator::stream::Recorded::Csi { params, action, .. } => {
            assert_eq!(params.groups, p.groups);
            assert_eq!(*action, 'm');
        }
        _ => panic!("not a control sequence"),
    }
}

/// Feed bytes to a screen of this size; what came of it and the replies.
fn tries(cols: usize, rows: usize, input: &[u8]) -> (bool, Vec<u8>) {
    let mut grid = Grid::new(cols, rows, 10);
    let mut cursor = CursorState::new();
    let mut responses = Vec::new();
    let mut m =
        StateMutator { grid: &mut grid, cursor: &mut cursor, responses: &mut responses };
    let all = ByteStream::new().feed(&mut m, input);
    (all, responses)
}

#[test]
fn a_screen_without_cells_answers_queries() {
    for (cols, rows) in [(0, 0), (3, 0), (0, 3)] {
        let (all, replies) = tries(cols, rows, b"\x1b[c\x1b[5n\x1b[6n\x1b[31m\x1b[?2004h\x07\r");
        assert!(all);
        assert_eq!(replies, b"\x1b[?6c\x1b[0n\x1b[1;1R");
    }
}

#[test]
fn a_screen_without_cells_refuses_what_needs_them() {
    for (cols, rows) in [(0, 0), (3, 0), (0, 3)] {
        for input in [&b"x"[..], b"\x1b[A", b"\x1b[2C", b"\x1b[J"] {
            assert!(!tries(cols, rows, input).0);
        }
        // What came before is done, what comes after is not.
        assert_eq!(tries(cols, rows, b"\x1b[5nx\x1b[c"), (false, b"\x1b[0n".to_vec()));
    }
    for input in [&b"\x1b[K"[..], b"\x1b[P", b"\x1b[X", b"\x1b[r", b"\x1b[?1049h", b"\n"] {
        assert!(!tries(3, 0, input).0);
        assert!(!tries(0, 0, input).0);
        assert!(tries(0, 3, input).0);
        assert!(tries(3, 3, input).0);
    }
    for input in [&b"\x1b[L"[..], b"\x1b[M", b"\x1bM"] {
        assert!(!tries(3, 0, input).0);
        assert!(tries(0, 0, input).0);
        assert!(tries(0, 3, input).0);
    }
    // Leaving the alternate screen while not on it changes nothing.
    assert!(tries(3, 0, b"\x1b[?25;1049l").0);
    assert!(!tries(3, 0, b"\x1b[?25;1047h").0);
}
