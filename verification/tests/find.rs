use gator::find::FindState;
use gator::grid::{Cell, Grid};

fn seed_grid_with_rows(rows: &[&str]) -> Grid {
    let cols = rows.iter().map(|s| s.chars().count()).max().unwrap_or(1).max(1);
    let mut g = Grid::new(cols, 2, 100);
    for s in rows {
        let mut line: Vec<Cell> = s
            .chars()
            .map(|c| {
                let mut cell = Cell::default();
                cell.c = c;
                cell
            })
            .collect();
        line.resize(cols, Cell::default());
        g.push_history_line(line);
    }
    g
}

#[test]
fn finds_substring_across_rows() {
    let g = seed_grid_with_rows(&["the quick brown fox", "lazy dog jumps", "the end"]);
    let mut f = FindState::new();
    f.query = "the".into();
    f.recompute(&g);
    assert_eq!(f.matches.len(), 2);
    assert_eq!(f.matches[0].0.col, 0);
    assert_eq!(f.matches[0].0.abs_row, 0);
    assert_eq!(f.matches[1].0.abs_row, 2);
}

#[test]
fn empty_query_clears_matches() {
    let g = seed_grid_with_rows(&["hello"]);
    let mut f = FindState::new();
    f.query = "ll".into();
    f.recompute(&g);
    assert_eq!(f.matches.len(), 1);
    f.query.clear();
    f.recompute(&g);
    assert!(f.matches.is_empty());
}

#[test]
fn next_wraps() {
    let g = seed_grid_with_rows(&["aa", "aa", "aa"]);
    let mut f = FindState::new();
    f.query = "aa".into();
    f.recompute(&g);
    f.next();
    f.next();
    f.next();
    // After wrapping past 3 matches, we're back at index 0.
    assert_eq!(f.current, 0);
}

#[test]
fn prev_undoes_next() {
    let g = seed_grid_with_rows(&["aa", "aa", "aa"]);
    let mut f = FindState::new();
    f.push_char('a', &g);
    assert_eq!(f.matches.len(), 6);
    f.prev();
    assert_eq!(f.current, 5);
    f.next();
    assert_eq!(f.current, 0);
    f.next();
    f.prev();
    assert_eq!(f.current, 0);
    let mut none = FindState::new();
    none.next();
    none.prev();
    assert_eq!(none.current, 0);
}

#[test]
fn matches_do_not_overlap() {
    let g = seed_grid_with_rows(&["aaaaa"]);
    let mut f = FindState::new();
    f.push_char('a', &g);
    f.push_char('a', &g);
    let cols: Vec<(usize, usize)> = f.matches.iter().map(|m| (m.0.col, m.1.col)).collect();
    assert_eq!(cols, vec![(0, 1), (2, 3)]);
    f.pop_char(&g);
    assert_eq!(f.matches.len(), 5);
}

#[test]
fn columns_count_characters() {
    let g = seed_grid_with_rows(&["\u{e9}\u{e9}x\u{20ac}x"]);
    let mut f = FindState::new();
    f.push_char('\u{20ac}', &g);
    assert_eq!((f.matches[0].0.col, f.matches[0].1.col), (3, 3));
}

#[test]
fn scrolling_brings_the_match_into_view() {
    let mut rows: Vec<String> = (0..40).map(|i| format!("line {i}")).collect();
    rows[7] = "needle".to_string();
    let refs: Vec<&str> = rows.iter().map(|s| s.as_str()).collect();
    let mut g = seed_grid_with_rows(&refs);
    let mut f = FindState::new();
    f.query = "needle".into();
    f.recompute(&g);
    f.scroll_to_current(&mut g);
    // 40 lines of history, match in row 7, view of 2 rows: top row 6.
    assert_eq!(g.view_offset, 34);
    let shown: String = g.display_row(1).iter().map(|c| c.c).collect();
    assert_eq!(shown.trim_end(), "needle");
    g.enter_alt_screen();
    f.scroll_to_current(&mut g);
    assert_eq!(g.view_offset, 0);
}
