use gator::cell::{ATTR_BOLD, ATTR_UNDERLINE};
use gator::grid::{Cell, CursorState, CursorStyle, Grid};
use gator::render::{channels, draw_cell, CrosstermRenderer, FrameDiff};

fn grid_with(text: &str) -> (Grid, CursorState) {
    let mut g = Grid::new(3, 2, 10);
    let mut c = CursorState::new();
    for ch in text.chars() {
        g.write_char(&mut c, ch);
    }
    (g, c)
}

#[test]
fn first_frame_draws_everything_and_the_next_nothing() {
    let (g, _) = grid_with("ab");
    let mut d = FrameDiff::new(3, 2);
    let dirty = d.calculate_diff(&g);
    assert_eq!(dirty.len(), 6);
    assert_eq!((dirty[4].0, dirty[4].1), (1, 1));
    assert_eq!(dirty[1].2.c, 'b');
    assert!(d.calculate_diff(&g).is_empty());
    d.invalidate(1);
    d.invalidate(99);
    let dirty = d.calculate_diff(&g);
    assert_eq!(dirty.len(), 1);
    assert_eq!((dirty[0].0, dirty[0].1), (1, 0));
    d.resize(3, 2);
    assert_eq!(d.calculate_diff(&g).len(), 6);
}

#[test]
fn cursor_cells_repaint() {
    let (g, mut c) = grid_with("ab");
    let mut r = CrosstermRenderer::new(3, 2);
    let (draws, at) = r.plan_frame(&g, &c);
    assert_eq!(draws.len(), 6);
    assert_eq!(at, Some((2, 0)));
    // The cursor cell is drawn in swapped colors.
    assert_eq!(draws[2].fg, (0, 0, 0));
    assert_eq!(draws[2].bg, (255, 255, 255));
    assert_eq!(draws[1].fg, (255, 255, 255));
    r.finish_frame(at);
    c.col = 0;
    let (draws, at) = r.plan_frame(&g, &c);
    let cells: Vec<(usize, usize)> = draws.iter().map(|d| (d.x, d.y)).collect();
    assert_eq!(cells, vec![(0, 0), (2, 0)]);
    r.finish_frame(at);
    c.visible = false;
    let (draws, at) = r.plan_frame(&g, &c);
    assert_eq!(draws.len(), 1);
    assert_eq!(draws[0].c, 'a');
    assert!(at.is_none());
}

#[test]
fn a_cursor_outside_is_drawn_at_the_edge() {
    let (g, mut c) = grid_with("");
    c.col = 50;
    c.row = 50;
    let mut r = CrosstermRenderer::new(3, 2);
    r.started(3, 2);
    let (_, at) = r.plan_frame(&g, &c);
    assert_eq!(at, Some((2, 1)));
    r.resize(1, 1);
    assert!(r.last_cursor.is_none());
}

#[test]
fn colors_and_attributes_of_a_draw() {
    assert_eq!(channels(0x123456), (0x12, 0x34, 0x56));
    assert_eq!(channels(0xFF000000), (0, 0, 0));
    let mut cell = Cell::default();
    cell.c = 'x';
    cell.fg = 0x010203;
    cell.flags = ATTR_BOLD | ATTR_UNDERLINE;
    let d = draw_cell(4, 5, &cell, false);
    assert_eq!((d.x, d.y, d.c, d.fg), (4, 5, 'x', (1, 2, 3)));
    assert!(d.bold && d.underline && !d.italic);
    assert_eq!(draw_cell(4, 5, &cell, true).bg, (1, 2, 3));
    assert_eq!(CursorStyle::default(), CursorStyle::Block);
}
