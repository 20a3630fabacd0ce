use gator::cell::{ansi_16, ATTR_BOLD, ATTR_ITALIC};
use gator::gpu::{
    alpha_channel, clamp_cell, find_label, grid_dims, overlay_glyphs, plan_frame, range_contains,
    FindRender, Shelf, Theme, ATLAS_SIZE,
};
use gator::grid::{AbsCoord, CursorState, CursorStyle, Grid, Selection};

fn at(abs_row: usize, col: usize) -> AbsCoord {
    AbsCoord { abs_row, col }
}

fn theme() -> Theme {
    Theme { default_fg: 0xAAAAAA, default_bg: 0x111111, bold_is_bright: true }
}

#[test]
fn shelves_pack_without_overlap() {
    let mut s = Shelf::new();
    let mut rects: Vec<(u32, u32, u32, u32)> = vec![(0, 0, 1, 1)];
    for i in 0..600u32 {
        let (w, h) = (50 + i % 90, 30 + i % 40);
        if let Some((x, y)) = s.allocate(w, h) {
            assert!(x + w <= ATLAS_SIZE && y + h <= ATLAS_SIZE);
            for &(ox, oy, ow, oh) in &rects {
                assert!(x >= ox + ow || ox >= x + w || y >= oy + oh || oy >= y + h);
            }
            rects.push((x, y, w, h));
        }
    }
    assert!(rects.len() > 300);
    // Full in the end, and too large is refused at once.
    assert!(s.allocate(10, 2000).is_none());
    assert!(s.allocate(ATLAS_SIZE + 1, 1).is_none());
    s.reset();
    assert_eq!(s.allocate(5, 5), Some((2, 0)));
}

#[test]
fn the_window_holds_so_many_cells() {
    assert_eq!(grid_dims(960, 600, 0, 10, 20), (96, 30));
    assert_eq!(grid_dims(960, 600, 8, 10, 20), (94, 29));
    assert_eq!(grid_dims(5, 5, 8, 10, 20), (1, 1));
    assert_eq!(clamp_cell(7, 99, 8, 9), (7, 8));
    assert_eq!(clamp_cell(7, 99, 0, 0), (0, 0));
}

#[test]
fn coverage_is_the_alpha_channel() {
    assert_eq!(alpha_channel(&vec![1, 2, 3, 4, 5, 6, 7, 8]), vec![4, 8]);
    assert_eq!(alpha_channel(&vec![1, 2, 3, 4, 5]), vec![4, 0]);
    assert!(alpha_channel(&vec![]).is_empty());
}

#[test]
fn ranges_contain_in_reading_order() {
    let ranges = [(at(1, 5), at(2, 1)), (at(4, 0), at(4, 0))];
    assert!(range_contains(&ranges, at(1, 9)));
    assert!(range_contains(&ranges, at(2, 0)));
    assert!(!range_contains(&ranges, at(1, 4)));
    assert!(range_contains(&ranges, at(4, 0)));
    assert!(!range_contains(&[], at(0, 0)));
}

#[test]
fn a_frame_paints_cells_cursor_and_highlights() {
    let mut g = Grid::new(4, 1, 10);
    let mut c = CursorState::new();
    c.pen.fg = ansi_16(1);
    c.pen.flags = ATTR_BOLD | ATTR_ITALIC;
    g.write_char(&mut c, 'a');
    c.pen = Default::default();
    g.write_char(&mut c, 'b');
    let t = theme();
    let frame = plan_frame(&g, &t, &c, true, None, None);
    assert_eq!(frame.len(), 4);
    let a = frame[0].glyph.as_ref().unwrap();
    // Bold takes the bright color.
    assert_eq!((a.cluster.as_str(), a.bold, a.italic, a.color), ("a", true, true, ansi_16(9)));
    let b = frame[1].glyph.as_ref().unwrap();
    assert_eq!((b.color, b.bold), (0xAAAAAA, false));
    assert!(frame[1].back.is_none());
    // The block cursor stands on a blank: no glyph, swapped background.
    assert!(frame[2].glyph.is_none());
    assert_eq!(frame[2].back.unwrap().color, 0xAAAAAA);
    assert!(frame[3].back.is_none());

    // A selection over everything cancels the block cursor out.
    let sel = Some(Selection { anchor: at(0, 0), head: at(0, 3) });
    let frame = plan_frame(&g, &t, &c, true, sel, None);
    assert_eq!(frame[1].glyph.as_ref().unwrap().color, 0x111111);
    assert!(frame[2].back.is_none());
    // So does a find match under the selection.
    let ranges = [(at(0, 1), at(0, 1))];
    let find = FindRender { query: "b", ranges: &ranges, current: 0 };
    let frame = plan_frame(&g, &t, &c, false, sel, Some(&find));
    assert_eq!(frame[1].glyph.as_ref().unwrap().color, 0xAAAAAA);
    assert_eq!(frame[0].glyph.as_ref().unwrap().color, 0x111111);
    assert_eq!(frame[2].back.unwrap().color, 0xAAAAAA);
}

#[test]
fn other_cursor_shapes_are_accents() {
    let mut g = Grid::new(3, 1, 10);
    let mut c = CursorState::new();
    g.write_wide(&mut c, '\u{4e2d}');
    c.col = 0;
    c.style = CursorStyle::Underline;
    let frame = plan_frame(&g, &theme(), &c, true, None, None);
    let accent = frame[0].accent.unwrap();
    assert_eq!((accent.style, accent.span, accent.color), (CursorStyle::Underline, 2, 0xAAAAAA));
    assert!(frame[0].back.is_none());
    assert!(frame[1].glyph.is_none() && frame[1].back.is_none());
    c.col = 1;
    c.style = CursorStyle::Bar;
    let frame = plan_frame(&g, &theme(), &c, true, None, None);
    assert!(frame[1].accent.is_none());
    // Not while scrolled up, hidden, or in the off phase.
    c.col = 2;
    assert!(plan_frame(&g, &theme(), &c, true, None, None)[2].accent.is_some());
    assert!(plan_frame(&g, &theme(), &c, false, None, None)[2].accent.is_none());
}

#[test]
fn the_overlay_says_where_the_search_stands() {
    let ranges = [(at(0, 0), at(0, 0)); 12];
    let f = FindRender { query: "a b", ranges: &ranges, current: 9 };
    let label: String = find_label(&f).into_iter().collect();
    assert_eq!(label, "find: a b  10/12");
    let none = FindRender { query: "", ranges: &[], current: 0 };
    let label: String = find_label(&none).into_iter().collect();
    assert_eq!(label, "find:   no matches");
    assert_eq!(
        overlay_glyphs(&f, 9),
        vec![(0, 'f'), (1, 'i'), (2, 'n'), (3, 'd'), (4, ':'), (6, 'a'), (8, 'b')]
    );
}
