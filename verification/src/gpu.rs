//! What the GPU compositor draws: glyph atlas layout, the paint plan of a
//! frame, and the find overlay.

use vstd::prelude::*;

use crate::cell::{brighten_palette_color, Cell, ATTR_BOLD, ATTR_ITALIC, ATTR_WIDE};
use crate::cursor::{CursorState, CursorStyle};
use crate::find::FindMatch;
use crate::grid::Grid;
use crate::screen::Screen;
use crate::selection::{AbsCoord, Selection};

verus! {

/// Width and height of the glyph atlas.
pub const ATLAS_SIZE: u32 = 2048;

/// Sentinel colors a default cell carries (SGR reset / 39 / 49). The renderer
/// maps these to the configured fg/bg so theming needs no grid changes.
pub const SENTINEL_FG: u32 = 0xFFFFFF;

pub const SENTINEL_BG: u32 = 0x000000;

// ---- The glyph atlas ----

/// Simple shelf allocator over a single atlas texture. The texel at (0, 0) is
/// reserved for background quads.
#[derive(Debug, Clone, Copy, PartialEq, Eq, Structural)]
pub struct Shelf {
    pub cursor_x: u32,
    pub cursor_y: u32,
    pub shelf_h: u32,
}

impl Shelf {
    /// Nothing packed yet but the reserved texel.
    pub open spec fn fresh() -> Shelf {
        Shelf { cursor_x: 2, cursor_y: 0, shelf_h: 1 }
    }

    pub open spec fn wf(self) -> bool {
        self.cursor_x <= ATLAS_SIZE && self.cursor_y + self.shelf_h <= ATLAS_SIZE
    }

    /// The shelf on which something `w` wide goes: the current one, or the
    /// next if it is too long for that.
    pub open spec fn for_width(self, w: u32) -> Shelf {
        if self.cursor_x + w > ATLAS_SIZE {
            Shelf { cursor_x: 0, cursor_y: (self.cursor_y + self.shelf_h) as u32, shelf_h: 0 }
        } else {
            self
        }
    }

    /// The allocator after a request for `w` by `h` texels, and where they
    /// are, if there is room.
    pub open spec fn placed(self, w: u32, h: u32) -> (Shelf, Option<(u32, u32)>) {
        let shelf = self.for_width(w);
        if w > ATLAS_SIZE || h > ATLAS_SIZE {
            (self, None)
        } else if shelf.cursor_y + h > ATLAS_SIZE {
            (shelf, None)
        } else {
            (
                Shelf {
                    cursor_x: (shelf.cursor_x + w) as u32,
                    cursor_y: shelf.cursor_y,
                    shelf_h: if shelf.shelf_h >= h {
                        shelf.shelf_h
                    } else {
                        h
                    },
                },
                Some((shelf.cursor_x, shelf.cursor_y)),
            )
        }
    }

    /// Is this texel out of reach of later requests?
    pub open spec fn taken(self, x: int, y: int) -> bool {
        y < self.cursor_y || (y < self.cursor_y + self.shelf_h && x < self.cursor_x)
    }

    pub fn new() -> (shelf: Self)
        ensures
            shelf == Shelf::fresh(),
            shelf.wf(),
    {
        Shelf { cursor_x: 2, cursor_y: 0, shelf_h: 1 }
    }

    /// Start over (used on DPI change). Stale pixels remain in the texture but
    /// are simply no longer referenced by any glyph.
    pub fn reset(&mut self)
        ensures
            *final(self) == Shelf::fresh(),
            final(self).wf(),
    {
        *self = Shelf::new();
    }

    /// Find room for a bitmap; returns its top-left origin. None = the atlas
    /// is full, and the caller falls back to no glyph.
    pub fn allocate(&mut self, w: u32, h: u32) -> (origin: Option<(u32, u32)>)
        requires
            old(self).wf(),
        ensures
            (*final(self), origin) == old(self).placed(w, h),
            final(self).wf(),
    {
        if w > ATLAS_SIZE || h > ATLAS_SIZE {
            return None;
        }
        if self.cursor_x + w > ATLAS_SIZE {
            self.cursor_x = 0;
            self.cursor_y = self.cursor_y + self.shelf_h;
            self.shelf_h = 0;
        }
        if self.cursor_y + h > ATLAS_SIZE {
            return None;
        }
        let (x, y) = (self.cursor_x, self.cursor_y);
        self.cursor_x = self.cursor_x + w;
        if h > self.shelf_h {
            self.shelf_h = h;
        }
        Some((x, y))
    }
}

/// A bitmap is given texels within the atlas that no earlier one holds, and
/// none of them, nor any held before, is ever given out again.
pub proof fn law_atlas_never_overlaps(shelf: Shelf, w: u32, h: u32, x: int, y: int)
    requires
        shelf.wf(),
        0 <= x,
        0 <= y,
    ensures
        ({
            let (next, origin) = shelf.placed(w, h);
            &&& shelf.taken(x, y) ==> next.taken(x, y)
            &&& origin matches Some(o) ==> {
                &&& o.0 + w <= ATLAS_SIZE
                &&& o.1 + h <= ATLAS_SIZE
                &&& o.0 <= x < o.0 + w && o.1 <= y < o.1 + h ==> !shelf.taken(x, y)
                    && next.taken(x, y)
            }
        }),
{
}

/// The texel reserved for background quads is never given out.
pub proof fn law_white_texel_reserved()
    ensures
        Shelf::fresh().taken(0, 0),
{
}

// ---- Sizes ----

/// Columns or rows that fit `extent` pixels with padding on both sides: at
/// least one.
pub open spec fn cells_in(extent: int, padding: int, cell: int) -> int {
    let n = crate::screen::minus(extent, 2 * padding) / cell;
    if n >= 1 {
        n
    } else {
        1
    }
}

/// Columns/rows that fit the surface (physical px / physical cell),
/// accounting for padding on both sides.
pub fn grid_dims(width: u32, height: u32, padding: u32, cell_w: u32, cell_h: u32) -> (dims: (
    usize,
    usize,
))
    requires
        2 * padding <= u32::MAX,
        cell_w > 0,
        cell_h > 0,
    ensures
        dims.0 == cells_in(width as int, padding as int, cell_w as int),
        dims.1 == cells_in(height as int, padding as int, cell_h as int),
{
    let p = padding * 2;
    let cols = width.saturating_sub(p) / cell_w;
    let rows = height.saturating_sub(p) / cell_h;
    (
        if cols >= 1 {
            cols as usize
        } else {
            1
        },
        if rows >= 1 {
            rows as usize
        } else {
            1
        },
    )
}

/// A pixel's column and row, kept on a screen of this size.
pub fn clamp_cell(col: usize, row: usize, cols: usize, rows: usize) -> (cell: (usize, usize))
    ensures
        cell.0 == crate::screen::least(col as int, crate::screen::minus(cols as int, 1)),
        cell.1 == crate::screen::least(row as int, crate::screen::minus(rows as int, 1)),
        col < cols ==> cell.0 == col,
        row < rows ==> cell.1 == row,
        0 < cols <= col ==> cell.0 == cols - 1,
        0 < rows <= row ==> cell.1 == rows - 1,
{
    let (last_col, last_row) = (cols.saturating_sub(1), rows.saturating_sub(1));
    (
        if col <= last_col {
            col
        } else {
            last_col
        },
        if row <= last_row {
            row
        } else {
            last_row
        },
    )
}

/// Every fourth byte of an RGBA bitmap, the last pixel counting as clear where
/// it is cut short.
pub open spec fn alphas(data: Seq<u8>) -> Seq<u8> {
    Seq::new(
        ((data.len() + 3) / 4) as nat,
        |i: int|
            if 4 * i + 3 < data.len() {
                data[4 * i + 3]
            } else {
                0
            },
    )
}

/// Coverage of a color or subpixel bitmap: its alpha channel.
pub fn alpha_channel(data: &Vec<u8>) -> (coverage: Vec<u8>)
    ensures
        coverage@ == alphas(data@),
{
    let mut coverage: Vec<u8> = Vec::new();
    let mut i: usize = 0;
    while i < data.len()
        invariant
            i == 4 * coverage@.len() || (i == data.len() && coverage@.len() == (data.len() + 3)
                / 4),
            i <= data.len(),
            coverage@.len() <= (data.len() + 3) / 4,
            forall|k: int|
                0 <= k < coverage@.len() ==> coverage@[k] == #[trigger] alphas(data@)[k],
        decreases data.len() - i,
    {
        if data.len() - i > 3 {
            coverage.push(data[i + 3]);
            i += 4;
        } else {
            coverage.push(0);
            i = data.len();
        }
    }
    assert(coverage@ =~= alphas(data@));
    coverage
}

// ---- The paint plan of a frame ----

/// Per-frame data the orchestrator hands the renderer to draw the find UI.
pub struct FindRender<'a> {
    pub query: &'a str,
    pub ranges: &'a [FindMatch],
    pub current: usize,
}

/// Configured colors.
#[derive(Debug, Clone, Copy, PartialEq, Eq, Structural)]
pub struct Theme {
    pub default_fg: u32,
    pub default_bg: u32,
    /// "Bold = bright" remap of the basic palette at draw time.
    pub bold_is_bright: bool,
}

/// Background of `span` columns.
#[derive(Debug, Clone, Copy, PartialEq, Eq, Structural)]
pub struct Back {
    pub span: usize,
    pub color: u32,
}

/// Underline or bar cursor over `span` columns.
#[derive(Debug, Clone, Copy, PartialEq, Eq, Structural)]
pub struct Accent {
    pub style: CursorStyle,
    pub span: usize,
    pub color: u32,
}

/// A grapheme cluster and how it is drawn.
#[derive(Debug, PartialEq, Eq)]
pub struct Glyph {
    pub cluster: String,
    pub bold: bool,
    pub italic: bool,
    pub color: u32,
}

/// What is painted for one displayed cell.
#[derive(Debug, PartialEq, Eq)]
pub struct CellPaint {
    pub x: usize,
    pub y: usize,
    pub back: Option<Back>,
    pub accent: Option<Accent>,
    pub glyph: Option<Glyph>,
}

pub struct GlyphModel {
    pub cluster: Seq<char>,
    pub bold: bool,
    pub italic: bool,
    pub color: u32,
}

pub struct PaintModel {
    pub x: usize,
    pub y: usize,
    pub back: Option<Back>,
    pub accent: Option<Accent>,
    pub glyph: Option<GlyphModel>,
}

impl View for CellPaint {
    type V = PaintModel;

    open spec fn view(&self) -> PaintModel {
        PaintModel {
            x: self.x,
            y: self.y,
            back: self.back,
            accent: self.accent,
            glyph: match self.glyph {
                Some(g) => Some(
                    GlyphModel {
                        cluster: g.cluster@,
                        bold: g.bold,
                        italic: g.italic,
                        color: g.color,
                    },
                ),
                None => None,
            },
        }
    }
}

impl Theme {
    /// Text color of a cell, the configured one where the cell has none of its
    /// own. Dim navy/red/green on a dark background is unreadable, so bold
    /// text takes the bright counterpart of a basic palette color.
    pub open spec fn text(self, cell: Cell) -> u32 {
        let own = if cell.fg == SENTINEL_FG {
            self.default_fg
        } else {
            cell.fg
        };
        if self.bold_is_bright && cell.flags & ATTR_BOLD != 0 {
            crate::cell::bright_from(own, 0)
        } else {
            own
        }
    }

    /// Background color of a cell.
    pub open spec fn ground(self, cell: Cell) -> u32 {
        if cell.bg == SENTINEL_BG {
            self.default_bg
        } else {
            cell.bg
        }
    }

    fn text_color(&self, cell: &Cell) -> (color: u32)
        ensures
            color == self.text(*cell),
    {
        let own = if cell.fg == SENTINEL_FG {
            self.default_fg
        } else {
            cell.fg
        };
        if self.bold_is_bright && cell.flags & ATTR_BOLD != 0 {
            brighten_palette_color(own)
        } else {
            own
        }
    }

    fn ground_color(&self, cell: &Cell) -> (color: u32)
        ensures
            color == self.ground(*cell),
    {
        if cell.bg == SENTINEL_BG {
            self.default_bg
        } else {
            cell.bg
        }
    }
}

/// Does any (start, end) inclusive range contain `p` in reading order?
pub open spec fn in_ranges(ranges: Seq<FindMatch>, p: AbsCoord) -> bool {
    exists|i: int|
        0 <= i < ranges.len() && crate::selection::between(
            (#[trigger] ranges[i]).0,
            p,
            ranges[i].1,
        )
}

/// Is `p` shown highlighted? Find matches and the selection highlight, and
/// cancel each other out.
pub open spec fn highlighted(
    selection: Option<Selection>,
    ranges: Seq<FindMatch>,
    p: AbsCoord,
) -> bool {
    (selection matches Some(s) && crate::selection::between(s.start(), p, s.end())) != in_ranges(
        ranges,
        p,
    )
}

/// The matches to highlight; none while find is closed.
pub open spec fn shown_ranges(find: Option<&FindRender<'_>>) -> Seq<FindMatch> {
    match find {
        Some(f) => f.ranges@,
        None => Seq::empty(),
    }
}

impl PaintModel {
    /// What is painted for `cell` at `x`, `y`. The block cursor and a highlight
    /// swap the colors, and cancel each other out. A leading wide cell paints
    /// its background across two columns; the trailing one paints only an
    /// inverted background of its own.
    pub open spec fn of(
        scr: Screen,
        theme: Theme,
        x: usize,
        y: usize,
        cell: Cell,
        cursor: Option<CursorStyle>,
        highlight: bool,
    ) -> PaintModel {
        let invert = (cursor == Some(CursorStyle::Block)) != highlight;
        let (front, ground) = if invert {
            (theme.ground(cell), theme.text(cell))
        } else {
            (theme.text(cell), theme.ground(cell))
        };
        let span: usize = if !cell.trailing() && cell.flags & ATTR_WIDE != 0 {
            2
        } else {
            1
        };
        let cluster = scr.cluster(cell);
        PaintModel {
            x,
            y,
            back: if invert || (!cell.trailing() && ground != theme.default_bg) {
                Some(Back { span, color: ground })
            } else {
                None
            },
            accent: match cursor {
                Some(style) => if style is Block || cell.trailing() {
                    None
                } else {
                    Some(Accent { style, span, color: theme.text(cell) })
                },
                None => None,
            },
            glyph: if cell.trailing() || cluster == seq![' '] {
                None
            } else {
                Some(
                    GlyphModel {
                        cluster,
                        bold: cell.flags & ATTR_BOLD != 0,
                        italic: cell.flags & ATTR_ITALIC != 0,
                        color: front,
                    },
                )
            },
        }
    }
}

/// The cursor's shape where the cursor is drawn at `x`, `y`: only when looking
/// at the live viewport while the blink clock has its "on" half active.
pub open spec fn cursor_shape(
    scr: Screen,
    cursor: CursorState,
    on: bool,
    x: int,
    y: int,
) -> Option<CursorStyle> {
    if cursor.visible && on && scr.view_offset == 0 && cursor.col == x && cursor.row == y {
        Some(cursor.style)
    } else {
        None
    }
}

/// What is painted at column `x` of displayed row `y`.
pub open spec fn paint_at(
    scr: Screen,
    theme: Theme,
    cursor: CursorState,
    on: bool,
    selection: Option<Selection>,
    ranges: Seq<FindMatch>,
    x: int,
    y: int,
) -> PaintModel {
    PaintModel::of(
        scr,
        theme,
        x as usize,
        y as usize,
        scr.displayed(y)[x],
        cursor_shape(scr, cursor, on, x, y),
        highlighted(
            selection,
            ranges,
            AbsCoord { abs_row: (scr.view_top() + y) as usize, col: x as usize },
        ),
    )
}

/// What is painted for the first `n` columns of displayed row `y`.
pub open spec fn row_plan(
    scr: Screen,
    theme: Theme,
    cursor: CursorState,
    on: bool,
    selection: Option<Selection>,
    ranges: Seq<FindMatch>,
    y: int,
    n: int,
) -> Seq<PaintModel> {
    Seq::new(n as nat, |x: int| paint_at(scr, theme, cursor, on, selection, ranges, x, y))
}

/// What is painted for the first `rows` displayed rows.
pub open spec fn rows_plan(
    scr: Screen,
    theme: Theme,
    cursor: CursorState,
    on: bool,
    selection: Option<Selection>,
    ranges: Seq<FindMatch>,
    rows: int,
) -> Seq<PaintModel>
    decreases rows,
{
    if rows <= 0 {
        Seq::empty()
    } else {
        rows_plan(scr, theme, cursor, on, selection, ranges, rows - 1) + row_plan(
            scr,
            theme,
            cursor,
            on,
            selection,
            ranges,
            rows - 1,
            scr.displayed(rows - 1).len() as int,
        )
    }
}

/// Does any (start, end) inclusive range contain `p` in reading order?
pub fn range_contains(ranges: &[FindMatch], p: AbsCoord) -> (found: bool)
    ensures
        found == in_ranges(ranges@, p),
{
    let mut i: usize = 0;
    while i < ranges.len()
        invariant
            i <= ranges@.len(),
            forall|k: int|
                0 <= k < i ==> !crate::selection::between(
                    (#[trigger] ranges@[k]).0,
                    p,
                    ranges@[k].1,
                ),
        decreases ranges@.len() - i,
    {
        let (start, end) = ranges[i];
        if start.not_after(&p) && p.not_after(&end) {
            assert(crate::selection::between(ranges@[i as int].0, p, ranges@[i as int].1));
            return true;
        }
        i += 1;
    }
    false
}

/// What is painted for one cell.
fn paint_cell(
    grid: &Grid,
    theme: &Theme,
    x: usize,
    y: usize,
    cell: &Cell,
    cursor: Option<CursorStyle>,
    highlight: bool,
) -> (paint: CellPaint)
    ensures
        paint@ == PaintModel::of(grid@, *theme, x, y, *cell, cursor, highlight),
{
    let text = theme.text_color(cell);
    let ground = theme.ground_color(cell);
    let block = match cursor {
        Some(CursorStyle::Block) => true,
        _ => false,
    };
    let invert = block != highlight;
    let (front, back) = if invert {
        (ground, text)
    } else {
        (text, ground)
    };
    let trailing = cell.flags & crate::cell::ATTR_WIDE_TRAILING != 0;
    let span: usize = if !trailing && cell.flags & ATTR_WIDE != 0 {
        2
    } else {
        1
    };
    let back = if invert || (!trailing && back != theme.default_bg) {
        Some(Back { span, color: back })
    } else {
        None
    };
    let accent = match cursor {
        Some(CursorStyle::Block) => None,
        Some(style) => if trailing {
            None
        } else {
            Some(Accent { style, span, color: text })
        },
        None => None,
    };
    let mut glyph: Option<Glyph> = None;
    if !trailing {
        let cluster = grid.cluster_string(cell);
        if !is_space(&cluster) {
            glyph =
            Some(
                Glyph {
                    cluster,
                    bold: cell.flags & ATTR_BOLD != 0,
                    italic: cell.flags & ATTR_ITALIC != 0,
                    color: front,
                },
            );
        }
    }
    CellPaint { x, y, back, accent, glyph }
}

/// Is this cluster a lone space?
fn is_space(cluster: &String) -> (yes: bool)
    ensures
        yes == (cluster@ == seq![' ']),
{
    let chars = crate::text::chars_of(cluster.as_str());
    let yes = chars.len() == 1 && chars[0] == ' ';
    assert(yes ==> chars@ =~= seq![' ']);
    yes
}

/// What to paint for the displayed rows, cell by cell. Nothing of the grid
/// changes: cursor, selection and find highlight only choose colors.
pub fn plan_frame(
    grid: &Grid,
    theme: &Theme,
    cursor: &CursorState,
    cursor_on: bool,
    selection: Option<Selection>,
    find: Option<&FindRender<'_>>,
) -> (paints: Vec<CellPaint>)
    requires
        grid@.wf(),
    ensures
        paints@.map_values(|p: CellPaint| p@) == rows_plan(
            grid@,
            *theme,
            *cursor,
            cursor_on,
            selection,
            shown_ranges(find),
            grid@.rows as int,
        ),
{
    let mut paints: Vec<CellPaint> = Vec::new();
    let ghost ranges = shown_ranges(find);
    assert(paints@.map_values(|p: CellPaint| p@) =~= rows_plan(
        grid@,
        *theme,
        *cursor,
        cursor_on,
        selection,
        ranges,
        0,
    ));
    let rows = grid.rows();
    let mut y: usize = 0;
    while y < rows
        invariant
            grid@.wf(),
            rows == grid@.rows,
            y <= rows,
            ranges == shown_ranges(find),
            paints@.map_values(|p: CellPaint| p@) == rows_plan(
                grid@,
                *theme,
                *cursor,
                cursor_on,
                selection,
                ranges,
                y as int,
            ),
        decreases rows - y,
    {
        let cells = grid.display_row(y);
        let abs_row = grid.displayed_abs_row(y);
        let ghost done = paints@.map_values(|p: CellPaint| p@);
        assert(done + row_plan(
            grid@,
            *theme,
            *cursor,
            cursor_on,
            selection,
            ranges,
            y as int,
            0,
        ) =~= done);
        let mut x: usize = 0;
        while x < cells.len()
            invariant
                y < rows,
                rows == grid@.rows,
                x <= cells@.len(),
                cells@ == grid@.displayed(y as int),
                abs_row == grid@.view_top() + y,
                ranges == shown_ranges(find),
                paints@.map_values(|p: CellPaint| p@) == done + row_plan(
                    grid@,
                    *theme,
                    *cursor,
                    cursor_on,
                    selection,
                    ranges,
                    y as int,
                    x as int,
                ),
            decreases cells@.len() - x,
        {
            let p = AbsCoord { abs_row, col: x };
            let selected = match selection {
                Some(s) => s.contains(p),
                None => false,
            };
            let matched = match find {
                Some(f) => range_contains(f.ranges, p),
                None => false,
            };
            assert(!in_ranges(Seq::empty(), p));
            let shape = if cursor.visible && cursor_on && grid.at_bottom() && cursor.col == x
                && cursor.row == y {
                Some(cursor.style)
            } else {
                None
            };
            let ghost before = paints@;
            paints.push(paint_cell(grid, theme, x, y, &cells[x], shape, selected != matched));
            x += 1;
            assert(paints@.map_values(|p: CellPaint| p@) =~= before.map_values(
                |p: CellPaint| p@,
            ).push(paints@.last()@));
            assert(paints@.map_values(|p: CellPaint| p@) =~= done + row_plan(
                grid@,
                *theme,
                *cursor,
                cursor_on,
                selection,
                ranges,
                y as int,
                x as int,
            ));
        }
        y += 1;
    }
    paints
}

// ---- The find overlay ----

/// "find: <query>  N/M", or that there are no matches.
pub open spec fn label_text(query: Seq<char>, total: int, current: int) -> Seq<char> {
    if total == 0 {
        "find: "@ + query + "  no matches"@
    } else {
        "find: "@ + query + "  "@ + crate::text::ascii_chars(
            crate::text::decimal((current + 1) as nat),
        ) + "/"@ + crate::text::ascii_chars(crate::text::decimal(total as nat))
    }
}

/// The characters of a label that are drawn, with their columns: all but
/// spaces, as far as they fit.
pub open spec fn label_glyphs(label: Seq<char>, n: int) -> Seq<(usize, char)>
    decreases n,
{
    if n <= 0 {
        Seq::empty()
    } else if label[n - 1] == ' ' {
        label_glyphs(label, n - 1)
    } else {
        label_glyphs(label, n - 1).push(((n - 1) as usize, label[n - 1]))
    }
}

/// The text of the find overlay.
pub fn find_label(f: &FindRender<'_>) -> (label: Vec<char>)
    requires
        f.ranges@.len() > 0 ==> f.current < usize::MAX,
    ensures
        label@ == label_text(f.query@, f.ranges@.len() as int, f.current as int),
{
    let mut label = crate::text::chars_of("find: ");
    crate::text::push_chars(&mut label, &crate::text::chars_of(f.query));
    let total = f.ranges.len();
    if total == 0 {
        crate::text::push_chars(&mut label, &crate::text::chars_of("  no matches"));
    } else {
        crate::text::push_chars(&mut label, &crate::text::chars_of("  "));
        let mut number = String::new();
        crate::text::push_number(&mut number, (f.current + 1) as u64);
        crate::text::push_chars(&mut label, &crate::text::chars_of(number.as_str()));
        crate::text::push_chars(&mut label, &crate::text::chars_of("/"));
        let mut count = String::new();
        crate::text::push_number(&mut count, total as u64);
        crate::text::push_chars(&mut label, &crate::text::chars_of(count.as_str()));
        assert(number@ =~= crate::text::ascii_chars(
            crate::text::decimal((f.current + 1) as nat),
        ));
        assert(count@ =~= crate::text::ascii_chars(crate::text::decimal(total as nat)));
    }
    label
}

/// The glyphs of the find overlay and their columns, cut to the grid width.
pub fn overlay_glyphs(f: &FindRender<'_>, cols: usize) -> (glyphs: Vec<(usize, char)>)
    requires
        f.ranges@.len() > 0 ==> f.current < usize::MAX,
    ensures
        ({
            let label = label_text(f.query@, f.ranges@.len() as int, f.current as int);
            glyphs@ == label_glyphs(
                label,
                crate::screen::least(label.len() as int, cols as int),
            )
        }),
{
    let label = find_label(f);
    let mut glyphs: Vec<(usize, char)> = Vec::new();
    let mut i: usize = 0;
    while i < label.len() && i < cols
        invariant
            i <= label@.len(),
            i <= cols,
            glyphs@ == label_glyphs(label@, i as int),
        decreases label@.len() - i,
    {
        if label[i] != ' ' {
            glyphs.push((i, label[i]));
        }
        i += 1;
    }
    glyphs
}

/// Inverting twice shows the cell as it is: a block cursor on a highlighted
/// cell is drawn in the cell's own colors.
pub proof fn law_cursor_and_highlight_cancel(scr: Screen, theme: Theme, x: usize, y: usize, cell: Cell)
    ensures
        PaintModel::of(scr, theme, x, y, cell, Some(CursorStyle::Block), true) == PaintModel::of(
            scr,
            theme,
            x,
            y,
            cell,
            None,
            false,
        ),
{
}

// ---- What holds of every frame ----

/// As many columns or rows as fit between the paddings: whole cells, and not
/// one more would fit; at least one.
pub proof fn law_cells_that_fit(extent: int, padding: int, cell: int)
    requires
        0 <= extent,
        0 <= padding,
        0 < cell,
    ensures
        ({
            let n = cells_in(extent, padding, cell);
            let room = extent - 2 * padding;
            &&& n >= 1
            &&& n > 1 ==> n * cell <= room
            &&& room < (n + 1) * cell
        }),
{
    let room = crate::screen::minus(extent, 2 * padding);
    let q = room / cell;
    vstd::arithmetic::div_mod::lemma_fundamental_div_mod(room, cell);
    assert(cell * q == q * cell && (q + 1) * cell == q * cell + cell) by (nonlinear_arith);
    if q < 1 {
        assert(q * cell <= 0) by (nonlinear_arith)
            requires
                q < 1,
                0 < cell,
        ;
        assert((1 + 1) * cell == cell + cell) by (nonlinear_arith);
    }
}

/// The coverage of pixel `i` is its fourth byte; a pixel cut short has none.
pub proof fn law_coverage(data: Seq<u8>, i: int)
    requires
        0 <= i,
    ensures
        4 * i + 3 < data.len() ==> i < alphas(data).len() && alphas(data)[i] == data[4 * i + 3],
        4 * i < data.len() <= 4 * i + 3 ==> i < alphas(data).len() && alphas(data)[i] == 0,
        4 * i >= data.len() ==> i >= alphas(data).len(),
{
}

/// A cell without a colour of its own takes the configured one; another keeps
/// its own. Bold text in one of the eight dim colours becomes bright, if that
/// is configured. Backgrounds are never brightened.
pub proof fn law_theme(theme: Theme, cell: Cell)
    ensures
        ({
            let own = if cell.fg == 0xFFFFFF {
                theme.default_fg
            } else {
                cell.fg
            };
            let bright = theme.bold_is_bright && crate::sgr::has(cell.flags, 1);
            &&& !bright ==> theme.text(cell) == own
            &&& bright ==> theme.text(cell) == crate::cell::bright_from(own, 0)
            &&& cell.bg == 0 ==> theme.ground(cell) == theme.default_bg
            &&& cell.bg != 0 ==> theme.ground(cell) == cell.bg
        }),
{
    let f = cell.flags;
    assert((f & 1 != 0) == ((f / 1) % 2 == 1)) by (bit_vector);
}

/// Find matches and the selection highlight a position; where both lie, they
/// cancel each other out.
pub proof fn law_highlight(
    selection: Option<Selection>,
    ranges: Seq<FindMatch>,
    p: AbsCoord,
    i: int,
)
    ensures
        ({
            let selected = selection is Some && crate::selection::between(
                selection->0.start(),
                p,
                selection->0.end(),
            );
            let found = in_ranges(ranges, p);
            &&& highlighted(selection, ranges, p) <==> (selected && !found) || (found && !selected)
            &&& 0 <= i < ranges.len() && crate::selection::between(ranges[i].0, p, ranges[i].1)
                ==> found
            &&& ranges.len() == 0 ==> !found
        }),
{
}

/// How a cell is painted. Its text is its cluster in its text colour, its
/// ground is painted where it is not the default; a highlight or the block
/// cursor, but not both, swaps the two and always paints the ground. A wide
/// cell spans two columns, and of its right half no text is painted. A space
/// has no text. An underline or bar cursor is painted in the text colour.
pub proof fn law_painted_cell(
    scr: Screen,
    theme: Theme,
    x: usize,
    y: usize,
    cell: Cell,
    cursor: Option<CursorStyle>,
    highlight: bool,
)
    ensures
        ({
            let p = PaintModel::of(scr, theme, x, y, cell, cursor, highlight);
            let block = cursor is Some && cursor->0 is Block;
            let swap = (block && !highlight) || (highlight && !block);
            let right = crate::sgr::has(cell.flags, 16);
            let wide = !right && crate::sgr::has(cell.flags, 8);
            let blank = right || scr.cluster(cell) == seq![' '];
            &&& p.x == x && p.y == y
            &&& p.glyph is Some <==> !blank
            &&& p.glyph is Some ==> {
                &&& p.glyph->0.cluster == scr.cluster(cell)
                &&& p.glyph->0.bold == crate::sgr::has(cell.flags, 1)
                &&& p.glyph->0.italic == crate::sgr::has(cell.flags, 2)
                &&& swap ==> p.glyph->0.color == theme.ground(cell)
                &&& !swap ==> p.glyph->0.color == theme.text(cell)
            }
            &&& p.back is Some <==> swap || (!right && theme.ground(cell) != theme.default_bg)
            &&& p.back is Some ==> {
                &&& swap ==> p.back->0.color == theme.text(cell)
                &&& !swap ==> p.back->0.color == theme.ground(cell)
                &&& wide ==> p.back->0.span == 2
                &&& !wide ==> p.back->0.span == 1
            }
            &&& p.accent is Some <==> cursor is Some && !block && !right
            &&& p.accent is Some ==> {
                &&& Some(p.accent->0.style) == cursor
                &&& p.accent->0.color == theme.text(cell)
                &&& wide ==> p.accent->0.span == 2
                &&& !wide ==> p.accent->0.span == 1
            }
        }),
{
    let f = cell.flags;
    assert((f & 1 != 0) == ((f / 1) % 2 == 1)) by (bit_vector);
    assert((f & 2 != 0) == ((f / 2) % 2 == 1)) by (bit_vector);
    assert((f & 8 != 0) == ((f / 8) % 2 == 1)) by (bit_vector);
    assert((f & 16 != 0) == ((f / 16) % 2 == 1)) by (bit_vector);
}

/// The cursor is drawn in its own cell alone, while it is visible, lit and the
/// view is at the bottom.
pub proof fn law_cursor_place(scr: Screen, cursor: CursorState, on: bool, x: int, y: int)
    ensures
        cursor_shape(scr, cursor, on, x, y) is Some <==> cursor.visible && on && scr.view_offset
            == 0 && x == cursor.col && y == cursor.row,
        cursor_shape(scr, cursor, on, x, y) is Some ==> cursor_shape(scr, cursor, on, x, y)
            == Some(cursor.style),
{
}

/// Every cell in view is painted once, row by row from the left: on a screen
/// whose lines all have its width, the one in column `x` of row `y` is number
/// `y * cols + x`, painted as that cell is.
pub proof fn law_every_cell_is_painted(
    scr: Screen,
    theme: Theme,
    cursor: CursorState,
    on: bool,
    selection: Option<Selection>,
    ranges: Seq<FindMatch>,
    rows: int,
    x: int,
    y: int,
)
    requires
        0 <= y < rows,
        0 <= x < scr.cols,
        forall|v: int| 0 <= v < rows ==> (#[trigger] scr.displayed(v)).len() == scr.cols,
    ensures
        ({
            let plan = rows_plan(scr, theme, cursor, on, selection, ranges, rows);
            &&& plan.len() == rows * scr.cols
            &&& 0 <= y * scr.cols + x < plan.len()
            &&& plan[y * scr.cols + x] == PaintModel::of(
                scr,
                theme,
                x as usize,
                y as usize,
                scr.displayed(y)[x],
                cursor_shape(scr, cursor, on, x, y),
                highlighted(
                    selection,
                    ranges,
                    AbsCoord { abs_row: (scr.view_top() + y) as usize, col: x as usize },
                ),
            )
        }),
    decreases rows,
{
    let cols = scr.cols as int;
    let plan = rows_plan(scr, theme, cursor, on, selection, ranges, rows);
    let before = rows_plan(scr, theme, cursor, on, selection, ranges, rows - 1);
    assert(scr.displayed(rows - 1).len() == cols);
    assert(rows * cols == (rows - 1) * cols + cols) by (nonlinear_arith);
    assert(0 <= y * cols) by (nonlinear_arith)
        requires
            0 <= y,
            0 <= cols,
    ;
    if y < rows - 1 {
        law_every_cell_is_painted(
            scr,
            theme,
            cursor,
            on,
            selection,
            ranges,
            rows - 1,
            x,
            y,
        );
        assert(plan[y * cols + x] == before[y * cols + x]);
    } else {
        if rows - 1 > 0 {
            law_every_cell_is_painted(
                scr,
                theme,
                cursor,
                on,
                selection,
                ranges,
                rows - 1,
                x,
                0,
            );
        }
        assert(before.len() == y * cols);
    }
}

/// The label shows query, number of the highlighted match counting from one,
/// and number of matches; without matches it says so.
pub proof fn law_find_label(query: Seq<char>, total: int, current: int, i: int)
    requires
        0 <= total,
        0 <= current,
    ensures
        ({
            let label = label_text(query, total, current);
            let head = "find: "@.len() as int;
            &&& label.take(head) == "find: "@
            &&& 0 <= i < query.len() ==> label[head + i] == query[i]
            &&& total == 0 ==> label.skip(head + query.len()) == "  no matches"@
            &&& total > 0 ==> label.skip(head + query.len()) == "  "@ + crate::text::ascii_chars(
                crate::text::decimal((current + 1) as nat),
            ) + "/"@ + crate::text::ascii_chars(crate::text::decimal(total as nat))
        }),
{
    let label = label_text(query, total, current);
    let head = "find: "@.len() as int;
    assert(label.take(head) =~= "find: "@);
    assert(label.skip(head + query.len()) =~= if total == 0 {
        "  no matches"@
    } else {
        "  "@ + crate::text::ascii_chars(crate::text::decimal((current + 1) as nat)) + "/"@
            + crate::text::ascii_chars(crate::text::decimal(total as nat))
    });
}

/// Exactly the characters that are no spaces are drawn, each in its column.
pub proof fn law_label_glyphs(label: Seq<char>, n: int, x: usize, c: char)
    requires
        0 <= n <= label.len(),
        n <= usize::MAX,
    ensures
        label_glyphs(label, n).contains((x, c)) <==> x < n && label[x as int] == c && c != ' ',
    decreases n,
{
    if n > 0 {
        law_label_glyphs(label, n - 1, x, c);
        let before = label_glyphs(label, n - 1);
        let all = label_glyphs(label, n);
        if label[n - 1] != ' ' {
            let new = ((n - 1) as usize, label[n - 1]);
            assert(all == before.push(new));
            assert(all[before.len() as int] == new);
            if before.contains((x, c)) {
                let k = choose|k: int| 0 <= k < before.len() && before[k] == (x, c);
                assert(all[k] == (x, c));
            }
            if all.contains((x, c)) {
                let k = choose|k: int| 0 <= k < all.len() && all[k] == (x, c);
                if k < before.len() {
                    assert(before[k] == (x, c));
                }
            }
        }
    }
}

/// Bitmaps go side by side on a shelf as high as its highest; when the width
/// is used up, the next shelf begins below it. What is too large for the atlas
/// gets no place.
pub proof fn law_shelves(shelf: Shelf, w: u32, h: u32)
    requires
        shelf.wf(),
    ensures
        ({
            let (next, origin) = shelf.placed(w, h);
            let beside = shelf.cursor_x + w <= ATLAS_SIZE;
            &&& w > ATLAS_SIZE || h > ATLAS_SIZE ==> origin is None && next == shelf
            &&& w <= ATLAS_SIZE && beside && shelf.cursor_y + h <= ATLAS_SIZE ==> origin == Some(
                (shelf.cursor_x, shelf.cursor_y),
            ) && next.cursor_x == shelf.cursor_x + w && next.cursor_y == shelf.cursor_y
                && next.shelf_h >= h && next.shelf_h >= shelf.shelf_h && (next.shelf_h == h
                || next.shelf_h == shelf.shelf_h)
            &&& w <= ATLAS_SIZE && !beside && shelf.cursor_y + shelf.shelf_h + h <= ATLAS_SIZE
                ==> origin == Some((0u32, next.cursor_y)) && next.cursor_y == shelf.cursor_y
                + shelf.shelf_h && next.cursor_x == w && next.shelf_h == h
        }),
        ATLAS_SIZE == 2048,
{
}

/// Without a search nothing is highlighted for it; with one, its matches are.
pub proof fn law_shown_ranges(find: Option<&FindRender<'_>>)
    ensures
        find is None ==> shown_ranges(find).len() == 0,
        find is Some ==> shown_ranges(find) == find->0.ranges@,
{
}

} // verus!
