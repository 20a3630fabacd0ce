//! Screen cells, their attribute bits, and the colour palette.

use vstd::prelude::*;

verus! {

/// SGR 1.
pub const ATTR_BOLD: u16 = 1;

/// SGR 3.
pub const ATTR_ITALIC: u16 = 2;

/// SGR 4.
pub const ATTR_UNDERLINE: u16 = 4;

/// Leading half of a double-width cell (CJK, fullwidth forms). The next cell
/// has `ATTR_WIDE_TRAILING` and is occupied by this glyph's right half.
pub const ATTR_WIDE: u16 = 8;

/// Right half of a double-width cell. Renderers skip drawing its glyph;
/// selection text extraction ignores it.
pub const ATTR_WIDE_TRAILING: u16 = 16;

/// One character position of the screen.
#[derive(Copy, Clone, Debug, PartialEq, Eq, Structural)]
pub struct Cell {
    pub c: char,
    /// `0x00RRGGBB`.
    pub fg: u32,
    /// `0x00RRGGBB`.
    pub bg: u32,
    pub flags: u16,
    /// Slot of the combining-mark pool for zero-width characters attached to
    /// this cell. `0` is the reserved "no extras" sentinel.
    pub combining_id: u16,
}

impl Cell {
    /// An empty position: a space in the default colours.
    pub open spec fn blank() -> Cell {
        Cell { c: ' ', fg: 0xFFFFFF, bg: 0x000000, flags: 0, combining_id: 0 }
    }

    /// Is this the right half of a double-width glyph?
    pub open spec fn trailing(self) -> bool {
        self.flags & ATTR_WIDE_TRAILING != 0
    }
}

impl Default for Cell {
    fn default() -> (cell: Self)
        ensures
            cell == Cell::blank(),
    {
        Cell { c: ' ', fg: 0xFFFFFF, bg: 0x000000, flags: 0, combining_id: 0 }
    }
}

/// `n` empty positions.
pub open spec fn blanks(n: nat) -> Seq<Cell> {
    Seq::new(n, |i: int| Cell::blank())
}

/// `cells` with the positions `start..end` blanked.
pub open spec fn erased(cells: Seq<Cell>, start: int, end: int) -> Seq<Cell> {
    Seq::new(
        cells.len(),
        |i: int|
            if start <= i < end {
                Cell::blank()
            } else {
                cells[i]
            },
    )
}

/// `cells` with the first `n` positions of `start..end` taken out: the rest of
/// that range moves left and `n` blanks fill its end.
pub open spec fn deleted(cells: Seq<Cell>, start: int, end: int, n: int) -> Seq<Cell> {
    Seq::new(
        cells.len(),
        |i: int|
            if start <= i < end - n {
                cells[i + n]
            } else if end - n <= i < end {
                Cell::blank()
            } else {
                cells[i]
            },
    )
}

/// `cells` with `n` blanks put in at the front of `start..end`: that range
/// moves right and its last `n` positions fall off.
pub open spec fn inserted(cells: Seq<Cell>, start: int, end: int, n: int) -> Seq<Cell> {
    Seq::new(
        cells.len(),
        |i: int|
            if start <= i < start + n {
                Cell::blank()
            } else if start + n <= i < end {
                cells[i - n]
            } else {
                cells[i]
            },
    )
}

/// A buffer of `n` empty positions.
pub fn blank_cells(n: usize) -> (cells: Vec<Cell>)
    ensures
        cells@ == blanks(n as nat),
{
    let cells = vec![Cell::default(); n];
    assert(cells@ =~= blanks(n as nat));
    cells
}

/// Blank the positions `start..end`.
pub fn erase_cells(cells: &mut Vec<Cell>, start: usize, end: usize)
    requires
        start <= end <= old(cells).len(),
    ensures
        final(cells)@ == erased(old(cells)@, start as int, end as int),
{
    let ghost before = cells@;
    let mut i: usize = start;
    while i < end
        invariant
            start <= i <= end <= cells.len(),
            cells@ =~= erased(before, start as int, i as int),
        decreases end - i,
    {
        cells.set(i, Cell::default());
        i += 1;
    }
}

/// Take the first `n` positions of `start..end` out, closing the gap.
pub fn delete_cells(cells: &mut Vec<Cell>, start: usize, end: usize, n: usize)
    requires
        start <= end <= old(cells).len(),
        n <= end - start,
    ensures
        final(cells)@ == deleted(old(cells)@, start as int, end as int, n as int),
{
    let ghost before = cells@;
    let mut i: usize = start;
    while i < end - n
        invariant
            start <= i <= end - n,
            start <= end <= cells.len(),
            n <= end - start,
            cells.len() == before.len(),
            forall|j: int| start <= j < i ==> cells@[j] == before[j + n],
            forall|j: int| 0 <= j < cells.len() && !(start <= j < i) ==> cells@[j] == before[j],
        decreases end - i,
    {
        let moved = cells[i + n];
        cells.set(i, moved);
        i += 1;
    }
    erase_cells(cells, end - n, end);
    assert(cells@ =~= deleted(before, start as int, end as int, n as int));
}

/// Put `n` blanks in at the front of `start..end`, dropping what falls off.
pub fn insert_cells(cells: &mut Vec<Cell>, start: usize, end: usize, n: usize)
    requires
        start <= end <= old(cells).len(),
        n <= end - start,
    ensures
        final(cells)@ == inserted(old(cells)@, start as int, end as int, n as int),
{
    let ghost before = cells@;
    let mut i: usize = end;
    while i > start + n
        invariant
            start + n <= i <= end,
            start <= end <= cells.len(),
            n <= end - start,
            cells.len() == before.len(),
            forall|j: int| i <= j < end ==> cells@[j] == before[j - n],
            forall|j: int| 0 <= j < cells.len() && !(i <= j < end) ==> cells@[j] == before[j],
        decreases i,
    {
        i -= 1;
        let moved = cells[i - n];
        cells.set(i, moved);
    }
    erase_cells(cells, start, start + n);
    assert(cells@ =~= inserted(before, start as int, end as int, n as int));
}

/// A copy of the positions `start..end`.
pub fn copy_cells(cells: &Vec<Cell>, start: usize, end: usize) -> (line: Vec<Cell>)
    requires
        start <= end <= cells.len(),
    ensures
        line@ == cells@.subrange(start as int, end as int),
{
    let mut line: Vec<Cell> = Vec::new();
    let mut i: usize = start;
    while i < end
        invariant
            start <= i <= end <= cells.len(),
            line@ =~= cells@.subrange(start as int, i as int),
        decreases end - i,
    {
        line.push(cells[i]);
        i += 1;
    }
    line
}

/// The 16-color ANSI palette (`0x00RRGGBB`). Exposed so renderers can
/// implement "bold-as-bright" (entry `i` becomes entry `i + 8` for `i` in 0..=7).
pub const ANSI_PALETTE: [u32; 16] = [
    0x000000, 0xCD0000, 0x00CD00, 0xCDCD00, 0x0000EE, 0xCD00CD, 0x00CDCD, 0xE5E5E5,
    0x7F7F7F, 0xFF0000, 0x00FF00, 0xFFFF00, 0x5C5CFF, 0xFF00FF, 0x00FFFF, 0xFFFFFF,
];

/// Entry `i` of the palette, counting modulo its size.
pub open spec fn palette(i: int) -> u32 {
    ANSI_PALETTE@[i % 16]
}

/// The bright counterpart of `fg`, if it is palette entry `i` or a later one
/// of the first 8; else `fg` itself.
pub open spec fn bright_from(fg: u32, i: int) -> u32
    decreases 8 - i,
{
    if i >= 8 {
        fg
    } else if fg == palette(i) {
        palette(i + 8)
    } else {
        bright_from(fg, i + 1)
    }
}

/// If `fg` is one of the first 8 palette colors, return its bright counterpart.
/// Else return `fg` unchanged. Used at render time when `ATTR_BOLD` is set
/// (this is the conventional "bold = bright" terminal behavior).
pub fn brighten_palette_color(fg: u32) -> (bright: u32)
    ensures
        bright == bright_from(fg, 0),
        forall|i: int| 0 <= i < 8 && fg == #[trigger] palette(i) ==> bright == palette(i + 8),
        (forall|i: int| 0 <= i < 8 ==> fg != #[trigger] palette(i)) ==> bright == fg,
{
    let mut i: usize = 0;
    while i < 8
        invariant
            i <= 8,
            forall|j: int| 0 <= j < i ==> fg != #[trigger] palette(j),
            bright_from(fg, i as int) == bright_from(fg, 0),
        decreases 8 - i,
    {
        if ANSI_PALETTE[i] == fg {
            proof {
                assert(palette(i as int) == fg);
                lemma_palette_distinct();
            }
            return ANSI_PALETTE[i + 8];
        }
        i += 1;
    }
    fg
}

/// The first eight palette entries are pairwise different.
pub proof fn lemma_palette_distinct()
    ensures
        forall|i: int, j: int|
            0 <= i < j < 8 ==> #[trigger] palette(i) != #[trigger] palette(j),
{
}

/// Palette colour `i`, counting modulo 16.
pub fn ansi_16(i: u16) -> (rgb: u32)
    ensures
        rgb == palette(i as int),
{
    let k: usize = (i % 16) as usize;
    ANSI_PALETTE[k]
}

/// Pack three colour components; the high ones are shifted as they are.
pub open spec fn rgb_bits(r: u32, g: u32, b: u32) -> u32 {
    (r << 16) | (g << 8) | b
}

/// Brightness of step `k` of the xterm colour cube.
pub open spec fn cube_level(k: int) -> u32 {
    if k <= 0 {
        0
    } else {
        (55 + 40 * k) as u32
    }
}

/// What an xterm 256-color index stands for: the palette, then a 6x6x6 colour
/// cube, then a grey ramp.
pub open spec fn xterm_color(n: u32) -> u32 {
    if n < 16 {
        palette(n as int)
    } else if n < 232 {
        let k = n - 16;
        rgb_bits(cube_level(k / 36), cube_level(k / 6 % 6), cube_level(k % 6))
    } else {
        let v = (8 + (n - 232) * 10) as u32;
        rgb_bits(v, v, v)
    }
}

/// Resolve an xterm 256-color index to RGB.
pub fn xterm_256(n: u32) -> (rgb: u32)
    requires
        n >= 232 ==> 8 + (n - 232) * 10 <= u32::MAX,
    ensures
        rgb == xterm_color(n),
{
    if n < 16 {
        ansi_16(n as u16)
    } else if n < 232 {
        let k: u32 = n - 16;
        let r = cube_step(k / 36);
        let g = cube_step((k / 6) % 6);
        let b = cube_step(k % 6);
        (r << 16) | (g << 8) | b
    } else {
        let v: u32 = 8 + (n - 232) * 10;
        (v << 16) | (v << 8) | v
    }
}

fn cube_step(k: u32) -> (level: u32)
    requires
        k < 6,
    ensures
        level == cube_level(k as int),
{
    if k == 0 {
        0
    } else {
        55 + 40 * k
    }
}

// ---- What holds of every colour ----

/// The attribute bits are different bits.
pub proof fn law_attributes_are_bits(flags: u16)
    ensures
        ATTR_BOLD == 1 && ATTR_ITALIC == 2 && ATTR_UNDERLINE == 4 && ATTR_WIDE == 8
            && ATTR_WIDE_TRAILING == 16,
        (Cell { flags, ..Cell::blank() }).trailing() <==> (flags / 16) % 2 == 1,
{
    assert((flags & 16 != 0) == ((flags / 16) % 2 == 1)) by (bit_vector);
}

/// The sixteen named colours: black, red, green, yellow, blue, magenta, cyan
/// and white, dim and then bright. Numbers beyond count round.
pub proof fn law_palette(i: int)
    ensures
        palette(0) == 0x000000 && palette(1) == 0xCD0000 && palette(2) == 0x00CD00 && palette(3)
            == 0xCDCD00 && palette(4) == 0x0000EE && palette(5) == 0xCD00CD && palette(6)
            == 0x00CDCD && palette(7) == 0xE5E5E5,
        palette(8) == 0x7F7F7F && palette(9) == 0xFF0000 && palette(10) == 0x00FF00 && palette(11)
            == 0xFFFF00 && palette(12) == 0x5C5CFF && palette(13) == 0xFF00FF && palette(14)
            == 0x00FFFF && palette(15) == 0xFFFFFF,
        palette(i + 16) == palette(i),
{
    vstd::arithmetic::div_mod::lemma_mod_add_multiples_vanish(i, 16);
}

/// Red, green and blue below 256 fill one byte each, red highest.
pub proof fn law_packed_colour(r: u32, g: u32, b: u32)
    requires
        r < 256,
        g < 256,
        b < 256,
    ensures
        rgb_bits(r, g, b) == r * 0x10000 + g * 0x100 + b,
{
    assert((r << 16) | (g << 8) | b == r * 0x10000 + g * 0x100 + b) by (bit_vector)
        requires
            r < 256,
            g < 256,
            b < 256,
    ;
}

/// Each part is shifted to its byte as it is, and the parts are laid over each
/// other.
pub proof fn law_parts_of_a_colour(r: u32, g: u32, b: u32)
    requires
        r < 0x10000,
        g < 0x10000,
        b < 0x10000,
    ensures
        rgb_bits(r, 0, 0) == r * 0x10000,
        rgb_bits(0, g, 0) == g * 0x100,
        rgb_bits(0, 0, b) == b,
        rgb_bits(r, g, b) == rgb_bits(r, 0, 0) | rgb_bits(0, g, 0) | rgb_bits(0, 0, b),
{
    assert((r << 16) | (0u32 << 8) | 0u32 == r * 0x10000) by (bit_vector)
        requires
            r < 0x10000,
    ;
    assert((0u32 << 16) | (g << 8) | 0u32 == g * 0x100) by (bit_vector)
        requires
            g < 0x10000,
    ;
    assert((0u32 << 16) | (0u32 << 8) | b == b) by (bit_vector);
    assert((r << 16) | (g << 8) | b == ((r << 16) | (0u32 << 8) | 0u32) | ((0u32 << 16) | (g << 8)
        | 0u32) | ((0u32 << 16) | (0u32 << 8) | b)) by (bit_vector);
}

/// Brightness of a step of the colour cube: none, then 95 to 255 in forties.
pub open spec fn is_cube_level(k: int, level: int) -> bool {
    if k == 0 {
        level == 0
    } else {
        level == 95 + 40 * (k - 1)
    }
}

proof fn lemma_cube_steps(r: int, g: int, b: int)
    requires
        0 <= r < 6,
        0 <= g < 6,
        0 <= b < 6,
    ensures
        (36 * r + 6 * g + b) / 36 == r,
        (36 * r + 6 * g + b) / 6 % 6 == g,
        (36 * r + 6 * g + b) % 6 == b,
{
    let k = 36 * r + 6 * g + b;
    vstd::arithmetic::div_mod::lemma_fundamental_div_mod_converse(k, 36, r, 6 * g + b);
    vstd::arithmetic::div_mod::lemma_fundamental_div_mod_converse(k, 6, 6 * r + g, b);
    vstd::arithmetic::div_mod::lemma_fundamental_div_mod_converse(6 * r + g, 6, r, g);
}

proof fn lemma_bytes(x: int, y: int, z: int)
    requires
        0 <= x < 256,
        0 <= y < 256,
        0 <= z < 256,
    ensures
        (x * 0x10000 + y * 0x100 + z) / 0x10000 == x,
        (x * 0x10000 + y * 0x100 + z) / 0x100 % 0x100 == y,
        (x * 0x10000 + y * 0x100 + z) % 0x100 == z,
{
    let v = x * 0x10000 + y * 0x100 + z;
    vstd::arithmetic::div_mod::lemma_fundamental_div_mod_converse(v, 0x10000, x, y * 0x100 + z);
    vstd::arithmetic::div_mod::lemma_fundamental_div_mod_converse(v, 0x100, x * 0x100 + y, z);
    vstd::arithmetic::div_mod::lemma_fundamental_div_mod_converse(x * 0x100 + y, 0x100, x, y);
}

/// The 256 colours: the palette, then a cube of six steps in each of red,
/// green and blue with blue running fastest, then 24 greys from 8 up in tens.
pub proof fn law_256_colours(n: u32, r: int, g: int, b: int)
    requires
        0 <= r < 6,
        0 <= g < 6,
        0 <= b < 6,
    ensures
        n < 16 ==> xterm_color(n) == palette(n as int),
        ({
            let rgb = xterm_color((16 + 36 * r + 6 * g + b) as u32);
            &&& is_cube_level(r, rgb as int / 0x10000)
            &&& is_cube_level(g, (rgb as int / 0x100) % 0x100)
            &&& is_cube_level(b, rgb as int % 0x100)
        }),
        232 <= n < 256 ==> xterm_color(n) == (8 + 10 * (n - 232)) * 0x10101,
        232 <= n < 0x10000 ==> ({
            let v = (8 + 10 * (n - 232)) as u32;
            xterm_color(n) == rgb_bits(v, v, v)
        }),
{
    let k = 36 * r + 6 * g + b;
    lemma_cube_steps(r, g, b);
    let (x, y, z) = (cube_level(r), cube_level(g), cube_level(b));
    law_packed_colour(x, y, z);
    lemma_bytes(x as int, y as int, z as int);
    assert(xterm_color((16 + k) as u32) == rgb_bits(x, y, z));
    if 232 <= n < 256 {
        let v = (8 + (n - 232) * 10) as u32;
        law_packed_colour(v, v, v);
    }
}

/// A dim palette colour and its bright counterpart are eight apart; no other
/// colour is brightened.
pub proof fn law_brightened(fg: u32, i: int)
    requires
        0 <= i < 8,
    ensures
        bright_from(palette(i), 0) == palette(i + 8),
        (forall|j: int| 0 <= j < 8 ==> fg != #[trigger] palette(j)) ==> bright_from(fg, 0) == fg,
{
    reveal_with_fuel(bright_from, 9);
    lemma_palette_distinct();
    if forall|j: int| 0 <= j < 8 ==> fg != #[trigger] palette(j) {
        assert(fg != palette(0) && fg != palette(1) && fg != palette(2) && fg != palette(3) && fg
            != palette(4) && fg != palette(5) && fg != palette(6) && fg != palette(7));
    }
}

} // verus!
