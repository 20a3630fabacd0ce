//! SGR (`CSI m`): what a list of rendition codes does to the pen.

use vstd::prelude::*;

use crate::cell::{
    ansi_16, xterm_256, Cell, ATTR_BOLD, ATTR_ITALIC, ATTR_UNDERLINE,
};
use crate::params::CsiParams;

verus! {

/// What a single code does; the extended colours (38, 48) are read apart.
pub open spec fn sgr_code(pen: Cell, n: u16) -> Cell {
    if n == 0 {
        Cell::blank()
    } else if n == 1 {
        Cell { flags: pen.flags | ATTR_BOLD, ..pen }
    } else if n == 3 {
        Cell { flags: pen.flags | ATTR_ITALIC, ..pen }
    } else if n == 4 {
        Cell { flags: pen.flags | ATTR_UNDERLINE, ..pen }
    } else if n == 22 {
        Cell { flags: pen.flags & !ATTR_BOLD, ..pen }
    } else if n == 23 {
        Cell { flags: pen.flags & !ATTR_ITALIC, ..pen }
    } else if n == 24 {
        Cell { flags: pen.flags & !ATTR_UNDERLINE, ..pen }
    } else if 30 <= n <= 37 {
        Cell { fg: crate::cell::palette(n - 30), ..pen }
    } else if n == 39 {
        Cell { fg: Cell::blank().fg, ..pen }
    } else if 40 <= n <= 47 {
        Cell { bg: crate::cell::palette(n - 40), ..pen }
    } else if n == 49 {
        Cell { bg: Cell::blank().bg, ..pen }
    } else if 90 <= n <= 97 {
        Cell { fg: crate::cell::palette(n - 90 + 8), ..pen }
    } else if 100 <= n <= 107 {
        Cell { bg: crate::cell::palette(n - 100 + 8), ..pen }
    } else {
        pen
    }
}

/// The colour that the groups from `i` on spell out, `2;r;g;b` or `5;n`, with
/// the position at which reading stopped.
pub open spec fn extended_color(params: Seq<Seq<u16>>, i: int) -> (Option<u32>, int) {
    match crate::params::param(params, i) {
        Some(2) => {
            let r = crate::params::param(params, i + 1);
            let g = crate::params::param(params, i + 2);
            let b = crate::params::param(params, i + 3);
            if r is None {
                (None, i + 2)
            } else if g is None {
                (None, i + 3)
            } else if b is None {
                (None, i + 4)
            } else {
                (
                    Some(crate::cell::rgb_bits(r->0 as u32, g->0 as u32, b->0 as u32)),
                    i + 4,
                )
            }
        },
        Some(5) => match crate::params::param(params, i + 1) {
            Some(n) => (Some(crate::cell::xterm_color(n as u32)), i + 2),
            None => (None, i + 2),
        },
        _ => (None, i + 1),
    }
}

/// The pen after the groups from `i` on.
pub open spec fn sgr_from(pen: Cell, params: Seq<Seq<u16>>, i: int) -> Cell
    decreases
            if i < params.len() {
                params.len() - i
            } else {
                0
            },
{
    if i < 0 || i >= params.len() {
        pen
    } else {
        let n = crate::params::param_or(params, i, 0);
        if n == 38 {
            let (color, next) = extended_color(params, i + 1);
            sgr_from(
                match color {
                    Some(rgb) => Cell { fg: rgb, ..pen },
                    None => pen,
                },
                params,
                next,
            )
        } else if n == 48 {
            let (color, next) = extended_color(params, i + 1);
            sgr_from(
                match color {
                    Some(rgb) => Cell { bg: rgb, ..pen },
                    None => pen,
                },
                params,
                next,
            )
        } else {
            sgr_from(sgr_code(pen, n), params, i + 1)
        }
    }
}

/// The pen after a whole SGR sequence.
pub open spec fn sgr_pen(pen: Cell, params: Seq<Seq<u16>>) -> Cell {
    sgr_from(pen, params, 0)
}

fn apply_code(pen: Cell, n: u16) -> (next: Cell)
    requires
        n != 38,
        n != 48,
    ensures
        next == sgr_code(pen, n),
{
    let mut out = pen;
    if n == 0 {
        out = Cell::default();
    } else if n == 1 {
        out.flags = out.flags | ATTR_BOLD;
    } else if n == 3 {
        out.flags = out.flags | ATTR_ITALIC;
    } else if n == 4 {
        out.flags = out.flags | ATTR_UNDERLINE;
    } else if n == 22 {
        out.flags = out.flags & !ATTR_BOLD;
    } else if n == 23 {
        out.flags = out.flags & !ATTR_ITALIC;
    } else if n == 24 {
        out.flags = out.flags & !ATTR_UNDERLINE;
    } else if 30 <= n && n <= 37 {
        out.fg = ansi_16(n - 30);
    } else if n == 39 {
        out.fg = Cell::default().fg;
    } else if 40 <= n && n <= 47 {
        out.bg = ansi_16(n - 40);
    } else if n == 49 {
        out.bg = Cell::default().bg;
    } else if 90 <= n && n <= 97 {
        out.fg = ansi_16(n - 90 + 8);
    } else if 100 <= n && n <= 107 {
        out.bg = ansi_16(n - 100 + 8);
    }
    out
}

/// Position `k` groups past `i`, no further than the end.
fn skip(i: usize, k: usize, len: usize) -> (next: usize)
    requires
        i <= len,
    ensures
        next == if i + k <= len {
            i + k
        } else {
            len as int
        },
{
    if len - i < k {
        len
    } else {
        i + k
    }
}

/// Consume the tail of an SGR 38/48 sequence: `;2;r;g;b` truecolor or `;5;n` 256-color.
fn read_extended_color(params: &CsiParams, i: usize) -> (read: (Option<u32>, usize))
    requires
        i <= params@.len(),
    ensures
        read.0 == extended_color(params@, i as int).0,
        i <= read.1 <= params@.len(),
        read.1 == extended_color(params@, i as int).1 || (read.1 == params@.len()
            && extended_color(params@, i as int).1 > params@.len()),
{
    let len = params.len();
    match params.first(i) {
        Some(2) => {
            let ri = skip(i, 1, len);
            let gi = skip(i, 2, len);
            let bi = skip(i, 3, len);
            let r = match params.first(ri) {
                Some(v) => v as u32,
                None => return (None, skip(i, 2, len)),
            };
            let g = match params.first(gi) {
                Some(v) => v as u32,
                None => return (None, skip(i, 3, len)),
            };
            let b = match params.first(bi) {
                Some(v) => v as u32,
                None => return (None, skip(i, 4, len)),
            };
            (Some((r << 16) | (g << 8) | b), skip(i, 4, len))
        },
        Some(5) => {
            let ni = skip(i, 1, len);
            match params.first(ni) {
                Some(n) => (Some(xterm_256(n as u32)), skip(i, 2, len)),
                None => (None, skip(i, 2, len)),
            }
        },
        _ => (None, skip(i, 1, len)),
    }
}

/// Apply a whole SGR sequence to `pen`.
pub fn apply_sgr(pen: Cell, params: &CsiParams) -> (next: Cell)
    ensures
        next == sgr_pen(pen, params@),
{
    let len = params.len();
    let mut out = pen;
    let mut i: usize = 0;
    while i < len
        invariant
            i <= len,
            len == params@.len(),
            sgr_from(out, params@, i as int) == sgr_pen(pen, params@),
        decreases len - i,
    {
        proof {
            reveal_with_fuel(sgr_from, 2);
        }
        let n = params.first_or(i, 0);
        if n == 38 {
            let (color, next) = read_extended_color(params, i + 1);
            if let Some(rgb) = color {
                out.fg = rgb;
            }
            i = next;
        } else if n == 48 {
            let (color, next) = read_extended_color(params, i + 1);
            if let Some(rgb) = color {
                out.bg = rgb;
            }
            i = next;
        } else {
            out = apply_code(out, n);
            i += 1;
        }
    }
    out
}

/// SGR 0, the reset, forgets everything the codes before it set.
pub proof fn law_reset_forgets(pen: Cell, other: Cell, params: Seq<Seq<u16>>)
    requires
        crate::params::param_or(params, 0, 0) == 0,
        params.len() > 0,
    ensures
        sgr_pen(pen, params) == sgr_pen(other, params),
{
}

/// Is `bit` on in `flags`?
pub open spec fn has(flags: u16, bit: int) -> bool {
    (flags as int / bit) % 2 == 1
}

/// Only the attribute of this bit differs, and it is on or off as said.
pub open spec fn only_attribute(before: Cell, after: Cell, bit: u16, on: bool) -> bool {
    &&& after == (Cell { flags: after.flags, ..before })
    &&& has(after.flags, bit as int) == on
    &&& after.flags - (if on { bit as int } else { 0 }) == before.flags - (if has(
        before.flags,
        bit as int,
    ) {
        bit as int
    } else {
        0
    })
}

/// A code for colours changes the foreground or the background, never both and
/// nothing else: 30 to 37 and 90 to 97 the foreground, 40 to 47 and 100 to 107
/// the background, to the dim and the bright colours of the palette; 39 and 49
/// back to white and black. What is written already does not matter.
pub proof fn law_colour_codes(pen: Cell, n: u16)
    ensures
        ({
            let after = sgr_code(pen, n);
            let fore = 30 <= n <= 37 || 90 <= n <= 97 || n == 39;
            let back = 40 <= n <= 47 || 100 <= n <= 107 || n == 49;
            &&& fore ==> after == (Cell { fg: after.fg, ..pen })
            &&& back ==> after == (Cell { bg: after.bg, ..pen })
            &&& 30 <= n <= 37 ==> after.fg == crate::cell::palette(n - 30)
            &&& 90 <= n <= 97 ==> after.fg == crate::cell::palette(n - 82)
            &&& n == 39 ==> after.fg == 0xFFFFFF
            &&& 40 <= n <= 47 ==> after.bg == crate::cell::palette(n - 40)
            &&& 100 <= n <= 107 ==> after.bg == crate::cell::palette(n - 92)
            &&& n == 49 ==> after.bg == 0
        }),
{
}

/// Codes 1, 3 and 4 turn bold, italic and underline on, 22, 23 and 24 turn
/// them off, each without touching the others or the colours. Code 0 makes the
/// pen plain. A code that is not known does nothing.
pub proof fn law_attribute_codes(pen: Cell, n: u16)
    ensures
        only_attribute(pen, sgr_code(pen, 1), 1, true),
        only_attribute(pen, sgr_code(pen, 3), 2, true),
        only_attribute(pen, sgr_code(pen, 4), 4, true),
        only_attribute(pen, sgr_code(pen, 22), 1, false),
        only_attribute(pen, sgr_code(pen, 23), 2, false),
        only_attribute(pen, sgr_code(pen, 24), 4, false),
        sgr_code(pen, 0) == (Cell { c: ' ', fg: 0xFFFFFF, bg: 0, flags: 0, combining_id: 0 }),
        !(n == 0 || n == 1 || n == 3 || n == 4 || 22 <= n <= 24 || 30 <= n <= 37 || 39 <= n <= 47
            || n == 49 || 90 <= n <= 97 || 100 <= n <= 107) ==> sgr_code(pen, n) == pen,
{
    let f = pen.flags;
    assert(((f | 1) / 1) % 2 == 1 && (f | 1) - 1 == f - (if (f / 1) % 2 == 1 { 1int } else { 0int })
        && ((f & !1u16) / 1) % 2 == 0 && (f & !1u16) == f - (if (f / 1) % 2 == 1 {
        1int
    } else {
        0int
    })) by (bit_vector);
    assert(((f | 2) / 2) % 2 == 1 && (f | 2) - 2 == f - (if (f / 2) % 2 == 1 { 2int } else { 0int })
        && ((f & !2u16) / 2) % 2 == 0 && (f & !2u16) == f - (if (f / 2) % 2 == 1 {
        2int
    } else {
        0int
    })) by (bit_vector);
    assert(((f | 4) / 4) % 2 == 1 && (f | 4) - 4 == f - (if (f / 4) % 2 == 1 { 4int } else { 0int })
        && ((f & !4u16) / 4) % 2 == 0 && (f & !4u16) == f - (if (f / 4) % 2 == 1 {
        4int
    } else {
        0int
    })) by (bit_vector);
}

/// What comes before has no say in how the rest of a sequence is read.
proof fn lemma_sgr_shift(pen: Cell, head: Seq<Seq<u16>>, rest: Seq<Seq<u16>>, i: int)
    requires
        0 <= i,
    ensures
        sgr_from(pen, head + rest, head.len() + i) == sgr_from(pen, rest, i),
    decreases
            (if i < rest.len() {
                rest.len() - i
            } else {
                0
            }),
{
    let whole = head + rest;
    let k = head.len() as int;
    if i < rest.len() {
        assert forall|j: int| i <= j implies #[trigger] crate::params::param(whole, k + j)
            == crate::params::param(rest, j) by {
            if j < rest.len() {
                assert(whole[k + j] == rest[j]);
            }
        }
        let n = crate::params::param_or(rest, i, 0);
        assert(crate::params::param(whole, k + i) == crate::params::param(rest, i));
        assert(crate::params::param(whole, k + (i + 1)) == crate::params::param(rest, i + 1));
        assert(crate::params::param(whole, k + (i + 2)) == crate::params::param(rest, i + 2));
        assert(crate::params::param(whole, k + (i + 3)) == crate::params::param(rest, i + 3));
        assert(crate::params::param(whole, k + (i + 4)) == crate::params::param(rest, i + 4));
        let (color, next) = extended_color(rest, i + 1);
        assert(extended_color(whole, k + i + 1) == (color, k + next));
        if n == 38 {
            lemma_sgr_shift(
                match color {
                    Some(rgb) => Cell { fg: rgb, ..pen },
                    None => pen,
                },
                head,
                rest,
                next,
            );
        } else if n == 48 {
            lemma_sgr_shift(
                match color {
                    Some(rgb) => Cell { bg: rgb, ..pen },
                    None => pen,
                },
                head,
                rest,
                next,
            );
        } else {
            lemma_sgr_shift(sgr_code(pen, n), head, rest, i + 1);
        }
    }
}

/// The codes of a sequence take effect one after the other, each on what those
/// before it made of the pen. A group without a value counts as 0.
pub proof fn law_codes_in_order(pen: Cell, group: Seq<u16>, n: u16, rest: Seq<Seq<u16>>)
    requires
        n == if group.len() > 0 {
            group[0]
        } else {
            0
        },
        n != 38,
        n != 48,
    ensures
        sgr_pen(pen, seq![group] + rest) == sgr_pen(sgr_code(pen, n), rest),
        sgr_pen(pen, Seq::empty()) == pen,
{
    let one = seq![group];
    assert((one + rest)[0] == group);
    lemma_sgr_shift(sgr_code(pen, n), one, rest, 0);
    reveal_with_fuel(sgr_from, 2);
}

/// `38;2;r;g;b` sets the foreground to that colour and `48;2;r;g;b` the
/// background; `38;5;n` and `48;5;n` take one of the 256 colours. The codes
/// after them are read as usual.
pub proof fn law_extended_colours(
    pen: Cell,
    r: u16,
    g: u16,
    b: u16,
    n: u16,
    rest: Seq<Seq<u16>>,
)
    ensures
        ({
            let rgb = crate::cell::rgb_bits(r as u32, g as u32, b as u32);
            let direct = seq![seq![2u16], seq![r], seq![g], seq![b]];
            let indexed = seq![seq![5u16], seq![n]];
            let color = crate::cell::xterm_color(n as u32);
            &&& r < 256 && g < 256 && b < 256 ==> rgb == r * 0x10000 + g * 0x100 + b
            &&& sgr_pen(pen, seq![seq![38u16]] + direct + rest) == sgr_pen(
                Cell { fg: rgb, ..pen },
                rest,
            )
            &&& sgr_pen(pen, seq![seq![48u16]] + direct + rest) == sgr_pen(
                Cell { bg: rgb, ..pen },
                rest,
            )
            &&& sgr_pen(pen, seq![seq![38u16]] + indexed + rest) == sgr_pen(
                Cell { fg: color, ..pen },
                rest,
            )
            &&& sgr_pen(pen, seq![seq![48u16]] + indexed + rest) == sgr_pen(
                Cell { bg: color, ..pen },
                rest,
            )
        }),
{
    let rgb = crate::cell::rgb_bits(r as u32, g as u32, b as u32);
    let direct = seq![seq![2u16], seq![r], seq![g], seq![b]];
    let indexed = seq![seq![5u16], seq![n]];
    let color = crate::cell::xterm_color(n as u32);
    if r < 256 && g < 256 && b < 256 {
        crate::cell::law_packed_colour(r as u32, g as u32, b as u32);
    }
    lemma_extended(pen, 38, direct, rest, rgb);
    lemma_extended(pen, 48, direct, rest, rgb);
    lemma_extended(pen, 38, indexed, rest, color);
    lemma_extended(pen, 48, indexed, rest, color);
}

proof fn lemma_extended(
    pen: Cell,
    code: u16,
    spelled: Seq<Seq<u16>>,
    rest: Seq<Seq<u16>>,
    rgb: u32,
)
    requires
        code == 38 || code == 48,
        spelled.len() == 2 || spelled.len() == 4,
        extended_color(seq![seq![code]] + spelled + rest, 1) == (
            Some(rgb),
            1 + spelled.len() as int,
        ),
    ensures
        sgr_pen(pen, seq![seq![code]] + spelled + rest) == sgr_pen(
            if code == 38 {
                Cell { fg: rgb, ..pen }
            } else {
                Cell { bg: rgb, ..pen }
            },
            rest,
        ),
{
    let head = seq![seq![code]] + spelled;
    let next = if code == 38 {
        Cell { fg: rgb, ..pen }
    } else {
        Cell { bg: rgb, ..pen }
    };
    assert((head + rest)[0] == seq![code]);
    lemma_sgr_shift(next, head, rest, 0);
}

/// CSI m changes the pen and nothing else; the pen then colours what is
/// printed.
pub proof fn law_pen_sequence(
    t: crate::ansi::Term,
    params: Seq<Seq<u16>>,
    intermediates: Seq<u8>,
)
    ensures
        t.csi(params, intermediates, 'm') == (crate::ansi::Term {
            cursor: crate::cursor::CursorState { pen: sgr_pen(t.cursor.pen, params), ..t.cursor },
            ..t
        }),
{
}

/// A colour that is not spelled out leaves the pen as it is: what there is of
/// it is passed over, and after a form that is not known reading goes on.
pub proof fn law_incomplete_colours(
    pen: Cell,
    code: u16,
    k: u16,
    r: u16,
    g: u16,
    rest: Seq<Seq<u16>>,
)
    requires
        code == 38 || code == 48,
        k != 2,
        k != 5,
    ensures
        sgr_pen(pen, seq![seq![code]]) == pen,
        sgr_pen(pen, seq![seq![code], seq![2u16]]) == pen,
        sgr_pen(pen, seq![seq![code], seq![2u16], seq![r]]) == pen,
        sgr_pen(pen, seq![seq![code], seq![2u16], seq![r], seq![g]]) == pen,
        sgr_pen(pen, seq![seq![code], seq![5u16]]) == pen,
        sgr_pen(pen, seq![seq![code], seq![k]] + rest) == sgr_pen(pen, rest),
{
    reveal_with_fuel(sgr_from, 3);
    let head = seq![seq![code], seq![k]];
    assert((head + rest)[0] == seq![code]);
    assert((head + rest)[1] == seq![k]);
    lemma_sgr_shift(pen, head, rest, 0);
}

} // verus!
