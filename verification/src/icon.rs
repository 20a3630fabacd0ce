//! The window icon, drawn pixel by pixel into a square RGBA buffer.

use vstd::prelude::*;

verus! {

/// Can a `size` by `size` picture be drawn into a buffer of this length?
pub open spec fn canvas_ok(len: int, size: u32) -> bool {
    size > 0 ==> (size * size - 1) * 4 <= u32::MAX && size * size * 4 <= len
}

/// Column of the pixel that byte `i` belongs to.
pub open spec fn pixel_x(i: int, size: u32) -> int {
    (i / 4) % (size as int)
}

/// Row of the pixel that byte `i` belongs to.
pub open spec fn pixel_y(i: int, size: u32) -> int {
    (i / 4) / (size as int)
}

/// The picture with every pixel of a region set to `color`. What lies outside
/// of the picture is left alone.
pub open spec fn painted(
    rgba: Seq<u8>,
    size: u32,
    region: spec_fn(int, int) -> bool,
    color: [u8; 4],
) -> Seq<u8> {
    Seq::new(
        rgba.len(),
        |i: int|
            if i < size * size * 4 && region(pixel_x(i, size), pixel_y(i, size)) {
                color@[i % 4]
            } else {
                rgba[i]
            },
    )
}

/// The pixel `x`, `y`.
pub open spec fn pixel(x: int, y: int) -> spec_fn(int, int) -> bool {
    |px: int, py: int| px == x && py == y
}

/// The rectangle `w` by `h` at `x`, `y`.
pub open spec fn rect(x: int, y: int, w: int, h: int) -> spec_fn(int, int) -> bool {
    |px: int, py: int| x <= px < x + w && y <= py < y + h
}

/// How far `p` is from the nearest corner-circle centre along one side.
pub open spec fn corner_distance(p: int, start: int, end: int, radius: int) -> int {
    if p < start + radius {
        p - (start + radius)
    } else if p > end - radius {
        p - (end - radius)
    } else {
        0
    }
}

/// The rectangle with its corners rounded off by circles of the given radius.
pub open spec fn rounded_rect(
    x: int,
    y: int,
    w: int,
    h: int,
    radius: int,
) -> spec_fn(int, int) -> bool {
    |px: int, py: int|
        {
            let dx = corner_distance(px, x, x + w - 1, radius);
            let dy = corner_distance(py, y, y + h - 1, radius);
            x <= px < x + w && y <= py < y + h && dx * dx + dy * dy <= radius * radius
        }
}

/// Byte `4 * (y * size + x) + k` belongs to pixel `x`, `y`.
proof fn lemma_pixel(x: int, y: int, k: int, size: u32)
    requires
        0 <= x < size,
        0 <= y < size,
        0 <= k < 4,
    ensures
        pixel_x((y * size + x) * 4 + k, size) == x,
        pixel_y((y * size + x) * 4 + k, size) == y,
        ((y * size + x) * 4 + k) % 4 == k,
        0 <= (y * size + x) * 4,
        (y * size + x) * 4 + 4 <= size * size * 4,
        (y * size + x) * 4 <= (size * size - 1) * 4,
{
    let p = y * size + x;
    assert(0 <= y * size) by (nonlinear_arith)
        requires
            0 <= y,
            0 <= size,
    ;
    assert(y * size + size <= size * size) by (nonlinear_arith)
        requires
            0 <= y < size,
    ;
    assert((p * 4 + k) / 4 == p && (p * 4 + k) % 4 == k) by (nonlinear_arith)
        requires
            0 <= k < 4,
    ;
    vstd::arithmetic::div_mod::lemma_fundamental_div_mod_converse(p, size as int, y, x);
}

/// Byte `i` of the picture lies in the pixel that its coordinates name.
proof fn lemma_byte(i: int, size: u32)
    requires
        0 <= i < size * size * 4,
    ensures
        0 <= pixel_x(i, size) < size,
        0 <= pixel_y(i, size) < size,
        i == (pixel_y(i, size) * size + pixel_x(i, size)) * 4 + i % 4,
{
    let p = i / 4;
    let s = size as int;
    assert(s > 0) by (nonlinear_arith)
        requires
            0 <= i < s * s * 4,
            0 <= s,
    ;
    vstd::arithmetic::div_mod::lemma_fundamental_div_mod(p, s);
    assert(0 <= p < s * s) by (nonlinear_arith)
        requires
            0 <= i < s * s * 4,
            p == i / 4,
    ;
    assert(0 <= p / s < s) by (nonlinear_arith)
        requires
            0 <= p < s * s,
            0 < s,
    ;
    assert(s * (p / s) == (p / s) * s) by (nonlinear_arith);
}

pub fn set_pixel(rgba: &mut Vec<u8>, size: u32, x: u32, y: u32, color: [u8; 4])
    requires
        x < size && y < size ==> (y * size + x) * 4 <= u32::MAX && (y * size + x) * 4 + 4 <= old(
            rgba,
        )@.len(),
    ensures
        final(rgba)@ == painted(old(rgba)@, size, pixel(x as int, y as int), color),
{
    proof {
        assert forall|i: int|
            0 <= i < rgba@.len() && i < size * size * 4 && pixel(x as int, y as int)(
                pixel_x(i, size),
                pixel_y(i, size),
            ) implies x < size && y < size && i == (y * size + x) * 4 + i % 4 by {
            lemma_byte(i, size);
        }
    }
    if x >= size || y >= size {
        assert(rgba@ =~= painted(rgba@, size, pixel(x as int, y as int), color));
        return ;
    }
    proof {
        lemma_pixel(x as int, y as int, 0, size);
        lemma_pixel(x as int, y as int, 1, size);
        lemma_pixel(x as int, y as int, 2, size);
        lemma_pixel(x as int, y as int, 3, size);
        assert(y * size + x <= u32::MAX);
        assert(y * size <= u32::MAX);
    }
    let idx = ((y * size + x) * 4) as usize;
    let ghost before = rgba@;
    rgba.set(idx, color[0]);
    rgba.set(idx + 1, color[1]);
    rgba.set(idx + 2, color[2]);
    rgba.set(idx + 3, color[3]);
    assert forall|i: int| 0 <= i < rgba@.len() implies rgba@[i] == #[trigger] painted(
        before,
        size,
        pixel(x as int, y as int),
        color,
    )[i] by {
        if idx <= i < idx + 4 {
            lemma_pixel(x as int, y as int, i - idx, size);
        }
    }
    assert(rgba@ =~= painted(before, size, pixel(x as int, y as int), color));
}

/// The part of a region that lies before column `px` of row `py`, reading row
/// by row.
pub open spec fn before(
    region: spec_fn(int, int) -> bool,
    px: int,
    py: int,
) -> spec_fn(int, int) -> bool {
    |a: int, b: int| region(a, b) && (b < py || (b == py && a < px))
}

/// Painting two regions in one color paints their union.
proof fn lemma_painted_twice(
    rgba: Seq<u8>,
    size: u32,
    first: spec_fn(int, int) -> bool,
    second: spec_fn(int, int) -> bool,
    both: spec_fn(int, int) -> bool,
    color: [u8; 4],
)
    requires
        forall|a: int, b: int| #[trigger] both(a, b) <==> first(a, b) || second(a, b),
    ensures
        painted(painted(rgba, size, first, color), size, second, color) == painted(
            rgba,
            size,
            both,
            color,
        ),
{
    assert(painted(painted(rgba, size, first, color), size, second, color) =~= painted(
        rgba,
        size,
        both,
        color,
    )) by {
        assert forall|i: int| 0 <= i < rgba.len() implies both(
            #[trigger] pixel_x(i, size),
            pixel_y(i, size),
        ) == (first(pixel_x(i, size), pixel_y(i, size)) || second(
            pixel_x(i, size),
            pixel_y(i, size),
        )) by {}
    }
}

/// Painting the same pixels in other words.
proof fn lemma_painted_same(
    rgba: Seq<u8>,
    size: u32,
    one: spec_fn(int, int) -> bool,
    other: spec_fn(int, int) -> bool,
    color: [u8; 4],
)
    requires
        forall|a: int, b: int| #[trigger] one(a, b) <==> other(a, b),
    ensures
        painted(rgba, size, one, color) == painted(rgba, size, other, color),
{
    assert(painted(rgba, size, one, color) =~= painted(rgba, size, other, color)) by {
        assert forall|i: int| 0 <= i < rgba.len() implies one(
            #[trigger] pixel_x(i, size),
            pixel_y(i, size),
        ) == other(pixel_x(i, size), pixel_y(i, size)) by {}
    }
}

/// Painting no pixel changes nothing.
proof fn lemma_painted_nothing(
    rgba: Seq<u8>,
    size: u32,
    region: spec_fn(int, int) -> bool,
    color: [u8; 4],
)
    requires
        forall|a: int, b: int| !#[trigger] region(a, b),
    ensures
        painted(rgba, size, region, color) == rgba,
{
    assert(painted(rgba, size, region, color) =~= rgba);
}

/// A picture that can be drawn has room for each of its pixels.
proof fn lemma_canvas_pixel(len: int, size: u32, x: int, y: int)
    requires
        canvas_ok(len, size),
        0 <= x < size,
        0 <= y < size,
    ensures
        (y * size + x) * 4 <= u32::MAX,
        (y * size + x) * 4 + 4 <= len,
{
    lemma_pixel(x, y, 0, size);
}

pub fn fill_rect(rgba: &mut Vec<u8>, size: u32, x: u32, y: u32, w: u32, h: u32, color: [u8; 4])
    requires
        canvas_ok(old(rgba)@.len() as int, size),
        y + h <= u32::MAX,
        h > 0 ==> x + w <= u32::MAX,
    ensures
        final(rgba)@ == painted(
            old(rgba)@,
            size,
            rect(x as int, y as int, w as int, h as int),
            color,
        ),
{
    let ghost start = rgba@;
    let ghost whole = rect(x as int, y as int, w as int, h as int);
    let mut py: u32 = y;
    proof {
        lemma_painted_nothing(start, size, before(whole, x as int, y as int), color);
    }
    while py < y + h
        invariant
            canvas_ok(start.len() as int, size),
            y + h <= u32::MAX,
            h > 0 ==> x + w <= u32::MAX,
            y <= py <= y + h,
            whole == rect(x as int, y as int, w as int, h as int),
            rgba@ == painted(start, size, before(whole, x as int, py as int), color),
        decreases y + h - py,
    {
        let mut px: u32 = x;
        while px < x + w
            invariant
                canvas_ok(start.len() as int, size),
                x + w <= u32::MAX,
                y <= py < y + h,
                x <= px <= x + w,
                whole == rect(x as int, y as int, w as int, h as int),
                rgba@ == painted(start, size, before(whole, px as int, py as int), color),
            decreases x + w - px,
        {
            proof {
                if px < size && py < size {
                    lemma_canvas_pixel(start.len() as int, size, px as int, py as int);
                }
                lemma_painted_twice(
                    start,
                    size,
                    before(whole, px as int, py as int),
                    pixel(px as int, py as int),
                    before(whole, px + 1, py as int),
                    color,
                );
            }
            set_pixel(rgba, size, px, py, color);
            px += 1;
        }
        proof {
            lemma_painted_same(
                start,
                size,
                before(whole, px as int, py as int),
                before(whole, x as int, py + 1),
                color,
            );
        }
        py += 1;
    }
    proof {
        lemma_painted_same(start, size, before(whole, x as int, py as int), whole, color);
    }
}

/// Distance of `p` from the nearest corner-circle centre along one side.
fn side_distance(p: u32, start: u32, end: u32, radius: u32) -> (d: i32)
    requires
        start <= p <= end,
        end < 0x8000_0000,
        radius <= end,
        start + radius <= i32::MAX,
    ensures
        d == corner_distance(p as int, start as int, end as int, radius as int),
        -radius <= d <= radius,
{
    if p < start + radius {
        p as i32 - (start + radius) as i32
    } else if p > end - radius {
        p as i32 - (end - radius) as i32
    } else {
        0
    }
}

pub fn fill_rounded_rect(
    rgba: &mut Vec<u8>,
    size: u32,
    x: u32,
    y: u32,
    w: u32,
    h: u32,
    radius: u32,
    color: [u8; 4],
)
    requires
        canvas_ok(old(rgba)@.len() as int, size),
        1 <= x + w <= i32::MAX,
        1 <= y + h <= i32::MAX,
        w > 0 && h > 0 ==> {
            &&& x + radius <= i32::MAX
            &&& y + radius <= i32::MAX
            &&& radius < x + w
            &&& radius < y + h
            &&& 2 * radius * radius <= i32::MAX
        },
    ensures
        final(rgba)@ == painted(
            old(rgba)@,
            size,
            rounded_rect(x as int, y as int, w as int, h as int, radius as int),
            color,
        ),
{
    let ghost start = rgba@;
    let ghost whole = rounded_rect(x as int, y as int, w as int, h as int, radius as int);
    let (x_end, y_end) = (x + w, y + h);
    let mut py: u32 = y;
    proof {
        lemma_painted_nothing(start, size, before(whole, x as int, y as int), color);
    }
    if w == 0 {
        proof {
            lemma_painted_nothing(start, size, whole, color);
        }
        return ;
    }
    while py < y_end
        invariant
            canvas_ok(start.len() as int, size),
            w > 0,
            x_end == x + w,
            y_end == y + h,
            1 <= x_end <= i32::MAX,
            1 <= y_end <= i32::MAX,
            h > 0 ==> {
                &&& x + radius <= i32::MAX
                &&& y + radius <= i32::MAX
                &&& radius < x_end
                &&& radius < y_end
                &&& 2 * radius * radius <= i32::MAX
            },
            y <= py <= y_end,
            whole == rounded_rect(x as int, y as int, w as int, h as int, radius as int),
            rgba@ == painted(start, size, before(whole, x as int, py as int), color),
        decreases y_end - py,
    {
        let dy = side_distance(py, y, y_end - 1, radius);
        let mut px: u32 = x;
        while px < x_end
            invariant
                canvas_ok(start.len() as int, size),
                x_end == x + w,
                x_end <= i32::MAX,
                y_end == y + h,
                x + radius <= i32::MAX,
                radius < x_end,
                2 * radius * radius <= i32::MAX,
                y <= py < y_end,
                x <= px <= x_end,
                dy == corner_distance(py as int, y as int, y_end - 1, radius as int),
                -radius <= dy <= radius,
                whole == rounded_rect(x as int, y as int, w as int, h as int, radius as int),
                rgba@ == painted(start, size, before(whole, px as int, py as int), color),
            decreases x_end - px,
        {
            let dx = side_distance(px, x, x_end - 1, radius);
            proof {
                lemma_square(dx as int, radius as int);
                lemma_square(dy as int, radius as int);
                assert(2 * radius * radius == 2 * (radius * radius)) by (nonlinear_arith);
            }
            if dx * dx + dy * dy <= (radius as i32) * (radius as i32) {
                proof {
                    if px < size && py < size {
                        lemma_canvas_pixel(start.len() as int, size, px as int, py as int);
                    }
                    lemma_painted_twice(
                        start,
                        size,
                        before(whole, px as int, py as int),
                        pixel(px as int, py as int),
                        before(whole, px + 1, py as int),
                        color,
                    );
                }
                set_pixel(rgba, size, px, py, color);
            } else {
                proof {
                    lemma_painted_same(
                        start,
                        size,
                        before(whole, px as int, py as int),
                        before(whole, px + 1, py as int),
                        color,
                    );
                }
            }
            px += 1;
        }
        proof {
            lemma_painted_same(
                start,
                size,
                before(whole, px as int, py as int),
                before(whole, x as int, py + 1),
                color,
            );
        }
        py += 1;
    }
    proof {
        lemma_painted_same(start, size, before(whole, x as int, py as int), whole, color);
    }
}

proof fn lemma_square(d: int, radius: int)
    requires
        -radius <= d <= radius,
    ensures
        0 <= d * d <= radius * radius,
{
    assert(0 <= d * d <= radius * radius) by (nonlinear_arith)
        requires
            -radius <= d <= radius,
    ;
}

// ---- Lines ----

pub open spec fn distance(a: int, b: int) -> int {
    if a <= b {
        b - a
    } else {
        a - b
    }
}

/// `n` steps from `a` towards `b`.
pub open spec fn towards(a: int, b: int, n: int) -> int {
    if a < b {
        a + n
    } else {
        a - n
    }
}

/// Number of steps of a line: the longer of its two extents.
pub open spec fn line_steps(from: (u32, u32), to: (u32, u32)) -> int {
    let dx = distance(from.0 as int, to.0 as int);
    let dy = distance(from.1 as int, to.1 as int);
    if dx >= dy {
        dx
    } else {
        dy
    }
}

/// How far the short side has come after `k` of `long` steps: `k * short /
/// long`, rounded to the nearest, halves up.
pub open spec fn line_offset(k: int, long: int, short: int) -> int {
    if long == 0 {
        0
    } else {
        (2 * (k * short) + long) / (2 * long)
    }
}

/// Columns and rows covered after `k` steps of a line that spans `dx` columns
/// and `dy` rows.
pub open spec fn line_progress(dx: int, dy: int, k: int) -> (int, int) {
    if dx >= dy {
        (k, line_offset(k, dx, dy))
    } else {
        (line_offset(k, dy, dx), k)
    }
}

/// Step `k` of the line: the point of the ideal line on its long side, rounded
/// to a pixel on its short side.
pub open spec fn line_point(from: (u32, u32), to: (u32, u32), k: int) -> (int, int) {
    let (x0, y0) = (from.0 as int, from.1 as int);
    let (x1, y1) = (to.0 as int, to.1 as int);
    let (i, j) = line_progress(distance(x0, x1), distance(y0, y1), k);
    (towards(x0, x1, i), towards(y0, y1, j))
}

/// Does the 3 by 3 square at step `k` of the line cover this pixel?
pub open spec fn line_covers(from: (u32, u32), to: (u32, u32), k: int, px: int, py: int) -> bool {
    let (x, y) = line_point(from, to, k);
    x <= px < x + 3 && y <= py < y + 3
}

/// The first `n` squares of the line.
pub open spec fn line_part(
    from: (u32, u32),
    to: (u32, u32),
    n: int,
) -> spec_fn(int, int) -> bool {
    |px: int, py: int| exists|k: int| 0 <= k < n && #[trigger] line_covers(from, to, k, px, py)
}

/// The whole line, both ends included, three pixels thick.
pub open spec fn line(from: (u32, u32), to: (u32, u32)) -> spec_fn(int, int) -> bool {
    line_part(from, to, line_steps(from, to) + 1)
}

proof fn lemma_line_offset(k: int, long: int, short: int)
    requires
        0 <= k <= long,
        0 <= short <= long,
        long > 0,
    ensures
        ({
            let j = line_offset(k, long, short);
            &&& 2 * (long * j) <= 2 * (k * short) + long
            &&& 2 * (k * short) + long < 2 * (long * j) + 2 * long
            &&& 0 <= j <= short
            &&& k == long ==> j == short
            &&& k == 0 ==> j == 0
        }),
{
    let a = 2 * (k * short) + long;
    let m = 2 * long;
    let j = a / m;
    assert(0 <= k * short) by (nonlinear_arith)
        requires
            0 <= k,
            0 <= short,
    ;
    assert(k * short <= long * short) by (nonlinear_arith)
        requires
            k <= long,
            0 <= short,
    ;
    vstd::arithmetic::div_mod::lemma_fundamental_div_mod(a, m);
    assert(m * j == 2 * (long * j)) by (nonlinear_arith)
        requires
            m == 2 * long,
    ;
    assert(0 <= j <= short) by (nonlinear_arith)
        requires
            2 * (long * j) <= a,
            a < 2 * (long * j) + 2 * long,
            0 < long <= a,
            a <= 2 * (long * short) + long,
    ;
    if k == long {
        assert(j >= short) by (nonlinear_arith)
            requires
                a == 2 * (long * short) + long,
                a < 2 * (long * j) + 2 * long,
                0 < long,
        ;
    }
    if k == 0 {
        assert(k * short == 0) by (nonlinear_arith)
            requires
                k == 0,
        ;
        assert(j < 1) by (nonlinear_arith)
            requires
                2 * (long * j) <= a,
                a == long,
                0 < long,
        ;
    }
}

proof fn lemma_line_step(k: int, long: int, short: int)
    requires
        0 <= k < long,
        0 <= short <= long,
    ensures
        ({
            let j = line_offset(k, long, short);
            line_offset(k + 1, long, short) == if 2 * (long * j) + long <= 2 * (k * short) + 2
                * short {
                j + 1
            } else {
                j
            }
        }),
{
    let j = line_offset(k, long, short);
    let next = line_offset(k + 1, long, short);
    lemma_line_offset(k, long, short);
    lemma_line_offset(k + 1, long, short);
    assert((k + 1) * short == k * short + short) by (nonlinear_arith);
    let (p, q) = (long * j, long * next);
    if 2 * p + long <= 2 * (k * short) + 2 * short {
        assert(next == j + 1) by (nonlinear_arith)
            requires
                p == long * j,
                q == long * next,
                2 * p + 2 * long < 2 * q + 2 * long,
                2 * q < 2 * p + 4 * long,
                long > 0,
        ;
    } else {
        assert(next == j) by (nonlinear_arith)
            requires
                p == long * j,
                q == long * next,
                2 * p < 2 * q + 2 * long,
                2 * q < 2 * p + 2 * long,
                long > 0,
        ;
    }
}

/// The error term that steers a line tells which way each step goes.
proof fn lemma_line_decision(dx: int, dy: int, k: int)
    requires
        0 <= dx,
        0 <= dy,
        0 <= k < dx || 0 <= k < dy,
    ensures
        ({
            let (i, j) = line_progress(dx, dy, k);
            let err = dx * j + dx - dy * i - dy;
            &&& line_progress(dx, dy, k + 1) == (
                if 2 * err >= -dy {
                    i + 1
                } else {
                    i
                },
                if 2 * err <= dx {
                    j + 1
                } else {
                    j
                },
            )
            &&& -2 * dx <= 2 * err <= 3 * dx || -3 * dy <= 2 * err <= 2 * dy
            &&& 0 <= i <= dx
            &&& 0 <= j <= dy
        }),
{
    let (i, j) = line_progress(dx, dy, k);
    if dx >= dy {
        lemma_line_offset(k, dx, dy);
        lemma_line_step(k, dx, dy);
        assert(k * dy == dy * i) by (nonlinear_arith)
            requires
                i == k,
        ;
    } else {
        lemma_line_offset(k, dy, dx);
        lemma_line_step(k, dy, dx);
        assert(k * dx == dx * j) by (nonlinear_arith)
            requires
                j == k,
        ;
    }
}

/// The end of the line is reached exactly at its last step.
proof fn lemma_line_end(dx: int, dy: int, k: int)
    requires
        0 <= dx,
        0 <= dy,
        0 <= k <= dx || 0 <= k <= dy,
    ensures
        ({
            let (i, j) = line_progress(dx, dy, k);
            &&& 0 <= i <= dx
            &&& 0 <= j <= dy
            &&& (i == dx && j == dy) <==> (k >= dx && k >= dy)
        }),
{
    if dx >= dy && dx > 0 {
        lemma_line_offset(k, dx, dy);
    } else if dx < dy {
        lemma_line_offset(k, dy, dx);
    }
}

pub fn draw_line(
    rgba: &mut Vec<u8>,
    size: u32,
    from: (u32, u32),
    to: (u32, u32),
    color: [u8; 4],
)
    requires
        canvas_ok(old(rgba)@.len() as int, size),
        from.0 <= i32::MAX,
        from.1 <= i32::MAX,
        to.0 <= i32::MAX,
        to.1 <= i32::MAX,
        3 * line_steps(from, to) <= i32::MAX,
    ensures
        final(rgba)@ == painted(old(rgba)@, size, line(from, to), color),
{
    let ghost start = rgba@;
    let (mut x0, mut y0) = (from.0 as i32, from.1 as i32);
    let (x1, y1) = (to.0 as i32, to.1 as i32);
    let dx: i32 = if x0 <= x1 {
        x1 - x0
    } else {
        x0 - x1
    };
    let sx: i32 = if x0 < x1 {
        1
    } else {
        -1
    };
    let dy: i32 = if y0 <= y1 {
        y1 - y0
    } else {
        y0 - y1
    };
    let sy: i32 = if y0 < y1 {
        1
    } else {
        -1
    };
    let mut err: i32 = dx - dy;
    let ghost mut k: int = 0;
    proof {
        lemma_painted_nothing(start, size, line_part(from, to, 0), color);
        lemma_line_end(dx as int, dy as int, 0);
        if dx > 0 || dy > 0 {
            lemma_line_decision(dx as int, dy as int, 0);
            if dx >= dy {
                lemma_line_offset(0, dx as int, dy as int);
            } else {
                lemma_line_offset(0, dy as int, dx as int);
            }
        }
        assert(line_progress(dx as int, dy as int, 0) == (0int, 0int));
        assert(dx * 0 == 0 && dy * 0 == 0) by (nonlinear_arith);
    }
    loop
        invariant_except_break
            rgba@ == painted(start, size, line_part(from, to, k), color),
        invariant
            canvas_ok(start.len() as int, size),
            from.0 <= i32::MAX,
            from.1 <= i32::MAX,
            x1 == to.0,
            y1 == to.1,
            dx == distance(from.0 as int, to.0 as int),
            dy == distance(from.1 as int, to.1 as int),
            sx == towards(from.0 as int, to.0 as int, 1) - from.0,
            sy == towards(from.1 as int, to.1 as int, 1) - from.1,
            3 * dx <= i32::MAX,
            3 * dy <= i32::MAX,
            0 <= k <= line_steps(from, to),
            (x0 as int, y0 as int) == line_point(from, to, k),
            err == dx * line_progress(dx as int, dy as int, k).1 + dx - dy * line_progress(
                dx as int,
                dy as int,
                k,
            ).0 - dy,
        ensures
            rgba@ == painted(start, size, line(from, to), color),
        decreases line_steps(from, to) - k,
    {
        let ghost (i, j) = line_progress(dx as int, dy as int, k);
        proof {
            lemma_line_end(dx as int, dy as int, k);
            assert forall|a: int, b: int|
                #![trigger line_part(from, to, k + 1)(a, b)]
                line_part(from, to, k + 1)(a, b) <==> line_part(from, to, k)(a, b) || rect(
                    x0 as int,
                    y0 as int,
                    3,
                    3,
                )(a, b) by {
                if rect(x0 as int, y0 as int, 3, 3)(a, b) {
                    assert(line_covers(from, to, k, a, b));
                }
            }
            lemma_painted_twice(
                start,
                size,
                line_part(from, to, k),
                rect(x0 as int, y0 as int, 3, 3),
                line_part(from, to, k + 1),
                color,
            );
        }
        fill_rect(rgba, size, x0 as u32, y0 as u32, 3, 3, color);
        if x0 == x1 && y0 == y1 {
            break ;
        }
        proof {
            lemma_line_decision(dx as int, dy as int, k);
            lemma_line_end(dx as int, dy as int, k + 1);
            assert(dx * (j + 1) == dx * j + dx) by (nonlinear_arith);
            assert(dy * (i + 1) == dy * i + dy) by (nonlinear_arith);
        }
        let e2 = 2 * err;
        if e2 >= -dy {
            err -= dy;
            x0 += sx;
        }
        if e2 <= dx {
            err += dx;
            y0 += sy;
        }
        proof {
            k = k + 1;
        }
    }
}

// ---- The icon ----

/// Width and height of the icon.
pub const ICON_SIZE: u32 = 64;

/// The two rectangles of step `i` of the prompt sign.
pub open spec fn prompt_covers(i: int, px: int, py: int) -> bool {
    rect(18 + i, 28 + i / 2, 2, 3)(px, py) || rect(29 - i, 34 + i / 2, 2, 3)(px, py)
}

/// The first `n` steps of the prompt sign.
pub open spec fn prompt_part(n: int) -> spec_fn(int, int) -> bool {
    |px: int, py: int| exists|i: int| 0 <= i < n && #[trigger] prompt_covers(i, px, py)
}

/// Color of the prompt sign and the text strip.
pub open spec fn cream() -> [u8; 4] {
    [221u8, 230, 184, 255]
}

/// Color of the ridge and the lit part of the text strip.
pub open spec fn moss() -> [u8; 4] {
    [143u8, 191, 90, 255]
}

/// Color of the backdrop and the eye.
pub open spec fn night() -> [u8; 4] {
    [8u8, 17, 11, 255]
}

pub open spec fn with_prompt(rgba: Seq<u8>, size: u32) -> Seq<u8> {
    painted(rgba, size, prompt_part(12), cream())
}

/// The zigzag ridge of the back, and the eye.
pub open spec fn with_ridge(rgba: Seq<u8>, size: u32) -> Seq<u8> {
    let a = painted(rgba, size, line((18, 28), (24, 24)), moss());
    let b = painted(a, size, line((24, 24), (31, 29)), moss());
    let c = painted(b, size, line((31, 29), (38, 24)), moss());
    let d = painted(c, size, line((38, 24), (46, 29)), moss());
    painted(d, size, rect(40, 27, 2, 2), night())
}

/// The whole icon, on a transparent ground.
pub open spec fn icon_picture() -> Seq<u8> {
    let size = ICON_SIZE;
    let clear = Seq::new((size * size * 4) as nat, |i: int| 0u8);
    let back = painted(clear, size, rounded_rect(6, 6, 52, 52, 10), night());
    let body = painted(back, size, rounded_rect(12, 18, 40, 34, 6), [12u8, 26, 16, 255]);
    let bar = painted(body, size, rect(12, 18, 40, 6), [20u8, 40, 26, 255]);
    let strip = painted(bar, size, rect(16, 35, 30, 4), cream());
    let lit = painted(strip, size, rect(16, 35, 12, 4), moss());
    painted(
        with_ridge(with_prompt(lit, size), size),
        size,
        rect(28, 45, 16, 4),
        [211u8, 180, 92, 255],
    )
}

pub fn draw_prompt(rgba: &mut Vec<u8>, size: u32)
    requires
        canvas_ok(old(rgba)@.len() as int, size),
    ensures
        final(rgba)@ == with_prompt(old(rgba)@, size),
{
    let ghost start = rgba@;
    let color: [u8; 4] = [221, 230, 184, 255];
    proof {
        lemma_painted_nothing(start, size, prompt_part(0), color);
    }
    assert(color@ =~= cream()@);
    assert(color =~= cream());
    let mut i: u32 = 0;
    while i < 12
        invariant
            i <= 12,
            canvas_ok(start.len() as int, size),
            rgba@ == painted(start, size, prompt_part(i as int), color),
        decreases 12 - i,
    {
        let ghost down = rect(18 + i, 28 + i as int / 2, 2, 3);
        let ghost up = rect(29 - i, 34 + i as int / 2, 2, 3);
        let ghost mid = |px: int, py: int| prompt_part(i as int)(px, py) || down(px, py);
        proof {
            assert forall|a: int, b: int|
                #![trigger prompt_part(i + 1)(a, b)]
                prompt_part(i + 1)(a, b) <==> mid(a, b) || up(a, b) by {
                if down(a, b) || up(a, b) {
                    assert(prompt_covers(i as int, a, b));
                }
            }
            lemma_painted_twice(start, size, prompt_part(i as int), down, mid, color);
            lemma_painted_twice(start, size, mid, up, prompt_part(i + 1), color);
        }
        fill_rect(rgba, size, 18 + i, 28 + i / 2, 2, 3, color);
        fill_rect(rgba, size, 29 - i, 34 + i / 2, 2, 3, color);
        i += 1;
    }
}

pub fn draw_gator_ridge(rgba: &mut Vec<u8>, size: u32)
    requires
        canvas_ok(old(rgba)@.len() as int, size),
    ensures
        final(rgba)@ == with_ridge(old(rgba)@, size),
{
    let color: [u8; 4] = [143, 191, 90, 255];
    let eye: [u8; 4] = [8, 17, 11, 255];
    assert(color@ =~= moss()@);
    assert(color =~= moss());
    assert(eye@ =~= night()@);
    assert(eye =~= night());
    draw_line(rgba, size, (18, 28), (24, 24), color);
    draw_line(rgba, size, (24, 24), (31, 29), color);
    draw_line(rgba, size, (31, 29), (38, 24), color);
    draw_line(rgba, size, (38, 24), (46, 29), color);
    fill_rect(rgba, size, 40, 27, 2, 2, eye);
}

/// The icon as RGBA bytes, row by row, `ICON_SIZE` pixels wide and high.
pub fn gator_icon() -> (rgba: Vec<u8>)
    ensures
        rgba@ == icon_picture(),
        rgba@.len() == 4 * ICON_SIZE * ICON_SIZE,
{
    let mut rgba: Vec<u8> = vec![0; 16384];
    assert(rgba@ =~= Seq::new((ICON_SIZE * ICON_SIZE * 4) as nat, |i: int| 0u8));
    let dark: [u8; 4] = [8, 17, 11, 255];
    let light: [u8; 4] = [221, 230, 184, 255];
    let green: [u8; 4] = [143, 191, 90, 255];
    assert(dark@ =~= night()@ && light@ =~= cream()@ && green@ =~= moss()@);
    assert(dark =~= night() && light =~= cream() && green =~= moss());
    fill_rounded_rect(&mut rgba, ICON_SIZE, 6, 6, 52, 52, 10, dark);
    fill_rounded_rect(&mut rgba, ICON_SIZE, 12, 18, 40, 34, 6, [12, 26, 16, 255]);
    fill_rect(&mut rgba, ICON_SIZE, 12, 18, 40, 6, [20, 40, 26, 255]);
    fill_rect(&mut rgba, ICON_SIZE, 16, 35, 30, 4, light);
    fill_rect(&mut rgba, ICON_SIZE, 16, 35, 12, 4, green);
    draw_prompt(&mut rgba, ICON_SIZE);
    draw_gator_ridge(&mut rgba, ICON_SIZE);
    fill_rect(&mut rgba, ICON_SIZE, 28, 45, 16, 4, [211, 180, 92, 255]);
    rgba
}

/// `winit::window::Icon`: a window icon as the window system holds it.
#[verifier::external_type_specification]
#[verifier::external_body]
pub struct ExIcon(winit::window::Icon);

/// `winit::window::BadIcon`: why there is no icon.
#[verifier::external_type_specification]
#[verifier::external_body]
pub struct ExBadIcon(winit::window::BadIcon);

/// What a window icon was made from: its RGBA pixels, its width and its height.
pub uninterp spec fn icon_source(icon: winit::window::Icon) -> (Seq<u8>, u32, u32);

/// `winit::window::Icon::from_rgba` makes a window icon of `width * height`
/// pixels, four bytes each; another number of bytes is an error. That a fitting
/// number succeeds is not stated: on some systems the window system has a say.
#[verifier::external_body]
fn icon_from_rgba(rgba: Vec<u8>, width: u32, height: u32) -> (icon: Result<
    winit::window::Icon,
    winit::window::BadIcon,
>)
    requires
        width * height <= u32::MAX,
    ensures
        icon is Ok ==> rgba@.len() == 4 * width * height,
        icon matches Ok(i) ==> icon_source(i) == (rgba@, width, height),
{
    winit::window::Icon::from_rgba(rgba, width, height)
}

/// No icon was made, and why.
#[derive(Debug)]
pub enum IconError {
    Refused(winit::window::BadIcon),
}

/// The icon for the window's title bar, `ICON_SIZE` pixels wide and high.
pub fn gator_window_icon() -> (icon: Result<winit::window::Icon, IconError>)
    ensures
        icon matches Ok(i) ==> icon_source(i) == (icon_picture(), ICON_SIZE, ICON_SIZE),
{
    window_icon(icon_from_rgba(gator_icon(), ICON_SIZE, ICON_SIZE))
}

/// The icon that was made, or the reason for which none was.
pub fn window_icon(
    made: Result<winit::window::Icon, winit::window::BadIcon>,
) -> (icon: Result<winit::window::Icon, IconError>)
    ensures
        icon == match made {
            Ok(i) => Ok::<winit::window::Icon, IconError>(i),
            Err(reason) => Err(IconError::Refused(reason)),
        },
{
    match made {
        Ok(icon) => Ok(icon),
        Err(reason) => Err(IconError::Refused(reason)),
    }
}

// ---- What holds of every drawing ----

/// A line covers both of its ends and stays between them: no square leaves the
/// rectangle that the two ends span.
pub proof fn law_line_joins_its_ends(from: (u32, u32), to: (u32, u32), k: int)
    requires
        0 <= k <= line_steps(from, to),
    ensures
        line_point(from, to, 0) == (from.0 as int, from.1 as int),
        line_point(from, to, line_steps(from, to)) == (to.0 as int, to.1 as int),
        distance(from.0 as int, line_point(from, to, k).0) <= distance(
            from.0 as int,
            to.0 as int,
        ),
        distance(from.1 as int, line_point(from, to, k).1) <= distance(
            from.1 as int,
            to.1 as int,
        ),
{
    let dx = distance(from.0 as int, to.0 as int);
    let dy = distance(from.1 as int, to.1 as int);
    lemma_line_end(dx, dy, k);
    lemma_line_end(dx, dy, line_steps(from, to));
    if dx >= dy && dx > 0 {
        lemma_line_offset(0, dx, dy);
    } else if dx < dy {
        lemma_line_offset(0, dy, dx);
    }
}

/// Each step of a line moves to a neighbouring pixel: lines have no gaps.
pub proof fn law_line_has_no_gaps(from: (u32, u32), to: (u32, u32), k: int)
    requires
        0 <= k < line_steps(from, to),
    ensures
        distance(line_point(from, to, k).0, line_point(from, to, k + 1).0) <= 1,
        distance(line_point(from, to, k).1, line_point(from, to, k + 1).1) <= 1,
{
    let dx = distance(from.0 as int, to.0 as int);
    let dy = distance(from.1 as int, to.1 as int);
    lemma_line_decision(dx, dy, k);
}

/// Byte `k` of the pixel in column `x` of row `y`.
pub open spec fn byte_of(rgba: Seq<u8>, size: u32, x: int, y: int, k: int) -> u8 {
    rgba[(y * size + x) * 4 + k]
}

/// Painting gives the pixels of the region the colour and leaves all others,
/// and what lies behind the picture, as they were.
pub proof fn law_painted_pixel(
    rgba: Seq<u8>,
    size: u32,
    region: spec_fn(int, int) -> bool,
    color: [u8; 4],
    x: int,
    y: int,
    k: int,
    i: int,
)
    requires
        0 <= x < size,
        0 <= y < size,
        0 <= k < 4,
        size * size * 4 <= rgba.len(),
    ensures
        ({
            let after = painted(rgba, size, region, color);
            &&& after.len() == rgba.len()
            &&& region(x, y) ==> byte_of(after, size, x, y, k) == color@[k]
            &&& !region(x, y) ==> byte_of(after, size, x, y, k) == byte_of(rgba, size, x, y, k)
            &&& size * size * 4 <= i < rgba.len() ==> after[i] == rgba[i]
        }),
{
    lemma_pixel(x, y, k, size);
}

/// A pixel and a rectangle cover what they say.
pub proof fn law_regions(x: int, y: int, w: int, h: int, px: int, py: int)
    ensures
        pixel(x, y)(px, py) <==> (px, py) == (x, y),
        rect(x, y, w, h)(px, py) <==> 0 <= px - x < w && 0 <= py - y < h,
{
}

/// A rounded rectangle covers no pixel outside of the rectangle; inside, all
/// but those in a corner that lie further than the radius from the centre of
/// the circle there.
pub proof fn law_rounded_corners(
    x: int,
    y: int,
    w: int,
    h: int,
    r: int,
    px: int,
    py: int,
)
    requires
        0 <= r,
        2 * r < w,
        2 * r < h,
    ensures
        ({
            let inside = rounded_rect(x, y, w, h, r)(px, py);
            let left = px < x + r;
            let right = px > x + w - 1 - r;
            let above = py < y + r;
            let below = py > y + h - 1 - r;
            let dx = if left {
                x + r - px
            } else {
                px - (x + w - 1 - r)
            };
            let dy = if above {
                y + r - py
            } else {
                py - (y + h - 1 - r)
            };
            let boxed = x <= px < x + w && y <= py < y + h;
            &&& !boxed ==> !inside
            &&& boxed && !((left || right) && (above || below)) ==> inside
            &&& boxed && (left || right) && (above || below) ==> (inside <==> dx * dx + dy * dy <= r
                * r)
        }),
{
    let a = corner_distance(px, x, x + w - 1, r);
    let b = corner_distance(py, y, y + h - 1, r);
    assert(a * a == (-a) * (-a) && b * b == (-b) * (-b)) by (nonlinear_arith);
    if x <= px < x + w && y <= py < y + h {
        assert(-r <= a <= r && -r <= b <= r);
        assert(a * a <= r * r) by (nonlinear_arith)
            requires
                -r <= a <= r,
        ;
        assert(b * b <= r * r) by (nonlinear_arith)
            requires
                -r <= b <= r,
        ;
        if a == 0 {
            assert(a * a == 0) by (nonlinear_arith)
                requires
                    a == 0,
            ;
        }
        if b == 0 {
            assert(b * b == 0) by (nonlinear_arith)
                requires
                    b == 0,
            ;
        }
    }
}

/// Step by step a line goes along its longer side, one pixel each time, and on
/// the other it stays within half a pixel of the straight line between its
/// ends.
pub proof fn law_line_is_straight(from: (u32, u32), to: (u32, u32), k: int)
    requires
        0 <= k <= line_steps(from, to),
    ensures
        ({
            let (x0, y0, x1, y1) = (from.0 as int, from.1 as int, to.0 as int, to.1 as int);
            let (dx, dy) = (x1 - x0, y1 - y0);
            let n = line_steps(from, to);
            let (x, y) = line_point(from, to, k);
            &&& n >= dx && n >= -dx && n >= dy && n >= -dy
            &&& n == dx || n == -dx || n == dy || n == -dy
            &&& -n <= 2 * ((x - x0) * n - k * dx) <= n
            &&& -n <= 2 * ((y - y0) * n - k * dy) <= n
        }),
{
    let (x0, y0, x1, y1) = (from.0 as int, from.1 as int, to.0 as int, to.1 as int);
    let (ax, ay) = (distance(x0, x1), distance(y0, y1));
    let n = line_steps(from, to);
    let (i, j) = line_progress(ax, ay, k);
    if n > 0 {
        if ax >= ay {
            lemma_line_offset(k, ax, ay);
            lemma_side_is_straight(x0, x1, n, k, k);
            lemma_side_is_straight(y0, y1, n, k, j);
        } else {
            lemma_line_offset(k, ay, ax);
            lemma_side_is_straight(x0, x1, n, k, i);
            lemma_side_is_straight(y0, y1, n, k, k);
        }
    }
}

proof fn lemma_side_is_straight(a: int, b: int, n: int, k: int, s: int)
    requires
        0 < n,
        -n <= 2 * (s * n - k * distance(a, b)) <= n || (s == k && n == distance(a, b)) || (2 * (n * s)
            <= 2 * (k * distance(a, b)) + n && 2 * (k * distance(a, b)) + n < 2 * (n * s) + 2 * n),
    ensures
        -n <= 2 * ((towards(a, b, s) - a) * n - k * (b - a)) <= n,
{
    let d = distance(a, b);
    assert(s * n == n * s) by (nonlinear_arith);
    assert(s == k && n == d ==> s * n == k * d);
    if a < b {
        assert((towards(a, b, s) - a) * n == s * n);
        assert(k * (b - a) == k * d);
    } else {
        assert((towards(a, b, s) - a) * n == -(s * n)) by (nonlinear_arith)
            requires
                towards(a, b, s) - a == -s,
        ;
        assert(k * (b - a) == -(k * d)) by (nonlinear_arith)
            requires
                b - a == -d,
        ;
    }
}

/// A line is three pixels thick: at each step it covers the pixel there and the
/// two to its right and below, and it covers nothing else.
pub proof fn law_line_is_thick(from: (u32, u32), to: (u32, u32), k: int, px: int, py: int)
    ensures
        ({
            let (x, y) = line_point(from, to, k);
            0 <= k <= line_steps(from, to) && 0 <= px - x <= 2 && 0 <= py - y <= 2 ==> line(
                from,
                to,
            )(px, py)
        }),
        line(from, to)(px, py) ==> exists|j: int|
            0 <= j <= line_steps(from, to) && #[trigger] line_covers(from, to, j, px, py),
        ({
            let (x, y) = line_point(from, to, k);
            line_covers(from, to, k, px, py) <==> 0 <= px - x <= 2 && 0 <= py - y <= 2
        }),
{
    let (x, y) = line_point(from, to, k);
    if 0 <= k <= line_steps(from, to) && 0 <= px - x <= 2 && 0 <= py - y <= 2 {
        assert(line_covers(from, to, k, px, py));
    }
}

/// The prompt sign has twelve steps: one arm goes down to the right and the
/// other down to the left, a row for every two columns.
pub proof fn law_prompt_sign(i: int, px: int, py: int)
    ensures
        0 <= i < 12 && 0 <= px - 18 - i < 2 && 0 <= py - 28 - i / 2 < 3 ==> prompt_part(12)(px, py),
        0 <= i < 12 && 0 <= px - 29 + i < 2 && 0 <= py - 34 - i / 2 < 3 ==> prompt_part(12)(px, py),
        prompt_part(12)(px, py) ==> 18 <= px <= 30 && 28 <= py <= 41,
        cream()@ == seq![221u8, 230u8, 184u8, 255u8],
        moss()@ == seq![143u8, 191u8, 90u8, 255u8],
        night()@ == seq![8u8, 17u8, 11u8, 255u8],
{
    if 0 <= i < 12 && ((0 <= px - 18 - i < 2 && 0 <= py - 28 - i / 2 < 3) || (0 <= px - 29 + i < 2
        && 0 <= py - 34 - i / 2 < 3)) {
        assert(prompt_covers(i, px, py));
    }
    assert(cream()@ =~= seq![221u8, 230u8, 184u8, 255u8]);
    assert(moss()@ =~= seq![143u8, 191u8, 90u8, 255u8]);
    assert(night()@ =~= seq![8u8, 17u8, 11u8, 255u8]);
}

/// Does the ridge pass here? It runs up and down between five points.
pub open spec fn on_ridge(x: int, y: int) -> bool {
    line((18, 28), (24, 24))(x, y) || line((24, 24), (31, 29))(x, y) || line((31, 29), (38, 24))(
        x,
        y,
    ) || line((38, 24), (46, 29))(x, y)
}

/// The colour of a pixel of the icon is that of the topmost layer there: the
/// golden strip, the eye, the ridge, the prompt sign, the lit and the unlit
/// part of the text, the title bar, the body, the backdrop, and nothing.
pub open spec fn layer_at(x: int, y: int) -> Seq<u8> {
    if 28 <= x < 44 && 45 <= y < 49 {
        seq![211u8, 180u8, 92u8, 255u8]
    } else if 40 <= x < 42 && 27 <= y < 29 {
        seq![8u8, 17u8, 11u8, 255u8]
    } else if on_ridge(x, y) {
        seq![143u8, 191u8, 90u8, 255u8]
    } else if prompt_part(12)(x, y) {
        seq![221u8, 230u8, 184u8, 255u8]
    } else if 16 <= x < 28 && 35 <= y < 39 {
        seq![143u8, 191u8, 90u8, 255u8]
    } else if 16 <= x < 46 && 35 <= y < 39 {
        seq![221u8, 230u8, 184u8, 255u8]
    } else if 12 <= x < 52 && 18 <= y < 24 {
        seq![20u8, 40u8, 26u8, 255u8]
    } else if rounded_rect(12, 18, 40, 34, 6)(x, y) {
        seq![12u8, 26u8, 16u8, 255u8]
    } else if rounded_rect(6, 6, 52, 52, 10)(x, y) {
        seq![8u8, 17u8, 11u8, 255u8]
    } else {
        seq![0u8, 0u8, 0u8, 0u8]
    }
}

/// Every pixel of the icon shows its topmost layer.
pub proof fn law_icon_layers(x: int, y: int, k: int)
    requires
        0 <= x < 64,
        0 <= y < 64,
        0 <= k < 4,
    ensures
        icon_picture().len() == 64 * 64 * 4,
        byte_of(icon_picture(), 64, x, y, k) == layer_at(x, y)[k],
{
    let size = ICON_SIZE;
    let clear = Seq::new((size * size * 4) as nat, |i: int| 0u8);
    let back = painted(clear, size, rounded_rect(6, 6, 52, 52, 10), night());
    let brown: [u8; 4] = [12u8, 26, 16, 255];
    let dark: [u8; 4] = [20u8, 40, 26, 255];
    let gold: [u8; 4] = [211u8, 180, 92, 255];
    let body = painted(back, size, rounded_rect(12, 18, 40, 34, 6), brown);
    let bar = painted(body, size, rect(12, 18, 40, 6), dark);
    let strip = painted(bar, size, rect(16, 35, 30, 4), cream());
    let lit = painted(strip, size, rect(16, 35, 12, 4), moss());
    let sign = painted(lit, size, prompt_part(12), cream());
    let a = painted(sign, size, line((18, 28), (24, 24)), moss());
    let b = painted(a, size, line((24, 24), (31, 29)), moss());
    let c = painted(b, size, line((31, 29), (38, 24)), moss());
    let d = painted(c, size, line((38, 24), (46, 29)), moss());
    let e = painted(d, size, rect(40, 27, 2, 2), night());
    lemma_pixel(x, y, k, size);
    law_painted_pixel(clear, size, rounded_rect(6, 6, 52, 52, 10), night(), x, y, k, 0);
    law_painted_pixel(back, size, rounded_rect(12, 18, 40, 34, 6), brown, x, y, k, 0);
    law_painted_pixel(body, size, rect(12, 18, 40, 6), dark, x, y, k, 0);
    law_painted_pixel(bar, size, rect(16, 35, 30, 4), cream(), x, y, k, 0);
    law_painted_pixel(strip, size, rect(16, 35, 12, 4), moss(), x, y, k, 0);
    law_painted_pixel(lit, size, prompt_part(12), cream(), x, y, k, 0);
    law_painted_pixel(sign, size, line((18, 28), (24, 24)), moss(), x, y, k, 0);
    law_painted_pixel(a, size, line((24, 24), (31, 29)), moss(), x, y, k, 0);
    law_painted_pixel(b, size, line((31, 29), (38, 24)), moss(), x, y, k, 0);
    law_painted_pixel(c, size, line((38, 24), (46, 29)), moss(), x, y, k, 0);
    law_painted_pixel(d, size, rect(40, 27, 2, 2), night(), x, y, k, 0);
    law_painted_pixel(e, size, rect(28, 45, 16, 4), gold, x, y, k, 0);
    law_prompt_sign(0, x, y);
    assert(brown@ =~= seq![12u8, 26u8, 16u8, 255u8]);
    assert(dark@ =~= seq![20u8, 40u8, 26u8, 255u8]);
    assert(gold@ =~= seq![211u8, 180u8, 92u8, 255u8]);
    assert(icon_picture() == painted(e, size, rect(28, 45, 16, 4), gold));
}

} // verus!
