//! Software rasterizer: a fixed-size packed-color pixel buffer, the three
//! terrain band colors with their intensity shading, and a triangle fill
//! over subpixel integer coordinates using a sign-based orientation test.
use vstd::prelude::*;

use crate::HEIGHT;
use crate::WIDTH;

verus! {

/// Subpixel units per pixel: triangle vertices carry 8 fractional bits.
pub const SUBPIXEL: i64 = 256;

/// Largest magnitude allowed for a vertex coordinate, in subpixel units;
/// it keeps the edge-function products within 64-bit range.
pub const VERTEX_BOUND: i64 = 0x1000_0000;

/// Base color of the ground band, packed.
pub const GROUND_COLOR: u32 = 0xFF00_FF00;

/// Base color of the shallow-water band, packed.
pub const SHALLOW_COLOR: u32 = 0xFF44_FF44;

/// Base color of the open-water band, packed.
pub const WATER_COLOR: u32 = 0xFFFF_3333;

/// A fixed-size pixel buffer of packed 32-bit colors, row-major with the
/// origin at the top left. Its length is always `WIDTH * HEIGHT`.
pub struct PixelBuffer {
    data: Vec<u32>,
}

impl View for PixelBuffer {
    type V = Seq<u32>;

    closed spec fn view(&self) -> Seq<u32> {
        self.data@
    }
}

impl PixelBuffer {
    /// The buffer holds exactly one cell per pixel.
    pub open spec fn wf(&self) -> bool {
        self@.len() == WIDTH * HEIGHT
    }

    /// A buffer with every pixel zeroed.
    pub fn new() -> (buffer: PixelBuffer)
        ensures
            buffer.wf(),
            forall|i: int| 0 <= i < buffer@.len() ==> buffer@[i] == 0u32,
    {
        let mut data: Vec<u32> = Vec::new();
        while data.len() < WIDTH * HEIGHT
            invariant
                data@.len() <= WIDTH * HEIGHT,
                forall|i: int| 0 <= i < data@.len() ==> data@[i] == 0u32,
            decreases WIDTH * HEIGHT - data@.len(),
        {
            data.push(0);
        }
        PixelBuffer { data }
    }

    /// Writes one pixel.
    pub fn set(&mut self, x: usize, y: usize, color: u32)
        requires
            old(self).wf(),
            x < WIDTH,
            y < HEIGHT,
        ensures
            final(self).wf(),
            final(self)@ == old(self)@.update(y * WIDTH + x, color),
    {
        let idx = y * WIDTH + x;
        self.data.set(idx, color);
    }

    /// Reads one pixel.
    pub fn get(&self, x: usize, y: usize) -> (color: u32)
        requires
            self.wf(),
            x < WIDTH,
            y < HEIGHT,
        ensures
            color == self@[y * WIDTH + x],
    {
        self.data[y * WIDTH + x]
    }
}

/// Brightens a band's base color by the intensity step `m`: the doubled
/// step is shifted up one byte and added, wrapping as 32-bit addition does.
pub fn shade(base: u32, m: u32) -> (color: u32)
    ensures
        color as int == (base + (m as int * 512) % 0x1_0000_0000) % 0x1_0000_0000,
{
    let stepped: u64 = ((m as u64) * 512) % 0x1_0000_0000;
    (((base as u64) + stepped) % 0x1_0000_0000) as u32
}

/// The sign value of point `p` against the directed edge from `a` to `b`:
/// the cross product of `p - b` with `a - b`.
pub open spec fn edge_sign(p: (int, int), a: (int, int), b: (int, int)) -> int {
    (p.0 - b.0) * (a.1 - b.1) - (a.0 - b.0) * (p.1 - b.1)
}

/// The orientation test: `p` counts as inside the triangle `a b c` unless
/// its three edge-sign values strictly mix positive and negative.
pub open spec fn inside_tri(p: (int, int), a: (int, int), b: (int, int), c: (int, int)) -> bool {
    let d1 = edge_sign(p, a, b);
    let d2 = edge_sign(p, b, c);
    let d3 = edge_sign(p, c, a);
    !((d1 < 0 || d2 < 0 || d3 < 0) && (d1 > 0 || d2 > 0 || d3 > 0))
}

/// The subpixel coordinates of an exec vertex, as mathematical integers.
pub open spec fn pt(p: (i64, i64)) -> (int, int) {
    (p.0 as int, p.1 as int)
}

/// A vertex coordinate pair within the range the fill accepts.
pub open spec fn vertex_in_range(p: (i64, i64)) -> bool {
    -VERTEX_BOUND <= p.0 <= VERTEX_BOUND && -VERTEX_BOUND <= p.1 <= VERTEX_BOUND
}

/// Least of three values.
pub open spec fn min3(a: int, b: int, c: int) -> int {
    if a <= b && a <= c {
        a
    } else if b <= c {
        b
    } else {
        c
    }
}

/// Greatest of three values.
pub open spec fn max3(a: int, b: int, c: int) -> int {
    if a >= b && a >= c {
        a
    } else if b >= c {
        b
    } else {
        c
    }
}

/// The pixel row or column of a subpixel coordinate: truncated toward
/// zero and clamped below at zero, as a cast to a screen index would do.
pub open spec fn pixel_floor(v: int) -> int {
    if v <= 0 {
        0
    } else {
        v / (SUBPIXEL as int)
    }
}

/// First column of the triangle's bounding box.
pub open spec fn col_lo(a: (int, int), b: (int, int), c: (int, int)) -> int {
    pixel_floor(min3(a.0, b.0, c.0))
}

/// One past the last column the fill may touch: the bounding box edge,
/// clipped to the buffer width.
pub open spec fn col_hi(a: (int, int), b: (int, int), c: (int, int)) -> int {
    let raw = pixel_floor(max3(a.0, b.0, c.0));
    if raw <= WIDTH {
        raw
    } else {
        WIDTH as int
    }
}

/// First row of the triangle's bounding box.
pub open spec fn row_lo(a: (int, int), b: (int, int), c: (int, int)) -> int {
    pixel_floor(min3(a.1, b.1, c.1))
}

/// One past the last row the fill may touch, clipped to the buffer height.
pub open spec fn row_hi(a: (int, int), b: (int, int), c: (int, int)) -> int {
    let raw = pixel_floor(max3(a.1, b.1, c.1));
    if raw <= HEIGHT {
        raw
    } else {
        HEIGHT as int
    }
}

/// Whether the fill of triangle `a b c` paints the pixel `(x, y)`: the
/// pixel lies in the clipped bounding box and its grid point passes the
/// orientation test at subpixel scale.
pub open spec fn tri_covers(
    a: (int, int),
    b: (int, int),
    c: (int, int),
    x: int,
    y: int,
) -> bool {
    &&& col_lo(a, b, c) <= x < col_hi(a, b, c)
    &&& row_lo(a, b, c) <= y < row_hi(a, b, c)
    &&& inside_tri((x * (SUBPIXEL as int), y * (SUBPIXEL as int)), a, b, c)
}

/// The pixel `(xx, yy)` of `cur` as a fill of triangle `a b c` with `color`
/// over a buffer that started as `pre` leaves it, once the fill has reached
/// `(col, row)` in row-major order: painted where the fill has passed it and
/// the triangle covers it, its old value everywhere else.
pub open spec fn cell_painted(
    pre: Seq<u32>,
    cur: Seq<u32>,
    color: u32,
    a: (int, int),
    b: (int, int),
    c: (int, int),
    row: int,
    col: int,
    xx: int,
    yy: int,
) -> bool {
    cur[yy * WIDTH + xx] == (if tri_covers(a, b, c, xx, yy) && (yy < row || (yy == row && xx < col)) {
        color
    } else {
        pre[yy * WIDTH + xx]
    })
}

/// How far a fill of triangle `a b c` with `color` has progressed over a
/// buffer that started as `pre`: every pixel is as a fill that has reached
/// `(col, row)` leaves it.
pub open spec fn fill_state(
    pre: Seq<u32>,
    cur: Seq<u32>,
    color: u32,
    a: (int, int),
    b: (int, int),
    c: (int, int),
    row: int,
    col: int,
) -> bool {
    forall|xx: int, yy: int| 0 <= xx < WIDTH && 0 <= yy < HEIGHT ==> #[trigger] cell_painted(
        pre,
        cur,
        color,
        a,
        b,
        c,
        row,
        col,
        xx,
        yy,
    )
}

/// An untouched buffer is a fill that has not reached its first pixel.
proof fn lemma_fill_start(pre: Seq<u32>, color: u32, a: (int, int), b: (int, int), c: (int, int))
    ensures
        fill_state(pre, pre, color, a, b, c, row_lo(a, b, c), col_lo(a, b, c)),
{
}

/// One pixel of progress: painting the current pixel when the triangle
/// covers it (and only then) advances the fill by one column.
proof fn lemma_fill_step(
    pre: Seq<u32>,
    cur: Seq<u32>,
    nxt: Seq<u32>,
    color: u32,
    a: (int, int),
    b: (int, int),
    c: (int, int),
    row: int,
    col: int,
)
    requires
        pre.len() == WIDTH * HEIGHT,
        cur.len() == WIDTH * HEIGHT,
        0 <= col < WIDTH,
        0 <= row < HEIGHT,
        col_lo(a, b, c) <= col < col_hi(a, b, c),
        row_lo(a, b, c) <= row < row_hi(a, b, c),
        fill_state(pre, cur, color, a, b, c, row, col),
        if inside_tri((col * (SUBPIXEL as int), row * (SUBPIXEL as int)), a, b, c) {
            nxt == cur.update(row * WIDTH + col, color)
        } else {
            nxt == cur
        },
    ensures
        fill_state(pre, nxt, color, a, b, c, row, col + 1),
{
    assert forall|xx: int, yy: int| 0 <= xx < WIDTH && 0 <= yy < HEIGHT implies #[trigger] cell_painted(
        pre,
        nxt,
        color,
        a,
        b,
        c,
        row,
        col + 1,
        xx,
        yy,
    ) by {
        assert(cell_painted(pre, cur, color, a, b, c, row, col, xx, yy));
        if xx == col && yy == row {
            assert(tri_covers(a, b, c, col, row) <==> inside_tri(
                (col * (SUBPIXEL as int), row * (SUBPIXEL as int)),
                a,
                b,
                c,
            ));
        } else {
            assert(yy * WIDTH + xx != row * WIDTH + col);
            assert(nxt[yy * WIDTH + xx] == cur[yy * WIDTH + xx]);
        }
    }
}

/// Finishing a row advances the fill to the start of the next row.
proof fn lemma_fill_row_done(
    pre: Seq<u32>,
    cur: Seq<u32>,
    color: u32,
    a: (int, int),
    b: (int, int),
    c: (int, int),
    row: int,
    col: int,
)
    requires
        col >= col_hi(a, b, c),
        fill_state(pre, cur, color, a, b, c, row, col),
    ensures
        fill_state(pre, cur, color, a, b, c, row + 1, col_lo(a, b, c)),
{
    assert forall|xx: int, yy: int| 0 <= xx < WIDTH && 0 <= yy < HEIGHT implies #[trigger] cell_painted(
        pre,
        cur,
        color,
        a,
        b,
        c,
        row + 1,
        col_lo(a, b, c),
        xx,
        yy,
    ) by {
        assert(cell_painted(pre, cur, color, a, b, c, row, col, xx, yy));
    }
}

/// A fill past its last row has painted exactly the pixels the triangle
/// covers.
proof fn lemma_fill_done(
    pre: Seq<u32>,
    cur: Seq<u32>,
    color: u32,
    a: (int, int),
    b: (int, int),
    c: (int, int),
    row: int,
    col: int,
)
    requires
        row >= row_hi(a, b, c),
        fill_state(pre, cur, color, a, b, c, row, col),
    ensures
        forall|xx: int, yy: int| 0 <= xx < WIDTH && 0 <= yy < HEIGHT ==> cur[yy * WIDTH + xx] == (
        if #[trigger] tri_covers(a, b, c, xx, yy) {
            color
        } else {
            pre[yy * WIDTH + xx]
        }),
{
    assert forall|xx: int, yy: int| 0 <= xx < WIDTH && 0 <= yy < HEIGHT implies cur[yy * WIDTH + xx]
        == (if #[trigger] tri_covers(a, b, c, xx, yy) {
        color
    } else {
        pre[yy * WIDTH + xx]
    }) by {
        assert(cell_painted(pre, cur, color, a, b, c, row, col, xx, yy));
    }
}

/// Bounds the product of two bounded factors.
proof fn lemma_mul_bound(a: int, b: int, m: int)
    by (nonlinear_arith)
    requires
        0 <= m,
        -m <= a <= m,
        -m <= b <= m,
    ensures
        -(m * m) <= a * b <= m * m,
{
}

/// Greatest of three subpixel coordinates.
fn max3_exec(a: i64, b: i64, c: i64) -> (m: i64)
    ensures
        m as int == max3(a as int, b as int, c as int),
{
    if a >= b && a >= c {
        a
    } else if b >= c {
        b
    } else {
        c
    }
}

/// Least of three subpixel coordinates.
fn min3_exec(a: i64, b: i64, c: i64) -> (m: i64)
    ensures
        m as int == min3(a as int, b as int, c as int),
{
    if a <= b && a <= c {
        a
    } else if b <= c {
        b
    } else {
        c
    }
}

/// Pixel index of a subpixel coordinate, clamped below at zero.
fn pixel_floor_exec(v: i64) -> (r: usize)
    requires
        v <= VERTEX_BOUND,
    ensures
        r as int == pixel_floor(v as int),
{
    if v <= 0 {
        0
    } else {
        ((v as u64) / (SUBPIXEL as u64)) as usize
    }
}

/// The edge-sign value at a point, over subpixel coordinates.
fn edge(px: i64, py: i64, ax: i64, ay: i64, bx: i64, by: i64) -> (d: i64)
    requires
        -0x2000_0000 <= px <= 0x2000_0000,
        -0x2000_0000 <= py <= 0x2000_0000,
        -0x2000_0000 <= ax <= 0x2000_0000,
        -0x2000_0000 <= ay <= 0x2000_0000,
        -0x2000_0000 <= bx <= 0x2000_0000,
        -0x2000_0000 <= by <= 0x2000_0000,
    ensures
        d as int == edge_sign((px as int, py as int), (ax as int, ay as int), (bx as int, by as int)),
{
    let ux = px - bx;
    let uy = ay - by;
    let vx = ax - bx;
    let vy = py - by;
    proof {
        lemma_mul_bound(ux as int, uy as int, 0x4000_0000);
        lemma_mul_bound(vx as int, vy as int, 0x4000_0000);
    }
    ux * uy - vx * vy
}

/// Fills the triangle `p1 p2 p3`, given in subpixel units, with one color:
/// every pixel the triangle covers is painted and every other pixel keeps
/// its old value. Iteration stays within the triangle's bounding box,
/// clipped to the buffer, so nothing outside that box is ever written.
#[verifier::loop_isolation(false)]
pub fn draw_tri(
    color: u32,
    buffer: &mut PixelBuffer,
    p1: (i64, i64),
    p2: (i64, i64),
    p3: (i64, i64),
)
    requires
        old(buffer).wf(),
        vertex_in_range(p1),
        vertex_in_range(p2),
        vertex_in_range(p3),
    ensures
        final(buffer).wf(),
        forall|x: int, y: int| 0 <= x < WIDTH && 0 <= y < HEIGHT ==> final(buffer)@[y * WIDTH + x]
            == (if #[trigger] tri_covers(pt(p1), pt(p2), pt(p3), x, y) {
                color
            } else {
                old(buffer)@[y * WIDTH + x]
            }),
{
    let ghost a = pt(p1);
    let ghost b = pt(p2);
    let ghost c = pt(p3);
    let lo_x = pixel_floor_exec(min3_exec(p1.0, p2.0, p3.0));
    let hi_x_raw = pixel_floor_exec(max3_exec(p1.0, p2.0, p3.0));
    let hi_x = if hi_x_raw <= WIDTH { hi_x_raw } else { WIDTH };
    let lo_y = pixel_floor_exec(min3_exec(p1.1, p2.1, p3.1));
    let hi_y_raw = pixel_floor_exec(max3_exec(p1.1, p2.1, p3.1));
    let hi_y = if hi_y_raw <= HEIGHT { hi_y_raw } else { HEIGHT };
    proof {
        lemma_fill_start(old(buffer)@, color, a, b, c);
    }

    let mut y = lo_y;
    while y < hi_y
        invariant
            lo_y <= y,
            buffer.wf(),
            fill_state(old(buffer)@, buffer@, color, a, b, c, y as int, col_lo(a, b, c)),
        decreases hi_y - y,
    {
        let mut x = lo_x;
        while x < hi_x
            invariant
                lo_x <= x,
                y < hi_y,
                buffer.wf(),
                fill_state(old(buffer)@, buffer@, color, a, b, c, y as int, x as int),
            decreases hi_x - x,
        {
            let px = (x as i64) * SUBPIXEL;
            let py = (y as i64) * SUBPIXEL;
            let d1 = edge(px, py, p1.0, p1.1, p2.0, p2.1);
            let d2 = edge(px, py, p2.0, p2.1, p3.0, p3.1);
            let d3 = edge(px, py, p3.0, p3.1, p1.0, p1.1);
            let neg = d1 < 0 || d2 < 0 || d3 < 0;
            let pos = d1 > 0 || d2 > 0 || d3 > 0;
            let ghost prev = buffer@;
            if !(neg && pos) {
                buffer.set(x, y, color);
            }
            proof {
                assert(inside_tri(
                    ((x as int) * (SUBPIXEL as int), (y as int) * (SUBPIXEL as int)),
                    a,
                    b,
                    c,
                ) == !(neg && pos));
                lemma_fill_step(
                    old(buffer)@,
                    prev,
                    buffer@,
                    color,
                    a,
                    b,
                    c,
                    y as int,
                    x as int,
                );
            }
            x = x + 1;
        }
        proof {
            lemma_fill_row_done(old(buffer)@, buffer@, color, a, b, c, y as int, x as int);
        }
        y = y + 1;
    }
    proof {
        lemma_fill_done(old(buffer)@, buffer@, color, a, b, c, y as int, col_lo(a, b, c));
    }
}

/// Multiplying by `k` distributes over a difference.
proof fn lemma_mul_distrib_sub(k: int, u: int, v: int)
    by (nonlinear_arith)
    ensures
        k * u - k * v == k * (u - v),
{
}

/// The product of two `k`-scaled factors is the `k * k`-scaled product.
proof fn lemma_mul_scaled(k: int, u: int, v: int)
    by (nonlinear_arith)
    ensures
        (k * u) * (k * v) == k * k * (u * v),
{
}

/// Scaling every coordinate by `k` scales an edge-sign value by `k * k`.
proof fn lemma_edge_sign_scaled(
    k: int,
    px: int,
    py: int,
    ax: int,
    ay: int,
    bx: int,
    by: int,
)
    ensures
        (k * px - k * bx) * (k * ay - k * by) - (k * ax - k * bx) * (k * py - k * by) == k * k * ((
        px - bx) * (ay - by) - (ax - bx) * (py - by)),
{
    lemma_mul_distrib_sub(k, px, bx);
    lemma_mul_distrib_sub(k, ay, by);
    lemma_mul_distrib_sub(k, ax, bx);
    lemma_mul_distrib_sub(k, py, by);
    lemma_mul_scaled(k, px - bx, ay - by);
    lemma_mul_scaled(k, ax - bx, py - by);
    lemma_mul_distrib_sub(k * k, (px - bx) * (ay - by), (ax - bx) * (py - by));
}

/// A positive factor keeps the sign of what it multiplies.
proof fn lemma_sign_kept(kk: int, d: int)
    by (nonlinear_arith)
    requires
        kk > 0,
    ensures
        (kk * d < 0 <==> d < 0),
        (kk * d > 0 <==> d > 0),
{
}

/// Law: the orientation test is invariant under scaling the point and the
/// triangle by one nonzero factor, so a statement about a scaled triangle
/// speaks for the triangle itself.
pub proof fn lemma_inside_tri_scale_invariant(
    k: int,
    p: (int, int),
    a: (int, int),
    b: (int, int),
    c: (int, int),
)
    requires
        k != 0,
    ensures
        inside_tri(
            (k * p.0, k * p.1),
            (k * a.0, k * a.1),
            (k * b.0, k * b.1),
            (k * c.0, k * c.1),
        ) == inside_tri(p, a, b, c),
{
    assert(k * k > 0) by (nonlinear_arith)
        requires
            k != 0,
    ;
    lemma_edge_sign_scaled(k, p.0, p.1, a.0, a.1, b.0, b.1);
    lemma_edge_sign_scaled(k, p.0, p.1, b.0, b.1, c.0, c.1);
    lemma_edge_sign_scaled(k, p.0, p.1, c.0, c.1, a.0, a.1);
    lemma_sign_kept(k * k, edge_sign(p, a, b));
    lemma_sign_kept(k * k, edge_sign(p, b, c));
    lemma_sign_kept(k * k, edge_sign(p, c, a));
}

/// The three edge-sign values of the centroid of a tripled triangle each
/// equal three times the triangle's own orientation value.
proof fn lemma_centroid_edges(x1: int, y1: int, x2: int, y2: int, x3: int, y3: int)
    by (nonlinear_arith)
    ensures
        ((x1 + x2 + x3) - 3 * x2) * (3 * y1 - 3 * y2) - (3 * x1 - 3 * x2) * ((y1 + y2 + y3) - 3
            * y2) == 3 * ((x1 - x3) * (y2 - y3) - (x2 - x3) * (y1 - y3)),
        ((x1 + x2 + x3) - 3 * x3) * (3 * y2 - 3 * y3) - (3 * x2 - 3 * x3) * ((y1 + y2 + y3) - 3
            * y3) == 3 * ((x1 - x3) * (y2 - y3) - (x2 - x3) * (y1 - y3)),
        ((x1 + x2 + x3) - 3 * x1) * (3 * y3 - 3 * y1) - (3 * x3 - 3 * x1) * ((y1 + y2 + y3) - 3
            * y1) == 3 * ((x1 - x3) * (y2 - y3) - (x2 - x3) * (y1 - y3)),
{
}

/// Law: the centroid of a non-degenerate triangle always passes the
/// orientation test. Stated at triple scale so that the centroid of the
/// tripled triangle is the exact integer point `p1 + p2 + p3`.
pub proof fn lemma_centroid_inside(p1: (int, int), p2: (int, int), p3: (int, int))
    requires
        edge_sign(p1, p2, p3) != 0,
    ensures
        inside_tri(
            (p1.0 + p2.0 + p3.0, p1.1 + p2.1 + p3.1),
            (3 * p1.0, 3 * p1.1),
            (3 * p2.0, 3 * p2.1),
            (3 * p3.0, 3 * p3.1),
        ),
{
    lemma_centroid_edges(p1.0, p1.1, p2.0, p2.1, p3.0, p3.1);
}

} // verus!
