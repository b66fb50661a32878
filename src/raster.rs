use vstd::prelude::*;

use crate::command::{Command, CommandType, Drawable};
use crate::types::{BlendFactor, Color, CompositeOperationState, FillRule, Vertex};

verus! {

/// Twice the signed area of the triangle `a b p`: positive when `p` lies to
/// one side of the line from `a` to `b`, negative on the other, zero on it.
pub open spec fn edge(ax: int, ay: int, bx: int, by: int, px: int, py: int) -> int {
    (bx - ax) * (py - ay) - (by - ay) * (px - ax)
}

/// The three edge values of the triangle starting at `verts[first]` at the
/// center of pixel `(px, py)`, in doubled coordinates so that all are integers.
pub open spec fn edges_at(verts: Seq<Vertex>, first: int, px: int, py: int) -> (int, int, int) {
    let a = verts[first];
    let b = verts[first + 1];
    let c = verts[first + 2];
    let cx = 2 * px + 1;
    let cy = 2 * py + 1;
    (
        edge(2 * a.x, 2 * a.y, 2 * b.x, 2 * b.y, cx, cy),
        edge(2 * b.x, 2 * b.y, 2 * c.x, 2 * c.y, cx, cy),
        edge(2 * c.x, 2 * c.y, 2 * a.x, 2 * a.y, cx, cy),
    )
}

/// Twice the signed area of the triangle at `verts[first]`: its orientation.
pub open spec fn orientation(verts: Seq<Vertex>, first: int) -> int {
    let a = verts[first];
    let b = verts[first + 1];
    let c = verts[first + 2];
    edge(a.x as int, a.y as int, b.x as int, b.y as int, c.x as int, c.y as int)
}

/// A point with edge value `e` against an edge of direction `(dx, dy)` of a
/// triangle of positive (`pos`) or negative orientation is on the inner side,
/// or on the edge itself where that edge is a top or left edge. Two triangles
/// that share an edge in opposite directions thus never both take a point of it.
pub open spec fn edge_in(e: int, dx: int, dy: int, pos: bool) -> bool {
    if pos {
        e > 0 || (e == 0 && (dy > 0 || (dy == 0 && dx < 0)))
    } else {
        e < 0 || (e == 0 && (dy < 0 || (dy == 0 && dx > 0)))
    }
}

/// The triangle at `verts[first]` has nonzero area and covers the center of
/// pixel `(px, py)`.
pub open spec fn tri_covers(verts: Seq<Vertex>, first: int, px: int, py: int) -> bool {
    let a = verts[first];
    let b = verts[first + 1];
    let c = verts[first + 2];
    let e = edges_at(verts, first, px, py);
    let o = orientation(verts, first);
    let pos = o > 0;
    &&& o != 0
    &&& edge_in(e.0, b.x - a.x, b.y - a.y, pos)
    &&& edge_in(e.1, c.x - b.x, c.y - b.y, pos)
    &&& edge_in(e.2, a.x - c.x, a.y - c.y, pos)
}

/// What one triangle adds to the stencil at a pixel: under the nonzero rule
/// +1 or -1 by the triangle's orientation, under even-odd 1, where it covers.
pub open spec fn tri_contrib(verts: Seq<Vertex>, first: int, px: int, py: int, rule: FillRule) -> int {
    if !tri_covers(verts, first, px, py) {
        0
    } else if rule == FillRule::NonZero && orientation(verts, first) < 0 {
        -1
    } else {
        1
    }
}

/// Sum of the contributions of the first `ntri` triangles of the list at `start`.
pub open spec fn range_sum(verts: Seq<Vertex>, start: int, ntri: nat, px: int, py: int, rule: FillRule) -> int
    decreases ntri,
{
    if ntri == 0 {
        0
    } else {
        range_sum(verts, start, (ntri - 1) as nat, px, py, rule) + tri_contrib(
            verts,
            start + 3 * (ntri - 1),
            px,
            py,
            rule,
        )
    }
}

pub open spec fn opt_range_sum(verts: Seq<Vertex>, r: Option<(usize, usize)>, px: int, py: int, rule: FillRule) -> int {
    match r {
        Some((start, count)) => range_sum(verts, start as int, (count / 3) as nat, px, py, rule),
        None => 0,
    }
}

/// Winding number (nonzero rule) or coverage count (even-odd rule) of the fill
/// triangles of the first `n` drawables.
pub open spec fn fill_sum(verts: Seq<Vertex>, ds: Seq<Drawable>, n: nat, px: int, py: int, rule: FillRule) -> int
    decreases n,
{
    if n == 0 {
        0
    } else {
        fill_sum(verts, ds, (n - 1) as nat, px, py, rule) + opt_range_sum(verts, ds[n - 1].fill_verts, px, py, rule)
    }
}

/// Number of stroke triangles of the first `n` drawables that cover the pixel.
pub open spec fn stroke_count(verts: Seq<Vertex>, ds: Seq<Drawable>, n: nat, px: int, py: int) -> int
    decreases n,
{
    if n == 0 {
        0
    } else {
        stroke_count(verts, ds, (n - 1) as nat, px, py) + opt_range_sum(
            verts,
            ds[n - 1].stroke_verts,
            px,
            py,
            FillRule::EvenOdd,
        )
    }
}

/// Whether an 8-bit stencil holding `sum` (wrapped modulo 256) reads as inside.
pub open spec fn stencil_inside(rule: FillRule, sum: int) -> bool {
    match rule {
        FillRule::NonZero => sum % 256 != 0,
        FillRule::EvenOdd => sum % 2 != 0,
    }
}

/// Weight in `0..=255` that a blend factor gives to one color channel.
pub open spec fn factor(f: BlendFactor, sc: int, dc: int, sa: int, da: int, alpha: bool) -> int {
    match f {
        BlendFactor::Zero => 0,
        BlendFactor::One => 255,
        BlendFactor::SrcColor => sc,
        BlendFactor::OneMinusSrcColor => 255 - sc,
        BlendFactor::DstColor => dc,
        BlendFactor::OneMinusDstColor => 255 - dc,
        BlendFactor::SrcAlpha => sa,
        BlendFactor::OneMinusSrcAlpha => 255 - sa,
        BlendFactor::DstAlpha => da,
        BlendFactor::OneMinusDstAlpha => 255 - da,
        BlendFactor::SrcAlphaSaturate => if alpha {
            255
        } else if sa < 255 - da {
            sa
        } else {
            255 - da
        },
    }
}

/// `(s * sf + d * df) / 255`, saturated at 255.
pub open spec fn blend_channel(s: int, d: int, sf: int, df: int) -> u8 {
    let v = (s * sf + d * df) / 255;
    if v > 255 {
        255
    } else {
        v as u8
    }
}

/// The color that drawing `src` over `dst` with blend state `op` leaves.
pub open spec fn blend(src: Color, dst: Color, op: CompositeOperationState) -> Color {
    let sa = src.a as int;
    let da = dst.a as int;
    Color {
        r: blend_channel(src.r as int, dst.r as int, factor(op.src_rgb, src.r as int, dst.r as int, sa, da, false), factor(op.dst_rgb, src.r as int, dst.r as int, sa, da, false)),
        g: blend_channel(src.g as int, dst.g as int, factor(op.src_rgb, src.g as int, dst.g as int, sa, da, false), factor(op.dst_rgb, src.g as int, dst.g as int, sa, da, false)),
        b: blend_channel(src.b as int, dst.b as int, factor(op.src_rgb, src.b as int, dst.b as int, sa, da, false), factor(op.dst_rgb, src.b as int, dst.b as int, sa, da, false)),
        a: blend_channel(sa, da, factor(op.src_alpha, sa, da, sa, da, true), factor(op.dst_alpha, sa, da, sa, da, true)),
    }
}

/// The pixel after the first `ntri` triangles of the list at `start` were
/// each drawn with `paint`, in order.
pub open spec fn range_paint(
    verts: Seq<Vertex>,
    start: int,
    ntri: nat,
    px: int,
    py: int,
    dst: Color,
    paint: Color,
    op: CompositeOperationState,
) -> Color
    decreases ntri,
{
    if ntri == 0 {
        dst
    } else {
        let prev = range_paint(verts, start, (ntri - 1) as nat, px, py, dst, paint, op);
        if tri_covers(verts, start + 3 * (ntri - 1), px, py) {
            blend(paint, prev, op)
        } else {
            prev
        }
    }
}

pub open spec fn opt_range_paint(
    verts: Seq<Vertex>,
    r: Option<(usize, usize)>,
    px: int,
    py: int,
    dst: Color,
    paint: Color,
    op: CompositeOperationState,
) -> Color {
    match r {
        Some((start, count)) => range_paint(verts, start as int, (count / 3) as nat, px, py, dst, paint, op),
        None => dst,
    }
}

/// The pixel after the fill triangles of the first `n` drawables were drawn.
pub open spec fn fill_paint(
    verts: Seq<Vertex>,
    ds: Seq<Drawable>,
    n: nat,
    px: int,
    py: int,
    dst: Color,
    paint: Color,
    op: CompositeOperationState,
) -> Color
    decreases n,
{
    if n == 0 {
        dst
    } else {
        opt_range_paint(verts, ds[n - 1].fill_verts, px, py, fill_paint(verts, ds, (n - 1) as nat, px, py, dst, paint, op), paint, op)
    }
}

/// The pixel after the stroke triangles of the first `n` drawables were drawn.
pub open spec fn stroke_paint(
    verts: Seq<Vertex>,
    ds: Seq<Drawable>,
    n: nat,
    px: int,
    py: int,
    dst: Color,
    paint: Color,
    op: CompositeOperationState,
) -> Color
    decreases n,
{
    if n == 0 {
        dst
    } else {
        opt_range_paint(verts, ds[n - 1].stroke_verts, px, py, stroke_paint(verts, ds, (n - 1) as nat, px, py, dst, paint, op), paint, op)
    }
}

fn edge_exec(ax: i128, ay: i128, bx: i128, by: i128, px: i128, py: i128) -> (r: i128)
    requires
        -0x4_0000_0000 <= ax <= 0x4_0000_0000,
        -0x4_0000_0000 <= ay <= 0x4_0000_0000,
        -0x4_0000_0000 <= bx <= 0x4_0000_0000,
        -0x4_0000_0000 <= by <= 0x4_0000_0000,
        -0x4_0000_0000 <= px <= 0x4_0000_0000,
        -0x4_0000_0000 <= py <= 0x4_0000_0000,
    ensures
        r == edge(ax as int, ay as int, bx as int, by as int, px as int, py as int),
{
    let dx1 = bx - ax;
    let dy1 = py - ay;
    let dy2 = by - ay;
    let dx2 = px - ax;
    assert(-0x40_0000_0000_0000_0000 <= dx1 * dy1 <= 0x40_0000_0000_0000_0000) by (nonlinear_arith)
        requires
            -0x8_0000_0000 <= dx1 <= 0x8_0000_0000,
            -0x8_0000_0000 <= dy1 <= 0x8_0000_0000,
    ;
    assert(-0x40_0000_0000_0000_0000 <= dy2 * dx2 <= 0x40_0000_0000_0000_0000) by (nonlinear_arith)
        requires
            -0x8_0000_0000 <= dy2 <= 0x8_0000_0000,
            -0x8_0000_0000 <= dx2 <= 0x8_0000_0000,
    ;
    dx1 * dy1 - dy2 * dx2
}

/// Edge values of the triangle at `verts[first]` at the center of `(px, py)`.
fn edges_exec(verts: &[Vertex], first: usize, px: u32, py: u32) -> (r: (i128, i128, i128))
    requires
        first + 3 <= verts@.len(),
    ensures
        r.0 as int == edges_at(verts@, first as int, px as int, py as int).0,
        r.1 as int == edges_at(verts@, first as int, px as int, py as int).1,
        r.2 as int == edges_at(verts@, first as int, px as int, py as int).2,
{
    let a = verts[first];
    let b = verts[first + 1];
    let c = verts[first + 2];
    let cx = 2 * (px as i128) + 1;
    let cy = 2 * (py as i128) + 1;
    let (ax, ay) = (2 * (a.x as i128), 2 * (a.y as i128));
    let (bx, by) = (2 * (b.x as i128), 2 * (b.y as i128));
    let (qx, qy) = (2 * (c.x as i128), 2 * (c.y as i128));
    (edge_exec(ax, ay, bx, by, cx, cy), edge_exec(bx, by, qx, qy, cx, cy), edge_exec(qx, qy, ax, ay, cx, cy))
}

fn edge_in_exec(e: i128, dx: i64, dy: i64, pos: bool) -> (r: bool)
    ensures
        r == edge_in(e as int, dx as int, dy as int, pos),
{
    if pos {
        e > 0 || (e == 0 && (dy > 0 || (dy == 0 && dx < 0)))
    } else {
        e < 0 || (e == 0 && (dy < 0 || (dy == 0 && dx > 0)))
    }
}

/// Whether the triangle at `verts[first]` covers the center of `(px, py)`,
/// and whether its orientation is positive.
fn tri_test(verts: &[Vertex], first: usize, px: u32, py: u32) -> (r: (bool, bool))
    requires
        first + 3 <= verts@.len(),
    ensures
        r.0 == tri_covers(verts@, first as int, px as int, py as int),
        r.1 == (orientation(verts@, first as int) > 0),
{
    let e = edges_exec(verts, first, px, py);
    let a = verts[first];
    let b = verts[first + 1];
    let c = verts[first + 2];
    let o = edge_exec(a.x as i128, a.y as i128, b.x as i128, b.y as i128, c.x as i128, c.y as i128);
    let pos = o > 0;
    let covers = o != 0 && edge_in_exec(e.0, b.x as i64 - a.x as i64, b.y as i64 - a.y as i64, pos)
        && edge_in_exec(e.1, c.x as i64 - b.x as i64, c.y as i64 - b.y as i64, pos) && edge_in_exec(
        e.2,
        a.x as i64 - c.x as i64,
        a.y as i64 - c.y as i64,
        pos,
    );
    (covers, pos)
}

fn factor_exec(f: BlendFactor, sc: u8, dc: u8, sa: u8, da: u8, alpha: bool) -> (r: u32)
    ensures
        r == factor(f, sc as int, dc as int, sa as int, da as int, alpha),
        r <= 255,
{
    match f {
        BlendFactor::Zero => 0,
        BlendFactor::One => 255,
        BlendFactor::SrcColor => sc as u32,
        BlendFactor::OneMinusSrcColor => 255 - sc as u32,
        BlendFactor::DstColor => dc as u32,
        BlendFactor::OneMinusDstColor => 255 - dc as u32,
        BlendFactor::SrcAlpha => sa as u32,
        BlendFactor::OneMinusSrcAlpha => 255 - sa as u32,
        BlendFactor::DstAlpha => da as u32,
        BlendFactor::OneMinusDstAlpha => 255 - da as u32,
        BlendFactor::SrcAlphaSaturate => {
            if alpha {
                255
            } else if (sa as u32) < 255 - da as u32 {
                sa as u32
            } else {
                255 - da as u32
            }
        },
    }
}

fn blend_channel_exec(s: u8, d: u8, sf: u32, df: u32) -> (r: u8)
    requires
        sf <= 255,
        df <= 255,
    ensures
        r == blend_channel(s as int, d as int, sf as int, df as int),
{
    assert(s as u32 * sf <= 255 * 255 && d as u32 * df <= 255 * 255) by (nonlinear_arith)
        requires
            s <= 255,
            d <= 255,
            sf <= 255,
            df <= 255,
    ;
    let v = (s as u32 * sf + d as u32 * df) / 255;
    if v > 255 {
        255
    } else {
        v as u8
    }
}

/// Draws `src` over `dst` with blend state `op`.
pub fn blend_colors(src: Color, dst: Color, op: CompositeOperationState) -> (r: Color)
    ensures
        r == blend(src, dst, op),
{
    let (sa, da) = (src.a, dst.a);
    let r = blend_channel_exec(src.r, dst.r, factor_exec(op.src_rgb, src.r, dst.r, sa, da, false), factor_exec(op.dst_rgb, src.r, dst.r, sa, da, false));
    let g = blend_channel_exec(src.g, dst.g, factor_exec(op.src_rgb, src.g, dst.g, sa, da, false), factor_exec(op.dst_rgb, src.g, dst.g, sa, da, false));
    let b = blend_channel_exec(src.b, dst.b, factor_exec(op.src_rgb, src.b, dst.b, sa, da, false), factor_exec(op.dst_rgb, src.b, dst.b, sa, da, false));
    let a = blend_channel_exec(sa, da, factor_exec(op.src_alpha, sa, da, sa, da, true), factor_exec(op.dst_alpha, sa, da, sa, da, true));
    Color { r, g, b, a }
}

/// The range lies inside a vertex buffer of `len` vertices.
pub open spec fn range_ok(len: int, r: Option<(usize, usize)>) -> bool {
    match r {
        Some((start, count)) => start + count <= len,
        None => true,
    }
}

pub(crate) fn paint_range(
    verts: &[Vertex],
    r: Option<(usize, usize)>,
    px: u32,
    py: u32,
    dst: Color,
    paint: Color,
    op: CompositeOperationState,
) -> (c: Color)
    requires
        range_ok(verts@.len() as int, r),
    ensures
        c == opt_range_paint(verts@, r, px as int, py as int, dst, paint, op),
{
    match r {
        None => dst,
        Some((start, count)) => {
            let ntri = count / 3;
            let vlen = verts.len();
            let mut cur = dst;
            let mut k: usize = 0;
            while k < ntri
                invariant
                    0 <= k <= ntri,
                    ntri == count / 3,
                    start + count <= verts@.len(),
                    vlen == verts@.len(),
                    cur == range_paint(verts@, start as int, k as nat, px as int, py as int, dst, paint, op),
                decreases ntri - k,
            {
                assert(3 * k + 3 <= count);
                let first = start + 3 * k;
                if tri_test(verts, first, px, py).0 {
                    cur = blend_colors(paint, cur, op);
                }
                k = k + 1;
            }
            cur
        },
    }
}

fn sum_range(verts: &[Vertex], r: Option<(usize, usize)>, px: u32, py: u32, rule: FillRule, acc: u8) -> (s: u8)
    requires
        range_ok(verts@.len() as int, r),
    ensures
        s as int == (acc as int + opt_range_sum(verts@, r, px as int, py as int, rule)) % 256,
{
    match r {
        None => acc,
        Some((start, count)) => {
            let ntri = count / 3;
            let vlen = verts.len();
            let mut cur = acc;
            let mut k: usize = 0;
            while k < ntri
                invariant
                    0 <= k <= ntri,
                    ntri == count / 3,
                    start + count <= verts@.len(),
                    vlen == verts@.len(),
                    cur as int == (acc as int + range_sum(verts@, start as int, k as nat, px as int, py as int, rule)) % 256,
                decreases ntri - k,
            {
                assert(3 * k + 3 <= count);
                let first = start + 3 * k;
                let (inside, pos) = tri_test(verts, first, px, py);
                if inside {
                    if rule == FillRule::NonZero && !pos {
                        cur = ((cur as u16 + 255) % 256) as u8;
                    } else {
                        cur = ((cur as u16 + 1) % 256) as u8;
                    }
                }
                k = k + 1;
            }
            cur
        },
    }
}

pub(crate) fn paint_fills(
    verts: &[Vertex],
    ds: &Vec<Drawable>,
    stroke: bool,
    px: u32,
    py: u32,
    dst: Color,
    paint: Color,
    op: CompositeOperationState,
) -> (c: Color)
    requires
        forall|j: int| 0 <= j < ds@.len() ==> range_ok(verts@.len() as int, #[trigger] ds@[j].fill_verts) && range_ok(verts@.len() as int, ds@[j].stroke_verts),
    ensures
        !stroke ==> c == fill_paint(verts@, ds@, ds@.len(), px as int, py as int, dst, paint, op),
        stroke ==> c == stroke_paint(verts@, ds@, ds@.len(), px as int, py as int, dst, paint, op),
{
    let mut cur = dst;
    let mut d: usize = 0;
    while d < ds.len()
        invariant
            0 <= d <= ds@.len(),
            forall|j: int| 0 <= j < ds@.len() ==> range_ok(verts@.len() as int, #[trigger] ds@[j].fill_verts) && range_ok(verts@.len() as int, ds@[j].stroke_verts),
            !stroke ==> cur == fill_paint(verts@, ds@, d as nat, px as int, py as int, dst, paint, op),
            stroke ==> cur == stroke_paint(verts@, ds@, d as nat, px as int, py as int, dst, paint, op),
        decreases ds@.len() - d,
    {
        assert(range_ok(verts@.len() as int, ds@[d as int].fill_verts));
        let r = if stroke {
            ds[d].stroke_verts
        } else {
            ds[d].fill_verts
        };
        cur = paint_range(verts, r, px, py, cur, paint, op);
        d = d + 1;
    }
    cur
}

pub(crate) fn sum_fills(verts: &[Vertex], ds: &Vec<Drawable>, stroke: bool, px: u32, py: u32, rule: FillRule) -> (s: u8)
    requires
        forall|j: int| 0 <= j < ds@.len() ==> range_ok(verts@.len() as int, #[trigger] ds@[j].fill_verts) && range_ok(verts@.len() as int, ds@[j].stroke_verts),
    ensures
        !stroke ==> s as int == fill_sum(verts@, ds@, ds@.len(), px as int, py as int, rule) % 256,
        stroke ==> s as int == stroke_count(verts@, ds@, ds@.len(), px as int, py as int) % 256,
{
    let mut cur: u8 = 0;
    let mut d: usize = 0;
    while d < ds.len()
        invariant
            0 <= d <= ds@.len(),
            forall|j: int| 0 <= j < ds@.len() ==> range_ok(verts@.len() as int, #[trigger] ds@[j].fill_verts) && range_ok(verts@.len() as int, ds@[j].stroke_verts),
            !stroke ==> cur as int == fill_sum(verts@, ds@, d as nat, px as int, py as int, rule) % 256,
            stroke ==> cur as int == stroke_count(verts@, ds@, d as nat, px as int, py as int) % 256,
        decreases ds@.len() - d,
    {
        if stroke {
            let ghost before = stroke_count(verts@, ds@, d as nat, px as int, py as int);
            cur = sum_range(verts, ds[d].stroke_verts, px, py, FillRule::EvenOdd, cur);
            proof {
                lemma_mod_sum(before, opt_range_sum(verts@, ds@[d as int].stroke_verts, px as int, py as int, FillRule::EvenOdd));
            }
        } else {
            let ghost before = fill_sum(verts@, ds@, d as nat, px as int, py as int, rule);
            cur = sum_range(verts, ds[d].fill_verts, px, py, rule, cur);
            proof {
                lemma_mod_sum(before, opt_range_sum(verts@, ds@[d as int].fill_verts, px as int, py as int, rule));
            }
        }
        d = d + 1;
    }
    cur
}

/// The coverage count of a triangle list is nonnegative, and its winding
/// number is no larger in size and has the same parity.
pub proof fn lemma_range_sums(verts: Seq<Vertex>, start: int, ntri: nat, px: int, py: int)
    ensures
        0 <= range_sum(verts, start, ntri, px, py, FillRule::EvenOdd),
        -range_sum(verts, start, ntri, px, py, FillRule::EvenOdd) <= range_sum(verts, start, ntri, px, py, FillRule::NonZero)
            <= range_sum(verts, start, ntri, px, py, FillRule::EvenOdd),
        (range_sum(verts, start, ntri, px, py, FillRule::EvenOdd) + range_sum(verts, start, ntri, px, py, FillRule::NonZero)) % 2 == 0,
    decreases ntri,
{
    if ntri > 0 {
        lemma_range_sums(verts, start, (ntri - 1) as nat, px, py);
    }
}

/// A triangle list that covers a pixel at most once paints it at most once.
pub proof fn lemma_range_paint_once(
    verts: Seq<Vertex>,
    start: int,
    ntri: nat,
    px: int,
    py: int,
    dst: Color,
    paint: Color,
    op: CompositeOperationState,
)
    requires
        range_sum(verts, start, ntri, px, py, FillRule::EvenOdd) <= 1,
    ensures
        range_paint(verts, start, ntri, px, py, dst, paint, op) == (if range_sum(verts, start, ntri, px, py, FillRule::EvenOdd) == 1 {
            blend(paint, dst, op)
        } else {
            dst
        }),
    decreases ntri,
{
    if ntri > 0 {
        lemma_range_sums(verts, start, (ntri - 1) as nat, px, py);
        lemma_range_paint_once(verts, start, (ntri - 1) as nat, px, py, dst, paint, op);
    }
}

/// The fill coverage count of drawables is nonnegative, and their winding
/// number is no larger in size and has the same parity.
pub proof fn lemma_fill_sums(verts: Seq<Vertex>, ds: Seq<Drawable>, n: nat, px: int, py: int)
    ensures
        0 <= fill_sum(verts, ds, n, px, py, FillRule::EvenOdd),
        -fill_sum(verts, ds, n, px, py, FillRule::EvenOdd) <= fill_sum(verts, ds, n, px, py, FillRule::NonZero)
            <= fill_sum(verts, ds, n, px, py, FillRule::EvenOdd),
        (fill_sum(verts, ds, n, px, py, FillRule::EvenOdd) + fill_sum(verts, ds, n, px, py, FillRule::NonZero)) % 2 == 0,
    decreases n,
{
    if n > 0 {
        lemma_fill_sums(verts, ds, (n - 1) as nat, px, py);
        if let Some((start, count)) = ds[n - 1].fill_verts {
            lemma_range_sums(verts, start as int, (count / 3) as nat, px, py);
        }
    }
}

/// Fill triangles that cover a pixel at most once paint it at most once.
pub proof fn lemma_fill_paint_once(
    verts: Seq<Vertex>,
    ds: Seq<Drawable>,
    n: nat,
    px: int,
    py: int,
    dst: Color,
    paint: Color,
    op: CompositeOperationState,
)
    requires
        fill_sum(verts, ds, n, px, py, FillRule::EvenOdd) <= 1,
    ensures
        fill_paint(verts, ds, n, px, py, dst, paint, op) == (if fill_sum(verts, ds, n, px, py, FillRule::EvenOdd) == 1 {
            blend(paint, dst, op)
        } else {
            dst
        }),
    decreases n,
{
    if n > 0 {
        lemma_fill_sums(verts, ds, (n - 1) as nat, px, py);
        let prev = fill_paint(verts, ds, (n - 1) as nat, px, py, dst, paint, op);
        if let Some((start, count)) = ds[n - 1].fill_verts {
            lemma_range_sums(verts, start as int, (count / 3) as nat, px, py);
            lemma_range_paint_once(verts, start as int, (count / 3) as nat, px, py, prev, paint, op);
        }
        lemma_fill_paint_once(verts, ds, (n - 1) as nat, px, py, dst, paint, op);
    }
}

proof fn lemma_mod_sum(a: int, b: int)
    ensures
        (a % 256 + b) % 256 == (a + b) % 256,
{
    vstd::arithmetic::div_mod::lemma_add_mod_noop(a, b, 256);
    vstd::arithmetic::div_mod::lemma_mod_twice(b, 256);
    vstd::arithmetic::div_mod::lemma_add_mod_noop(a % 256, b, 256);
}

} // verus!
