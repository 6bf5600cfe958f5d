use vstd::prelude::*;
use crate::color::ColorPair;
use crate::layout::LayoutGeometry;
use crate::matrix::ModuleMatrix;
use crate::raster::raster_pixel_color;
use crate::rasterize::{color_upto, covers, rasterized_pixel, BackgroundMode};
use crate::vector::{module_rect, vector_prims, vector_rects_upto, Primitive};

verus! {

/// A layout whose module size is the truncation the layout engine
/// computes, as `compute` produces it.
pub open spec fn truncating_layout(g: LayoutGeometry, n: int) -> bool {
    &&& g.wf_for(n)
    &&& g.module_size == g.content_size() / n
}

/// The left pixel edge of raster module column `i`.
pub open spec fn raster_edge(g: LayoutGeometry, i: int) -> int {
    g.margin + i * g.module_size
}

/// The left edge of vector module column `i`, in user units of `1 / n`
/// pixel.
pub open spec fn vector_edge(g: LayoutGeometry, n: int, i: int) -> int {
    n * g.margin + i * g.content_size()
}

/// Every dark cell's exact rectangle is in the vector renderer's list.
proof fn lemma_rects_contain(m: ModuleMatrix, g: LayoutGeometry, fill: crate::color::Rgba, i: int, j: int, k: int)
    requires
        m.wf(),
        0 <= i < m.side(),
        0 <= j < m.side(),
        m.dark(i, j),
        j * m.side() + i < k,
        k <= m.side() * m.side(),
    ensures
        exists|t: int|
            0 <= t < vector_rects_upto(m, g, fill, k).len() && #[trigger] vector_rects_upto(
                m,
                g,
                fill,
                k,
            )[t] == module_rect(g, m.side(), i, j, fill),
    decreases k,
{
    let n = m.side();
    if j * n + i == k - 1 {
        assert((k - 1) % n == i && (k - 1) / n == j) by (nonlinear_arith)
            requires
                0 <= i < n,
                0 <= j,
                k - 1 == j * n + i,
        ;
        let prefix = vector_rects_upto(m, g, fill, k - 1);
        assert(vector_rects_upto(m, g, fill, k) == prefix + seq![module_rect(g, n, i, j, fill)]);
        let t = prefix.len() as int;
        assert(vector_rects_upto(m, g, fill, k)[t] == module_rect(g, n, i, j, fill));
    } else {
        lemma_rects_contain(m, g, fill, i, j, k - 1);
        let t = choose|t: int|
            0 <= t < vector_rects_upto(m, g, fill, k - 1).len() && #[trigger] vector_rects_upto(
                m,
                g,
                fill,
                k - 1,
            )[t] == module_rect(g, n, i, j, fill);
        assert(vector_rects_upto(m, g, fill, k)[t] == module_rect(g, n, i, j, fill));
    }
}

/// Every entry of the vector renderer's rectangle list is the exact
/// rectangle of some dark cell.
proof fn lemma_rects_elements(m: ModuleMatrix, g: LayoutGeometry, fill: crate::color::Rgba, k: int, t: int)
    requires
        m.wf(),
        0 <= k <= m.side() * m.side(),
        0 <= t < vector_rects_upto(m, g, fill, k).len(),
    ensures
        exists|ci: int, cj: int|
            0 <= ci < m.side() && 0 <= cj < m.side() && m.dark(ci, cj)
                && #[trigger] module_rect(g, m.side(), ci, cj, fill) == vector_rects_upto(
                m,
                g,
                fill,
                k,
            )[t],
    decreases k,
{
    let n = m.side();
    let cur = vector_rects_upto(m, g, fill, k);
    let prefix = vector_rects_upto(m, g, fill, k - 1);
    if k <= 0 {
    } else {
        if t < prefix.len() {
            lemma_rects_elements(m, g, fill, k - 1, t);
            assert(cur[t] == prefix[t]);
        } else {
            let ci = (k - 1) % n;
            let cj = (k - 1) / n;
            assert(0 <= ci < n && 0 <= cj < n) by (nonlinear_arith)
                requires
                    n >= 1,
                    0 <= k - 1 < n * n,
                    ci == (k - 1) % n,
                    cj == (k - 1) / n,
            ;
            assert(m.dark(ci, cj));
            assert(cur[t] == module_rect(g, n, ci, cj, fill));
        }
    }
}

/// Geometric congruence of the two renderers: for every dark cell, the
/// vector document holds that cell's exact rectangle, and its edge differs
/// from the raster renderer's truncated edge by exactly the accumulated
/// truncation remainder, which stays below one module row of user units.
pub proof fn lemma_renderer_congruence(
    m: ModuleMatrix,
    g: LayoutGeometry,
    colors: ColorPair,
    i: int,
    j: int,
)
    requires
        m.wf(),
        truncating_layout(g, m.side()),
        0 <= i < m.side(),
        0 <= j < m.side(),
        m.dark(i, j),
    ensures
        exists|t: int|
            0 <= t < vector_prims(m, g, colors).len() && vector_prims(m, g, colors)[t]
                == module_rect(g, m.side(), i, j, colors.foreground),
        vector_edge(g, m.side(), i) - m.side() * raster_edge(g, i) == i * (g.content_size()
            - m.side() * g.module_size),
        0 <= vector_edge(g, m.side(), i) - m.side() * raster_edge(g, i) < m.side() * m.side(),
{
    let n = m.side();
    assert(j * n + i < n * n) by (nonlinear_arith)
        requires
            0 <= i < n,
            0 <= j < n,
    ;
    lemma_rects_contain(m, g, colors.foreground, i, j, n * n);
    let t = choose|t: int|
        0 <= t < vector_rects_upto(m, g, colors.foreground, n * n).len()
            && #[trigger] vector_rects_upto(m, g, colors.foreground, n * n)[t] == module_rect(
            g,
            n,
            i,
            j,
            colors.foreground,
        );
    assert(vector_prims(m, g, colors)[t + 1] == module_rect(g, n, i, j, colors.foreground));
    let content = g.content_size();
    let ms = g.module_size as int;
    let rem = content - n * ms;
    assert(0 <= rem < n) by (nonlinear_arith)
        requires
            n >= 1,
            ms == content / n,
            rem == content - n * ms,
            content >= 0,
    ;
    assert(n * (g.margin + i * ms) == n * g.margin + i * (n * ms) && i * content - i * (n * ms)
        == i * rem && 0 <= i * rem && i * rem < n * n) by (nonlinear_arith)
        requires
            0 <= i < n,
            0 <= rem < n,
            rem == content - n * ms,
    ;
}

/// The horizontal (or vertical) pixel through the middle of raster module
/// `i`.
pub open spec fn raster_center(g: LayoutGeometry, i: int) -> int {
    g.margin + i * g.module_size + g.module_size / 2
}

/// The target pixel whose center is nearest the middle of vector module
/// `i` at native resolution.
pub open spec fn vector_center(g: LayoutGeometry, n: int, i: int) -> int {
    (2 * vector_edge(g, n, i) + g.content_size()) / (2 * n)
}

/// The raster canvas colors the middle of every module after its own cell:
/// foreground exactly on the dark cells.
pub proof fn lemma_raster_center_classification(
    m: ModuleMatrix,
    g: LayoutGeometry,
    colors: ColorPair,
    i: int,
    j: int,
)
    requires
        m.wf(),
        truncating_layout(g, m.side()),
        0 <= i < m.side(),
        0 <= j < m.side(),
    ensures
        raster_pixel_color(m, g, colors, raster_center(g, i), raster_center(g, j)) == (if m.dark(
            i,
            j,
        ) {
            colors.foreground
        } else {
            colors.background
        }),
{
    let n = m.side();
    let ms = g.module_size as int;
    crate::raster::lemma_module_index_rect(g, n, i, raster_center(g, i));
    crate::raster::lemma_module_index_rect(g, n, j, raster_center(g, j));
    assert(0 <= ms / 2 < ms && (i + 1) * ms == i * ms + ms && (j + 1) * ms == j * ms + ms)
        by (nonlinear_arith)
        requires
            ms >= 1,
            0 <= i,
            0 <= j,
    ;
    assert(g.margin + i * ms <= raster_center(g, i) < g.margin + (i + 1) * ms);
    assert(g.margin + j * ms <= raster_center(g, j) < g.margin + (j + 1) * ms);
}

/// At native resolution the exact rectangle of column `ci` covers the
/// center pixel of column `i` exactly when the columns agree.
proof fn lemma_center_cover_iff(g: LayoutGeometry, n: int, i: int, ci: int)
    requires
        truncating_layout(g, n),
        0 <= i < n,
        0 <= ci < n,
    ensures
        (2 * g.canvas_size * vector_edge(g, n, ci) <= (2 * vector_center(g, n, i) + 1) * (
        g.canvas_size * n) < 2 * g.canvas_size * (vector_edge(g, n, ci) + g.content_size())) <==> ci
            == i,
{
    let ts = g.canvas_size as int;
    let content = g.content_size();
    let x = vector_edge(g, n, i);
    let xc = vector_edge(g, n, ci);
    let q = vector_center(g, n, i);
    assert(n <= content && content + 2 * g.margin == ts && ts >= 1);
    assert(2 * n * q <= 2 * x + content < 2 * n * q + 2 * n) by (nonlinear_arith)
        requires
            n >= 1,
            q == (2 * x + content) / (2 * n),
            0 <= x,
            0 <= content,
    ;
    // The center's user coordinate lies inside column i's own interval.
    if n == content {
        assert(x == n * (g.margin + i)) by (nonlinear_arith)
            requires
                x == n * g.margin + i * content,
                content == n,
        ;
        assert(q == g.margin + i) by (nonlinear_arith)
            requires
                q == (2 * x + content) / (2 * n),
                x == n * (g.margin + i),
                content == n,
                n >= 1,
                0 <= g.margin,
                0 <= i,
        ;
        assert((2 * q + 1) * n == 2 * x + content) by (nonlinear_arith)
            requires
                q == g.margin + i,
                x == n * (g.margin + i),
                content == n,
        ;
        assert(2 * x <= (2 * q + 1) * n < 2 * x + 2 * content);
    } else {
        let a = n * q;
        assert(2 * n * q == 2 * a && (2 * q + 1) * n == 2 * a + n) by (nonlinear_arith)
            requires
                a == n * q,
        ;
        assert(2 * x <= (2 * q + 1) * n < 2 * x + 2 * content);
    }
    if ci < i {
        assert(xc + content <= x) by (nonlinear_arith)
            requires
                ci < i,
                xc == n * g.margin + ci * content,
                x == n * g.margin + i * content,
                content >= 0,
        ;
    }
    if ci > i {
        assert(x + content <= xc) by (nonlinear_arith)
            requires
                ci > i,
                xc == n * g.margin + ci * content,
                x == n * g.margin + i * content,
                content >= 0,
        ;
    }
    assert(ci == i ==> xc == x);
    assert((2 * xc <= (2 * q + 1) * n < 2 * xc + 2 * content) <==> ci == i) by (nonlinear_arith)
        requires
            ts >= 1,
            2 * x <= (2 * q + 1) * n < 2 * x + 2 * content,
            ci < i ==> xc + content <= x,
            ci > i ==> x + content <= xc,
            ci == i ==> xc == x,
            content >= 1,
    ;
    assert((2 * ts * xc <= (2 * q + 1) * (ts * n) < 2 * ts * (xc + content)) <==> (2 * xc <= (2 * q
        + 1) * n < 2 * xc + 2 * content)) by (nonlinear_arith)
        requires
            ts >= 1,
    ;
}

/// Painting the document's primitives onto any background colors a module
/// center by whether some dark cell's rectangle covers it.
proof fn lemma_color_upto_classification(
    m: ModuleMatrix,
    g: LayoutGeometry,
    colors: ColorPair,
    mode: BackgroundMode,
    cx: int,
    cy: int,
    k: int,
)
    requires
        m.wf(),
        truncating_layout(g, m.side()),
        1 <= k <= vector_prims(m, g, colors).len(),
    ensures
        color_upto(
            vector_prims(m, g, colors),
            g.canvas_size as int,
            g.canvas_size as int,
            m.side(),
            g.canvas_size as int,
            g.canvas_size as int,
            mode,
            cx,
            cy,
            k,
        ) == (if exists|t: int|
            1 <= t < k && #[trigger] covers(
                vector_prims(m, g, colors)[t],
                g.canvas_size as int,
                g.canvas_size as int,
                m.side(),
                g.canvas_size as int,
                g.canvas_size as int,
                cx,
                cy,
            ) {
            colors.foreground
        } else {
            colors.background
        }),
    decreases k,
{
    let n = m.side();
    let ts = g.canvas_size as int;
    let prims = vector_prims(m, g, colors);
    if k == 1 {
        assert(prims[0] == (Primitive::Background { fill: colors.background }));
        assert(covers(prims[0], ts, ts, n, ts, ts, cx, cy));
    } else {
        lemma_color_upto_classification(m, g, colors, mode, cx, cy, k - 1);
        lemma_rects_elements(m, g, colors.foreground, n * n, k - 2);
        let (ci, cj) = choose|ci: int, cj: int|
            0 <= ci < n && 0 <= cj < n && m.dark(ci, cj) && #[trigger] module_rect(
                g,
                n,
                ci,
                cj,
                colors.foreground,
            ) == vector_rects_upto(m, g, colors.foreground, n * n)[k - 2];
        assert(prims[k - 1] == module_rect(g, n, ci, cj, colors.foreground));
        if covers(prims[k - 1], ts, ts, n, ts, ts, cx, cy) {
            assert(exists|t: int|
                1 <= t < k && #[trigger] covers(prims[t], ts, ts, n, ts, ts, cx, cy));
        } else {
            assert((exists|t: int|
                1 <= t < k && #[trigger] covers(prims[t], ts, ts, n, ts, ts, cx, cy)) <==> (
            exists|t: int| 1 <= t < k - 1 && #[trigger] covers(prims[t], ts, ts, n, ts, ts, cx, cy)));
        }
    }
}

/// Round trip of the two render paths: painting the vector renderer's
/// primitives at the document's native resolution gives every module
/// center the same classification the raster renderer gives it at its own
/// center, namely the foreground exactly on dark cells, whatever
/// background mode the rasterizer was asked for. The last clause states it
/// for every document that carries the vector renderer's output.
pub proof fn lemma_render_rasterize_roundtrip(
    m: ModuleMatrix,
    g: LayoutGeometry,
    colors: ColorPair,
    mode: BackgroundMode,
    i: int,
    j: int,
)
    requires
        m.wf(),
        truncating_layout(g, m.side()),
        0 <= i < m.side(),
        0 <= j < m.side(),
    ensures
        raster_pixel_color(m, g, colors, raster_center(g, i), raster_center(g, j)) == (if m.dark(
            i,
            j,
        ) {
            colors.foreground
        } else {
            colors.background
        }),
        color_upto(
            vector_prims(m, g, colors),
            g.canvas_size as int,
            g.canvas_size as int,
            m.side(),
            g.canvas_size as int,
            g.canvas_size as int,
            mode,
            vector_center(g, m.side(), i),
            vector_center(g, m.side(), j),
            vector_prims(m, g, colors).len() as int,
        ) == (if m.dark(i, j) {
            colors.foreground
        } else {
            colors.background
        }),
        forall|doc: crate::vector::VectorDocument|
            doc.width_px == g.canvas_size && doc.height_px == g.canvas_size && doc.den == m.side()
                && doc.prims@ == vector_prims(m, g, colors) ==> #[trigger] rasterized_pixel(
                doc,
                g.canvas_size as int,
                g.canvas_size as int,
                mode,
                vector_center(g, m.side(), i),
                vector_center(g, m.side(), j),
            ) == (if m.dark(i, j) {
                colors.foreground
            } else {
                colors.background
            }),
{
    let n = m.side();
    let ts = g.canvas_size as int;
    let prims = vector_prims(m, g, colors);
    let cx = vector_center(g, n, i);
    let cy = vector_center(g, n, j);
    lemma_raster_center_classification(m, g, colors, i, j);
    assert(vector_rects_upto(m, g, colors.foreground, n * n).len() <= n * n) by {
        lemma_rects_len(m, g, colors.foreground, n * n);
    }
    lemma_color_upto_classification(m, g, colors, mode, cx, cy, prims.len() as int);
    if m.dark(i, j) {
        assert(j * n + i < n * n) by (nonlinear_arith)
            requires
                0 <= i < n,
                0 <= j < n,
        ;
        lemma_rects_contain(m, g, colors.foreground, i, j, n * n);
        let t = choose|t: int|
            0 <= t < vector_rects_upto(m, g, colors.foreground, n * n).len()
                && #[trigger] vector_rects_upto(m, g, colors.foreground, n * n)[t] == module_rect(
                g,
                n,
                i,
                j,
                colors.foreground,
            );
        lemma_center_cover_iff(g, n, i, i);
        lemma_center_cover_iff(g, n, j, j);
        assert(0 <= vector_edge(g, n, i) && vector_edge(g, n, i) + g.content_size()
            < 0x1_0000_0000_0000_0000 && 0 <= vector_edge(g, n, j) && vector_edge(g, n, j)
            + g.content_size() < 0x1_0000_0000_0000_0000) by (nonlinear_arith)
            requires
                0 <= i < n,
                0 <= j < n,
                1 <= n <= g.content_size(),
                0 <= g.margin,
                g.margin + g.content_size() <= g.canvas_size,
                g.canvas_size < 0x1_0000_0000,
                vector_edge(g, n, i) == n * g.margin + i * g.content_size(),
                vector_edge(g, n, j) == n * g.margin + j * g.content_size(),
        ;
        assert(covers(prims[t + 1], ts, ts, n, ts, ts, cx, cy));
        assert(exists|u: int| 1 <= u < prims.len() && #[trigger] covers(prims[u], ts, ts, n, ts, ts, cx, cy));
    } else {
        assert forall|u: int| 1 <= u < prims.len() implies !covers(
            #[trigger] prims[u],
            ts,
            ts,
            n,
            ts,
            ts,
            cx,
            cy,
        ) by {
            lemma_rects_elements(m, g, colors.foreground, n * n, u - 1);
            let (ci, cj) = choose|ci: int, cj: int|
                0 <= ci < n && 0 <= cj < n && m.dark(ci, cj) && #[trigger] module_rect(
                    g,
                    n,
                    ci,
                    cj,
                    colors.foreground,
                ) == vector_rects_upto(m, g, colors.foreground, n * n)[u - 1];
            lemma_center_cover_iff(g, n, i, ci);
            lemma_center_cover_iff(g, n, j, cj);
            assert(0 <= vector_edge(g, n, ci) && vector_edge(g, n, ci) + g.content_size()
                < 0x1_0000_0000_0000_0000 && 0 <= vector_edge(g, n, cj) && vector_edge(g, n, cj)
                + g.content_size() < 0x1_0000_0000_0000_0000) by (nonlinear_arith)
                requires
                    0 <= ci < n,
                    0 <= cj < n,
                    1 <= n <= g.content_size(),
                    0 <= g.margin,
                    g.margin + g.content_size() <= g.canvas_size,
                    g.canvas_size < 0x1_0000_0000,
                    vector_edge(g, n, ci) == n * g.margin + ci * g.content_size(),
                    vector_edge(g, n, cj) == n * g.margin + cj * g.content_size(),
            ;
            if ci == i && cj == j {
                assert(!m.dark(i, j) && m.dark(ci, cj));
            }
        }
    }
}

/// The rectangle list holds at most one entry per cell.
proof fn lemma_rects_len(m: ModuleMatrix, g: LayoutGeometry, fill: crate::color::Rgba, k: int)
    requires
        m.wf(),
        0 <= k,
    ensures
        vector_rects_upto(m, g, fill, k).len() <= k,
    decreases k,
{
    if k > 0 {
        lemma_rects_len(m, g, fill, k - 1);
    }
}

} // verus!
