use vstd::prelude::*;
use crate::canvas::PixelCanvas;
use crate::color::{ColorPair, Rgba};
use crate::layout::LayoutGeometry;
use crate::matrix::ModuleMatrix;

verus! {

/// The module grid column (or row) that a pixel coordinate falls in, or `-1`
/// where the coordinate lies in the quiet zone or in the residual strip that
/// truncation leaves after the last module.
pub open spec fn module_index(g: LayoutGeometry, n: int, v: int) -> int {
    if g.margin <= v < g.margin + n * g.module_size {
        (v - g.margin) / g.module_size as int
    } else {
        -1
    }
}

/// The color the raster renderer owes every canvas pixel: the foreground
/// exactly where a dark module covers the pixel, the background everywhere
/// else.
pub open spec fn raster_pixel_color(
    m: ModuleMatrix,
    g: LayoutGeometry,
    colors: ColorPair,
    x: int,
    y: int,
) -> Rgba {
    let ci = module_index(g, m.side(), x);
    let cj = module_index(g, m.side(), y);
    if ci >= 0 && cj >= 0 && m.dark(ci, cj) {
        colors.foreground
    } else {
        colors.background
    }
}

/// As `raster_pixel_color`, but counting only the cells before flat index
/// `k` in row-major order as painted.
pub open spec fn raster_pixel_color_upto(
    m: ModuleMatrix,
    g: LayoutGeometry,
    colors: ColorPair,
    x: int,
    y: int,
    k: int,
) -> Rgba {
    let ci = module_index(g, m.side(), x);
    let cj = module_index(g, m.side(), y);
    if ci >= 0 && cj >= 0 && cj * m.side() + ci < k && m.dark(ci, cj) {
        colors.foreground
    } else {
        colors.background
    }
}

/// A pixel coordinate lies in module column `i` exactly when it lies in that
/// module's half-open pixel interval.
pub proof fn lemma_module_index_rect(g: LayoutGeometry, n: int, i: int, v: int)
    requires
        g.wf_for(n),
        0 <= i < n,
    ensures
        (g.margin + i * g.module_size <= v < g.margin + (i + 1) * g.module_size) <==> module_index(
            g,
            n,
            v,
        ) == i,
{
    let ms = g.module_size as int;
    assert((i + 1) * ms <= n * ms && i * ms >= 0) by (nonlinear_arith)
        requires
            0 <= i < n,
            ms >= 1,
    ;
    if g.margin + i * ms <= v < g.margin + (i + 1) * ms {
        assert((v - g.margin) / ms == i) by (nonlinear_arith)
            requires
                ms >= 1,
                i * ms <= v - g.margin < (i + 1) * ms,
        ;
    }
    if module_index(g, n, v) == i {
        assert(i * ms <= v - g.margin < (i + 1) * ms) by (nonlinear_arith)
            requires
                ms >= 1,
                0 <= v - g.margin,
                (v - g.margin) / ms == i,
        ;
    }
}

/// Whichever module interval a pixel coordinate falls in is unique, so a
/// coordinate outside module `i`'s interval has a different index.
pub proof fn lemma_module_index_range(g: LayoutGeometry, n: int, v: int)
    requires
        g.wf_for(n),
    ensures
        module_index(g, n, v) == -1 || 0 <= module_index(g, n, v) < n,
{
    let ms = g.module_size as int;
    if g.margin <= v < g.margin + n * ms {
        assert(0 <= (v - g.margin) / ms < n) by (nonlinear_arith)
            requires
                ms >= 1,
                0 <= v - g.margin < n * ms,
        ;
    }
}

/// The interleaved RGBA bytes of the whole rendered canvas, derived from
/// the per-pixel classification.
pub open spec fn raster_bytes(m: ModuleMatrix, g: LayoutGeometry, colors: ColorPair) -> Seq<u8> {
    Seq::<u8>::new(
        (4 * (g.canvas_size * g.canvas_size)) as nat,
        |b: int|
            {
                let k = b / 4;
                let c = b % 4;
                let p = raster_pixel_color(m, g, colors, k % (g.canvas_size as int), k / (
                g.canvas_size as int));
                if c == 0 {
                    p.r
                } else if c == 1 {
                    p.g
                } else if c == 2 {
                    p.b
                } else {
                    p.a
                }
            },
    )
}

/// Matrices with the same side and cells classify every pixel alike, so
/// they serialize to the same bytes.
pub proof fn lemma_raster_bytes_same_view(
    m1: ModuleMatrix,
    m2: ModuleMatrix,
    g: LayoutGeometry,
    colors: ColorPair,
)
    requires
        m1.side() == m2.side(),
        m1.cells@ == m2.cells@,
    ensures
        raster_bytes(m1, g, colors) == raster_bytes(m2, g, colors),
{
    assert forall|x: int, y: int| #[trigger] raster_pixel_color(m1, g, colors, x, y)
        == raster_pixel_color(m2, g, colors, x, y) by {
        assert(m1.n == m2.n);
    }
    assert(raster_bytes(m1, g, colors) =~= raster_bytes(m2, g, colors));
}

/// A canvas whose pixels all carry their classified color serializes to
/// exactly `raster_bytes`.
pub proof fn lemma_raster_canvas_bytes(
    c: crate::canvas::PixelCanvas,
    m: ModuleMatrix,
    g: LayoutGeometry,
    colors: ColorPair,
)
    requires
        c.wf(),
        c.spec_width() == g.canvas_size,
        c.spec_height() == g.canvas_size,
        forall|x: int, y: int|
            0 <= x < g.canvas_size && 0 <= y < g.canvas_size ==> #[trigger] c.pixel(x, y)
                == raster_pixel_color(m, g, colors, x, y),
    ensures
        c.spec_bytes() == raster_bytes(m, g, colors),
{
    let cs = g.canvas_size as int;
    crate::canvas::lemma_flatten_pixels_len(c.pixels@);
    assert forall|b: int| 0 <= b < 4 * (cs * cs) implies #[trigger] c.spec_bytes()[b]
        == raster_bytes(m, g, colors)[b] by {
        let k = b / 4;
        assert(0 <= k < cs * cs);
        let x = k % cs;
        let y = k / cs;
        assert(0 <= x < cs && 0 <= y < cs && y * cs + x == k) by (nonlinear_arith)
            requires
                cs >= 1,
                0 <= k < cs * cs,
                x == k % cs,
                y == k / cs,
        ;
        crate::canvas::lemma_flatten_pixels_index(c.pixels@, k);
        assert(c.pixels@[k] == c.pixel(x, y));
        assert(b == 4 * k || b == 4 * k + 1 || b == 4 * k + 2 || b == 4 * k + 3);
    }
    assert(c.spec_bytes() =~= raster_bytes(m, g, colors));
}

/// Paints the module grid onto a fresh background-colored canvas: the raster
/// renderer of the pipeline. Every pixel of the result is classified by
/// `raster_pixel_color`.
pub fn render(matrix: &ModuleMatrix, geometry: &LayoutGeometry, colors: &ColorPair) -> (c:
    PixelCanvas)
    requires
        matrix.wf(),
        geometry.wf_for(matrix.side()),
        geometry.canvas_size * geometry.canvas_size <= usize::MAX,
    ensures
        c.wf(),
        c.spec_width() == geometry.canvas_size,
        c.spec_height() == geometry.canvas_size,
        forall|x: int, y: int|
            0 <= x < geometry.canvas_size && 0 <= y < geometry.canvas_size
                ==> #[trigger] c.pixel(x, y) == raster_pixel_color(
                *matrix,
                *geometry,
                *colors,
                x,
                y,
            ),
{
    let n: usize = matrix.side_len();
    let cs: u32 = geometry.canvas_size;
    let ms: u32 = geometry.module_size;
    let mut c = PixelCanvas::filled(cs, cs, colors.background);
    proof {
        assert forall|x: int, y: int| 0 <= x < cs && 0 <= y < cs implies #[trigger] c.pixel(x, y)
            == raster_pixel_color_upto(*matrix, *geometry, *colors, x, y, 0) by {
            lemma_module_index_range(*geometry, n as int, x);
            lemma_module_index_range(*geometry, n as int, y);
            assert(module_index(*geometry, n as int, x) >= 0 && module_index(*geometry, n as int, y)
                >= 0 ==> module_index(*geometry, n as int, y) * n + module_index(
                *geometry,
                n as int,
                x,
            ) >= 0) by (nonlinear_arith);
        }
    }
    let mut j: usize = 0;
    while j < n
        invariant
            j <= n,
            matrix.wf(),
            n == matrix.side(),
            geometry.wf_for(n as int),
            cs == geometry.canvas_size,
            ms == geometry.module_size,
            c.wf(),
            c.spec_width() == cs,
            c.spec_height() == cs,
            forall|x: int, y: int|
                0 <= x < cs && 0 <= y < cs ==> #[trigger] c.pixel(x, y) == raster_pixel_color_upto(
                    *matrix,
                    *geometry,
                    *colors,
                    x,
                    y,
                    j * n,
                ),
        decreases n - j,
    {
        let mut i: usize = 0;
        while i < n
            invariant
                i <= n,
                j < n,
                matrix.wf(),
                n == matrix.side(),
                geometry.wf_for(n as int),
                cs == geometry.canvas_size,
                ms == geometry.module_size,
                c.wf(),
                c.spec_width() == cs,
                c.spec_height() == cs,
                forall|x: int, y: int|
                    0 <= x < cs && 0 <= y < cs ==> #[trigger] c.pixel(x, y)
                        == raster_pixel_color_upto(
                        *matrix,
                        *geometry,
                        *colors,
                        x,
                        y,
                        j * n + i,
                    ),
            decreases n - i,
        {
            proof {
                assert((i + 1) * ms <= n * ms && i * ms <= n * ms && (j + 1) * ms <= n * ms && j
                    * ms <= n * ms && (i + 1) * ms == i * ms + ms && (j + 1) * ms == j * ms + ms)
                    by (nonlinear_arith)
                    requires
                        0 <= i < n,
                        0 <= j < n,
                        ms >= 0,
                ;
            }
            let x0: u32 = geometry.margin + (i as u32) * ms;
            let y0: u32 = geometry.margin + (j as u32) * ms;
            proof {
                assert(x0 + ms <= cs && y0 + ms <= cs);
            }
            let ghost pre = c;
            let dark = matrix.is_dark(i, j);
            if dark {
                c.fill_rect(x0, y0, ms, ms, colors.foreground);
            }
            proof {
                if !dark {
                    assert(c == pre);
                }
                let gg = *geometry;
                let nn = n as int;
                let k = j * n + i;
                assert forall|x: int, y: int| 0 <= x < cs && 0 <= y < cs implies #[trigger] c.pixel(
                    x,
                    y,
                ) == raster_pixel_color_upto(*matrix, *geometry, *colors, x, y, k + 1) by {
                    assert(pre.pixel(x, y) == raster_pixel_color_upto(
                        *matrix,
                        *geometry,
                        *colors,
                        x,
                        y,
                        k,
                    ));
                    lemma_module_index_rect(gg, nn, i as int, x);
                    lemma_module_index_rect(gg, nn, j as int, y);
                    lemma_module_index_range(gg, nn, x);
                    lemma_module_index_range(gg, nn, y);
                    let ci = module_index(gg, nn, x);
                    let cj = module_index(gg, nn, y);
                    if ci >= 0 && cj >= 0 {
                        assert(cj * nn + ci == k <==> (ci == i && cj == j)) by (nonlinear_arith)
                            requires
                                0 <= ci < nn,
                                0 <= cj < nn,
                                0 <= i < nn,
                                0 <= j < nn,
                                k == j * nn + i,
                        ;
                        assert(cj * nn + ci < k + 1 <==> (cj * nn + ci < k || cj * nn + ci == k));
                    }
                }
            }
            i = i + 1;
            proof {
                assert(j * n + i == j * n + (i - 1) + 1);
            }
        }
        j = j + 1;
        proof {
            assert(j * n == (j - 1) * n + n) by (nonlinear_arith)
                requires
                    j >= 1,
            ;
        }
    }
    proof {
        assert forall|x: int, y: int| 0 <= x < cs && 0 <= y < cs implies #[trigger] c.pixel(x, y)
            == raster_pixel_color(*matrix, *geometry, *colors, x, y) by {
            lemma_module_index_range(*geometry, n as int, x);
            lemma_module_index_range(*geometry, n as int, y);
            let ci = module_index(*geometry, n as int, x);
            let cj = module_index(*geometry, n as int, y);
            if ci >= 0 && cj >= 0 {
                assert(cj * (n as int) + ci < n * n) by (nonlinear_arith)
                    requires
                        0 <= ci < n,
                        0 <= cj < n,
                ;
            }
        }
    }
    c
}

} // verus!
