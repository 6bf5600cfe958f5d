use vstd::prelude::*;
use crate::color::{ColorPair, Rgba};
use crate::layout::LayoutGeometry;
use crate::matrix::ModuleMatrix;

verus! {

/// One drawable of a vector document. Coordinates are exact rationals: the
/// stored integer divided by the document's `den` gives the position in
/// pixels, so the vector renderer never truncates a module position.
pub enum Primitive {
    /// A fill of the whole canvas.
    Background { fill: Rgba },
    /// An axis-aligned opaque rectangle.
    Rect { x: u64, y: u64, w: u64, h: u64, fill: Rgba },
    /// An embedded raster image, stored as its encoded bytes.
    ImageRef { x: u64, y: u64, w: u64, h: u64, data: Vec<u8> },
}

/// An ordered list of primitives with a declared pixel size. Painting the
/// primitives in order onto a `width_px` by `height_px` surface gives the
/// picture; `den` is the common denominator of every coordinate.
pub struct VectorDocument {
    pub width_px: u32,
    pub height_px: u32,
    pub den: u32,
    pub prims: Vec<Primitive>,
}

impl VectorDocument {
    pub open spec fn wf(self) -> bool {
        self.den >= 1
    }
}

/// The exact rectangle of module `(i, j)`: position `margin + i * content / n`
/// pixels, side `content / n` pixels, both over the common denominator `n`.
pub open spec fn module_rect(g: LayoutGeometry, n: int, i: int, j: int, fill: Rgba) -> Primitive {
    Primitive::Rect {
        x: (n * g.margin + i * g.content_size()) as u64,
        y: (n * g.margin + j * g.content_size()) as u64,
        w: g.content_size() as u64,
        h: g.content_size() as u64,
        fill,
    }
}

/// The rectangles of the dark cells among the first `k` cells in row-major
/// order.
pub open spec fn vector_rects_upto(
    m: ModuleMatrix,
    g: LayoutGeometry,
    fill: Rgba,
    k: int,
) -> Seq<Primitive>
    decreases k,
{
    if k <= 0 {
        Seq::<Primitive>::empty()
    } else {
        vector_rects_upto(m, g, fill, k - 1) + (if m.dark((k - 1) % m.side(), (k - 1) / m.side()) {
            seq![module_rect(g, m.side(), (k - 1) % m.side(), (k - 1) / m.side(), fill)]
        } else {
            Seq::<Primitive>::empty()
        })
    }
}

/// The full primitive list the vector renderer owes: one background fill,
/// then one rectangle per dark cell in row-major order.
pub open spec fn vector_prims(m: ModuleMatrix, g: LayoutGeometry, colors: ColorPair) -> Seq<
    Primitive,
> {
    seq![Primitive::Background { fill: colors.background }] + vector_rects_upto(
        m,
        g,
        colors.foreground,
        m.side() * m.side(),
    )
}

/// Describes the module grid as a scalable document: the vector renderer of
/// the pipeline. The document's primitives are exactly `vector_prims`, its
/// declared size is the canvas size, and its denominator is the module
/// count, so module rectangles keep their exact rational positions.
pub fn render(matrix: &ModuleMatrix, geometry: &LayoutGeometry, colors: &ColorPair) -> (doc:
    VectorDocument)
    requires
        matrix.wf(),
        geometry.wf_for(matrix.side()),
    ensures
        doc.wf(),
        doc.width_px == geometry.canvas_size,
        doc.height_px == geometry.canvas_size,
        doc.den == matrix.side(),
        doc.prims@ == vector_prims(*matrix, *geometry, *colors),
{
    let n: usize = matrix.side_len();
    let content: u32 = geometry.canvas_size - 2 * geometry.margin;
    let mut prims: Vec<Primitive> = Vec::new();
    prims.push(Primitive::Background { fill: colors.background });
    proof {
        assert(prims@ =~= seq![Primitive::Background { fill: colors.background }]
            + vector_rects_upto(*matrix, *geometry, colors.foreground, 0));
    }
    let mut j: usize = 0;
    while j < n
        invariant
            j <= n,
            matrix.wf(),
            n == matrix.side(),
            geometry.wf_for(n as int),
            content == geometry.content_size(),
            prims@ == seq![Primitive::Background { fill: colors.background }] + vector_rects_upto(
                *matrix,
                *geometry,
                colors.foreground,
                j * n,
            ),
        decreases n - j,
    {
        let mut i: usize = 0;
        while i < n
            invariant
                i <= n,
                j < n,
                matrix.wf(),
                n == matrix.side(),
                geometry.wf_for(n as int),
                content == geometry.content_size(),
                prims@ == seq![Primitive::Background { fill: colors.background }]
                    + vector_rects_upto(*matrix, *geometry, colors.foreground, j * n + i),
            decreases n - i,
        {
            let ghost k: int = j * n + i;
            proof {
                assert(k % (n as int) == i && k / (n as int) == j) by (nonlinear_arith)
                    requires
                        0 <= i < n,
                        0 <= j,
                        k == j * n + i,
                ;
            }
            if matrix.is_dark(i, j) {
                proof {
                    assert((n as int) * (geometry.margin as int) + (i as int) * (content as int)
                        < 0x1_0000_0000_0000_0000 && (n as int) * (geometry.margin as int) + (
                    j as int) * (content as int) < 0x1_0000_0000_0000_0000) by (nonlinear_arith)
                        requires
                            0 <= i < n,
                            0 <= j < n,
                            1 <= n,
                            0 <= geometry.margin,
                            0 <= content,
                            n <= geometry.canvas_size,
                            geometry.margin + content <= geometry.canvas_size,
                            geometry.canvas_size < 0x1_0000_0000,
                    ;
                }
                let x: u64 = (n as u64) * (geometry.margin as u64) + (i as u64) * (content as u64);
                let y: u64 = (n as u64) * (geometry.margin as u64) + (j as u64) * (content as u64);
                prims.push(
                    Primitive::Rect {
                        x,
                        y,
                        w: content as u64,
                        h: content as u64,
                        fill: colors.foreground,
                    },
                );
                proof {
                    assert(prims@.last() == module_rect(
                        *geometry,
                        n as int,
                        i as int,
                        j as int,
                        colors.foreground,
                    ));
                }
            }
            proof {
                assert(prims@ =~= seq![Primitive::Background { fill: colors.background }]
                    + vector_rects_upto(*matrix, *geometry, colors.foreground, k + 1));
            }
            i = i + 1;
        }
        j = j + 1;
        proof {
            assert(j * n == (j - 1) * n + n) by (nonlinear_arith)
                requires
                    j >= 1,
            ;
        }
    }
    proof {
        assert(n * n == (n as int) * (n as int));
    }
    VectorDocument {
        width_px: geometry.canvas_size,
        height_px: geometry.canvas_size,
        den: n as u32,
        prims,
    }
}

} // verus!
