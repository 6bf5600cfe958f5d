use vstd::prelude::*;
use crate::QrError;

verus! {

/// The shared geometry of one render: every renderer draws module `i` of a
/// row at pixel `margin + i * module_size` (raster) or at the exact rational
/// position `margin + i * content / n` (vector), where
/// `content = canvas_size - 2 * margin`.
#[derive(Clone, Copy, PartialEq, Eq, Structural, Debug)]
pub struct LayoutGeometry {
    /// Side of one module in whole pixels, truncated from `content / n`.
    pub module_size: u32,
    /// Side of the square canvas: `content + 2 * margin`.
    pub canvas_size: u32,
    /// Quiet zone added on every side, in pixels.
    pub margin: u32,
}

/// The inputs on which `compute` succeeds.
pub open spec fn layout_inputs_ok(module_count: u32, target_size: u32, margin: u32) -> bool {
    module_count >= 1 && target_size >= module_count
}

/// What `compute` returns on those inputs.
pub open spec fn layout_of(module_count: u32, target_size: u32, margin: u32) -> LayoutGeometry {
    LayoutGeometry {
        module_size: (target_size as int / module_count as int) as u32,
        canvas_size: (target_size + 2 * margin) as u32,
        margin,
    }
}

impl LayoutGeometry {
    /// The side of the content area, without the quiet zone.
    pub open spec fn content_size(self) -> int {
        self.canvas_size - 2 * self.margin
    }

    /// Well-formedness with respect to a matrix of `n * n` modules: the
    /// module grid fits inside the content area.
    pub open spec fn wf_for(self, n: int) -> bool {
        &&& 1 <= n
        &&& 1 <= self.module_size
        &&& self.canvas_size >= 2 * self.margin
        &&& n * self.module_size <= self.content_size()
        &&& n <= self.content_size()
    }
}

/// Derives the pixel geometry of one render request.
///
/// Fails with `InvalidGeometry` exactly when no module could get at least one
/// pixel: a zero module count, a zero target size, or a target size below the
/// module count.
pub fn compute(module_count: u32, target_size: u32, margin: u32) -> (r: Result<
    LayoutGeometry,
    QrError,
>)
    requires
        target_size + 2 * margin <= u32::MAX,
    ensures
        r is Ok <==> layout_inputs_ok(module_count, target_size, margin),
        r is Err ==> r == Err::<LayoutGeometry, QrError>(QrError::InvalidGeometry),
        r is Ok ==> r->Ok_0 == layout_of(module_count, target_size, margin),
        r is Ok ==> r->Ok_0.module_size >= 1 && r->Ok_0.canvas_size == target_size + 2 * margin
            && r->Ok_0.wf_for(module_count as int),
{
    if module_count == 0 || target_size == 0 || target_size < module_count {
        return Err(QrError::InvalidGeometry);
    }
    let module_size = target_size / module_count;
    let geometry = LayoutGeometry { module_size, canvas_size: target_size + 2 * margin, margin };
    proof {
        assert(module_size >= 1) by {
            assert(target_size as int / module_count as int >= 1) by (nonlinear_arith)
                requires
                    module_count >= 1,
                    target_size >= module_count,
            ;
        };
        assert(module_count * module_size <= target_size) by (nonlinear_arith)
            requires
                module_count >= 1,
                module_size == target_size as int / module_count as int,
        ;
    }
    Ok(geometry)
}

} // verus!
