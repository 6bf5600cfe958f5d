use vstd::prelude::*;
use crate::color::Rgba;

verus! {

/// A mutable buffer of RGBA pixels, stored row-major.
#[derive(Clone, Debug)]
pub struct PixelCanvas {
    pub width: u32,
    pub height: u32,
    pub pixels: Vec<Rgba>,
}

impl PixelCanvas {
    pub open spec fn wf(self) -> bool {
        self.pixels@.len() == self.width * self.height
    }

    pub open spec fn spec_width(self) -> int {
        self.width as int
    }

    pub open spec fn spec_height(self) -> int {
        self.height as int
    }

    /// The color of the pixel in column `x`, row `y`.
    pub open spec fn pixel(self, x: int, y: int) -> Rgba {
        self.pixels@[y * self.width + x]
    }

    pub proof fn lemma_index_bound(self, x: int, y: int)
        requires
            self.wf(),
            0 <= x < self.spec_width(),
            0 <= y < self.spec_height(),
        ensures
            0 <= y * self.width + x < self.pixels@.len(),
    {
        assert(y * self.width + x < self.width * self.height) by (nonlinear_arith)
            requires
                0 <= x < self.width,
                0 <= y < self.height,
        ;
    }

    /// A fresh canvas with every pixel set to one color.
    pub fn filled(width: u32, height: u32, fill: Rgba) -> (c: PixelCanvas)
        requires
            width * height <= usize::MAX,
        ensures
            c.wf(),
            c.spec_width() == width,
            c.spec_height() == height,
            forall|x: int, y: int|
                0 <= x < width && 0 <= y < height ==> #[trigger] c.pixel(x, y) == fill,
    {
        let count: usize = (width as usize) * (height as usize);
        let mut pixels: Vec<Rgba> = Vec::new();
        let mut i: usize = 0;
        while i < count
            invariant
                i <= count,
                pixels@.len() == i,
                forall|k: int| 0 <= k < i ==> pixels@[k] == fill,
            decreases count - i,
        {
            pixels.push(fill);
            i = i + 1;
        }
        let c = PixelCanvas { width, height, pixels };
        proof {
            assert forall|x: int, y: int|
                0 <= x < width && 0 <= y < height implies #[trigger] c.pixel(x, y) == fill by {
                c.lemma_index_bound(x, y);
            }
        }
        c
    }

    pub fn width(&self) -> (w: u32)
        ensures
            w == self.spec_width(),
    {
        self.width
    }

    pub fn height(&self) -> (h: u32)
        ensures
            h == self.spec_height(),
    {
        self.height
    }

    pub fn get(&self, x: u32, y: u32) -> (p: Rgba)
        requires
            self.wf(),
            x < self.spec_width(),
            y < self.spec_height(),
        ensures
            p == self.pixel(x as int, y as int),
    {
        let len = self.pixels.len();
        proof {
            self.lemma_index_bound(x as int, y as int);
            assert(y * self.width + x < len);
        }
        self.pixels[(y as usize) * (self.width as usize) + (x as usize)]
    }

    pub fn set(&mut self, x: u32, y: u32, p: Rgba)
        requires
            old(self).wf(),
            x < old(self).spec_width(),
            y < old(self).spec_height(),
        ensures
            final(self).wf(),
            final(self).spec_width() == old(self).spec_width(),
            final(self).spec_height() == old(self).spec_height(),
            final(self).pixel(x as int, y as int) == p,
            forall|i: int, j: int|
                0 <= i < old(self).spec_width() && 0 <= j < old(self).spec_height() && !(i == x
                    && j == y) ==> #[trigger] final(self).pixel(i, j) == old(self).pixel(i, j),
    {
        let len = self.pixels.len();
        proof {
            self.lemma_index_bound(x as int, y as int);
            assert(y * self.width + x < len);
        }
        let idx: usize = (y as usize) * (self.width as usize) + (x as usize);
        self.pixels.set(idx, p);
        proof {
            assert forall|i: int, j: int|
                0 <= i < self.spec_width() && 0 <= j < self.spec_height() && !(i == x && j
                    == y) implies #[trigger] self.pixel(i, j) == old(self).pixel(i, j) by {
                self.lemma_index_bound(i, j);
                assert(j * self.width + i != y * self.width + x) by (nonlinear_arith)
                    requires
                        0 <= i < self.width,
                        0 <= j < self.height,
                        0 <= x < self.width,
                        0 <= y < self.height,
                        !(i == x && j == y),
                ;
            }
        }
    }

    /// Paints the axis-aligned rectangle `[x0, x0 + w) x [y0, y0 + h)` with
    /// one color and leaves every other pixel as it was.
    pub fn fill_rect(&mut self, x0: u32, y0: u32, w: u32, h: u32, fill: Rgba)
        requires
            old(self).wf(),
            x0 + w <= old(self).spec_width(),
            y0 + h <= old(self).spec_height(),
        ensures
            final(self).wf(),
            final(self).spec_width() == old(self).spec_width(),
            final(self).spec_height() == old(self).spec_height(),
            forall|i: int, j: int|
                x0 <= i < x0 + w && y0 <= j < y0 + h ==> #[trigger] final(self).pixel(i, j)
                    == fill,
            forall|i: int, j: int|
                0 <= i < old(self).spec_width() && 0 <= j < old(self).spec_height() && !(x0 <= i
                    < x0 + w && y0 <= j < y0 + h) ==> #[trigger] final(self).pixel(i, j) == old(
                    self,
                ).pixel(i, j),
    {
        let mut dy: u32 = 0;
        while dy < h
            invariant
                dy <= h,
                self.wf(),
                self.spec_width() == old(self).spec_width(),
                self.spec_height() == old(self).spec_height(),
                x0 + w <= self.spec_width(),
                y0 + h <= self.spec_height(),
                forall|i: int, j: int|
                    x0 <= i < x0 + w && y0 <= j < y0 + dy ==> #[trigger] self.pixel(i, j) == fill,
                forall|i: int, j: int|
                    0 <= i < self.spec_width() && 0 <= j < self.spec_height() && !(x0 <= i < x0 + w
                        && y0 <= j < y0 + dy) ==> #[trigger] self.pixel(i, j) == old(self).pixel(
                        i,
                        j,
                    ),
            decreases h - dy,
        {
            let mut dx: u32 = 0;
            while dx < w
                invariant
                    dx <= w,
                    dy < h,
                    self.wf(),
                    self.spec_width() == old(self).spec_width(),
                    self.spec_height() == old(self).spec_height(),
                    x0 + w <= self.spec_width(),
                    y0 + h <= self.spec_height(),
                    forall|i: int, j: int|
                        x0 <= i < x0 + w && y0 <= j < y0 + dy ==> #[trigger] self.pixel(i, j)
                            == fill,
                    forall|i: int|
                        x0 <= i < x0 + dx ==> #[trigger] self.pixel(i, y0 + dy as int) == fill,
                    forall|i: int, j: int|
                        0 <= i < self.spec_width() && 0 <= j < self.spec_height() && !(x0 <= i < x0
                            + w && y0 <= j < y0 + dy) && !(x0 <= i < x0 + dx && j == y0 + dy)
                            ==> #[trigger] self.pixel(i, j) == old(self).pixel(i, j),
                decreases w - dx,
            {
                self.set(x0 + dx, y0 + dy, fill);
                dx = dx + 1;
            }
            dy = dy + 1;
        }
    }

    /// The canvas bytes in RGBA order, row-major, four per pixel.
    pub open spec fn spec_bytes(self) -> Seq<u8> {
        flatten_pixels(self.pixels@)
    }

    /// Serializes the pixels to interleaved RGBA bytes.
    pub fn to_bytes(&self) -> (b: Vec<u8>)
        ensures
            b@ == self.spec_bytes(),
            b@.len() == 4 * self.pixels@.len(),
    {
        let mut b: Vec<u8> = Vec::new();
        let mut i: usize = 0;
        proof {
            lemma_flatten_pixels_len(self.pixels@.take(0));
            assert(self.pixels@.take(0) =~= Seq::<Rgba>::empty());
            assert(flatten_pixels(self.pixels@.take(0)) =~= Seq::<u8>::empty());
        }
        while i < self.pixels.len()
            invariant
                i <= self.pixels@.len(),
                b@ == flatten_pixels(self.pixels@.take(i as int)),
                b@.len() == 4 * i,
            decreases self.pixels@.len() - i,
        {
            let p = self.pixels[i];
            b.push(p.r);
            b.push(p.g);
            b.push(p.b);
            b.push(p.a);
            proof {
                assert(self.pixels@.take(i + 1).drop_last() == self.pixels@.take(i as int));
                assert(self.pixels@.take(i + 1).last() == p);
                assert(b@ =~= flatten_pixels(self.pixels@.take(i + 1)));
            }
            i = i + 1;
        }
        proof {
            assert(self.pixels@.take(self.pixels@.len() as int) == self.pixels@);
            lemma_flatten_pixels_len(self.pixels@);
        }
        b
    }

    /// Rebuilds a canvas from interleaved RGBA bytes.
    pub fn from_bytes(width: u32, height: u32, bytes: &Vec<u8>) -> (c: PixelCanvas)
        requires
            bytes@.len() == 4 * (width * height),
        ensures
            c.wf(),
            c.spec_width() == width,
            c.spec_height() == height,
            c.spec_bytes() == bytes@,
    {
        let blen: usize = bytes.len();
        let count: usize = blen / 4;
        let mut pixels: Vec<Rgba> = Vec::new();
        let mut i: usize = 0;
        proof {
            assert(pixels@.take(0) =~= Seq::<Rgba>::empty());
            assert(flatten_pixels(pixels@) =~= bytes@.take(0));
        }
        while i < count
            invariant
                i <= count,
                count == (width * height),
                bytes@.len() == 4 * count,
                bytes@.len() <= usize::MAX,
                pixels@.len() == i,
                flatten_pixels(pixels@) =~= bytes@.take(4 * i),
            decreases count - i,
        {
            let p = Rgba {
                r: bytes[4 * i],
                g: bytes[4 * i + 1],
                b: bytes[4 * i + 2],
                a: bytes[4 * i + 3],
            };
            proof {
                lemma_flatten_pixels_len(pixels@);
            }
            let ghost prev = pixels@;
            pixels.push(p);
            proof {
                assert(pixels@.drop_last() =~= prev);
                assert(flatten_pixels(pixels@) == flatten_pixels(pixels@.drop_last()) + seq![
                    p.r,
                    p.g,
                    p.b,
                    p.a,
                ]);
                assert(flatten_pixels(pixels@) =~= bytes@.take(4 * (i + 1)));
            }
            i = i + 1;
        }
        proof {
            assert(bytes@.take(4 * count) == bytes@);
        }
        PixelCanvas { width, height, pixels }
    }
}

/// The interleaved RGBA bytes of a pixel sequence.
pub open spec fn flatten_pixels(ps: Seq<Rgba>) -> Seq<u8>
    decreases ps.len(),
{
    if ps.len() == 0 {
        Seq::<u8>::empty()
    } else {
        flatten_pixels(ps.drop_last()) + seq![
            ps.last().r,
            ps.last().g,
            ps.last().b,
            ps.last().a,
        ]
    }
}

/// The four bytes of pixel `k` sit at offsets `4 * k` through `4 * k + 3`.
pub proof fn lemma_flatten_pixels_index(ps: Seq<Rgba>, k: int)
    requires
        0 <= k < ps.len(),
    ensures
        flatten_pixels(ps)[4 * k] == ps[k].r,
        flatten_pixels(ps)[4 * k + 1] == ps[k].g,
        flatten_pixels(ps)[4 * k + 2] == ps[k].b,
        flatten_pixels(ps)[4 * k + 3] == ps[k].a,
    decreases ps.len(),
{
    lemma_flatten_pixels_len(ps);
    if k == ps.len() - 1 {
        lemma_flatten_pixels_len(ps.drop_last());
    } else {
        lemma_flatten_pixels_len(ps.drop_last());
        lemma_flatten_pixels_index(ps.drop_last(), k);
    }
}

pub proof fn lemma_flatten_pixels_len(ps: Seq<Rgba>)
    ensures
        flatten_pixels(ps).len() == 4 * ps.len(),
    decreases ps.len(),
{
    if ps.len() > 0 {
        lemma_flatten_pixels_len(ps.drop_last());
    }
}

} // verus!
