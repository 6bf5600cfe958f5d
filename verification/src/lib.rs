use vstd::prelude::*;

pub mod color;
pub mod layout;
pub mod matrix;
pub mod canvas;
pub mod raster;
pub mod vector;
pub mod qr;
pub mod svgtext;
pub mod logo;
pub mod encode;
pub mod rasterize;
pub mod parse;
pub mod laws;

verus! {

/// Every way a render request can fail, one variant per pipeline stage.
#[derive(Clone, Copy, PartialEq, Eq, Structural, Debug)]
pub enum QrError {
    /// The layout inputs admit no module grid (zero sizes, or a grid wider
    /// than the target).
    InvalidGeometry,
    /// A color string is not `#RRGGBB`.
    InvalidColorFormat,
    /// The logo bytes are not a supported image encoding.
    LogoDecodeError,
    /// The logo size ratio is zero, or the scaled logo would not fit the
    /// canvas.
    InvalidRatio,
    /// A vector document could not be parsed or painted at the requested
    /// resolution.
    RasterizeError,
    /// A pixel buffer did not match its declared dimensions, or serializing
    /// it failed.
    EncodeError,
    /// The external matrix encoder rejected the text.
    MatrixEncodingError,
}

/// One QR render in progress: the encoded matrix plus the request's size,
/// margin and colors. `size` is the side of the content area; every output
/// canvas is `size + 2 * margin` pixels square.
pub struct QrGenerator {
    pub matrix: crate::matrix::ModuleMatrix,
    pub size: u32,
    pub margin: u32,
    pub background_color: crate::color::Rgba,
    pub foreground_color: crate::color::Rgba,
}

impl QrGenerator {
    /// A generator is well formed when its matrix is and its canvas fits the
    /// machine's integer sizes.
    pub open spec fn wf(self) -> bool {
        &&& self.matrix.wf()
        &&& self.matrix.side() <= u32::MAX
        &&& self.size + 2 * self.margin <= u32::MAX
        &&& 4 * ((self.size + 2 * self.margin) * (self.size + 2 * self.margin)) <= usize::MAX
    }

    /// The canvas side every output of this generator has.
    pub open spec fn total_size(self) -> int {
        self.size + 2 * self.margin
    }

    /// Encodes the text at medium error correction and remembers the render
    /// parameters, with the default black-on-white colors.
    pub fn new(text: &str, size: u32, margin: u32) -> (r: Result<QrGenerator, QrError>)
        requires
            size + 2 * margin <= u32::MAX,
            4 * ((size + 2 * margin) * (size + 2 * margin)) <= usize::MAX,
        ensures
            r is Ok <==> crate::qr::qr_encodable(text@, crate::qr::EcLevel::M.code()),
            r is Ok ==> ({
                let g = r->Ok_0;
                g.wf() && g.size == size && g.margin == margin && g.background_color == (
                crate::color::Rgba { r: 255, g: 255, b: 255, a: 255 }) && g.foreground_color == (
                crate::color::Rgba { r: 0, g: 0, b: 0, a: 255 }) && (
                g.matrix.side(),
                g.matrix.cells@,
                ) == crate::qr::qr_modules(text@, crate::qr::EcLevel::M.code())
            }),
            r is Err ==> r == Err::<QrGenerator, QrError>(QrError::MatrixEncodingError),
    {
        Self::with_level(text, size, margin, crate::qr::EcLevel::M)
    }

    /// As `new`, at a chosen error-correction level.
    pub fn with_level(text: &str, size: u32, margin: u32, level: crate::qr::EcLevel) -> (r: Result<
        QrGenerator,
        QrError,
    >)
        requires
            size + 2 * margin <= u32::MAX,
            4 * ((size + 2 * margin) * (size + 2 * margin)) <= usize::MAX,
        ensures
            r is Ok <==> crate::qr::qr_encodable(text@, level.code()),
            r is Ok ==> ({
                let g = r->Ok_0;
                g.wf() && g.size == size && g.margin == margin && g.background_color == (
                crate::color::Rgba { r: 255, g: 255, b: 255, a: 255 }) && g.foreground_color == (
                crate::color::Rgba { r: 0, g: 0, b: 0, a: 255 }) && (
                g.matrix.side(),
                g.matrix.cells@,
                ) == crate::qr::qr_modules(text@, level.code())
            }),
            r is Err ==> r == Err::<QrGenerator, QrError>(QrError::MatrixEncodingError),
    {
        let matrix = match crate::qr::encode_matrix(text, level) {
            Ok(m) => m,
            Err(e) => { return Err(e) },
        };
        Ok(
            QrGenerator {
                matrix,
                size,
                margin,
                background_color: crate::color::white(),
                foreground_color: crate::color::black(),
            },
        )
    }

    /// Replaces both render colors.
    pub fn set_colors(&mut self, bg: crate::color::Rgba, fg: crate::color::Rgba)
        ensures
            *final(self) == (QrGenerator {
                background_color: bg,
                foreground_color: fg,
                ..*old(self)
            }),
    {
        self.background_color = bg;
        self.foreground_color = fg;
    }

    /// The colors as one pair.
    pub open spec fn spec_colors(self) -> crate::color::ColorPair {
        crate::color::ColorPair {
            background: self.background_color,
            foreground: self.foreground_color,
        }
    }

    /// Paints the module grid into a fresh pixel canvas. Fails with
    /// `InvalidGeometry` exactly when the content area is narrower than the
    /// module grid. On success every pixel is classified by
    /// `raster_pixel_color` over the truncating layout.
    pub fn generate_image(&self) -> (r: Result<crate::canvas::PixelCanvas, QrError>)
        requires
            self.wf(),
        ensures
            r is Ok <==> self.matrix.side() <= self.size,
            r is Err ==> r == Err::<crate::canvas::PixelCanvas, QrError>(QrError::InvalidGeometry),
            r is Ok ==> ({
                let c = r->Ok_0;
                let g = crate::layout::layout_of(self.matrix.side() as u32, self.size, self.margin);
                c.wf() && c.spec_width() == self.total_size() && c.spec_height()
                    == self.total_size() && forall|x: int, y: int|
                    0 <= x < self.total_size() && 0 <= y < self.total_size()
                        ==> #[trigger] c.pixel(x, y) == crate::raster::raster_pixel_color(
                        self.matrix,
                        g,
                        self.spec_colors(),
                        x,
                        y,
                    )
            }),
    {
        let n: usize = self.matrix.side_len();
        let geometry = match crate::layout::compute(n as u32, self.size, self.margin) {
            Ok(g) => g,
            Err(_) => { return Err(QrError::InvalidGeometry) },
        };
        let colors = crate::color::ColorPair {
            background: self.background_color,
            foreground: self.foreground_color,
        };
        Ok(crate::raster::render(&self.matrix, &geometry, &colors))
    }

    /// The truncating layout of this generator's request.
    pub open spec fn spec_layout(self) -> crate::layout::LayoutGeometry {
        crate::layout::layout_of(self.matrix.side() as u32, self.size, self.margin)
    }

    /// Composites the decoded logo centered onto a rendered canvas, scaled
    /// to `floor(canvas_size * ratio)` with the ratio in thousandths.
    /// Pixels outside the logo's footprint keep their value.
    pub fn add_logo(
        &self,
        img: crate::canvas::PixelCanvas,
        logo_bytes: &Vec<u8>,
        logo_size_ratio: u32,
    ) -> (r: Result<crate::canvas::PixelCanvas, QrError>)
        requires
            img.wf(),
            img.spec_width() == img.spec_height(),
            4 * (img.spec_width() * img.spec_width()) <= usize::MAX,
        ensures
            r is Ok <==> crate::logo::decodable(logo_bytes@) && crate::logo::ratio_ok(
                img.spec_width(),
                logo_size_ratio as int,
            ),
            !crate::logo::decodable(logo_bytes@) ==> r == Err::<crate::canvas::PixelCanvas, QrError>(
                QrError::LogoDecodeError,
            ),
            crate::logo::decodable(logo_bytes@) && !crate::logo::ratio_ok(
                img.spec_width(),
                logo_size_ratio as int,
            ) ==> r == Err::<crate::canvas::PixelCanvas, QrError>(QrError::InvalidRatio),
            r is Ok ==> ({
                let c = r->Ok_0;
                let cs = img.spec_width();
                let ls = crate::logo::logo_size_of(cs, logo_size_ratio as int);
                let off = crate::logo::center_offset(cs, ls);
                let dec = crate::logo::decoded_rgba(logo_bytes@);
                &&& c.wf()
                &&& c.spec_width() == cs
                &&& c.spec_height() == cs
                &&& c.spec_bytes() == crate::logo::overlaid(
                    img.spec_bytes(),
                    cs,
                    cs,
                    crate::logo::resampled(dec.2, dec.0, dec.1, ls, ls),
                    ls,
                    ls,
                    off,
                    off,
                )
                &&& forall|i: int, j: int|
                    0 <= i < cs && 0 <= j < cs && !(off <= i < off + ls && off <= j < off + ls)
                        ==> #[trigger] c.pixel(i, j) == img.pixel(i, j)
            }),
    {
        img.overlay_logo(logo_bytes, logo_size_ratio)
    }

    /// Describes the module grid as markup: the exact module rectangles over
    /// the canvas, and, when a logo is given, one centered embedded image
    /// reference after them.
    pub fn generate_svg(&self, logo_bytes: Option<&Vec<u8>>, logo_size_ratio: u32) -> (r: Result<
        String,
        QrError,
    >)
        requires
            self.wf(),
        ensures
            self.size < self.matrix.side() ==> r == Err::<String, QrError>(
                QrError::InvalidGeometry,
            ),
            r is Ok ==> self.matrix.side() <= self.size,
            logo_bytes is None ==> (r is Ok <==> self.matrix.side() <= self.size),
            logo_bytes is None && r is Ok ==> r->Ok_0@ == crate::svgtext::svg_text_of(
                self.total_size(),
                self.total_size(),
                self.matrix.side(),
                crate::vector::vector_prims(self.matrix, self.spec_layout(), self.spec_colors()),
            ),
            logo_bytes is Some ==> ({
                let n = self.matrix.side();
                let ts = self.total_size();
                let ls = crate::logo::logo_size_of(ts, logo_size_ratio as int);
                let off = crate::logo::center_offset(ts, ls);
                &&& (r is Ok <==> n <= self.size && crate::logo::decodable(logo_bytes->0@)
                    && crate::logo::ratio_ok(ts, logo_size_ratio as int))
                &&& (n <= self.size && !crate::logo::decodable(logo_bytes->0@) ==> r == Err::<
                    String,
                    QrError,
                >(QrError::LogoDecodeError))
                &&& (n <= self.size && crate::logo::decodable(logo_bytes->0@)
                    && !crate::logo::ratio_ok(ts, logo_size_ratio as int) ==> r == Err::<
                    String,
                    QrError,
                >(QrError::InvalidRatio))
                &&& (r is Ok ==> crate::logo::ratio_ok(ts, logo_size_ratio as int)
                    && r->Ok_0@ == crate::svgtext::svg_open_text(ts, ts, n) + crate::svgtext::prims_text(
                    crate::vector::vector_prims(self.matrix, self.spec_layout(), self.spec_colors()),
                ) + crate::svgtext::image_ref_text(
                    off * n,
                    off * n,
                    ls * n,
                    ls * n,
                    logo_bytes->0@,
                ) + "</svg>"@)
            }),
    {
        let n: usize = self.matrix.side_len();
        let geometry = match crate::layout::compute(n as u32, self.size, self.margin) {
            Ok(g) => g,
            Err(_) => { return Err(QrError::InvalidGeometry) },
        };
        let colors = crate::color::ColorPair {
            background: self.background_color,
            foreground: self.foreground_color,
        };
        let doc = crate::vector::render(&self.matrix, &geometry, &colors);
        match logo_bytes {
            None => Ok(crate::svgtext::doc_to_svg(&doc)),
            Some(bytes) => {
                let ghost base = doc.prims@;
                let with_logo = match doc.overlay_logo(bytes, logo_size_ratio) {
                    Ok(d) => d,
                    Err(e) => { return Err(e) },
                };
                let s = crate::svgtext::doc_to_svg(&with_logo);
                proof {
                    let last = with_logo.prims@.last();
                    assert(with_logo.prims@ =~= base.push(last));
                    crate::svgtext::lemma_prims_text_snoc(base, last);
                }
                Ok(s)
            },
        }
    }

    /// Renders the module grid to pixels, composites the optional logo, and
    /// serializes the canvas as lossless PNG.
    pub fn generate_png(&self, logo_bytes: Option<&Vec<u8>>, logo_size_ratio: u32) -> (r: Result<
        Vec<u8>,
        QrError,
    >)
        requires
            self.wf(),
        ensures
            self.size < self.matrix.side() ==> r == Err::<Vec<u8>, QrError>(
                QrError::InvalidGeometry,
            ),
            r is Ok ==> self.matrix.side() <= self.size,
            logo_bytes is None ==> (r is Ok <==> self.matrix.side() <= self.size
                && crate::encode::png_ok(
                self.total_size(),
                self.total_size(),
                crate::raster::raster_bytes(self.matrix, self.spec_layout(), self.spec_colors()),
            )),
            logo_bytes is None && self.matrix.side() <= self.size && r is Err ==> r == Err::<
                Vec<u8>,
                QrError,
            >(QrError::EncodeError),
            logo_bytes is None && r is Ok ==> r->Ok_0@ == crate::encode::png_bytes(
                self.total_size(),
                self.total_size(),
                crate::raster::raster_bytes(self.matrix, self.spec_layout(), self.spec_colors()),
            ),
            logo_bytes is Some ==> ({
                let ts = self.total_size();
                let ls = crate::logo::logo_size_of(ts, logo_size_ratio as int);
                let off = crate::logo::center_offset(ts, ls);
                let dec = crate::logo::decoded_rgba(logo_bytes->0@);
                let composited = crate::logo::overlaid(
                    crate::raster::raster_bytes(
                        self.matrix,
                        self.spec_layout(),
                        self.spec_colors(),
                    ),
                    ts,
                    ts,
                    crate::logo::resampled(dec.2, dec.0, dec.1, ls, ls),
                    ls,
                    ls,
                    off,
                    off,
                );
                &&& (r is Ok <==> self.matrix.side() <= self.size && crate::logo::decodable(
                    logo_bytes->0@,
                ) && crate::logo::ratio_ok(ts, logo_size_ratio as int) && crate::encode::png_ok(
                    ts,
                    ts,
                    composited,
                ))
                &&& (self.matrix.side() <= self.size && !crate::logo::decodable(logo_bytes->0@)
                    ==> r == Err::<Vec<u8>, QrError>(QrError::LogoDecodeError))
                &&& (self.matrix.side() <= self.size && crate::logo::decodable(logo_bytes->0@)
                    && !crate::logo::ratio_ok(ts, logo_size_ratio as int) ==> r == Err::<
                    Vec<u8>,
                    QrError,
                >(QrError::InvalidRatio))
                &&& (self.matrix.side() <= self.size && crate::logo::decodable(logo_bytes->0@)
                    && crate::logo::ratio_ok(ts, logo_size_ratio as int) && r is Err ==> r == Err::<
                    Vec<u8>,
                    QrError,
                >(QrError::EncodeError))
                &&& (r is Ok ==> crate::logo::ratio_ok(ts, logo_size_ratio as int)
                    && r->Ok_0@ == crate::encode::png_bytes(
                    ts,
                    ts,
                    crate::logo::overlaid(
                        crate::raster::raster_bytes(
                            self.matrix,
                            self.spec_layout(),
                            self.spec_colors(),
                        ),
                        ts,
                        ts,
                        crate::logo::resampled(dec.2, dec.0, dec.1, ls, ls),
                        ls,
                        ls,
                        off,
                        off,
                    ),
                ))
            }),
    {
        let mut img = match self.generate_image() {
            Ok(c) => c,
            Err(e) => { return Err(e) },
        };
        proof {
            crate::raster::lemma_raster_canvas_bytes(
                img,
                self.matrix,
                self.spec_layout(),
                self.spec_colors(),
            );
        }
        if let Some(bytes) = logo_bytes {
            img = match self.add_logo(img, bytes, logo_size_ratio) {
                Ok(c) => c,
                Err(e) => { return Err(e) },
            };
        }
        let total = self.size + 2 * self.margin;
        let data = img.to_bytes();
        crate::encode::encode_png(total, total, &data)
    }
}

/// One render request: the text and every optional knob, with the defaults
/// the pipeline fills in. The logo arrives as already-loaded encoded bytes;
/// its size ratio is given in thousandths of the canvas side.
pub struct QrOptions {
    pub text: String,
    pub size: Option<u32>,
    pub margin: Option<u32>,
    pub logo_bytes: Option<Vec<u8>>,
    pub logo_size_ratio: Option<u32>,
    pub background_color: Option<String>,
    pub foreground_color: Option<String>,
    pub error_correction: Option<crate::qr::EcLevel>,
}

/// What one request produces: the markup, the PNG bytes, and the shared
/// canvas size.
pub struct QrResult {
    pub svg: Option<String>,
    pub png: Option<Vec<u8>>,
    pub width: u32,
    pub height: u32,
}

/// The content size of a request, defaulted to 200.
pub open spec fn req_size(o: QrOptions) -> u32 {
    match o.size {
        Some(v) => v,
        None => 200,
    }
}

/// The margin of a request, defaulted to 20.
pub open spec fn req_margin(o: QrOptions) -> u32 {
    match o.margin {
        Some(v) => v,
        None => 20,
    }
}

/// The logo ratio of a request in thousandths, defaulted to 200.
pub open spec fn req_ratio(o: QrOptions) -> u32 {
    match o.logo_size_ratio {
        Some(v) => v,
        None => 200,
    }
}

/// The error-correction tag of a request, defaulted to medium.
pub open spec fn req_ec(o: QrOptions) -> int {
    match o.error_correction {
        Some(l) => l.code(),
        None => crate::qr::EcLevel::M.code(),
    }
}

/// The background a request asks for; white unless a valid color string is
/// given.
pub open spec fn req_background(o: QrOptions) -> crate::color::Rgba {
    match o.background_color {
        Some(s) => if crate::color::is_color_string(s@) {
            crate::color::color_of_string(s@)
        } else {
            crate::color::Rgba { r: 255, g: 255, b: 255, a: 255 }
        },
        None => crate::color::Rgba { r: 255, g: 255, b: 255, a: 255 },
    }
}

/// The foreground a request asks for; black unless a valid color string is
/// given.
pub open spec fn req_foreground(o: QrOptions) -> crate::color::Rgba {
    match o.foreground_color {
        Some(s) => if crate::color::is_color_string(s@) {
            crate::color::color_of_string(s@)
        } else {
            crate::color::Rgba { r: 0, g: 0, b: 0, a: 255 }
        },
        None => crate::color::Rgba { r: 0, g: 0, b: 0, a: 255 },
    }
}

/// Whether every color string the request carries is a valid `#RRGGBB`
/// form.
pub open spec fn colors_ok(o: QrOptions) -> bool {
    &&& (o.background_color matches Some(s) ==> crate::color::is_color_string(s@))
    &&& (o.foreground_color matches Some(s) ==> crate::color::is_color_string(s@))
}

/// Both request colors as one pair.
pub open spec fn req_colors(o: QrOptions) -> crate::color::ColorPair {
    crate::color::ColorPair { background: req_background(o), foreground: req_foreground(o) }
}

/// Runs the whole pipeline for one request: encode the text, parse the
/// colors, render the markup and the PNG, and report the shared canvas
/// size. A malformed color string stops the request with
/// `InvalidColorFormat` before any rendering.
pub fn generate_qr(options: QrOptions) -> (r: Result<QrResult, QrError>)
    requires
        req_size(options) + 2 * req_margin(options) <= u32::MAX,
        4 * ((req_size(options) + 2 * req_margin(options)) * (req_size(options) + 2 * req_margin(
            options,
        ))) <= usize::MAX,
    ensures
        !crate::qr::qr_encodable(options.text@, req_ec(options)) ==> r == Err::<QrResult, QrError>(
            QrError::MatrixEncodingError,
        ),
        crate::qr::qr_encodable(options.text@, req_ec(options)) && !colors_ok(options) ==> r
            == Err::<QrResult, QrError>(QrError::InvalidColorFormat),
        crate::qr::qr_encodable(options.text@, req_ec(options)) && colors_ok(options)
            && crate::qr::qr_modules(options.text@, req_ec(options)).0 > req_size(options) ==> r
            == Err::<QrResult, QrError>(QrError::InvalidGeometry),
        crate::qr::qr_encodable(options.text@, req_ec(options)) && colors_ok(options)
            && crate::qr::qr_modules(options.text@, req_ec(options)).0 <= req_size(options)
            && options.logo_bytes is Some && !crate::logo::decodable(options.logo_bytes->0@) ==> r
            == Err::<QrResult, QrError>(QrError::LogoDecodeError),
        crate::qr::qr_encodable(options.text@, req_ec(options)) && colors_ok(options)
            && crate::qr::qr_modules(options.text@, req_ec(options)).0 <= req_size(options)
            && options.logo_bytes is Some && crate::logo::decodable(options.logo_bytes->0@)
            && !crate::logo::ratio_ok(
            req_size(options) + 2 * req_margin(options),
            req_ratio(options) as int,
        ) ==> r == Err::<QrResult, QrError>(QrError::InvalidRatio),
        crate::qr::qr_encodable(options.text@, req_ec(options)) && colors_ok(options)
            && crate::qr::qr_modules(options.text@, req_ec(options)).0 <= req_size(options) && (
        options.logo_bytes is None || (crate::logo::decodable(options.logo_bytes->0@)
            && crate::logo::ratio_ok(
            req_size(options) + 2 * req_margin(options),
            req_ratio(options) as int,
        ))) && r is Err ==> r == Err::<QrResult, QrError>(QrError::EncodeError),
        options.logo_bytes is None ==> (r is Ok <==> crate::qr::qr_encodable(
            options.text@,
            req_ec(options),
        ) && colors_ok(options) && crate::qr::qr_modules(options.text@, req_ec(options)).0
            <= req_size(options) && (exists|m: crate::matrix::ModuleMatrix|
            {
                let ts = req_size(options) + 2 * req_margin(options);
                &&& (#[trigger] m.side(), m.cells@) == crate::qr::qr_modules(
                    options.text@,
                    req_ec(options),
                )
                &&& m.wf()
                &&& crate::encode::png_ok(
                    ts as int,
                    ts as int,
                    crate::raster::raster_bytes(
                        m,
                        crate::layout::layout_of(
                            m.side() as u32,
                            req_size(options),
                            req_margin(options),
                        ),
                        req_colors(options),
                    ),
                )
            })),
        options.logo_bytes is Some ==> (r is Ok <==> crate::qr::qr_encodable(
            options.text@,
            req_ec(options),
        ) && colors_ok(options) && crate::qr::qr_modules(options.text@, req_ec(options)).0
            <= req_size(options) && crate::logo::decodable(options.logo_bytes->0@)
            && crate::logo::ratio_ok(
            req_size(options) + 2 * req_margin(options),
            req_ratio(options) as int,
        ) && (exists|m: crate::matrix::ModuleMatrix|
            {
                let ts = req_size(options) + 2 * req_margin(options);
                let ls = crate::logo::logo_size_of(ts as int, req_ratio(options) as int);
                let off = crate::logo::center_offset(ts as int, ls);
                let dec = crate::logo::decoded_rgba(options.logo_bytes->0@);
                &&& (#[trigger] m.side(), m.cells@) == crate::qr::qr_modules(
                    options.text@,
                    req_ec(options),
                )
                &&& m.wf()
                &&& crate::encode::png_ok(
                    ts as int,
                    ts as int,
                    crate::logo::overlaid(
                        crate::raster::raster_bytes(
                            m,
                            crate::layout::layout_of(
                                m.side() as u32,
                                req_size(options),
                                req_margin(options),
                            ),
                            req_colors(options),
                        ),
                        ts as int,
                        ts as int,
                        crate::logo::resampled(dec.2, dec.0, dec.1, ls, ls),
                        ls,
                        ls,
                        off,
                        off,
                    ),
                )
            })),
        r is Ok ==> ({
            let out = r->Ok_0;
            let ts = req_size(options) + 2 * req_margin(options);
            &&& out.width == ts
            &&& out.height == ts
            &&& out.svg is Some
            &&& out.png is Some
            &&& (options.background_color matches Some(s) ==> crate::color::is_color_string(s@))
            &&& (options.foreground_color matches Some(s) ==> crate::color::is_color_string(s@))
            &&& (options.logo_bytes is Some ==> crate::logo::ratio_ok(
                ts as int,
                req_ratio(options) as int,
            ))
        }),
        r is Ok && options.logo_bytes is Some ==> exists|m: crate::matrix::ModuleMatrix|
            {
                let ts = req_size(options) + 2 * req_margin(options);
                let g = crate::layout::layout_of(
                    m.side() as u32,
                    req_size(options),
                    req_margin(options),
                );
                let colors = crate::color::ColorPair {
                    background: req_background(options),
                    foreground: req_foreground(options),
                };
                let ls = crate::logo::logo_size_of(ts as int, req_ratio(options) as int);
                let off = crate::logo::center_offset(ts as int, ls);
                let dec = crate::logo::decoded_rgba(options.logo_bytes->0@);
                &&& m.wf()
                &&& (#[trigger] m.side(), m.cells@) == crate::qr::qr_modules(
                    options.text@,
                    req_ec(options),
                )
                &&& m.side() <= req_size(options)
                &&& r->Ok_0.svg->0@ == crate::svgtext::svg_open_text(ts as int, ts as int, m.side())
                    + crate::svgtext::prims_text(crate::vector::vector_prims(m, g, colors))
                    + crate::svgtext::image_ref_text(
                    off * m.side(),
                    off * m.side(),
                    ls * m.side(),
                    ls * m.side(),
                    options.logo_bytes->0@,
                ) + "</svg>"@
                &&& r->Ok_0.png->0@ == crate::encode::png_bytes(
                    ts as int,
                    ts as int,
                    crate::logo::overlaid(
                        crate::raster::raster_bytes(m, g, colors),
                        ts as int,
                        ts as int,
                        crate::logo::resampled(dec.2, dec.0, dec.1, ls, ls),
                        ls,
                        ls,
                        off,
                        off,
                    ),
                )
            },
        r is Ok && options.logo_bytes is None ==> exists|m: crate::matrix::ModuleMatrix|
            {
                let ts = req_size(options) + 2 * req_margin(options);
                let g = crate::layout::layout_of(
                    m.side() as u32,
                    req_size(options),
                    req_margin(options),
                );
                let colors = crate::color::ColorPair {
                    background: req_background(options),
                    foreground: req_foreground(options),
                };
                &&& m.wf()
                &&& (#[trigger] m.side(), m.cells@) == crate::qr::qr_modules(
                    options.text@,
                    req_ec(options),
                )
                &&& m.side() <= req_size(options)
                &&& r->Ok_0.svg->0@ == crate::svgtext::svg_text_of(
                    ts as int,
                    ts as int,
                    m.side(),
                    crate::vector::vector_prims(m, g, colors),
                )
                &&& r->Ok_0.png->0@ == crate::encode::png_bytes(
                    ts as int,
                    ts as int,
                    crate::raster::raster_bytes(m, g, colors),
                )
            },
{
    let size: u32 = match options.size {
        Some(v) => v,
        None => 200,
    };
    let margin: u32 = match options.margin {
        Some(v) => v,
        None => 20,
    };
    let ratio: u32 = match options.logo_size_ratio {
        Some(v) => v,
        None => 200,
    };
    let level = match options.error_correction {
        Some(l) => l,
        None => crate::qr::EcLevel::M,
    };
    let mut generator = match QrGenerator::with_level(options.text.as_str(), size, margin, level) {
        Ok(g) => g,
        Err(e) => { return Err(e) },
    };
    let bg = match &options.background_color {
        Some(s) => match crate::color::parse_color(s.as_str()) {
            Ok(c) => c,
            Err(e) => { return Err(e) },
        },
        None => crate::color::white(),
    };
    let fg = match &options.foreground_color {
        Some(s) => match crate::color::parse_color(s.as_str()) {
            Ok(c) => c,
            Err(e) => { return Err(e) },
        },
        None => crate::color::black(),
    };
    generator.set_colors(bg, fg);
    proof {
        assert(generator.spec_colors() == req_colors(options));
        assert(generator.size == req_size(options) && generator.margin == req_margin(options));
        assert((generator.matrix.side(), generator.matrix.cells@) == crate::qr::qr_modules(
            options.text@,
            req_ec(options),
        ));
        assert forall|m: crate::matrix::ModuleMatrix|
            (m.side(), m.cells@) == crate::qr::qr_modules(
                options.text@,
                req_ec(options),
            ) implies #[trigger] crate::raster::raster_bytes(
            m,
            crate::layout::layout_of(m.side() as u32, req_size(options), req_margin(options)),
            req_colors(options),
        ) == crate::raster::raster_bytes(
            generator.matrix,
            generator.spec_layout(),
            generator.spec_colors(),
        ) by {
            assert(m.side() == generator.matrix.side() && m.cells@ == generator.matrix.cells@);
            crate::raster::lemma_raster_bytes_same_view(
                m,
                generator.matrix,
                generator.spec_layout(),
                generator.spec_colors(),
            );
        }
    }
    let logo_ref: Option<&Vec<u8>> = match &options.logo_bytes {
        Some(b) => Some(b),
        None => None,
    };
    let svg = match generator.generate_svg(logo_ref, ratio) {
        Ok(s) => s,
        Err(e) => { return Err(e) },
    };
    let png = match generator.generate_png(logo_ref, ratio) {
        Ok(p) => p,
        Err(e) => { return Err(e) },
    };
    let total: u32 = size + 2 * margin;
    let out = QrResult { svg: Some(svg), png: Some(png), width: total, height: total };
    proof {
        assert((generator.matrix.side(), generator.matrix.cells@) == crate::qr::qr_modules(
            options.text@,
            req_ec(options),
        ));
    }
    Ok(out)
}

} // verus!
