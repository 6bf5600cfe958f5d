use qr_render::canvas::PixelCanvas;
use qr_render::color::Rgba;
use qr_render::encode::{encode_jpeg, encode_png, encode_webp};
use qr_render::rasterize::OutputFormat;
use qr_render::rasterize::{convert_svg_to_jpeg, convert_svg_to_png, convert_svg_to_webp, svg_to_raster};
use qr_render::{QrError, QrGenerator};

const TWO_RECTS: &str = "<svg xmlns=\"http://www.w3.org/2000/svg\" width=\"8\" height=\"8\" viewBox=\"0 0 8 8\"><rect x=\"0\" y=\"0\" width=\"4\" height=\"8\" fill=\"rgb(255,0,0)\"/><rect x=\"4\" y=\"0\" width=\"4\" height=\"8\" fill=\"#0000FF\"/></svg>";

#[test]
fn convert_two_rects_to_png() {
    let png = convert_svg_to_png(TWO_RECTS, Some(8), Some(8)).unwrap();
    let decoded = image::load_from_memory(&png).unwrap().to_rgba8();
    assert_eq!(decoded.dimensions(), (8, 8));
    assert_eq!(decoded.get_pixel(1, 4).0, [255, 0, 0, 255]);
    assert_eq!(decoded.get_pixel(6, 4).0, [0, 0, 255, 255]);
}

#[test]
fn quality_above_range_clamps_and_succeeds() {
    let jpeg = convert_svg_to_jpeg(TWO_RECTS, Some(8), Some(8), Some(101)).unwrap();
    let decoded = image::load_from_memory(&jpeg).unwrap();
    assert_eq!(decoded.width(), 8);
    assert_eq!(decoded.height(), 8);
}

#[test]
fn jpeg_drops_alpha_and_whitens_uncovered_area() {
    // Only the left half is painted; the right half has no primitive, so in
    // JPEG's opaque-white mode it must come out white.
    let half = "<svg xmlns=\"http://www.w3.org/2000/svg\" width=\"8\" height=\"8\" viewBox=\"0 0 8 8\"><rect x=\"0\" y=\"0\" width=\"4\" height=\"8\" fill=\"rgb(255,0,0)\"/></svg>";
    let jpeg = svg_to_raster(half, Some(8), Some(8), OutputFormat::Jpeg, None).unwrap();
    let decoded = image::load_from_memory(&jpeg).unwrap();
    assert!(!decoded.color().has_alpha());
    let rgb = decoded.to_rgb8();
    let left = rgb.get_pixel(1, 4).0;
    let right = rgb.get_pixel(6, 4).0;
    assert!(left[0] > 180 && left[1] < 90 && left[2] < 90);
    assert!(right[0] > 220 && right[1] > 220 && right[2] > 220);
}

#[test]
fn png_and_webp_keep_alpha_exactly() {
    let mut canvas = PixelCanvas::filled(6, 6, Rgba { r: 0, g: 0, b: 0, a: 0 });
    canvas.set(1, 1, Rgba { r: 10, g: 20, b: 30, a: 77 });
    canvas.set(4, 2, Rgba { r: 200, g: 100, b: 50, a: 128 });
    canvas.set(3, 5, Rgba { r: 5, g: 6, b: 7, a: 255 });
    let bytes = canvas.to_bytes();
    let png = encode_png(6, 6, &bytes).unwrap();
    let webp = encode_webp(6, 6, &bytes).unwrap();
    for encoded in [png, webp] {
        let decoded = image::load_from_memory(&encoded).unwrap().to_rgba8();
        assert_eq!(decoded.dimensions(), (6, 6));
        for y in 0..6u32 {
            for x in 0..6u32 {
                let p = canvas.get(x, y);
                assert_eq!(decoded.get_pixel(x, y).0, [p.r, p.g, p.b, p.a]);
            }
        }
    }
}

#[test]
fn encoders_reject_mismatched_buffers() {
    let bytes: Vec<u8> = vec![0; 13];
    assert!(matches!(encode_png(2, 2, &bytes), Err(QrError::EncodeError)));
    assert!(matches!(encode_webp(2, 2, &bytes), Err(QrError::EncodeError)));
    assert!(matches!(
        encode_jpeg(2, 2, &bytes, 90),
        Err(QrError::EncodeError)
    ));
}

#[test]
fn malformed_svg_reports_rasterize_error() {
    assert!(matches!(
        convert_svg_to_png("not markup", None, None),
        Err(QrError::RasterizeError)
    ));
    assert!(matches!(
        convert_svg_to_png("<svg width=\"0\" height=\"8\"></svg>", None, None),
        Err(QrError::RasterizeError)
    ));
}

#[test]
fn default_resolution_supersamples_twice() {
    let png = convert_svg_to_png(TWO_RECTS, None, None).unwrap();
    let decoded = image::load_from_memory(&png).unwrap();
    assert_eq!(decoded.width(), 16);
    assert_eq!(decoded.height(), 16);
}

#[test]
fn webp_conversion_keeps_transparency() {
    let half = "<svg xmlns=\"http://www.w3.org/2000/svg\" width=\"8\" height=\"8\"><rect x=\"0\" y=\"0\" width=\"4\" height=\"8\" fill=\"rgb(255,0,0)\"/></svg>";
    let webp = convert_svg_to_webp(half, Some(8), Some(8)).unwrap();
    let decoded = image::load_from_memory(&webp).unwrap().to_rgba8();
    assert_eq!(decoded.get_pixel(1, 4).0, [255, 0, 0, 255]);
    assert_eq!(decoded.get_pixel(6, 4).0[3], 0);
}

#[test]
fn decimal_coordinates_are_exact_rationals() {
    // A rect from 1.5 to 6.5: at 16x8 the covered pixel centers are
    // columns 3 through 12.
    let svg = "<svg xmlns=\"http://www.w3.org/2000/svg\" width=\"8\" height=\"8\"><rect width=\"100%\" height=\"100%\" fill=\"#FFFFFF\"/><rect x=\"1.5\" y=\"0\" width=\"5\" height=\"8\" fill=\"#000000\"/></svg>";
    let png = convert_svg_to_png(svg, Some(16), Some(8)).unwrap();
    let decoded = image::load_from_memory(&png).unwrap().to_rgba8();
    for x in 0..16u32 {
        let expected = if (3..=12).contains(&x) { 0 } else { 255 };
        assert_eq!(decoded.get_pixel(x, 4).0[0], expected, "column {}", x);
    }
}

#[test]
fn vector_render_rasterizes_to_matrix_classification() {
    // The serialized document, parsed back and painted at native size,
    // classifies every module center like the matrix.
    let generator = QrGenerator::new("HELLO", 200, 20).unwrap();
    let svg = generator.generate_svg(None, 200).unwrap();
    let png = svg_to_raster(&svg, Some(240), Some(240), OutputFormat::Png, None).unwrap();
    let decoded = image::load_from_memory(&png).unwrap().to_rgba8();
    let n = generator.matrix.side_len() as u64;
    for j in 0..n {
        for i in 0..n {
            let cx = ((2 * (n * 20 + i * 200) + 200) / (2 * n)) as u32;
            let cy = ((2 * (n * 20 + j * 200) + 200) / (2 * n)) as u32;
            let expected = if generator.matrix.is_dark(i as usize, j as usize) {
                [0u8, 0, 0, 255]
            } else {
                [255u8, 255, 255, 255]
            };
            assert_eq!(decoded.get_pixel(cx, cy).0, expected, "cell {} {}", i, j);
        }
    }
}

#[test]
fn parser_roundtrips_generated_markup() {
    let generator = QrGenerator::new("HELLO", 200, 20).unwrap();
    let svg = generator.generate_svg(None, 200).unwrap();
    let doc = qr_render::parse::parse_svg(&svg).unwrap();
    assert_eq!(doc.width_px, 240);
    assert_eq!(doc.height_px, 240);
    assert_eq!(doc.den as usize, generator.matrix.side_len());
    let rewritten = qr_render::svgtext::doc_to_svg(&doc);
    assert_eq!(rewritten, svg);
}

#[test]
fn parser_accepts_declaration_and_whitespace() {
    let svg = "<?xml version=\"1.0\"?>\n <svg xmlns=\"http://www.w3.org/2000/svg\" width=\"4\" height=\"4\">\n  <rect x=\"0\" y=\"0\" width=\"2\" height=\"2\" fill=\"#FF0000\"/>\n </svg>\n";
    let doc = qr_render::parse::parse_svg(svg).unwrap();
    assert_eq!(doc.width_px, 4);
    assert_eq!(doc.den, 1);
}

#[test]
fn parser_rejects_inconsistent_view_box() {
    // The view box must be an integer multiple of the pixel size.
    let svg = "<svg xmlns=\"http://www.w3.org/2000/svg\" width=\"8\" height=\"8\" viewBox=\"0 0 20 16\"></svg>";
    assert!(matches!(
        qr_render::parse::parse_svg(svg),
        Err(QrError::RasterizeError)
    ));
}

#[test]
fn svg_with_logo_survives_the_raster_path() {
    // The embedded reference must round-trip through markup, the parser and
    // the rasterizer without rejecting the ratio bounds.
    let generator = QrGenerator::new("HELLO", 200, 20).unwrap();
    let logo_img = image::RgbaImage::from_pixel(3, 3, image::Rgba([250, 10, 10, 255]));
    let mut logo: Vec<u8> = Vec::new();
    let mut cursor = std::io::Cursor::new(&mut logo);
    logo_img.write_to(&mut cursor, image::ImageFormat::Png).unwrap();
    assert!(matches!(
        generator.generate_svg(Some(&logo), 1000),
        Err(QrError::InvalidRatio)
    ));
    let svg = generator.generate_svg(Some(&logo), 990).unwrap();
    let png = svg_to_raster(&svg, Some(240), Some(240), OutputFormat::Png, None).unwrap();
    let decoded = image::load_from_memory(&png).unwrap().to_rgba8();
    let center = decoded.get_pixel(120, 120).0;
    assert!(center[0] > 200 && center[1] < 60 && center[2] < 60);
}

#[test]
fn rasterizer_draws_embedded_logo() {
    let generator = QrGenerator::new("HELLO", 200, 20).unwrap();
    let logo_img = image::RgbaImage::from_pixel(4, 4, image::Rgba([0, 200, 0, 255]));
    let mut logo: Vec<u8> = Vec::new();
    let mut cursor = std::io::Cursor::new(&mut logo);
    logo_img.write_to(&mut cursor, image::ImageFormat::Png).unwrap();
    let svg = generator.generate_svg(Some(&logo), 200).unwrap();
    let png = svg_to_raster(&svg, Some(240), Some(240), OutputFormat::Png, None).unwrap();
    let decoded = image::load_from_memory(&png).unwrap().to_rgba8();
    assert_eq!(decoded.get_pixel(120, 120).0, [0, 200, 0, 255]);
}
