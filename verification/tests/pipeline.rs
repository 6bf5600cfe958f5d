use qr_render::canvas::PixelCanvas;
use qr_render::color::{parse_color, Rgba};
use qr_render::layout::compute;
use qr_render::qr::EcLevel;
use qr_render::{generate_qr, QrError, QrGenerator, QrOptions};

fn default_options(text: &str) -> QrOptions {
    QrOptions {
        text: String::from(text),
        size: None,
        margin: None,
        logo_bytes: None,
        logo_size_ratio: None,
        background_color: None,
        foreground_color: None,
        error_correction: None,
    }
}

fn tiny_png(width: u32, height: u32, pixel: [u8; 4]) -> Vec<u8> {
    let img = image::RgbaImage::from_pixel(width, height, image::Rgba(pixel));
    let mut out: Vec<u8> = Vec::new();
    let mut cursor = std::io::Cursor::new(&mut out);
    img.write_to(&mut cursor, image::ImageFormat::Png).unwrap();
    out
}

#[test]
fn layout_basic() {
    let g = compute(21, 200, 20).unwrap();
    assert_eq!(g.module_size, 9);
    assert_eq!(g.canvas_size, 240);
    assert_eq!(g.margin, 20);
}

#[test]
fn layout_min_inputs() {
    let g = compute(1, 1, 0).unwrap();
    assert_eq!(g.module_size, 1);
    assert_eq!(g.canvas_size, 1);
}

#[test]
fn layout_rejects_zero_modules() {
    assert_eq!(compute(0, 200, 20), Err(QrError::InvalidGeometry));
}

#[test]
fn layout_rejects_small_target() {
    assert_eq!(compute(21, 20, 0), Err(QrError::InvalidGeometry));
    assert_eq!(compute(21, 0, 10), Err(QrError::InvalidGeometry));
}

#[test]
fn color_parses_hex() {
    assert_eq!(
        parse_color("#FF00ff"),
        Ok(Rgba { r: 255, g: 0, b: 255, a: 255 })
    );
    assert_eq!(
        parse_color("#000000"),
        Ok(Rgba { r: 0, g: 0, b: 0, a: 255 })
    );
    assert_eq!(
        parse_color("#1a2B3c"),
        Ok(Rgba { r: 0x1a, g: 0x2b, b: 0x3c, a: 255 })
    );
}

#[test]
fn color_rejects_other_forms() {
    assert_eq!(parse_color("red"), Err(QrError::InvalidColorFormat));
    assert_eq!(parse_color("#12345"), Err(QrError::InvalidColorFormat));
    assert_eq!(parse_color("#GG0000"), Err(QrError::InvalidColorFormat));
    assert_eq!(parse_color("112233#"), Err(QrError::InvalidColorFormat));
    assert_eq!(parse_color(""), Err(QrError::InvalidColorFormat));
    assert_eq!(parse_color("#+1+2+3"), Err(QrError::InvalidColorFormat));
}

#[test]
fn hello_request_has_expected_size() {
    let out = generate_qr(default_options("HELLO")).unwrap();
    assert_eq!(out.width, 240);
    assert_eq!(out.height, 240);
    assert!(out.svg.is_some());
    assert!(out.png.is_some());
}

#[test]
fn hello_matrix_matches_external_encoder() {
    let generator = QrGenerator::new("HELLO", 200, 20).unwrap();
    let code = qrcode::QrCode::new("HELLO").unwrap();
    assert_eq!(generator.matrix.side_len(), code.width());
    let expected_dark = code
        .to_colors()
        .iter()
        .filter(|c| **c == qrcode::Color::Dark)
        .count();
    assert_eq!(generator.matrix.dark_count(), expected_dark);
}

#[test]
fn invalid_color_stops_request() {
    let mut options = default_options("HELLO");
    options.background_color = Some(String::from("red"));
    assert!(matches!(
        generate_qr(options),
        Err(QrError::InvalidColorFormat)
    ));
    let mut options = default_options("HELLO");
    options.foreground_color = Some(String::from("#12"));
    assert!(matches!(
        generate_qr(options),
        Err(QrError::InvalidColorFormat)
    ));
}

#[test]
fn invalid_geometry_stops_request() {
    let mut options = default_options("HELLO");
    options.size = Some(10);
    assert!(matches!(generate_qr(options), Err(QrError::InvalidGeometry)));
}

#[test]
fn too_long_text_reports_encoding_error() {
    let text: String = std::iter::repeat('A').take(8000).collect();
    let options = default_options(&text);
    assert!(matches!(
        generate_qr(options),
        Err(QrError::MatrixEncodingError)
    ));
}

#[test]
fn custom_colors_reach_the_canvas() {
    let mut generator = QrGenerator::new("HELLO", 200, 20).unwrap();
    generator.set_colors(
        Rgba { r: 10, g: 20, b: 30, a: 255 },
        Rgba { r: 200, g: 100, b: 50, a: 255 },
    );
    let canvas = generator.generate_image().unwrap();
    // The quiet zone corner carries the background color.
    assert_eq!(canvas.get(0, 0), Rgba { r: 10, g: 20, b: 30, a: 255 });
    // The finder pattern corner module is dark in every QR symbol.
    assert_eq!(canvas.get(20, 20), Rgba { r: 200, g: 100, b: 50, a: 255 });
}

#[test]
fn raster_render_matches_matrix() {
    let generator = QrGenerator::new("HELLO", 200, 20).unwrap();
    let canvas = generator.generate_image().unwrap();
    let n = generator.matrix.side_len() as u32;
    let ms = 200 / n;
    for j in 0..n {
        for i in 0..n {
            let cx = 20 + i * ms + ms / 2;
            let cy = 20 + j * ms + ms / 2;
            let expected = if generator.matrix.is_dark(i as usize, j as usize) {
                Rgba { r: 0, g: 0, b: 0, a: 255 }
            } else {
                Rgba { r: 255, g: 255, b: 255, a: 255 }
            };
            assert_eq!(canvas.get(cx, cy), expected);
        }
    }
}

#[test]
fn logo_ratio_bounds() {
    let canvas = PixelCanvas::filled(240, 240, Rgba { r: 255, g: 255, b: 255, a: 255 });
    let logo = tiny_png(4, 4, [255, 0, 0, 255]);
    // 0.99 of a 240 canvas gives a 237 pixel logo, which fits.
    assert!(canvas.clone().overlay_logo(&logo, 990).is_ok());
    // A ratio of exactly 1.0 gives a 240 pixel logo, which does not.
    assert!(matches!(
        canvas.clone().overlay_logo(&logo, 1000),
        Err(QrError::InvalidRatio)
    ));
    assert!(matches!(
        canvas.clone().overlay_logo(&logo, 0),
        Err(QrError::InvalidRatio)
    ));
}

#[test]
fn logo_rejects_bad_bytes() {
    let canvas = PixelCanvas::filled(240, 240, Rgba { r: 255, g: 255, b: 255, a: 255 });
    let garbage: Vec<u8> = vec![1, 2, 3, 4, 5];
    assert!(matches!(
        canvas.overlay_logo(&garbage, 500),
        Err(QrError::LogoDecodeError)
    ));
}

#[test]
fn logo_overlay_paints_center_and_keeps_margin() {
    let canvas = PixelCanvas::filled(100, 100, Rgba { r: 255, g: 255, b: 255, a: 255 });
    let logo = tiny_png(2, 2, [255, 0, 0, 255]);
    // Ratio 0.5: a 50 pixel logo centered at offset 25.
    let out = canvas.overlay_logo(&logo, 500).unwrap();
    assert_eq!(out.get(50, 50), Rgba { r: 255, g: 0, b: 0, a: 255 });
    assert_eq!(out.get(10, 10), Rgba { r: 255, g: 255, b: 255, a: 255 });
    assert_eq!(out.get(90, 90), Rgba { r: 255, g: 255, b: 255, a: 255 });
}

#[test]
fn generated_png_decodes_to_the_canvas() {
    let generator = QrGenerator::new("HELLO", 200, 20).unwrap();
    let png = generator.generate_png(None, 200).unwrap();
    let decoded = image::load_from_memory(&png).unwrap().to_rgba8();
    assert_eq!(decoded.dimensions(), (240, 240));
    let canvas = generator.generate_image().unwrap();
    for y in 0..240u32 {
        for x in 0..240u32 {
            let p = decoded.get_pixel(x, y).0;
            let q = canvas.get(x, y);
            assert_eq!(p, [q.r, q.g, q.b, q.a]);
        }
    }
}

#[test]
fn generated_svg_mentions_geometry() {
    let generator = QrGenerator::new("HELLO", 200, 20).unwrap();
    let svg = generator.generate_svg(None, 200).unwrap();
    assert!(svg.starts_with("<svg xmlns=\"http://www.w3.org/2000/svg\" width=\"240\" height=\"240\""));
    assert!(svg.contains("<rect width=\"100%\" height=\"100%\" fill=\"rgb(255,255,255)\"/>"));
    assert!(svg.contains("fill=\"rgb(0,0,0)\""));
    assert!(svg.ends_with("</svg>"));
}

#[test]
fn svg_with_logo_embeds_base64_data() {
    let generator = QrGenerator::new("HELLO", 200, 20).unwrap();
    let logo = tiny_png(4, 4, [0, 128, 255, 255]);
    let svg = generator.generate_svg(Some(&logo), 200).unwrap();
    assert!(svg.contains("<image x=\"") && svg.contains("href=\"data:image/png;base64,"));
}

#[test]
fn canvas_bytes_roundtrip() {
    let mut canvas = PixelCanvas::filled(3, 2, Rgba { r: 1, g: 2, b: 3, a: 4 });
    canvas.set(2, 1, Rgba { r: 9, g: 8, b: 7, a: 6 });
    let bytes = canvas.to_bytes();
    assert_eq!(bytes.len(), 24);
    let back = PixelCanvas::from_bytes(3, 2, &bytes);
    assert_eq!(back.get(0, 0), Rgba { r: 1, g: 2, b: 3, a: 4 });
    assert_eq!(back.get(2, 1), Rgba { r: 9, g: 8, b: 7, a: 6 });
}

#[test]
fn base64_writer_is_standard() {
    let mut s = String::new();
    qr_render::svgtext::push_base64(&mut s, &vec![77, 97, 110]);
    assert_eq!(s, "TWFu");
    let mut s = String::new();
    qr_render::svgtext::push_base64(&mut s, &vec![77, 97]);
    assert_eq!(s, "TWE=");
    let mut s = String::new();
    qr_render::svgtext::push_base64(&mut s, &vec![77]);
    assert_eq!(s, "TQ==");
    let mut s = String::new();
    qr_render::svgtext::push_base64(&mut s, &vec![]);
    assert_eq!(s, "");
}

#[test]
fn error_correction_levels_change_the_matrix() {
    let low = QrGenerator::with_level("HELLO WORLD", 200, 20, EcLevel::L).unwrap();
    let high = QrGenerator::with_level("HELLO WORLD", 200, 20, EcLevel::H).unwrap();
    let low_code =
        qrcode::QrCode::with_error_correction_level("HELLO WORLD", qrcode::EcLevel::L).unwrap();
    let high_code =
        qrcode::QrCode::with_error_correction_level("HELLO WORLD", qrcode::EcLevel::H).unwrap();
    assert_eq!(low.matrix.side_len(), low_code.width());
    assert_eq!(high.matrix.side_len(), high_code.width());
}
