use rqr::commands::decode::{announce, report, InputSource};
use rqr::commands::encode::{render, summary, Rendering};
use rqr::qr::encoder::{EcLevel, QrEncoder};
use rqr::qr::matrix::ModuleMatrix;
use rqr::utils::format::decimal_string;
use rqr::qr::decoder::{GridOutcome, QrDecoder};
use rqr::RqrError;

fn generate(text: &str, level: EcLevel) -> Result<ModuleMatrix, String> {
    let level = match level {
        EcLevel::L => qrcode::EcLevel::L,
        EcLevel::M => qrcode::EcLevel::M,
        EcLevel::Q => qrcode::EcLevel::Q,
        EcLevel::H => qrcode::EcLevel::H,
    };
    match qrcode::QrCode::with_error_correction_level(text, level) {
        Ok(code) => {
            let width = code.width();
            let modules = code
                .into_colors()
                .into_iter()
                .map(|color| color == qrcode::Color::Dark)
                .collect();
            Ok(ModuleMatrix::new(width, modules).unwrap())
        }
        Err(e) => Err(e.to_string()),
    }
}

fn run(
    content: &str,
    output: &str,
    size: u32,
    error_correction: &str,
    margin: u32,
    terminal: bool,
) -> Result<Rendering, RqrError> {
    let encoder = QrEncoder::new(size, margin, error_correction)?;
    let generated = generate(content, encoder.error_correction());
    render(&encoder, generated, output, terminal)
}


#[test]
fn web_addresses_are_told_by_their_beginning() {
    assert_eq!(InputSource::detect("http://example.com/qr.png"), InputSource::Url);
    assert_eq!(InputSource::detect("https://example.com/qr.png"), InputSource::Url);
    assert_eq!(InputSource::detect("http://"), InputSource::Url);
    assert_eq!(InputSource::detect("https://"), InputSource::Url);
}

#[test]
fn everything_else_is_a_file() {
    for input in [
        "qr_code.png",
        "",
        "http:/example.com",
        "http:",
        "https:/",
        "HTTP://example.com",
        "ftp://example.com/qr.png",
        " http://example.com",
        "dir/http://x",
        "httpx://example.com",
    ] {
        assert_eq!(InputSource::detect(input), InputSource::File, "input {:?}", input);
    }
}

#[test]
fn image_for_a_png_destination() {
    match run("Hello, World!", "hello.png", 300, "M", 10, false) {
        Ok(Rendering::Image(image)) => {
            assert_eq!(image.width(), 287);
            assert_eq!(image.height(), 287);
            let mut prepared = rqrr::PreparedImage::prepare_from_greyscale(
                image.width() as usize,
                image.height() as usize,
                |x, y| image.luma_at(x, y),
            );
            let found: Vec<GridOutcome> = prepared
                .detect_grids()
                .iter()
                .map(|grid| {
                    let mut payload = Vec::new();
                    match grid.decode_to(&mut payload) {
                        Ok(meta) => GridOutcome::Decoded {
                            payload,
                            metadata: format!("{:?}", meta),
                        },
                        Err(e) => GridOutcome::Failed {
                            reason: format!("{:?}", e),
                        },
                    }
                })
                .collect();
            assert_eq!(
                QrDecoder::new().decode_from_image(&found).unwrap(),
                vec!["Hello, World!"]
            );
        }
        other => panic!("unexpected result: {:?}", other),
    }
}

#[test]
fn text_for_the_terminal_whatever_the_destination() {
    match run("Terminal Example", "dummy.svg", 1, "M", 1000, true) {
        Ok(Rendering::Text(text)) => {
            let lines: Vec<&str> = text.split('\n').collect();
            // Sixteen bytes at level M need the second smallest symbol.
            assert_eq!(lines.len(), 25);
            assert!(lines.iter().all(|line| line.chars().count() == 50));
            assert!(text.starts_with("\u{2588}\u{2588}\u{2588}\u{2588}"));
        }
        other => panic!("unexpected result: {:?}", other),
    }
}

#[test]
fn invalid_level_is_refused_before_anything_else() {
    let too_long = "a".repeat(8000);
    for (content, output, size) in [
        ("hello", "out.png", 200),
        (too_long.as_str(), "out.png", 200),
        ("hello", "out.svg", 200),
        ("hello", "out.png", 1),
        (too_long.as_str(), "out.svg", 1),
    ] {
        for terminal in [false, true] {
            match run(content, output, size, "X", 10, terminal) {
                Err(RqrError::InvalidInput(message)) => {
                    assert_eq!(message, "Error correction level must be L, M, Q, or H")
                }
                other => panic!("unexpected result: {:?}", other),
            }
        }
    }
}

#[test]
fn content_is_encoded_before_the_destination_is_looked_at() {
    let too_long = "a".repeat(8000);
    match run(&too_long, "out.svg", 1, "L", 10, false) {
        Err(RqrError::EncodingError(message)) => assert_eq!(message, "data too long"),
        other => panic!("unexpected result: {:?}", other),
    }
}

#[test]
fn destination_is_settled_before_the_size_is_looked_at() {
    match run("hello", "out.svg", 1, "L", 10, false) {
        Err(RqrError::UnsupportedFormat(message)) => {
            assert_eq!(message, "Unsupported format: svg")
        }
        other => panic!("unexpected result: {:?}", other),
    }
    match run("hello", "out", 1, "L", 10, false) {
        Err(RqrError::UnsupportedFormat(message)) => {
            assert_eq!(message, "Cannot determine format from file path")
        }
        other => panic!("unexpected result: {:?}", other),
    }
}

#[test]
fn size_too_small_for_a_png_destination() {
    match run("hello", "out.png", 40, "L", 10, false) {
        Err(RqrError::InvalidInput(message)) => {
            assert_eq!(message, "Size too small for the specified margin")
        }
        other => panic!("unexpected result: {:?}", other),
    }
}

fn strings(lines: &[&str]) -> Vec<String> {
    lines.iter().map(|line| line.to_string()).collect()
}

#[test]
fn announcement_for_a_file() {
    assert_eq!(
        announce("qr_code.png"),
        strings(&[
            "Decoding QR code from: qr_code.png",
            "Detected file input, reading from disk...",
        ])
    );
}

#[test]
fn announcement_for_a_web_address() {
    assert_eq!(
        announce("https://example.com/qr.png"),
        strings(&[
            "Decoding QR code from: https://example.com/qr.png",
            "Detected URL input, fetching from web...",
        ])
    );
}

#[test]
fn report_of_a_single_content() {
    assert_eq!(
        report(&strings(&["Hello, World!"])),
        strings(&["\nDecoded content:", "Hello, World!"])
    );
}

#[test]
fn report_of_several_contents() {
    assert_eq!(
        report(&strings(&["first", "second", "third"])),
        strings(&[
            "\nFound 3 QR codes:",
            "\nQR Code #1:",
            "first",
            "\nQR Code #2:",
            "second",
            "\nQR Code #3:",
            "third",
        ])
    );
}

#[test]
fn report_numbers_beyond_nine() {
    let results: Vec<String> = (0..12).map(|i| format!("content {}", i)).collect();
    let lines = report(&results);
    assert_eq!(lines.len(), 25);
    assert_eq!(lines[0], "\nFound 12 QR codes:");
    for i in 0..12 {
        assert_eq!(lines[2 * i + 1], format!("\nQR Code #{}:", i + 1));
        assert_eq!(lines[2 * i + 2], format!("content {}", i));
    }
}

#[test]
fn report_of_nothing() {
    assert_eq!(report(&Vec::new()), strings(&["\nFound 0 QR codes:"]));
}

#[test]
fn summary_after_an_image() {
    let rendering = run("Hello World", "hello.png", 200, "m", 10, false).unwrap();
    assert_eq!(
        summary(&rendering, "Hello World", "hello.png", 200, "m", 10),
        strings(&[
            "QR code saved to: hello.png",
            "Content: Hello World",
            "Size: 200x200 pixels",
            "Error correction: m",
            "Margin: 10 modules",
        ])
    );
}

#[test]
fn summary_after_terminal_text() {
    let rendering = Rendering::Text("\u{2588}\u{2588}  \n  \u{2588}\u{2588}".to_string());
    assert_eq!(
        summary(&rendering, "Terminal Example", "dummy.png", 200, "M", 10),
        strings(&["\u{2588}\u{2588}  \n  \u{2588}\u{2588}", "\nContent: Terminal Example"])
    );
}

#[test]
fn summary_with_the_largest_numbers() {
    let image = rqr::qr::raster::Raster::new(1, 1, vec![0]).unwrap();
    let lines = summary(&Rendering::Image(image), "", "", u32::MAX, "", u32::MAX);
    assert_eq!(lines[2], "Size: 4294967295x4294967295 pixels");
    assert_eq!(lines[4], "Margin: 4294967295 modules");
}

#[test]
fn numbers_in_decimal() {
    assert_eq!(decimal_string(0), "0");
    assert_eq!(decimal_string(7), "7");
    assert_eq!(decimal_string(9), "9");
    assert_eq!(decimal_string(10), "10");
    assert_eq!(decimal_string(42), "42");
    assert_eq!(decimal_string(100), "100");
    assert_eq!(decimal_string(1234567890), "1234567890");
    assert_eq!(decimal_string(u64::MAX), "18446744073709551615");
    for n in 0..2000u64 {
        assert_eq!(decimal_string(n), n.to_string());
    }
}

#[test]
fn generators_failure_comes_before_the_destination() {
    let encoder = QrEncoder::new(1, 10, "L").unwrap();
    for (output, terminal) in [("out.svg", false), ("out", false), ("out.png", false), ("out.png", true)] {
        match render(&encoder, Err("data too long".to_string()), output, terminal) {
            Err(RqrError::EncodingError(message)) => assert_eq!(message, "data too long"),
            other => panic!("unexpected result: {:?}", other),
        }
    }
}

#[test]
fn rendering_of_a_hand_made_symbol() {
    let encoder = QrEncoder::new(4, 0, "L").unwrap();
    let symbol = || Ok(ModuleMatrix::new(2, vec![true, false, false, true]).unwrap());
    match render(&encoder, symbol(), "dir/out.png", false) {
        Ok(Rendering::Image(image)) => {
            assert_eq!(image.width(), 4);
            assert_eq!(&image.pixels(),
                &vec![0u8, 0, 255, 255, 0, 0, 255, 255, 255, 255, 0, 0, 255, 255, 0, 0]
            );
        }
        other => panic!("unexpected result: {:?}", other),
    }
    match render(&encoder, symbol(), "dir/out.png", true) {
        Ok(Rendering::Text(text)) => assert_eq!(text, "\u{2588}\u{2588}  \n  \u{2588}\u{2588}"),
        other => panic!("unexpected result: {:?}", other),
    }
}
