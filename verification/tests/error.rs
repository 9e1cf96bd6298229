use rqr::RqrError;

#[test]
fn each_kind_of_error_is_described_under_its_heading() {
    assert_eq!(
        RqrError::EncodingError("data too long".to_string()).describe(),
        "QR code encoding failed: data too long"
    );
    assert_eq!(
        RqrError::DecodingError("No QR codes found in image".to_string()).describe(),
        "QR code decoding failed: No QR codes found in image"
    );
    assert_eq!(
        RqrError::InvalidInput("Size too small for the specified margin".to_string()).describe(),
        "Invalid input: Size too small for the specified margin"
    );
    assert_eq!(
        RqrError::UnsupportedFormat("Unsupported format: svg".to_string()).describe(),
        "Output format not supported: Unsupported format: svg"
    );
}

#[test]
fn empty_message_leaves_the_heading() {
    assert_eq!(RqrError::InvalidInput(String::new()).describe(), "Invalid input: ");
}

#[test]
fn outside_errors_are_described_in_their_own_words() {
    let io = std::io::Error::new(std::io::ErrorKind::NotFound, "no such file");
    assert_eq!(RqrError::IoError(io).describe(), "File I/O error: no such file");
    let broken = image::load_from_memory(&[1, 2, 3]).unwrap_err();
    let text = broken.to_string();
    assert_eq!(
        RqrError::ImageError(broken).describe(),
        format!("Image processing error: {}", text)
    );
}
