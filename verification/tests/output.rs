use rqr::qr::output::OutputFormat;
use rqr::RqrError;

fn unsupported(result: Result<OutputFormat, RqrError>) -> String {
    match result {
        Err(RqrError::UnsupportedFormat(message)) => message,
        other => panic!("unexpected result: {:?}", other),
    }
}

#[test]
fn png_extension_is_an_image_file() {
    assert_eq!(OutputFormat::from_path("image.png").unwrap(), OutputFormat::Png);
    assert_eq!(OutputFormat::from_path("rqr.png").unwrap(), OutputFormat::Png);
    assert_eq!(OutputFormat::from_path("some/dir/code.png").unwrap(), OutputFormat::Png);
    assert_eq!(OutputFormat::from_path("archive.tar.png").unwrap(), OutputFormat::Png);
}

#[test]
fn svg_is_refused_by_name() {
    assert_eq!(unsupported(OutputFormat::from_path("out.svg")), "Unsupported format: svg");
}

#[test]
fn other_extensions_are_refused_by_name() {
    assert_eq!(unsupported(OutputFormat::from_path("out.jpg")), "Unsupported format: jpg");
    assert_eq!(unsupported(OutputFormat::from_path("a.tar.gz")), "Unsupported format: gz");
    assert_eq!(unsupported(OutputFormat::from_path("out.PNG")), "Unsupported format: PNG");
    assert_eq!(unsupported(OutputFormat::from_path("out.pngx")), "Unsupported format: pngx");
    assert_eq!(unsupported(OutputFormat::from_path("out.pn")), "Unsupported format: pn");
    assert_eq!(unsupported(OutputFormat::from_path("out.")), "Unsupported format: ");
}

#[test]
fn missing_extension_is_refused() {
    for path in ["out", "", "dir/out", ".png", "dir.png/out", ".."] {
        assert_eq!(
            unsupported(OutputFormat::from_path(path)),
            "Cannot determine format from file path",
            "path {:?}",
            path
        );
    }
}

#[test]
fn format_of_an_extension() {
    assert_eq!(OutputFormat::from_extension(Some("png")).unwrap(), OutputFormat::Png);
    assert_eq!(unsupported(OutputFormat::from_extension(Some("svg"))), "Unsupported format: svg");
    assert_eq!(unsupported(OutputFormat::from_extension(Some("gnp"))), "Unsupported format: gnp");
    assert_eq!(unsupported(OutputFormat::from_extension(Some(""))), "Unsupported format: ");
    assert_eq!(
        unsupported(OutputFormat::from_extension(None)),
        "Cannot determine format from file path"
    );
}

fn portable(path: &str) -> bool {
    let name = path.rsplit('/').next().unwrap();
    !path.contains('\\')
        && !path.contains(':')
        && !path.starts_with("//")
        && name != ".."
        && (!path.contains('/') || (!name.is_empty() && name != "."))
}

fn extension_of_name(name: &str) -> Option<&str> {
    match name.rfind('.') {
        None | Some(0) => None,
        Some(dot) => Some(&name[dot + 1..]),
    }
}

#[test]
fn paths_read_alike_everywhere_go_by_their_file_name() {
    let paths = [
        "image.png", "rqr.png", "out.svg", "out", "", ".", ".png", "..png", "a.", "a..", "...",
        "a.b.c", "dir/out.png", "dir/out.svg", "dir/out", "./out.png", "../out.png",
        "a/b/c/d.png", "a//b.png", "a/./b.png", "a/../b.png", "/tmp/out.png", "/out.png",
        "/.png", "a/.hidden", "a/.hidden.png", "a/b.", "a/...", "dir.png/out", "dir.png/out.gz",
        "a.b/c", "a/b.tar.gz", "x/.png", "\u{e9}t\u{e9}/\u{5e93}.png", "a b/c d.png",
    ];
    for path in paths {
        assert!(portable(path), "path {:?}", path);
        let name = path.rsplit('/').next().unwrap();
        let found = OutputFormat::from_path(path);
        let wanted = OutputFormat::from_extension(extension_of_name(name));
        assert_eq!(format!("{:?}", found), format!("{:?}", wanted), "path {:?}", path);
    }
}

#[test]
fn png_in_a_directory_is_an_image_file() {
    assert_eq!(OutputFormat::from_path("dir/out.png").unwrap(), OutputFormat::Png);
    assert_eq!(OutputFormat::from_path("./out.png").unwrap(), OutputFormat::Png);
    assert_eq!(OutputFormat::from_path("../out.png").unwrap(), OutputFormat::Png);
    assert_eq!(OutputFormat::from_path("/tmp/out.png").unwrap(), OutputFormat::Png);
    assert_eq!(unsupported(OutputFormat::from_path("dir/out.svg")), "Unsupported format: svg");
}
