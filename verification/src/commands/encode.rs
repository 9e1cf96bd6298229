//! The encode command without its input and output: what to render, and
//! what to say about it.

use vstd::prelude::*;
use vstd::string::StringExecFns;
use crate::qr::encoder::{
    output_size, rendered_pixels, terminal_text, total_modules, QrEncoder,
};
use crate::qr::matrix::ModuleMatrix;
use crate::qr::output::{format_of_extension, possible_extension, OutputFormat};
use crate::qr::raster::Raster;
use crate::utils::error::RqrError;
use crate::utils::format::{decimal, decimal_string};

verus! {

/// A symbol made ready for its destination.
#[derive(Debug)]
pub enum Rendering {
    /// The pixels to write to an image file.
    Image(Raster),
    /// The text to print on the terminal.
    Text(String),
}

/// Whether `res` is what rendering the modules `cells` of a symbol `width`
/// wide as an image of the requested size and margin yields.
pub open spec fn is_image_of(
    res: Result<Rendering, RqrError>,
    cells: Seq<bool>,
    width: int,
    size: int,
    margin: int,
) -> bool {
    if size < total_modules(width, margin) {
        &&& res matches Err(RqrError::InvalidInput(message))
        &&& message@ == "Size too small for the specified margin"@
    } else {
        &&& res matches Ok(Rendering::Image(image))
        &&& image.spec_width() == output_size(size, width, margin)
        &&& image.spec_height() == output_size(size, width, margin)
        &&& image@ == rendered_pixels(cells, width, size, margin)
    }
}

/// Whether `res` is what a destination with the given extension yields
/// for the modules `cells` of a symbol `width` wide.
pub open spec fn is_file_rendering(
    res: Result<Rendering, RqrError>,
    extension: Option<Seq<char>>,
    cells: Seq<bool>,
    width: int,
    size: int,
    margin: int,
) -> bool {
    match format_of_extension(extension) {
        Err(wanted) => {
            &&& res matches Err(RqrError::UnsupportedFormat(message))
            &&& message@ == wanted
        },
        Ok(_) => is_image_of(res, cells, width, size, margin),
    }
}

/// Whether `res` is what the encode command yields once the symbol with the
/// modules `cells`, `width` wide, has been generated.
pub open spec fn is_rendering_of(
    res: Result<Rendering, RqrError>,
    cells: Seq<bool>,
    width: int,
    output: Seq<char>,
    size: int,
    margin: int,
    terminal: bool,
) -> bool {
    if terminal {
        &&& res matches Ok(Rendering::Text(text))
        &&& text@ == terminal_text(cells, width)
    } else {
        exists|extension: Option<Seq<char>>| #[trigger]
            possible_extension(output, extension) && is_file_rendering(
                res,
                extension,
                cells,
                width,
                size,
                margin,
            )
    }
}

/// Whether `res` is what the encode command yields once the generator has
/// been run: content that no symbol holds fails in the generator's words,
/// and only then is the destination looked at.
pub open spec fn is_outcome_of(
    res: Result<Rendering, RqrError>,
    generated: Result<ModuleMatrix, String>,
    output: Seq<char>,
    size: int,
    margin: int,
    terminal: bool,
) -> bool {
    match generated {
        Err(text) => {
            &&& res matches Err(RqrError::EncodingError(message))
            &&& message == text
        },
        Ok(matrix) => is_rendering_of(
            res,
            matrix@,
            matrix.spec_width(),
            output,
            size,
            margin,
            terminal,
        ),
    }
}

/// Renders what the symbol generator made of the content for its
/// destination: as text where `terminal` is set, and else as the image for
/// the file `output`.
///
/// The encoder stands for a valid error correction token: an invalid one
/// is refused by [`QrEncoder::new`], before there is a level to generate a
/// symbol at. Here the generator's failure comes first, then the
/// destination's format is settled, then the symbol is rendered.
pub fn render(
    encoder: &QrEncoder,
    generated: Result<ModuleMatrix, String>,
    output: &str,
    terminal: bool,
) -> (res: Result<Rendering, RqrError>)
    ensures
        is_outcome_of(
            res,
            generated,
            output@,
            encoder.spec_size(),
            encoder.spec_margin(),
            terminal,
        ),
{
    let matrix = match encoder.encode(generated) {
        Ok(matrix) => matrix,
        Err(e) => {
            return Err(e);
        },
    };
    let format = if terminal {
        OutputFormat::Terminal
    } else {
        match OutputFormat::from_path(output) {
            Ok(format) => format,
            Err(e) => {
                return Err(e);
            },
        }
    };
    match format {
        OutputFormat::Terminal => Ok(Rendering::Text(encoder.to_terminal_string(&matrix))),
        OutputFormat::Png => {
            match encoder.to_image(&matrix) {
                Ok(image) => Ok(Rendering::Image(image)),
                Err(e) => Err(e),
            }
        },
    }
}

/// What the encode command says once the rendering has gone out: after the
/// text for the terminal, the content; after an image, where it was saved
/// and what was asked for. Each entry is printed as a line of its own.
pub open spec fn summary_lines(
    rendering: Rendering,
    content: Seq<char>,
    output: Seq<char>,
    size: nat,
    error_correction: Seq<char>,
    margin: nat,
) -> Seq<Seq<char>> {
    match rendering {
        Rendering::Text(text) => seq![text@, "\nContent: "@ + content],
        Rendering::Image(_) => seq![
            "QR code saved to: "@ + output,
            "Content: "@ + content,
            "Size: "@ + decimal(size) + "x"@ + decimal(size) + " pixels"@,
            "Error correction: "@ + error_correction,
            "Margin: "@ + decimal(margin) + " modules"@,
        ],
    }
}

/// The lines to print for a rendering: the text itself and the content for
/// the terminal, and for an image the destination and the request.
pub fn summary(
    rendering: &Rendering,
    content: &str,
    output: &str,
    size: u32,
    error_correction: &str,
    margin: u32,
) -> (lines: Vec<String>)
    ensures
        lines.deep_view() == summary_lines(
            *rendering,
            content@,
            output@,
            size as nat,
            error_correction@,
            margin as nat,
        ),
{
    let mut lines: Vec<String> = Vec::new();
    match rendering {
        Rendering::Text(text) => {
            lines.push(text.clone());
            lines.push(String::from_str("\nContent: ").concat(content));
        },
        Rendering::Image(_) => {
            let side = decimal_string(size as u64);
            lines.push(String::from_str("QR code saved to: ").concat(output));
            lines.push(String::from_str("Content: ").concat(content));
            lines.push(
                String::from_str("Size: ").concat(side.as_str()).concat("x").concat(
                    side.as_str(),
                ).concat(" pixels"),
            );
            lines.push(String::from_str("Error correction: ").concat(error_correction));
            lines.push(
                String::from_str("Margin: ").concat(decimal_string(margin as u64).as_str()).concat(
                    " modules",
                ),
            );
        },
    }
    lines
}

} // verus!
