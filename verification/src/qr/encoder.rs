//! The rendering of symbols as a grayscale image or as text for a terminal.

use vstd::prelude::*;
use vstd::arithmetic::div_mod::*;
use crate::qr::matrix::{ModuleMatrix, well_formed_matrix};
use crate::qr::raster::{
    lemma_index_is_a_pixel, lemma_pixel_index_in_range, well_formed_rows, Raster, BLACK, WHITE,
};
use crate::utils::error::RqrError;

verus! {

/// How much of a symbol may be damaged before it can no longer be read.
#[derive(Clone, Copy, Debug, PartialEq, Eq, Structural)]
pub enum EcLevel {
    /// Low: about 7% of the symbol.
    L,
    /// Medium: about 15%.
    M,
    /// Quartile: about 25%.
    Q,
    /// High: about 30%.
    H,
}

/// The level that a token names: one of the letters L, M, Q and H, in either
/// case, and nothing else.
pub open spec fn level_of_token(token: Seq<char>) -> Option<EcLevel> {
    if token.len() != 1 {
        None
    } else if token[0] == 'L' || token[0] == 'l' {
        Some(EcLevel::L)
    } else if token[0] == 'M' || token[0] == 'm' {
        Some(EcLevel::M)
    } else if token[0] == 'Q' || token[0] == 'q' {
        Some(EcLevel::Q)
    } else if token[0] == 'H' || token[0] == 'h' {
        Some(EcLevel::H)
    } else {
        None
    }
}

impl EcLevel {
    /// Reads a level from its letter, in either case.
    pub fn from_token(token: &str) -> (level: Option<EcLevel>)
        ensures
            level == level_of_token(token@),
    {
        if token.unicode_len() != 1 {
            return None;
        }
        let letter = token.get_char(0);
        if letter == 'L' || letter == 'l' {
            Some(EcLevel::L)
        } else if letter == 'M' || letter == 'm' {
            Some(EcLevel::M)
        } else if letter == 'Q' || letter == 'q' {
            Some(EcLevel::Q)
        } else if letter == 'H' || letter == 'h' {
            Some(EcLevel::H)
        } else {
            None
        }
    }
}

/// The number of modules across the output: the symbol and a margin on both
/// sides of it.
pub open spec fn total_modules(width: int, margin: int) -> int {
    width + 2 * margin
}

/// The side of one module in pixels: the requested size divided by the
/// number of modules across, rounded down; 1 where there are no modules.
pub open spec fn module_pixel_size(size: int, total: int) -> int {
    if total == 0 {
        1
    } else {
        size / total
    }
}

/// The side of the output in pixels. Never more than the requested size.
pub open spec fn output_size(size: int, width: int, margin: int) -> int {
    total_modules(width, margin) * module_pixel_size(size, total_modules(width, margin))
}

/// Whether the module in column `col` of row `row` is dark, counting from
/// the top left corner of the margin. The margin itself is light.
pub open spec fn module_is_dark(cells: Seq<bool>, width: int, margin: int, col: int, row: int)
    -> bool {
    let c = col - margin;
    let r = row - margin;
    0 <= c < width && 0 <= r < width && cells[r * width + c]
}

/// Whether the pixel in column `x` of row `y` lies in a dark module, where
/// each module is `unit` pixels wide and `margin` modules surround the symbol.
pub open spec fn pixel_is_dark(
    cells: Seq<bool>,
    width: int,
    margin: int,
    unit: int,
    x: int,
    y: int,
) -> bool {
    module_is_dark(cells, width, margin, x / unit, y / unit)
}

/// The shade of the pixel in column `x` of row `y`: black in a dark module,
/// white in a light module and in the margin.
pub open spec fn pixel_shade(
    cells: Seq<bool>,
    width: int,
    margin: int,
    unit: int,
    x: int,
    y: int,
) -> u8 {
    if pixel_is_dark(cells, width, margin, unit, x, y) {
        BLACK
    } else {
        WHITE
    }
}

/// The pixels of the rendered symbol, row by row.
pub open spec fn rendered_pixels(cells: Seq<bool>, width: int, size: int, margin: int) -> Seq<u8> {
    let side = output_size(size, width, margin);
    let unit = module_pixel_size(size, total_modules(width, margin));
    Seq::new(
        (side * side) as nat,
        |i: int| pixel_shade(cells, width, margin, unit, i % side, i / side),
    )
}

/// The pixel in column `x` of row `y` of an image kept as rows.
spec fn pixel_in(rows: Seq<Vec<u8>>, x: int, y: int) -> u8 {
    rows[y]@[x]
}

/// Whether column `x`, row `y` lies in the square of side `unit` whose top
/// left corner is at column `left`, row `top`.
spec fn in_square(left: int, top: int, unit: int, x: int, y: int) -> bool {
    left <= x < left + unit && top <= y < top + unit
}

/// The part of a square that has been painted once `rows` full rows and
/// `cols` pixels of the next row are done.
spec fn in_painted_part(left: int, top: int, unit: int, rows: int, cols: int, x: int, y: int)
    -> bool {
    left <= x < left + unit && (top <= y < top + rows || (y == top + rows && x < left + cols))
}

/// The shade of a pixel once the modules of the first `rows` rows and the
/// first `cols` modules of the next row have been painted on white.
spec fn shade_after(
    cells: Seq<bool>,
    width: int,
    margin: int,
    unit: int,
    rows: int,
    cols: int,
    x: int,
    y: int,
) -> u8 {
    let col = x / unit - margin;
    let row = y / unit - margin;
    if 0 <= col < width && 0 <= row < width && (row < rows || (row == rows && col < cols))
        && cells[row * width + col] {
        BLACK
    } else {
        WHITE
    }
}

/// A pixel column lies in the `q`-th module column exactly when it is one of
/// the `unit` columns that start at `q * unit`.
proof fn lemma_column_of_pixel(unit: int, q: int, x: int)
    requires
        0 < unit,
        0 <= x,
    ensures
        (q * unit <= x < q * unit + unit) <==> x / unit == q,
{
    lemma_fundamental_div_mod(x, unit);
    if q * unit <= x < q * unit + unit {
        lemma_fundamental_div_mod_converse(x, unit, q, x - q * unit);
    }
    if x / unit == q {
        assert(unit * (x / unit) == q * unit) by (nonlinear_arith)
            requires
                x / unit == q,
        ;
    }
}

/// Paints one module: the square of side `unit` whose top left corner is at
/// column `left`, row `top`. What falls outside the image is left out.
fn paint_module(
    rows: &mut Vec<Vec<u8>>,
    side: usize,
    left: usize,
    top: usize,
    unit: usize,
    shade: u8,
)
    requires
        well_formed_rows(side as int, side as int, old(rows)@),
        left + unit <= usize::MAX,
        top + unit <= usize::MAX,
    ensures
        well_formed_rows(side as int, side as int, final(rows)@),
        forall|x: int, y: int|
            0 <= x < side && 0 <= y < side ==> #[trigger] pixel_in(final(rows)@, x, y) == if in_square(
                left as int,
                top as int,
                unit as int,
                x,
                y,
            ) {
                shade
            } else {
                pixel_in(old(rows)@, x, y)
            },
{
    let ghost before = rows@;
    let mut dy: usize = 0;
    while dy < unit
        invariant
            dy <= unit,
            left + unit <= usize::MAX,
            top + unit <= usize::MAX,
            well_formed_rows(side as int, side as int, before),
            well_formed_rows(side as int, side as int, rows@),
            forall|x: int, y: int|
                0 <= x < side && 0 <= y < side ==> #[trigger] pixel_in(rows@, x, y)
                    == if in_painted_part(left as int, top as int, unit as int, dy as int, 0, x, y) {
                    shade
                } else {
                    pixel_in(before, x, y)
                },
        decreases unit - dy,
    {
        let mut dx: usize = 0;
        while dx < unit
            invariant
                dx <= unit,
                dy < unit,
                left + unit <= usize::MAX,
                top + unit <= usize::MAX,
                well_formed_rows(side as int, side as int, before),
                well_formed_rows(side as int, side as int, rows@),
                forall|x: int, y: int|
                    0 <= x < side && 0 <= y < side ==> #[trigger] pixel_in(rows@, x, y)
                        == if in_painted_part(
                        left as int,
                        top as int,
                        unit as int,
                        dy as int,
                        dx as int,
                        x,
                        y,
                    ) {
                        shade
                    } else {
                        pixel_in(before, x, y)
                    },
            decreases unit - dx,
        {
            let out_x = left + dx;
            let out_y = top + dy;
            if out_x < side && out_y < side {
                let ghost earlier = rows@;
                rows[out_y].set(out_x, shade);
                proof {
                    assert forall|x: int, y: int| 0 <= x < side && 0 <= y < side implies pixel_in(
                        rows@,
                        x,
                        y,
                    ) == if x == out_x && y == out_y {
                        shade
                    } else {
                        pixel_in(earlier, x, y)
                    } by {}
                }
            }
            dx += 1;
        }
        dy += 1;
    }
}

/// The glyph that stands for a module on a terminal.
pub open spec fn module_glyph(dark: bool) -> char {
    if dark {
        '\u{2588}'
    } else {
        ' '
    }
}

/// A symbol as lines of glyphs: each module `glyphs` glyphs wide and `lines`
/// lines tall, `margin` light modules around the symbol, a line feed
/// between lines and none after the last.
pub open spec fn glyph_text(cells: Seq<bool>, width: int, margin: int, glyphs: int, lines: int)
    -> Seq<char> {
    let across = total_modules(width, margin) * glyphs;
    let down = total_modules(width, margin) * lines;
    Seq::new(
        ((across + 1) * down - 1) as nat,
        |i: int|
            if i % (across + 1) == across {
                '\n'
            } else {
                module_glyph(
                    module_is_dark(
                        cells,
                        width,
                        margin,
                        (i % (across + 1)) / glyphs,
                        (i / (across + 1)) / lines,
                    ),
                )
            },
    )
}

/// The glyphs that a module takes on a line of terminal text: two, as a
/// glyph is about twice as high as it is wide.
pub const GLYPHS_PER_MODULE: u32 = 2;

/// The lines that a module takes in terminal text.
pub const LINES_PER_MODULE: u32 = 1;

/// The margin of terminal text, in modules: none.
pub const TERMINAL_MARGIN: u32 = 0;

/// A symbol as text for a terminal: one line per row of modules, two glyphs
/// per module, and no margin.
pub open spec fn terminal_text(cells: Seq<bool>, width: int) -> Seq<char> {
    glyph_text(
        cells,
        width,
        TERMINAL_MARGIN as int,
        GLYPHS_PER_MODULE as int,
        LINES_PER_MODULE as int,
    )
}

/// Whether the text renderer can lay out this many glyphs: it counts glyphs
/// across and lines as `u32` and the bytes of the text as `isize`, at most
/// three to a glyph.
pub open spec fn glyphs_fit(width: int, margin: int, glyphs: int, lines: int) -> bool {
    let across = total_modules(width, margin) * glyphs;
    let down = total_modules(width, margin) * lines;
    &&& 1 <= glyphs
    &&& 1 <= lines
    &&& across <= u32::MAX
    &&& down <= u32::MAX
    &&& 3 * across * down + down <= isize::MAX
}

/// Calls `qrcode::render::Renderer::<char>::new` on the modules with a quiet
/// zone of `margin` modules, sets the module dimensions to `glyphs` by
/// `lines` and builds the text.
///
/// Trusted: the renderer draws each row of modules as `lines` lines and each
/// module as `glyphs` glyphs on each of them, a full block where it is dark
/// and a space where it is light or in the quiet zone, and puts a line feed
/// between lines and none after the last.
#[verifier::external_body]
fn render_glyphs(width: usize, modules: &Vec<bool>, margin: u32, glyphs: u32, lines: u32) -> (text:
    String)
    requires
        well_formed_matrix(width as int, modules@),
        glyphs_fit(width as int, margin as int, glyphs as int, lines as int),
    ensures
        text@ == glyph_text(modules@, width as int, margin as int, glyphs as int, lines as int),
{
    let colors: Vec<qrcode::Color> = modules.iter().map(
        |dark| match dark {
            true => qrcode::Color::Dark,
            false => qrcode::Color::Light,
        },
    ).collect();
    qrcode::render::Renderer::<char>::new(&colors, width, margin).module_dimensions(
        glyphs,
        lines,
    ).build()
}

/// The side of one module in pixels for an output of `size` pixels with
/// `total` modules across: their quotient, rounded down, and 1 where there
/// are no modules at all.
pub fn unit_size(size: u32, total: u64) -> (unit: u64)
    ensures
        unit == module_pixel_size(size as int, total as int),
        unit <= size || total == 0,
{
    if total > 0 {
        size as u64 / total
    } else {
        1
    }
}

/// Renders symbols at a fixed pixel size, margin and error correction level.
#[derive(Debug)]
pub struct QrEncoder {
    size: u32,
    margin: u32,
    error_correction: EcLevel,
}

impl QrEncoder {
    /// The requested side of the output in pixels.
    pub closed spec fn spec_size(&self) -> int {
        self.size as int
    }

    /// The margin around the symbol, in modules.
    pub closed spec fn spec_margin(&self) -> int {
        self.margin as int
    }

    /// The error correction level of the symbols.
    pub closed spec fn spec_level(&self) -> EcLevel {
        self.error_correction
    }

    /// Makes an encoder. The level is given by its letter, L, M, Q or H, in
    /// either case; any other token is refused as invalid input.
    pub fn new(size: u32, margin: u32, error_correction: &str) -> (res: Result<QrEncoder, RqrError>)
        ensures
            match res {
                Ok(encoder) => {
                    &&& level_of_token(error_correction@) == Some(encoder.spec_level())
                    &&& encoder.spec_size() == size
                    &&& encoder.spec_margin() == margin
                },
                Err(e) => {
                    &&& level_of_token(error_correction@) is None
                    &&& e matches RqrError::InvalidInput(message)
                    &&& message@ == "Error correction level must be L, M, Q, or H"@
                },
            },
    {
        match EcLevel::from_token(error_correction) {
            Some(level) => Ok(QrEncoder { size, margin, error_correction: level }),
            None => Err(
                RqrError::InvalidInput("Error correction level must be L, M, Q, or H".to_owned()),
            ),
        }
    }

    /// The requested side of the output in pixels.
    pub fn size(&self) -> (size: u32)
        ensures
            size == self.spec_size(),
    {
        self.size
    }

    /// The margin around the symbol, in modules.
    pub fn margin(&self) -> (margin: u32)
        ensures
            margin == self.spec_margin(),
    {
        self.margin
    }

    /// The error correction level at which symbols are to be generated.
    pub fn error_correction(&self) -> (level: EcLevel)
        ensures
            level == self.spec_level(),
    {
        self.error_correction
    }

    /// Takes what the symbol generator made of the content at the encoder's
    /// level: the symbol, or the generator's message where no symbol holds
    /// the content, which becomes an encoding error with that message.
    ///
    /// The generator is run by the caller, who builds the symbol with
    /// [`ModuleMatrix::new`]: whether the generator returns depends on the
    /// content in ways that no condition on it rules out.
    pub fn encode(&self, generated: Result<ModuleMatrix, String>) -> (res: Result<
        ModuleMatrix,
        RqrError,
    >)
        ensures
            match generated {
                Ok(matrix) => res == Ok::<ModuleMatrix, RqrError>(matrix),
                Err(text) => {
                    &&& res matches Err(RqrError::EncodingError(message))
                    &&& message == text
                },
            },
    {
        match generated {
            Ok(matrix) => Ok(matrix),
            Err(message) => Err(RqrError::EncodingError(message)),
        }
    }

    /// Renders a symbol as text for a terminal: two glyphs per module, a
    /// full block where it is dark, and no margin.
    pub fn to_terminal_string(&self, matrix: &ModuleMatrix) -> (text: String)
        ensures
            text@ == terminal_text(matrix@, matrix.spec_width()),
    {
        let width = matrix.width();
        assert(glyphs_fit(width as int, 0, 2, 1)) by {
            let across = total_modules(width as int, 0) * 2;
            let down = total_modules(width as int, 0) * 1;
            assert(3 * across * down + down <= 3 * 354 * 177 + 177) by (nonlinear_arith)
                requires
                    0 <= across <= 354,
                    0 <= down <= 177,
            ;
        }
        render_glyphs(
            width,
            matrix.modules(),
            TERMINAL_MARGIN,
            GLYPHS_PER_MODULE,
            LINES_PER_MODULE,
        )
    }

    /// Renders a symbol as a grayscale image.
    ///
    /// Each module becomes a square of `size / (width + 2 * margin)` pixels,
    /// rounded down, black where the module is dark; `margin` modules of white
    /// surround the symbol. Where that leaves a module no pixel at all, the
    /// request is refused as invalid input.
    pub fn to_image(&self, matrix: &ModuleMatrix) -> (res: Result<Raster, RqrError>)
        ensures
            match res {
                Ok(image) => {
                    &&& self.spec_size() >= total_modules(matrix.spec_width(), self.spec_margin())
                    &&& image.spec_width() == output_size(
                        self.spec_size(),
                        matrix.spec_width(),
                        self.spec_margin(),
                    )
                    &&& image.spec_height() == image.spec_width()
                    &&& image@ == rendered_pixels(
                        matrix@,
                        matrix.spec_width(),
                        self.spec_size(),
                        self.spec_margin(),
                    )
                },
                Err(e) => {
                    &&& self.spec_size() < total_modules(matrix.spec_width(), self.spec_margin())
                    &&& e matches RqrError::InvalidInput(message)
                    &&& message@ == "Size too small for the specified margin"@
                },
            },
    {
        let width: usize = matrix.width();
        let total: u64 = width as u64 + (self.margin as u64) * 2;
        let unit: u64 = unit_size(self.size, total);
        proof {
            lemma_fundamental_div_mod(self.size as int, total as int);
            if self.size < total {
                lemma_basic_div(self.size as int, total as int);
            } else {
                lemma_div_non_zero(self.size as int, total as int);
            }
        }
        if unit == 0 {
            return Err(RqrError::InvalidInput("Size too small for the specified margin".to_owned()));
        }
        assert(total * unit <= self.size) by (nonlinear_arith)
            requires
                self.size == total * (self.size as int / total as int) + (self.size as int % (
                total as int)),
                0 <= self.size as int % (total as int),
                unit == self.size as int / total as int,
        ;
        let side: usize = (total * unit) as usize;
        let unit: usize = unit as usize;
        let margin: usize = self.margin as usize;
        let ghost cells = matrix@;
        let mut rows: Vec<Vec<u8>> = Vec::new();
        let mut row: usize = 0;
        while row < side
            invariant
                row <= side,
                rows@.len() == row,
                forall|y: int| 0 <= y < row ==> (#[trigger] rows@[y])@.len() == side,
                forall|x: int, y: int|
                    0 <= x < side && 0 <= y < row ==> #[trigger] pixel_in(rows@, x, y) == WHITE,
            decreases side - row,
        {
            let white: Vec<u8> = vec![WHITE; side];
            let ghost earlier = rows@;
            rows.push(white);
            assert forall|x: int, y: int| 0 <= x < side && 0 <= y <= row implies #[trigger] pixel_in(
                rows@,
                x,
                y,
            ) == WHITE by {
                if y < row {
                    assert(pixel_in(earlier, x, y) == WHITE);
                }
            }
            row += 1;
        }
        let mut y: usize = 0;
        while y < width
            invariant
                y <= width,
                0 < unit,
                width == matrix.spec_width(),
                cells == matrix@,
                well_formed_matrix(width as int, cells),
                side == (width + 2 * margin) * unit,
                side <= u32::MAX,
                well_formed_rows(side as int, side as int, rows@),
                forall|px: int, py: int|
                    0 <= px < side && 0 <= py < side ==> #[trigger] pixel_in(rows@, px, py)
                        == shade_after(
                        cells,
                        width as int,
                        margin as int,
                        unit as int,
                        y as int,
                        0,
                        px,
                        py,
                    ),
            decreases width - y,
        {
            let mut x: usize = 0;
            while x < width
                invariant
                    x <= width,
                    y < width,
                    0 < unit,
                    width == matrix.spec_width(),
                    cells == matrix@,
                    well_formed_matrix(width as int, cells),
                    side == (width + 2 * margin) * unit,
                    side <= u32::MAX,
                    well_formed_rows(side as int, side as int, rows@),
                    forall|px: int, py: int|
                        0 <= px < side && 0 <= py < side ==> #[trigger] pixel_in(rows@, px, py)
                            == shade_after(
                            cells,
                            width as int,
                            margin as int,
                            unit as int,
                            y as int,
                            x as int,
                            px,
                            py,
                        ),
                decreases width - x,
            {
                let shade: u8 = if matrix.is_dark(x, y) {
                    BLACK
                } else {
                    WHITE
                };
                proof {
                    lemma_module_square_in_range(
                        width as int,
                        margin as int,
                        unit as int,
                        x as int,
                    );
                    lemma_module_square_in_range(
                        width as int,
                        margin as int,
                        unit as int,
                        y as int,
                    );
                }
                let left: usize = (x + margin) * unit;
                let top: usize = (y + margin) * unit;
                paint_module(&mut rows, side, left, top, unit, shade);
                proof {
                    assert forall|px: int, py: int| 0 <= px < side && 0 <= py < side implies #[trigger] pixel_in(
                        rows@,
                        px,
                        py,
                    ) == shade_after(
                        cells,
                        width as int,
                        margin as int,
                        unit as int,
                        y as int,
                        x + 1,
                        px,
                        py,
                    ) by {
                        lemma_column_of_pixel(unit as int, x + margin, px);
                        lemma_column_of_pixel(unit as int, y + margin, py);
                    }
                }
                x += 1;
            }
            y += 1;
        }
        let image = Raster::from_rows(side as u32, side as u32, rows);
        proof {
            let size = self.size as int;
            let goal = rendered_pixels(cells, width as int, size, margin as int);
            assert(side * side == goal.len()) by (nonlinear_arith)
                requires
                    goal.len() == (side * side) as nat,
                    0 <= side,
            ;
            assert forall|i: int| 0 <= i < goal.len() implies image@[i] == goal[i] by {
                lemma_index_is_a_pixel(side as int, side as int, i);
                assert(pixel_in(rows@, i % (side as int), i / (side as int)) == image@[i]);
            }
            assert(image@ =~= goal);
        }
        Ok(image)
    }
}

/// Wherever the requested size leaves each module a pixel, the rendered
/// symbol is a square whose side is the number of modules across times the
/// module size, and the module size is the requested size divided by the
/// number of modules across, rounded down and never up.
pub proof fn lemma_output_is_floored_square(cells: Seq<bool>, width: int, size: int, margin: int)
    requires
        0 < width,
        0 <= margin,
        total_modules(width, margin) <= size,
    ensures
        ({
            let total = total_modules(width, margin);
            let unit = module_pixel_size(size, total);
            let side = output_size(size, width, margin);
            &&& unit == size / total
            &&& unit >= 1
            &&& side == total * unit
            &&& side % total == 0
            &&& side / total == unit
            &&& unit * total <= size < (unit + 1) * total
            &&& side <= size
            &&& size - side < total
            &&& rendered_pixels(cells, width, size, margin).len() == side * side
        }),
{
    let total = total_modules(width, margin);
    let unit = size / total;
    let side = output_size(size, width, margin);
    lemma_fundamental_div_mod(size, total);
    lemma_mod_bound(size, total);
    lemma_div_non_zero(size, total);
    lemma_fundamental_div_mod_converse(total * unit, total, unit, 0);
    assert(unit * total == total * unit) by (nonlinear_arith);
    assert((unit + 1) * total == total * unit + total) by (nonlinear_arith);
    assert(0 <= side * side) by (nonlinear_arith)
        requires
            0 <= side,
    ;
}

/// Each pixel of the rendered symbol has the shade of the module it lies in.
pub proof fn lemma_rendered_pixel(
    cells: Seq<bool>,
    width: int,
    size: int,
    margin: int,
    x: int,
    y: int,
)
    requires
        0 < width,
        0 <= margin,
        0 <= x < output_size(size, width, margin),
        0 <= y < output_size(size, width, margin),
    ensures
        0 <= y * output_size(size, width, margin) + x < rendered_pixels(
            cells,
            width,
            size,
            margin,
        ).len(),
        rendered_pixels(cells, width, size, margin)[y * output_size(size, width, margin) + x]
            == pixel_shade(
            cells,
            width,
            margin,
            module_pixel_size(size, total_modules(width, margin)),
            x,
            y,
        ),
{
    let side = output_size(size, width, margin);
    lemma_pixel_index_in_range(side, side, x, y);
    lemma_fundamental_div_mod_converse(y * side + x, side, y, x);
}

/// The margin is white: every pixel within `margin` modules of an edge of
/// the rendered symbol is.
pub proof fn lemma_margin_is_white(
    cells: Seq<bool>,
    width: int,
    size: int,
    margin: int,
    x: int,
    y: int,
)
    requires
        0 < width,
        0 <= margin,
        0 <= x < output_size(size, width, margin),
        0 <= y < output_size(size, width, margin),
        ({
            let unit = module_pixel_size(size, total_modules(width, margin));
            ||| x < margin * unit
            ||| y < margin * unit
            ||| (margin + width) * unit <= x
            ||| (margin + width) * unit <= y
        }),
    ensures
        rendered_pixels(cells, width, size, margin)[y * output_size(size, width, margin) + x]
            == WHITE,
{
    let unit = module_pixel_size(size, total_modules(width, margin));
    lemma_rendered_pixel(cells, width, size, margin, x, y);
    assert(0 < unit) by (nonlinear_arith)
        requires
            0 < total_modules(width, margin),
            0 <= x < total_modules(width, margin) * unit,
    ;
    lemma_fundamental_div_mod(x, unit);
    lemma_fundamental_div_mod(y, unit);
    if x < margin * unit {
        assert(x / unit < margin) by (nonlinear_arith)
            requires
                0 < unit,
                x == unit * (x / unit) + x % unit,
                0 <= x % unit,
                x < margin * unit,
        ;
    }
    if y < margin * unit {
        assert(y / unit < margin) by (nonlinear_arith)
            requires
                0 < unit,
                y == unit * (y / unit) + y % unit,
                0 <= y % unit,
                y < margin * unit,
        ;
    }
    if (margin + width) * unit <= x {
        assert(x / unit >= margin + width) by (nonlinear_arith)
            requires
                0 < unit,
                x == unit * (x / unit) + x % unit,
                x % unit < unit,
                (margin + width) * unit <= x,
        ;
    }
    if (margin + width) * unit <= y {
        assert(y / unit >= margin + width) by (nonlinear_arith)
            requires
                0 < unit,
                y == unit * (y / unit) + y % unit,
                y % unit < unit,
                (margin + width) * unit <= y,
        ;
    }
}

/// The output is never larger than requested: flooring the module size can
/// only lose pixels, and fewer of them than there are modules across.
pub proof fn lemma_output_within_size(size: int, width: int, margin: int)
    requires
        0 <= size,
        0 < width,
        0 <= margin,
    ensures
        0 <= output_size(size, width, margin) <= size,
        size - output_size(size, width, margin) < total_modules(width, margin),
{
    let total = total_modules(width, margin);
    let side = output_size(size, width, margin);
    lemma_fundamental_div_mod(size, total);
    assert(0 <= total * (size / total)) by (nonlinear_arith)
        requires
            0 < total,
            0 <= size / total,
    ;
}

/// The square of the module in column `x` lies within the output.
proof fn lemma_module_square_in_range(width: int, margin: int, unit: int, x: int)
    requires
        0 <= x < width,
        0 <= margin,
        0 < unit,
    ensures
        0 <= x + margin < (width + 2 * margin) * unit,
        0 <= (x + margin) * unit,
        (x + margin) * unit + unit <= (width + 2 * margin) * unit,
{
    assert((x + margin) * unit + unit <= (width + 2 * margin) * unit) by (nonlinear_arith)
        requires
            0 <= x + margin + 1 <= width + 2 * margin,
            0 < unit,
    ;
    assert(0 <= (x + margin) * unit) by (nonlinear_arith)
        requires
            0 <= x + margin,
            0 < unit,
    ;
    assert(x + margin < (width + 2 * margin) * unit) by (nonlinear_arith)
        requires
            0 <= x + margin < width + 2 * margin,
            0 < unit,
    ;
}

} // verus!
