//! The modules of a symbol.

use vstd::prelude::*;

verus! {

/// The widest symbol the QR standard defines (version 40).
pub const MAX_MODULES_PER_SIDE: usize = 177;

/// The square grid of dark and light modules that makes up one symbol.
///
/// Modules are stored row by row; `true` is dark. The side length is kept
/// beside them, is at least 1 and at most [`MAX_MODULES_PER_SIDE`], and the
/// number of modules is always its square.
#[derive(Debug)]
pub struct ModuleMatrix {
    width: usize,
    modules: Vec<bool>,
}

/// Whether `cells` can be the row-major contents of a symbol `width` modules wide.
pub open spec fn well_formed_matrix(width: int, cells: Seq<bool>) -> bool {
    &&& 0 < width <= MAX_MODULES_PER_SIDE
    &&& cells.len() == width * width
}

impl View for ModuleMatrix {
    type V = Seq<bool>;

    /// The modules, row by row.
    closed spec fn view(&self) -> Seq<bool> {
        self.modules@
    }
}

impl ModuleMatrix {
    #[verifier::type_invariant]
    spec fn inv(&self) -> bool {
        well_formed_matrix(self.width as int, self.modules@)
    }

    /// The number of modules on each side.
    pub closed spec fn spec_width(&self) -> int {
        self.width as int
    }

    /// The colour of the module in column `x` of row `y`.
    pub open spec fn spec_is_dark(&self, x: int, y: int) -> bool {
        self@[y * self.spec_width() + x]
    }

    /// Builds a matrix from its side length and its modules, row by row.
    /// Returns `None` unless the side is between 1 and
    /// [`MAX_MODULES_PER_SIDE`] and there are exactly `width * width` modules.
    pub fn new(width: usize, modules: Vec<bool>) -> (matrix: Option<ModuleMatrix>)
        ensures
            matrix is Some <==> well_formed_matrix(width as int, modules@),
            matrix matches Some(m) ==> m.spec_width() == width && m@ == modules@,
    {
        if width == 0 || width > MAX_MODULES_PER_SIDE {
            return None;
        }
        assert(width * width <= MAX_MODULES_PER_SIDE * MAX_MODULES_PER_SIDE) by (nonlinear_arith)
            requires
                0 < width <= MAX_MODULES_PER_SIDE,
        ;
        if modules.len() != width * width {
            return None;
        }
        Some(ModuleMatrix { width, modules })
    }

    /// The number of modules on each side.
    pub fn width(&self) -> (width: usize)
        ensures
            width == self.spec_width(),
            well_formed_matrix(width as int, self@),
    {
        proof {
            use_type_invariant(self);
        }
        self.width
    }

    /// The modules, row by row.
    pub fn modules(&self) -> (modules: &Vec<bool>)
        ensures
            modules@ == self@,
            well_formed_matrix(self.spec_width(), self@),
    {
        proof {
            use_type_invariant(self);
        }
        &self.modules
    }

    /// Whether the module in column `x` of row `y` is dark.
    pub fn is_dark(&self, x: usize, y: usize) -> (dark: bool)
        requires
            x < self.spec_width(),
            y < self.spec_width(),
        ensures
            dark == self.spec_is_dark(x as int, y as int),
    {
        proof {
            use_type_invariant(self);
            lemma_cell_index_in_range(self.width as int, x as int, y as int);
            assert(self.modules@.len() == self.modules.len());
        }
        self.modules[y * self.width + x]
    }
}

/// Row `y`, column `x` of a square grid of side `width` lies inside its
/// `width * width` cells.
pub proof fn lemma_cell_index_in_range(width: int, x: int, y: int)
    requires
        0 <= x < width,
        0 <= y < width,
    ensures
        0 <= y * width + x < width * width,
        y * width <= (width - 1) * width,
{
    assert(y * width <= (width - 1) * width) by (nonlinear_arith)
        requires
            0 <= y <= width - 1,
            0 < width,
    ;
    assert(0 <= y * width) by (nonlinear_arith)
        requires
            0 <= y,
            0 < width,
    ;
    assert((width - 1) * width + width == width * width) by (nonlinear_arith);
}

} // verus!
