//! The toroidal grid: a flat, row-major buffer of cells whose coordinates wrap
//! around at every edge.

use vstd::prelude::*;
use vstd::arithmetic::div_mod::lemma_mod_multiples_vanish;
use vstd::arithmetic::mul::lemma_mul_inequality;
use vstd::arithmetic::mul::lemma_mul_is_commutative;

verus! {

/// The mathematical content of a grid: its dimensions and its cells in
/// row-major order.
pub struct GridView<T> {
    pub width: nat,
    pub height: nat,
    pub cells: Seq<T>,
}

impl<T> GridView<T> {
    /// There is exactly one cell for each pair of a column and a row.
    pub open spec fn well_formed(self) -> bool {
        self.cells.len() == self.width * self.height
    }

    /// The position in `cells` of the cell that the coordinates `(x, y)`
    /// reach on the torus. Both coordinates are reduced by the Euclidean
    /// remainder, so every integer names a column and a row.
    pub open spec fn index_of(self, x: int, y: int) -> int {
        (y % (self.height as int)) * self.width + (x % (self.width as int))
    }

    /// The cell that the coordinates `(x, y)` reach on the torus.
    pub open spec fn at(self, x: int, y: int) -> T {
        self.cells[self.index_of(x, y)]
    }

    /// The grid with the cell in column `x` of row `y` replaced by `value`.
    pub open spec fn put(self, x: int, y: int, value: T) -> GridView<T> {
        GridView { cells: self.cells.update(y * self.width + x, value), ..self }
    }
}

/// Why a grid could not be built.
#[derive(Clone, Copy, Debug, PartialEq, Eq)]
pub enum GridError {
    /// The number of cells supplied is not the product of the dimensions.
    DimensionMismatch,
}

/// The outcome of assembling a grid from dimensions and cells: the grid with
/// exactly those parts when there is one cell per position, and no grid
/// otherwise.
pub open spec fn assemble<T>(width: nat, height: nat, cells: Seq<T>) -> Result<
    GridView<T>,
    GridError,
> {
    if cells.len() == width * height {
        Ok(GridView { width, height, cells })
    } else {
        Err(GridError::DimensionMismatch)
    }
}

/// The torus has no edges. One step left of the first column is the last
/// column, one step past the last column is the first, and one step above
/// the first row is the last row.
pub proof fn lemma_edges_wrap<T>(grid: GridView<T>)
    ensures
        grid.at(-1, 0) == grid.at(grid.width - 1, 0),
        grid.at(grid.width as int, 0) == grid.at(0, 0),
        grid.at(0, -1) == grid.at(0, grid.height - 1),
{
    lemma_torus_period(grid, -1, 0, 1, 0);
    lemma_torus_period(grid, 0, 0, 1, 0);
    lemma_torus_period(grid, 0, -1, 0, 1);
}

/// Coordinates that differ by whole widths and whole heights reach the same
/// cell.
pub proof fn lemma_torus_period<T>(grid: GridView<T>, x: int, y: int, turns_x: int, turns_y: int)
    ensures
        grid.at(x + turns_x * grid.width, y + turns_y * grid.height) == grid.at(x, y),
{
    if grid.width > 0 {
        lemma_mod_multiples_vanish(turns_x, x, grid.width as int);
    } else {
        assert(turns_x * grid.width == 0) by (nonlinear_arith)
            requires
                grid.width == 0,
        ;
    }
    if grid.height > 0 {
        lemma_mod_multiples_vanish(turns_y, y, grid.height as int);
    } else {
        assert(turns_y * grid.height == 0) by (nonlinear_arith)
            requires
                grid.height == 0,
        ;
    }
    assert(turns_x * grid.width + x == x + turns_x * grid.width);
    assert(turns_y * grid.height + y == y + turns_y * grid.height);
}

/// A grid taken apart and assembled again from its own dimensions and cells
/// is the grid it was.
pub proof fn lemma_assemble_round_trip<T>(grid: GridView<T>)
    requires
        grid.well_formed(),
    ensures
        assemble(grid.width, grid.height, grid.cells) == Ok::<GridView<T>, GridError>(grid),
{
}

/// Whether `value` is a value that `T::default()` may return.
pub open spec fn is_default<T: Default>(value: T) -> bool {
    call_ensures(T::default, (), value)
}

/// Every position of a row-major buffer lies below the product of the
/// dimensions.
pub proof fn lemma_index_in_range(width: nat, height: nat, x: int, y: int)
    requires
        0 <= x < width,
        0 <= y < height,
    ensures
        0 <= y * width + x < width * height,
{
    assert(y * width >= 0) by (nonlinear_arith)
        requires
            y >= 0,
            width >= 0,
    ;
    assert((y + 1) * width <= height * width) by (nonlinear_arith)
        requires
            y + 1 <= height,
            width >= 0,
    ;
    assert((y + 1) * width == y * width + width) by (nonlinear_arith);
    assert(height * width == width * height) by (nonlinear_arith);
}

/// A fixed-size grid of cells on a torus, stored row by row in one vector.
#[derive(Debug, PartialEq)]
pub struct Grid<T> {
    width: usize,
    height: usize,
    cells: Vec<T>,
}

impl<T> View for Grid<T> {
    type V = GridView<T>;

    closed spec fn view(&self) -> GridView<T> {
        GridView { width: self.width as nat, height: self.height as nat, cells: self.cells@ }
    }
}

impl<T> Grid<T> {
    /// What holds of every grid: one cell per position, and few enough cells
    /// that every position can be written as a signed coordinate.
    #[verifier::type_invariant]
    pub open spec fn valid(&self) -> bool {
        &&& self@.well_formed()
        &&& self@.cells.len() <= isize::MAX
    }
}

impl<T: Copy> Clone for Grid<T> {
    /// A second grid with the same dimensions and the same cells.
    fn clone(&self) -> (copy: Self)
        ensures
            copy@ == self@,
    {
        proof {
            use_type_invariant(self);
        }
        let count: usize = self.cells.len();
        let mut cells: Vec<T> = Vec::with_capacity(count);
        let mut copied: usize = 0;
        while copied < count
            invariant
                copied <= count,
                count == self.cells@.len(),
                cells@.len() == copied,
                forall|i: int| 0 <= i < copied ==> cells@[i] == self.cells@[i],
            decreases count - copied,
        {
            cells.push(self.cells[copied]);
            copied += 1;
        }
        assert(cells@ =~= self.cells@);
        Grid { width: self.width, height: self.height, cells }
    }
}

impl<T: Copy + Default> Grid<T> {
    /// Creates a grid of the given size with every cell set to the default
    /// value of the cell type. The cells must fit in one allocation.
    pub fn new(width: usize, height: usize) -> (grid: Self)
        requires
            width * height <= isize::MAX,
        ensures
            grid@.width == width,
            grid@.height == height,
            grid@.cells.len() == width * height,
            forall|i: int| 0 <= i < grid@.cells.len() ==> is_default(#[trigger] grid@.cells[i]),
    {
        let count: usize = width * height;
        let blank = T::default();
        let mut cells: Vec<T> = Vec::with_capacity(count);
        let mut filled: usize = 0;
        while filled < count
            invariant
                filled <= count,
                cells@.len() == filled,
                is_default(blank),
                forall|i: int| 0 <= i < filled ==> cells@[i] == blank,
            decreases count - filled,
        {
            cells.push(blank);
            filled += 1;
        }
        Grid { width, height, cells }
    }

    /// Builds a grid from its dimensions and its cells in row-major order.
    /// The cells are taken as they are; a vector of any other length than
    /// `width * height` is refused. No vector of cells that take up memory
    /// is longer than `isize::MAX`; the verifier does not know this of a
    /// vector, so the caller states it.
    pub fn from_raw(width: usize, height: usize, cells: Vec<T>) -> (result: Result<Self, GridError>)
        requires
            cells@.len() <= isize::MAX,
        ensures
            result is Ok <==> cells@.len() == width * height,
            match result {
                Ok(grid) => assemble(width as nat, height as nat, cells@) == Ok::<
                    GridView<T>,
                    GridError,
                >(grid@),
                Err(e) => assemble(width as nat, height as nat, cells@) == Err::<
                    GridView<T>,
                    GridError,
                >(e),
            },
    {
        match width.checked_mul(height) {
            Some(count) => {
                if cells.len() == count {
                    Ok(Grid { width, height, cells })
                } else {
                    Err(GridError::DimensionMismatch)
                }
            },
            None => Err(GridError::DimensionMismatch),
        }
    }

    /// The number of columns.
    pub fn width(&self) -> (w: usize)
        ensures
            w == self@.width,
    {
        self.width
    }

    /// The number of rows.
    pub fn height(&self) -> (h: usize)
        ensures
            h == self@.height,
    {
        self.height
    }

    /// The position in the row-major buffer of the cell that `(x, y)` reaches
    /// on the torus. Coordinates left of column 0 or above row 0 come back in
    /// from the far edge, and so do those past the last column or row.
    pub fn get_index(&self, x: isize, y: isize) -> (index: usize)
        requires
            self@.width > 0,
            self@.height > 0,
        ensures
            index == self@.index_of(x as int, y as int),
            index < self@.cells.len(),
    {
        proof {
            use_type_invariant(self);
            lemma_mul_inequality(1, self.height as int, self.width as int);
            lemma_mul_inequality(1, self.width as int, self.height as int);
            lemma_mul_is_commutative(self.width as int, self.height as int);
        }
        let rows: isize = self.height as isize;
        let columns: isize = self.width as isize;
        let y_wrapped: usize = y.checked_rem_euclid(rows).unwrap() as usize;
        let x_wrapped: usize = x.checked_rem_euclid(columns).unwrap() as usize;
        proof {
            lemma_index_in_range(self@.width, self@.height, x_wrapped as int, y_wrapped as int);
        }
        y_wrapped * self.width + x_wrapped
    }

    /// Reads the cell that `(x, y)` reaches on the torus. Any pair of
    /// integers is a coordinate.
    pub fn get(&self, x: isize, y: isize) -> (value: T)
        requires
            self@.width > 0,
            self@.height > 0,
        ensures
            value == self@.at(x as int, y as int),
    {
        let index = self.get_index(x, y);
        self.cells[index]
    }

    /// Writes `value` to the cell in column `x` of row `y`. No other cell
    /// changes.
    pub fn set(&mut self, x: usize, y: usize, value: T)
        requires
            x < old(self)@.width,
            y < old(self)@.height,
        ensures
            final(self)@ == old(self)@.put(x as int, y as int, value),
    {
        proof {
            use_type_invariant(&*self);
            lemma_index_in_range(self@.width, self@.height, x as int, y as int);
        }
        let index: usize = y * self.width + x;
        self.cells[index] = value;
    }

    /// The cells in row-major order, one after another with nothing between
    /// them.
    pub fn as_raw(&self) -> (cells: &[T])
        ensures
            cells@ == self@.cells,
            cells@.len() == self@.width * self@.height,
            assemble(self@.width, self@.height, cells@) == Ok::<GridView<T>, GridError>(self@),
    {
        proof {
            use_type_invariant(self);
        }
        self.cells.as_slice()
    }
}

} // verus!
