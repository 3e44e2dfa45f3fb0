//! The simulation: the initial grid grown from a seed, the rule by which one
//! generation follows another, and the run over many generations.

use vstd::prelude::*;
use vstd::arithmetic::div_mod::lemma_fundamental_div_mod_converse;
use vstd::arithmetic::div_mod::lemma_mod_bound;
use vstd::arithmetic::mul::lemma_mul_inequality;
use vstd::arithmetic::mul::lemma_mul_is_commutative;
use vstd::arithmetic::mul::lemma_mul_is_distributive_add_other_way;
use crate::digest::{credential_seed, derive_seed};
use crate::grid::{lemma_index_in_range, Grid, GridView};
use crate::rng::{cell_of, initial_state, state_after, Xorshift32};

verus! {

/// The cells that a seed grows into: cell `i` is the cell value of the
/// generator's state after `i + 1` rounds.
pub open spec fn noise(seed: u32, count: nat) -> Seq<u8> {
    Seq::new(count, |i: int| cell_of(state_after(initial_state(seed), (i + 1) as nat)))
}

/// The initial grid of a seed: cells drawn from the generator one by one
/// and laid out row by row.
pub open spec fn seeded_grid(seed: u32, width: nat, height: nat) -> GridView<u8> {
    GridView { width, height, cells: noise(seed, width * height) }
}

/// Fills a grid of the given size with the cell values that a generator
/// started from `seed` gives out, in row-major order.
pub fn grid_from_seed(seed: u32, width: usize, height: usize) -> (grid: Grid<u8>)
    requires
        width * height <= isize::MAX,
    ensures
        grid@ == seeded_grid(seed, width as nat, height as nat),
{
    let count: usize = width * height;
    let mut rng = Xorshift32::new(seed);
    let mut cells: Vec<u8> = Vec::with_capacity(count);
    let mut drawn: usize = 0;
    while drawn < count
        invariant
            drawn <= count,
            cells@.len() == drawn,
            rng@ == state_after(initial_state(seed), drawn as nat),
            forall|i: int| 0 <= i < drawn ==> cells@[i] == noise(seed, count as nat)[i],
        decreases count - drawn,
    {
        let cell = rng.next_bool();
        cells.push(cell);
        drawn += 1;
    }
    assert(cells@ =~= noise(seed, count as nat));
    Grid::from_raw(width, height, cells).unwrap()
}

/// Generates the initial grid of a pair of credentials: the grid of the
/// seed derived from them.
pub fn generate_grid_from_seed(username: &str, password: &str, width: usize, height: usize) -> (grid:
    Grid<u8>)
    requires
        width * height <= isize::MAX,
    ensures
        grid@ == seeded_grid(credential_seed(username@, password@), width as nat, height as nat),
{
    let seed = derive_seed(username, password);
    grid_from_seed(seed, width, height)
}

/// 1 for a live cell, 0 for any other.
pub open spec fn live(cell: u8) -> nat {
    if cell == 1 {
        1
    } else {
        0
    }
}

/// The eight steps from a cell to the cells around it, row by row.
pub open spec fn neighbor_offsets() -> Seq<(int, int)> {
    seq![(-1, -1), (0, -1), (1, -1), (-1, 0), (1, 0), (-1, 1), (0, 1), (1, 1)]
}

/// How many of the first `upto` neighbors of `(x, y)` are live.
pub open spec fn live_among(grid: GridView<u8>, x: int, y: int, upto: nat) -> nat
    decreases upto,
{
    if upto == 0 {
        0
    } else {
        let step = neighbor_offsets()[upto - 1];
        live_among(grid, x, y, (upto - 1) as nat) + live(grid.at(x + step.0, y + step.1))
    }
}

/// How many of the eight cells around `(x, y)` on the torus are live.
pub open spec fn live_neighbors(grid: GridView<u8>, x: int, y: int) -> nat {
    live(grid.at(x - 1, y - 1)) + live(grid.at(x, y - 1)) + live(grid.at(x + 1, y - 1)) + live(
        grid.at(x - 1, y),
    ) + live(grid.at(x + 1, y)) + live(grid.at(x - 1, y + 1)) + live(grid.at(x, y + 1)) + live(
        grid.at(x + 1, y + 1),
    )
}

/// Going through all eight offsets counts the eight cells around `(x, y)`.
proof fn lemma_live_among_all(grid: GridView<u8>, x: int, y: int)
    ensures
        live_among(grid, x, y, 8) == live_neighbors(grid, x, y),
{
    reveal_with_fuel(live_among, 9);
}

/// Counts the live cells among the eight cells around `(x, y)`, which wrap
/// around the edges of the grid.
pub fn count_neighbors(grid: &Grid<u8>, x: isize, y: isize) -> (count: u8)
    requires
        grid@.width > 0,
        grid@.height > 0,
        isize::MIN < x < isize::MAX,
        isize::MIN < y < isize::MAX,
    ensures
        count == live_neighbors(grid@, x as int, y as int),
{
    let offsets: [(isize, isize); 8] = [
        (-1, -1),
        (0, -1),
        (1, -1),
        (-1, 0),
        (1, 0),
        (-1, 1),
        (0, 1),
        (1, 1),
    ];
    let mut count: u8 = 0;
    let mut i: usize = 0;
    while i < 8
        invariant
            i <= 8,
            grid@.width > 0,
            grid@.height > 0,
            isize::MIN < x < isize::MAX,
            isize::MIN < y < isize::MAX,
            count == live_among(grid@, x as int, y as int, i as nat),
            count <= i,
            forall|k: int|
                0 <= k < 8 ==> offsets@[k].0 == neighbor_offsets()[k].0 && offsets@[k].1
                    == neighbor_offsets()[k].1,
        decreases 8 - i,
    {
        let (dx, dy) = offsets[i];
        if grid.get(x + dx, y + dy) == 1 {
            count += 1;
        }
        i += 1;
    }
    proof {
        lemma_live_among_all(grid@, x as int, y as int);
    }
    count
}

/// The next value of a cell from its value and the number of its live
/// neighbors: a live cell stays with two or three of them, an empty cell
/// comes alive with exactly three, and every other cell is empty.
pub open spec fn rule(cell: u8, neighbors: nat) -> u8 {
    if cell == 1 && (neighbors == 2 || neighbors == 3) {
        1
    } else if cell == 0 && neighbors == 3 {
        1
    } else {
        0
    }
}

/// The next value of the cell at `(x, y)`, from the grid as it is now.
pub open spec fn next_cell(grid: GridView<u8>, x: int, y: int) -> u8 {
    rule(grid.at(x, y), live_neighbors(grid, x, y))
}

/// The next generation: a grid of the same size in which every cell holds
/// its next value, each taken from the grid as it was.
pub open spec fn step(grid: GridView<u8>) -> GridView<u8> {
    GridView {
        width: grid.width,
        height: grid.height,
        cells: Seq::new(
            grid.width * grid.height,
            |i: int| next_cell(grid, i % (grid.width as int), i / (grid.width as int)),
        ),
    }
}

/// The grid after `steps` generations.
pub open spec fn evolve(grid: GridView<u8>, steps: nat) -> GridView<u8>
    decreases steps,
{
    if steps == 0 {
        grid
    } else {
        step(evolve(grid, (steps - 1) as nat))
    }
}

/// Every coordinate reaches a cell of a grid that has cells at all.
proof fn lemma_reaches_a_cell(grid: GridView<u8>, x: int, y: int)
    requires
        grid.width > 0,
        grid.height > 0,
    ensures
        0 <= grid.index_of(x, y) < grid.width * grid.height,
{
    lemma_mod_bound(x, grid.width as int);
    lemma_mod_bound(y, grid.height as int);
    lemma_index_in_range(
        grid.width,
        grid.height,
        x % (grid.width as int),
        y % (grid.height as int),
    );
}

/// Nothing is born on a grid without live cells: the generation after a
/// grid that holds only zeros holds only zeros.
pub proof fn lemma_blank_stays_blank(grid: GridView<u8>)
    requires
        grid.well_formed(),
        forall|i: int| 0 <= i < grid.cells.len() ==> grid.cells[i] == 0,
    ensures
        step(grid).well_formed(),
        forall|i: int| 0 <= i < step(grid).cells.len() ==> step(grid).cells[i] == 0,
{
    assert forall|i: int| 0 <= i < step(grid).cells.len() implies step(grid).cells[i] == 0 by {
        assert(grid.width > 0 && grid.height > 0) by (nonlinear_arith)
            requires
                0 <= i < grid.width * grid.height,
        ;
        let x = i % (grid.width as int);
        let y = i / (grid.width as int);
        lemma_reaches_a_cell(grid, x - 1, y - 1);
        lemma_reaches_a_cell(grid, x, y - 1);
        lemma_reaches_a_cell(grid, x + 1, y - 1);
        lemma_reaches_a_cell(grid, x - 1, y);
        lemma_reaches_a_cell(grid, x + 1, y);
        lemma_reaches_a_cell(grid, x - 1, y + 1);
        lemma_reaches_a_cell(grid, x, y + 1);
        lemma_reaches_a_cell(grid, x + 1, y + 1);
        assert(live_neighbors(grid, x, y) == 0);
    }
}

/// A generation has the size of the one before it, and each of its cells
/// is empty or live.
pub proof fn lemma_step_keeps_shape(grid: GridView<u8>)
    ensures
        step(grid).width == grid.width,
        step(grid).height == grid.height,
        step(grid).well_formed(),
        forall|i: int|
            0 <= i < step(grid).cells.len() ==> step(grid).cells[i] == 0 || step(grid).cells[i]
                == 1,
{
}

/// Running for no steps changes nothing.
pub proof fn lemma_no_steps(grid: GridView<u8>)
    ensures
        evolve(grid, 0) == grid,
{
}

/// Column `x` of row `y` is the one position of the row-major buffer that
/// splits back into `x` and `y`, and the coordinates reach it unwrapped.
proof fn lemma_position(grid: GridView<u8>, x: int, y: int)
    requires
        0 <= x < grid.width,
        0 <= y < grid.height,
    ensures
        0 <= y * grid.width + x < grid.width * grid.height,
        (y * grid.width + x) % (grid.width as int) == x,
        (y * grid.width + x) / (grid.width as int) == y,
        grid.index_of(x, y) == y * grid.width + x,
{
    lemma_index_in_range(grid.width, grid.height, x, y);
    lemma_fundamental_div_mod_converse(y * grid.width + x, grid.width as int, y, x);
    lemma_fundamental_div_mod_converse(x, grid.width as int, 0, x);
    lemma_fundamental_div_mod_converse(y, grid.height as int, 0, y);
}

/// Advances the grid by one generation. The grid given is only read; the
/// next generation is built beside it.
pub fn tick(current: &Grid<u8>) -> (next: Grid<u8>)
    ensures
        next@ == step(current@),
{
    let width = current.width();
    let height = current.height();
    proof {
        use_type_invariant(current);
    }
    let mut next: Grid<u8> = Grid::new(width, height);
    let mut y: usize = 0;
    while y < height
        invariant
            y <= height,
            current@.width == width,
            current@.height == height,
            current@.cells.len() == width * height,
            width * height <= isize::MAX,
            next@.width == width,
            next@.height == height,
            next@.cells.len() == width * height,
            y * width <= width * height,
            forall|i: int| 0 <= i < y * width ==> next@.cells[i] == step(current@).cells[i],
        decreases height - y,
    {
        let mut x: usize = 0;
        while x < width
            invariant
                x <= width,
                y < height,
                current@.width == width,
                current@.height == height,
                current@.cells.len() == width * height,
                width * height <= isize::MAX,
                next@.width == width,
                next@.height == height,
                next@.cells.len() == width * height,
                y * width + x <= width * height,
                forall|i: int| 0 <= i < y * width + x ==> next@.cells[i] == step(current@).cells[i],
            decreases width - x,
        {
            proof {
                lemma_position(current@, x as int, y as int);
                lemma_mul_inequality(1, height as int, width as int);
                lemma_mul_inequality(1, width as int, height as int);
                lemma_mul_is_commutative(width as int, height as int);
            }
            let neighbors = count_neighbors(current, x as isize, y as isize);
            let state = current.get(x as isize, y as isize);
            let new_state: u8 = match (state, neighbors) {
                (1, 2) | (1, 3) => 1,
                (0, 3) => 1,
                _ => 0,
            };
            next.set(x, y, new_state);
            x += 1;
            proof {
                lemma_index_in_range(width as nat, height as nat, x - 1, y as int);
            }
        }
        proof {
            lemma_mul_is_distributive_add_other_way(width as int, y as int, 1);
        }
        y += 1;
    }
    proof {
        lemma_mul_is_commutative(width as int, height as int);
    }
    assert(next@.cells =~= step(current@).cells);
    next
}

/// Runs the simulation for `steps` generations and returns the last one.
/// With no steps the grid comes back as it was given.
pub fn run_simulation(grid: Grid<u8>, steps: usize) -> (last: Grid<u8>)
    ensures
        last@ == evolve(grid@, steps as nat),
{
    let ghost initial = grid@;
    let mut current = grid;
    let mut done: usize = 0;
    while done < steps
        invariant
            done <= steps,
            current@ == evolve(initial, done as nat),
        decreases steps - done,
    {
        current = tick(&current);
        done += 1;
    }
    current
}

} // verus!
