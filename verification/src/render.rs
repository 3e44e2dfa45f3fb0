//! Text forms of a grid: a plain-text image for viewers, and a short
//! preview for the console.

use vstd::prelude::*;
use vstd::string::StringExecFns;
use crate::grid::{lemma_index_in_range, Grid, GridView};

verus! {

/// The character for a decimal digit.
pub open spec fn digit_char(digit: int) -> char {
    seq!['0', '1', '2', '3', '4', '5', '6', '7', '8', '9'][digit]
}

/// A number written in decimal, without sign, padding or leading zeros.
pub open spec fn decimal(n: nat) -> Seq<char>
    decreases n,
{
    if n < 10 {
        seq![digit_char(n as int)]
    } else {
        decimal(n / 10).push(digit_char((n % 10) as int))
    }
}

/// The text of one digit.
fn digit_text(digit: usize) -> (text: &'static str)
    requires
        digit < 10,
    ensures
        text@ == seq![digit_char(digit as int)],
{
    proof {
        reveal_strlit("0");
        reveal_strlit("1");
        reveal_strlit("2");
        reveal_strlit("3");
        reveal_strlit("4");
        reveal_strlit("5");
        reveal_strlit("6");
        reveal_strlit("7");
        reveal_strlit("8");
        reveal_strlit("9");
    }
    let text = match digit {
        0 => "0",
        1 => "1",
        2 => "2",
        3 => "3",
        4 => "4",
        5 => "5",
        6 => "6",
        7 => "7",
        8 => "8",
        _ => "9",
    };
    assert(text@ =~= seq![digit_char(digit as int)]);
    text
}

/// Appends `n` in decimal to `text`.
pub fn append_decimal(text: &mut String, n: usize)
    ensures
        final(text)@ == old(text)@ + decimal(n as nat),
    decreases n,
{
    if n < 10 {
        text.append(digit_text(n));
    } else {
        append_decimal(text, n / 10);
        text.append(digit_text(n % 10));
        assert(text@ =~= old(text)@ + decimal(n as nat));
    }
}

/// The three colour values of a pixel, each followed by a space: black
/// for a live cell, white for any other.
pub open spec fn pixel_text(cell: u8) -> Seq<char> {
    if cell == 1 {
        "0 0 0 "@
    } else {
        "255 255 255 "@
    }
}

/// The pixels of the first `upto` cells of row `y`.
pub open spec fn pixel_row(grid: GridView<u8>, y: int, upto: nat) -> Seq<char>
    decreases upto,
{
    if upto == 0 {
        Seq::empty()
    } else {
        pixel_row(grid, y, (upto - 1) as nat) + pixel_text(
            grid.cells[y * grid.width + (upto - 1)],
        )
    }
}

/// The first `upto` rows of pixels, each row ended by a line break.
pub open spec fn pixel_rows(grid: GridView<u8>, upto: nat) -> Seq<char>
    decreases upto,
{
    if upto == 0 {
        Seq::empty()
    } else {
        pixel_rows(grid, (upto - 1) as nat) + pixel_row(grid, upto - 1, grid.width) + "\n"@
    }
}

/// The head of a plain-text image: the format, the width and the height,
/// and the highest colour value.
pub open spec fn image_header(width: nat, height: nat) -> Seq<char> {
    "P3\n"@ + decimal(width) + " "@ + decimal(height) + "\n255\n"@
}

/// A grid as a plain-text Netpbm image with one pixel per cell.
pub open spec fn image_text(grid: GridView<u8>) -> Seq<char> {
    image_header(grid.width, grid.height) + pixel_rows(grid, grid.height)
}

/// Writes the grid as a plain-text Netpbm image (`P3`): live cells black,
/// all others white, one pixel per cell and one line per row.
pub fn ppm_image(grid: &Grid<u8>) -> (text: String)
    ensures
        text@ == image_text(grid@),
{
    let width = grid.width();
    let height = grid.height();
    let cells = grid.as_raw();
    proof {
        use_type_invariant(grid);
    }
    let mut text = String::new();
    text.append("P3\n");
    append_decimal(&mut text, width);
    text.append(" ");
    append_decimal(&mut text, height);
    text.append("\n255\n");
    assert(text@ =~= image_header(grid@.width, grid@.height));
    let mut y: usize = 0;
    while y < height
        invariant
            y <= height,
            grid@.width == width,
            grid@.height == height,
            cells@ == grid@.cells,
            cells@.len() == width * height,
            width * height <= isize::MAX,
            text@ == image_header(grid@.width, grid@.height) + pixel_rows(grid@, y as nat),
        decreases height - y,
    {
        let ghost before = text@;
        let mut x: usize = 0;
        while x < width
            invariant
                x <= width,
                y < height,
                grid@.width == width,
                grid@.height == height,
                cells@ == grid@.cells,
                cells@.len() == width * height,
                width * height <= isize::MAX,
                text@ == before + pixel_row(grid@, y as int, x as nat),
            decreases width - x,
        {
            proof {
                lemma_index_in_range(width as nat, height as nat, x as int, y as int);
            }
            let cell = cells[y * width + x];
            if cell == 1 {
                text.append("0 0 0 ");
            } else {
                text.append("255 255 255 ");
            }
            x += 1;
            assert(text@ =~= before + pixel_row(grid@, y as int, x as nat));
        }
        text.append("\n");
        y += 1;
        assert(text@ =~= image_header(grid@.width, grid@.height) + pixel_rows(grid@, y as nat));
    }
    text
}

/// The most rows, and the most columns, that a preview shows.
pub const PREVIEW_LIMIT: usize = 64;

/// A side of the preview: the side of the grid, cut at the limit.
pub open spec fn preview_side(side: nat) -> nat {
    if side < PREVIEW_LIMIT {
        side
    } else {
        PREVIEW_LIMIT as nat
    }
}

/// The mark of a cell in a preview: a dot for an empty cell, the marker
/// for any other.
pub open spec fn cell_mark(cell: u8) -> Seq<char> {
    if cell > 0 {
        "\u{e2}\u{2013}\u{2c6}"@
    } else {
        "."@
    }
}

/// The marks of the first `upto` cells of row `y`.
pub open spec fn mark_row(grid: GridView<u8>, y: int, upto: nat) -> Seq<char>
    decreases upto,
{
    if upto == 0 {
        Seq::empty()
    } else {
        mark_row(grid, y, (upto - 1) as nat) + cell_mark(grid.cells[y * grid.width + (upto - 1)])
    }
}

/// The first `upto` rows of marks, `columns` cells of each, every row
/// ended by a line break.
pub open spec fn mark_rows(grid: GridView<u8>, columns: nat, upto: nat) -> Seq<char>
    decreases upto,
{
    if upto == 0 {
        Seq::empty()
    } else {
        mark_rows(grid, columns, (upto - 1) as nat) + mark_row(grid, upto - 1, columns) + "\n"@
    }
}

/// The title line of a preview, with the size of the part shown.
pub open spec fn preview_title(columns: nat, rows: nat) -> Seq<char> {
    "Grid Preview ("@ + decimal(columns) + "x"@ + decimal(rows) + "):\n"@
}

/// The preview of a grid: a title, the top left corner of the grid up to
/// the limit in each direction, and a closing line when rows were left out.
pub open spec fn preview_text(grid: GridView<u8>) -> Seq<char> {
    let columns = preview_side(grid.width);
    let rows = preview_side(grid.height);
    preview_title(columns, rows) + mark_rows(grid, columns, rows) + if grid.height
        > PREVIEW_LIMIT {
        "... (truncated)\n"@
    } else {
        Seq::empty()
    }
}

impl Grid<u8> {
    /// Draws the grid for the console, one character per cell, showing at
    /// most 64 rows and 64 columns.
    pub fn preview(&self) -> (text: String)
        ensures
            text@ == preview_text(self@),
    {
        let width = self.width();
        let height = self.height();
        let cells = self.as_raw();
        proof {
            use_type_invariant(self);
        }
        let rows: usize = if height < PREVIEW_LIMIT {
            height
        } else {
            PREVIEW_LIMIT
        };
        let columns: usize = if width < PREVIEW_LIMIT {
            width
        } else {
            PREVIEW_LIMIT
        };
        let mut text = String::new();
        text.append("Grid Preview (");
        append_decimal(&mut text, columns);
        text.append("x");
        append_decimal(&mut text, rows);
        text.append("):\n");
        assert(text@ =~= preview_title(columns as nat, rows as nat));
        let mut y: usize = 0;
        while y < rows
            invariant
                y <= rows <= height,
                columns <= width,
                self@.width == width,
                self@.height == height,
                cells@ == self@.cells,
                cells@.len() == width * height,
                width * height <= isize::MAX,
                text@ == preview_title(columns as nat, rows as nat) + mark_rows(
                    self@,
                    columns as nat,
                    y as nat,
                ),
            decreases rows - y,
        {
            let ghost before = text@;
            let mut x: usize = 0;
            while x < columns
                invariant
                    x <= columns <= width,
                    y < height,
                    self@.width == width,
                    self@.height == height,
                    cells@ == self@.cells,
                    cells@.len() == width * height,
                    width * height <= isize::MAX,
                    text@ == before + mark_row(self@, y as int, x as nat),
                decreases columns - x,
            {
                proof {
                    lemma_index_in_range(width as nat, height as nat, x as int, y as int);
                }
                let cell = cells[y * width + x];
                if cell > 0 {
                    text.append("\u{e2}\u{2013}\u{2c6}");
                } else {
                    text.append(".");
                }
                x += 1;
                assert(text@ =~= before + mark_row(self@, y as int, x as nat));
            }
            text.append("\n");
            y += 1;
            assert(text@ =~= preview_title(columns as nat, rows as nat) + mark_rows(
                self@,
                columns as nat,
                y as nat,
            ));
        }
        if height > PREVIEW_LIMIT {
            text.append("... (truncated)\n");
        }
        assert(text@ =~= preview_text(self@));
        text
    }
}

} // verus!
