use inkverify_core::grid::Grid;
use inkverify_core::render::{append_decimal, ppm_image};

const MARK: &str = "\u{e2}\u{2013}\u{2c6}";

#[test]
fn decimal_of_small_and_large_numbers() {
    for n in [0usize, 1, 9, 10, 11, 99, 100, 255, 1000, 65_535, 1_000_000, usize::MAX] {
        let mut text = String::new();
        append_decimal(&mut text, n);
        assert_eq!(text, format!("{}", n));
    }
}

#[test]
fn decimal_is_appended_after_what_is_there() {
    let mut text = String::from("n=");
    append_decimal(&mut text, 407);
    append_decimal(&mut text, 0);
    assert_eq!(text, "n=4070");
}

#[test]
fn image_of_a_small_grid() {
    let grid = Grid::from_raw(2, 2, vec![1u8, 0, 0, 1]).unwrap();
    assert_eq!(
        ppm_image(&grid),
        "P3\n2 2\n255\n0 0 0 255 255 255 \n255 255 255 0 0 0 \n"
    );
}

#[test]
fn image_header_gives_width_before_height() {
    let grid: Grid<u8> = Grid::new(3, 1);
    assert_eq!(ppm_image(&grid), "P3\n3 1\n255\n255 255 255 255 255 255 255 255 255 \n");
    let grid: Grid<u8> = Grid::new(1, 3);
    assert_eq!(ppm_image(&grid), "P3\n1 3\n255\n255 255 255 \n255 255 255 \n255 255 255 \n");
}

#[test]
fn image_paints_only_cells_equal_to_one_black() {
    let grid = Grid::from_raw(3, 1, vec![2u8, 1, 255]).unwrap();
    assert_eq!(ppm_image(&grid), "P3\n3 1\n255\n255 255 255 0 0 0 255 255 255 \n");
}

#[test]
fn image_of_an_empty_grid_is_its_header() {
    let grid: Grid<u8> = Grid::new(0, 0);
    assert_eq!(ppm_image(&grid), "P3\n0 0\n255\n");
    let grid: Grid<u8> = Grid::new(0, 2);
    assert_eq!(ppm_image(&grid), "P3\n0 2\n255\n\n\n");
}

#[test]
fn image_of_a_large_grid() {
    let grid: Grid<u8> = Grid::new(200, 120);
    let text = ppm_image(&grid);
    assert!(text.starts_with("P3\n200 120\n255\n255 255 255 "));
    assert_eq!(text.len(), 15 + 120 * (200 * 12 + 1));
    assert_eq!(text.lines().count(), 3 + 120);
}

#[test]
fn preview_of_a_small_grid() {
    let grid = Grid::from_raw(2, 2, vec![1u8, 0, 0, 2]).unwrap();
    assert_eq!(grid.preview(), format!("Grid Preview (2x2):\n{}.\n.{}\n", MARK, MARK));
}

#[test]
fn preview_of_a_wide_grid_is_cut_at_64_columns() {
    let mut grid: Grid<u8> = Grid::new(70, 2);
    grid.set(63, 0, 1);
    grid.set(64, 0, 1);
    grid.set(0, 1, 1);
    let first = format!("{}{}", ".".repeat(63), MARK);
    let second = format!("{}{}", MARK, ".".repeat(63));
    assert_eq!(grid.preview(), format!("Grid Preview (64x2):\n{}\n{}\n", first, second));
}

#[test]
fn preview_of_a_tall_grid_says_that_it_is_cut() {
    let mut grid: Grid<u8> = Grid::new(2, 65);
    grid.set(1, 63, 1);
    grid.set(1, 64, 1);
    let mut expected = String::from("Grid Preview (2x64):\n");
    for _ in 0..63 {
        expected.push_str("..\n");
    }
    expected.push_str(&format!(".{}\n", MARK));
    expected.push_str("... (truncated)\n");
    assert_eq!(grid.preview(), expected);
}

#[test]
fn preview_of_exactly_64_rows_is_whole() {
    let grid: Grid<u8> = Grid::new(64, 64);
    let text = grid.preview();
    assert!(text.starts_with("Grid Preview (64x64):\n"));
    assert!(!text.contains("truncated"));
    assert_eq!(text.lines().count(), 65);
    assert!(text.lines().skip(1).all(|line| line == ".".repeat(64)));
}

#[test]
fn preview_of_an_empty_grid_is_its_title() {
    let grid: Grid<u8> = Grid::new(0, 0);
    assert_eq!(grid.preview(), "Grid Preview (0x0):\n");
}
