use gridwalk::grid::FormatError;
use gridwalk::grid::Grid;
use gridwalk::grid::WALKABLE;

fn sample() -> Grid {
    Grid::from_rows(vec![vec![0, 1, 1], vec![0, 1, 0], vec![1, 1, 1]]).unwrap()
}

fn texts(rows: Vec<Vec<&str>>) -> Vec<Vec<String>> {
    rows.into_iter().map(|row| row.into_iter().map(|cell| cell.to_string()).collect()).collect()
}

#[test]
fn walkable_is_the_tile_index_one() {
    assert_eq!(WALKABLE, 1);
    let grid = sample();
    assert!(!grid.is_walkable(0, 0));
    assert!(grid.is_walkable(1, 0));
    assert!(grid.is_walkable(2, 0));
    assert!(!grid.is_walkable(0, 1));
    assert!(grid.is_walkable(1, 1));
    assert!(!grid.is_walkable(2, 1));
    assert!(grid.is_walkable(0, 2));
    assert!(grid.is_walkable(1, 2));
    assert!(grid.is_walkable(2, 2));
}

#[test]
fn other_tile_indices_are_obstacles() {
    let grid = Grid::from_rows(vec![vec![2, -1, 1, 0, 11]]).unwrap();
    assert!(!grid.is_walkable(0, 0));
    assert!(!grid.is_walkable(1, 0));
    assert!(grid.is_walkable(2, 0));
    assert!(!grid.is_walkable(3, 0));
    assert!(!grid.is_walkable(4, 0));
}

#[test]
fn outside_the_grid_nothing_is_walkable() {
    let grid = Grid::from_rows(vec![vec![1, 1], vec![1, 1]]).unwrap();
    assert!(!grid.is_walkable(-1, 0));
    assert!(!grid.is_walkable(0, -1));
    assert!(!grid.is_walkable(2, 0));
    assert!(!grid.is_walkable(0, 2));
    assert!(!grid.is_walkable(2, 2));
    assert!(!grid.is_walkable(i32::MIN, 0));
    assert!(!grid.is_walkable(0, i32::MAX));
    assert!(!grid.is_walkable(i32::MAX, i32::MIN));
}

#[test]
fn is_walkable_answers_the_same_each_time_and_leaves_the_grid_alone() {
    let grid = sample();
    let before = grid.rows().clone();
    for y in -1..4 {
        for x in -1..4 {
            let first = grid.is_walkable(x, y);
            let second = grid.is_walkable(x, y);
            assert_eq!(first, second);
        }
    }
    assert_eq!(*grid.rows(), before);
}

#[test]
fn size_and_tiles_are_those_of_the_rows() {
    let grid = Grid::from_rows(vec![vec![5, 6, 7], vec![8, 9, 10]]).unwrap();
    assert_eq!(grid.height(), 2);
    assert_eq!(grid.width(), 3);
    assert_eq!(grid.tile(0, 0), Some(5));
    assert_eq!(grid.tile(2, 1), Some(10));
    assert_eq!(grid.tile(3, 1), None);
    assert_eq!(grid.tile(0, 2), None);
    assert_eq!(grid.tile(-1, 0), None);
    assert!(grid.contains(2, 1));
    assert!(!grid.contains(2, 2));
    assert_eq!(*grid.rows(), vec![vec![5, 6, 7], vec![8, 9, 10]]);
}

#[test]
fn a_grid_without_rows_has_no_cells() {
    let grid = Grid::from_rows(Vec::new()).unwrap();
    assert_eq!(grid.height(), 0);
    assert_eq!(grid.width(), 0);
    assert!(!grid.is_walkable(0, 0));
    assert!(!grid.contains(0, 0));
}

#[test]
fn rows_of_different_lengths_are_refused() {
    assert_eq!(Grid::from_rows(vec![vec![1, 1], vec![1]]).err(), Some(FormatError::RaggedRows));
    assert_eq!(Grid::from_rows(vec![vec![], vec![1]]).err(), Some(FormatError::RaggedRows));
    assert_eq!(
        Grid::from_rows(vec![vec![1, 2], vec![3, 4], vec![5, 6, 7]]).err(),
        Some(FormatError::RaggedRows)
    );
}

#[test]
fn records_become_rows_of_tile_indices() {
    let grid = Grid::from_records(&texts(vec![vec!["0", "1", "12"], vec!["-3", "+4", "007"]]))
        .unwrap();
    assert_eq!(*grid.rows(), vec![vec![0, 1, 12], vec![-3, 4, 7]]);
}

#[test]
fn records_of_different_lengths_are_refused() {
    let ragged = texts(vec![vec!["0", "1"], vec!["1"]]);
    assert_eq!(Grid::from_records(&ragged).err(), Some(FormatError::RaggedRows));
}

#[test]
fn a_field_that_is_no_integer_is_refused() {
    let letters = texts(vec![vec!["0", "1"], vec!["1", "x"]]);
    assert_eq!(Grid::from_records(&letters).err(), Some(FormatError::InvalidCell));
    let blank = texts(vec![vec!["0", ""]]);
    assert_eq!(Grid::from_records(&blank).err(), Some(FormatError::InvalidCell));
    let spaced = texts(vec![vec!["0", " 1"]]);
    assert_eq!(Grid::from_records(&spaced).err(), Some(FormatError::InvalidCell));
    let large = texts(vec![vec!["2147483648"]]);
    assert_eq!(Grid::from_records(&large).err(), Some(FormatError::InvalidCell));
}

#[test]
fn ragged_records_are_reported_before_bad_fields() {
    let both = texts(vec![vec!["x", "1"], vec!["1"]]);
    assert_eq!(Grid::from_records(&both).err(), Some(FormatError::RaggedRows));
}

#[test]
fn text_is_split_at_commas_and_line_ends() {
    let grid = Grid::load("0,1,1\n0,1,0\n1,1,1\n").unwrap();
    assert_eq!(*grid.rows(), vec![vec![0, 1, 1], vec![0, 1, 0], vec![1, 1, 1]]);
    assert_eq!(grid.width(), 3);
    assert_eq!(grid.height(), 3);
}

#[test]
fn the_first_line_is_a_row_and_no_header() {
    let grid = Grid::load("7,8\n9,10").unwrap();
    assert_eq!(*grid.rows(), vec![vec![7, 8], vec![9, 10]]);
}

#[test]
fn text_with_other_line_ends_and_quotes_is_read() {
    let grid = Grid::load("1,2\r\n\"3\",4\r\n").unwrap();
    assert_eq!(*grid.rows(), vec![vec![1, 2], vec![3, 4]]);
}

#[test]
fn empty_text_is_a_grid_without_rows() {
    let grid = Grid::load("").unwrap();
    assert_eq!(grid.height(), 0);
    assert_eq!(grid.width(), 0);
}

#[test]
fn text_with_lines_of_different_lengths_is_refused() {
    assert!(Grid::load("0,1,1\n0,1\n").is_err());
    assert_eq!(Grid::load("0,1,1\n0,1\n").err(), Some(FormatError::Malformed));
}

#[test]
fn text_with_a_field_that_is_no_integer_is_refused() {
    assert_eq!(Grid::load("0,1\n1,wall\n").err(), Some(FormatError::InvalidCell));
    assert_eq!(Grid::load("0,1\n1, 1\n").err(), Some(FormatError::InvalidCell));
    assert_eq!(Grid::load("0,1\n1,\n").err(), Some(FormatError::InvalidCell));
    assert_eq!(Grid::load("0,1.5\n").err(), Some(FormatError::InvalidCell));
}
