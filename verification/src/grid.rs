//! The grid of tiles and the loading of one from text.
use vstd::prelude::*;
use crate::cell::cell_value;
use crate::cell::parse_cell;
use crate::point::Vector2I;
use crate::records::csv_records;
use crate::records::read_records;

verus! {

/// The tile index that marks a cell as walkable. Every other index is an
/// obstacle.
pub const WALKABLE: i32 = 1;

/// Whether all rows have the same length.
pub open spec fn rectangular<T>(rows: Seq<Seq<T>>) -> bool {
    forall|i: int, j: int|
        0 <= i < rows.len() && 0 <= j < rows.len() ==> (#[trigger] rows[i]).len()
            == (#[trigger] rows[j]).len()
}

/// The length of the first row; 0 where there is no row.
pub open spec fn width_of<T>(rows: Seq<Seq<T>>) -> nat {
    if rows.len() == 0 {
        0
    } else {
        rows[0].len()
    }
}

/// Whether `at` is the coordinate of a cell of `rows`: `at.y` counts rows
/// from the top, `at.x` cells from the left.
pub open spec fn in_bounds(rows: Seq<Seq<i32>>, at: Vector2I) -> bool {
    &&& 0 <= at.y < rows.len()
    &&& 0 <= at.x < rows[at.y].len()
}

/// Whether an entity may stand at `at`: the coordinate is inside the grid
/// and the tile there is the walkable one. Outside the grid nothing is
/// walkable.
pub open spec fn walkable(rows: Seq<Seq<i32>>, at: Vector2I) -> bool {
    in_bounds(rows, at) && rows[at.y][at.x] == WALKABLE
}

/// Whether every field of every record is the text of a cell.
pub open spec fn all_cells_valid(records: Seq<Seq<Seq<char>>>) -> bool {
    forall|i: int, j: int|
        0 <= i < records.len() && 0 <= j < records[i].len() ==> cell_value(
            #[trigger] records[i][j],
        ) is Some
}

/// The tile indices that the fields of `records` write.
pub open spec fn cell_values(records: Seq<Seq<Seq<char>>>) -> Seq<Seq<i32>> {
    Seq::new(
        records.len(),
        |i: int| Seq::new(records[i].len(), |j: int| cell_value(records[i][j]).unwrap()),
    )
}

/// What loading a grid from `records` gives: the records must all have the
/// same number of fields, and every field must be the text of a cell.
pub open spec fn parse_records(records: Seq<Seq<Seq<char>>>) -> Result<
    Seq<Seq<i32>>,
    FormatError,
> {
    if !rectangular(records) {
        Err(FormatError::RaggedRows)
    } else if !all_cells_valid(records) {
        Err(FormatError::InvalidCell)
    } else {
        Ok(cell_values(records))
    }
}

/// What loading a grid from `text` gives.
pub open spec fn parse_text(text: Seq<char>) -> Result<Seq<Seq<i32>>, FormatError> {
    match csv_records(text) {
        None => Err(FormatError::Malformed),
        Some(records) => parse_records(records),
    }
}

/// Why a grid could not be loaded.
#[derive(Clone, Copy, Debug, PartialEq, Eq, Structural)]
pub enum FormatError {
    /// The reader could not split the text into records. It also refuses
    /// text whose records differ in length.
    Malformed,
    /// Two rows handed over as rows or records differ in length.
    RaggedRows,
    /// A cell is not the text of an integer in the range of `i32`.
    InvalidCell,
}

/// A rectangular table of tile indices, fixed once it is made.
#[derive(Debug)]
pub struct Grid {
    rows: Vec<Vec<i32>>,
}

impl View for Grid {
    type V = Seq<Seq<i32>>;

    closed spec fn view(&self) -> Seq<Seq<i32>> {
        self.rows.deep_view()
    }
}

impl Grid {
    #[verifier::type_invariant]
    spec fn inv(self) -> bool {
        rectangular(self.rows.deep_view())
    }

    /// The number of rows.
    pub open spec fn spec_height(self) -> nat {
        self@.len()
    }

    /// The length of the rows; 0 for a grid without rows.
    pub open spec fn spec_width(self) -> nat {
        width_of(self@)
    }

    /// The grid with these rows, if they all have the same length.
    pub fn from_rows(rows: Vec<Vec<i32>>) -> (grid: Result<Grid, FormatError>)
        ensures
            match grid {
                Ok(g) => rectangular(rows.deep_view()) && g@ == rows.deep_view(),
                Err(e) => !rectangular(rows.deep_view()) && e == FormatError::RaggedRows,
            },
    {
        if Self::same_lengths(&rows) {
            Ok(Grid { rows })
        } else {
            Err(FormatError::RaggedRows)
        }
    }

    /// Whether all of `rows` have the length of the first.
    fn same_lengths<T: DeepView>(rows: &Vec<Vec<T>>) -> (same: bool)
        ensures
            same == rectangular(rows.deep_view()),
    {
        let mut i: usize = 1;
        while i < rows.len()
            invariant
                1 <= i,
                forall|k: int|
                    0 <= k < i && k < rows.len() ==> (#[trigger] rows@[k])@.len()
                        == rows@[0]@.len(),
            decreases rows.len() - i,
        {
            if rows[i].len() != rows[0].len() {
                assert(rows.deep_view()[i as int].len() != rows.deep_view()[0].len());
                return false;
            }
            i = i + 1;
        }
        assert forall|a: int, b: int| 0 <= a < rows.len() && 0 <= b < rows.len() implies (
        #[trigger] rows.deep_view()[a]).len() == (#[trigger] rows.deep_view()[b]).len() by {
            assert(rows@[a]@.len() == rows@[0]@.len());
            assert(rows@[b]@.len() == rows@[0]@.len());
        }
        true
    }

    /// The tile indices that the fields of one record write, if every field
    /// is the text of a cell.
    fn parse_row(record: &Vec<String>) -> (row: Option<Vec<i32>>)
        ensures
            match row {
                Some(tiles) => {
                    &&& tiles@.len() == record@.len()
                    &&& forall|j: int|
                        0 <= j < record@.len() ==> cell_value(#[trigger] record@[j]@) == Some(
                            tiles@[j],
                        )
                },
                None => exists|j: int|
                    0 <= j < record@.len() && cell_value(#[trigger] record@[j]@) is None,
            },
    {
        let mut tiles: Vec<i32> = Vec::new();
        let mut j: usize = 0;
        while j < record.len()
            invariant
                j <= record@.len(),
                tiles@.len() == j,
                forall|k: int|
                    0 <= k < j ==> cell_value(#[trigger] record@[k]@) == Some(tiles@[k]),
            decreases record.len() - j,
        {
            match parse_cell(record[j].as_str()) {
                Some(tile) => {
                    tiles.push(tile);
                },
                None => {
                    return None;
                },
            }
            j = j + 1;
        }
        Some(tiles)
    }

    /// The grid that `records` write: one row for each record, one tile
    /// index for each field. Fails with `RaggedRows` if two records differ
    /// in length, and otherwise with `InvalidCell` if some field is not the
    /// text of a cell.
    pub fn from_records(records: &Vec<Vec<String>>) -> (grid: Result<Grid, FormatError>)
        ensures
            match grid {
                Ok(g) => parse_records(records.deep_view()) == Ok::<Seq<Seq<i32>>, FormatError>(
                    g@,
                ),
                Err(e) => parse_records(records.deep_view()) == Err::<Seq<Seq<i32>>, FormatError>(
                    e,
                ),
            },
    {
        let ghost texts = records.deep_view();
        if !Self::same_lengths(records) {
            return Err(FormatError::RaggedRows);
        }
        let mut rows: Vec<Vec<i32>> = Vec::new();
        let mut i: usize = 0;
        while i < records.len()
            invariant
                i <= records@.len(),
                texts == records.deep_view(),
                rectangular(texts),
                rows@.len() == i,
                forall|k: int|
                    0 <= k < i ==> (#[trigger] rows@[k])@.len() == records@[k]@.len(),
                forall|k: int, j: int|
                    0 <= k < i && 0 <= j < texts[k].len() ==> cell_value(
                        #[trigger] texts[k][j],
                    ) == Some(rows@[k]@[j]),
            decreases records.len() - i,
        {
            match Self::parse_row(&records[i]) {
                Some(row) => {
                    rows.push(row);
                },
                None => {
                    proof {
                        let j = choose|j: int|
                            0 <= j < records@[i as int]@.len() && cell_value(
                                #[trigger] records@[i as int]@[j]@,
                            ) is None;
                        assert(cell_value(texts[i as int][j]) is None);
                    }
                    return Err(FormatError::InvalidCell);
                },
            }
            i = i + 1;
        }
        proof {
            assert(rows.deep_view() =~~= cell_values(texts));
            assert forall|a: int, b: int| 0 <= a < rows@.len() && 0 <= b < rows@.len() implies (
            #[trigger] rows.deep_view()[a]).len() == (#[trigger] rows.deep_view()[b]).len() by {
                assert(texts[a].len() == texts[b].len());
            }
        }
        Ok(Grid { rows })
    }

    /// The grid that `text` writes: comma-delimited, one row to a line, no
    /// header row. The text is split into records by the reader that
    /// `csv_records` names. Fails with `Malformed` if the reader rejects the
    /// text, and otherwise as `from_records` does on the records read.
    pub fn load(text: &str) -> (grid: Result<Grid, FormatError>)
        ensures
            match grid {
                Ok(g) => parse_text(text@) == Ok::<Seq<Seq<i32>>, FormatError>(g@),
                Err(e) => parse_text(text@) == Err::<Seq<Seq<i32>>, FormatError>(e),
            },
    {
        match read_records(text) {
            Ok(records) => Self::from_records(&records),
            Err(_) => Err(FormatError::Malformed),
        }
    }

    /// The number of rows.
    pub fn height(&self) -> (h: usize)
        ensures
            h == self.spec_height(),
            rectangular(self@),
    {
        proof {
            use_type_invariant(self);
        }
        self.rows.len()
    }

    /// The length of the rows; 0 for a grid without rows.
    pub fn width(&self) -> (w: usize)
        ensures
            w == self.spec_width(),
            rectangular(self@),
            forall|y: int| 0 <= y < self@.len() ==> (#[trigger] self@[y]).len() == w,
    {
        proof {
            use_type_invariant(self);
            assert forall|y: int| 0 <= y < self@.len() implies (#[trigger] self@[y]).len()
                == self@[0].len() by {
                assert(self@[y].len() == self@[0].len());
            }
        }
        if self.rows.len() == 0 {
            0
        } else {
            self.rows[0].len()
        }
    }

    /// The rows of the grid, from the top.
    pub fn rows(&self) -> (rows: &Vec<Vec<i32>>)
        ensures
            rows.deep_view() == self@,
            rectangular(self@),
    {
        proof {
            use_type_invariant(self);
        }
        &self.rows
    }

    /// The tile index at column `x` of row `y`, if there is such a cell.
    pub fn tile(&self, x: i32, y: i32) -> (tile: Option<i32>)
        ensures
            tile == if in_bounds(self@, Vector2I { x: x as int, y: y as int }) {
                Some(self@[y as int][x as int])
            } else {
                None
            },
    {
        if y < 0 || x < 0 {
            return None;
        }
        let row: usize = y as usize;
        let column: usize = x as usize;
        if row < self.rows.len() && column < self.rows[row].len() {
            Some(self.rows[row][column])
        } else {
            None
        }
    }

    /// Whether `(x, y)` is the coordinate of a cell of the grid.
    pub fn contains(&self, x: i32, y: i32) -> (inside: bool)
        ensures
            inside == in_bounds(self@, Vector2I { x: x as int, y: y as int }),
    {
        self.tile(x, y).is_some()
    }

    /// Whether an entity may stand at column `x` of row `y`. A coordinate
    /// outside the grid is not walkable. The answer depends on the grid's
    /// contents and the coordinate alone, and the grid is left as it is.
    pub fn is_walkable(&self, x: i32, y: i32) -> (free: bool)
        ensures
            free == walkable(self@, Vector2I { x: x as int, y: y as int }),
    {
        match self.tile(x, y) {
            Some(tile) => tile == WALKABLE,
            None => false,
        }
    }
}

} // verus!
