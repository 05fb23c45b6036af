//! The in-memory table: an ordered sequence of rows, each an ordered
//! sequence of string cells. Rows may have differing lengths.

use vstd::prelude::*;
use crate::line::{join_cells, join_row, split_cells, split_line};

verus! {

/// The mathematical model of a table: rows of cells, each cell a sequence of
/// characters.
pub type TableView = Seq<Seq<Seq<char>>>;

/// The row at position `r`, or absence when `r` is out of bounds.
pub open spec fn row_at(t: TableView, r: int) -> Option<Seq<Seq<char>>> {
    if 0 <= r < t.len() {
        Some(t[r])
    } else {
        None
    }
}

/// The cell at row `r`, column `c`, or absence when either index is out of
/// bounds.
pub open spec fn cell_at(t: TableView, r: int, c: int) -> Option<Seq<char>> {
    if 0 <= r < t.len() && 0 <= c < t[r].len() {
        Some(t[r][c])
    } else {
        None
    }
}

/// The table with the cell at row `r`, column `c` replaced by `v`.
pub open spec fn cell_updated(t: TableView, r: int, c: int, v: Seq<char>) -> TableView {
    t.update(r, t[r].update(c, v))
}

/// The rows obtained by splitting each input line on commas, in line order.
pub open spec fn parsed_rows(lines: Seq<Seq<char>>) -> TableView {
    lines.map_values(|l: Seq<char>| split_cells(l))
}

/// The lines obtained by comma-joining each row, in row order.
pub open spec fn rendered_lines(t: TableView) -> Seq<Seq<char>> {
    t.map_values(|row: Seq<Seq<char>>| join_cells(row))
}

/// A row lookup yields absence exactly when the index is at or past the
/// number of rows, and the row at that position otherwise.
pub proof fn lemma_row_at_absence(t: TableView, r: int)
    requires
        r >= 0,
    ensures
        row_at(t, r) is None <==> r >= t.len(),
        r < t.len() ==> row_at(t, r) == Some(t[r]),
{
}

/// A cell lookup yields absence exactly when the row index is out of bounds
/// or the column index is out of bounds for that row; it yields the stored
/// cell when both are in bounds.
pub proof fn lemma_cell_at_absence(t: TableView, r: int, c: int)
    requires
        r >= 0,
        c >= 0,
    ensures
        cell_at(t, r, c) is None <==> (r >= t.len() || c >= t[r].len()),
        r < t.len() && c < t[r].len() ==> cell_at(t, r, c) == Some(t[r][c]),
{
}

/// Updating an in-bounds cell and then reading the same position yields
/// exactly the written value.
pub proof fn lemma_update_then_get(t: TableView, r: int, c: int, v: Seq<char>)
    requires
        0 <= r < t.len(),
        0 <= c < t[r].len(),
    ensures
        cell_at(cell_updated(t, r, c, v), r, c) == Some(v),
{
}

/// Parsing lines into rows and rendering the rows back reproduces the
/// original lines, line for line.
pub proof fn lemma_parse_render_round_trip(lines: Seq<Seq<char>>)
    ensures
        rendered_lines(parsed_rows(lines)) == lines,
{
    assert forall|j: int| 0 <= j < lines.len() implies rendered_lines(parsed_rows(lines))[j]
        == lines[j] by {
        crate::line::lemma_join_split_cells(lines[j]);
    }
    assert(rendered_lines(parsed_rows(lines)) =~= lines);
}

/// The failure reported by a cell update: the row index is out of bounds, or
/// the row exists but the column index is out of bounds for it. The row check
/// comes first.
#[derive(Clone, Copy, Debug, PartialEq, Eq, Structural)]
pub enum UpdateError {
    InvalidRowIndex(usize),
    InvalidColumnIndex(usize),
}

pub struct CSVParser {
    data: Vec<Vec<String>>,
}

impl View for CSVParser {
    type V = TableView;

    closed spec fn view(&self) -> TableView {
        self.data.deep_view()
    }
}

impl CSVParser {
    /// An empty table, with no rows.
    pub fn new() -> (parser: CSVParser)
        ensures
            parser@ == Seq::<Seq<Seq<char>>>::empty(),
    {
        let parser = CSVParser { data: Vec::new() };
        proof {
            assert(parser@ =~= Seq::<Seq<Seq<char>>>::empty());
        }
        parser
    }

    /// The number of rows.
    pub fn row_count(&self) -> (n: usize)
        ensures
            n == self@.len(),
    {
        self.data.len()
    }

    /// The row at the given zero-based position, or absence when the position
    /// is out of bounds.
    pub fn get_row(&self, row_index: usize) -> (result: Option<&Vec<String>>)
        ensures
            match result {
                Some(row) => row_at(self@, row_index as int) == Some(row.deep_view()),
                None => row_at(self@, row_index as int) is None,
            },
    {
        if row_index < self.data.len() {
            Some(&self.data[row_index])
        } else {
            None
        }
    }

    /// The cell at the given zero-based row and column, or absence when
    /// either index is out of bounds.
    pub fn get_cell(&self, row_index: usize, col_index: usize) -> (result: Option<&str>)
        ensures
            match result {
                Some(cell) => cell_at(self@, row_index as int, col_index as int) == Some(cell@),
                None => cell_at(self@, row_index as int, col_index as int) is None,
            },
    {
        if row_index < self.data.len() {
            let row = &self.data[row_index];
            if col_index < row.len() {
                Some(row[col_index].as_str())
            } else {
                None
            }
        } else {
            None
        }
    }

    /// Append one row per input line, split on commas, in line order. Rows
    /// already in the table are kept: loading accumulates.
    pub fn load_lines(&mut self, lines: &Vec<String>)
        ensures
            final(self)@ == old(self)@ + parsed_rows(lines.deep_view()),
    {
        let ghost t0 = self@;
        let mut i: usize = 0;
        proof {
            assert(t0 + parsed_rows(lines.deep_view().take(0)) =~= t0);
        }
        while i < lines.len()
            invariant
                i <= lines@.len(),
                self@ == t0 + parsed_rows(lines.deep_view().take(i as int)),
            decreases lines@.len() - i,
        {
            let ghost before = self@;
            let row = split_line(lines[i].as_str());
            self.data.push(row);
            proof {
                assert(self@ =~= before.push(row.deep_view()));
                assert(parsed_rows(lines.deep_view().take(i as int + 1)) =~= parsed_rows(
                    lines.deep_view().take(i as int),
                ).push(split_cells(lines@[i as int]@)));
                assert(self@ =~= t0 + parsed_rows(lines.deep_view().take(i as int + 1)));
            }
            i += 1;
        }
        proof {
            assert(lines.deep_view().take(lines@.len() as int) =~= lines.deep_view());
        }
    }

    /// Replace the cell at the given position with `value`; any string is
    /// accepted, commas included. An out-of-bounds row index is reported
    /// before an out-of-bounds column index, and a failed update leaves the
    /// table unchanged.
    pub fn update_cell(&mut self, row_index: usize, col_index: usize, value: &str) -> (result:
        Result<(), UpdateError>)
        ensures
            row_index < old(self)@.len() && col_index < old(self)@[row_index as int].len() ==> {
                &&& result is Ok
                &&& final(self)@ == cell_updated(
                    old(self)@,
                    row_index as int,
                    col_index as int,
                    value@,
                )
            },
            row_index >= old(self)@.len() ==> {
                &&& result == Err::<(), UpdateError>(UpdateError::InvalidRowIndex(row_index))
                &&& final(self)@ == old(self)@
            },
            row_index < old(self)@.len() && col_index >= old(self)@[row_index as int].len() ==> {
                &&& result == Err::<(), UpdateError>(UpdateError::InvalidColumnIndex(col_index))
                &&& final(self)@ == old(self)@
            },
    {
        if row_index < self.data.len() {
            if col_index < self.data[row_index].len() {
                let ghost before = self@;
                self.data[row_index][col_index] = value.to_owned();
                proof {
                    assert(self@ =~~= cell_updated(
                        before,
                        row_index as int,
                        col_index as int,
                        value@,
                    ));
                }
                Ok(())
            } else {
                Err(UpdateError::InvalidColumnIndex(col_index))
            }
        } else {
            Err(UpdateError::InvalidRowIndex(row_index))
        }
    }

    /// The table rendered back into lines: each row comma-joined, in row
    /// order.
    pub fn to_lines(&self) -> (lines: Vec<String>)
        ensures
            lines.deep_view() == rendered_lines(self@),
    {
        let mut lines: Vec<String> = Vec::new();
        let mut i: usize = 0;
        proof {
            assert(lines.deep_view() =~= rendered_lines(self@.take(0)));
        }
        while i < self.data.len()
            invariant
                i <= self@.len(),
                self@.len() == self.data@.len(),
                lines.deep_view() == rendered_lines(self@.take(i as int)),
            decreases self@.len() - i,
        {
            let ghost before = lines.deep_view();
            let row_line = join_row(&self.data[i]);
            lines.push(row_line);
            proof {
                assert(lines.deep_view() =~= before.push(row_line@));
                assert(rendered_lines(self@.take(i as int + 1)) =~= rendered_lines(
                    self@.take(i as int),
                ).push(join_cells(self@[i as int])));
            }
            i += 1;
        }
        proof {
            assert(self@.take(self@.len() as int) =~= self@);
        }
        lines
    }
}

} // verus!
