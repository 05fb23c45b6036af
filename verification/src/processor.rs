//! The driver's decision logic: load input lines, look up a row and a cell,
//! update one cell, and render the table back into lines. Reading the input
//! lines and writing the output lines are the caller's business.

use vstd::prelude::*;
use crate::table::{
    cell_at, cell_updated, parsed_rows, rendered_lines, row_at, CSVParser, TableView, UpdateError,
};

verus! {

/// What one processing pass produced: the previewed row and cell (absent
/// when out of bounds), and the updated table rendered into output lines.
#[derive(Clone, Debug, PartialEq, Eq)]
pub struct ProcessReport {
    pub row_preview: Option<Vec<String>>,
    pub cell_preview: Option<String>,
    pub lines: Vec<String>,
}

/// Drives one fixed sequence over a table it owns: load, two lookups, one
/// update, render.
pub struct CSVProcessor {
    parser: CSVParser,
}

impl View for CSVProcessor {
    type V = TableView;

    closed spec fn view(&self) -> TableView {
        self.parser@
    }
}

impl CSVProcessor {
    pub fn new(parser: CSVParser) -> (processor: CSVProcessor)
        ensures
            processor@ == parser@,
    {
        CSVProcessor { parser }
    }

    /// The table as it currently stands.
    pub fn parser(&self) -> (parser: &CSVParser)
        ensures
            parser@ == self@,
    {
        &self.parser
    }

    /// Load the input lines into the table, preview the row at `preview_row`
    /// and the cell at `(target_row, target_col)` as loaded, then update that
    /// cell to `value` and render the whole table into output lines. A failed
    /// update is reported and leaves the loaded table in place: the lines
    /// already appended are kept, and nothing is rendered.
    pub fn process_lines(
        &mut self,
        input_lines: &Vec<String>,
        preview_row: usize,
        target_row: usize,
        target_col: usize,
        value: &str,
    ) -> (result: Result<ProcessReport, UpdateError>)
        ensures
            ({
                let loaded = old(self)@ + parsed_rows(input_lines.deep_view());
                &&& (target_row < loaded.len() && target_col < loaded[target_row as int].len()
                    ==> match result {
                    Ok(report) => {
                        &&& final(self)@ == cell_updated(
                            loaded,
                            target_row as int,
                            target_col as int,
                            value@,
                        )
                        &&& (match report.row_preview {
                            Some(row) => row_at(loaded, preview_row as int) == Some(
                                row.deep_view(),
                            ),
                            None => row_at(loaded, preview_row as int) is None,
                        })
                        &&& (match report.cell_preview {
                            Some(cell) => cell_at(
                                loaded,
                                target_row as int,
                                target_col as int,
                            ) == Some(cell@),
                            None => cell_at(loaded, target_row as int, target_col as int) is None,
                        })
                        &&& report.lines.deep_view() == rendered_lines(final(self)@)
                    },
                    Err(_) => false,
                })
                &&& (target_row >= loaded.len() ==> {
                    &&& result == Err::<ProcessReport, UpdateError>(
                        UpdateError::InvalidRowIndex(target_row),
                    )
                    &&& final(self)@ == loaded
                })
                &&& (target_row < loaded.len() && target_col >= loaded[target_row as int].len()
                    ==> {
                    &&& result == Err::<ProcessReport, UpdateError>(
                        UpdateError::InvalidColumnIndex(target_col),
                    )
                    &&& final(self)@ == loaded
                })
            }),
    {
        self.parser.load_lines(input_lines);
        let row_preview = match self.parser.get_row(preview_row) {
            Some(row) => Some(clone_row(row)),
            None => None,
        };
        let cell_preview = match self.parser.get_cell(target_row, target_col) {
            Some(cell) => Some(cell.to_owned()),
            None => None,
        };
        match self.parser.update_cell(target_row, target_col, value) {
            Ok(_) => {},
            Err(e) => {
                return Err(e);
            },
        }
        let lines = self.parser.to_lines();
        Ok(ProcessReport { row_preview, cell_preview, lines })
    }
}

/// An owned copy of a row, cell for cell.
fn clone_row(row: &Vec<String>) -> (copy: Vec<String>)
    ensures
        copy@ == row@,
{
    let mut copy: Vec<String> = Vec::new();
    let mut i: usize = 0;
    while i < row.len()
        invariant
            i <= row@.len(),
            copy@ == row@.take(i as int),
        decreases row@.len() - i,
    {
        copy.push(row[i].clone());
        proof {
            assert(row@.take(i as int + 1) =~= row@.take(i as int).push(row@[i as int]));
        }
        i += 1;
    }
    proof {
        assert(row@.take(row@.len() as int) =~= row@);
    }
    copy
}

} // verus!
