use csv_table::processor::CSVProcessor;
use csv_table::table::{CSVParser, UpdateError};

fn strings(cells: &[&str]) -> Vec<String> {
    cells.iter().map(|c| c.to_string()).collect()
}

#[test]
fn sample_run_fails_on_column_index() {
    // Three 3-column rows: the previews land, but the update targets column
    // index 3 of a row whose columns are indexed 0 through 2.
    let lines = strings(&["a,b,c", "d,e,f", "g,h,i"]);
    let mut processor = CSVProcessor::new(CSVParser::new());
    let result = processor.process_lines(&lines, 1, 2, 3, "Updated Value");
    assert_eq!(result, Err(UpdateError::InvalidColumnIndex(3)));
    // The load itself is kept: no rollback.
    assert_eq!(processor.parser().row_count(), 3);
    assert_eq!(processor.parser().get_cell(2, 2), Some("i"));
}

#[test]
fn sample_run_succeeds_on_in_bounds_target() {
    let lines = strings(&["a,b,c", "d,e,f", "g,h,i"]);
    let mut processor = CSVProcessor::new(CSVParser::new());
    let report = processor.process_lines(&lines, 1, 2, 2, "Updated Value").unwrap();
    assert_eq!(report.row_preview, Some(strings(&["d", "e", "f"])));
    // The previewed cell holds the value as loaded, before the update.
    assert_eq!(report.cell_preview, Some("i".to_string()));
    assert_eq!(report.lines, strings(&["a,b,c", "d,e,f", "g,h,Updated Value"]));
    assert_eq!(processor.parser().get_cell(2, 2), Some("Updated Value"));
}

#[test]
fn previews_are_absent_when_out_of_bounds() {
    let lines = strings(&["a,b", "c,d"]);
    let mut processor = CSVProcessor::new(CSVParser::new());
    let report = processor.process_lines(&lines, 5, 1, 0, "z").unwrap();
    assert_eq!(report.row_preview, None);
    assert_eq!(report.cell_preview, Some("c".to_string()));
    assert_eq!(report.lines, strings(&["a,b", "z,d"]));
}

#[test]
fn empty_input_reports_row_error_and_no_lines() {
    let lines = strings(&[]);
    let mut processor = CSVProcessor::new(CSVParser::new());
    let result = processor.process_lines(&lines, 1, 2, 3, "v");
    assert_eq!(result, Err(UpdateError::InvalidRowIndex(2)));
    assert_eq!(processor.parser().row_count(), 0);
}
