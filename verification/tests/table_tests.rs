use csv_table::table::{CSVParser, UpdateError};

fn strings(cells: &[&str]) -> Vec<String> {
    cells.iter().map(|c| c.to_string()).collect()
}

fn sample_table() -> CSVParser {
    let mut parser = CSVParser::new();
    parser.load_lines(&strings(&["a,b,c", "d,e,f", "g,h,i"]));
    parser
}

#[test]
fn new_table_has_no_rows() {
    let parser = CSVParser::new();
    assert_eq!(parser.row_count(), 0);
}

#[test]
fn loading_no_lines_keeps_table_empty() {
    let mut parser = CSVParser::new();
    parser.load_lines(&strings(&[]));
    assert_eq!(parser.row_count(), 0);
    assert!(parser.to_lines().is_empty());
}

#[test]
fn loading_appends_one_row_per_line() {
    let parser = sample_table();
    assert_eq!(parser.row_count(), 3);
}

#[test]
fn loading_twice_accumulates_rows() {
    let mut parser = sample_table();
    parser.load_lines(&strings(&["j,k"]));
    assert_eq!(parser.row_count(), 4);
    assert_eq!(parser.get_row(3), Some(&strings(&["j", "k"])));
    assert_eq!(parser.get_row(0), Some(&strings(&["a", "b", "c"])));
}

#[test]
fn get_row_returns_second_line() {
    let parser = sample_table();
    assert_eq!(parser.get_row(1), Some(&strings(&["d", "e", "f"])));
}

#[test]
fn get_row_out_of_bounds_is_absent() {
    let parser = sample_table();
    assert_eq!(parser.get_row(3), None);
    assert_eq!(parser.get_row(usize::MAX), None);
}

#[test]
fn get_cell_in_bounds() {
    let parser = sample_table();
    assert_eq!(parser.get_cell(0, 0), Some("a"));
    assert_eq!(parser.get_cell(1, 2), Some("f"));
    assert_eq!(parser.get_cell(2, 0), Some("g"));
}

#[test]
fn get_cell_out_of_bounds_is_absent() {
    let parser = sample_table();
    assert_eq!(parser.get_cell(2, 3), None);
    assert_eq!(parser.get_cell(3, 0), None);
    assert_eq!(parser.get_cell(3, 3), None);
}

#[test]
fn get_cell_respects_ragged_rows() {
    let mut parser = CSVParser::new();
    parser.load_lines(&strings(&["a,b,c", "d"]));
    assert_eq!(parser.get_cell(1, 0), Some("d"));
    assert_eq!(parser.get_cell(1, 1), None);
    assert_eq!(parser.get_cell(0, 2), Some("c"));
}

#[test]
fn update_then_get_returns_written_value() {
    let mut parser = sample_table();
    assert_eq!(parser.update_cell(1, 1, "middle"), Ok(()));
    assert_eq!(parser.get_cell(1, 1), Some("middle"));
    assert_eq!(parser.get_cell(1, 0), Some("d"));
    assert_eq!(parser.get_cell(0, 1), Some("b"));
}

#[test]
fn update_accepts_empty_string() {
    let mut parser = sample_table();
    assert_eq!(parser.update_cell(0, 0, ""), Ok(()));
    assert_eq!(parser.get_cell(0, 0), Some(""));
}

#[test]
fn update_accepts_string_with_comma() {
    let mut parser = sample_table();
    assert_eq!(parser.update_cell(0, 1, "x,y"), Ok(()));
    assert_eq!(parser.get_cell(0, 1), Some("x,y"));
    let lines = parser.to_lines();
    assert_eq!(lines[0], "a,x,y,c");
}

#[test]
fn update_out_of_bounds_row_reports_row_error() {
    let mut parser = sample_table();
    assert_eq!(parser.update_cell(3, 0, "v"), Err(UpdateError::InvalidRowIndex(3)));
    assert_eq!(parser.get_row(0), Some(&strings(&["a", "b", "c"])));
}

#[test]
fn update_out_of_bounds_column_reports_column_error() {
    let mut parser = sample_table();
    assert_eq!(parser.update_cell(2, 3, "Updated Value"), Err(UpdateError::InvalidColumnIndex(3)));
    assert_eq!(parser.get_row(2), Some(&strings(&["g", "h", "i"])));
}

#[test]
fn update_row_check_takes_precedence() {
    let mut parser = sample_table();
    assert_eq!(parser.update_cell(9, 9, "v"), Err(UpdateError::InvalidRowIndex(9)));
}

#[test]
fn load_then_render_round_trips() {
    let lines = strings(&["a,b,c", "d,e,f", "g,h,i", "", "one", ",x,"]);
    let mut parser = CSVParser::new();
    parser.load_lines(&lines);
    assert_eq!(parser.to_lines(), lines);
}
