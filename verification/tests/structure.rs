use rows_and_columns::errors::RowsAndColumnsError;
use rows_and_columns::structure::{
    analyze_csv_basic_structure, count_numeric_fields, count_numeric_fields_in_line,
    count_remaining_csv_lines, detect_csv_header_row, StructuralScanner,
};

fn lines_of(text: &[&str]) -> Vec<String> {
    text.iter().map(|line| line.to_string()).collect()
}

fn assert_empty_file_error(result: Result<(bool, usize, usize), RowsAndColumnsError>) {
    match result {
        Err(RowsAndColumnsError::CsvProcessingError {
            csv_operation_description,
            csv_line_number,
            csv_column_identifier,
        }) => {
            assert_eq!(csv_operation_description, "CSV file appears to be empty");
            assert_eq!(csv_line_number, Some(1));
            assert_eq!(csv_column_identifier, None);
        }
        _ => panic!("expected a processing error"),
    }
}

#[test]
fn numeric_fields_are_counted_after_trimming() {
    assert_eq!(count_numeric_fields(&lines_of(&["name", "age", "active"])), 0);
    assert_eq!(count_numeric_fields(&lines_of(&["Alice", " 30 ", "true"])), 1);
    assert_eq!(count_numeric_fields(&lines_of(&["1", "2.5", "-3", "1e3", "x"])), 4);
    assert_eq!(count_numeric_fields(&lines_of(&[])), 0);
    assert_eq!(count_numeric_fields(&lines_of(&["", " "])), 0);
    assert_eq!(count_numeric_fields_in_line("Alice,30,true"), 1);
    assert_eq!(count_numeric_fields_in_line(""), 0);
    assert_eq!(count_numeric_fields_in_line("1,2,3"), 3);
}

#[test]
fn a_first_line_without_numbers_before_one_with_numbers_is_a_header() {
    assert!(detect_csv_header_row("name,age,active", Some("Alice,30,true")));
    assert!(detect_csv_header_row("a,b", Some("1,2")));
    assert!(detect_csv_header_row("id,2020", Some("1,2")));
}

#[test]
fn equal_numeric_counts_show_no_header() {
    assert!(!detect_csv_header_row("a,b", Some("x,y")));
    assert!(!detect_csv_header_row("1,2", Some("3,4")));
    assert!(!detect_csv_header_row("a,1", Some("2,b")));
}

#[test]
fn more_numbers_in_the_first_line_show_no_header() {
    assert!(!detect_csv_header_row("1,2", Some("a,3")));
    assert!(!detect_csv_header_row("1", Some("")));
}

#[test]
fn a_single_line_is_no_header() {
    assert!(!detect_csv_header_row("name,age", None));
    assert!(!detect_csv_header_row("", None));
}

#[test]
fn a_header_and_data_lines() {
    let lines = lines_of(&["name,age,active", "Alice,30,true", "Bob,25,false", "Carol,,true"]);
    assert_eq!(analyze_csv_basic_structure(&lines).ok(), Some((true, 3, 3)));
}

#[test]
fn a_header_and_n_data_lines_give_n_rows() {
    let mut lines = lines_of(&["name,score"]);
    for n in 1..=25usize {
        lines.push(format!("row{},{}", n, n));
        assert_eq!(analyze_csv_basic_structure(&lines).ok(), Some((true, 2, n)));
    }
}

#[test]
fn without_header_the_first_line_is_a_data_row() {
    let lines = lines_of(&["1,2", "3,4", "5,6"]);
    assert_eq!(analyze_csv_basic_structure(&lines).ok(), Some((false, 2, 3)));
    let lines = lines_of(&["a,b", "c,d"]);
    assert_eq!(analyze_csv_basic_structure(&lines).ok(), Some((false, 2, 2)));
}

#[test]
fn a_file_of_one_line_has_no_header_and_one_row() {
    assert_eq!(analyze_csv_basic_structure(&lines_of(&["name,age"])).ok(), Some((false, 2, 1)));
    assert_eq!(analyze_csv_basic_structure(&lines_of(&[""])).ok(), Some((false, 1, 1)));
}

#[test]
fn blank_lines_are_not_counted() {
    let lines = lines_of(&["name,age", "Alice,30", "", "   ", "Bob,25", "\t"]);
    assert_eq!(analyze_csv_basic_structure(&lines).ok(), Some((true, 2, 2)));
    let lines = lines_of(&["1,2", "", "3,4", ""]);
    assert_eq!(analyze_csv_basic_structure(&lines).ok(), Some((false, 2, 2)));
}

#[test]
fn a_blank_second_line_shows_no_header() {
    let lines = lines_of(&["name,age", "", "Alice,30"]);
    assert_eq!(analyze_csv_basic_structure(&lines).ok(), Some((false, 2, 2)));
}

#[test]
fn the_column_count_is_that_of_the_first_line() {
    let lines = lines_of(&["a,b,c,d", "1,2", "1,2,3,4,5,6"]);
    assert_eq!(analyze_csv_basic_structure(&lines).ok(), Some((true, 4, 2)));
    let lines = lines_of(&["\"x,y\",z", "1,2"]);
    assert_eq!(analyze_csv_basic_structure(&lines).ok(), Some((true, 3, 1)));
}

#[test]
fn an_empty_file_is_refused() {
    assert_empty_file_error(analyze_csv_basic_structure(&Vec::new()));
    assert_empty_file_error(StructuralScanner::new().finish());
}

#[test]
fn the_scanner_takes_lines_one_by_one() {
    let mut scanner = StructuralScanner::new();
    assert_eq!(scanner.lines_observed(), 0);
    scanner.observe_line("name,age,active");
    assert_eq!(scanner.lines_observed(), 1);
    assert_eq!(scanner.finish().ok(), Some((false, 3, 1)));
    scanner.observe_line("Alice,30,true");
    assert_eq!(scanner.finish().ok(), Some((true, 3, 1)));
    scanner.observe_line("");
    assert_eq!(scanner.finish().ok(), Some((true, 3, 1)));
    scanner.observe_line("Bob,25,false");
    assert_eq!(scanner.lines_observed(), 4);
    assert_eq!(scanner.finish().ok(), Some((true, 3, 2)));
}

#[test]
fn the_scanner_agrees_with_the_scan_of_all_lines() {
    let files: [&[&str]; 6] = [
        &["a"],
        &["a,b", "1,2"],
        &["1,2", "a,b", "", "c"],
        &["x", "", ""],
        &["h1,h2,h3", "1,2,3", " ", "4,5,6", "7,8,9"],
        &["", "5"],
    ];
    for file in files {
        let lines = lines_of(file);
        let mut scanner = StructuralScanner::new();
        for line in &lines {
            scanner.observe_line(line);
        }
        assert_eq!(scanner.finish().ok(), analyze_csv_basic_structure(&lines).ok());
    }
}

#[test]
fn remaining_lines_are_counted_without_the_blank_ones() {
    let lines = lines_of(&["h", "a", "", "b", "  ", "c"]);
    assert_eq!(count_remaining_csv_lines(&lines, 0), 4);
    assert_eq!(count_remaining_csv_lines(&lines, 1), 3);
    assert_eq!(count_remaining_csv_lines(&lines, 4), 1);
    assert_eq!(count_remaining_csv_lines(&lines, 6), 0);
}
