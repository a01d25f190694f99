use rows_and_columns::columns::{CsvColumnDataType, CsvColumnInformation};
use rows_and_columns::errors::RowsAndColumnsError;
use rows_and_columns::schema::{
    create_metadata_document, create_metadata_file_name, determine_metadata_file_path,
    locate_metadata_file, METADATA_FILE_EXTENSION,
};
use std::path::PathBuf;

fn column(
    column_index: usize,
    column_name: &str,
    detected_data_type: CsvColumnDataType,
    non_empty_value_count: usize,
    empty_value_count: usize,
) -> CsvColumnInformation {
    CsvColumnInformation {
        column_index,
        column_name: column_name.to_string(),
        detected_data_type,
        non_empty_value_count,
        empty_value_count,
        sample_values: Vec::new(),
    }
}

fn complaint_of<T>(result: Result<T, RowsAndColumnsError>) -> String {
    match result {
        Err(RowsAndColumnsError::ConfigurationError { configuration_issue_description }) => {
            configuration_issue_description
        }
        _ => panic!("expected a configuration error"),
    }
}

#[test]
fn the_document_of_three_columns() {
    let columns = vec![
        column(0, "name", CsvColumnDataType::String, 3, 0),
        column(1, "age", CsvColumnDataType::Integer, 2, 1),
        column(2, "active", CsvColumnDataType::Boolean, 3, 0),
    ];
    let expected = "# CSV Metadata File\n\
# Generated by rows_and_columns\n\
\n\
total_columns = 3\n\
\n\
[column_1]\n\
name = \"name\"\n\
data_type = \"string\"\n\
column_index = 0\n\
non_empty_values = 3\n\
empty_values = 0\n\
\n\
[column_2]\n\
name = \"age\"\n\
data_type = \"integer\"\n\
column_index = 1\n\
non_empty_values = 2\n\
empty_values = 1\n\
\n\
[column_3]\n\
name = \"active\"\n\
data_type = \"boolean\"\n\
column_index = 2\n\
non_empty_values = 3\n\
empty_values = 0\n\
\n";
    assert_eq!(create_metadata_document(&columns), expected);
}

#[test]
fn the_document_of_no_columns() {
    assert_eq!(
        create_metadata_document(&Vec::new()),
        "# CSV Metadata File\n# Generated by rows_and_columns\n\ntotal_columns = 0\n\n"
    );
}

#[test]
fn the_document_of_a_float_column_with_large_counts() {
    let columns = vec![column(11, "price", CsvColumnDataType::Float, 1234567, 890)];
    assert_eq!(
        create_metadata_document(&columns),
        "# CSV Metadata File\n# Generated by rows_and_columns\n\ntotal_columns = 1\n\n\
[column_12]\nname = \"price\"\ndata_type = \"float\"\ncolumn_index = 11\n\
non_empty_values = 1234567\nempty_values = 890\n\n"
    );
}

#[test]
fn writing_the_document_again_gives_the_same_text() {
    let columns = vec![column(0, "a", CsvColumnDataType::String, 1, 0)];
    assert_eq!(create_metadata_document(&columns), create_metadata_document(&columns));
}

#[test]
fn the_name_of_the_document() {
    assert_eq!(METADATA_FILE_EXTENSION, "csv_metadata.toml");
    assert_eq!(create_metadata_file_name("customers"), "customers.csv_metadata.toml");
    assert_eq!(create_metadata_file_name(""), ".csv_metadata.toml");
    assert_eq!(create_metadata_file_name("a.b"), "a.b.csv_metadata.toml");
}

#[test]
fn the_document_lies_in_the_directory_of_the_file() {
    let located = locate_metadata_file(
        "/data/customers.csv",
        Some("customers".to_string()),
        Some(PathBuf::from("/data")),
    );
    match located {
        Ok((directory, name)) => {
            assert_eq!(directory, PathBuf::from("/data"));
            assert_eq!(name, "customers.csv_metadata.toml");
        }
        Err(_) => panic!("expected a location"),
    }
}

#[test]
fn a_path_without_file_name_is_refused() {
    assert_eq!(
        complaint_of(locate_metadata_file("/data/..", None, Some(PathBuf::from("/data")))),
        "Cannot determine filename from CSV path: /data/.."
    );
    assert_eq!(
        complaint_of(locate_metadata_file("/", None, None)),
        "Cannot determine filename from CSV path: /"
    );
}

#[test]
fn a_path_without_directory_is_refused() {
    assert_eq!(
        complaint_of(locate_metadata_file("x", Some("x".to_string()), None)),
        "Cannot determine directory from CSV path: x"
    );
}

#[test]
fn the_path_of_the_document_beside_the_file() {
    assert_eq!(
        determine_metadata_file_path(&PathBuf::from("/data/customers.csv")).ok(),
        Some(PathBuf::from("/data/customers.csv_metadata.toml"))
    );
    assert_eq!(
        determine_metadata_file_path(&PathBuf::from("reports/q1.2024.csv")).ok(),
        Some(PathBuf::from("reports/q1.2024.csv_metadata.toml"))
    );
    assert_eq!(
        determine_metadata_file_path(&PathBuf::from("plain.csv")).ok(),
        Some(PathBuf::from("plain.csv_metadata.toml"))
    );
}

#[test]
fn a_path_that_names_no_file_has_no_document() {
    assert_eq!(
        complaint_of(determine_metadata_file_path(&PathBuf::from("/data/.."))),
        "Cannot determine filename from CSV path: /data/.."
    );
    assert_eq!(
        complaint_of(determine_metadata_file_path(&PathBuf::from("/"))),
        "Cannot determine filename from CSV path: /"
    );
}
