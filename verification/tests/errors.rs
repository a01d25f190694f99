use rows_and_columns::errors::{
    create_configuration_error, create_csv_processing_error, create_data_type_validation_error,
    create_file_system_error, create_metadata_error, create_statistical_analysis_error,
    create_tui_rendering_error, file_system_error_message, RowsAndColumnsError,
};
use std::io;

#[test]
fn test_csv_processing_error_display() {
    let csv_error = RowsAndColumnsError::CsvProcessingError {
        csv_operation_description: "Invalid column count".to_string(),
        csv_line_number: Some(42),
        csv_column_identifier: Some("customer_name".to_string()),
    };

    let error_string = csv_error.to_string();
    assert!(error_string.contains("Invalid column count"));
    assert!(error_string.contains("42"));
    assert!(error_string.contains("customer_name"));
}

#[test]
fn test_file_system_error_display() {
    let io_error = io::Error::new(io::ErrorKind::PermissionDenied, "Permission denied");
    let fs_error = RowsAndColumnsError::FileSystemError {
        operation_description: "Creating directory".to_string(),
        source_error: io_error,
    };

    let error_string = fs_error.to_string();
    assert!(error_string.contains("Creating directory"));
    assert!(error_string.contains("Permission denied"));
}

#[test]
fn test_create_file_system_error_helper() {
    let io_error = io::Error::new(io::ErrorKind::NotFound, "File not found");
    let error = create_file_system_error("Reading CSV file", io_error);

    match error {
        RowsAndColumnsError::FileSystemError {
            operation_description,
            source_error: _,
        } => {
            assert_eq!(operation_description, "Reading CSV file");
        }
        _ => panic!("Expected FileSystemError"),
    }
}

#[test]
fn test_create_configuration_error_helper() {
    let error = create_configuration_error("Invalid TOML format");

    match error {
        RowsAndColumnsError::ConfigurationError {
            configuration_issue_description,
        } => {
            assert_eq!(configuration_issue_description, "Invalid TOML format");
        }
        _ => panic!("Expected ConfigurationError"),
    }
}

#[test]
fn csv_processing_error_text_is_exact() {
    let full = create_csv_processing_error(
        "Invalid column count",
        Some(42),
        Some("customer_name".to_string()),
    );
    assert_eq!(
        full.to_string(),
        "CSV processing failed: Invalid column count at line 42 in column 'customer_name'"
    );
    let line_only = create_csv_processing_error("CSV file appears to be empty", Some(1), None);
    assert_eq!(
        line_only.to_string(),
        "CSV processing failed: CSV file appears to be empty at line 1"
    );
    let column_only = create_csv_processing_error("Bad value", None, Some("age".to_string()));
    assert_eq!(column_only.to_string(), "CSV processing failed: Bad value in column 'age'");
    let bare = create_csv_processing_error("Bad value", None, None);
    assert_eq!(bare.to_string(), "CSV processing failed: Bad value");
}

#[test]
fn csv_processing_error_shows_large_line_numbers() {
    let error = create_csv_processing_error("x", Some(0), None);
    assert_eq!(error.to_string(), "CSV processing failed: x at line 0");
    let error = create_csv_processing_error("x", Some(1234567890), None);
    assert_eq!(error.to_string(), "CSV processing failed: x at line 1234567890");
    let error = create_csv_processing_error("x", Some(usize::MAX), None);
    assert_eq!(
        error.to_string(),
        format!("CSV processing failed: x at line {}", usize::MAX)
    );
}

#[test]
fn file_system_error_text_is_exact() {
    let io_error = io::Error::new(io::ErrorKind::Other, "disk on fire");
    let error = create_file_system_error("Writing metadata", io_error);
    assert_eq!(
        error.to_string(),
        "File system operation failed: Writing metadata - Underlying error: disk on fire"
    );
    assert_eq!(
        file_system_error_message("Opening", "no such file"),
        "File system operation failed: Opening - Underlying error: no such file"
    );
}

#[test]
fn metadata_error_text_is_exact() {
    let error = create_metadata_error("Parsing", "/tmp/x.csv_metadata.toml");
    match &error {
        RowsAndColumnsError::MetadataError {
            metadata_operation_description,
            metadata_file_path,
        } => {
            assert_eq!(metadata_operation_description, "Parsing");
            assert_eq!(metadata_file_path, "/tmp/x.csv_metadata.toml");
        }
        _ => panic!("Expected MetadataError"),
    }
    assert_eq!(
        error.to_string(),
        "Metadata operation failed: Parsing for file: /tmp/x.csv_metadata.toml"
    );
}

#[test]
fn statistical_analysis_error_text_is_exact() {
    let error = create_statistical_analysis_error("No values", "age");
    match &error {
        RowsAndColumnsError::StatisticalAnalysisError {
            analysis_operation_description,
            column_name_being_analyzed,
        } => {
            assert_eq!(analysis_operation_description, "No values");
            assert_eq!(column_name_being_analyzed, "age");
        }
        _ => panic!("Expected StatisticalAnalysisError"),
    }
    assert_eq!(
        error.to_string(),
        "Statistical analysis failed: No values for column 'age'"
    );
}

#[test]
fn tui_rendering_error_text_is_exact() {
    let error = create_tui_rendering_error("Drawing chart");
    match &error {
        RowsAndColumnsError::TuiRenderingError {
            tui_operation_description,
        } => assert_eq!(tui_operation_description, "Drawing chart"),
        _ => panic!("Expected TuiRenderingError"),
    }
    assert_eq!(error.to_string(), "TUI rendering failed: Drawing chart");
}

#[test]
fn data_type_validation_error_text_is_exact() {
    let error = create_data_type_validation_error("Converting", "abc", "integer");
    match &error {
        RowsAndColumnsError::DataTypeValidationError {
            data_type_operation_description,
            invalid_value,
            expected_data_type,
        } => {
            assert_eq!(data_type_operation_description, "Converting");
            assert_eq!(invalid_value, "abc");
            assert_eq!(expected_data_type, "integer");
        }
        _ => panic!("Expected DataTypeValidationError"),
    }
    assert_eq!(
        error.to_string(),
        "Data type validation failed: Converting - Value 'abc' is not a valid integer"
    );
}

#[test]
fn configuration_error_text_is_exact() {
    let error = create_configuration_error("Invalid TOML format");
    assert_eq!(error.to_string(), "Configuration error: Invalid TOML format");
}

#[test]
fn create_csv_processing_error_keeps_its_arguments() {
    let error = create_csv_processing_error("Ragged row", Some(7), Some("3".to_string()));
    match error {
        RowsAndColumnsError::CsvProcessingError {
            csv_operation_description,
            csv_line_number,
            csv_column_identifier,
        } => {
            assert_eq!(csv_operation_description, "Ragged row");
            assert_eq!(csv_line_number, Some(7));
            assert_eq!(csv_column_identifier, Some("3".to_string()));
        }
        _ => panic!("Expected CsvProcessingError"),
    }
}

#[test]
fn io_errors_become_file_system_errors() {
    let io_error = io::Error::new(io::ErrorKind::UnexpectedEof, "cut short");
    let error = RowsAndColumnsError::from(io_error);
    match &error {
        RowsAndColumnsError::FileSystemError { operation_description, source_error } => {
            assert_eq!(operation_description, "I/O operation failed");
            assert_eq!(source_error.kind(), io::ErrorKind::UnexpectedEof);
        }
        _ => panic!("Expected FileSystemError"),
    }
    assert_eq!(
        error.to_string(),
        "File system operation failed: I/O operation failed - Underlying error: cut short"
    );
}

fn read_nothing() -> Result<(), RowsAndColumnsError> {
    Err(io::Error::new(io::ErrorKind::NotFound, "gone"))?;
    Ok(())
}

#[test]
fn io_errors_are_converted_on_the_way_out() {
    match read_nothing() {
        Err(RowsAndColumnsError::FileSystemError { operation_description, .. }) => {
            assert_eq!(operation_description, "I/O operation failed");
        }
        _ => panic!("Expected FileSystemError"),
    }
}
