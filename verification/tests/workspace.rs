use rows_and_columns::errors::RowsAndColumnsError;
use rows_and_columns::workspace::{
    subdirectory_relative_path, validate_directory_structure_initialization,
    ApplicationDirectoryPaths, CsvFileInformation, DirectoryItem, DirectoryStatus,
    DirectoryStructureStatus, ANALYSIS_CACHE_SUBDIRECTORY_NAME, CSV_IMPORTS_SUBDIRECTORY_NAME,
    ROWS_COLUMNS_ROOT_DIRECTORY_NAME,
};
use std::path::PathBuf;

#[test]
fn test_directory_constants() {
    assert!(!ROWS_COLUMNS_ROOT_DIRECTORY_NAME.is_empty());
    assert!(!CSV_IMPORTS_SUBDIRECTORY_NAME.is_empty());
    assert!(!ANALYSIS_CACHE_SUBDIRECTORY_NAME.is_empty());

    assert!(!ROWS_COLUMNS_ROOT_DIRECTORY_NAME.contains('/'));
    assert!(!ROWS_COLUMNS_ROOT_DIRECTORY_NAME.contains('\\'));
    assert!(!CSV_IMPORTS_SUBDIRECTORY_NAME.contains('/'));
    assert!(!CSV_IMPORTS_SUBDIRECTORY_NAME.contains('\\'));
    assert!(!ANALYSIS_CACHE_SUBDIRECTORY_NAME.contains('/'));
    assert!(!ANALYSIS_CACHE_SUBDIRECTORY_NAME.contains('\\'));
}

#[test]
fn test_application_directory_paths_structure() {
    let test_paths = ApplicationDirectoryPaths {
        executable_parent_directory: PathBuf::from("/test/exe"),
        rows_columns_root_directory: PathBuf::from("/test/exe/rows_columns_data"),
        csv_imports_directory: PathBuf::from("/test/exe/rows_columns_data/csv_imports"),
        analysis_cache_directory: PathBuf::from("/test/exe/rows_columns_data/analysis_cache"),
    };

    assert!(test_paths.executable_parent_directory.to_string_lossy().contains("exe"));
    assert!(test_paths.rows_columns_root_directory.to_string_lossy().contains("rows_columns_data"));
    assert!(test_paths.csv_imports_directory.to_string_lossy().contains("csv_imports"));
    assert!(test_paths.analysis_cache_directory.to_string_lossy().contains("analysis_cache"));

    let cloned_paths = test_paths.clone();
    assert_eq!(test_paths.executable_parent_directory, cloned_paths.executable_parent_directory);
}

#[test]
fn test_directory_path_construction() {
    let csv_imports_path = format!(
        "{}/{}",
        ROWS_COLUMNS_ROOT_DIRECTORY_NAME,
        CSV_IMPORTS_SUBDIRECTORY_NAME
    );

    let analysis_cache_path = format!(
        "{}/{}",
        ROWS_COLUMNS_ROOT_DIRECTORY_NAME,
        ANALYSIS_CACHE_SUBDIRECTORY_NAME
    );

    assert_eq!(csv_imports_path, "rows_columns_data/csv_imports");
    assert_eq!(analysis_cache_path, "rows_columns_data/analysis_cache");
}

#[test]
fn test_csv_file_information_structure() {
    let test_info = CsvFileInformation {
        absolute_file_path: PathBuf::from("/test/data.csv"),
        filename_only: "data.csv".to_string(),
        file_size_bytes: 1024,
        file_size_human_readable: "1.0 KB".to_string(),
        is_readable: true,
    };

    assert_eq!(test_info.filename_only, "data.csv");
    assert_eq!(test_info.file_size_bytes, 1024);
    assert!(test_info.is_readable);
}

#[test]
fn test_directory_item_structure() {
    let test_item = DirectoryItem {
        item_name: "test.csv".to_string(),
        absolute_path: PathBuf::from("/test/test.csv"),
        is_directory: false,
        file_size_bytes: Some(2048),
        appears_to_be_csv: true,
    };

    assert!(!test_item.is_directory);
    assert!(test_item.appears_to_be_csv);
    assert_eq!(test_item.file_size_bytes, Some(2048));
}

#[test]
fn subdirectory_paths_lie_below_the_root() {
    assert_eq!(
        subdirectory_relative_path(CSV_IMPORTS_SUBDIRECTORY_NAME),
        "rows_columns_data/csv_imports"
    );
    assert_eq!(
        subdirectory_relative_path(ANALYSIS_CACHE_SUBDIRECTORY_NAME),
        "rows_columns_data/analysis_cache"
    );
}

fn in_order() -> DirectoryStatus {
    DirectoryStatus { exists: true, is_directory: true }
}

fn all_in_order() -> DirectoryStructureStatus {
    DirectoryStructureStatus {
        executable_parent_directory: in_order(),
        rows_columns_root_directory: in_order(),
        csv_imports_directory: in_order(),
        analysis_cache_directory: in_order(),
    }
}

fn complaint_of(status: &DirectoryStructureStatus) -> String {
    match validate_directory_structure_initialization(status) {
        Err(RowsAndColumnsError::ConfigurationError { configuration_issue_description }) => {
            configuration_issue_description
        }
        Err(other) => panic!("unexpected error: {}", other.to_string()),
        Ok(()) => panic!("expected a complaint"),
    }
}

#[test]
fn directories_in_order_are_accepted() {
    assert!(validate_directory_structure_initialization(&all_in_order()).is_ok());
}

#[test]
fn each_directory_is_checked_in_turn() {
    let missing = DirectoryStatus { exists: false, is_directory: false };
    let not_a_directory = DirectoryStatus { exists: true, is_directory: false };

    let mut status = all_in_order();
    status.executable_parent_directory = missing;
    assert_eq!(
        complaint_of(&status),
        "Executable parent directory does not exist after initialization"
    );
    status.executable_parent_directory = not_a_directory;
    assert_eq!(complaint_of(&status), "Executable parent path exists but is not a directory");

    let mut status = all_in_order();
    status.rows_columns_root_directory = missing;
    assert_eq!(
        complaint_of(&status),
        "Main rows_columns_data directory does not exist after creation"
    );
    status.rows_columns_root_directory = not_a_directory;
    assert_eq!(
        complaint_of(&status),
        "Main rows_columns_data path exists but is not a directory"
    );

    let mut status = all_in_order();
    status.csv_imports_directory = missing;
    assert_eq!(complaint_of(&status), "CSV imports directory does not exist after creation");
    status.csv_imports_directory = not_a_directory;
    assert_eq!(complaint_of(&status), "CSV imports path exists but is not a directory");

    let mut status = all_in_order();
    status.analysis_cache_directory = missing;
    assert_eq!(complaint_of(&status), "Analysis cache directory does not exist after creation");
    status.analysis_cache_directory = not_a_directory;
    assert_eq!(complaint_of(&status), "Analysis cache path exists but is not a directory");
}

#[test]
fn the_first_directory_out_of_order_is_reported() {
    let missing = DirectoryStatus { exists: false, is_directory: false };
    let status = DirectoryStructureStatus {
        executable_parent_directory: in_order(),
        rows_columns_root_directory: missing,
        csv_imports_directory: missing,
        analysis_cache_directory: missing,
    };
    assert_eq!(
        complaint_of(&status),
        "Main rows_columns_data directory does not exist after creation"
    );
}
