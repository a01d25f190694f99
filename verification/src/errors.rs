//! The error type of the library, its constructors, and the text of each
//! error.

use vstd::prelude::*;
use vstd::string::StringExecFns;
use crate::text::{decimal_digits, push_decimal};

verus! {

/// `std::io::Error`, carried through as it is: nothing inside it is looked
/// at.
#[verifier::external_type_specification]
#[verifier::external_body]
pub struct ExIoError(std::io::Error);

/// Everything that can go wrong while a file is analysed.
#[derive(Debug)]
pub enum RowsAndColumnsError {
    /// A file system operation failed (reading, writing, directory creation).
    FileSystemError {
        /// The operation that failed.
        operation_description: String,
        /// The error that the operating system reported.
        source_error: std::io::Error,
    },
    /// The content of the file could not be processed.
    CsvProcessingError {
        /// The operation that failed.
        csv_operation_description: String,
        /// The line at which it failed, where one is known.
        csv_line_number: Option<usize>,
        /// The column in which it failed, where one is known.
        csv_column_identifier: Option<String>,
    },
    /// The metadata file could not be read or is not valid.
    MetadataError {
        /// The operation that failed.
        metadata_operation_description: String,
        /// The metadata file.
        metadata_file_path: String,
    },
    /// A statistic could not be computed.
    StatisticalAnalysisError {
        /// The operation that failed.
        analysis_operation_description: String,
        /// The column that was being analysed.
        column_name_being_analyzed: String,
    },
    /// The dashboard could not be drawn.
    TuiRenderingError {
        /// The operation that failed.
        tui_operation_description: String,
    },
    /// A value does not have the type that was expected of it.
    DataTypeValidationError {
        /// The operation that failed.
        data_type_operation_description: String,
        /// The value that was rejected.
        invalid_value: String,
        /// The type that was expected.
        expected_data_type: String,
    },
    /// The setup is not valid.
    ConfigurationError {
        /// What is wrong with it.
        configuration_issue_description: String,
    },
}

pub type RowsAndColumnsResult<T> = Result<T, RowsAndColumnsError>;

/// The text of a file system error, given the text of its cause.
pub open spec fn file_system_error_text(operation: Seq<char>, cause: Seq<char>) -> Seq<char> {
    "File system operation failed: "@ + operation + " - Underlying error: "@ + cause
}

/// The text of a processing error: the description, then the line and the
/// column where they are known.
pub open spec fn csv_processing_error_text(
    description: Seq<char>,
    line_number: Option<usize>,
    column: Option<Seq<char>>,
) -> Seq<char> {
    let line_part = match line_number {
        Some(number) => " at line "@ + decimal_digits(number as nat),
        None => Seq::<char>::empty(),
    };
    let column_part = match column {
        Some(identifier) => " in column '"@ + identifier + "'"@,
        None => Seq::<char>::empty(),
    };
    "CSV processing failed: "@ + description + line_part + column_part
}

/// The text of a metadata error.
pub open spec fn metadata_error_text(description: Seq<char>, path: Seq<char>) -> Seq<char> {
    "Metadata operation failed: "@ + description + " for file: "@ + path
}

/// The text of a statistical analysis error.
pub open spec fn statistical_analysis_error_text(
    description: Seq<char>,
    column: Seq<char>,
) -> Seq<char> {
    "Statistical analysis failed: "@ + description + " for column '"@ + column + "'"@
}

/// The text of a rendering error.
pub open spec fn tui_rendering_error_text(description: Seq<char>) -> Seq<char> {
    "TUI rendering failed: "@ + description
}

/// The text of a validation error.
pub open spec fn data_type_validation_error_text(
    description: Seq<char>,
    value: Seq<char>,
    expected: Seq<char>,
) -> Seq<char> {
    "Data type validation failed: "@ + description + " - Value '"@ + value + "' is not a valid "@
        + expected
}

/// The text of a configuration error.
pub open spec fn configuration_error_text(description: Seq<char>) -> Seq<char> {
    "Configuration error: "@ + description
}

impl RowsAndColumnsError {
    /// The text of this error. `cause` is the text of the underlying error,
    /// which only a file system error has.
    pub open spec fn text(self, cause: Seq<char>) -> Seq<char> {
        match self {
            RowsAndColumnsError::FileSystemError { operation_description, source_error } => {
                file_system_error_text(operation_description@, cause)
            },
            RowsAndColumnsError::CsvProcessingError {
                csv_operation_description,
                csv_line_number,
                csv_column_identifier,
            } => csv_processing_error_text(
                csv_operation_description@,
                csv_line_number,
                match csv_column_identifier {
                    Some(identifier) => Some(identifier@),
                    None => None,
                },
            ),
            RowsAndColumnsError::MetadataError {
                metadata_operation_description,
                metadata_file_path,
            } => metadata_error_text(metadata_operation_description@, metadata_file_path@),
            RowsAndColumnsError::StatisticalAnalysisError {
                analysis_operation_description,
                column_name_being_analyzed,
            } => statistical_analysis_error_text(
                analysis_operation_description@,
                column_name_being_analyzed@,
            ),
            RowsAndColumnsError::TuiRenderingError { tui_operation_description } => {
                tui_rendering_error_text(tui_operation_description@)
            },
            RowsAndColumnsError::DataTypeValidationError {
                data_type_operation_description,
                invalid_value,
                expected_data_type,
            } => data_type_validation_error_text(
                data_type_operation_description@,
                invalid_value@,
                expected_data_type@,
            ),
            RowsAndColumnsError::ConfigurationError { configuration_issue_description } => {
                configuration_error_text(configuration_issue_description@)
            },
        }
    }

    /// The text of this error, for display.
    pub fn to_string(&self) -> (message: String)
        ensures
            exists|cause: Seq<char>| message@ == self.text(cause),
            !(self is FileSystemError) ==> message@ == self.text(Seq::<char>::empty()),
    {
        match self {
            RowsAndColumnsError::FileSystemError { operation_description, source_error } => {
                let cause = io_error_text(source_error);
                let message = file_system_error_message(operation_description.as_str(), cause.as_str());
                assert(message@ == self.text(cause@));
                message
            },
            RowsAndColumnsError::CsvProcessingError {
                csv_operation_description,
                csv_line_number,
                csv_column_identifier,
            } => {
                let mut message = String::new();
                message.append("CSV processing failed: ");
                message.append(csv_operation_description.as_str());
                match csv_line_number {
                    Some(number) => {
                        message.append(" at line ");
                        push_decimal(&mut message, *number);
                    },
                    None => {},
                }
                match csv_column_identifier {
                    Some(identifier) => {
                        message.append(" in column '");
                        message.append(identifier.as_str());
                        message.append("'");
                    },
                    None => {},
                }
                assert(message@ =~= self.text(Seq::<char>::empty()));
                message
            },
            RowsAndColumnsError::MetadataError {
                metadata_operation_description,
                metadata_file_path,
            } => {
                let mut message = String::new();
                message.append("Metadata operation failed: ");
                message.append(metadata_operation_description.as_str());
                message.append(" for file: ");
                message.append(metadata_file_path.as_str());
                assert(message@ =~= self.text(Seq::<char>::empty()));
                message
            },
            RowsAndColumnsError::StatisticalAnalysisError {
                analysis_operation_description,
                column_name_being_analyzed,
            } => {
                let mut message = String::new();
                message.append("Statistical analysis failed: ");
                message.append(analysis_operation_description.as_str());
                message.append(" for column '");
                message.append(column_name_being_analyzed.as_str());
                message.append("'");
                assert(message@ =~= self.text(Seq::<char>::empty()));
                message
            },
            RowsAndColumnsError::TuiRenderingError { tui_operation_description } => {
                let mut message = String::new();
                message.append("TUI rendering failed: ");
                message.append(tui_operation_description.as_str());
                assert(message@ =~= self.text(Seq::<char>::empty()));
                message
            },
            RowsAndColumnsError::DataTypeValidationError {
                data_type_operation_description,
                invalid_value,
                expected_data_type,
            } => {
                let mut message = String::new();
                message.append("Data type validation failed: ");
                message.append(data_type_operation_description.as_str());
                message.append(" - Value '");
                message.append(invalid_value.as_str());
                message.append("' is not a valid ");
                message.append(expected_data_type.as_str());
                assert(message@ =~= self.text(Seq::<char>::empty()));
                message
            },
            RowsAndColumnsError::ConfigurationError { configuration_issue_description } => {
                let mut message = String::new();
                message.append("Configuration error: ");
                message.append(configuration_issue_description.as_str());
                assert(message@ =~= self.text(Seq::<char>::empty()));
                message
            },
        }
    }
}

impl From<std::io::Error> for RowsAndColumnsError {
    /// A file system error without a description of its own.
    fn from(io_error: std::io::Error) -> (error: RowsAndColumnsError)
        ensures
            error matches RowsAndColumnsError::FileSystemError {
                operation_description: d,
                source_error: s,
            } && d@ == "I/O operation failed"@ && s == io_error,
    {
        RowsAndColumnsError::FileSystemError {
            operation_description: "I/O operation failed".to_owned(),
            source_error: io_error,
        }
    }
}

impl vstd::std_specs::convert::FromSpecImpl<std::io::Error> for RowsAndColumnsError {
    /// The result of the conversion is stated by `from` itself: a string is
    /// known by its characters only, so no value can be named for it here.
    open spec fn obeys_from_spec() -> bool {
        false
    }

    open spec fn from_spec(io_error: std::io::Error) -> RowsAndColumnsError {
        arbitrary()
    }
}

/// The text that `std::io::Error` shows for itself through `Display`. What
/// that text is depends on the error and on the platform, and nothing is
/// claimed of it.
#[verifier::external_body]
fn io_error_text(error: &std::io::Error) -> (text: String) {
    format!("{}", error)
}

/// The text of a file system error whose cause reads `cause`.
pub fn file_system_error_message(operation_description: &str, cause: &str) -> (message: String)
    ensures
        message@ == file_system_error_text(operation_description@, cause@),
{
    let mut message = String::new();
    message.append("File system operation failed: ");
    message.append(operation_description);
    message.append(" - Underlying error: ");
    message.append(cause);
    assert(message@ =~= file_system_error_text(operation_description@, cause@));
    message
}

/// A file system error for the operation described, caused by `io_error`.
pub fn create_file_system_error(operation_description: &str, io_error: std::io::Error) -> (error:
    RowsAndColumnsError)
    ensures
        error matches RowsAndColumnsError::FileSystemError { operation_description: d, source_error: s }
            && d@ == operation_description@ && s == io_error,
{
    RowsAndColumnsError::FileSystemError {
        operation_description: operation_description.to_owned(),
        source_error: io_error,
    }
}

/// A processing error, with the line and the column where they are known.
pub fn create_csv_processing_error(
    csv_operation_description: &str,
    csv_line_number: Option<usize>,
    csv_column_identifier: Option<String>,
) -> (error: RowsAndColumnsError)
    ensures
        error matches RowsAndColumnsError::CsvProcessingError {
            csv_operation_description: d,
            csv_line_number: l,
            csv_column_identifier: c,
        } && d@ == csv_operation_description@ && l == csv_line_number && c
            == csv_column_identifier,
{
    RowsAndColumnsError::CsvProcessingError {
        csv_operation_description: csv_operation_description.to_owned(),
        csv_line_number,
        csv_column_identifier,
    }
}

/// A metadata error for the file at `metadata_file_path`.
pub fn create_metadata_error(metadata_operation_description: &str, metadata_file_path: &str) -> (error:
    RowsAndColumnsError)
    ensures
        error matches RowsAndColumnsError::MetadataError {
            metadata_operation_description: d,
            metadata_file_path: p,
        } && d@ == metadata_operation_description@ && p@ == metadata_file_path@,
{
    RowsAndColumnsError::MetadataError {
        metadata_operation_description: metadata_operation_description.to_owned(),
        metadata_file_path: metadata_file_path.to_owned(),
    }
}

/// A statistical analysis error for the column named.
pub fn create_statistical_analysis_error(
    analysis_operation_description: &str,
    column_name_being_analyzed: &str,
) -> (error: RowsAndColumnsError)
    ensures
        error matches RowsAndColumnsError::StatisticalAnalysisError {
            analysis_operation_description: d,
            column_name_being_analyzed: c,
        } && d@ == analysis_operation_description@ && c@ == column_name_being_analyzed@,
{
    RowsAndColumnsError::StatisticalAnalysisError {
        analysis_operation_description: analysis_operation_description.to_owned(),
        column_name_being_analyzed: column_name_being_analyzed.to_owned(),
    }
}

/// A rendering error.
pub fn create_tui_rendering_error(tui_operation_description: &str) -> (error: RowsAndColumnsError)
    ensures
        error matches RowsAndColumnsError::TuiRenderingError { tui_operation_description: d } && d@
            == tui_operation_description@,
{
    RowsAndColumnsError::TuiRenderingError {
        tui_operation_description: tui_operation_description.to_owned(),
    }
}

/// A validation error for a value that is not of the type expected.
pub fn create_data_type_validation_error(
    data_type_operation_description: &str,
    invalid_value: &str,
    expected_data_type: &str,
) -> (error: RowsAndColumnsError)
    ensures
        error matches RowsAndColumnsError::DataTypeValidationError {
            data_type_operation_description: d,
            invalid_value: v,
            expected_data_type: t,
        } && d@ == data_type_operation_description@ && v@ == invalid_value@ && t@
            == expected_data_type@,
{
    RowsAndColumnsError::DataTypeValidationError {
        data_type_operation_description: data_type_operation_description.to_owned(),
        invalid_value: invalid_value.to_owned(),
        expected_data_type: expected_data_type.to_owned(),
    }
}

/// A configuration error.
pub fn create_configuration_error(configuration_issue_description: &str) -> (error:
    RowsAndColumnsError)
    ensures
        error matches RowsAndColumnsError::ConfigurationError { configuration_issue_description: d }
            && d@ == configuration_issue_description@,
{
    RowsAndColumnsError::ConfigurationError {
        configuration_issue_description: configuration_issue_description.to_owned(),
    }
}

} // verus!

verus! {

impl RowsAndColumnsError {
    /// Whether this is a processing error with the description and the line
    /// number given, and no column.
    pub open spec fn is_csv_processing_error(
        self,
        description: Seq<char>,
        line_number: Option<usize>,
    ) -> bool {
        self matches RowsAndColumnsError::CsvProcessingError {
            csv_operation_description,
            csv_line_number,
            csv_column_identifier,
        } && csv_operation_description@ == description && csv_line_number == line_number
            && csv_column_identifier is None
    }

    /// Whether this is a statistical analysis error with the description
    /// given, for the column named.
    pub open spec fn is_statistical_analysis_error(
        self,
        description: Seq<char>,
        column: Seq<char>,
    ) -> bool {
        self matches RowsAndColumnsError::StatisticalAnalysisError {
            analysis_operation_description,
            column_name_being_analyzed,
        } && analysis_operation_description@ == description && column_name_being_analyzed@
            == column
    }

    /// Whether this is a configuration error with the description given.
    pub open spec fn is_configuration_error(self, description: Seq<char>) -> bool {
        self matches RowsAndColumnsError::ConfigurationError { configuration_issue_description }
            && configuration_issue_description@ == description
    }
}

} // verus!
