//! Where the application keeps its data, and what it knows of the files and
//! directories that a user can choose from.

use vstd::prelude::*;
use vstd::string::StringExecFns;
use std::path::PathBuf;
use crate::errors::{create_configuration_error, RowsAndColumnsError};
use crate::text::{decimal_digits, push_decimal_u64};

verus! {

/// `std::path::PathBuf`, carried through as it is: nothing inside it is
/// looked at.
#[verifier::external_type_specification]
#[verifier::external_body]
pub struct ExPathBuf(std::path::PathBuf);

/// `PathBuf::clone` hands back a path equal to the one cloned.
pub assume_specification[ <std::path::PathBuf as Clone>::clone ](path: &std::path::PathBuf) -> (copy:
    std::path::PathBuf)
    ensures
        copy == *path,
;

/// The directory, beside the executable, that holds all data.
pub const ROWS_COLUMNS_ROOT_DIRECTORY_NAME: &'static str = "rows_columns_data";

/// The directory, below the root, that holds imported files.
pub const CSV_IMPORTS_SUBDIRECTORY_NAME: &'static str = "csv_imports";

/// The directory, below the root, that holds computed statistics.
pub const ANALYSIS_CACHE_SUBDIRECTORY_NAME: &'static str = "analysis_cache";

/// The directories of the application.
#[derive(Debug, Clone)]
pub struct ApplicationDirectoryPaths {
    /// The directory of the executable.
    pub executable_parent_directory: PathBuf,
    /// The root of the data.
    pub rows_columns_root_directory: PathBuf,
    /// Where imported files are kept.
    pub csv_imports_directory: PathBuf,
    /// Where computed statistics are kept.
    pub analysis_cache_directory: PathBuf,
}

/// A file that can be analysed.
#[derive(Debug, Clone)]
pub struct CsvFileInformation {
    /// The path of the file.
    pub absolute_file_path: PathBuf,
    /// The name of the file, without its directory.
    pub filename_only: String,
    /// The size of the file in bytes.
    pub file_size_bytes: u64,
    /// The size of the file as a person reads it.
    pub file_size_human_readable: String,
    /// Whether the file can be opened for reading.
    pub is_readable: bool,
}

/// An entry of a directory.
#[derive(Debug, Clone)]
pub struct DirectoryItem {
    /// The name of the entry.
    pub item_name: String,
    /// The path of the entry.
    pub absolute_path: PathBuf,
    /// Whether the entry is a directory.
    pub is_directory: bool,
    /// The size of the entry in bytes, for a file.
    pub file_size_bytes: Option<u64>,
    /// Whether the name of the entry is that of a delimited text file.
    pub appears_to_be_csv: bool,
}

/// The path of a directory below the root, relative to the executable.
pub open spec fn relative_path_below_root(subdirectory: Seq<char>) -> Seq<char> {
    ROWS_COLUMNS_ROOT_DIRECTORY_NAME@ + "/"@ + subdirectory
}

/// The path of the directory `subdirectory` below the root, relative to the
/// executable.
pub fn subdirectory_relative_path(subdirectory: &str) -> (path: String)
    ensures
        path@ == relative_path_below_root(subdirectory@),
{
    let mut path = String::new();
    path.append(ROWS_COLUMNS_ROOT_DIRECTORY_NAME);
    path.append("/");
    path.append(subdirectory);
    path
}

/// What the file system says of one directory.
#[derive(Debug, Clone, Copy, PartialEq, Eq, Structural)]
pub struct DirectoryStatus {
    /// Something exists at the path.
    pub exists: bool,
    /// What exists at the path is a directory.
    pub is_directory: bool,
}

/// What the file system says of the directories of the application.
#[derive(Debug, Clone, Copy, PartialEq, Eq, Structural)]
pub struct DirectoryStructureStatus {
    pub executable_parent_directory: DirectoryStatus,
    pub rows_columns_root_directory: DirectoryStatus,
    pub csv_imports_directory: DirectoryStatus,
    pub analysis_cache_directory: DirectoryStatus,
}

impl DirectoryStatus {
    /// A directory is in order when it exists and is a directory.
    pub open spec fn in_order(self) -> bool {
        self.exists && self.is_directory
    }
}

/// The complaint about the first directory that is not in order, in the
/// order executable, root, imports, cache. `None` where all are in order.
pub open spec fn first_complaint(status: DirectoryStructureStatus) -> Option<Seq<char>> {
    if !status.executable_parent_directory.exists {
        Some("Executable parent directory does not exist after initialization"@)
    } else if !status.executable_parent_directory.is_directory {
        Some("Executable parent path exists but is not a directory"@)
    } else if !status.rows_columns_root_directory.exists {
        Some("Main rows_columns_data directory does not exist after creation"@)
    } else if !status.rows_columns_root_directory.is_directory {
        Some("Main rows_columns_data path exists but is not a directory"@)
    } else if !status.csv_imports_directory.exists {
        Some("CSV imports directory does not exist after creation"@)
    } else if !status.csv_imports_directory.is_directory {
        Some("CSV imports path exists but is not a directory"@)
    } else if !status.analysis_cache_directory.exists {
        Some("Analysis cache directory does not exist after creation"@)
    } else if !status.analysis_cache_directory.is_directory {
        Some("Analysis cache path exists but is not a directory"@)
    } else {
        None
    }
}

/// Checks that every directory of the application exists and is a directory.
/// The first that is not is reported as a configuration error.
pub fn validate_directory_structure_initialization(status: &DirectoryStructureStatus) -> (result:
    Result<(), RowsAndColumnsError>)
    ensures
        match first_complaint(*status) {
            Some(complaint) => result is Err && result->Err_0.is_configuration_error(complaint),
            None => result is Ok,
        },
        result is Ok <==> status.executable_parent_directory.in_order()
            && status.rows_columns_root_directory.in_order()
            && status.csv_imports_directory.in_order()
            && status.analysis_cache_directory.in_order(),
{
    if !status.executable_parent_directory.exists {
        return Err(
            create_configuration_error(
                "Executable parent directory does not exist after initialization",
            ),
        );
    }
    if !status.executable_parent_directory.is_directory {
        return Err(
            create_configuration_error("Executable parent path exists but is not a directory"),
        );
    }
    if !status.rows_columns_root_directory.exists {
        return Err(
            create_configuration_error(
                "Main rows_columns_data directory does not exist after creation",
            ),
        );
    }
    if !status.rows_columns_root_directory.is_directory {
        return Err(
            create_configuration_error("Main rows_columns_data path exists but is not a directory"),
        );
    }
    if !status.csv_imports_directory.exists {
        return Err(
            create_configuration_error("CSV imports directory does not exist after creation"),
        );
    }
    if !status.csv_imports_directory.is_directory {
        return Err(create_configuration_error("CSV imports path exists but is not a directory"));
    }
    if !status.analysis_cache_directory.exists {
        return Err(
            create_configuration_error("Analysis cache directory does not exist after creation"),
        );
    }
    if !status.analysis_cache_directory.is_directory {
        return Err(create_configuration_error("Analysis cache path exists but is not a directory"));
    }
    Ok(())
}

/// The number of bytes in a kilobyte.
pub const KILOBYTE: u64 = 1_024;

/// The number of bytes in a megabyte.
pub const MEGABYTE: u64 = 1_048_576;

/// The number of bytes in a gigabyte.
pub const GIGABYTE: u64 = 1_073_741_824;

/// `size` over `unit` in tenths, rounded to the nearest tenth; a size that
/// lies midway between two tenths goes to the even one.
pub open spec fn rounded_tenths(size: nat, unit: nat) -> nat
    recommends
        unit > 0,
{
    let scaled = size * 10;
    let whole = scaled / unit;
    let rest = scaled % unit;
    if 2 * rest > unit || (2 * rest == unit && whole % 2 == 1) {
        whole + 1
    } else {
        whole
    }
}

/// A number of tenths written with one decimal.
pub open spec fn one_decimal(tenths: nat) -> Seq<char> {
    decimal_digits(tenths / 10) + "."@ + decimal_digits(tenths % 10)
}

/// A size as a person reads it: in the largest unit that it reaches, with
/// one decimal, and in whole bytes below a kilobyte.
pub open spec fn file_size_text(size_bytes: nat) -> Seq<char> {
    if size_bytes >= GIGABYTE {
        one_decimal(rounded_tenths(size_bytes, GIGABYTE as nat)) + " GB"@
    } else if size_bytes >= MEGABYTE {
        one_decimal(rounded_tenths(size_bytes, MEGABYTE as nat)) + " MB"@
    } else if size_bytes >= KILOBYTE {
        one_decimal(rounded_tenths(size_bytes, KILOBYTE as nat)) + " KB"@
    } else {
        decimal_digits(size_bytes) + " B"@
    }
}

/// With a unit of ten or more, the tenths of a size that fits 64 bits fit 64
/// bits too.
pub proof fn lemma_rounded_tenths_fit(size: nat, unit: nat)
    requires
        size <= u64::MAX,
        unit >= 10,
    ensures
        rounded_tenths(size, unit) <= u64::MAX,
{
    let scaled = size * 10;
    let whole = scaled / unit;
    let rest = scaled % unit;
    assert(scaled == whole * unit + rest && 0 <= rest < unit) by (nonlinear_arith)
        requires
            whole == scaled / unit,
            rest == scaled % unit,
            unit > 0,
    ;
    assert(whole * unit >= whole * 10) by (nonlinear_arith)
        requires
            unit >= 10,
    ;
}

/// `size_bytes` over `unit` in tenths, rounded to the nearest tenth, ties to
/// the even one. The unit is not zero, and the tenths fit 64 bits.
pub fn compute_rounded_tenths(size_bytes: u64, unit: u64) -> (tenths: u64)
    requires
        unit > 0,
        rounded_tenths(size_bytes as nat, unit as nat) <= u64::MAX,
    ensures
        tenths == rounded_tenths(size_bytes as nat, unit as nat),
{
    let scaled: u128 = (size_bytes as u128) * 10;
    let whole: u128 = scaled / (unit as u128);
    let rest: u128 = scaled % (unit as u128);
    assert(whole <= scaled) by (nonlinear_arith)
        requires
            whole == scaled / (unit as u128),
            0 < unit,
            0 <= scaled,
    ;
    let rounded = if 2 * rest > (unit as u128) || (2 * rest == (unit as u128) && whole % 2 == 1) {
        whole + 1
    } else {
        whole
    };
    rounded as u64
}

/// Appends a number of tenths, written with one decimal, and the name of a
/// unit.
pub fn push_one_decimal(text: &mut String, tenths: u64, unit_name: &str)
    ensures
        final(text)@ == old(text)@ + one_decimal(tenths as nat) + unit_name@,
{
    push_decimal_u64(text, tenths / 10);
    text.append(".");
    push_decimal_u64(text, tenths % 10);
    text.append(unit_name);
}

/// A size as a person reads it, such as `1.5 KB`: in gigabytes, megabytes or
/// kilobytes with one decimal, or in whole bytes.
pub fn format_file_size(size_bytes: u64) -> (text: String)
    ensures
        text@ == file_size_text(size_bytes as nat),
{
    let mut text = String::new();
    proof {
        lemma_rounded_tenths_fit(size_bytes as nat, GIGABYTE as nat);
        lemma_rounded_tenths_fit(size_bytes as nat, MEGABYTE as nat);
        lemma_rounded_tenths_fit(size_bytes as nat, KILOBYTE as nat);
    }
    if size_bytes >= GIGABYTE {
        push_one_decimal(&mut text, compute_rounded_tenths(size_bytes, GIGABYTE), " GB");
    } else if size_bytes >= MEGABYTE {
        push_one_decimal(&mut text, compute_rounded_tenths(size_bytes, MEGABYTE), " MB");
    } else if size_bytes >= KILOBYTE {
        push_one_decimal(&mut text, compute_rounded_tenths(size_bytes, KILOBYTE), " KB");
    } else {
        push_decimal_u64(&mut text, size_bytes);
        text.append(" B");
    }
    text
}

/// A size as a person reads it. The same as `format_file_size`.
pub fn format_file_size_for_display(size_bytes: u64) -> (text: String)
    ensures
        text@ == file_size_text(size_bytes as nat),
{
    format_file_size(size_bytes)
}

/// What is known of a file that was chosen from a directory. Whether the
/// file can be read is for the caller to find out.
pub fn create_csv_file_information(directory_item: &DirectoryItem, is_readable: bool) -> (
    information: CsvFileInformation)
    ensures
        information.absolute_file_path == directory_item.absolute_path,
        information.filename_only@ == directory_item.item_name@,
        information.file_size_bytes == match directory_item.file_size_bytes {
            Some(size) => size,
            None => 0,
        },
        information.file_size_human_readable@ == file_size_text(
            information.file_size_bytes as nat,
        ),
        information.is_readable == is_readable,
{
    let file_size_bytes = match directory_item.file_size_bytes {
        Some(size) => size,
        None => 0,
    };
    CsvFileInformation {
        absolute_file_path: directory_item.absolute_path.clone(),
        filename_only: directory_item.item_name.clone(),
        file_size_bytes,
        file_size_human_readable: format_file_size(file_size_bytes),
        is_readable,
    }
}

} // verus!
