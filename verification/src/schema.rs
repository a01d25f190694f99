//! The schema document: the text that records the columns of a file, and the
//! place where it is kept.
//!
//! The document lies beside the source file and bears its name with another
//! ending. It is written anew at every analysis.

use vstd::prelude::*;
use vstd::string::StringExecFns;
use std::path::PathBuf;
use crate::columns::{ColumnProfile, CsvColumnInformation, profiles_of};
use crate::errors::{create_configuration_error, RowsAndColumnsError};
use crate::text::{decimal_digits, push_decimal};

verus! {

/// The ending of the name of a schema document.
pub const METADATA_FILE_EXTENSION: &'static str = "csv_metadata.toml";

/// What a schema document begins with, before the first key.
pub open spec fn document_heading() -> Seq<char> {
    "# CSV Metadata File\n"@ + "# Generated by rows_and_columns\n\n"@
}

/// The section of one column: its key, which counts columns from 1, and its
/// five fields.
pub open spec fn column_section(column: ColumnProfile) -> Seq<char> {
    "[column_"@ + decimal_digits(column.column_index + 1) + "]\n"@ + "name = \""@
        + column.column_name + "\"\n"@ + "data_type = \""@ + column.detected_data_type.toml_tag()
        + "\"\n"@ + "column_index = "@ + decimal_digits(column.column_index) + "\n"@
        + "non_empty_values = "@ + decimal_digits(column.non_empty_value_count) + "\n"@
        + "empty_values = "@ + decimal_digits(column.empty_value_count) + "\n"@ + "\n"@
}

/// The sections of the columns, one after the other.
pub open spec fn column_sections(columns: Seq<ColumnProfile>) -> Seq<char>
    decreases columns.len(),
{
    if columns.len() == 0 {
        Seq::<char>::empty()
    } else {
        column_sections(columns.drop_last()) + column_section(columns.last())
    }
}

/// The schema document of the columns given: the heading, the number of
/// columns, and a section for each column.
pub open spec fn metadata_document(columns: Seq<ColumnProfile>) -> Seq<char> {
    document_heading() + "total_columns = "@ + decimal_digits(columns.len()) + "\n"@ + "\n"@
        + column_sections(columns)
}

/// The name of the schema document of a file whose name, without its ending,
/// is `stem`.
pub open spec fn metadata_file_name(stem: Seq<char>) -> Seq<char> {
    stem + "."@ + METADATA_FILE_EXTENSION@
}

/// Appends the section of one column to `document`.
pub fn push_column_section(document: &mut String, column_info: &CsvColumnInformation)
    requires
        column_info.column_index < usize::MAX,
    ensures
        final(document)@ == old(document)@ + column_section(column_info@),
{
    let mut section = String::new();
    section.append("[column_");
    push_decimal(&mut section, column_info.column_index + 1);
    section.append("]\n");
    section.append("name = \"");
    section.append(column_info.column_name.as_str());
    section.append("\"\n");
    section.append("data_type = \"");
    section.append(column_info.detected_data_type.to_toml_string());
    section.append("\"\n");
    section.append("column_index = ");
    push_decimal(&mut section, column_info.column_index);
    section.append("\n");
    section.append("non_empty_values = ");
    push_decimal(&mut section, column_info.non_empty_value_count);
    section.append("\n");
    section.append("empty_values = ");
    push_decimal(&mut section, column_info.empty_value_count);
    section.append("\n");
    section.append("\n");
    assert(section@ == column_section(column_info@));
    document.append(section.as_str());
}

/// The text of the schema document for the columns given.
#[verifier::loop_isolation(false)]
pub fn create_metadata_document(column_information_list: &Vec<CsvColumnInformation>) -> (document:
    String)
    requires
        forall|i: int|
            0 <= i < column_information_list.len() ==> (
            #[trigger] column_information_list[i]).column_index < usize::MAX,
    ensures
        document@ == metadata_document(profiles_of(column_information_list@)),
{
    let ghost columns = profiles_of(column_information_list@);
    let mut document = String::new();
    document.append("# CSV Metadata File\n");
    document.append("# Generated by rows_and_columns\n\n");
    document.append("total_columns = ");
    push_decimal(&mut document, column_information_list.len());
    document.append("\n");
    document.append("\n");
    let ghost top = document@;
    assert(top == document_heading() + "total_columns = "@ + decimal_digits(columns.len()) + "\n"@
        + "\n"@);
    let mut i: usize = 0;
    while i < column_information_list.len()
        invariant
            i <= column_information_list.len(),
            document@ == top + column_sections(columns.take(i as int)),
        decreases column_information_list.len() - i,
    {
        proof {
            assert(columns.take(i + 1).drop_last() == columns.take(i as int));
            assert(columns.take(i + 1).last() == column_information_list[i as int]@);
        }
        push_column_section(&mut document, &column_information_list[i]);
        i += 1;
    }
    assert(columns.take(column_information_list.len() as int) == columns);
    document
}

/// The name of the schema document of a file whose name, without its ending,
/// is `stem`.
pub fn create_metadata_file_name(stem: &str) -> (name: String)
    ensures
        name@ == metadata_file_name(stem@),
{
    let mut name = String::new();
    name.append(stem);
    name.append(".");
    name.append(METADATA_FILE_EXTENSION);
    name
}

/// The text of the complaint that a path shows no file name.
pub open spec fn no_filename_complaint(path_text: Seq<char>) -> Seq<char> {
    "Cannot determine filename from CSV path: "@ + path_text
}

/// The text of the complaint that a path shows no directory.
pub open spec fn no_directory_complaint(path_text: Seq<char>) -> Seq<char> {
    "Cannot determine directory from CSV path: "@ + path_text
}

/// Decides where the schema document of a file lies, from the parts of the
/// path of the file.
///
/// `path_text` is the path as it is shown to a person, `stem` the name of the
/// file without its ending, and `directory` the directory of the file. A path
/// without a file name is refused, and so is one without a directory.
/// Otherwise the document lies in `directory`, under the name that the stem
/// gives.
pub fn locate_metadata_file(
    path_text: &str,
    stem: Option<String>,
    directory: Option<PathBuf>,
) -> (result: Result<(PathBuf, String), RowsAndColumnsError>)
    ensures
        stem is None ==> result is Err && result->Err_0.is_configuration_error(
            no_filename_complaint(path_text@),
        ),
        stem is Some && directory is None ==> result is Err
            && result->Err_0.is_configuration_error(no_directory_complaint(path_text@)),
        stem is Some && directory is Some ==> result is Ok && result->Ok_0.0 == directory->0
            && result->Ok_0.1@ == metadata_file_name(stem->0@),
{
    let stem = match stem {
        Some(stem) => stem,
        None => {
            let mut complaint = String::new();
            complaint.append("Cannot determine filename from CSV path: ");
            complaint.append(path_text);
            return Err(create_configuration_error(complaint.as_str()));
        },
    };
    let metadata_filename = create_metadata_file_name(stem.as_str());
    match directory {
        Some(directory) => Ok((directory, metadata_filename)),
        None => {
            let mut complaint = String::new();
            complaint.append("Cannot determine directory from CSV path: ");
            complaint.append(path_text);
            Err(create_configuration_error(complaint.as_str()))
        },
    }
}

/// What `Path::file_stem` followed by `OsStr::to_str` gives for a path: the
/// name of the file without its ending, where the path has a file name and
/// that name is valid Unicode.
pub uninterp spec fn path_stem_text(path: PathBuf) -> Option<Seq<char>>;

/// What `Path::parent` gives for a path: the path without its last part,
/// where it has one.
pub uninterp spec fn path_directory(path: PathBuf) -> Option<PathBuf>;

/// What `Path::display` shows for a path.
pub uninterp spec fn path_shown(path: PathBuf) -> Seq<char>;

/// What `Path::join` gives: the path of `name` inside `directory`.
pub uninterp spec fn path_joined(directory: PathBuf, name: Seq<char>) -> PathBuf;

/// `Path::file_stem` followed by `OsStr::to_str`. The two are taken
/// together, since what lies between them is no text. The result is a
/// function of the path alone; it is named, not written out.
#[verifier::external_body]
fn path_file_stem(path: &PathBuf) -> (stem: Option<String>)
    ensures
        match stem {
            Some(text) => path_stem_text(*path) == Some(text@),
            None => path_stem_text(*path) is None,
        },
{
    match path.file_stem() {
        Some(stem) => match stem.to_str() {
            Some(text) => Some(text.to_owned()),
            None => None,
        },
        None => None,
    }
}

/// `Path::parent`. The result is a function of the path alone; it is named,
/// not written out.
#[verifier::external_body]
fn path_parent(path: &PathBuf) -> (parent: Option<PathBuf>)
    ensures
        parent == path_directory(*path),
{
    match path.parent() {
        Some(parent) => Some(parent.to_path_buf()),
        None => None,
    }
}

/// `Path::join`. The result is a function of the directory and the name
/// alone; it is named, not written out.
#[verifier::external_body]
fn path_join(directory: &PathBuf, name: &str) -> (joined: PathBuf)
    ensures
        joined == path_joined(*directory, name@),
{
    directory.join(name)
}

/// `Path::display`. The result is a function of the path alone; it is named,
/// not written out.
#[verifier::external_body]
fn path_display(path: &PathBuf) -> (text: String)
    ensures
        text@ == path_shown(*path),
{
    format!("{}", path.display())
}

/// Where the schema document of the file at `path` lies, over what the
/// platform says of the path: a refusal for a path without a file name, a
/// refusal for one without a directory, and otherwise the path, inside the
/// directory of the file, of the name that the stem gives.
pub open spec fn metadata_file_path_of(path: PathBuf) -> Result<PathBuf, Seq<char>> {
    match path_stem_text(path) {
        None => Err(no_filename_complaint(path_shown(path))),
        Some(stem) => match path_directory(path) {
            None => Err(no_directory_complaint(path_shown(path))),
            Some(directory) => Ok(path_joined(directory, metadata_file_name(stem))),
        },
    }
}

/// The path of the schema document of the file at `csv_file_path`: in the
/// directory of the file, under the name of the file with the ending of
/// schema documents.
///
/// A path that has no file name, or whose file name is no valid Unicode, is
/// refused; so is a path that has no directory. Every other path has its
/// schema document. The path is taken apart, shown and put together by
/// `std::path`.
pub fn determine_metadata_file_path(csv_file_path: &PathBuf) -> (result: Result<
    PathBuf,
    RowsAndColumnsError,
>)
    ensures
        match metadata_file_path_of(*csv_file_path) {
            Ok(metadata_file_path) => result == Ok::<PathBuf, RowsAndColumnsError>(
                metadata_file_path,
            ),
            Err(complaint) => result is Err && result->Err_0.is_configuration_error(complaint),
        },
{
    let path_text = path_display(csv_file_path);
    let stem = path_file_stem(csv_file_path);
    let directory = path_parent(csv_file_path);
    match locate_metadata_file(path_text.as_str(), stem, directory) {
        Ok((directory, metadata_filename)) => Ok(
            path_join(&directory, metadata_filename.as_str()),
        ),
        Err(error) => Err(error),
    }
}

} // verus!
