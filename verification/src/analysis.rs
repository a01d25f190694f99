//! The two stages of an analysis, from the lines of a file: its structure and
//! column types first, then the statistics of every column.

use vstd::prelude::*;
use std::path::PathBuf;
use crate::columns::{
    ColumnProfile,
    CsvColumnInformation,
    CsvFieldType,
    determine_field_type,
    field_type_of,
    profiles_of,
};
use crate::errors::RowsAndColumnsError;
use crate::frequencies::{
    calculate_categorical_statistics,
    describes_categories,
    entries_of,
    lemma_ranking_unique,
    present_values,
    CategoricalColumnStatistics,
};
use crate::sampling::{analyze_csv_column_types_and_content, column_profile};
use crate::schema::{determine_metadata_file_path, metadata_file_path_of};
use crate::statistics::{
    calculate_numerical_statistics,
    collect_all_column_values,
    column_cells,
    data_rows,
    numeric_values,
    numerical_selection,
    NumericalColumnSelection,
};
use crate::structure::{analyze_csv_basic_structure, data_row_count, has_header};
use crate::text::views_of;
use crate::tokenizer::column_count;

verus! {

/// What the first stage of an analysis finds.
#[derive(Debug)]
pub struct CsvAnalysisResults {
    /// The path of the file.
    pub csv_file_path: PathBuf,
    /// Whether the first line of the file is a header.
    pub has_header_row: bool,
    /// The number of columns.
    pub total_column_count: usize,
    /// The number of data rows: lines that are not blank, the header left out.
    pub total_data_row_count: usize,
    /// The profile of every column.
    pub column_information_list: Vec<CsvColumnInformation>,
    /// The path of the schema document.
    pub metadata_file_path: PathBuf,
    /// Whether a schema document was there before this analysis. The library
    /// does not look at the disk: this is `false` until the caller, who does,
    /// says otherwise.
    pub metadata_file_already_existed: bool,
}

impl CsvAnalysisResults {
    /// Every column is listed at its own position.
    pub open spec fn wf(&self) -> bool {
        &&& self.column_information_list.len() == self.total_column_count
        &&& forall|i: int|
            0 <= i < self.column_information_list.len() ==> (
            #[trigger] self.column_information_list[i]).column_index == i
    }

    /// Whether these are the results for a file with the lines given.
    pub open spec fn describes(&self, lines: Seq<Seq<char>>) -> bool {
        &&& lines.len() > 0
        &&& self.has_header_row == has_header(lines)
        &&& self.total_column_count == column_count(lines[0])
        &&& self.total_data_row_count == data_row_count(lines)
        &&& self.column_information_list.len() == self.total_column_count
        &&& forall|column: int|
            0 <= column < self.total_column_count ==> (
            #[trigger] self.column_information_list[column])@ == column_profile(
                lines,
                self.has_header_row,
                column as nat,
            )
        &&& !self.metadata_file_already_existed
    }
}

/// The statistics of one column, beside its profile.
#[derive(Debug, Clone)]
pub struct EnhancedCsvColumnInformation {
    /// The profile of the column.
    pub basic_info: CsvColumnInformation,
    /// Which statistics suit the column.
    pub field_type: CsvFieldType,
    /// What the measures of a continuous column are computed from.
    pub numerical_statistics: Option<NumericalColumnSelection>,
    /// The statistics of a categorical column.
    pub categorical_statistics: Option<CategoricalColumnStatistics>,
}

/// A structure that speaks of a header, and no line to read it from.
pub open spec fn lacks_header_line(
    structure: Result<(bool, usize, usize), RowsAndColumnsError>,
    leading_lines: Seq<String>,
) -> bool {
    structure is Ok && structure->Ok_0.0 && leading_lines.len() == 0
}

/// Puts the results of the first stage together, from a structure that a
/// scan has found and the leading lines of the file.
///
/// `structure` is what the structural scan of the whole file gave, and
/// `leading_lines` are the lines of the file from its top: all of them, or
/// the first eleven at least. A failed scan is passed on; a header that
/// cannot be read because there is no line is refused; after that, a failure
/// to place the schema document is passed on. Otherwise the results hold the
/// structure, the profile of every column, and the two paths.
pub fn assemble_analysis_results(
    csv_file_path: PathBuf,
    structure: Result<(bool, usize, usize), RowsAndColumnsError>,
    leading_lines: &Vec<String>,
    metadata_location: Result<PathBuf, RowsAndColumnsError>,
) -> (result: Result<CsvAnalysisResults, RowsAndColumnsError>)
    ensures
        structure is Err ==> result is Err && result->Err_0 == structure->Err_0,
        lacks_header_line(structure, leading_lines@) ==> result is Err
            && result->Err_0.is_csv_processing_error(
            "CSV file appears empty when trying to read header"@,
            Some(1usize),
        ),
        structure is Ok && !lacks_header_line(structure, leading_lines@) && metadata_location is Err
            ==> result is Err && result->Err_0 == metadata_location->Err_0,
        structure is Ok && !lacks_header_line(structure, leading_lines@) && metadata_location is Ok
            ==> {
            &&& result is Ok
            &&& result->Ok_0.wf()
            &&& result->Ok_0.has_header_row == structure->Ok_0.0
            &&& result->Ok_0.total_column_count == structure->Ok_0.1
            &&& result->Ok_0.total_data_row_count == structure->Ok_0.2
            &&& result->Ok_0.column_information_list.len() == structure->Ok_0.1
            &&& forall|column: int|
                0 <= column < structure->Ok_0.1 ==> (
                #[trigger] result->Ok_0.column_information_list[column])@ == column_profile(
                    views_of(leading_lines@),
                    structure->Ok_0.0,
                    column as nat,
                )
            &&& result->Ok_0.csv_file_path == csv_file_path
            &&& result->Ok_0.metadata_file_path == metadata_location->Ok_0
            &&& !result->Ok_0.metadata_file_already_existed
        },
{
    let (has_header_row, column_count, data_row_count) = match structure {
        Ok(structure) => structure,
        Err(error) => {
            return Err(error);
        },
    };
    let column_information_list = match analyze_csv_column_types_and_content(
        leading_lines,
        has_header_row,
        column_count,
    ) {
        Ok(columns) => columns,
        Err(error) => {
            return Err(error);
        },
    };
    let metadata_file_path = match metadata_location {
        Ok(path) => path,
        Err(error) => {
            return Err(error);
        },
    };
    Ok(
        CsvAnalysisResults {
            csv_file_path,
            has_header_row,
            total_column_count: column_count,
            total_data_row_count: data_row_count,
            column_information_list,
            metadata_file_path,
            metadata_file_already_existed: false,
        },
    )
}

/// The first stage of an analysis, once the place of the schema document is
/// known or known not to be had.
///
/// A file without lines is refused. After that, a failure to place the schema
/// document is passed on. Otherwise the results hold the structure of the
/// file, the profile of every column, and the two paths.
pub fn analyze_csv_lines(
    csv_file_path: PathBuf,
    lines: &Vec<String>,
    metadata_location: Result<PathBuf, RowsAndColumnsError>,
) -> (result: Result<CsvAnalysisResults, RowsAndColumnsError>)
    ensures
        lines.len() == 0 ==> result is Err && result->Err_0.is_csv_processing_error(
            "CSV file appears to be empty"@,
            Some(1usize),
        ),
        lines.len() > 0 && metadata_location is Err ==> result is Err && result->Err_0
            == metadata_location->Err_0,
        lines.len() > 0 && metadata_location is Ok ==> result is Ok && result->Ok_0.describes(
            views_of(lines@),
        ) && result->Ok_0.wf() && result->Ok_0.csv_file_path == csv_file_path
            && result->Ok_0.metadata_file_path == metadata_location->Ok_0,
{
    let structure = analyze_csv_basic_structure(lines);
    assemble_analysis_results(csv_file_path, structure, lines, metadata_location)
}

/// The first stage of an analysis: the structure of a file and the profile of
/// each of its columns, from its lines.
///
/// A file without lines is refused. After that, a path from which the place
/// of the schema document cannot be told is refused. Every other file has its
/// results: the structure, the profile of every column, and the two paths.
pub fn analyze_csv_file_structure_and_types(csv_file_path: &PathBuf, lines: &Vec<String>) -> (result:
    Result<CsvAnalysisResults, RowsAndColumnsError>)
    ensures
        lines.len() == 0 ==> result is Err && result->Err_0.is_csv_processing_error(
            "CSV file appears to be empty"@,
            Some(1usize),
        ),
        lines.len() > 0 ==> match metadata_file_path_of(*csv_file_path) {
            Ok(metadata_file_path) => {
                &&& result is Ok
                &&& result->Ok_0.describes(views_of(lines@))
                &&& result->Ok_0.wf()
                &&& result->Ok_0.csv_file_path == *csv_file_path
                &&& result->Ok_0.metadata_file_path == metadata_file_path
            },
            Err(complaint) => result is Err && result->Err_0.is_configuration_error(complaint),
        },
{
    let metadata_location = determine_metadata_file_path(csv_file_path);
    analyze_csv_lines(csv_file_path.clone(), lines, metadata_location)
}

/// A continuous column without a single number: its measures cannot be had.
pub open spec fn lacks_numbers(values: Seq<Seq<char>>, column: ColumnProfile) -> bool {
    field_type_of(column.detected_data_type) == CsvFieldType::Continuous && numeric_values(
        values,
    ).len() == 0
}

/// Whether `info` holds the statistics of a column with the profile and the
/// values given.
pub open spec fn describes_column(
    values: Seq<Seq<char>>,
    column: ColumnProfile,
    info: EnhancedCsvColumnInformation,
) -> bool {
    &&& info.basic_info@ == column
    &&& info.field_type == field_type_of(column.detected_data_type)
    &&& match info.field_type {
        CsvFieldType::Continuous => {
            &&& info.categorical_statistics is None
            &&& info.numerical_statistics is Some
            &&& info.numerical_statistics->0@ == numerical_selection(values)
            &&& numeric_values(values).len() > 0
        },
        CsvFieldType::Categorical => {
            &&& info.numerical_statistics is None
            &&& info.categorical_statistics is Some
            &&& describes_categories(values, info.categorical_statistics->0)
        },
    }
}

/// The values of the column that `column` profiles, in a file with the lines
/// given.
pub open spec fn values_of_column(
    lines: Seq<Seq<char>>,
    has_header_row: bool,
    column: ColumnProfile,
) -> Seq<Seq<char>> {
    column_cells(data_rows(lines, has_header_row), column.column_index as int)
}

/// The statistics of one column.
pub fn analyze_column(basic_column_info: &CsvColumnInformation, column_values: &Vec<String>) -> (
    result: Result<EnhancedCsvColumnInformation, RowsAndColumnsError>)
    ensures
        lacks_numbers(views_of(column_values@), basic_column_info@) ==> result is Err
            && result->Err_0.is_statistical_analysis_error(
            "No valid numerical values found for statistical analysis"@,
            basic_column_info.column_name@,
        ),
        !lacks_numbers(views_of(column_values@), basic_column_info@) ==> result is Ok
            && describes_column(views_of(column_values@), basic_column_info@, result->Ok_0),
{
    let field_type = determine_field_type(&basic_column_info.detected_data_type);
    match field_type {
        CsvFieldType::Continuous => {
            match calculate_numerical_statistics(
                column_values,
                basic_column_info.column_name.as_str(),
            ) {
                Ok(numerical_stats) => Ok(
                    EnhancedCsvColumnInformation {
                        basic_info: basic_column_info.duplicate(),
                        field_type,
                        numerical_statistics: Some(numerical_stats),
                        categorical_statistics: None,
                    },
                ),
                Err(error) => Err(error),
            }
        },
        CsvFieldType::Categorical => {
            let categorical_stats = calculate_categorical_statistics(column_values);
            Ok(
                EnhancedCsvColumnInformation {
                    basic_info: basic_column_info.duplicate(),
                    field_type,
                    numerical_statistics: None,
                    categorical_statistics: Some(categorical_stats),
                },
            )
        },
    }
}

/// The second stage of an analysis: the statistics of every column, from all
/// lines of the file.
///
/// A categorical column gets the ranking of its values; a continuous column
/// gets its numbers and the places of its quartiles. The first continuous
/// column without a single number ends the analysis with an error that names
/// it.
#[verifier::loop_isolation(false)]
pub fn perform_enhanced_statistical_analysis(
    lines: &Vec<String>,
    basic_analysis_results: &CsvAnalysisResults,
) -> (result: Result<Vec<EnhancedCsvColumnInformation>, RowsAndColumnsError>)
    requires
        forall|i: int|
            0 <= i < basic_analysis_results.column_information_list.len() ==> (
            #[trigger] basic_analysis_results.column_information_list[i]).column_index
                < basic_analysis_results.total_column_count,
    ensures
        match first_column_lacking_numbers(
            views_of(lines@),
            basic_analysis_results.has_header_row,
            profiles_of(basic_analysis_results.column_information_list@),
        ) {
            Some(failing) => result is Err && result->Err_0.is_statistical_analysis_error(
                "No valid numerical values found for statistical analysis"@,
                basic_analysis_results.column_information_list[failing].column_name@,
            ),
            None => result is Ok && result->Ok_0.len()
                == basic_analysis_results.column_information_list.len() && forall|i: int|
                0 <= i < result->Ok_0.len() ==> describes_column(
                    values_of_column(
                        views_of(lines@),
                        basic_analysis_results.has_header_row,
                        basic_analysis_results.column_information_list[i]@,
                    ),
                    basic_analysis_results.column_information_list[i]@,
                    #[trigger] result->Ok_0[i],
                ),
        },
{
    let ghost all = views_of(lines@);
    let ghost header = basic_analysis_results.has_header_row;
    let ghost columns = profiles_of(basic_analysis_results.column_information_list@);
    let all_column_values = collect_all_column_values(
        lines,
        basic_analysis_results.has_header_row,
        basic_analysis_results.total_column_count,
    );
    let mut enhanced_column_info_list: Vec<EnhancedCsvColumnInformation> = Vec::new();
    let mut i: usize = 0;
    proof {
        assert(columns.take(0) == Seq::<ColumnProfile>::empty());
    }
    while i < basic_analysis_results.column_information_list.len()
        invariant
            i <= basic_analysis_results.column_information_list.len(),
            enhanced_column_info_list.len() == i,
            first_column_lacking_numbers(all, header, columns.take(i as int)) is None,
            forall|k: int|
                0 <= k < i ==> describes_column(
                    values_of_column(
                        all,
                        header,
                        basic_analysis_results.column_information_list[k]@,
                    ),
                    basic_analysis_results.column_information_list[k]@,
                    #[trigger] enhanced_column_info_list[k],
                ),
        decreases basic_analysis_results.column_information_list.len() - i,
    {
        let basic_column_info = &basic_analysis_results.column_information_list[i];
        let column_values = &all_column_values[basic_column_info.column_index];
        proof {
            assert(columns.take(i + 1).drop_last() == columns.take(i as int));
            assert(columns.take(i + 1).last() == basic_column_info@);
            assert(views_of(column_values@) == values_of_column(all, header, basic_column_info@));
        }
        match analyze_column(basic_column_info, column_values) {
            Ok(enhanced_column_info) => {
                enhanced_column_info_list.push(enhanced_column_info);
            },
            Err(error) => {
                proof {
                    lemma_first_failure_stays(all, header, columns, i + 1);
                }
                return Err(error);
            },
        }
        i += 1;
    }
    assert(columns.take(basic_analysis_results.column_information_list.len() as int) == columns);
    Ok(enhanced_column_info_list)
}

/// The position of the first continuous column that has no number, if there
/// is one.
pub open spec fn first_column_lacking_numbers(
    lines: Seq<Seq<char>>,
    has_header_row: bool,
    columns: Seq<ColumnProfile>,
) -> Option<int>
    decreases columns.len(),
{
    if columns.len() == 0 {
        None
    } else {
        match first_column_lacking_numbers(lines, has_header_row, columns.drop_last()) {
            Some(earlier) => Some(earlier),
            None => if lacks_numbers(
                values_of_column(lines, has_header_row, columns.last()),
                columns.last(),
            ) {
                Some(columns.len() - 1)
            } else {
                None
            },
        }
    }
}

/// A column that fails first among the first `count` columns fails first
/// among all of them.
proof fn lemma_first_failure_stays(
    lines: Seq<Seq<char>>,
    has_header_row: bool,
    columns: Seq<ColumnProfile>,
    count: int,
)
    requires
        0 <= count <= columns.len(),
        first_column_lacking_numbers(lines, has_header_row, columns.take(count)) is Some,
    ensures
        first_column_lacking_numbers(lines, has_header_row, columns)
            == first_column_lacking_numbers(lines, has_header_row, columns.take(count)),
    decreases columns.len() - count,
{
    if count == columns.len() {
        assert(columns.take(count) == columns);
    } else {
        assert(columns.take(count + 1).drop_last() == columns.take(count));
        lemma_first_failure_stays(lines, has_header_row, columns, count + 1);
    }
}

/// What the first failing position means: the column there lacks numbers,
/// and no column before it does.
pub proof fn lemma_first_column_lacking_numbers(
    lines: Seq<Seq<char>>,
    has_header_row: bool,
    columns: Seq<ColumnProfile>,
)
    ensures
        match first_column_lacking_numbers(lines, has_header_row, columns) {
            Some(failing) => 0 <= failing < columns.len() && lacks_numbers(
                values_of_column(lines, has_header_row, columns[failing]),
                columns[failing],
            ) && forall|k: int|
                0 <= k < failing ==> !lacks_numbers(
                    values_of_column(lines, has_header_row, #[trigger] columns[k]),
                    columns[k],
                ),
            None => forall|k: int|
                0 <= k < columns.len() ==> !lacks_numbers(
                    values_of_column(lines, has_header_row, #[trigger] columns[k]),
                    columns[k],
                ),
        },
    decreases columns.len(),
{
    if columns.len() > 0 {
        lemma_first_column_lacking_numbers(lines, has_header_row, columns.drop_last());
        assert forall|k: int| 0 <= k < columns.len() - 1 implies columns.drop_last()[k]
            == columns[k] by {}
    }
}

/// Analysing a column again gives the same statistics: whatever holds the
/// statistics of a column with given values holds the same numbers, the same
/// positions, the same ranking and the same shares.
pub proof fn lemma_column_statistics_repeatable(
    values: Seq<Seq<char>>,
    column: ColumnProfile,
    first_run: EnhancedCsvColumnInformation,
    second_run: EnhancedCsvColumnInformation,
)
    requires
        describes_column(values, column, first_run),
        describes_column(values, column, second_run),
    ensures
        first_run.basic_info@ == second_run.basic_info@,
        first_run.field_type == second_run.field_type,
        first_run.numerical_statistics is Some <==> second_run.numerical_statistics is Some,
        first_run.numerical_statistics is Some ==> first_run.numerical_statistics->0@
            == second_run.numerical_statistics->0@,
        first_run.categorical_statistics is Some <==> second_run.categorical_statistics is Some,
        first_run.categorical_statistics is Some ==> same_categories(
            first_run.categorical_statistics->0,
            second_run.categorical_statistics->0,
        ),
{
    if first_run.categorical_statistics is Some {
        let first = first_run.categorical_statistics->0;
        let second = second_run.categorical_statistics->0;
        lemma_ranking_unique(
            present_values(values),
            entries_of(first.value_frequencies@),
            entries_of(second.value_frequencies@),
        );
        assert forall|a: int| 0 <= a < first.value_frequencies.len() implies (
        #[trigger] first.value_frequencies[a]).percentage
            == second.value_frequencies[a].percentage by {
            assert(entries_of(first.value_frequencies@)[a] == entries_of(
                second.value_frequencies@,
            )[a]);
        }
        if first.mode_value is Some {
            assert(entries_of(first.value_frequencies@)[0] == entries_of(
                second.value_frequencies@,
            )[0]);
        }
    }
}

/// Whether two statistics of a categorical column say the same.
pub open spec fn same_categories(
    first: CategoricalColumnStatistics,
    second: CategoricalColumnStatistics,
) -> bool {
    &&& first.unique_value_count == second.unique_value_count
    &&& entries_of(first.value_frequencies@) == entries_of(second.value_frequencies@)
    &&& forall|a: int|
        0 <= a < first.value_frequencies.len() ==> (#[trigger] first.value_frequencies[a]).percentage
            == second.value_frequencies[a].percentage
    &&& first.missing_percentage == second.missing_percentage
    &&& first.mode_value is Some <==> second.mode_value is Some
    &&& first.mode_value is Some ==> first.mode_value->0@ == second.mode_value->0@
    &&& first.mode_percentage == second.mode_percentage
}

} // verus!
