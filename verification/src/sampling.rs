//! Type inference from a bounded sample of rows.
//!
//! Only the first rows after the header are read. Each sampled value votes
//! for one type, and a column gets the first type, in the order Boolean,
//! Integer, Float, that seven tenths of its kept samples voted for.

use vstd::prelude::*;
use vstd::string::StringExecFns;
use crate::columns::{ColumnProfile, CsvColumnDataType, CsvColumnInformation};
use crate::errors::{create_csv_processing_error, RowsAndColumnsError};
use crate::numeric_text::{
    is_float_text,
    is_float_text_in,
    is_integer_text,
    parse_integer_in,
};
use crate::text::{
    ascii_lowercase,
    chars_of,
    decimal_digits,
    push_decimal,
    reads,
    reads_ignoring_case,
    string_of,
    trim,
    trim_bounds,
    views_of,
};
use crate::tokenizer::{data_lines, parse_csv_line_into_fields, rows_view, tokenize};

verus! {

/// How many rows after the header are sampled.
pub const CSV_SAMPLE_ROWS_FOR_TYPE_DETECTION: usize = 10;

/// How many non-empty values of a column are kept as samples.
pub const SAMPLE_VALUES_KEPT: usize = 5;

/// The words that stand for a truth value, in lower case.
pub open spec fn is_boolean_word(word: Seq<char>) -> bool {
    ||| word == "true"@
    ||| word == "false"@
    ||| word == "yes"@
    ||| word == "no"@
    ||| word == "1"@
    ||| word == "0"@
    ||| word == "t"@
    ||| word == "f"@
    ||| word == "y"@
    ||| word == "n"@
}

/// A truth value, in any mix of upper and lower case.
pub open spec fn is_boolean_text(value: Seq<char>) -> bool {
    is_boolean_word(ascii_lowercase(value))
}

/// The type that one value votes for. `String` stands for no vote.
pub open spec fn value_kind(value: Seq<char>) -> CsvColumnDataType {
    let content = trim(value);
    if is_boolean_text(content) {
        CsvColumnDataType::Boolean
    } else if is_integer_text(content) {
        CsvColumnDataType::Integer
    } else if is_float_text(content) {
        CsvColumnDataType::Float
    } else {
        CsvColumnDataType::String
    }
}

/// How many of the samples vote for `kind`.
pub open spec fn votes(samples: Seq<Seq<char>>, kind: CsvColumnDataType) -> nat
    decreases samples.len(),
{
    if samples.len() == 0 {
        0
    } else {
        votes(samples.drop_last(), kind) + if value_kind(samples.last()) == kind {
            1nat
        } else {
            0nat
        }
    }
}

/// The number of votes that a type needs among `sample_count` samples: seven
/// tenths of them, rounded down.
pub open spec fn vote_threshold(sample_count: nat) -> nat {
    sample_count * 7 / 10
}

/// The type inferred from the samples of a column.
pub open spec fn detected_type(samples: Seq<Seq<char>>) -> CsvColumnDataType {
    let threshold = vote_threshold(samples.len());
    if samples.len() == 0 {
        CsvColumnDataType::String
    } else if votes(samples, CsvColumnDataType::Boolean) >= threshold {
        CsvColumnDataType::Boolean
    } else if votes(samples, CsvColumnDataType::Integer) >= threshold {
        CsvColumnDataType::Integer
    } else if votes(samples, CsvColumnDataType::Float) >= threshold {
        CsvColumnDataType::Float
    } else {
        CsvColumnDataType::String
    }
}

/// The lines that are sampled: those after the header, the first ten at most.
pub open spec fn sampled_lines(lines: Seq<Seq<char>>, has_header_row: bool) -> Seq<Seq<char>> {
    let data = data_lines(lines, has_header_row);
    if data.len() > CSV_SAMPLE_ROWS_FOR_TYPE_DETECTION {
        data.take(CSV_SAMPLE_ROWS_FOR_TYPE_DETECTION as int)
    } else {
        data
    }
}

/// The sampled lines, each split into its fields.
pub open spec fn sampled_rows(lines: Seq<Seq<char>>, has_header_row: bool) -> Seq<Seq<Seq<char>>> {
    sampled_lines(lines, has_header_row).map_values(|line: Seq<char>| tokenize(line))
}

/// The values of one column that hold something, trimmed, in row order. A
/// row that is too short to reach the column contributes nothing.
pub open spec fn column_values(rows: Seq<Seq<Seq<char>>>, column: int) -> Seq<Seq<char>>
    decreases rows.len(),
{
    if rows.len() == 0 {
        Seq::<Seq<char>>::empty()
    } else {
        let before = column_values(rows.drop_last(), column);
        let row = rows.last();
        if column < row.len() && trim(row[column]).len() > 0 {
            before.push(trim(row[column]))
        } else {
            before
        }
    }
}

/// How many rows hold an empty value in the column. A row that is too short
/// to reach the column is not counted.
pub open spec fn column_empty_count(rows: Seq<Seq<Seq<char>>>, column: int) -> nat
    decreases rows.len(),
{
    if rows.len() == 0 {
        0
    } else {
        let row = rows.last();
        column_empty_count(rows.drop_last(), column) + if column < row.len() && trim(
            row[column],
        ).len() == 0 {
            1nat
        } else {
            0nat
        }
    }
}

/// The first values of a column, as many as are kept for samples.
pub open spec fn kept_samples(values: Seq<Seq<char>>) -> Seq<Seq<char>> {
    if values.len() > SAMPLE_VALUES_KEPT {
        values.take(SAMPLE_VALUES_KEPT as int)
    } else {
        values
    }
}

/// The name given to a column that has none: `column_` and its position,
/// counted from 1.
pub open spec fn generated_column_name(column: nat) -> Seq<char> {
    "column_"@ + decimal_digits(column + 1)
}

/// The name of a column: the header's field at its position, or a generated
/// name where there is no header or the header is too short.
pub open spec fn column_name(lines: Seq<Seq<char>>, has_header_row: bool, column: nat) -> Seq<char> {
    if has_header_row && lines.len() > 0 && column < tokenize(lines[0]).len() {
        tokenize(lines[0])[column as int]
    } else {
        generated_column_name(column)
    }
}

/// The profile of one column of a file.
pub open spec fn column_profile(lines: Seq<Seq<char>>, has_header_row: bool, column: nat) -> ColumnProfile {
    let rows = sampled_rows(lines, has_header_row);
    let values = column_values(rows, column as int);
    ColumnProfile {
        column_index: column,
        column_name: column_name(lines, has_header_row, column),
        detected_data_type: detected_type(kept_samples(values)),
        non_empty_value_count: values.len(),
        empty_value_count: column_empty_count(rows, column as int),
        sample_values: kept_samples(values),
    }
}

/// Whether `value` is one of the words that stand for a truth value. The
/// words are in lower case, and so must `value` be.
pub fn is_boolean_value(value: &str) -> (b: bool)
    ensures
        b == is_boolean_word(value@),
{
    let v = chars_of(value);
    let n = v.len();
    assert(v@.subrange(0, n as int) == v@);
    reads(&v, 0, n, "true") || reads(&v, 0, n, "false") || reads(&v, 0, n, "yes") || reads(
        &v,
        0,
        n,
        "no",
    ) || reads(&v, 0, n, "1") || reads(&v, 0, n, "0") || reads(&v, 0, n, "t") || reads(
        &v,
        0,
        n,
        "f",
    ) || reads(&v, 0, n, "y") || reads(&v, 0, n, "n")
}

/// The type that `value` votes for.
pub fn classify_value(value: &str) -> (kind: CsvColumnDataType)
    ensures
        kind == value_kind(value@),
{
    let v = chars_of(value);
    assert(v@.subrange(0, v.len() as int) == v@);
    let (a, b) = trim_bounds(&v, 0, v.len());
    if reads_ignoring_case(&v, a, b, "true") || reads_ignoring_case(&v, a, b, "false")
        || reads_ignoring_case(&v, a, b, "yes") || reads_ignoring_case(&v, a, b, "no")
        || reads_ignoring_case(&v, a, b, "1") || reads_ignoring_case(&v, a, b, "0")
        || reads_ignoring_case(&v, a, b, "t") || reads_ignoring_case(&v, a, b, "f")
        || reads_ignoring_case(&v, a, b, "y") || reads_ignoring_case(&v, a, b, "n") {
        CsvColumnDataType::Boolean
    } else if parse_integer_in(&v, a, b).is_some() {
        CsvColumnDataType::Integer
    } else if is_float_text_in(&v, a, b) {
        CsvColumnDataType::Float
    } else {
        CsvColumnDataType::String
    }
}

/// Seven tenths of `sample_count`, rounded down.
pub fn compute_vote_threshold(sample_count: usize) -> (threshold: usize)
    ensures
        threshold == vote_threshold(sample_count as nat),
        threshold <= sample_count,
{
    let tens = sample_count / 10;
    let units = sample_count % 10;
    assert((tens * 10 + units) * 7 / 10 == tens * 7 + units * 7 / 10) by (nonlinear_arith)
        requires
            0 <= units < 10,
            0 <= tens,
    ;
    tens * 7 + units * 7 / 10
}

/// The type inferred from the samples of a column: the first of Boolean,
/// Integer and Float that reaches the threshold, and String where none does
/// or there is no sample.
#[verifier::loop_isolation(false)]
pub fn detect_column_data_type(sample_values: &Vec<String>) -> (data_type: CsvColumnDataType)
    ensures
        data_type == detected_type(views_of(sample_values@)),
{
    if sample_values.len() == 0 {
        return CsvColumnDataType::String;
    }
    let ghost samples = views_of(sample_values@);
    let mut boolean_count: usize = 0;
    let mut integer_count: usize = 0;
    let mut float_count: usize = 0;
    let mut i: usize = 0;
    while i < sample_values.len()
        invariant
            i <= sample_values.len(),
            boolean_count == votes(samples.take(i as int), CsvColumnDataType::Boolean),
            integer_count == votes(samples.take(i as int), CsvColumnDataType::Integer),
            float_count == votes(samples.take(i as int), CsvColumnDataType::Float),
            boolean_count + integer_count + float_count <= i,
        decreases sample_values.len() - i,
    {
        proof {
            assert(samples.take(i + 1).drop_last() == samples.take(i as int));
            assert(samples.take(i + 1).last() == sample_values@[i as int]@);
        }
        match classify_value(sample_values[i].as_str()) {
            CsvColumnDataType::Boolean => {
                boolean_count += 1;
            },
            CsvColumnDataType::Integer => {
                integer_count += 1;
            },
            CsvColumnDataType::Float => {
                float_count += 1;
            },
            CsvColumnDataType::String => {},
        }
        i += 1;
    }
    assert(samples.take(sample_values.len() as int) == samples);
    let threshold = compute_vote_threshold(sample_values.len());
    if boolean_count >= threshold {
        CsvColumnDataType::Boolean
    } else if integer_count >= threshold {
        CsvColumnDataType::Integer
    } else if float_count >= threshold {
        CsvColumnDataType::Float
    } else {
        CsvColumnDataType::String
    }
}

/// The name `column_` and the position of the column, counted from 1.
pub fn generate_column_name(column: usize) -> (name: String)
    requires
        column < usize::MAX,
    ensures
        name@ == generated_column_name(column as nat),
{
    let mut name = String::new();
    name.append("column_");
    push_decimal(&mut name, column + 1);
    name
}

/// The sampled rows of a file, each split into its fields.
#[verifier::loop_isolation(false)]
pub fn tokenize_sampled_rows(lines: &Vec<String>, has_header_row: bool) -> (rows: Vec<Vec<String>>)
    ensures
        rows_view(rows@) == sampled_rows(views_of(lines@), has_header_row),
        rows.len() <= CSV_SAMPLE_ROWS_FOR_TYPE_DETECTION,
{
    let ghost all = views_of(lines@);
    let first: usize = if has_header_row && lines.len() > 0 {
        1
    } else {
        0
    };
    let ghost data = all.skip(first as int);
    let mut rows: Vec<Vec<String>> = Vec::new();
    let mut k: usize = first;
    while k < lines.len() && rows.len() < CSV_SAMPLE_ROWS_FOR_TYPE_DETECTION
        invariant
            first <= k <= lines.len(),
            rows.len() == k - first,
            rows.len() <= CSV_SAMPLE_ROWS_FOR_TYPE_DETECTION,
            rows_view(rows@) == data.take(k - first).map_values(|line: Seq<char>| tokenize(line)),
        decreases lines.len() - k,
    {
        let ghost earlier = rows_view(rows@);
        let row = parse_csv_line_into_fields(lines[k].as_str());
        rows.push(row);
        proof {
            assert(rows_view(rows@) == earlier.push(views_of(row@)));
            assert(data.take(k - first + 1) == data.take(k - first).push(lines@[k as int]@));
            assert(data.take(k - first + 1).map_values(|line: Seq<char>| tokenize(line))
                == data.take(k - first).map_values(|line: Seq<char>| tokenize(line)).push(
                tokenize(lines@[k as int]@),
            ));
        }
        k += 1;
    }
    proof {
        if first == 0 {
            assert(all.skip(0) == all);
        }
        if k == lines.len() {
            assert(data.take(k - first) == data);
        }
    }
    rows
}

/// What the sampled rows hold in one column.
pub struct ColumnSample {
    /// How many rows hold something in the column.
    pub non_empty_value_count: usize,
    /// How many rows hold an empty value in the column.
    pub empty_value_count: usize,
    /// The first values that hold something.
    pub sample_values: Vec<String>,
}

/// Goes through the rows and gathers what they hold in one column.
#[verifier::loop_isolation(false)]
pub fn sample_column(rows: &Vec<Vec<String>>, column: usize) -> (sample: ColumnSample)
    ensures
        sample.non_empty_value_count == column_values(rows_view(rows@), column as int).len(),
        sample.empty_value_count == column_empty_count(rows_view(rows@), column as int),
        views_of(sample.sample_values@) == kept_samples(
            column_values(rows_view(rows@), column as int),
        ),
        sample.non_empty_value_count + sample.empty_value_count <= rows.len(),
{
    let ghost all = rows_view(rows@);
    let mut non_empty: usize = 0;
    let mut empty: usize = 0;
    let mut samples: Vec<String> = Vec::new();
    let mut r: usize = 0;
    while r < rows.len()
        invariant
            r <= rows.len(),
            non_empty == column_values(all.take(r as int), column as int).len(),
            empty == column_empty_count(all.take(r as int), column as int),
            views_of(samples@) == kept_samples(column_values(all.take(r as int), column as int)),
            non_empty + empty <= r,
        decreases rows.len() - r,
    {
        let ghost before = column_values(all.take(r as int), column as int);
        proof {
            assert(all.take(r + 1).drop_last() == all.take(r as int));
            assert(all.take(r + 1).last() == views_of(rows@[r as int]@));
        }
        let row = &rows[r];
        if column < row.len() {
            let v = chars_of(row[column].as_str());
            let (a, b) = trim_bounds(&v, 0, v.len());
            assert(v@.subrange(0, v.len() as int) == v@);
            if a == b {
                empty += 1;
            } else {
                non_empty += 1;
                if samples.len() < SAMPLE_VALUES_KEPT {
                    let value = string_of(&v, a, b);
                    let ghost earlier = views_of(samples@);
                    samples.push(value);
                    proof {
                        assert(views_of(samples@) == earlier.push(value@));
                        assert(earlier == before);
                        let after = before.push(value@);
                        assert(kept_samples(after) == after);
                    }
                } else {
                    proof {
                        let after = before.push(trim(v@));
                        assert(after.take(SAMPLE_VALUES_KEPT as int) == before.take(
                            SAMPLE_VALUES_KEPT as int,
                        ));
                    }
                }
            }
        }
        r += 1;
    }
    assert(all.take(rows.len() as int) == all);
    ColumnSample { non_empty_value_count: non_empty, empty_value_count: empty, sample_values: samples }
}

/// Profiles every column of a file from its first rows.
///
/// `lines` are the lines of the file, `has_header_row` says whether the first
/// of them is a header, and `column_count` is the number of columns to
/// profile. A header names the columns; a column that the header does not
/// reach, and every column of a file without header, gets a generated name.
/// A file that should have a header and has no line at all is refused.
#[verifier::loop_isolation(false)]
pub fn analyze_csv_column_types_and_content(
    lines: &Vec<String>,
    has_header_row: bool,
    column_count: usize,
) -> (result: Result<Vec<CsvColumnInformation>, RowsAndColumnsError>)
    ensures
        has_header_row && lines.len() == 0 ==> result is Err && result->Err_0.is_csv_processing_error(
            "CSV file appears empty when trying to read header"@,
            Some(1usize),
        ),
        !(has_header_row && lines.len() == 0) ==> result is Ok && result->Ok_0.len() == column_count
            && forall|column: int|
            0 <= column < column_count ==> (#[trigger] result->Ok_0[column])@ == column_profile(
                views_of(lines@),
                has_header_row,
                column as nat,
            ),
{
    let ghost all = views_of(lines@);
    let column_names: Vec<String> = if has_header_row {
        if lines.len() == 0 {
            return Err(
                create_csv_processing_error(
                    "CSV file appears empty when trying to read header",
                    Some(1),
                    None,
                ),
            );
        }
        parse_csv_line_into_fields(lines[0].as_str())
    } else {
        Vec::new()
    };
    let rows = tokenize_sampled_rows(lines, has_header_row);
    let mut column_info_list: Vec<CsvColumnInformation> = Vec::new();
    let mut column_index: usize = 0;
    while column_index < column_count
        invariant
            column_index <= column_count,
            column_info_list.len() == column_index,
            forall|column: int|
                0 <= column < column_index ==> (#[trigger] column_info_list[column])@
                    == column_profile(all, has_header_row, column as nat),
        decreases column_count - column_index,
    {
        let name = if column_index < column_names.len() {
            column_names[column_index].clone()
        } else {
            generate_column_name(column_index)
        };
        let sample = sample_column(&rows, column_index);
        let detected_data_type = detect_column_data_type(&sample.sample_values);
        let column_info = CsvColumnInformation {
            column_index,
            column_name: name,
            detected_data_type,
            non_empty_value_count: sample.non_empty_value_count,
            empty_value_count: sample.empty_value_count,
            sample_values: sample.sample_values,
        };
        assert(column_info@ == column_profile(all, has_header_row, column_index as nat));
        column_info_list.push(column_info);
        column_index += 1;
    }
    Ok(column_info_list)
}

/// Where every sampled row reaches the column, each of them is counted once:
/// as a value that holds something or as an empty one.
pub proof fn lemma_counts_cover_sampled_rows(rows: Seq<Seq<Seq<char>>>, column: int)
    requires
        0 <= column,
        forall|r: int| 0 <= r < rows.len() ==> column < (#[trigger] rows[r]).len(),
    ensures
        column_values(rows, column).len() + column_empty_count(rows, column) == rows.len(),
    decreases rows.len(),
{
    if rows.len() > 0 {
        assert forall|r: int| 0 <= r < rows.drop_last().len() implies column < (
        #[trigger] rows.drop_last()[r]).len() by {
            assert(rows.drop_last()[r] == rows[r]);
        }
        lemma_counts_cover_sampled_rows(rows.drop_last(), column);
    }
}

/// No more than five samples are kept, and no more than ten rows are sampled.
pub proof fn lemma_sample_bounds(lines: Seq<Seq<char>>, has_header_row: bool, column: nat)
    ensures
        column_profile(lines, has_header_row, column).sample_values.len() <= SAMPLE_VALUES_KEPT,
        sampled_rows(lines, has_header_row).len() <= CSV_SAMPLE_ROWS_FOR_TYPE_DETECTION,
{
}

/// Every sample votes for one type at most.
pub proof fn lemma_votes_bounded(samples: Seq<Seq<char>>)
    ensures
        votes(samples, CsvColumnDataType::Boolean) + votes(samples, CsvColumnDataType::Integer)
            + votes(samples, CsvColumnDataType::Float) + votes(samples, CsvColumnDataType::String)
            == samples.len(),
    decreases samples.len(),
{
    if samples.len() > 0 {
        lemma_votes_bounded(samples.drop_last());
    }
}

/// Among ten samples a type needs seven votes. Seven votes for Integer make
/// the column Integer; with six votes for Integer no type has enough, and
/// the column is String.
pub proof fn lemma_threshold_of_ten_samples(samples: Seq<Seq<char>>)
    requires
        samples.len() == 10,
    ensures
        vote_threshold(10) == 7,
        votes(samples, CsvColumnDataType::Integer) == 7 ==> detected_type(samples)
            == CsvColumnDataType::Integer,
        votes(samples, CsvColumnDataType::Integer) == 6 ==> detected_type(samples)
            == CsvColumnDataType::String,
{
    lemma_votes_bounded(samples);
}

/// How many lines from the top of a file the profiles depend on: the
/// header and the sampled rows.
pub const LEADING_LINES_FOR_TYPE_DETECTION: usize = 11;

/// The profile of a column depends on the leading lines of the file only:
/// any file that begins with the same eleven lines has the same profile.
pub proof fn lemma_profile_from_leading_lines(
    lines: Seq<Seq<char>>,
    has_header_row: bool,
    column: nat,
    count: int,
)
    requires
        LEADING_LINES_FOR_TYPE_DETECTION <= count <= lines.len(),
    ensures
        column_profile(lines.take(count), has_header_row, column) == column_profile(
            lines,
            has_header_row,
            column,
        ),
{
    let leading = lines.take(count);
    assert(leading[0] == lines[0]);
    let data = data_lines(lines, has_header_row);
    let leading_data = data_lines(leading, has_header_row);
    assert(leading_data.take(CSV_SAMPLE_ROWS_FOR_TYPE_DETECTION as int) == data.take(
        CSV_SAMPLE_ROWS_FOR_TYPE_DETECTION as int,
    ));
    assert(sampled_lines(leading, has_header_row) == sampled_lines(lines, has_header_row));
}

} // verus!
