//! The full pass over a file: the values of every column, and what a numeric
//! column needs before its measures can be computed.
//!
//! Measures of a numeric column are floating-point numbers, which this
//! library does not hold. It decides which values of a column are numbers,
//! how many are missing, and at which places of the sorted values each
//! percentile is read; the arithmetic on the numbers is the caller's.

use vstd::prelude::*;
use crate::errors::{create_statistical_analysis_error, RowsAndColumnsError};
use crate::frequencies::Percentage;
use crate::numeric_text::{is_float_text, is_float_text_in};
use crate::text::{chars_of, string_of, trim, trim_bounds, views_of};
use crate::tokenizer::{data_lines, parse_csv_line_into_fields, rows_view, tokenize};

verus! {

/// The data lines of a file, each split into its fields.
pub open spec fn data_rows(lines: Seq<Seq<char>>, has_header_row: bool) -> Seq<Seq<Seq<char>>> {
    data_lines(lines, has_header_row).map_values(|line: Seq<char>| tokenize(line))
}

/// The values of one column, trimmed, in row order, the empty ones among
/// them. A row that is too short to reach the column contributes nothing.
pub open spec fn column_cells(rows: Seq<Seq<Seq<char>>>, column: int) -> Seq<Seq<char>>
    decreases rows.len(),
{
    if rows.len() == 0 {
        Seq::<Seq<char>>::empty()
    } else {
        let before = column_cells(rows.drop_last(), column);
        let row = rows.last();
        if column < row.len() {
            before.push(trim(row[column]))
        } else {
            before
        }
    }
}

/// The values of a column that are numbers, trimmed, in column order.
pub open spec fn numeric_values(values: Seq<Seq<char>>) -> Seq<Seq<char>>
    decreases values.len(),
{
    if values.len() == 0 {
        Seq::<Seq<char>>::empty()
    } else {
        let before = numeric_values(values.drop_last());
        let content = trim(values.last());
        if is_float_text(content) {
            before.push(content)
        } else {
            before
        }
    }
}

/// Where a percentile is read among `value_count` sorted values.
///
/// The percentile `p` stands at the place `p / 100 * (value_count - 1)`. The
/// place lies between two neighbouring indices, and `weight_hundredths` says
/// how far from the lower to the upper, in hundredths. The measure is the
/// value at `lower_index` where the weight is zero, and otherwise the value at
/// `lower_index` times `1 - weight` plus the value at `upper_index` times
/// `weight`.
#[derive(Debug, Clone, Copy, PartialEq, Eq, Structural)]
pub struct PercentilePosition {
    pub lower_index: usize,
    pub upper_index: usize,
    pub weight_hundredths: usize,
}

/// The place of the percentile `percentile` among `value_count` sorted values.
pub open spec fn percentile_place(value_count: nat, percentile: nat) -> PercentilePosition
    recommends
        value_count >= 1,
        percentile <= 100,
{
    let scaled = percentile * (value_count - 1);
    let lower = scaled / 100;
    let weight = scaled % 100;
    PercentilePosition {
        lower_index: lower as usize,
        upper_index: if weight == 0 {
            lower as usize
        } else {
            (lower + 1) as usize
        },
        weight_hundredths: weight as usize,
    }
}

/// What the measures of a numeric column are computed from.
#[derive(Debug, Clone)]
pub struct NumericalColumnSelection {
    /// The values that are numbers, trimmed, in column order.
    pub numeric_values: Vec<String>,
    /// The share of the values that are not numbers among all values.
    pub missing_percentage: Percentage,
    /// Where the first quartile is read once the numbers are sorted.
    pub q1_position: PercentilePosition,
    /// Where the median is read.
    pub q2_median_position: PercentilePosition,
    /// Where the third quartile is read.
    pub q3_position: PercentilePosition,
}

/// A selection as a mathematical value.
pub struct NumericalSelection {
    pub numeric_values: Seq<Seq<char>>,
    pub missing_percentage: Percentage,
    pub q1_position: PercentilePosition,
    pub q2_median_position: PercentilePosition,
    pub q3_position: PercentilePosition,
}

impl View for NumericalColumnSelection {
    type V = NumericalSelection;

    open spec fn view(&self) -> NumericalSelection {
        NumericalSelection {
            numeric_values: views_of(self.numeric_values@),
            missing_percentage: self.missing_percentage,
            q1_position: self.q1_position,
            q2_median_position: self.q2_median_position,
            q3_position: self.q3_position,
        }
    }
}

/// The selection that the values of a column give, where one of them at
/// least is a number.
pub open spec fn numerical_selection(values: Seq<Seq<char>>) -> NumericalSelection {
    let numbers = numeric_values(values);
    NumericalSelection {
        numeric_values: numbers,
        missing_percentage: Percentage {
            part: (values.len() - numbers.len()) as usize,
            whole: values.len() as usize,
        },
        q1_position: percentile_place(numbers.len(), 25),
        q2_median_position: percentile_place(numbers.len(), 50),
        q3_position: percentile_place(numbers.len(), 75),
    }
}

/// The place of a percentile among `value_count` sorted values, and `None`
/// where there is no value.
pub fn calculate_percentile(value_count: usize, percentile: usize) -> (position: Option<
    PercentilePosition,
>)
    requires
        percentile <= 100,
    ensures
        value_count == 0 <==> position is None,
        position matches Some(place) ==> {
            &&& place == percentile_place(value_count as nat, percentile as nat)
            &&& place.lower_index <= place.upper_index < value_count
            &&& place.weight_hundredths < 100
            &&& place.lower_index * 100 + place.weight_hundredths == percentile * (value_count
                - 1)
        },
{
    if value_count == 0 {
        return None;
    }
    let steps = value_count - 1;
    let hundreds = steps / 100;
    let rest = steps % 100;
    // percentile * steps, split so that no product leaves the range of usize.
    assert(hundreds * percentile <= hundreds * 100 && rest * percentile <= rest * 100)
        by (nonlinear_arith)
        requires
            percentile <= 100,
    ;
    let whole = hundreds * percentile;
    let part = rest * percentile;
    let lower = whole + part / 100;
    let weight = part % 100;
    proof {
        let scaled = percentile as int * steps as int;
        assert(scaled == 100 * whole + part) by (nonlinear_arith)
            requires
                scaled == percentile as int * steps as int,
                steps == hundreds * 100 + rest,
                whole == hundreds * percentile,
                part == rest * percentile,
        ;
        assert(scaled / 100 == lower && scaled % 100 == weight) by (nonlinear_arith)
            requires
                scaled == 100 * whole + part,
                lower == whole + part / 100,
                weight == part % 100,
                0 <= part,
        ;
        assert(scaled <= 100 * steps) by (nonlinear_arith)
            requires
                scaled == percentile as int * steps as int,
                percentile <= 100,
                0 <= steps,
        ;
    }
    let upper = if weight == 0 {
        lower
    } else {
        lower + 1
    };
    Some(PercentilePosition { lower_index: lower, upper_index: upper, weight_hundredths: weight })
}

/// The values of `column_values` that are numbers, trimmed, in column order.
#[verifier::loop_isolation(false)]
pub fn collect_numeric_values(column_values: &Vec<String>) -> (numbers: Vec<String>)
    ensures
        views_of(numbers@) == numeric_values(views_of(column_values@)),
        numbers.len() <= column_values.len(),
{
    let ghost all = views_of(column_values@);
    let mut numbers: Vec<String> = Vec::new();
    let mut i: usize = 0;
    while i < column_values.len()
        invariant
            i <= column_values.len(),
            views_of(numbers@) == numeric_values(all.take(i as int)),
            numbers.len() <= i,
        decreases column_values.len() - i,
    {
        proof {
            assert(all.take(i + 1).drop_last() == all.take(i as int));
            assert(all.take(i + 1).last() == column_values@[i as int]@);
        }
        let v = chars_of(column_values[i].as_str());
        let (a, b) = trim_bounds(&v, 0, v.len());
        assert(v@.subrange(0, v.len() as int) == v@);
        if is_float_text_in(&v, a, b) {
            let number = string_of(&v, a, b);
            let ghost earlier = views_of(numbers@);
            numbers.push(number);
            assert(views_of(numbers@) == earlier.push(number@));
        }
        i += 1;
    }
    assert(all.take(column_values.len() as int) == all);
    numbers
}

/// Prepares the measures of a numeric column.
///
/// Every value that is not a number, the empty ones among them, counts as
/// missing. A column without a single number is refused, with an error that
/// names the column.
pub fn calculate_numerical_statistics(column_values: &Vec<String>, column_name: &str) -> (result:
    Result<NumericalColumnSelection, RowsAndColumnsError>)
    ensures
        numeric_values(views_of(column_values@)).len() == 0 ==> result is Err
            && result->Err_0.is_statistical_analysis_error(
            "No valid numerical values found for statistical analysis"@,
            column_name@,
        ),
        numeric_values(views_of(column_values@)).len() > 0 ==> result is Ok && result->Ok_0@
            == numerical_selection(views_of(column_values@)),
{
    let numbers = collect_numeric_values(column_values);
    let count = numbers.len();
    if count == 0 {
        return Err(
            create_statistical_analysis_error(
                "No valid numerical values found for statistical analysis",
                column_name,
            ),
        );
    }
    let q1_position = calculate_percentile(count, 25).unwrap();
    let q2_median_position = calculate_percentile(count, 50).unwrap();
    let q3_position = calculate_percentile(count, 75).unwrap();
    Ok(
        NumericalColumnSelection {
            numeric_values: numbers,
            missing_percentage: Percentage {
                part: column_values.len() - count,
                whole: column_values.len(),
            },
            q1_position,
            q2_median_position,
            q3_position,
        },
    )
}

/// The data lines of a file, each split into its fields.
#[verifier::loop_isolation(false)]
pub fn tokenize_data_rows(lines: &Vec<String>, has_header_row: bool) -> (rows: Vec<Vec<String>>)
    ensures
        rows_view(rows@) == data_rows(views_of(lines@), has_header_row),
{
    let ghost all = views_of(lines@);
    let first: usize = if has_header_row && lines.len() > 0 {
        1
    } else {
        0
    };
    let ghost data = all.skip(first as int);
    let mut rows: Vec<Vec<String>> = Vec::new();
    let mut k: usize = first;
    while k < lines.len()
        invariant
            first <= k <= lines.len(),
            rows_view(rows@) == data.take(k - first).map_values(|line: Seq<char>| tokenize(line)),
        decreases lines.len() - k,
    {
        let ghost earlier = rows_view(rows@);
        let row = parse_csv_line_into_fields(lines[k].as_str());
        rows.push(row);
        proof {
            assert(rows_view(rows@) == earlier.push(views_of(row@)));
            assert(data.take(k - first + 1) == data.take(k - first).push(lines@[k as int]@));
            assert(data.take(k - first + 1).map_values(|line: Seq<char>| tokenize(line))
                == data.take(k - first).map_values(|line: Seq<char>| tokenize(line)).push(
                tokenize(lines@[k as int]@),
            ));
        }
        k += 1;
    }
    proof {
        if first == 0 {
            assert(all.skip(0) == all);
        }
        assert(data.take(lines.len() - first) == data);
    }
    rows
}

/// The values that the rows hold in one column, trimmed.
#[verifier::loop_isolation(false)]
pub fn collect_column(rows: &Vec<Vec<String>>, column: usize) -> (cells: Vec<String>)
    ensures
        views_of(cells@) == column_cells(rows_view(rows@), column as int),
{
    let ghost all = rows_view(rows@);
    let mut cells: Vec<String> = Vec::new();
    let mut r: usize = 0;
    while r < rows.len()
        invariant
            r <= rows.len(),
            views_of(cells@) == column_cells(all.take(r as int), column as int),
        decreases rows.len() - r,
    {
        proof {
            assert(all.take(r + 1).drop_last() == all.take(r as int));
            assert(all.take(r + 1).last() == views_of(rows@[r as int]@));
        }
        let row = &rows[r];
        if column < row.len() {
            let v = chars_of(row[column].as_str());
            let (a, b) = trim_bounds(&v, 0, v.len());
            assert(v@.subrange(0, v.len() as int) == v@);
            let cell = string_of(&v, a, b);
            let ghost earlier = views_of(cells@);
            cells.push(cell);
            assert(views_of(cells@) == earlier.push(cell@));
        }
        r += 1;
    }
    assert(all.take(rows.len() as int) == all);
    cells
}

/// The values of every column of a file, column by column.
///
/// The header, if there is one, is left out. A row with more fields than
/// `column_count` loses the fields beyond; a row with fewer adds nothing to
/// the columns it does not reach.
#[verifier::loop_isolation(false)]
pub fn collect_all_column_values(
    lines: &Vec<String>,
    has_header_row: bool,
    column_count: usize,
) -> (all_column_values: Vec<Vec<String>>)
    ensures
        all_column_values.len() == column_count,
        forall|column: int|
            0 <= column < column_count ==> views_of((#[trigger] all_column_values[column])@)
                == column_cells(data_rows(views_of(lines@), has_header_row), column),
{
    let rows = tokenize_data_rows(lines, has_header_row);
    let mut all_column_values: Vec<Vec<String>> = Vec::new();
    let mut column: usize = 0;
    while column < column_count
        invariant
            column <= column_count,
            all_column_values.len() == column,
            forall|c: int|
                0 <= c < column ==> views_of((#[trigger] all_column_values[c])@) == column_cells(
                    rows_view(rows@),
                    c,
                ),
        decreases column_count - column,
    {
        let cells = collect_column(&rows, column);
        all_column_values.push(cells);
        column += 1;
    }
    all_column_values
}

/// A single value is every one of its percentiles: each of them is read at
/// the only place there is, with no weight on a neighbour.
pub proof fn lemma_percentiles_of_single_value(percentile: nat)
    requires
        percentile <= 100,
    ensures
        percentile_place(1, percentile) == (PercentilePosition {
            lower_index: 0,
            upper_index: 0,
            weight_hundredths: 0,
        }),
{
}

/// Percentiles keep their order: a larger percentile is never read before a
/// smaller one, and none is read outside the values.
pub proof fn lemma_percentiles_ordered(value_count: nat, smaller: nat, larger: nat)
    requires
        value_count >= 1,
        smaller <= larger <= 100,
        value_count <= usize::MAX,
    ensures
        percentile_place(value_count, smaller).lower_index * 100 + percentile_place(
            value_count,
            smaller,
        ).weight_hundredths <= percentile_place(value_count, larger).lower_index * 100
            + percentile_place(value_count, larger).weight_hundredths,
        percentile_place(value_count, larger).upper_index <= value_count - 1,
        percentile_place(value_count, 0).upper_index == 0,
        percentile_place(value_count, 100).lower_index == value_count - 1,
{
    let steps = (value_count - 1) as int;
    assert(smaller * steps <= larger * steps) by (nonlinear_arith)
        requires
            smaller <= larger,
            0 <= steps,
    ;
    assert(larger * steps <= 100 * steps) by (nonlinear_arith)
        requires
            larger <= 100,
            0 <= steps,
    ;
    assert(0 * steps == 0);
}

/// No more numbers are found in a column than it has values.
pub proof fn lemma_numeric_values_bounded(values: Seq<Seq<char>>)
    ensures
        numeric_values(values).len() <= values.len(),
    decreases values.len(),
{
    if values.len() > 0 {
        lemma_numeric_values_bounded(values.drop_last());
    }
}

/// Where every row reaches the column, the column has a value for every
/// row.
pub proof fn lemma_cells_cover_rows(rows: Seq<Seq<Seq<char>>>, column: int)
    requires
        0 <= column,
        forall|r: int| 0 <= r < rows.len() ==> column < (#[trigger] rows[r]).len(),
    ensures
        column_cells(rows, column).len() == rows.len(),
    decreases rows.len(),
{
    if rows.len() > 0 {
        assert forall|r: int| 0 <= r < rows.drop_last().len() implies column < (
        #[trigger] rows.drop_last()[r]).len() by {
            assert(rows.drop_last()[r] == rows[r]);
        }
        lemma_cells_cover_rows(rows.drop_last(), column);
    }
}

/// No column has more values than the file has data rows.
pub proof fn lemma_cells_bounded(rows: Seq<Seq<Seq<char>>>, column: int)
    ensures
        column_cells(rows, column).len() <= rows.len(),
    decreases rows.len(),
{
    if rows.len() > 0 {
        lemma_cells_bounded(rows.drop_last(), column);
    }
}

} // verus!
