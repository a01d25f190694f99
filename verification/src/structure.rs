//! The structural scan: whether a file has a header, how many columns it
//! has, and how many data rows.
//!
//! The scan looks at one line at a time and keeps a handful of counters, so
//! a caller can feed it a file of any size line by line.

use vstd::prelude::*;
use crate::errors::{create_csv_processing_error, RowsAndColumnsError};
use crate::numeric_text::{is_numeric_text, is_numeric_text_in};
use crate::text::{chars_of, is_blank, is_blank_line, trim, trim_bounds, views_of};
use crate::tokenizer::{
    column_count,
    count_csv_columns_in_line,
    split_line_at_commas,
    split_on_commas,
};

verus! {

/// How many of the fields, once trimmed, are numeric texts.
pub open spec fn numeric_count(fields: Seq<Seq<char>>) -> nat
    decreases fields.len(),
{
    if fields.len() == 0 {
        0
    } else {
        numeric_count(fields.drop_last()) + if is_numeric_text(trim(fields.last())) {
            1nat
        } else {
            0nat
        }
    }
}

/// How many of the comma-separated pieces of a line are numeric.
pub open spec fn numeric_field_count(line: Seq<char>) -> nat {
    numeric_count(split_on_commas(line))
}

/// The header heuristic: the first line is a header when it holds fewer
/// numeric fields than the second. Without a second line there is no header.
pub open spec fn classify_header(first_line: Seq<char>, second_line: Option<Seq<char>>) -> bool {
    match second_line {
        Some(second) => numeric_field_count(first_line) < numeric_field_count(second),
        None => false,
    }
}

/// Whether the first of `lines` is judged to be a header.
pub open spec fn has_header(lines: Seq<Seq<char>>) -> bool {
    lines.len() >= 2 && classify_header(lines[0], Some(lines[1]))
}

/// How many of the lines are not blank.
pub open spec fn non_blank_count(lines: Seq<Seq<char>>) -> nat
    decreases lines.len(),
{
    if lines.len() == 0 {
        0
    } else {
        non_blank_count(lines.drop_last()) + if is_blank(lines.last()) {
            0nat
        } else {
            1nat
        }
    }
}

/// The number of data rows of a file that has at least one line: the lines
/// after the first that are not blank, and the first line too where it is no
/// header.
pub open spec fn data_row_count(lines: Seq<Seq<char>>) -> nat {
    non_blank_count(lines.skip(1)) + if has_header(lines) {
        0nat
    } else {
        1nat
    }
}

/// How many of `fields`, once trimmed, are integers or floating-point texts.
#[verifier::loop_isolation(false)]
pub fn count_numeric_fields(fields: &Vec<String>) -> (count: usize)
    ensures
        count == numeric_count(views_of(fields@)),
        count <= fields.len(),
{
    let ghost all = views_of(fields@);
    let mut count: usize = 0;
    let mut i: usize = 0;
    while i < fields.len()
        invariant
            i <= fields.len(),
            count == numeric_count(all.take(i as int)),
            count <= i,
        decreases fields.len() - i,
    {
        proof {
            assert(all.take(i + 1).drop_last() == all.take(i as int));
            assert(all.take(i + 1).last() == fields@[i as int]@);
        }
        let v = chars_of(fields[i].as_str());
        let (a, b) = trim_bounds(&v, 0, v.len());
        assert(v@.subrange(0, v.len() as int) == v@);
        if is_numeric_text_in(&v, a, b) {
            count += 1;
        }
        i += 1;
    }
    assert(all.take(fields.len() as int) == all);
    count
}

/// How many of the comma-separated pieces of `line` are numeric.
pub fn count_numeric_fields_in_line(line: &str) -> (count: usize)
    ensures
        count == numeric_field_count(line@),
{
    let pieces = split_line_at_commas(line);
    count_numeric_fields(&pieces)
}

/// Decides from the first two lines of a file whether the first is a header.
pub fn detect_csv_header_row(first_line: &str, second_line: Option<&str>) -> (likely_header: bool)
    ensures
        likely_header == classify_header(
            first_line@,
            match second_line {
                Some(second) => Some(second@),
                None => None,
            },
        ),
{
    match second_line {
        Some(second) => {
            let first_line_numeric_fields = count_numeric_fields_in_line(first_line);
            let second_line_numeric_fields = count_numeric_fields_in_line(second);
            first_line_numeric_fields < second_line_numeric_fields
        },
        None => false,
    }
}

/// What the scan knows of the lines it has seen so far.
pub struct StructuralScanner {
    lines_seen: usize,
    column_count: usize,
    first_line_numeric_fields: usize,
    has_header_row: bool,
    rows_after_first: usize,
    observed: Ghost<Seq<Seq<char>>>,
}

impl StructuralScanner {
    /// The lines observed so far, in order.
    pub closed spec fn observed(&self) -> Seq<Seq<char>> {
        self.observed@
    }

    /// The counters agree with the lines observed.
    pub closed spec fn wf(&self) -> bool {
        let lines = self.observed@;
        &&& self.lines_seen == lines.len()
        &&& lines.len() >= 1 ==> {
            &&& self.column_count == column_count(lines[0])
            &&& self.first_line_numeric_fields == numeric_field_count(lines[0])
            &&& self.has_header_row == has_header(lines)
            &&& self.rows_after_first == non_blank_count(lines.skip(1))
        }
    }

    /// A scanner that has seen no line yet.
    pub fn new() -> (scanner: StructuralScanner)
        ensures
            scanner.wf(),
            scanner.observed() == Seq::<Seq<char>>::empty(),
    {
        StructuralScanner {
            lines_seen: 0,
            column_count: 0,
            first_line_numeric_fields: 0,
            has_header_row: false,
            rows_after_first: 0,
            observed: Ghost(Seq::empty()),
        }
    }

    /// How many lines the scanner has seen.
    pub fn lines_observed(&self) -> (count: usize)
        requires
            self.wf(),
        ensures
            count == self.observed().len(),
    {
        self.lines_seen
    }

    /// Takes the next line of the file into account.
    pub fn observe_line(&mut self, line: &str)
        requires
            old(self).wf(),
            old(self).observed().len() < usize::MAX,
        ensures
            final(self).wf(),
            final(self).observed() == old(self).observed().push(line@),
    {
        let ghost before = self.observed@;
        let ghost after = before.push(line@);
        if self.lines_seen == 0 {
            self.column_count = count_csv_columns_in_line(line);
            self.first_line_numeric_fields = count_numeric_fields_in_line(line);
            self.has_header_row = false;
            self.rows_after_first = 0;
            proof {
                assert(after.skip(1) == Seq::<Seq<char>>::empty());
            }
        } else {
            proof {
                lemma_non_blank_count_bounded(before.skip(1));
                assert(after.skip(1).drop_last() == before.skip(1));
                assert(after.skip(1).last() == line@);
                assert(after[0] == before[0]);
            }
            if self.lines_seen == 1 {
                self.has_header_row = self.first_line_numeric_fields
                    < count_numeric_fields_in_line(line);
            } else {
                proof {
                    assert(after[1] == before[1]);
                }
            }
            if !is_blank_line(line) {
                self.rows_after_first = self.rows_after_first + 1;
            }
        }
        self.lines_seen = self.lines_seen + 1;
        self.observed = Ghost(after);
    }

    /// What the lines seen show: whether the first is a header, the number of
    /// columns, and the number of data rows. A file without any line is
    /// refused.
    pub fn finish(&self) -> (result: Result<(bool, usize, usize), RowsAndColumnsError>)
        requires
            self.wf(),
        ensures
            structure_result(self.observed(), result),
    {
        if self.lines_seen == 0 {
            return Err(create_csv_processing_error("CSV file appears to be empty", Some(1), None));
        }
        proof {
            lemma_non_blank_count_bounded(self.observed@.skip(1));
        }
        let data_row_count = if self.has_header_row {
            self.rows_after_first
        } else {
            self.rows_after_first + 1
        };
        Ok((self.has_header_row, self.column_count, data_row_count))
    }
}

/// What the structural scan owes for a file with the lines given: an error
/// for a file without lines, and otherwise the header flag, the number of
/// columns of the first line, and the number of data rows.
pub open spec fn structure_result(
    lines: Seq<Seq<char>>,
    result: Result<(bool, usize, usize), RowsAndColumnsError>,
) -> bool {
    if lines.len() == 0 {
        result is Err && result->Err_0.is_csv_processing_error(
            "CSV file appears to be empty"@,
            Some(1usize),
        )
    } else {
        &&& result is Ok
        &&& result->Ok_0.0 == has_header(lines)
        &&& result->Ok_0.1 == column_count(lines[0])
        &&& result->Ok_0.2 == data_row_count(lines)
    }
}

/// No more lines are counted than there are.
pub proof fn lemma_non_blank_count_bounded(lines: Seq<Seq<char>>)
    ensures
        non_blank_count(lines) <= lines.len(),
    decreases lines.len(),
{
    if lines.len() > 0 {
        lemma_non_blank_count_bounded(lines.drop_last());
    }
}

/// How many of the lines from position `from` on are not blank.
#[verifier::loop_isolation(false)]
pub fn count_remaining_csv_lines(lines: &Vec<String>, from: usize) -> (line_count: usize)
    requires
        from <= lines.len(),
    ensures
        line_count == non_blank_count(views_of(lines@).skip(from as int)),
        line_count <= lines.len() - from,
{
    let ghost rest = views_of(lines@).skip(from as int);
    let mut line_count: usize = 0;
    let mut i: usize = from;
    while i < lines.len()
        invariant
            from <= i <= lines.len(),
            line_count == non_blank_count(rest.take(i - from)),
            line_count <= i - from,
        decreases lines.len() - i,
    {
        proof {
            assert(rest.take(i - from + 1).drop_last() == rest.take(i - from));
            assert(rest.take(i - from + 1).last() == lines@[i as int]@);
        }
        if !is_blank_line(lines[i].as_str()) {
            line_count += 1;
        }
        i += 1;
    }
    assert(rest.take(lines.len() - from) == rest);
    line_count
}

/// The structure of a file, from all of its lines.
#[verifier::loop_isolation(false)]
pub fn analyze_csv_basic_structure(lines: &Vec<String>) -> (result: Result<
    (bool, usize, usize),
    RowsAndColumnsError,
>)
    ensures
        structure_result(views_of(lines@), result),
{
    let ghost all = views_of(lines@);
    let mut scanner = StructuralScanner::new();
    let mut i: usize = 0;
    while i < lines.len()
        invariant
            i <= lines.len(),
            scanner.wf(),
            scanner.observed() == all.take(i as int),
        decreases lines.len() - i,
    {
        scanner.observe_line(lines[i].as_str());
        assert(all.take(i + 1) == all.take(i as int).push(lines@[i as int]@));
        i += 1;
    }
    assert(all.take(lines.len() as int) == all);
    scanner.finish()
}

/// A file whose first line is taken for a header and whose other lines are
/// not blank has as many data rows as it has lines after the first.
pub proof fn lemma_header_and_data_rows(lines: Seq<Seq<char>>)
    requires
        has_header(lines),
        forall|i: int| 1 <= i < lines.len() ==> !is_blank(#[trigger] lines[i]),
    ensures
        data_row_count(lines) == lines.len() - 1,
{
    lemma_count_of_non_blank_lines(lines.skip(1));
}

/// A file whose first line is not taken for a header counts that line among
/// its data rows.
pub proof fn lemma_headerless_data_rows(lines: Seq<Seq<char>>)
    requires
        lines.len() >= 1,
        !has_header(lines),
        forall|i: int| 1 <= i < lines.len() ==> !is_blank(#[trigger] lines[i]),
    ensures
        data_row_count(lines) == lines.len(),
{
    lemma_count_of_non_blank_lines(lines.skip(1));
}

/// Where no line is blank, every line is counted.
proof fn lemma_count_of_non_blank_lines(lines: Seq<Seq<char>>)
    requires
        forall|i: int| 0 <= i < lines.len() ==> !is_blank(#[trigger] lines[i]),
    ensures
        non_blank_count(lines) == lines.len(),
    decreases lines.len(),
{
    if lines.len() > 0 {
        assert forall|i: int| 0 <= i < lines.drop_last().len() implies !is_blank(
            #[trigger] lines.drop_last()[i],
        ) by {
            assert(lines.drop_last()[i] == lines[i]);
        }
        lemma_count_of_non_blank_lines(lines.drop_last());
    }
}

/// A first line without numeric fields before a second line with at least one
/// is a header; two lines with the same number of numeric fields show no
/// header; and neither does a single line.
pub proof fn lemma_header_heuristic(first_line: Seq<char>, second_line: Seq<char>)
    ensures
        numeric_field_count(first_line) == 0 && numeric_field_count(second_line) >= 1
            ==> classify_header(first_line, Some(second_line)),
        numeric_field_count(first_line) == numeric_field_count(second_line) ==> !classify_header(
            first_line,
            Some(second_line),
        ),
        !classify_header(first_line, None),
{
}

} // verus!
