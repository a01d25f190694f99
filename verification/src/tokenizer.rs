//! Splitting one line of text into fields.
//!
//! Two splitters live here. The plain one cuts at every comma and is what the
//! structural scan counts columns with. The tokenizer proper honours a simple
//! quoting convention: every `"` toggles a quoted state and is dropped, a
//! comma inside quotes belongs to its field, and every field is trimmed.

use vstd::prelude::*;
use crate::text::{chars_of, string_of, trim, trim_bounds, views_of};

verus! {

/// The pieces of `line` between its commas. There is always at least one.
pub open spec fn split_on_commas(line: Seq<char>) -> Seq<Seq<char>>
    decreases line.len(),
{
    if line.len() == 0 {
        seq![Seq::<char>::empty()]
    } else {
        let before = split_on_commas(line.drop_last());
        if line.last() == ',' {
            before.push(Seq::<char>::empty())
        } else {
            before.drop_last().push(before.last().push(line.last()))
        }
    }
}

/// Whether a character that follows `prefix` stands inside quotes: an odd
/// number of quote characters came before it.
pub open spec fn inside_quotes(prefix: Seq<char>) -> bool
    decreases prefix.len(),
{
    if prefix.len() == 0 {
        false
    } else if prefix.last() == '"' {
        !inside_quotes(prefix.drop_last())
    } else {
        inside_quotes(prefix.drop_last())
    }
}

/// The fields of `line` before trimming: cut at the commas that stand outside
/// quotes, with the quote characters themselves left out.
pub open spec fn raw_fields(line: Seq<char>) -> Seq<Seq<char>>
    decreases line.len(),
{
    if line.len() == 0 {
        seq![Seq::<char>::empty()]
    } else {
        let before = raw_fields(line.drop_last());
        let c = line.last();
        if c == '"' {
            before
        } else if c == ',' && !inside_quotes(line.drop_last()) {
            before.push(Seq::<char>::empty())
        } else {
            before.drop_last().push(before.last().push(c))
        }
    }
}

/// The fields of `line`: its raw fields, each one trimmed.
pub open spec fn tokenize(line: Seq<char>) -> Seq<Seq<char>> {
    raw_fields(line).map_values(|field: Seq<char>| trim(field))
}

/// The lines of a file that hold data: all of them but the header.
pub open spec fn data_lines(lines: Seq<Seq<char>>, has_header_row: bool) -> Seq<Seq<char>> {
    if has_header_row && lines.len() > 0 {
        lines.skip(1)
    } else {
        lines
    }
}

/// The fields of a list of rows, as sequences of characters.
pub open spec fn rows_view(rows: Seq<Vec<String>>) -> Seq<Seq<Seq<char>>> {
    rows.map_values(|row: Vec<String>| views_of(row@))
}

/// The number of columns that a line shows: one more than it has commas.
pub open spec fn column_count(line: Seq<char>) -> nat {
    split_on_commas(line).len()
}

/// Splitting never yields an empty list of fields.
pub proof fn lemma_split_nonempty(line: Seq<char>)
    ensures
        split_on_commas(line).len() >= 1,
        raw_fields(line).len() >= 1,
        tokenize(line).len() == raw_fields(line).len(),
        raw_fields(line).len() <= split_on_commas(line).len(),
    decreases line.len(),
{
    if line.len() > 0 {
        lemma_split_nonempty(line.drop_last());
    }
}

/// On a line without quote characters the tokenizer yields what a plain
/// split at the commas followed by trimming each piece yields.
pub proof fn lemma_tokenize_without_quotes(line: Seq<char>)
    requires
        forall|i: int| 0 <= i < line.len() ==> line[i] != '"',
    ensures
        tokenize(line) == split_on_commas(line).map_values(|field: Seq<char>| trim(field)),
{
    lemma_raw_fields_without_quotes(line);
}

/// Without quote characters no position is inside quotes, and the raw
/// fields are the pieces between the commas.
proof fn lemma_raw_fields_without_quotes(line: Seq<char>)
    requires
        forall|i: int| 0 <= i < line.len() ==> line[i] != '"',
    ensures
        raw_fields(line) == split_on_commas(line),
        !inside_quotes(line),
    decreases line.len(),
{
    if line.len() > 0 {
        lemma_raw_fields_without_quotes(line.drop_last());
    }
}

/// An empty line holds one empty field, and a comma at the end of a line is
/// followed by one more, empty, field.
pub proof fn lemma_tokenize_edges(line: Seq<char>)
    ensures
        tokenize(Seq::<char>::empty()) == seq![Seq::<char>::empty()],
        !inside_quotes(line) ==> tokenize(line.push(',')) == tokenize(line).push(
            Seq::<char>::empty(),
        ),
{
    assert(raw_fields(Seq::<char>::empty()) == seq![Seq::<char>::empty()]);
    assert(trim(Seq::<char>::empty()) == Seq::<char>::empty());
    assert(tokenize(Seq::<char>::empty()) =~= seq![Seq::<char>::empty()]);
    if !inside_quotes(line) {
        let longer = line.push(',');
        assert(longer.drop_last() == line);
        assert(raw_fields(longer) == raw_fields(line).push(Seq::<char>::empty()));
        assert(tokenize(longer) =~= tokenize(line).push(Seq::<char>::empty()));
    }
}

/// Cuts `csv_line` at every comma, quoted or not. The pieces are handed back
/// as they stand, untrimmed. This is the cut by which columns are counted; the
/// fields of a row are read with `parse_csv_line`.
#[verifier::loop_isolation(false)]
pub fn split_line_at_commas(csv_line: &str) -> (pieces: Vec<String>)
    ensures
        views_of(pieces@) == split_on_commas(csv_line@),
{
    let v = chars_of(csv_line);
    let mut fields: Vec<String> = Vec::new();
    let mut start: usize = 0;
    let mut i: usize = 0;
    proof {
        assert(v@.take(0).len() == 0);
        assert(v@.subrange(0, 0) == Seq::<char>::empty());
        assert(views_of(fields@).push(v@.subrange(0, 0)) == seq![Seq::<char>::empty()]);
    }
    while i < v.len()
        invariant
            start <= i <= v.len(),
            split_on_commas(v@.take(i as int)) == views_of(fields@).push(
                v@.subrange(start as int, i as int),
            ),
        decreases v.len() - i,
    {
        let ghost before = split_on_commas(v@.take(i as int));
        proof {
            assert(v@.take(i + 1).drop_last() == v@.take(i as int));
            assert(v@.take(i + 1).last() == v@[i as int]);
        }
        if v[i] == ',' {
            let piece = string_of(&v, start, i);
            let ghost earlier = views_of(fields@);
            fields.push(piece);
            start = i + 1;
            proof {
                assert(views_of(fields@) == earlier.push(piece@));
                assert(v@.subrange(start as int, i + 1) == Seq::<char>::empty());
            }
        } else {
            proof {
                assert(before.drop_last() == views_of(fields@));
                assert(v@.subrange(start as int, i + 1) == v@.subrange(start as int, i as int).push(
                    v@[i as int],
                ));
            }
        }
        i += 1;
    }
    let piece = string_of(&v, start, i);
    let ghost earlier = views_of(fields@);
    fields.push(piece);
    proof {
        assert(views_of(fields@) == earlier.push(piece@));
        assert(v@.take(v.len() as int) == v@);
    }
    fields
}

/// The number of columns in `csv_line`: one more than it has commas. Quotes
/// are not looked at.
pub fn count_csv_columns_in_line(csv_line: &str) -> (count: usize)
    ensures
        count == column_count(csv_line@),
        count >= 1,
{
    let pieces = split_line_at_commas(csv_line);
    proof {
        lemma_split_nonempty(csv_line@);
    }
    pieces.len()
}

/// Splits `line` into its fields, honouring quotes, and trims each field.
#[verifier::loop_isolation(false)]
pub fn parse_csv_line(line: &str) -> (fields: Vec<String>)
    ensures
        views_of(fields@) == tokenize(line@),
        fields.len() >= 1,
{
    let v = chars_of(line);
    let mut fields: Vec<String> = Vec::new();
    let mut current: Vec<char> = Vec::new();
    let mut within_quotes = false;
    let ghost mut done: Seq<Seq<char>> = Seq::empty();
    let mut i: usize = 0;
    while i < v.len()
        invariant
            i <= v.len(),
            raw_fields(v@.take(i as int)) == done.push(current@),
            within_quotes == inside_quotes(v@.take(i as int)),
            views_of(fields@) == done.map_values(|field: Seq<char>| trim(field)),
        decreases v.len() - i,
    {
        let c = v[i];
        proof {
            assert(v@.take(i + 1).drop_last() == v@.take(i as int));
            assert(v@.take(i + 1).last() == c);
            assert(done.push(current@).drop_last() == done);
        }
        if c == '"' {
            within_quotes = !within_quotes;
        } else if c == ',' && !within_quotes {
            let (a, b) = trim_bounds(&current, 0, current.len());
            let piece = string_of(&current, a, b);
            let ghost earlier = views_of(fields@);
            fields.push(piece);
            proof {
                assert(current@.subrange(0, current.len() as int) == current@);
                assert(views_of(fields@) == earlier.push(piece@));
                assert(done.push(current@).map_values(|field: Seq<char>| trim(field))
                    == done.map_values(|field: Seq<char>| trim(field)).push(trim(current@)));
                done = done.push(current@);
            }
            current = Vec::new();
        } else {
            current.push(c);
        }
        i += 1;
    }
    let (a, b) = trim_bounds(&current, 0, current.len());
    let piece = string_of(&current, a, b);
    let ghost earlier = views_of(fields@);
    fields.push(piece);
    proof {
        assert(current@.subrange(0, current.len() as int) == current@);
        assert(views_of(fields@) == earlier.push(piece@));
        assert(done.push(current@).map_values(|field: Seq<char>| trim(field)) == done.map_values(
            |field: Seq<char>| trim(field),
        ).push(trim(current@)));
        assert(v@.take(v.len() as int) == v@);
    }
    fields
}

/// The fields of one row of a file: `csv_line` split by the tokenizer, with
/// quotes honoured and every field trimmed.
pub fn parse_csv_line_into_fields(csv_line: &str) -> (fields: Vec<String>)
    ensures
        views_of(fields@) == tokenize(csv_line@),
        fields.len() >= 1,
{
    parse_csv_line(csv_line)
}

} // verus!
