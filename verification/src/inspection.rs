//! Looking into a file without analysing it: its header, the number of its
//! rows, and one row of it.
//!
//! The first line of the file is taken for its header. A row is a line after
//! the header that is not blank; rows are numbered from 0.

use vstd::prelude::*;
use crate::structure::{count_remaining_csv_lines, non_blank_count};
use crate::text::{is_blank, is_blank_line, views_of};
use crate::tokenizer::{parse_csv_line, tokenize};

verus! {

/// The lines among `lines` that are not blank, in order.
pub open spec fn non_blank_lines(lines: Seq<Seq<char>>) -> Seq<Seq<char>>
    decreases lines.len(),
{
    if lines.len() == 0 {
        Seq::<Seq<char>>::empty()
    } else if is_blank(lines.last()) {
        non_blank_lines(lines.drop_last())
    } else {
        non_blank_lines(lines.drop_last()).push(lines.last())
    }
}

/// There are as many lines that are not blank as are counted.
pub proof fn lemma_non_blank_lines_counted(lines: Seq<Seq<char>>)
    ensures
        non_blank_lines(lines).len() == non_blank_count(lines),
    decreases lines.len(),
{
    if lines.len() > 0 {
        lemma_non_blank_lines_counted(lines.drop_last());
    }
}

/// The header of a file and the number of its rows.
pub struct CsvDescription {
    /// The fields of the header.
    pub headers: Vec<String>,
    /// The number of rows.
    pub row_count: usize,
}

/// The header of a file and the number of its rows, from its lines. A file
/// without lines has neither.
pub fn describe_csv_lines(lines: &Vec<String>) -> (description: Option<CsvDescription>)
    ensures
        lines.len() == 0 <==> description is None,
        description matches Some(found) ==> views_of(found.headers@) == tokenize(lines[0]@)
            && found.row_count == non_blank_count(views_of(lines@).skip(1)),
{
    if lines.len() == 0 {
        return None;
    }
    let headers = parse_csv_line(lines[0].as_str());
    let row_count = count_remaining_csv_lines(lines, 1);
    Some(CsvDescription { headers, row_count })
}

/// How the search for a row ended.
#[derive(Debug, Clone, Copy, PartialEq, Eq, Structural)]
pub enum RowSearchEnd {
    /// The file has fewer rows than the number of the row wanted; it has
    /// this many.
    OutOfRange { data_row_count: usize },
    /// The file has exactly as many rows as the number of the row wanted, so
    /// that the row itself is not there.
    NotThere,
    /// The row was found before the file ended.
    Found,
}

/// A search for one row among the lines after the header, which it is fed
/// one by one.
pub struct RowSeeker {
    wanted: usize,
    rows_seen: usize,
    found: bool,
    observed: Ghost<Seq<Seq<char>>>,
}

impl RowSeeker {
    /// The lines fed so far.
    pub closed spec fn observed(&self) -> Seq<Seq<char>> {
        self.observed@
    }

    /// The number of the row wanted.
    pub closed spec fn wanted(&self) -> nat {
        self.wanted as nat
    }

    /// The counters agree with the lines fed.
    pub closed spec fn wf(&self) -> bool {
        &&& self.found == (non_blank_count(self.observed@) > self.wanted)
        &&& !self.found ==> self.rows_seen == non_blank_count(self.observed@)
    }

    /// A search for the row with the number `row_index`.
    pub fn new(row_index: usize) -> (seeker: RowSeeker)
        ensures
            seeker.wf(),
            seeker.wanted() == row_index,
            seeker.observed() == Seq::<Seq<char>>::empty(),
    {
        RowSeeker { wanted: row_index, rows_seen: 0, found: false, observed: Ghost(Seq::empty()) }
    }

    /// Takes the next line after the header. Hands back the fields of the
    /// line where it is the row wanted, and nothing for every other line.
    pub fn observe_line(&mut self, line: &str) -> (row: Option<Vec<String>>)
        requires
            old(self).wf(),
        ensures
            final(self).wf(),
            final(self).wanted() == old(self).wanted(),
            final(self).observed() == old(self).observed().push(line@),
            row is Some <==> !is_blank(line@) && non_blank_count(old(self).observed()) == old(
                self,
            ).wanted(),
            row matches Some(fields) ==> views_of(fields@) == tokenize(line@),
    {
        let ghost before = self.observed@;
        let ghost after = before.push(line@);
        proof {
            assert(after.drop_last() == before);
            assert(after.last() == line@);
        }
        self.observed = Ghost(after);
        if self.found || is_blank_line(line) {
            return None;
        }
        if self.rows_seen == self.wanted {
            self.found = true;
            return Some(parse_csv_line(line));
        }
        self.rows_seen = self.rows_seen + 1;
        None
    }

    /// How the search stands when the file has ended.
    pub fn finish(&self) -> (end: RowSearchEnd)
        requires
            self.wf(),
        ensures
            end == row_search_end(self.observed(), self.wanted()),
    {
        if self.found {
            RowSearchEnd::Found
        } else if self.rows_seen < self.wanted {
            RowSearchEnd::OutOfRange { data_row_count: self.rows_seen }
        } else {
            RowSearchEnd::NotThere
        }
    }
}

/// How the search for the row `wanted` ends in a file with the lines given
/// after its header.
pub open spec fn row_search_end(lines: Seq<Seq<char>>, wanted: nat) -> RowSearchEnd {
    let rows = non_blank_count(lines);
    if rows > wanted {
        RowSearchEnd::Found
    } else if rows < wanted {
        RowSearchEnd::OutOfRange { data_row_count: rows as usize }
    } else {
        RowSearchEnd::NotThere
    }
}

/// The fields of the row `row_index` of a file with the lines given after its
/// header, or how the search for it ended.
#[verifier::loop_isolation(false)]
pub fn find_data_row(lines: &Vec<String>, row_index: usize) -> (result: Result<
    Vec<String>,
    RowSearchEnd,
>)
    ensures
        match result {
            Ok(fields) => row_index < non_blank_lines(views_of(lines@)).len() && views_of(fields@)
                == tokenize(non_blank_lines(views_of(lines@))[row_index as int]),
            Err(end) => end != RowSearchEnd::Found && end == row_search_end(
                views_of(lines@),
                row_index as nat,
            ),
        },
{
    let ghost all = views_of(lines@);
    let mut seeker = RowSeeker::new(row_index);
    let mut i: usize = 0;
    proof {
        assert(all.take(0) == Seq::<Seq<char>>::empty());
    }
    while i < lines.len()
        invariant
            i <= lines.len(),
            seeker.wf(),
            seeker.wanted() == row_index,
            seeker.observed() == all.take(i as int),
            non_blank_count(all.take(i as int)) <= row_index,
        decreases lines.len() - i,
    {
        proof {
            assert(all.take(i + 1) == all.take(i as int).push(lines@[i as int]@));
            assert(all.take(i + 1).drop_last() == all.take(i as int));
            lemma_non_blank_lines_counted(all.take(i as int));
        }
        match seeker.observe_line(lines[i].as_str()) {
            Some(fields) => {
                proof {
                    let line = lines@[i as int]@;
                    let shorter = non_blank_lines(all.take(i as int));
                    let longer = non_blank_lines(all.take(i + 1));
                    assert(all.take(i + 1).last() == line);
                    assert(longer == shorter.push(line));
                    assert(shorter.len() == row_index);
                    lemma_non_blank_prefix(all, i + 1);
                    assert(longer[row_index as int] == line);
                    assert(non_blank_lines(all).take(longer.len() as int)[row_index as int]
                        == non_blank_lines(all)[row_index as int]);
                }
                return Ok(fields);
            },
            None => {},
        }
        i += 1;
    }
    assert(all.take(lines.len() as int) == all);
    Err(seeker.finish())
}

/// The lines that are not blank among the first lines of a file are the
/// first of those that are not blank in the whole file.
proof fn lemma_non_blank_prefix(lines: Seq<Seq<char>>, count: int)
    requires
        0 <= count <= lines.len(),
    ensures
        non_blank_lines(lines.take(count)).len() <= non_blank_lines(lines).len(),
        non_blank_lines(lines.take(count)) == non_blank_lines(lines).take(
            non_blank_lines(lines.take(count)).len() as int,
        ),
    decreases lines.len() - count,
{
    if count == lines.len() {
        assert(lines.take(count) == lines);
        assert(non_blank_lines(lines).take(non_blank_lines(lines).len() as int) == non_blank_lines(
            lines,
        ));
    } else {
        lemma_non_blank_prefix(lines, count + 1);
        assert(lines.take(count + 1).drop_last() == lines.take(count));
        let longer = non_blank_lines(lines.take(count + 1));
        let shorter = non_blank_lines(lines.take(count));
        if !is_blank(lines[count]) {
            assert(longer == shorter.push(lines[count]));
            assert(shorter == longer.take(shorter.len() as int));
            assert(longer.take(shorter.len() as int) == non_blank_lines(lines).take(
                longer.len() as int,
            ).take(shorter.len() as int));
        }
    }
}

} // verus!
