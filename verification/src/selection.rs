//! Choosing a file from a directory: which entries are shown, in which
//! order, and what an answer of the user means.

use vstd::prelude::*;
use crate::numeric_text::{all_digits, decimal_value, is_digit, is_digit_char, lemma_decimal_value_grows};
use crate::text::{ascii_lowercase, chars_of, reads, reads_ignoring_case};
use crate::workspace::DirectoryItem;

verus! {

/// An entry is hidden when its name begins with a dot.
pub open spec fn is_hidden_name(name: Seq<char>) -> bool {
    name.len() > 0 && name[0] == '.'
}

/// Whether `name` ends in `ending`.
pub open spec fn ends_with(name: Seq<char>, ending: Seq<char>) -> bool {
    name.len() >= ending.len() && name.skip(name.len() - ending.len()) == ending
}

/// The name of a delimited text file ends in `.csv` or `.tsv`, in any mix of
/// upper and lower case.
pub open spec fn is_delimited_file_name(name: Seq<char>) -> bool {
    ends_with(ascii_lowercase(name), ".csv"@) || ends_with(ascii_lowercase(name), ".tsv"@)
}

/// Whether an entry with this name is hidden.
pub fn is_hidden_entry(item_name: &str) -> (hidden: bool)
    ensures
        hidden == is_hidden_name(item_name@),
{
    let v = chars_of(item_name);
    v.len() > 0 && v[0] == '.'
}

/// Whether an entry is a delimited text file, by its name. A directory is
/// none, whatever its name.
pub fn appears_to_be_csv_entry(item_name: &str, is_directory: bool) -> (appears: bool)
    ensures
        appears == (!is_directory && is_delimited_file_name(item_name@)),
{
    if is_directory {
        return false;
    }
    let v = chars_of(item_name);
    let n = v.len();
    if n < 4 {
        proof {
            reveal_strlit(".csv");
            reveal_strlit(".tsv");
        }
        return false;
    }
    proof {
        reveal_strlit(".csv");
        reveal_strlit(".tsv");
        let lower = ascii_lowercase(v@);
        assert(lower.skip(n - 4) == ascii_lowercase(v@.subrange(n - 4, n as int)));
    }
    reads_ignoring_case(&v, n - 4, n, ".csv") || reads_ignoring_case(&v, n - 4, n, ".tsv")
}

/// How one thing stands to another in an order.
#[derive(Debug, Clone, Copy, PartialEq, Eq, Structural)]
pub enum Precedence {
    Before,
    Same,
    After,
}

/// The order of two texts: character by character, by the number of each
/// character, a text before every text that it begins.
pub open spec fn text_order(left: Seq<char>, right: Seq<char>) -> Precedence
    decreases left.len(),
{
    if left.len() == 0 {
        if right.len() == 0 {
            Precedence::Same
        } else {
            Precedence::Before
        }
    } else if right.len() == 0 {
        Precedence::After
    } else if (left[0] as u32) < (right[0] as u32) {
        Precedence::Before
    } else if (left[0] as u32) > (right[0] as u32) {
        Precedence::After
    } else {
        text_order(left.skip(1), right.skip(1))
    }
}

/// The order of two texts.
#[verifier::loop_isolation(false)]
pub fn order_of_texts(left: &str, right: &str) -> (order: Precedence)
    ensures
        order == text_order(left@, right@),
{
    let a = chars_of(left);
    let b = chars_of(right);
    let mut i: usize = 0;
    proof {
        assert(a@.skip(0) == a@);
        assert(b@.skip(0) == b@);
    }
    while i < a.len() && i < b.len()
        invariant
            i <= a.len(),
            i <= b.len(),
            text_order(a@, b@) == text_order(a@.skip(i as int), b@.skip(i as int)),
        decreases a.len() - i,
    {
        proof {
            assert(a@.skip(i as int)[0] == a@[i as int]);
            assert(b@.skip(i as int)[0] == b@[i as int]);
            assert(a@.skip(i as int).skip(1) == a@.skip(i + 1));
            assert(b@.skip(i as int).skip(1) == b@.skip(i + 1));
        }
        if (a[i] as u32) < (b[i] as u32) {
            return Precedence::Before;
        }
        if (a[i] as u32) > (b[i] as u32) {
            return Precedence::After;
        }
        i += 1;
    }
    if i < b.len() {
        Precedence::Before
    } else if i < a.len() {
        Precedence::After
    } else {
        Precedence::Same
    }
}

/// What `str::to_lowercase` gives for a text: its lower-case form by the
/// rules of Unicode.
pub uninterp spec fn unicode_lowercase(text: Seq<char>) -> Seq<char>;

/// `str::to_lowercase`: the lower-case form of `text`. The result is a
/// function of the text alone; it is named, not written out.
#[verifier::external_body]
fn lowercase_text(text: &str) -> (lower: String)
    ensures
        lower@ == unicode_lowercase(text@),
{
    text.to_lowercase()
}

/// The order in which two entries of a directory are shown: directories
/// before files, delimited text files before other files, and within each
/// group by name in lower case.
pub open spec fn entry_order(
    left_is_directory: bool,
    left_appears_to_be_csv: bool,
    left_lower_name: Seq<char>,
    right_is_directory: bool,
    right_appears_to_be_csv: bool,
    right_lower_name: Seq<char>,
) -> Precedence {
    if left_is_directory && !right_is_directory {
        Precedence::Before
    } else if !left_is_directory && right_is_directory {
        Precedence::After
    } else if left_appears_to_be_csv && !right_appears_to_be_csv {
        Precedence::Before
    } else if !left_appears_to_be_csv && right_appears_to_be_csv {
        Precedence::After
    } else {
        text_order(left_lower_name, right_lower_name)
    }
}

/// The order of two entries whose names in lower case are given.
pub fn order_of_entries(
    left: &DirectoryItem,
    left_lower_name: &str,
    right: &DirectoryItem,
    right_lower_name: &str,
) -> (order: Precedence)
    ensures
        order == entry_order(
            left.is_directory,
            left.appears_to_be_csv,
            left_lower_name@,
            right.is_directory,
            right.appears_to_be_csv,
            right_lower_name@,
        ),
{
    if left.is_directory && !right.is_directory {
        Precedence::Before
    } else if !left.is_directory && right.is_directory {
        Precedence::After
    } else if left.appears_to_be_csv && !right.appears_to_be_csv {
        Precedence::Before
    } else if !left.appears_to_be_csv && right.appears_to_be_csv {
        Precedence::After
    } else {
        order_of_texts(left_lower_name, right_lower_name)
    }
}

/// The order in which two entries of a directory are shown.
pub fn compare_directory_items(left: &DirectoryItem, right: &DirectoryItem) -> (order: Precedence)
    ensures
        order == entry_order(
            left.is_directory,
            left.appears_to_be_csv,
            unicode_lowercase(left.item_name@),
            right.is_directory,
            right.appears_to_be_csv,
            unicode_lowercase(right.item_name@),
        ),
{
    let left_lower_name = lowercase_text(left.item_name.as_str());
    let right_lower_name = lowercase_text(right.item_name.as_str());
    order_of_entries(left, left_lower_name.as_str(), right, right_lower_name.as_str())
}

/// The number that an answer denotes: an optional plus sign, then one or
/// more decimal digits, the value within the range of `usize`.
pub open spec fn selection_number(answer: Seq<char>) -> Option<nat> {
    let digits = if answer.len() > 0 && answer[0] == '+' {
        answer.skip(1)
    } else {
        answer
    };
    if digits.len() > 0 && all_digits(digits) && decimal_value(digits) <= usize::MAX {
        Some(decimal_value(digits))
    } else {
        None
    }
}

/// The number that `answer` denotes, if it denotes one.
#[verifier::loop_isolation(false)]
pub fn parse_selection_number(answer: &str) -> (number: Option<usize>)
    ensures
        match number {
            Some(n) => selection_number(answer@) == Some(n as nat),
            None => selection_number(answer@) is None,
        },
{
    let v = chars_of(answer);
    let start: usize = if v.len() > 0 && v[0] == '+' {
        1
    } else {
        0
    };
    let ghost digits = v@.skip(start as int);
    proof {
        if start == 0 {
            assert(v@.skip(0) == v@);
        }
    }
    if start == v.len() {
        return None;
    }
    let mut value: usize = 0;
    let mut i: usize = start;
    proof {
        assert(digits.take(0).len() == 0);
    }
    while i < v.len()
        invariant
            start <= i <= v.len(),
            all_digits(digits.take(i - start)),
            value == decimal_value(digits.take(i - start)),
        decreases v.len() - i,
    {
        let c = v[i];
        let ghost before = digits.take(i - start);
        let ghost after = digits.take(i - start + 1);
        proof {
            assert(digits[i - start] == c);
            assert(after.drop_last() == before);
            assert(after.last() == c);
        }
        if !is_digit_char(c) {
            assert(!all_digits(digits));
            return None;
        }
        let d: usize = ((c as u32) - 48) as usize;
        assert(all_digits(after)) by {
            assert forall|k: int| 0 <= k < after.len() implies is_digit(#[trigger] after[k]) by {
                if k < before.len() {
                    assert(after[k] == before[k]);
                }
            }
        }
        if value > (usize::MAX - d) / 10 {
            proof {
                assert(decimal_value(after) == value * 10 + d);
                assert(decimal_value(after) > usize::MAX);
                if all_digits(digits) {
                    lemma_decimal_value_grows(digits, i - start + 1);
                }
            }
            return None;
        }
        value = value * 10 + d;
        i += 1;
    }
    assert(digits.take(v.len() - start) == digits);
    Some(value)
}

/// What an answer of the user means while a file is being chosen.
#[derive(Debug, Clone, Copy, PartialEq, Eq, Structural)]
pub enum FileSelectionDecision {
    /// Show the directory again.
    Refresh,
    /// Give up choosing.
    Quit,
    /// Go to the directory above.
    GoToParent,
    /// Go into the directory at this position of the list.
    EnterDirectory(usize),
    /// Take the delimited text file at this position of the list.
    SelectFile(usize),
    /// The entry at this position is a file of another kind.
    NotADelimitedFile(usize),
    /// The answer is a number outside the list.
    NumberOutOfRange,
    /// The answer is neither a command nor a number.
    NotUnderstood,
}

/// What the answer `answer` means before a list of entries. An entry is
/// given as the pair of its two flags: whether it is a directory, and
/// whether it appears to be a delimited text file.
pub open spec fn selection_decision(answer: Seq<char>, entries: Seq<(bool, bool)>) -> FileSelectionDecision {
    if answer.len() == 0 {
        FileSelectionDecision::Refresh
    } else if answer == "q"@ || answer == "quit"@ {
        FileSelectionDecision::Quit
    } else if answer == "b"@ || answer == "back"@ {
        FileSelectionDecision::GoToParent
    } else {
        match selection_number(answer) {
            Some(number) => if 0 < number <= entries.len() {
                let entry = entries[number - 1];
                if entry.0 {
                    FileSelectionDecision::EnterDirectory((number - 1) as usize)
                } else if entry.1 {
                    FileSelectionDecision::SelectFile((number - 1) as usize)
                } else {
                    FileSelectionDecision::NotADelimitedFile((number - 1) as usize)
                }
            } else {
                FileSelectionDecision::NumberOutOfRange
            },
            None => FileSelectionDecision::NotUnderstood,
        }
    }
}

/// The flags of a list of entries.
pub open spec fn flags_of(directory_items: Seq<DirectoryItem>) -> Seq<(bool, bool)> {
    directory_items.map_values(|item: DirectoryItem| (item.is_directory, item.appears_to_be_csv))
}

/// Decides what the trimmed answer of the user means before the entries
/// shown. Entries are numbered from 1.
pub fn process_user_file_selection_input(user_input: &str, directory_items: &Vec<DirectoryItem>) -> (
    decision: FileSelectionDecision)
    ensures
        decision == selection_decision(user_input@, flags_of(directory_items@)),
{
    let v = chars_of(user_input);
    let n = v.len();
    assert(v@.subrange(0, n as int) == v@);
    if n == 0 {
        return FileSelectionDecision::Refresh;
    }
    if reads(&v, 0, n, "q") || reads(&v, 0, n, "quit") {
        return FileSelectionDecision::Quit;
    }
    if reads(&v, 0, n, "b") || reads(&v, 0, n, "back") {
        return FileSelectionDecision::GoToParent;
    }
    match parse_selection_number(user_input) {
        Some(selection_number) => {
            if selection_number > 0 && selection_number <= directory_items.len() {
                let selected_item = &directory_items[selection_number - 1];
                if selected_item.is_directory {
                    FileSelectionDecision::EnterDirectory(selection_number - 1)
                } else if selected_item.appears_to_be_csv {
                    FileSelectionDecision::SelectFile(selection_number - 1)
                } else {
                    FileSelectionDecision::NotADelimitedFile(selection_number - 1)
                }
            } else {
                FileSelectionDecision::NumberOutOfRange
            }
        },
        None => FileSelectionDecision::NotUnderstood,
    }
}

/// The order of texts is an order: two texts are the same exactly when they
/// are equal, and turning a pair round turns the order round.
pub proof fn lemma_text_order(left: Seq<char>, right: Seq<char>)
    ensures
        text_order(left, right) == Precedence::Same <==> left == right,
        text_order(left, right) == Precedence::Before <==> text_order(right, left)
            == Precedence::After,
    decreases left.len(),
{
    if left.len() > 0 && right.len() > 0 {
        lemma_text_order(left.skip(1), right.skip(1));
        vstd::utf8::char_u32_cast(left[0], left[0] as u32);
        vstd::utf8::char_u32_cast(right[0], right[0] as u32);
        if left[0] == right[0] && left.skip(1) == right.skip(1) {
            assert(left =~= seq![left[0]] + left.skip(1));
            assert(right =~= seq![right[0]] + right.skip(1));
        }
        if left == right {
            assert(left.skip(1) == right.skip(1));
        }
    } else if left.len() == 0 && right.len() == 0 {
        assert(left =~= right);
    }
}

} // verus!
