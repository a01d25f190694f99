use rows_and_columns::inspection::{describe_csv_lines, find_data_row, RowSearchEnd, RowSeeker};

fn strings(text: &[&str]) -> Vec<String> {
    text.iter().map(|line| line.to_string()).collect()
}

#[test]
fn a_file_is_described_by_its_header_and_its_rows() {
    let description =
        describe_csv_lines(&strings(&["name, age", "Alice,30", "", "Bob,25", "  "])).unwrap();
    assert_eq!(description.headers, vec!["name", "age"]);
    assert_eq!(description.row_count, 2);
    let description = describe_csv_lines(&strings(&["only"])).unwrap();
    assert_eq!(description.headers, vec!["only"]);
    assert_eq!(description.row_count, 0);
}

#[test]
fn a_file_without_lines_is_not_described() {
    assert!(describe_csv_lines(&Vec::new()).is_none());
}

#[test]
fn rows_are_counted_without_the_blank_lines() {
    let lines = strings(&["a,1", "", "b,2", "   ", "c,3"]);
    assert_eq!(find_data_row(&lines, 0), Ok(strings(&["a", "1"])));
    assert_eq!(find_data_row(&lines, 1), Ok(strings(&["b", "2"])));
    assert_eq!(find_data_row(&lines, 2), Ok(strings(&["c", "3"])));
}

#[test]
fn a_row_just_past_the_end_is_not_there() {
    let lines = strings(&["a,1", "", "b,2"]);
    assert_eq!(find_data_row(&lines, 2), Err(RowSearchEnd::NotThere));
    assert_eq!(find_data_row(&Vec::new(), 0), Err(RowSearchEnd::NotThere));
    assert_eq!(find_data_row(&strings(&["", " "]), 0), Err(RowSearchEnd::NotThere));
}

#[test]
fn a_row_far_past_the_end_is_out_of_range() {
    let lines = strings(&["a,1", "", "b,2"]);
    assert_eq!(find_data_row(&lines, 3), Err(RowSearchEnd::OutOfRange { data_row_count: 2 }));
    assert_eq!(
        find_data_row(&lines, usize::MAX),
        Err(RowSearchEnd::OutOfRange { data_row_count: 2 })
    );
    assert_eq!(find_data_row(&Vec::new(), 1), Err(RowSearchEnd::OutOfRange { data_row_count: 0 }));
}

#[test]
fn the_seeker_takes_lines_one_by_one() {
    let mut seeker = RowSeeker::new(1);
    assert_eq!(seeker.finish(), RowSearchEnd::OutOfRange { data_row_count: 0 });
    assert_eq!(seeker.observe_line("first,row"), None);
    assert_eq!(seeker.finish(), RowSearchEnd::NotThere);
    assert_eq!(seeker.observe_line(""), None);
    assert_eq!(seeker.finish(), RowSearchEnd::NotThere);
    assert_eq!(seeker.observe_line(" second , \"row, quoted\" "), Some(strings(&["second", "row, quoted"])));
    assert_eq!(seeker.finish(), RowSearchEnd::Found);
    assert_eq!(seeker.observe_line("third,row"), None);
    assert_eq!(seeker.finish(), RowSearchEnd::Found);
}

#[test]
fn the_seeker_agrees_with_the_search_through_all_lines() {
    let lines = strings(&["", "a", "b", "", "", "c", "d"]);
    for wanted in 0..7 {
        let mut seeker = RowSeeker::new(wanted);
        let mut found = None;
        for line in &lines {
            if let Some(fields) = seeker.observe_line(line) {
                found = Some(fields);
            }
        }
        match find_data_row(&lines, wanted) {
            Ok(fields) => {
                assert_eq!(found, Some(fields));
                assert_eq!(seeker.finish(), RowSearchEnd::Found);
            }
            Err(end) => {
                assert_eq!(found, None);
                assert_eq!(seeker.finish(), end);
            }
        }
    }
}
