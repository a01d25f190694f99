use rows_and_columns::commands::{
    classify_extension, read_command_line_request, read_menu_choice, read_path_input_command,
    CommandLineRequest, ExtensionKind, MenuChoice, PathInputCommand,
};
use rows_and_columns::selection::{
    appears_to_be_csv_entry, compare_directory_items, is_hidden_entry, order_of_texts,
    parse_selection_number, process_user_file_selection_input, FileSelectionDecision, Precedence,
};
use rows_and_columns::workspace::DirectoryItem;
use std::path::PathBuf;

fn entry(name: &str, is_directory: bool) -> DirectoryItem {
    DirectoryItem {
        item_name: name.to_string(),
        absolute_path: PathBuf::from("/test").join(name),
        is_directory,
        file_size_bytes: if is_directory { None } else { Some(10) },
        appears_to_be_csv: appears_to_be_csv_entry(name, is_directory),
    }
}

fn listing() -> Vec<DirectoryItem> {
    vec![entry("archive", true), entry("data.csv", false), entry("notes.txt", false)]
}

fn precedence_of(order: std::cmp::Ordering) -> Precedence {
    if order.is_lt() {
        Precedence::Before
    } else if order.is_gt() {
        Precedence::After
    } else {
        Precedence::Same
    }
}

#[test]
fn hidden_entries_begin_with_a_dot() {
    assert!(is_hidden_entry(".git"));
    assert!(is_hidden_entry("."));
    assert!(!is_hidden_entry("data.csv"));
    assert!(!is_hidden_entry(""));
    assert!(!is_hidden_entry("a.b"));
}

#[test]
fn delimited_files_are_known_by_their_ending() {
    for name in ["data.csv", "DATA.CSV", "table.tsv", "x.Tsv", ".csv", "a.b.csv"] {
        assert!(appears_to_be_csv_entry(name, false), "{:?}", name);
    }
    for name in ["data.txt", "csv", "datacsv", "data.csv.bak", "", "a.cs", "data.csvx", "x.c\u{212a}v"] {
        assert!(!appears_to_be_csv_entry(name, false), "{:?}", name);
    }
    assert!(!appears_to_be_csv_entry("folder.csv", true));
}

#[test]
fn the_ending_is_judged_as_std_judges_it() {
    for name in ["a.csv", "A.CSV", "a.TSV", "a.csv ", "İ.csv", "x.CsV", "ß.tsv", "noending", "ǅ.CSV"] {
        let lower = name.to_lowercase();
        let expected = lower.ends_with(".csv") || lower.ends_with(".tsv");
        assert_eq!(appears_to_be_csv_entry(name, false), expected, "{:?}", name);
    }
}

#[test]
fn texts_are_ordered_character_by_character() {
    assert_eq!(order_of_texts("", ""), Precedence::Same);
    assert_eq!(order_of_texts("", "a"), Precedence::Before);
    assert_eq!(order_of_texts("a", ""), Precedence::After);
    assert_eq!(order_of_texts("abc", "abd"), Precedence::Before);
    assert_eq!(order_of_texts("abc", "abc"), Precedence::Same);
    assert_eq!(order_of_texts("abd", "abc"), Precedence::After);
    assert_eq!(order_of_texts("ab", "abc"), Precedence::Before);
    assert_eq!(order_of_texts("B", "a"), Precedence::Before);
}

#[test]
fn the_order_of_texts_is_that_of_std() {
    let texts = ["", "a", "A", "ab", "b", "é", "z", "zz", "日本", "\u{10000}", "\u{ffff}", "a\u{0}"];
    for left in texts {
        for right in texts {
            assert_eq!(order_of_texts(left, right), precedence_of(left.cmp(right)));
        }
    }
}

#[test]
fn directories_come_first_and_delimited_files_next() {
    let folder = entry("zeta", true);
    let table = entry("Beta.csv", false);
    let other = entry("alpha.txt", false);
    assert_eq!(compare_directory_items(&folder, &table), Precedence::Before);
    assert_eq!(compare_directory_items(&table, &folder), Precedence::After);
    assert_eq!(compare_directory_items(&table, &other), Precedence::Before);
    assert_eq!(compare_directory_items(&other, &table), Precedence::After);
    assert_eq!(compare_directory_items(&folder, &other), Precedence::Before);
}

#[test]
fn within_a_group_entries_go_by_name_in_lower_case() {
    assert_eq!(
        compare_directory_items(&entry("Apple.csv", false), &entry("banana.csv", false)),
        Precedence::Before
    );
    assert_eq!(
        compare_directory_items(&entry("banana.csv", false), &entry("Apple.csv", false)),
        Precedence::After
    );
    assert_eq!(
        compare_directory_items(&entry("README", false), &entry("readme", false)),
        Precedence::Same
    );
    assert_eq!(
        compare_directory_items(&entry("Émile", true), &entry("émile", true)),
        Precedence::Same
    );
    assert_eq!(
        compare_directory_items(&entry("Zoo", true), &entry("apple", true)),
        Precedence::After
    );
}

#[test]
fn answers_that_are_numbers() {
    assert_eq!(parse_selection_number("0"), Some(0));
    assert_eq!(parse_selection_number("7"), Some(7));
    assert_eq!(parse_selection_number("+7"), Some(7));
    assert_eq!(parse_selection_number("0012"), Some(12));
    assert_eq!(parse_selection_number(&usize::MAX.to_string()), Some(usize::MAX));
    for answer in ["", "+", "-1", "1.5", "one", " 1", "1 ", "18446744073709551616", "99999999999999999999999"] {
        assert_eq!(parse_selection_number(answer), answer.parse::<usize>().ok(), "{:?}", answer);
        assert_eq!(parse_selection_number(answer), None, "{:?}", answer);
    }
}

#[test]
fn commands_while_choosing_a_file() {
    let items = listing();
    assert_eq!(process_user_file_selection_input("", &items), FileSelectionDecision::Refresh);
    assert_eq!(process_user_file_selection_input("q", &items), FileSelectionDecision::Quit);
    assert_eq!(process_user_file_selection_input("quit", &items), FileSelectionDecision::Quit);
    assert_eq!(process_user_file_selection_input("b", &items), FileSelectionDecision::GoToParent);
    assert_eq!(process_user_file_selection_input("back", &items), FileSelectionDecision::GoToParent);
    assert_eq!(process_user_file_selection_input("Q", &items), FileSelectionDecision::NotUnderstood);
    assert_eq!(process_user_file_selection_input("exit", &items), FileSelectionDecision::NotUnderstood);
}

#[test]
fn numbers_choose_entries_counted_from_one() {
    let items = listing();
    assert_eq!(
        process_user_file_selection_input("1", &items),
        FileSelectionDecision::EnterDirectory(0)
    );
    assert_eq!(process_user_file_selection_input("2", &items), FileSelectionDecision::SelectFile(1));
    assert_eq!(
        process_user_file_selection_input("3", &items),
        FileSelectionDecision::NotADelimitedFile(2)
    );
    assert_eq!(process_user_file_selection_input("+2", &items), FileSelectionDecision::SelectFile(1));
}

#[test]
fn numbers_outside_the_list_choose_nothing() {
    let items = listing();
    assert_eq!(process_user_file_selection_input("0", &items), FileSelectionDecision::NumberOutOfRange);
    assert_eq!(process_user_file_selection_input("4", &items), FileSelectionDecision::NumberOutOfRange);
    assert_eq!(
        process_user_file_selection_input("1", &Vec::new()),
        FileSelectionDecision::NumberOutOfRange
    );
    assert_eq!(
        process_user_file_selection_input("99999999999999999999999", &items),
        FileSelectionDecision::NotUnderstood
    );
    assert_eq!(process_user_file_selection_input("-1", &items), FileSelectionDecision::NotUnderstood);
    assert_eq!(process_user_file_selection_input("two", &items), FileSelectionDecision::NotUnderstood);
}

#[test]
fn requests_on_the_command_line() {
    assert_eq!(read_command_line_request("--help"), CommandLineRequest::ShowHelp);
    assert_eq!(read_command_line_request("-h"), CommandLineRequest::ShowHelp);
    assert_eq!(read_command_line_request("help"), CommandLineRequest::ShowHelp);
    assert_eq!(read_command_line_request("--describe"), CommandLineRequest::Describe);
    assert_eq!(read_command_line_request("--row"), CommandLineRequest::ShowRow);
    assert_eq!(read_command_line_request("data.csv"), CommandLineRequest::AnalyzeFile);
    assert_eq!(read_command_line_request("--HELP"), CommandLineRequest::AnalyzeFile);
    assert_eq!(read_command_line_request(""), CommandLineRequest::AnalyzeFile);
}

#[test]
fn answers_at_the_prompt_for_a_file() {
    assert_eq!(read_path_input_command(""), PathInputCommand::Empty);
    for answer in ["quit", "q", "exit", "QUIT", "Exit", "Q"] {
        assert_eq!(read_path_input_command(answer), PathInputCommand::Quit, "{:?}", answer);
    }
    for answer in ["help", "h", "?", "HELP", "H"] {
        assert_eq!(read_path_input_command(answer), PathInputCommand::Help, "{:?}", answer);
    }
    for answer in ["data.csv", "/tmp/quit", "quit.csv", "helpme", "??"] {
        assert_eq!(read_path_input_command(answer), PathInputCommand::Path, "{:?}", answer);
    }
}

#[test]
fn answers_in_the_menu() {
    let cases = [
        ("1", MenuChoice::ReviewTypes),
        ("review", MenuChoice::ReviewTypes),
        ("Types", MenuChoice::ReviewTypes),
        ("EDIT", MenuChoice::ReviewTypes),
        ("2", MenuChoice::LoadData),
        ("load", MenuChoice::LoadData),
        ("import", MenuChoice::LoadData),
        ("directory", MenuChoice::LoadData),
        ("3", MenuChoice::ExportReport),
        ("export", MenuChoice::ExportReport),
        ("report", MenuChoice::ExportReport),
        ("save", MenuChoice::ExportReport),
        ("4", MenuChoice::Quit),
        ("quit", MenuChoice::Quit),
        ("exit", MenuChoice::Quit),
        ("q", MenuChoice::Quit),
        ("help", MenuChoice::Help),
        ("h", MenuChoice::Help),
        ("?", MenuChoice::Help),
        ("", MenuChoice::Empty),
        ("5", MenuChoice::Unknown),
        ("reviews", MenuChoice::Unknown),
        (" 1", MenuChoice::Unknown),
    ];
    for (answer, expected) in cases {
        assert_eq!(read_menu_choice(answer), expected, "{:?}", answer);
    }
}

#[test]
fn endings_of_file_names() {
    assert_eq!(classify_extension(Some("csv")), ExtensionKind::Delimited);
    assert_eq!(classify_extension(Some("TSV")), ExtensionKind::Delimited);
    assert_eq!(classify_extension(Some("Csv")), ExtensionKind::Delimited);
    assert_eq!(classify_extension(Some("txt")), ExtensionKind::Other);
    assert_eq!(classify_extension(Some("")), ExtensionKind::Other);
    assert_eq!(classify_extension(Some("csvx")), ExtensionKind::Other);
    assert_eq!(classify_extension(None), ExtensionKind::Missing);
}
