use rows_and_columns::text::{decimal_string, is_blank_line, trimmed};
use rows_and_columns::tokenizer::{
    count_csv_columns_in_line, parse_csv_line, parse_csv_line_into_fields, split_line_at_commas,
};

fn plain_split_and_trim(line: &str) -> Vec<String> {
    line.split(',').map(|field| field.trim().to_string()).collect()
}

#[test]
fn fields_are_split_at_commas_and_trimmed() {
    assert_eq!(parse_csv_line("name,age,active"), vec!["name", "age", "active"]);
    assert_eq!(parse_csv_line("  Alice , 30 ,\ttrue "), vec!["Alice", "30", "true"]);
    assert_eq!(parse_csv_line("Carol,,true"), vec!["Carol", "", "true"]);
}

#[test]
fn an_empty_line_is_one_empty_field() {
    assert_eq!(parse_csv_line(""), vec![""]);
    assert_eq!(parse_csv_line("   "), vec![""]);
}

#[test]
fn a_trailing_comma_gives_a_trailing_empty_field() {
    assert_eq!(parse_csv_line("a,b,"), vec!["a", "b", ""]);
    assert_eq!(parse_csv_line(","), vec!["", ""]);
    assert_eq!(parse_csv_line(",,"), vec!["", "", ""]);
}

#[test]
fn a_comma_inside_quotes_belongs_to_its_field() {
    assert_eq!(parse_csv_line("\"Smith, John\",42"), vec!["Smith, John", "42"]);
    assert_eq!(parse_csv_line("a,\"b,c\",d"), vec!["a", "b,c", "d"]);
}

#[test]
fn quote_characters_are_dropped() {
    assert_eq!(parse_csv_line("\"a\",\"b\""), vec!["a", "b"]);
    assert_eq!(parse_csv_line("x\"y\"z"), vec!["xyz"]);
    assert_eq!(parse_csv_line("\"\""), vec![""]);
}

#[test]
fn a_doubled_quote_is_no_escape() {
    // Two quotes toggle the state twice and both are dropped.
    assert_eq!(parse_csv_line("\"say \"\"hi\"\"\",1"), vec!["say hi", "1"]);
}

#[test]
fn unbalanced_quotes_swallow_the_rest_of_the_line() {
    assert_eq!(parse_csv_line("a,\"b,c,d"), vec!["a", "b,c,d"]);
    assert_eq!(parse_csv_line("\""), vec![""]);
}

#[test]
fn whitespace_inside_quotes_is_trimmed_too() {
    assert_eq!(parse_csv_line("\"  padded  \",x"), vec!["padded", "x"]);
}

#[test]
fn without_quotes_the_tokenizer_is_a_plain_split_with_trim() {
    let lines = [
        "a,b,c",
        " a , b , c ",
        "",
        ",",
        "one",
        "1, 2.5 ,,x y ,\t",
        "\u{a0}wide\u{3000},n\u{e9}",
        ",,,,",
    ];
    for line in lines {
        assert_eq!(parse_csv_line(line), plain_split_and_trim(line));
    }
}

#[test]
fn the_plain_split_keeps_whitespace_and_quotes() {
    assert_eq!(split_line_at_commas("a, b ,c"), vec!["a", " b ", "c"]);
    assert_eq!(split_line_at_commas("\"x,y\""), vec!["\"x", "y\""]);
    assert_eq!(split_line_at_commas(""), vec![""]);
    assert_eq!(split_line_at_commas("a,"), vec!["a", ""]);
}

#[test]
fn the_plain_split_agrees_with_std() {
    for line in ["", ",", "a,b", " a ,, b,", "\"q,r\",s", "no commas"] {
        let expected: Vec<String> = line.split(',').map(|field| field.to_string()).collect();
        assert_eq!(split_line_at_commas(line), expected);
    }
}

#[test]
fn columns_are_counted_by_commas_alone() {
    assert_eq!(count_csv_columns_in_line("name,age,active"), 3);
    assert_eq!(count_csv_columns_in_line(""), 1);
    assert_eq!(count_csv_columns_in_line("one"), 1);
    assert_eq!(count_csv_columns_in_line("a,b,"), 3);
    // The count does not look at quotes, the tokenizer does.
    assert_eq!(count_csv_columns_in_line("\"a,b\",c"), 3);
    assert_eq!(parse_csv_line("\"a,b\",c").len(), 2);
}

#[test]
fn trimming_removes_unicode_whitespace() {
    assert_eq!(trimmed("  a b \t"), "a b");
    assert_eq!(trimmed("\r\nline\n"), "line");
    assert_eq!(trimmed(""), "");
    assert_eq!(trimmed(" \t\u{b}\u{c}\r\n"), "");
    assert_eq!(trimmed("x"), "x");
    for text in [
        "\u{85}a\u{a0}",
        "\u{1680}a\u{2000}",
        "\u{200a}a\u{2028}",
        "\u{2029}a\u{202f}",
        "\u{205f}a\u{3000}",
        "\u{200b}a\u{200b}",
        "\u{feff}a",
        "\u{1c}a\u{1f}",
    ] {
        assert_eq!(trimmed(text), text.trim());
    }
}

#[test]
fn trimming_agrees_with_std_on_every_character() {
    let mut code = 0u32;
    while code <= 0x3100 {
        if let Some(c) = char::from_u32(code) {
            let text = format!("{}x{}", c, c);
            assert_eq!(trimmed(&text), text.trim(), "character {:#x}", code);
        }
        code += 1;
    }
}

#[test]
fn blank_lines_hold_whitespace_only() {
    assert!(is_blank_line(""));
    assert!(is_blank_line("   "));
    assert!(is_blank_line("\t\r"));
    assert!(!is_blank_line(","));
    assert!(!is_blank_line(" a "));
}

#[test]
fn numbers_are_written_in_decimal() {
    assert_eq!(decimal_string(0), "0");
    assert_eq!(decimal_string(7), "7");
    assert_eq!(decimal_string(10), "10");
    assert_eq!(decimal_string(42), "42");
    assert_eq!(decimal_string(1000), "1000");
    assert_eq!(decimal_string(usize::MAX), usize::MAX.to_string());
}

#[test]
fn the_fields_of_a_row_honour_quotes_and_are_trimmed() {
    assert_eq!(parse_csv_line_into_fields("\"a,b\", c"), vec!["a,b", "c"]);
    assert_eq!(parse_csv_line_into_fields("Alice, 30 ,true"), vec!["Alice", "30", "true"]);
    assert_eq!(parse_csv_line_into_fields(""), vec![""]);
    assert_eq!(parse_csv_line_into_fields("a,"), vec!["a", ""]);
    assert_eq!(split_line_at_commas("\"a,b\", c"), vec!["\"a", "b\"", " c"]);
}

#[test]
fn the_fields_of_a_row_are_those_of_the_tokenizer() {
    for line in ["", ",", "a,b", " a ,, b,", "\"q,r\",s", "x\"y", "\"\"", "1, \"2,3\" ,4"] {
        assert_eq!(parse_csv_line_into_fields(line), parse_csv_line(line));
    }
}
