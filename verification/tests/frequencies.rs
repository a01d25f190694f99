use rows_and_columns::frequencies::{
    calculate_categorical_statistics, rank_frequencies, tally_values, CategoricalColumnStatistics,
    Percentage,
};

fn strings(text: &[&str]) -> Vec<String> {
    text.iter().map(|line| line.to_string()).collect()
}

fn ranking(statistics: &CategoricalColumnStatistics) -> Vec<(String, usize)> {
    statistics
        .value_frequencies
        .iter()
        .map(|frequency| (frequency.value.clone(), frequency.count))
        .collect()
}

fn pairs(text: &[(&str, usize)]) -> Vec<(String, usize)> {
    text.iter().map(|(value, count)| (value.to_string(), *count)).collect()
}

#[test]
fn values_are_ranked_by_count() {
    let statistics =
        calculate_categorical_statistics(&strings(&["red", "blue", "red", "green", "blue", "red"]));
    assert_eq!(ranking(&statistics), pairs(&[("red", 3), ("blue", 2), ("green", 1)]));
    assert_eq!(statistics.unique_value_count, 3);
    assert_eq!(statistics.mode_value, Some("red".to_string()));
    assert_eq!(statistics.mode_percentage, Percentage { part: 3, whole: 6 });
    assert_eq!(statistics.missing_percentage, Percentage { part: 0, whole: 6 });
}

#[test]
fn equal_counts_keep_the_order_of_first_sight() {
    let statistics = calculate_categorical_statistics(&strings(&["b", "a", "c", "a", "b", "c"]));
    assert_eq!(ranking(&statistics), pairs(&[("b", 2), ("a", 2), ("c", 2)]));
    let statistics = calculate_categorical_statistics(&strings(&["z", "y", "x", "w"]));
    assert_eq!(ranking(&statistics), pairs(&[("z", 1), ("y", 1), ("x", 1), ("w", 1)]));
    assert_eq!(statistics.mode_value, Some("z".to_string()));
}

#[test]
fn a_later_value_overtakes_an_earlier_one_by_count_only() {
    let statistics = calculate_categorical_statistics(&strings(&["a", "b", "b", "c", "c", "c", "d"]));
    assert_eq!(ranking(&statistics), pairs(&[("c", 3), ("b", 2), ("a", 1), ("d", 1)]));
}

#[test]
fn empty_values_are_missing() {
    let statistics = calculate_categorical_statistics(&strings(&["x", "", "  ", "y", "x", "\t"]));
    assert_eq!(ranking(&statistics), pairs(&[("x", 2), ("y", 1)]));
    assert_eq!(statistics.missing_percentage, Percentage { part: 3, whole: 6 });
    assert_eq!(statistics.value_frequencies[0].percentage, Percentage { part: 2, whole: 3 });
    assert_eq!(statistics.value_frequencies[1].percentage, Percentage { part: 1, whole: 3 });
    assert_eq!(statistics.mode_percentage, Percentage { part: 2, whole: 3 });
}

#[test]
fn values_are_trimmed_before_they_are_counted() {
    let statistics = calculate_categorical_statistics(&strings(&[" yes", "yes ", "yes", "no"]));
    assert_eq!(ranking(&statistics), pairs(&[("yes", 3), ("no", 1)]));
}

#[test]
fn values_differ_by_case() {
    let statistics = calculate_categorical_statistics(&strings(&["Yes", "yes", "YES", "yes"]));
    assert_eq!(ranking(&statistics), pairs(&[("yes", 2), ("Yes", 1), ("YES", 1)]));
}

#[test]
fn a_column_without_values_has_no_mode() {
    let statistics = calculate_categorical_statistics(&Vec::new());
    assert!(statistics.value_frequencies.is_empty());
    assert_eq!(statistics.unique_value_count, 0);
    assert_eq!(statistics.mode_value, None);
    assert_eq!(statistics.mode_percentage, Percentage { part: 0, whole: 0 });
    assert_eq!(statistics.missing_percentage, Percentage { part: 0, whole: 0 });
}

#[test]
fn a_column_of_empty_values_has_no_mode() {
    let statistics = calculate_categorical_statistics(&strings(&["", " ", ""]));
    assert!(statistics.value_frequencies.is_empty());
    assert_eq!(statistics.unique_value_count, 0);
    assert_eq!(statistics.mode_value, None);
    assert_eq!(statistics.missing_percentage, Percentage { part: 3, whole: 3 });
}

#[test]
fn counts_and_missing_values_add_up_to_all_values() {
    let columns: [&[&str]; 5] = [
        &[],
        &["a"],
        &["", ""],
        &["a", "", "b", "a", " ", "c", "b", "a"],
        &["true", "false", "true"],
    ];
    for column in columns {
        let statistics = calculate_categorical_statistics(&strings(column));
        let counted: usize = statistics.value_frequencies.iter().map(|f| f.count).sum();
        assert_eq!(counted + statistics.missing_percentage.part, column.len());
        assert_eq!(statistics.missing_percentage.whole, column.len());
        assert_eq!(statistics.unique_value_count, statistics.value_frequencies.len());
        for frequency in &statistics.value_frequencies {
            assert_eq!(frequency.percentage, Percentage { part: frequency.count, whole: counted });
        }
    }
}

#[test]
fn the_tally_keeps_the_order_of_first_sight() {
    let tally = tally_values(&strings(&["b", "", "a", "b", " c ", "a", "b"]));
    assert_eq!(tally.values, vec!["b", "a", "c"]);
    assert_eq!(tally.counts, vec![3, 2, 1]);
    assert_eq!(tally.missing, 1);
    assert_eq!(tally.present, 6);
}

#[test]
fn ranking_a_tally_is_stable() {
    let values = strings(&["p", "q", "r", "s", "t"]);
    let counts = vec![1, 5, 1, 5, 3];
    let ranked = rank_frequencies(&values, &counts, 15);
    let shown: Vec<(String, usize)> =
        ranked.iter().map(|frequency| (frequency.value.clone(), frequency.count)).collect();
    assert_eq!(shown, pairs(&[("q", 5), ("s", 5), ("t", 3), ("p", 1), ("r", 1)]));
    for frequency in &ranked {
        assert_eq!(frequency.percentage, Percentage { part: frequency.count, whole: 15 });
    }
}
