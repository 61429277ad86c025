use itertools::Itertools;
use rahmen::text::{contains_text, drop_empty, join, unique};

fn strings(parts: &[&str]) -> Vec<String> {
    parts.iter().map(|s| s.to_string()).collect()
}

#[test]
fn join_puts_separator_between_neighbours() {
    assert_eq!(join(&strings(&["a", "b", "c"]), " | "), "a | b | c");
}

#[test]
fn join_of_nothing_is_empty() {
    assert_eq!(join(&strings(&[]), " | "), "");
}

#[test]
fn join_of_one_token_has_no_separator() {
    assert_eq!(join(&strings(&["only"]), " | "), "only");
}

#[test]
fn join_keeps_empty_tokens_and_untrimmed_separator() {
    assert_eq!(join(&strings(&["", ""]), "  -  "), "  -  ");
    assert_eq!(join(&strings(&["a", "", "b"]), ","), "a,,b");
}

#[test]
fn join_length_is_tokens_plus_separators() {
    let parts = strings(&["ab", "", "cde", "f"]);
    let sep = " | ";
    let line = join(&parts, sep);
    let total: usize = parts.iter().map(|p| p.chars().count()).sum();
    assert_eq!(line.chars().count(), total + (parts.len() - 1) * sep.chars().count());
    assert_eq!(line.chars().count(), 6 + 3 * 3);
}

#[test]
fn drop_empty_keeps_order_of_the_rest() {
    assert_eq!(drop_empty(strings(&["", "a", "", "b", ""])), strings(&["a", "b"]));
    assert_eq!(drop_empty(strings(&["", ""])), strings(&[]));
    assert_eq!(drop_empty(strings(&[" "])), strings(&[" "]));
}

#[test]
fn unique_keeps_first_seen_order() {
    assert_eq!(
        unique(strings(&["b", "a", "b", "c", "a", "b"])),
        strings(&["b", "a", "c"])
    );
}

#[test]
fn unique_compares_exact_strings() {
    assert_eq!(
        unique(strings(&["Berlin", "berlin", "Berlin ", "Berlin"])),
        strings(&["Berlin", "berlin", "Berlin "])
    );
}

#[test]
fn unique_keeps_one_empty_token() {
    assert_eq!(unique(strings(&["", "x", ""])), strings(&["", "x"]));
}

#[test]
fn unique_has_no_duplicates_and_loses_nothing() {
    let parts = strings(&["x", "y", "x", "z", "z", "y", "w"]);
    let kept = unique(parts.clone());
    for (i, a) in kept.iter().enumerate() {
        for (j, b) in kept.iter().enumerate() {
            assert!(i == j || a != b);
        }
    }
    for p in &parts {
        assert!(contains_text(&kept, p));
    }
    for k in &kept {
        assert!(contains_text(&parts, k));
    }
}

#[test]
fn contains_text_finds_only_what_is_there() {
    let parts = strings(&["one", "two"]);
    assert!(contains_text(&parts, &"two".to_string()));
    assert!(!contains_text(&parts, &"three".to_string()));
    assert!(!contains_text(&strings(&[]), &"".to_string()));
}

#[test]
fn unique_and_join_agree_with_itertools() {
    let cases: Vec<Vec<String>> = vec![
        strings(&[]),
        strings(&[""]),
        strings(&["a"]),
        strings(&["a", "a"]),
        strings(&["a", "", "b", "", "a", "c", "b"]),
        strings(&["Zürich", "Genève", "Zürich"]),
    ];
    for parts in cases {
        let expected_unique: Vec<String> = parts.iter().cloned().unique().collect();
        assert_eq!(unique(parts.clone()), expected_unique);
        let expected_join = parts.iter().join(" | ");
        assert_eq!(join(&parts, " | "), expected_join);
        let expected_all = parts
            .iter()
            .filter(|x| !x.is_empty())
            .unique()
            .join(", ");
        assert_eq!(join(&unique(drop_empty(parts.clone())), ", "), expected_all);
    }
}
