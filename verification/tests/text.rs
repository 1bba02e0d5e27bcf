use xerotop::order::sort_indices;
use xerotop::text::{contains, lex_le_exec, same_text, split_ranges, trim, trim_start};

#[test]
fn trim_removes_unicode_whitespace() {
    assert_eq!(trim("\u{3000}\t x y \u{a0}\n"), "x y");
    assert_eq!(trim("   "), "");
    assert_eq!(trim(""), "");
}

#[test]
fn trim_start_keeps_trailing_space() {
    assert_eq!(trim_start(" 9:05 PM "), "9:05 PM ");
}

#[test]
fn contains_finds_substrings() {
    let h: Vec<char> = "partly cloudy".chars().collect();
    assert!(contains(&h, "cloud"));
    assert!(contains(&h, ""));
    assert!(!contains(&h, "rain"));
    assert!(!contains(&h, "partly cloudy!"));
}

#[test]
fn code_point_order() {
    let a: Vec<char> = "B".chars().collect();
    let b: Vec<char> = "a".chars().collect();
    let c: Vec<char> = "ab".chars().collect();
    assert!(lex_le_exec(&a, &b));
    assert!(!lex_le_exec(&b, &a));
    assert!(lex_le_exec(&b, &c));
    assert!(!lex_le_exec(&c, &b));
    assert!(lex_le_exec(&c, &c));
}

#[test]
fn split_ranges_like_str_split() {
    let v: Vec<char> = "a||bc|".chars().collect();
    assert_eq!(split_ranges(&v, '|'), vec![(0, 1), (2, 2), (3, 5), (6, 6)]);
    let e: Vec<char> = Vec::new();
    assert_eq!(split_ranges(&e, '|'), vec![(0, 0)]);
}

#[test]
fn same_text_compares_characters() {
    assert!(same_text("color-scheme", "color-scheme"));
    assert!(!same_text("color-scheme", "color-schem"));
}

#[test]
fn sort_keeps_equal_keys_in_order() {
    let keys: Vec<Vec<char>> = ["b", "a", "b", "a", "c"].iter().map(|k| k.chars().collect()).collect();
    assert_eq!(sort_indices(&keys), vec![1, 3, 0, 2, 4]);
}
