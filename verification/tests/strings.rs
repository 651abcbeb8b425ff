use watchlist::strings::{contains, starts_with};

#[test]
fn a_text_begins_with_its_beginning() {
    assert!(starts_with("good movie", "good"));
    assert!(starts_with("good movie", "good movie"));
    assert!(starts_with("good movie", ""));
    assert!(starts_with("", ""));
}

#[test]
fn a_text_does_not_begin_with_anything_else() {
    assert!(!starts_with("good movie", "movie"));
    assert!(!starts_with("good", "good movie"));
    assert!(!starts_with("", "x"));
    assert!(!starts_with("Good", "good"));
}

#[test]
fn beginnings_are_compared_by_whole_characters() {
    assert!(starts_with("éclair", "é"));
    assert!(!starts_with("éclair", "e"));
    assert!(starts_with("日本語のメモ", "日本語"));
    assert!(!starts_with("日本語のメモ", "日本人"));
    assert!(!starts_with("é", "è"));
}

#[test]
fn a_text_contains_its_parts() {
    assert!(contains("the matrix reloaded", "matrix"));
    assert!(contains("the matrix reloaded", "the"));
    assert!(contains("the matrix reloaded", "reloaded"));
    assert!(contains("the matrix reloaded", "the matrix reloaded"));
    assert!(contains("the matrix reloaded", ""));
    assert!(contains("", ""));
    assert!(contains("aaab", "aab"));
}

#[test]
fn a_text_does_not_contain_anything_else() {
    assert!(!contains("the matrix", "matrix reloaded"));
    assert!(!contains("the matrix", "Matrix"));
    assert!(!contains("", "x"));
    assert!(!contains("abc", "abcd"));
    assert!(!contains("abab", "abb"));
}

#[test]
fn parts_are_found_by_whole_characters() {
    assert!(contains("crème brûlée", "brûlée"));
    assert!(contains("crème brûlée", "è"));
    assert!(contains("crème brûlée", "e b"));
    assert!(!contains("crème brûlée", "é b"));
    assert!(contains("日本語のメモ", "のメ"));
    assert!(!contains("日本語のメモ", "メの"));
}
