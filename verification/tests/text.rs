use test_cdylib::text::{chain, contains, join, rfind, same, split};

fn list(words: &[&str]) -> Vec<String> {
    words.iter().map(|w| w.to_string()).collect()
}

#[test]
fn join_with_commas() {
    assert_eq!(join(&list(&["a", "b", "c"]), ","), "a,b,c");
    assert_eq!(join(&list(&["only"]), ","), "only");
    assert_eq!(join(&list(&[]), ","), "");
}

#[test]
fn join_keeps_empty_words() {
    assert_eq!(join(&list(&["", "x", ""]), ","), ",x,");
    assert_eq!(join(&list(&["", ""]), ", "), ", ");
}

#[test]
fn join_with_longer_separator() {
    assert_eq!(join(&list(&["x", "y"]), " and "), "x and y");
    assert_eq!(join(&list(&["x", "y"]), ""), "xy");
}

#[test]
fn split_on_spaces() {
    assert_eq!(split("-C opt-level=3", ' '), list(&["-C", "opt-level=3"]));
    assert_eq!(split("one", ' '), list(&["one"]));
}

#[test]
fn split_leaves_out_empty_words() {
    assert_eq!(split("  a   b ", ' '), list(&["a", "b"]));
    assert_eq!(split("", ' '), list(&[]));
    assert_eq!(split("   ", ' '), list(&[]));
    assert_eq!(split(" x", ' '), list(&["x"]));
    assert_eq!(split("x ", ' '), list(&["x"]));
}

#[test]
fn split_counts_characters_not_bytes() {
    assert_eq!(split("é ü", ' '), list(&["é", "ü"]));
    assert_eq!(split("a,ß,c", ','), list(&["a", "ß", "c"]));
}

#[test]
fn rfind_last_place() {
    assert_eq!(rfind("a/b/c", '/'), Some(3));
    assert_eq!(rfind("/", '/'), Some(0));
    assert_eq!(rfind("abc", '/'), None);
    assert_eq!(rfind("", '/'), None);
    assert_eq!(rfind("é.ü", '.'), Some(1));
}

#[test]
fn contains_whole_words_only() {
    let words = list(&["alpha", "beta"]);
    assert!(contains(&words, "alpha"));
    assert!(contains(&words, "beta"));
    assert!(!contains(&words, "alph"));
    assert!(!contains(&words, ""));
    assert!(!contains(&list(&[]), "alpha"));
}

#[test]
fn same_and_concat() {
    assert!(same("abc", "abc"));
    assert!(!same("abc", "abd"));
    assert!(!same("abc", "ab"));
    assert_eq!(chain("ab", "cd"), "abcd");
    assert_eq!(chain("", ""), "");
}
