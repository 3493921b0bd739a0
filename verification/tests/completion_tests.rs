use shellcore::completion::{completing_first_word, extract_word, filter_prefix, starts_with_word};

#[test]
fn extract_word_finds_the_word_under_the_cursor() {
    assert_eq!(extract_word("echo hel", 8), (5, "hel".to_string()));
    assert_eq!(extract_word("ech", 3), (0, "ech".to_string()));
    assert_eq!(extract_word("echo ", 5), (5, String::new()));
    assert_eq!(extract_word("", 0), (0, String::new()));
}

#[test]
fn extract_word_ignores_text_after_the_cursor() {
    assert_eq!(extract_word("echo hello", 7), (5, "he".to_string()));
}

#[test]
fn first_word_detection_counts_words_before_the_cursor() {
    assert!(completing_first_word("ech", 3));
    assert!(completing_first_word("", 0));
    assert!(completing_first_word("echo", 4));
    assert!(!completing_first_word("echo h", 6));
    assert!(!completing_first_word("echo hello world", 10));
}

#[test]
fn prefix_matching_is_exact() {
    assert!(starts_with_word("echo", "ec"));
    assert!(starts_with_word("echo", ""));
    assert!(starts_with_word("echo", "echo"));
    assert!(!starts_with_word("echo", "echoo"));
    assert!(!starts_with_word("echo", "x"));
}

#[test]
fn candidates_are_filtered_by_prefix_in_order() {
    let cands: Vec<String> =
        ["echo", "exit", "env", "cat"].iter().map(|s| s.to_string()).collect();
    assert_eq!(filter_prefix(&cands, "e"), vec!["echo", "exit", "env"]);
    assert_eq!(filter_prefix(&cands, "ec"), vec!["echo"]);
    assert_eq!(filter_prefix(&cands, "z"), Vec::<String>::new());
}
