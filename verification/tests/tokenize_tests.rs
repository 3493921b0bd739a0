use shellcore::tokenize::tokenize;

#[test]
fn test_simple_command() {
    assert_eq!(tokenize("echo hello"), vec!["echo", "hello"]);
}

#[test]
fn test_quoted_string() {
    assert_eq!(tokenize("echo \"hello world\""), vec!["echo", "hello world"]);
}

#[test]
fn test_redirection() {
    assert_eq!(tokenize("echo hi > file.txt"), vec!["echo", "hi", ">", "file.txt"]);
}

#[test]
fn single_quotes_keep_text_verbatim() {
    assert_eq!(tokenize("echo 'a  b' c"), vec!["echo", "a  b", "c"]);
}

#[test]
fn backslash_escapes_a_space() {
    assert_eq!(tokenize("echo a\\ b"), vec!["echo", "a b"]);
}

#[test]
fn backslash_escapes_inside_double_quotes() {
    assert_eq!(tokenize("echo \"a\\\"b\""), vec!["echo", "a\"b"]);
}

#[test]
fn trailing_backslash_is_dropped() {
    assert_eq!(tokenize("echo a\\"), vec!["echo", "a"]);
}

#[test]
fn plain_input_splits_on_whitespace_runs() {
    assert_eq!(tokenize("ls  -l\t foo"), vec!["ls", "-l", "foo"]);
    assert_eq!(tokenize("  a b  "), vec!["a", "b"]);
    assert_eq!(tokenize(""), Vec::<String>::new());
}

#[test]
fn append_operator_is_one_token() {
    assert_eq!(tokenize("echo hi >> log"), vec!["echo", "hi", ">>", "log"]);
}

#[test]
fn descriptor_digit_joins_the_operator() {
    assert_eq!(tokenize("cmd 2> err"), vec!["cmd", "2>", "err"]);
    assert_eq!(tokenize("cmd 2>> err"), vec!["cmd", "2>>", "err"]);
    assert_eq!(tokenize("cmd 1> out"), vec!["cmd", "1>", "out"]);
}

#[test]
fn operator_splits_adjacent_words() {
    assert_eq!(tokenize("echo hi>file"), vec!["echo", "hi", ">", "file"]);
}

#[test]
fn only_the_final_digit_joins_the_operator() {
    assert_eq!(tokenize("cmd a2> f"), vec!["cmd", "a", "2>", "f"]);
}

#[test]
fn quoted_operator_is_a_plain_word() {
    assert_eq!(tokenize("echo '>' \">>\""), vec!["echo", ">", ">>"]);
}

#[test]
fn unterminated_quote_is_not_an_error() {
    assert_eq!(tokenize("echo 'abc"), vec!["echo", "abc"]);
    assert_eq!(tokenize("echo \"a b"), vec!["echo", "a b"]);
}

#[test]
fn pipe_between_spaces_is_its_own_token() {
    assert_eq!(tokenize("a | b"), vec!["a", "|", "b"]);
}
