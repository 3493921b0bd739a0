use shellcore::redirection::{parse_command, plan_output, OutputAction, ParsedCommand};

fn toks(words: &[&str]) -> Vec<String> {
    words.iter().map(|w| w.to_string()).collect()
}

#[test]
fn test_parse_stdout_redirect() {
    let parsed = parse_command(toks(&["echo", "hi", ">", "out.txt"]));
    assert_eq!(parsed.args, vec!["echo", "hi"]);
    assert!(parsed.redirect_stdout.is_some());
    assert_eq!(parsed.redirect_stdout.unwrap().file, "out.txt");
}

#[test]
fn test_parse_stderr_redirect() {
    let parsed = parse_command(toks(&["ls", "2>", "err.txt"]));
    assert!(parsed.redirect_stderr.is_some());
}

#[test]
fn stderr_redirect_parses_exactly() {
    let parsed = parse_command(toks(&["ls", "2>", "err.txt"]));
    assert_eq!(parsed.args, vec!["ls"]);
    let err = parsed.redirect_stderr.unwrap();
    assert_eq!(err.file, "err.txt");
    assert!(!err.append);
    assert!(parsed.redirect_stdout.is_none());
}

#[test]
fn append_operators_set_append_mode() {
    let parsed = parse_command(toks(&["c", ">>", "a", "2>>", "b"]));
    let out = parsed.redirect_stdout.unwrap();
    assert_eq!(out.file, "a");
    assert!(out.append);
    let err = parsed.redirect_stderr.unwrap();
    assert_eq!(err.file, "b");
    assert!(err.append);
}

#[test]
fn last_stdout_redirect_wins() {
    let parsed = parse_command(toks(&["echo", ">", "first", ">>", "second"]));
    assert_eq!(parsed.args, vec!["echo"]);
    let out = parsed.redirect_stdout.unwrap();
    assert_eq!(out.file, "second");
    assert!(out.append);
}

#[test]
fn trailing_operator_is_silently_dropped() {
    let parsed = parse_command(toks(&["echo", ">"]));
    assert_eq!(parsed.args, vec!["echo"]);
    assert!(parsed.redirect_stdout.is_none());

    let parsed = parse_command(toks(&["echo", ">", "kept", ">"]));
    let out = parsed.redirect_stdout.unwrap();
    assert_eq!(out.file, "kept");
    assert!(!out.append);

    let parsed = parse_command(toks(&["ls", "2>", "err", "2>>"]));
    let err = parsed.redirect_stderr.unwrap();
    assert_eq!(err.file, "err");
    assert!(!err.append);
}

#[test]
fn plan_writes_output_to_redirect_target() {
    let parsed = parse_command(toks(&["echo", "hi", ">", "out.txt"]));
    let plan = plan_output(&Ok("hi\n".to_string()), &parsed);
    match plan.stdout {
        OutputAction::WriteFile { file, append, content } => {
            assert_eq!(file, "out.txt");
            assert!(!append);
            assert_eq!(content, "hi\n");
        }
        _ => panic!("expected a file write"),
    }
    assert!(matches!(plan.stderr, OutputAction::Silent));
}

#[test]
fn plan_touches_target_for_empty_output() {
    let parsed = parse_command(toks(&["cd", "/", ">>", "out.txt"]));
    let plan = plan_output(&Ok(String::new()), &parsed);
    match plan.stdout {
        OutputAction::TouchFile { file, append } => {
            assert_eq!(file, "out.txt");
            assert!(append);
        }
        _ => panic!("expected the file to be created without content"),
    }
}

#[test]
fn plan_prints_unredirected_output_and_flushes_clear() {
    let parsed = parse_command(toks(&["echo", "hi"]));
    let plan = plan_output(&Ok("hi\n".to_string()), &parsed);
    match plan.stdout {
        OutputAction::PrintOut { content, flush } => {
            assert_eq!(content, "hi\n");
            assert!(!flush);
        }
        _ => panic!("expected output printed to the terminal"),
    }

    let parsed = parse_command(toks(&["clear"]));
    let plan = plan_output(&Ok("x".to_string()), &parsed);
    match plan.stdout {
        OutputAction::PrintOut { flush, .. } => assert!(flush),
        _ => panic!("expected output printed to the terminal"),
    }
}

#[test]
fn plan_routes_builtin_error_to_stderr_redirect() {
    let parsed = parse_command(toks(&["cd", "/nope", "2>", "err.txt"]));
    let plan = plan_output(&Err("cd: /nope: No such file or directory".to_string()), &parsed);
    match plan.stderr {
        OutputAction::WriteFile { file, append, content } => {
            assert_eq!(file, "err.txt");
            assert!(!append);
            assert_eq!(content, "cd: /nope: No such file or directory");
        }
        _ => panic!("expected the error written to the redirect target"),
    }
    assert!(matches!(plan.stdout, OutputAction::Silent));
}

#[test]
fn plan_prints_unredirected_error() {
    let parsed = parse_command(toks(&["cd", "/nope"]));
    let plan = plan_output(&Err("cd: /nope: No such file or directory".to_string()), &parsed);
    match plan.stderr {
        OutputAction::PrintErr { content } => {
            assert_eq!(content, "cd: /nope: No such file or directory");
        }
        _ => panic!("expected the error printed to standard error"),
    }
}

#[test]
fn plan_leaves_external_stderr_redirect_to_spawn() {
    let parsed = parse_command(toks(&["ls", "2>", "err.txt"]));
    let plan = plan_output(&Ok(String::new()), &parsed);
    assert!(matches!(plan.stderr, OutputAction::Silent));
}

#[test]
fn default_command_is_empty() {
    let d = ParsedCommand::default();
    assert!(d.args.is_empty());
    assert!(d.redirect_stdout.is_none());
    assert!(d.redirect_stderr.is_none());
}
