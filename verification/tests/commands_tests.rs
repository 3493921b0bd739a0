use shellcore::commands::{
    cd_failure_message, cd_target, command_not_found, execute_builtin, execute_type, is_builtin,
    path_candidates, BuiltinReply, EnvContext,
};

fn args_of(words: &[&str]) -> Vec<String> {
    words.iter().map(|w| w.to_string()).collect()
}

fn env() -> EnvContext {
    EnvContext { cwd: "/work".to_string(), home: Some("/home/me".to_string()), resolved: None }
}

fn output_of(reply: BuiltinReply) -> Result<String, String> {
    match reply {
        BuiltinReply::Output(r) => r,
        BuiltinReply::ChangeDir(d) => panic!("expected output, got a directory change to {}", d),
    }
}

#[test]
fn test_echo() {
    let args = args_of(&["echo", "hello", "world"]);
    assert_eq!(output_of(execute_builtin("echo", &args, &env())), Ok("hello world\n".to_string()));
}

#[test]
fn test_type_builtin() {
    let args = args_of(&["type", "echo"]);
    assert!(output_of(execute_builtin("type", &args, &env())).unwrap().contains("builtin"));
}

#[test]
fn echo_without_arguments_prints_a_bare_newline() {
    let args = args_of(&["echo"]);
    assert_eq!(output_of(execute_builtin("echo", &args, &env())), Ok("\n".to_string()));
}

#[test]
fn pwd_reports_the_context_directory() {
    let args = args_of(&["pwd"]);
    assert_eq!(output_of(execute_builtin("pwd", &args, &env())), Ok("/work\n".to_string()));
}

#[test]
fn unknown_name_is_not_found() {
    let args = args_of(&["does_not_exist", "arg"]);
    assert_eq!(
        output_of(execute_builtin("does_not_exist", &args, &env())),
        Err("does_not_exist: command not found".to_string())
    );
    assert_eq!(
        command_not_found("does_not_exist"),
        "does_not_exist: command not found".to_string()
    );
}

#[test]
fn builtin_names_are_recognized() {
    for name in ["echo", "exit", "type", "pwd", "cd"] {
        assert!(is_builtin(name));
    }
    assert!(!is_builtin("ls"));
    assert!(!is_builtin(""));
}

#[test]
fn type_reports_resolved_path_or_not_found() {
    let args = args_of(&["type", "ls"]);
    assert_eq!(
        execute_type(&args, &Some("/bin/ls".to_string())),
        Ok("ls is /bin/ls\n".to_string())
    );
    assert_eq!(execute_type(&args, &None), Ok("ls: not found\n".to_string()));
    assert_eq!(
        execute_type(&args_of(&["type"]), &None),
        Ok("type: missing argument\n".to_string())
    );
}

#[test]
fn cd_picks_home_for_tilde_and_bare_cd() {
    let home = Some("/home/me".to_string());
    assert_eq!(cd_target(&args_of(&["cd"]), &home), Ok("/home/me".to_string()));
    assert_eq!(cd_target(&args_of(&["cd", "~"]), &home), Ok("/home/me".to_string()));
    assert_eq!(cd_target(&args_of(&["cd", "~/sub/dir"]), &home), Ok("/home/me/sub/dir".to_string()));
    assert_eq!(cd_target(&args_of(&["cd", "/etc"]), &home), Ok("/etc".to_string()));
}

#[test]
fn cd_without_home_is_an_error() {
    assert_eq!(cd_target(&args_of(&["cd"]), &None), Err("cd: HOME not set".to_string()));
    assert_eq!(cd_target(&args_of(&["cd", "~"]), &None), Err("cd: HOME not set".to_string()));
    assert_eq!(cd_target(&args_of(&["cd", "~/x"]), &None), Err("cd: HOME not set".to_string()));
}

#[test]
fn cd_through_the_dispatcher_requests_a_directory_change() {
    let args = args_of(&["cd", "/etc"]);
    match execute_builtin("cd", &args, &env()) {
        BuiltinReply::ChangeDir(d) => assert_eq!(d, "/etc"),
        BuiltinReply::Output(_) => panic!("expected a directory change"),
    }
    assert_eq!(
        cd_failure_message("/nope"),
        "cd: /nope: No such file or directory".to_string()
    );
}

#[test]
fn search_path_entries_become_candidates_in_order() {
    assert_eq!(
        path_candidates("/usr/bin:/bin", "ls"),
        vec!["/usr/bin/ls".to_string(), "/bin/ls".to_string()]
    );
    assert_eq!(path_candidates("", "ls"), vec!["/ls".to_string()]);
    assert_eq!(
        path_candidates("a::b", "x"),
        vec!["a/x".to_string(), "/x".to_string(), "b/x".to_string()]
    );
}
