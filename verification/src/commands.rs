//! The builtin dispatcher: maps a command name to the text a builtin
//! produces, or to "not a builtin".
//!
//! The ambient process state the builtins read (current directory, home
//! directory, where the command search found a name) is passed in
//! explicitly as an [`EnvContext`], so every decision here is a pure,
//! verified function from plain values to plain values.  The one builtin
//! that changes interpreter state, `cd`, comes back as a [`BuiltinReply::ChangeDir`]
//! request; the caller performs the directory change and reports a failure
//! with [`cd_failure_message`].

use crate::strutil::{chars_to_string, push_char, str_eq};
use vstd::prelude::*;
use vstd::string::{StrSliceExecFns, StringExecFns};

verus! {

/// The environment values the dispatcher reads.
pub struct EnvContext {
    /// The current working directory, as the interpreter knows it.
    pub cwd: String,
    /// The home directory, if one is set.
    pub home: Option<String>,
    /// Where the command search found the name given to `type`, if
    /// anywhere.
    pub resolved: Option<String>,
}

/// What a builtin asks the interpreter to do.
pub enum BuiltinReply {
    /// Finished output or error text, ready to deliver.
    Output(Result<String, String>),
    /// The interpreter must change its working directory to this path.
    ChangeDir(String),
}

/// The mathematical image of a [`BuiltinReply`].
pub ghost enum BuiltinReplyModel {
    Output(Result<Seq<char>, Seq<char>>),
    ChangeDir(Seq<char>),
}

/// The views of both sides of a `Result` over strings.
pub open spec fn str_result_model(r: Result<String, String>) -> Result<Seq<char>, Seq<char>> {
    match r {
        Ok(s) => Ok(s@),
        Err(e) => Err(e@),
    }
}

impl View for BuiltinReply {
    type V = BuiltinReplyModel;

    open spec fn view(&self) -> BuiltinReplyModel {
        match self {
            BuiltinReply::Output(r) => BuiltinReplyModel::Output(str_result_model(*r)),
            BuiltinReply::ChangeDir(d) => BuiltinReplyModel::ChangeDir(d@),
        }
    }
}

/// The names implemented inside the interpreter rather than resolved to an
/// external executable.
pub open spec fn is_builtin_name(name: Seq<char>) -> bool {
    name == "echo"@ || name == "exit"@ || name == "type"@ || name == "pwd"@ || name == "cd"@
}

/// Decides [`is_builtin_name`].
pub fn is_builtin(name: &str) -> (r: bool)
    ensures
        r == is_builtin_name(name@),
{
    str_eq(name, "echo") || str_eq(name, "exit") || str_eq(name, "type") || str_eq(name, "pwd")
        || str_eq(name, "cd")
}

/// The words joined by single spaces.
pub open spec fn join_spaces(words: Seq<Seq<char>>) -> Seq<char>
    decreases words.len(),
{
    if words.len() == 0 {
        Seq::empty()
    } else if words.len() == 1 {
        words[0]
    } else {
        join_spaces(words.drop_last()) + seq![' '] + words.last()
    }
}

/// What `echo` prints: its arguments joined by spaces, with a final
/// newline.
pub open spec fn echo_output_spec(args: Seq<Seq<char>>) -> Seq<char>
    recommends
        args.len() >= 1,
{
    join_spaces(args.skip(1)) + seq!['\n']
}

/// Joins `args[from..]` with single spaces.
fn join_from(args: &Vec<String>, from: usize) -> (s: String)
    requires
        from <= args@.len(),
    ensures
        s@ == join_spaces(args.deep_view().skip(from as int)),
{
    let ghost dv = args.deep_view();
    let mut s = String::new();
    let mut j = from;
    proof {
        assert(dv.subrange(from as int, from as int) =~= Seq::<Seq<char>>::empty());
    }
    while j < args.len()
        invariant
            from <= j <= args@.len(),
            dv == args.deep_view(),
            s@ == join_spaces(dv.subrange(from as int, j as int)),
        decreases args@.len() - j,
    {
        let ghost before = dv.subrange(from as int, j as int);
        let ghost after = dv.subrange(from as int, j + 1);
        proof {
            assert(after.drop_last() =~= before);
            assert(after.last() == dv[j as int]);
        }
        if j > from {
            push_char(&mut s, ' ');
        }
        s.append(args[j].as_str());
        proof {
            if j == from {
                assert(s@ =~= after[0]);
                assert(s@ == join_spaces(after));
            } else {
                assert(s@ =~= join_spaces(before) + seq![' '] + dv[j as int]);
                assert(s@ == join_spaces(after));
            }
        }
        j = j + 1;
    }
    proof {
        assert(dv.subrange(from as int, dv.len() as int) =~= dv.skip(from as int));
    }
    s
}

/// The line `echo` produces for these arguments (`args[0]` is the command
/// name itself).
pub fn echo_line(args: &Vec<String>) -> (s: String)
    requires
        args@.len() >= 1,
    ensures
        s@ == echo_output_spec(args.deep_view()),
{
    let mut s = join_from(args, 1);
    push_char(&mut s, '\n');
    s
}

/// The directory `cd` should move to, or the error text when none can be
/// determined: no argument or a lone `~` mean the home directory, a
/// leading `~/` is replaced by the home directory, anything else is taken
/// as given.
pub open spec fn cd_target_spec(args: Seq<Seq<char>>, home: Option<Seq<char>>) -> Result<
    Seq<char>,
    Seq<char>,
> {
    if args.len() < 2 {
        match home {
            Some(h) => Ok(h),
            None => Err("cd: HOME not set"@),
        }
    } else {
        let a = args[1];
        if a == seq!['~'] {
            match home {
                Some(h) => Ok(h),
                None => Err("cd: HOME not set"@),
            }
        } else if a.len() >= 2 && a[0] == '~' && a[1] == '/' {
            match home {
                Some(h) => Ok(h + seq!['/'] + a.skip(2)),
                None => Err("cd: HOME not set"@),
            }
        } else {
            Ok(a)
        }
    }
}

/// Decides [`cd_target_spec`].
pub fn cd_target(args: &Vec<String>, home: &Option<String>) -> (r: Result<String, String>)
    ensures
        str_result_model(r) == cd_target_spec(args.deep_view(), home.deep_view()),
{
    if args.len() < 2 {
        match home {
            Some(h) => Ok(h.clone()),
            None => Err("cd: HOME not set".to_owned()),
        }
    } else {
        let a = &args[1];
        if str_eq(a.as_str(), "~") {
            proof {
                reveal_strlit("~");
                assert("~"@ =~= seq!['~']);
            }
            match home {
                Some(h) => Ok(h.clone()),
                None => Err("cd: HOME not set".to_owned()),
            }
        } else {
            proof {
                reveal_strlit("~");
                assert("~"@ =~= seq!['~']);
            }
            let n = a.unicode_len();
            if n >= 2 && a.get_char(0) == '~' && a.get_char(1) == '/' {
                match home {
                    Some(h) => {
                        let mut s = h.clone();
                        push_char(&mut s, '/');
                        let rest = a.as_str().substring_char(2, n);
                        s.append(rest);
                        proof {
                            assert(rest@ =~= a@.skip(2));
                            assert(s@ =~= h@ + seq!['/'] + a@.skip(2));
                        }
                        Ok(s)
                    },
                    None => Err("cd: HOME not set".to_owned()),
                }
            } else {
                Ok(a.clone())
            }
        }
    }
}

/// The message reported when the directory `cd` was asked to enter does
/// not exist.
pub fn cd_failure_message(dir: &str) -> (s: String)
    ensures
        s@ == "cd: "@ + dir@ + ": No such file or directory"@,
{
    let mut s = "cd: ".to_owned();
    s.append(dir);
    s.append(": No such file or directory");
    s
}

/// The message reported when a command name resolves to nothing.
pub fn command_not_found(name: &str) -> (s: String)
    ensures
        s@ == name@ + ": command not found"@,
{
    let mut s = name.to_owned();
    s.append(": command not found");
    s
}

/// What `type` prints for these arguments, given where (if anywhere) the
/// command search found the queried name.
pub open spec fn type_output_spec(args: Seq<Seq<char>>, resolved: Option<Seq<char>>) -> Seq<
    char,
> {
    if args.len() < 2 {
        "type: missing argument\n"@
    } else if is_builtin_name(args[1]) {
        args[1] + " is a shell builtin\n"@
    } else {
        match resolved {
            Some(p) => args[1] + " is "@ + p + seq!['\n'],
            None => args[1] + ": not found\n"@,
        }
    }
}

/// Reports whether a name is a builtin or where the command search found
/// it; `resolved` is the search's answer for `args[1]`.
pub fn execute_type(args: &Vec<String>, resolved: &Option<String>) -> (r: Result<String, String>)
    ensures
        r is Ok,
        r->Ok_0@ == type_output_spec(args.deep_view(), resolved.deep_view()),
{
    if args.len() < 2 {
        Ok("type: missing argument\n".to_owned())
    } else {
        let name = &args[1];
        if is_builtin(name.as_str()) {
            let mut s = name.clone();
            s.append(" is a shell builtin\n");
            Ok(s)
        } else {
            match resolved {
                Some(p) => {
                    let mut s = name.clone();
                    s.append(" is ");
                    s.append(p.as_str());
                    push_char(&mut s, '\n');
                    Ok(s)
                },
                None => {
                    let mut s = name.clone();
                    s.append(": not found\n");
                    Ok(s)
                },
            }
        }
    }
}

/// What the dispatcher replies for one command name: the order of the
/// arms matches the dispatch order of the interpreter.
pub open spec fn execute_builtin_spec(
    cmd: Seq<char>,
    args: Seq<Seq<char>>,
    home: Option<Seq<char>>,
    cwd: Seq<char>,
    resolved: Option<Seq<char>>,
) -> BuiltinReplyModel {
    if cmd == "pwd"@ {
        BuiltinReplyModel::Output(Ok(cwd + seq!['\n']))
    } else if cmd == "cd"@ {
        match cd_target_spec(args, home) {
            Ok(d) => BuiltinReplyModel::ChangeDir(d),
            Err(e) => BuiltinReplyModel::Output(Err(e)),
        }
    } else if cmd == "type"@ {
        BuiltinReplyModel::Output(Ok(type_output_spec(args, resolved)))
    } else if cmd == "echo"@ {
        BuiltinReplyModel::Output(Ok(echo_output_spec(args)))
    } else {
        BuiltinReplyModel::Output(Err(cmd + ": command not found"@))
    }
}

/// Executes a builtin command: the reply carries the output or error text,
/// or the directory change the interpreter must perform for `cd`.
pub fn execute_builtin(cmd: &str, args: &Vec<String>, env: &EnvContext) -> (r: BuiltinReply)
    requires
        args@.len() >= 1,
    ensures
        r@ == execute_builtin_spec(
            cmd@,
            args.deep_view(),
            env.home.deep_view(),
            env.cwd@,
            env.resolved.deep_view(),
        ),
{
    if str_eq(cmd, "pwd") {
        let mut out = env.cwd.clone();
        push_char(&mut out, '\n');
        proof {
            assert(out@ =~= env.cwd@ + seq!['\n']);
        }
        BuiltinReply::Output(Ok(out))
    } else if str_eq(cmd, "cd") {
        match cd_target(args, &env.home) {
            Ok(d) => BuiltinReply::ChangeDir(d),
            Err(e) => BuiltinReply::Output(Err(e)),
        }
    } else if str_eq(cmd, "type") {
        BuiltinReply::Output(execute_type(args, &env.resolved))
    } else if str_eq(cmd, "echo") {
        BuiltinReply::Output(Ok(echo_line(args)))
    } else {
        BuiltinReply::Output(Err(command_not_found(cmd)))
    }
}

/// Splitting a search-path value on `:`; empty entries are kept, and a
/// value with no separator is one entry.
pub open spec fn colon_split_step(s: Seq<char>, cur: Seq<char>, acc: Seq<Seq<char>>) -> Seq<
    Seq<char>,
>
    decreases s.len(),
{
    if s.len() == 0 {
        acc.push(cur)
    } else if s[0] == ':' {
        colon_split_step(s.skip(1), Seq::empty(), acc.push(cur))
    } else {
        colon_split_step(s.skip(1), cur.push(s[0]), acc)
    }
}

/// The entries of a colon-separated search-path value, in order.
pub open spec fn colon_split(s: Seq<char>) -> Seq<Seq<char>> {
    colon_split_step(s, Seq::empty(), Seq::empty())
}

/// `entry + "/" + command` for one search-path entry.
pub open spec fn candidate_of(entry: Seq<char>, command: Seq<char>) -> Seq<char> {
    entry + seq!['/'] + command
}

/// The full paths at which the command search looks for `command`, one per
/// entry of the colon-separated search-path value, in path order.  Which of
/// them exists as an executable file is for the caller to test.
pub fn path_candidates(path_var: &str, command: &str) -> (cands: Vec<String>)
    ensures
        cands.deep_view() == colon_split(path_var@).map_values(
            |e: Seq<char>| candidate_of(e, command@),
        ),
{
    let ghost f = |e: Seq<char>| candidate_of(e, command@);
    let n = path_var.unicode_len();
    let mut cands: Vec<String> = Vec::new();
    let mut cur: Vec<char> = Vec::new();
    let mut i: usize = 0;
    let ghost mut acc: Seq<Seq<char>> = Seq::empty();
    proof {
        assert(path_var@.skip(0) =~= path_var@);
        assert(cands.deep_view() =~= acc.map_values(f));
    }
    while i < n
        invariant
            n == path_var@.len(),
            i <= n,
            colon_split_step(path_var@.skip(i as int), cur@, acc) == colon_split(path_var@),
            cands.deep_view() == acc.map_values(|e: Seq<char>| candidate_of(e, command@)),
        decreases n - i,
    {
        let ghost pre = path_var@.skip(i as int);
        let ghost acc0 = acc;
        let ghost cur0 = cur@;
        let c = path_var.get_char(i);
        assert(pre[0] == c);
        if c == ':' {
            let mut cand = chars_to_string(&cur);
            push_char(&mut cand, '/');
            cand.append(command);
            let ghost cv = cand@;
            cands.push(cand);
            cur.clear();
            proof {
                acc = acc0.push(cur0);
                assert(cv =~= candidate_of(cur0, command@));
                assert(cands.deep_view() =~= acc0.map_values(
                    |e: Seq<char>| candidate_of(e, command@),
                ).push(cv));
                assert(acc0.map_values(|e: Seq<char>| candidate_of(e, command@)).push(cv)
                    =~= acc.map_values(|e: Seq<char>| candidate_of(e, command@)));
                assert(pre.skip(1) =~= path_var@.skip(i + 1));
            }
            i = i + 1;
        } else {
            cur.push(c);
            proof {
                assert(pre.skip(1) =~= path_var@.skip(i + 1));
            }
            i = i + 1;
        }
    }
    let mut cand = chars_to_string(&cur);
    push_char(&mut cand, '/');
    cand.append(command);
    let ghost cv = cand@;
    cands.push(cand);
    proof {
        assert(path_var@.skip(i as int) =~= Seq::<char>::empty());
        assert(cv =~= candidate_of(cur@, command@));
        assert(cands.deep_view() =~= acc.map_values(
            |e: Seq<char>| candidate_of(e, command@),
        ).push(cv));
        assert(acc.map_values(|e: Seq<char>| candidate_of(e, command@)).push(cv)
            =~= acc.push(cur@).map_values(|e: Seq<char>| candidate_of(e, command@)));
    }
    cands
}

} // verus!
