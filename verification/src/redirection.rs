//! Converts a flat token sequence into a structured command: positional
//! arguments plus at most one stdout redirection and one stderr redirection.
//!
//! A token equal to `>` or `1>` sets the stdout redirection in truncate
//! mode, `>>`/`1>>` in append mode; `2>`/`2>>` do the same for stderr.  The
//! token after the operator is the target and both are consumed.  An
//! operator that is the last token (so no target follows it) is silently
//! dropped; a redirection recorded earlier for its stream stays as it was.
//! A later operator for the same stream overwrites an earlier one: last
//! redirect wins.

use crate::commands::{is_builtin, is_builtin_name, str_result_model};
use crate::strutil::str_eq;
use vstd::prelude::*;
use vstd::string::StrSliceExecFns;

verus! {

/// Where one output stream of a command is sent: a target file, either
/// truncated or appended to.
#[derive(Debug, Clone)]
pub struct Redirection {
    pub file: String,
    pub append: bool,
}

/// The mathematical image of a [`Redirection`].
pub ghost struct RedirectionModel {
    pub file: Seq<char>,
    pub append: bool,
}

impl View for Redirection {
    type V = RedirectionModel;

    open spec fn view(&self) -> RedirectionModel {
        RedirectionModel { file: self.file@, append: self.append }
    }
}

impl DeepView for Redirection {
    type V = RedirectionModel;

    open spec fn deep_view(&self) -> RedirectionModel {
        self.view()
    }
}

/// A parsed command: its arguments (the first one names the command) and
/// its optional per-stream redirections.
#[derive(Debug)]
pub struct ParsedCommand {
    pub args: Vec<String>,
    pub redirect_stdout: Option<Redirection>,
    pub redirect_stderr: Option<Redirection>,
}

/// The mathematical image of a [`ParsedCommand`].
pub ghost struct CommandModel {
    pub args: Seq<Seq<char>>,
    pub redirect_stdout: Option<RedirectionModel>,
    pub redirect_stderr: Option<RedirectionModel>,
}

impl View for ParsedCommand {
    type V = CommandModel;

    open spec fn view(&self) -> CommandModel {
        CommandModel {
            args: self.args.deep_view(),
            redirect_stdout: self.redirect_stdout.deep_view(),
            redirect_stderr: self.redirect_stderr.deep_view(),
        }
    }
}

impl DeepView for ParsedCommand {
    type V = CommandModel;

    open spec fn deep_view(&self) -> CommandModel {
        self.view()
    }
}

impl Default for ParsedCommand {
    /// An empty command: no arguments, no redirections.
    fn default() -> (d: Self)
        ensures
            d@.args.len() == 0,
            d@.redirect_stdout is None,
            d@.redirect_stderr is None,
    {
        let d = ParsedCommand { args: Vec::new(), redirect_stdout: None, redirect_stderr: None };
        proof {
            assert(d@.args =~= Seq::<Seq<char>>::empty());
        }
        d
    }
}

/// A stdout redirection operator in truncate mode.
pub open spec fn is_out_trunc(t: Seq<char>) -> bool {
    t == seq!['>'] || t == seq!['1', '>']
}

/// A stdout redirection operator in append mode.
pub open spec fn is_out_append(t: Seq<char>) -> bool {
    t == seq!['>', '>'] || t == seq!['1', '>', '>']
}

/// A stderr redirection operator in truncate mode.
pub open spec fn is_err_trunc(t: Seq<char>) -> bool {
    t == seq!['2', '>']
}

/// A stderr redirection operator in append mode.
pub open spec fn is_err_append(t: Seq<char>) -> bool {
    t == seq!['2', '>', '>']
}

/// Any stdout redirection operator.
pub open spec fn is_stdout_op(t: Seq<char>) -> bool {
    is_out_trunc(t) || is_out_append(t)
}

/// Any stderr redirection operator.
pub open spec fn is_stderr_op(t: Seq<char>) -> bool {
    is_err_trunc(t) || is_err_append(t)
}

/// Any redirection operator.
pub open spec fn is_redirect_op(t: Seq<char>) -> bool {
    is_stdout_op(t) || is_stderr_op(t)
}

/// The pipe separator token.
pub open spec fn is_pipe_token(t: Seq<char>) -> bool {
    t == seq!['|']
}

/// Decides [`is_out_trunc`].
pub fn out_trunc(t: &str) -> (r: bool)
    ensures
        r == is_out_trunc(t@),
{
    let n = t.unicode_len();
    if n == 1 && t.get_char(0) == '>' {
        proof {
            assert(t@ =~= seq!['>']);
        }
        true
    } else if n == 2 && t.get_char(0) == '1' && t.get_char(1) == '>' {
        proof {
            assert(t@ =~= seq!['1', '>']);
        }
        true
    } else {
        false
    }
}

/// Decides [`is_out_append`].
pub fn out_append(t: &str) -> (r: bool)
    ensures
        r == is_out_append(t@),
{
    let n = t.unicode_len();
    if n == 2 && t.get_char(0) == '>' && t.get_char(1) == '>' {
        proof {
            assert(t@ =~= seq!['>', '>']);
        }
        true
    } else if n == 3 && t.get_char(0) == '1' && t.get_char(1) == '>' && t.get_char(2) == '>' {
        proof {
            assert(t@ =~= seq!['1', '>', '>']);
        }
        true
    } else {
        false
    }
}

/// Decides [`is_err_trunc`].
pub fn err_trunc(t: &str) -> (r: bool)
    ensures
        r == is_err_trunc(t@),
{
    let n = t.unicode_len();
    if n == 2 && t.get_char(0) == '2' && t.get_char(1) == '>' {
        proof {
            assert(t@ =~= seq!['2', '>']);
        }
        true
    } else {
        false
    }
}

/// Decides [`is_err_append`].
pub fn err_append(t: &str) -> (r: bool)
    ensures
        r == is_err_append(t@),
{
    let n = t.unicode_len();
    if n == 3 && t.get_char(0) == '2' && t.get_char(1) == '>' && t.get_char(2) == '>' {
        proof {
            assert(t@ =~= seq!['2', '>', '>']);
        }
        true
    } else {
        false
    }
}

/// Decides [`is_pipe_token`].
pub fn pipe_token(t: &str) -> (r: bool)
    ensures
        r == is_pipe_token(t@),
{
    let n = t.unicode_len();
    if n == 1 && t.get_char(0) == '|' {
        proof {
            assert(t@ =~= seq!['|']);
        }
        true
    } else {
        false
    }
}

/// One scan step of the redirection parser over the remaining tokens, with
/// `args`, `out` and `err` the state gathered so far.  A redirection
/// operator records the following token as the target of its stream
/// (overwriting whatever was recorded before) and consumes both; an
/// operator with no token after it is silently dropped, leaving the
/// stream's earlier redirection unchanged; every other token is an
/// argument.
pub open spec fn parse_step(
    toks: Seq<Seq<char>>,
    args: Seq<Seq<char>>,
    out: Option<RedirectionModel>,
    err: Option<RedirectionModel>,
) -> CommandModel
    decreases toks.len(),
{
    if toks.len() == 0 {
        CommandModel { args, redirect_stdout: out, redirect_stderr: err }
    } else {
        let t = toks[0];
        if is_stdout_op(t) {
            let newout = if toks.len() >= 2 {
                Some(RedirectionModel { file: toks[1], append: is_out_append(t) })
            } else {
                out
            };
            let rest = if toks.len() >= 2 {
                toks.skip(2)
            } else {
                Seq::empty()
            };
            parse_step(rest, args, newout, err)
        } else if is_stderr_op(t) {
            let newerr = if toks.len() >= 2 {
                Some(RedirectionModel { file: toks[1], append: is_err_append(t) })
            } else {
                err
            };
            let rest = if toks.len() >= 2 {
                toks.skip(2)
            } else {
                Seq::empty()
            };
            parse_step(rest, args, out, newerr)
        } else {
            parse_step(toks.skip(1), args.push(t), out, err)
        }
    }
}

/// The structured command described by a token sequence.
pub open spec fn parse_command_spec(toks: Seq<Seq<char>>) -> CommandModel {
    parse_step(toks, Seq::empty(), None, None)
}

/// Parses tokens into a [`ParsedCommand`], extracting redirection
/// operators.
pub fn parse_command(tokens: Vec<String>) -> (parsed: ParsedCommand)
    ensures
        parsed@ == parse_command_spec(tokens.deep_view()),
{
    let ghost toks = tokens.deep_view();
    let mut args: Vec<String> = Vec::new();
    let mut redirect_stdout: Option<Redirection> = None;
    let mut redirect_stderr: Option<Redirection> = None;
    let mut i: usize = 0;
    proof {
        assert(toks.skip(0) =~= toks);
        assert(args.deep_view() =~= Seq::<Seq<char>>::empty());
    }
    while i < tokens.len()
        invariant
            i <= tokens.len(),
            toks == tokens.deep_view(),
            parse_step(
                toks.skip(i as int),
                args.deep_view(),
                redirect_stdout.deep_view(),
                redirect_stderr.deep_view(),
            ) == parse_command_spec(toks),
        decreases tokens.len() - i,
    {
        let ghost pre = toks.skip(i as int);
        let ghost args0 = args.deep_view();
        assert(pre[0] == tokens@[i as int]@);
        let o_trunc = out_trunc(tokens[i].as_str());
        let o_app = out_append(tokens[i].as_str());
        let e_trunc = err_trunc(tokens[i].as_str());
        let e_app = err_append(tokens[i].as_str());
        if o_trunc || o_app {
            if i + 1 < tokens.len() {
                redirect_stdout = Some(
                    Redirection { file: tokens[i + 1].clone(), append: o_app },
                );
                proof {
                    assert(pre[1] == toks[i + 1]);
                    assert(pre.skip(2) =~= toks.skip(i + 2));
                }
                i = i + 2;
            } else {
                // no target follows: the operator is dropped
                proof {
                    assert(toks.skip(i + 1) =~= Seq::<Seq<char>>::empty());
                }
                i = i + 1;
            }
        } else if e_trunc || e_app {
            if i + 1 < tokens.len() {
                redirect_stderr = Some(
                    Redirection { file: tokens[i + 1].clone(), append: e_app },
                );
                proof {
                    assert(pre[1] == toks[i + 1]);
                    assert(pre.skip(2) =~= toks.skip(i + 2));
                }
                i = i + 2;
            } else {
                // no target follows: the operator is dropped
                proof {
                    assert(toks.skip(i + 1) =~= Seq::<Seq<char>>::empty());
                }
                i = i + 1;
            }
        } else {
            args.push(tokens[i].clone());
            proof {
                assert(args.deep_view() =~= args0.push(pre[0]));
                assert(pre.skip(1) =~= toks.skip(i + 1));
            }
            i = i + 1;
        }
    }
    proof {
        assert(toks.skip(tokens@.len() as int) =~= Seq::<Seq<char>>::empty());
    }
    ParsedCommand { args, redirect_stdout, redirect_stderr }
}

/// One delivery action for a finished builtin's output or error text.
pub enum OutputAction {
    /// Write this text to the file, truncating or appending.
    WriteFile { file: String, append: bool, content: String },
    /// Create the file (truncating it unless in append mode) and write
    /// nothing.
    TouchFile { file: String, append: bool },
    /// Print this text to the interpreter's own standard output, flushing
    /// immediately when asked to.
    PrintOut { content: String, flush: bool },
    /// Print this text to the interpreter's own standard error.
    PrintErr { content: String },
    /// Nothing to deliver on this stream.
    Silent,
}

/// How a finished builtin's output and error text must be delivered.
pub struct OutputPlan {
    pub stdout: OutputAction,
    pub stderr: OutputAction,
}

/// The one delivery action correct for the stdout stream: with a stdout
/// redirection, non-empty output text is written to the target and empty
/// output still creates or truncates the target; without one, non-empty
/// output of a successful command is printed (flushed at once for
/// `clear`), and errors or empty output print nothing here.
pub open spec fn stdout_action_matches(
    result: Result<Seq<char>, Seq<char>>,
    cmd: CommandModel,
    act: OutputAction,
) -> bool {
    match cmd.redirect_stdout {
        Some(r) => {
            let out = match result {
                Ok(s) => s,
                Err(_) => Seq::empty(),
            };
            if out.len() > 0 {
                act matches OutputAction::WriteFile { file, append, content } && file@ == r.file
                    && append == r.append && content@ == out
            } else {
                act matches OutputAction::TouchFile { file, append } && file@ == r.file && append
                    == r.append
            }
        },
        None => match result {
            Ok(out) => if out.len() > 0 {
                act matches OutputAction::PrintOut { content, flush } && content@ == out && flush
                    == (cmd.args[0] == "clear"@)
            } else {
                act is Silent
            },
            Err(_) => act is Silent,
        },
    }
}

/// The one delivery action correct for the stderr stream: a stderr
/// redirection of a builtin command receives the error text (or is
/// created empty on success); a stderr redirection of an external command
/// is applied at spawn time, not here; without a redirection the error
/// text is printed to standard error.
pub open spec fn stderr_action_matches(
    result: Result<Seq<char>, Seq<char>>,
    cmd: CommandModel,
    act: OutputAction,
) -> bool {
    match cmd.redirect_stderr {
        Some(r) => if is_builtin_name(cmd.args[0]) {
            match result {
                Err(e) => act matches OutputAction::WriteFile { file, append, content } && file@
                    == r.file && append == r.append && content@ == e,
                Ok(_) => act matches OutputAction::TouchFile { file, append } && file@ == r.file
                    && append == r.append,
            }
        } else {
            act is Silent
        },
        None => match result {
            Err(e) => act matches OutputAction::PrintErr { content } && content@ == e,
            Ok(_) => act is Silent,
        },
    }
}

/// Decides how a builtin's result is delivered, honoring the command's
/// redirections.  The caller performs the file writes and prints.
pub fn plan_output(result: &Result<String, String>, parsed: &ParsedCommand) -> (p: OutputPlan)
    requires
        parsed@.args.len() >= 1,
    ensures
        stdout_action_matches(str_result_model(*result), parsed@, p.stdout),
        stderr_action_matches(str_result_model(*result), parsed@, p.stderr),
{
    let stdout_act = match &parsed.redirect_stdout {
        Some(r) => {
            let content = match result {
                Ok(s) => s.clone(),
                Err(_) => String::new(),
            };
            if !content.as_str().is_empty() {
                OutputAction::WriteFile { file: r.file.clone(), append: r.append, content }
            } else {
                OutputAction::TouchFile { file: r.file.clone(), append: r.append }
            }
        },
        None => match result {
            Ok(out) => if !out.as_str().is_empty() {
                let flush = str_eq(parsed.args[0].as_str(), "clear");
                OutputAction::PrintOut { content: out.clone(), flush }
            } else {
                OutputAction::Silent
            },
            Err(_) => OutputAction::Silent,
        },
    };
    let stderr_act = match &parsed.redirect_stderr {
        Some(r) => if is_builtin(parsed.args[0].as_str()) {
            match result {
                Err(e) => OutputAction::WriteFile {
                    file: r.file.clone(),
                    append: r.append,
                    content: e.clone(),
                },
                Ok(_) => OutputAction::TouchFile { file: r.file.clone(), append: r.append },
            }
        } else {
            OutputAction::Silent
        },
        None => match result {
            Err(e) => OutputAction::PrintErr { content: e.clone() },
            Ok(_) => OutputAction::Silent,
        },
    };
    OutputPlan { stdout: stdout_act, stderr: stderr_act }
}

proof fn lemma_parse_step_args(
    s: Seq<Seq<char>>,
    rest: Seq<Seq<char>>,
    args: Seq<Seq<char>>,
    out: Option<RedirectionModel>,
    err: Option<RedirectionModel>,
)
    requires
        forall|i: int| 0 <= i < s.len() ==> !is_redirect_op(#[trigger] s[i]),
    ensures
        parse_step(s + rest, args, out, err) == parse_step(rest, args + s, out, err),
    decreases s.len(),
{
    if s.len() == 0 {
        assert(s + rest =~= rest);
        assert(args + s =~= args);
    } else {
        assert((s + rest)[0] == s[0]);
        assert((s + rest).skip(1) =~= s.skip(1) + rest);
        lemma_parse_step_args(s.skip(1), rest, args.push(s[0]), out, err);
        assert(args.push(s[0]) + s.skip(1) =~= args + s);
    }
}

/// Two occurrences of a stdout redirection operator in one command: only
/// the later target and mode are kept (last redirect wins).  The token
/// groups `a`, `b` and `c` around the two operators may be any tokens that
/// are not themselves redirection operators.
pub proof fn lemma_last_stdout_redirect_wins(
    a: Seq<Seq<char>>,
    op1: Seq<char>,
    t1: Seq<char>,
    b: Seq<Seq<char>>,
    op2: Seq<char>,
    t2: Seq<char>,
    c: Seq<Seq<char>>,
)
    requires
        is_stdout_op(op1),
        is_stdout_op(op2),
        forall|i: int| 0 <= i < a.len() ==> !is_redirect_op(#[trigger] a[i]),
        forall|i: int| 0 <= i < b.len() ==> !is_redirect_op(#[trigger] b[i]),
        forall|i: int| 0 <= i < c.len() ==> !is_redirect_op(#[trigger] c[i]),
    ensures
        parse_command_spec(a + seq![op1, t1] + b + seq![op2, t2] + c).redirect_stdout == Some(
            RedirectionModel { file: t2, append: is_out_append(op2) },
        ),
{
    let whole = a + seq![op1, t1] + b + seq![op2, t2] + c;
    let rest1 = seq![op1, t1] + b + seq![op2, t2] + c;
    assert(whole =~= a + rest1);
    lemma_parse_step_args(a, rest1, Seq::empty(), None, None);
    let r1 = RedirectionModel { file: t1, append: is_out_append(op1) };
    assert(rest1[0] == op1);
    assert(rest1[1] == t1);
    assert(rest1.skip(2) =~= b + (seq![op2, t2] + c));
    lemma_parse_step_args(b, seq![op2, t2] + c, Seq::empty() + a, Some(r1), None);
    let rest2 = seq![op2, t2] + c;
    let r2 = RedirectionModel { file: t2, append: is_out_append(op2) };
    assert(rest2[0] == op2);
    assert(rest2[1] == t2);
    assert(rest2.skip(2) =~= c + Seq::<Seq<char>>::empty());
    lemma_parse_step_args(
        c,
        Seq::empty(),
        (Seq::empty() + a) + b,
        Some(r2),
        None,
    );
}

} // verus!
