//! Divides a token sequence at pipe separators into a pipeline of
//! structured commands, and takes the pipeline executor's per-stage wiring
//! decisions.
//!
//! The executor itself spawns processes and moves bytes, which is the
//! caller's business; everything it has to decide — builtin or external,
//! where each stage's streams are attached, which stage's output is
//! bridged or drained — is computed here from plain values.

use crate::commands::is_builtin_name;
use crate::commands::is_builtin;
use crate::redirection::{
    is_pipe_token, parse_command, parse_command_spec, pipe_token, CommandModel, ParsedCommand,
    Redirection,
};
use vstd::prelude::*;

verus! {

/// Grouping tokens between pipe separators: `cur` is the group being
/// gathered and `acc` the groups already finished.  Consecutive separators,
/// or a separator at either end, yield empty groups; they are kept here and
/// dropped later by [`parse_pipeline_spec`].
pub open spec fn split_step(
    toks: Seq<Seq<char>>,
    cur: Seq<Seq<char>>,
    acc: Seq<Seq<Seq<char>>>,
) -> Seq<Seq<Seq<char>>>
    decreases toks.len(),
{
    if toks.len() == 0 {
        acc.push(cur)
    } else if is_pipe_token(toks[0]) {
        split_step(toks.skip(1), Seq::empty(), acc.push(cur))
    } else {
        split_step(toks.skip(1), cur.push(toks[0]), acc)
    }
}

/// The token groups between pipe separators, in order.
pub open spec fn split_pipeline_spec(toks: Seq<Seq<char>>) -> Seq<Seq<Seq<char>>> {
    split_step(toks, Seq::empty(), Seq::empty())
}

/// Splits a token sequence at pipe-separator tokens into groups, one per
/// pipeline stage.
pub fn split_pipeline(tokens: Vec<String>) -> (groups: Vec<Vec<String>>)
    ensures
        groups.deep_view() == split_pipeline_spec(tokens.deep_view()),
{
    let ghost toks = tokens.deep_view();
    let mut rest = tokens;
    let mut cur: Vec<String> = Vec::new();
    let mut groups: Vec<Vec<String>> = Vec::new();
    let ghost mut acc: Seq<Seq<Seq<char>>> = Seq::empty();
    proof {
        assert(cur.deep_view() =~= Seq::<Seq<char>>::empty());
        assert(groups.deep_view() =~= acc);
    }
    while rest.len() > 0
        invariant
            split_step(rest.deep_view(), cur.deep_view(), acc) == split_pipeline_spec(toks),
            groups.deep_view() == acc,
        decreases rest.len(),
    {
        let ghost rdv0 = rest.deep_view();
        let ghost cdv0 = cur.deep_view();
        let ghost acc0 = acc;
        let t = rest.remove(0);
        proof {
            assert(t@ == rdv0[0]);
            assert(rest.deep_view() =~= rdv0.skip(1));
        }
        if pipe_token(t.as_str()) {
            groups.push(cur);
            cur = Vec::new();
            proof {
                acc = acc0.push(cdv0);
                assert(groups.deep_view() =~= acc);
                assert(cur.deep_view() =~= Seq::<Seq<char>>::empty());
            }
        } else {
            cur.push(t);
            proof {
                assert(cur.deep_view() =~= cdv0.push(rdv0[0]));
            }
        }
    }
    proof {
        assert(rest.deep_view() =~= Seq::<Seq<char>>::empty());
    }
    let ghost cdv = cur.deep_view();
    groups.push(cur);
    proof {
        assert(groups.deep_view() =~= acc.push(cdv));
    }
    groups
}

/// Each token group parsed into a structured command, with the commands
/// that have no arguments (from empty groups) dropped.
pub open spec fn pipeline_of_groups(groups: Seq<Seq<Seq<char>>>) -> Seq<CommandModel>
    decreases groups.len(),
{
    if groups.len() == 0 {
        Seq::empty()
    } else {
        let rest = pipeline_of_groups(groups.drop_last());
        let c = parse_command_spec(groups.last());
        if c.args.len() > 0 {
            rest.push(c)
        } else {
            rest
        }
    }
}

/// The pipeline a token sequence describes: the tokens are split at pipe
/// separators, each group is parsed into a structured command, and
/// commands with no arguments (from empty groups) are dropped.
pub open spec fn parse_pipeline_spec(toks: Seq<Seq<char>>) -> Seq<CommandModel> {
    pipeline_of_groups(split_pipeline_spec(toks))
}

/// Parses a whole input line's tokens into a pipeline of structured
/// commands.  Every command in the result has at least one argument; a
/// line that yields none (only separators or nothing at all) gives an
/// empty pipeline, and such a line is skipped by the interpreter.
pub fn parse_pipeline(tokens: Vec<String>) -> (pipeline: Vec<ParsedCommand>)
    ensures
        pipeline.deep_view() == parse_pipeline_spec(tokens.deep_view()),
        forall|i: int|
            0 <= i < pipeline.deep_view().len() ==> #[trigger] pipeline.deep_view()[i].args.len()
                > 0,
{
    let ghost toks = tokens.deep_view();
    let mut groups = split_pipeline(tokens);
    let ghost gdv = groups.deep_view();
    let mut pipeline: Vec<ParsedCommand> = Vec::new();
    let ghost mut done: Seq<Seq<Seq<char>>> = Seq::empty();
    proof {
        assert(gdv =~= done + groups.deep_view());
        assert(pipeline.deep_view() =~= pipeline_of_groups(done));
    }
    while groups.len() > 0
        invariant
            gdv == split_pipeline_spec(toks),
            gdv == done + groups.deep_view(),
            pipeline.deep_view() == pipeline_of_groups(done),
            forall|i: int|
                0 <= i < pipeline.deep_view().len() ==> #[trigger] pipeline.deep_view()[i].args.len() > 0,
        decreases groups.len(),
    {
        let ghost rdv0 = groups.deep_view();
        let ghost done0 = done;
        let ghost pdv0 = pipeline.deep_view();
        let g = groups.remove(0);
        let ghost gv = g.deep_view();
        let cmd = parse_command(g);
        let keep = cmd.args.len() > 0;
        if keep {
            pipeline.push(cmd);
        }
        proof {
            done = done0.push(gv);
            assert(groups.deep_view() =~= rdv0.skip(1));
            assert(gdv =~= done + groups.deep_view());
            assert(done.drop_last() =~= done0);
            assert(done.last() == gv);
            if keep {
                assert(pipeline.deep_view() =~= pdv0.push(cmd@));
            }
            assert(pipeline.deep_view() == pipeline_of_groups(done));
        }
    }
    proof {
        assert(groups.deep_view() =~= Seq::<Seq<Seq<char>>>::empty());
        assert(done =~= gdv);
    }
    pipeline
}

/// Where an external stage's standard output is attached at spawn time.
pub enum StdoutWiring {
    /// The interpreter's own standard output (a single-stage command
    /// without redirection streams straight to the terminal).
    Inherit,
    /// The redirection target file.
    ToFile(Redirection),
    /// A fresh pipe, read by the next stage or drained by the executor.
    ToPipe,
}

/// The executor's wiring decisions for one pipeline stage.
pub struct StagePlan {
    /// The stage is a builtin, run inside the interpreter.
    pub builtin: bool,
    /// External stage: its stdin is the previous stage's readable output
    /// handle; without one (first stage, or a builtin bridge that failed)
    /// stdin is inherited from the interpreter.
    pub use_prev_stdin: bool,
    /// External stage: where its stdout is attached at spawn.
    pub stdout: StdoutWiring,
    /// External stage: the stderr target file attached at spawn, if any.
    pub stderr_file: Option<Redirection>,
    /// Builtin stage that is not last: its output must be bridged through
    /// an adapter process so the next stage can read it as a stream.
    pub bridge_output: bool,
    /// Builtin stage: every process spawned so far is waited on first, so
    /// the builtin never races with in-flight external output.
    pub reap_before: bool,
}

/// Copies a redirection descriptor.
fn clone_redirection(r: &Redirection) -> (c: Redirection)
    ensures
        c@ == r@,
{
    Redirection { file: r.file.clone(), append: r.append }
}

/// Decides how one stage of a pipeline is wired.  `single` says the
/// pipeline has exactly one stage, `is_last` that this is its final stage,
/// and `have_prev` that a previous stage's readable output handle exists.
///
/// A builtin stage reaps all earlier processes before running and, when it
/// is not last, bridges its output to the next stage; its delivery
/// otherwise follows the output plan of the parsed command.  An external
/// stage takes the previous handle as stdin when there is one; its stdout
/// goes to the redirection target only when this is the last stage (a
/// redirection on an intermediate stage is ignored by design), to the
/// terminal for a single-stage command without redirection, and to a fresh
/// pipe otherwise; its stderr redirection is attached at spawn.
pub fn plan_stage(cmd: &ParsedCommand, single: bool, is_last: bool, have_prev: bool) -> (p:
    StagePlan)
    requires
        cmd@.args.len() >= 1,
    ensures
        p.builtin == is_builtin_name(cmd@.args[0]),
        p.reap_before == p.builtin,
        p.bridge_output == (p.builtin && !is_last),
        p.use_prev_stdin == (!p.builtin && have_prev),
        p.builtin ==> p.stdout is Inherit && p.stderr_file is None,
        !p.builtin ==> match cmd@.redirect_stderr {
            Some(r) => p.stderr_file matches Some(f) && f@ == r,
            None => p.stderr_file is None,
        },
        !p.builtin && single ==> match cmd@.redirect_stdout {
            Some(r) => p.stdout matches StdoutWiring::ToFile(f) && f@ == r,
            None => p.stdout is Inherit,
        },
        !p.builtin && !single && is_last ==> match cmd@.redirect_stdout {
            Some(r) => p.stdout matches StdoutWiring::ToFile(f) && f@ == r,
            None => p.stdout is ToPipe,
        },
        !p.builtin && !single && !is_last ==> p.stdout is ToPipe,
{
    let builtin = is_builtin(cmd.args[0].as_str());
    if builtin {
        StagePlan {
            builtin: true,
            use_prev_stdin: false,
            stdout: StdoutWiring::Inherit,
            stderr_file: None,
            bridge_output: !is_last,
            reap_before: true,
        }
    } else {
        let stdout = if is_last {
            match &cmd.redirect_stdout {
                Some(r) => StdoutWiring::ToFile(clone_redirection(r)),
                None => if single {
                    StdoutWiring::Inherit
                } else {
                    StdoutWiring::ToPipe
                },
            }
        } else if single {
            // unreachable in a well-formed call (a single stage is last),
            // but the wiring is still stated: no pipe follows
            match &cmd.redirect_stdout {
                Some(r) => StdoutWiring::ToFile(clone_redirection(r)),
                None => StdoutWiring::Inherit,
            }
        } else {
            StdoutWiring::ToPipe
        };
        let stderr_file = match &cmd.redirect_stderr {
            Some(r) => Some(clone_redirection(r)),
            None => None,
        };
        StagePlan {
            builtin: false,
            use_prev_stdin: have_prev,
            stdout,
            stderr_file,
            bridge_output: false,
            reap_before: false,
        }
    }
}

/// Whether the executor must drain the final stage's output pipe to the
/// interpreter's own standard output after spawning every stage: only a
/// multi-stage pipeline whose last stage has no stdout redirection ends in
/// a pipe that nobody else reads.
pub fn pipeline_needs_drain(pipeline: &Vec<ParsedCommand>) -> (r: bool)
    requires
        pipeline@.len() >= 1,
    ensures
        r == (pipeline@.len() > 1 && pipeline.deep_view().last().redirect_stdout is None),
{
    pipeline.len() > 1 && pipeline[pipeline.len() - 1].redirect_stdout.is_none()
}

} // verus!
