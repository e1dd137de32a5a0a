//! The dispatcher and the built-in command handlers.
//!
//! A tokenized line is resolved against the registry; a hit runs the
//! matching builtin, a miss falls through to the external-run path. Work
//! that needs the outside world (listing the search path, spawning a
//! process) is returned to the caller as an explicit request; the caller
//! performs it and feeds the outcome back into a verified follow-up
//! function, so every decision stays inside the library.

use vstd::prelude::*;
use vstd::string::StrSliceExecFns;
use vstd::string::StringExecFns;

use crate::numeral::parse_i32;
use crate::numeral::parse_int_view;
use crate::registry::Builtin;
use crate::registry::CommandEnv;
use crate::registry::is_user_builtin;
use crate::registry::lookup_in;
use crate::text::join_spaces;
use crate::text::join_with;
use crate::text::lemma_join_first;
use crate::text::lemma_join_split;
use crate::text::lemma_split_on_len;
use crate::text::split_on;
use crate::text::split_str;
use crate::text::trim_back;
use crate::text::trim_str;
use crate::text::trim_end_str;
use crate::text::trimmed;

verus! {

/// The outcome of dispatching one line: a termination request, text from a
/// builtin (`Echo`, `Type`), or the body captured from an external program
/// (`Run`).
#[derive(PartialEq, Eq, Debug)]
pub enum Command {
    Exit(i32),
    Echo(String),
    Type(String),
    Run(String),
}

pub enum CommandView {
    Exit(int),
    Echo(Seq<char>),
    Type(Seq<char>),
    Run(Seq<char>),
}

impl View for Command {
    type V = CommandView;

    open spec fn view(&self) -> CommandView {
        match self {
            Command::Exit(code) => CommandView::Exit(*code as int),
            Command::Echo(s) => CommandView::Echo(s@),
            Command::Type(s) => CommandView::Type(s@),
            Command::Run(s) => CommandView::Run(s@),
        }
    }
}

pub open spec fn cmd_result_view(r: Result<Command, String>) -> Result<CommandView, Seq<char>> {
    match r {
        Result::Ok(c) => Result::Ok(c@),
        Result::Err(e) => Result::Err(e@),
    }
}

pub open spec fn loc_view(r: Result<Option<String>, String>) -> Result<
    Option<Seq<char>>,
    Seq<char>,
> {
    match r {
        Result::Ok(Option::Some(p)) => Result::Ok(Option::Some(p@)),
        Result::Ok(Option::None) => Result::Ok(Option::None),
        Result::Err(e) => Result::Err(e@),
    }
}

/// What dispatching a line asks of the caller next: nothing (`Done`), or a
/// search-path lookup for the `type` builtin or for an external run.
#[derive(PartialEq, Eq, Debug)]
pub enum Step {
    Done(Result<Command, String>),
    LocateForType(String),
    LocateForRun(String, Vec<String>),
}

pub enum StepView {
    Done(Result<CommandView, Seq<char>>),
    LocateForType(Seq<char>),
    LocateForRun(Seq<char>, Seq<Seq<char>>),
}

impl View for Step {
    type V = StepView;

    open spec fn view(&self) -> StepView {
        match self {
            Step::Done(r) => StepView::Done(cmd_result_view(*r)),
            Step::LocateForType(name) => StepView::LocateForType(name@),
            Step::LocateForRun(name, tokens) => StepView::LocateForRun(
                name@,
                tokens.deep_view(),
            ),
        }
    }
}

/// After a search-path lookup for an external run: either an outcome, or a
/// request to spawn the program at the resolved path with these arguments.
#[derive(PartialEq, Eq, Debug)]
pub enum Followup {
    Done(Result<Command, String>),
    Spawn(String, Vec<String>),
}

pub enum FollowupView {
    Done(Result<CommandView, Seq<char>>),
    Spawn(Seq<char>, Seq<Seq<char>>),
}

impl View for Followup {
    type V = FollowupView;

    open spec fn view(&self) -> FollowupView {
        match self {
            Followup::Done(r) => FollowupView::Done(cmd_result_view(*r)),
            Followup::Spawn(path, args) => FollowupView::Spawn(path@, args.deep_view()),
        }
    }
}

/// How the caller should present a dispatched outcome: end the process with
/// a code, or print one line.
#[derive(PartialEq, Eq, Debug)]
pub enum Rendered {
    Terminate(i32),
    Print(String),
}

pub enum RenderedView {
    Terminate(int),
    Print(Seq<char>),
}

impl View for Rendered {
    type V = RenderedView;

    open spec fn view(&self) -> RenderedView {
        match self {
            Rendered::Terminate(code) => RenderedView::Terminate(*code as int),
            Rendered::Print(s) => RenderedView::Print(s@),
        }
    }
}

pub open spec fn no_command_msg() -> Seq<char> {
    ("command not specified")@
}

pub open spec fn exit_usage_msg() -> Seq<char> {
    ("invalid exit command: exit <error_code>")@
}

pub open spec fn bad_code_msg() -> Seq<char> {
    ("invalid error code")@
}

pub open spec fn type_usage_msg() -> Seq<char> {
    ("invalid type command: type <command>")@
}

pub open spec fn is_builtin_msg(name: Seq<char>) -> Seq<char> {
    name + (" is a shell builtin")@
}

pub open spec fn is_path_msg(name: Seq<char>, path: Seq<char>) -> Seq<char> {
    name + (" is ")@ + path
}

pub open spec fn not_found_msg(name: Seq<char>) -> Seq<char> {
    name + (": not found")@
}

/// A line's tokens: split on single spaces, with runs of spaces kept as
/// empty tokens; an empty line has no tokens at all.
pub open spec fn spec_tokenize(s: Seq<char>) -> Seq<Seq<char>> {
    if s.len() == 0 {
        Seq::empty()
    } else {
        split_on(s, ' ')
    }
}

pub fn tokenize(input: &str) -> (r: Vec<String>)
    ensures
        r.deep_view() == spec_tokenize(input@),
{
    if input.unicode_len() == 0 {
        let r: Vec<String> = Vec::new();
        proof {
            assert(r.deep_view() =~= Seq::<Seq<char>>::empty());
        }
        r
    } else {
        split_str(input, ' ')
    }
}

/// The `exit` builtin: exactly two tokens, the second a decimal `i32` after
/// trimming; anything else is a failure, never a termination.
pub open spec fn spec_exit(toks: Seq<Seq<char>>) -> Result<CommandView, Seq<char>> {
    if toks.len() != 2 {
        Result::Err(exit_usage_msg())
    } else {
        match parse_int_view(trimmed(toks[1])) {
            Option::Some(v) => if i32::MIN <= v <= i32::MAX {
                Result::Ok(CommandView::Exit(v))
            } else {
                Result::Err(bad_code_msg())
            },
            Option::None => Result::Err(bad_code_msg()),
        }
    }
}

pub fn exit_command(tokens: &Vec<String>) -> (r: Result<Command, String>)
    ensures
        cmd_result_view(r) == spec_exit(tokens.deep_view()),
{
    if tokens.len() != 2 {
        return Result::Err("invalid exit command: exit <error_code>".to_owned());
    }
    let t = trim_str(tokens[1].as_str());
    proof {
        assert(tokens.deep_view()[1] == tokens@[1]@);
    }
    match parse_i32(t.as_str()) {
        Option::Some(code) => Result::Ok(Command::Exit(code)),
        Option::None => Result::Err("invalid error code".to_owned()),
    }
}

/// The `echo` builtin: everything after the command token, re-derived from
/// the rejoined line, so the original inter-token spacing is kept.
pub open spec fn spec_echo(toks: Seq<Seq<char>>) -> Result<CommandView, Seq<char>>
    recommends
        toks.len() >= 1,
{
    Result::Ok(CommandView::Echo(join_with(toks, ' ').skip(toks[0].len() as int)))
}

pub fn echo_command(tokens: &Vec<String>) -> (r: Result<Command, String>)
    requires
        tokens@.len() >= 1,
    ensures
        cmd_result_view(r) == spec_echo(tokens.deep_view()),
{
    let joined = join_spaces(tokens);
    let first_len = tokens[0].as_str().unicode_len();
    let total = joined.as_str().unicode_len();
    proof {
        lemma_join_first(tokens.deep_view(), ' ');
        assert(tokens.deep_view()[0] == tokens@[0]@);
    }
    let body = joined.as_str().substring_char(first_len, total).to_owned();
    Result::Ok(Command::Echo(body))
}

/// The `type` builtin up to the point where the search path is needed:
/// wrong arity fails; a registered user-visible builtin is answered at
/// once; any other name must be looked up on the search path.
pub open spec fn spec_type_step(
    toks: Seq<Seq<char>>,
    env: Seq<(Seq<char>, Builtin)>,
) -> StepView {
    if toks.len() != 2 {
        StepView::Done(Result::Err(type_usage_msg()))
    } else {
        let name = trimmed(toks[1]);
        if is_user_builtin(env, name) {
            StepView::Done(Result::Ok(CommandView::Type(is_builtin_msg(name))))
        } else {
            StepView::LocateForType(name)
        }
    }
}

pub fn type_step(tokens: &Vec<String>, command_env: &CommandEnv) -> (r: Step)
    ensures
        r@ == spec_type_step(tokens.deep_view(), command_env@),
{
    if tokens.len() != 2 {
        return Step::Done(Result::Err("invalid type command: type <command>".to_owned()));
    }
    let name = trim_str(tokens[1].as_str());
    proof {
        assert(tokens.deep_view()[1] == tokens@[1]@);
    }
    if command_env.has_user_builtin(&name) {
        let mut msg = name;
        msg.append(" is a shell builtin");
        Step::Done(Result::Ok(Command::Type(msg)))
    } else {
        Step::LocateForType(name)
    }
}

/// The top-level resolution policy: tokenize, look the first token up in
/// the registry, run the matching builtin or fall through to the
/// external-run path. A blank line is refused without any dispatch.
pub open spec fn spec_handle_input(
    input: Seq<char>,
    env: Seq<(Seq<char>, Builtin)>,
) -> StepView {
    let toks = spec_tokenize(input);
    if toks.len() == 0 {
        StepView::Done(Result::Err(no_command_msg()))
    } else {
        match lookup_in(env, toks[0]) {
            Option::Some(Builtin::Exit) => StepView::Done(spec_exit(toks)),
            Option::Some(Builtin::Echo) => StepView::Done(spec_echo(toks)),
            Option::Some(Builtin::Type) => spec_type_step(toks, env),
            Option::Some(Builtin::Run) => StepView::LocateForRun(trimmed(toks[0]), toks),
            Option::None => StepView::LocateForRun(trimmed(toks[0]), toks),
        }
    }
}

pub fn handle_input(input: &str, command_env: &CommandEnv) -> (r: Step)
    ensures
        r@ == spec_handle_input(input@, command_env@),
{
    let tokens = tokenize(input);
    if tokens.len() == 0 {
        return Step::Done(Result::Err("command not specified".to_owned()));
    }
    proof {
        assert(tokens.deep_view()[0] == tokens@[0]@);
    }
    match command_env.lookup(&tokens[0]) {
        Option::Some(Builtin::Exit) => Step::Done(exit_command(&tokens)),
        Option::Some(Builtin::Echo) => Step::Done(echo_command(&tokens)),
        Option::Some(Builtin::Type) => type_step(&tokens, command_env),
        Option::Some(Builtin::Run) => {
            let name = trim_str(tokens[0].as_str());
            Step::LocateForRun(name, tokens)
        },
        Option::None => {
            let name = trim_str(tokens[0].as_str());
            Step::LocateForRun(name, tokens)
        },
    }
}

/// Finishes a `type` query once the search path has answered: a resolved
/// path, a miss, or the locator's failure passed through.
pub open spec fn spec_resolve_type(
    name: Seq<char>,
    located: Result<Option<Seq<char>>, Seq<char>>,
) -> Result<CommandView, Seq<char>> {
    match located {
        Result::Ok(Option::Some(path)) => Result::Ok(CommandView::Type(is_path_msg(name, path))),
        Result::Ok(Option::None) => Result::Ok(CommandView::Type(not_found_msg(name))),
        Result::Err(e) => Result::Err(e),
    }
}

pub fn resolve_type(name: String, located: Result<Option<String>, String>) -> (r: Result<
    Command,
    String,
>)
    ensures
        cmd_result_view(r) == spec_resolve_type(name@, loc_view(located)),
{
    match located {
        Result::Ok(Option::Some(path)) => {
            let mut msg = name;
            msg.append(" is ");
            msg.append(path.as_str());
            Result::Ok(Command::Type(msg))
        },
        Result::Ok(Option::None) => {
            let mut msg = name;
            msg.append(": not found");
            Result::Ok(Command::Type(msg))
        },
        Result::Err(e) => Result::Err(e),
    }
}

/// Finishes an external run once the search path has answered: a resolved
/// path becomes a spawn request carrying the remaining tokens as arguments;
/// a miss is the "not found" outcome, not a failure.
pub open spec fn spec_resolve_run(
    name: Seq<char>,
    toks: Seq<Seq<char>>,
    located: Result<Option<Seq<char>>, Seq<char>>,
) -> FollowupView
    recommends
        toks.len() >= 1,
{
    match located {
        Result::Ok(Option::Some(path)) => FollowupView::Spawn(path, toks.skip(1)),
        Result::Ok(Option::None) => FollowupView::Done(
            Result::Ok(CommandView::Run(not_found_msg(name))),
        ),
        Result::Err(e) => FollowupView::Done(Result::Err(e)),
    }
}

pub fn resolve_run(
    name: String,
    tokens: Vec<String>,
    located: Result<Option<String>, String>,
) -> (r: Followup)
    requires
        tokens@.len() >= 1,
    ensures
        r@ == spec_resolve_run(name@, tokens.deep_view(), loc_view(located)),
{
    match located {
        Result::Ok(Option::Some(path)) => {
            let mut args: Vec<String> = Vec::new();
            let mut i: usize = 1;
            while i < tokens.len()
                invariant
                    1 <= i <= tokens@.len(),
                    args@.len() == i - 1,
                    forall|k: int| 0 <= k < i - 1 ==> args@[k]@ == tokens@[k + 1]@,
                decreases tokens@.len() - i,
            {
                args.push(tokens[i].clone());
                i += 1;
            }
            proof {
                assert(args.deep_view() =~= tokens.deep_view().skip(1));
            }
            Followup::Spawn(path, args)
        },
        Result::Ok(Option::None) => {
            let mut msg = name;
            msg.append(": not found");
            Followup::Done(Result::Ok(Command::Run(msg)))
        },
        Result::Err(e) => Followup::Done(Result::Err(e)),
    }
}

/// Unifies an external program's termination into one body: the captured
/// standard output where the program succeeded, else the captured standard
/// error. The numeric exit code is deliberately not part of the outcome.
pub open spec fn spec_finish_run(success: bool, stdout: Seq<char>, stderr: Seq<char>) -> Result<
    CommandView,
    Seq<char>,
> {
    Result::Ok(
        CommandView::Run(
            if success {
                stdout
            } else {
                stderr
            },
        ),
    )
}

pub fn finish_run(success: bool, stdout: String, stderr: String) -> (r: Result<Command, String>)
    ensures
        cmd_result_view(r) == spec_finish_run(success, stdout@, stderr@),
{
    if success {
        Result::Ok(Command::Run(stdout))
    } else {
        Result::Ok(Command::Run(stderr))
    }
}

/// How an outcome is presented: `Exit` terminates with its code; any text
/// body is printed with trailing whitespace trimmed.
pub open spec fn spec_render(command: CommandView) -> RenderedView {
    match command {
        CommandView::Exit(code) => RenderedView::Terminate(code),
        CommandView::Echo(s) => RenderedView::Print(trim_back(s)),
        CommandView::Type(s) => RenderedView::Print(trim_back(s)),
        CommandView::Run(s) => RenderedView::Print(trim_back(s)),
    }
}

pub fn render(command: &Command) -> (r: Rendered)
    ensures
        r@ == spec_render(command@),
{
    match command {
        Command::Exit(code) => Rendered::Terminate(*code),
        Command::Echo(s) => Rendered::Print(trim_end_str(s.as_str())),
        Command::Type(s) => Rendered::Print(trim_end_str(s.as_str())),
        Command::Run(s) => Rendered::Print(trim_end_str(s.as_str())),
    }
}

/// A name that is neither registered nor found on the search path runs to
/// the outcome body `<name>: not found`, by the external-run path.
pub proof fn lemma_unknown_not_found(input: Seq<char>, env: Seq<(Seq<char>, Builtin)>)
    requires
        input.len() > 0,
        lookup_in(env, spec_tokenize(input)[0]) is None,
    ensures
        ({
            let toks = spec_tokenize(input);
            let name = trimmed(toks[0]);
            spec_handle_input(input, env) == StepView::LocateForRun(name, toks)
                && spec_resolve_run(name, toks, Result::Ok(Option::None))
                == FollowupView::Done(Result::Ok(CommandView::Run(not_found_msg(name))))
        }),
{
    lemma_split_on_len(input, ' ');
}

/// `type` on a registered user-visible builtin name answers
/// `<name> is a shell builtin` at once: the search path is never consulted,
/// whatever it holds.
pub proof fn lemma_type_builtin(input: Seq<char>, env: Seq<(Seq<char>, Builtin)>)
    requires
        spec_tokenize(input).len() == 2,
        lookup_in(env, spec_tokenize(input)[0]) == Some(Builtin::Type),
        is_user_builtin(env, trimmed(spec_tokenize(input)[1])),
    ensures
        spec_handle_input(input, env) == StepView::Done(
            Result::Ok(CommandView::Type(is_builtin_msg(trimmed(spec_tokenize(input)[1])))),
        ),
{
}

/// A malformed `exit` — any arity other than two tokens, or a second token
/// that is not an in-range decimal integer — always yields a failure and
/// never a termination request.
pub proof fn lemma_exit_malformed(input: Seq<char>, env: Seq<(Seq<char>, Builtin)>)
    requires
        spec_tokenize(input).len() >= 1,
        lookup_in(env, spec_tokenize(input)[0]) == Some(Builtin::Exit),
        ({
            let toks = spec_tokenize(input);
            toks.len() != 2 || (match parse_int_view(trimmed(toks[1])) {
                Option::Some(v) => !(i32::MIN <= v <= i32::MAX),
                Option::None => true,
            })
        }),
    ensures
        (spec_handle_input(input, env) matches StepView::Done(r) && r is Err),
{
}

/// `echo` is a raw-text passthrough: its body is the input line exactly as
/// typed after the command token, so interior runs of spaces survive.
pub proof fn lemma_echo_passthrough(input: Seq<char>, env: Seq<(Seq<char>, Builtin)>)
    requires
        input.len() > 0,
        lookup_in(env, spec_tokenize(input)[0]) == Some(Builtin::Echo),
    ensures
        spec_handle_input(input, env) == StepView::Done(
            Result::Ok(
                CommandView::Echo(input.skip(spec_tokenize(input)[0].len() as int)),
            ),
        ),
{
    let toks = spec_tokenize(input);
    lemma_split_on_len(input, ' ');
    lemma_join_split(input, ' ');
    lemma_join_first(toks, ' ');
}

} // verus!
