use shellcore::dispatch::handle_input;
use shellcore::dispatch::finish_run;
use shellcore::dispatch::render;
use shellcore::dispatch::resolve_run;
use shellcore::dispatch::resolve_type;
use shellcore::dispatch::Command;
use shellcore::dispatch::Followup;
use shellcore::dispatch::Rendered;
use shellcore::dispatch::Step;
use shellcore::registry::init;

fn s(text: &str) -> String {
    text.to_string()
}

fn strings(items: &[&str]) -> Vec<String> {
    items.iter().map(|t| t.to_string()).collect()
}

#[test]
fn empty_line_is_refused() {
    let env = init();
    let step = handle_input("", &env);
    assert_eq!(step, Step::Done(Err(s("command not specified"))));
}

#[test]
fn exit_with_code_terminates() {
    let env = init();
    let step = handle_input("exit 42", &env);
    assert_eq!(step, Step::Done(Ok(Command::Exit(42))));
}

#[test]
fn exit_trims_trailing_newline() {
    let env = init();
    let step = handle_input("exit 5\n", &env);
    assert_eq!(step, Step::Done(Ok(Command::Exit(5))));
}

#[test]
fn exit_accepts_extreme_codes() {
    let env = init();
    assert_eq!(
        handle_input("exit -2147483648", &env),
        Step::Done(Ok(Command::Exit(i32::MIN)))
    );
    assert_eq!(
        handle_input("exit 2147483647", &env),
        Step::Done(Ok(Command::Exit(i32::MAX)))
    );
}

#[test]
fn exit_with_non_integer_fails() {
    let env = init();
    let step = handle_input("exit abc", &env);
    assert_eq!(step, Step::Done(Err(s("invalid error code"))));
}

#[test]
fn exit_out_of_range_fails() {
    let env = init();
    let step = handle_input("exit 2147483648", &env);
    assert_eq!(step, Step::Done(Err(s("invalid error code"))));
}

#[test]
fn exit_wrong_arity_fails() {
    let env = init();
    let usage = s("invalid exit command: exit <error_code>");
    assert_eq!(handle_input("exit", &env), Step::Done(Err(usage.clone())));
    assert_eq!(handle_input("exit 1 2", &env), Step::Done(Err(usage)));
}

#[test]
fn echo_preserves_interior_spacing() {
    let env = init();
    let step = handle_input("echo a  b", &env);
    assert_eq!(step, Step::Done(Ok(Command::Echo(s(" a  b")))));
    if let Step::Done(Ok(command)) = handle_input("echo a  b", &env) {
        assert_eq!(render(&command), Rendered::Print(s(" a  b")));
    } else {
        panic!("echo did not resolve");
    }
}

#[test]
fn echo_without_arguments_is_empty() {
    let env = init();
    let step = handle_input("echo", &env);
    assert_eq!(step, Step::Done(Ok(Command::Echo(s("")))));
}

#[test]
fn type_on_builtin_names() {
    let env = init();
    for name in ["exit", "echo", "type"] {
        let line = format!("type {}", name);
        let step = handle_input(&line, &env);
        let expected = format!("{} is a shell builtin", name);
        assert_eq!(step, Step::Done(Ok(Command::Type(expected))));
    }
}

#[test]
fn type_trims_its_argument() {
    let env = init();
    let step = handle_input("type echo\n", &env);
    assert_eq!(step, Step::Done(Ok(Command::Type(s("echo is a shell builtin")))));
}

#[test]
fn type_excludes_internal_sentinel() {
    let env = init();
    let step = handle_input("type __r_u_n__", &env);
    assert_eq!(step, Step::LocateForType(s("__r_u_n__")));
}

#[test]
fn type_wrong_arity_fails() {
    let env = init();
    let usage = s("invalid type command: type <command>");
    assert_eq!(handle_input("type", &env), Step::Done(Err(usage.clone())));
    assert_eq!(handle_input("type a b", &env), Step::Done(Err(usage)));
}

#[test]
fn type_reports_located_path() {
    let r = resolve_type(s("ls"), Ok(Some(s("/bin/ls"))));
    assert_eq!(r, Ok(Command::Type(s("ls is /bin/ls"))));
}

#[test]
fn type_reports_miss() {
    let r = resolve_type(s("nosuch"), Ok(None));
    assert_eq!(r, Ok(Command::Type(s("nosuch: not found"))));
}

#[test]
fn type_propagates_locator_failure() {
    let r = resolve_type(s("x"), Err(s("failed to get PATH variable to find commands in system folders")));
    assert_eq!(r, Err(s("failed to get PATH variable to find commands in system folders")));
}

#[test]
fn unknown_command_goes_to_external_path() {
    let env = init();
    let step = handle_input("prog a b", &env);
    assert_eq!(step, Step::LocateForRun(s("prog"), strings(&["prog", "a", "b"])));
}

#[test]
fn unknown_command_not_found_body() {
    let step_tokens = strings(&["prog", "a"]);
    let followup = resolve_run(s("prog"), step_tokens, Ok(None));
    assert_eq!(followup, Followup::Done(Ok(Command::Run(s("prog: not found")))));
}

#[test]
fn resolved_program_becomes_spawn_request() {
    let tokens = strings(&["prog", "a", "b"]);
    let followup = resolve_run(s("prog"), tokens, Ok(Some(s("/usr/bin/prog"))));
    assert_eq!(
        followup,
        Followup::Spawn(s("/usr/bin/prog"), strings(&["a", "b"]))
    );
}

#[test]
fn run_failure_is_propagated() {
    let tokens = strings(&["prog"]);
    let followup = resolve_run(s("prog"), tokens, Err(s("no path")));
    assert_eq!(followup, Followup::Done(Err(s("no path"))));
}

#[test]
fn sentinel_name_dispatches_to_external_run() {
    let env = init();
    let step = handle_input("__r_u_n__ x", &env);
    assert_eq!(
        step,
        Step::LocateForRun(s("__r_u_n__"), strings(&["__r_u_n__", "x"]))
    );
}

#[test]
fn successful_run_keeps_stdout() {
    let r = finish_run(true, s("ok\n"), s(""));
    assert_eq!(r, Ok(Command::Run(s("ok\n"))));
    if let Ok(command) = r {
        assert_eq!(render(&command), Rendered::Print(s("ok")));
    }
}

#[test]
fn failed_run_keeps_stderr() {
    let r = finish_run(false, s("ignored\n"), s("bad\n"));
    assert_eq!(r, Ok(Command::Run(s("bad\n"))));
    if let Ok(command) = r {
        assert_eq!(render(&command), Rendered::Print(s("bad")));
    }
}

#[test]
fn render_terminates_on_exit() {
    assert_eq!(render(&Command::Exit(3)), Rendered::Terminate(3));
}

#[test]
fn render_trims_only_trailing_whitespace() {
    assert_eq!(render(&Command::Run(s(" body \t\n"))), Rendered::Print(s(" body")));
}
