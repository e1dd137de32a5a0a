use shellcore::locator::find_system_command_path;
use shellcore::locator::locate;
use shellcore::locator::split_search_path;
use shellcore::locator::DirListing;
use shellcore::numeral::parse_i32;
use shellcore::registry::init;
use shellcore::registry::Builtin;
use shellcore::registry::CommandEnv;
use shellcore::text::trim_end_str;
use shellcore::text::trim_str;

fn s(text: &str) -> String {
    text.to_string()
}

fn strings(items: &[&str]) -> Vec<String> {
    items.iter().map(|t| t.to_string()).collect()
}

fn listing(dir: &str, entries: &[&str]) -> DirListing {
    DirListing { dir: s(dir), entries: strings(entries) }
}

#[test]
fn registry_names_in_registration_order() {
    let env = init();
    assert_eq!(env.names(), strings(&["exit", "echo", "type", "__r_u_n__"]));
}

#[test]
fn registry_lookup_finds_builtins() {
    let env = init();
    assert_eq!(env.lookup(&s("exit")), Some(Builtin::Exit));
    assert_eq!(env.lookup(&s("echo")), Some(Builtin::Echo));
    assert_eq!(env.lookup(&s("type")), Some(Builtin::Type));
    assert_eq!(env.lookup(&s("__r_u_n__")), Some(Builtin::Run));
    assert_eq!(env.lookup(&s("nosuch")), None);
}

#[test]
fn registry_lookup_earliest_duplicate_wins() {
    let mut env = init();
    env.push(s("echo"), Builtin::Run);
    assert_eq!(env.lookup(&s("echo")), Some(Builtin::Echo));
    assert_eq!(env.names().len(), 5);
}

#[test]
fn registry_starts_empty_and_grows() {
    let mut env = CommandEnv { entries: Vec::new() };
    assert_eq!(env.names(), Vec::<String>::new());
    env.push(s("only"), Builtin::Echo);
    assert_eq!(env.names(), strings(&["only"]));
}

#[test]
fn search_path_splits_on_colons() {
    assert_eq!(split_search_path("/bin:/usr/bin"), strings(&["/bin", "/usr/bin"]));
    assert_eq!(split_search_path("a::b"), strings(&["a", "", "b"]));
    assert_eq!(split_search_path(""), strings(&[""]));
}

#[test]
fn locate_first_directory_wins() {
    let listings = vec![listing("D1", &["foo", "bar"]), listing("D2", &["foo"])];
    assert_eq!(locate(&s("foo"), &listings), Some(s("D1/foo")));
}

#[test]
fn locate_scans_later_directories() {
    let listings = vec![listing("D1", &["bar"]), listing("D2", &["foo"])];
    assert_eq!(locate(&s("foo"), &listings), Some(s("D2/foo")));
}

#[test]
fn locate_misses_cleanly() {
    let listings = vec![listing("D1", &["bar"]), listing("D2", &["baz"])];
    assert_eq!(locate(&s("foo"), &listings), None);
    assert_eq!(locate(&s("foo"), &Vec::new()), None);
}

#[test]
fn locate_needs_exact_name() {
    let listings = vec![listing("D1", &["foobar", "fo"])];
    assert_eq!(locate(&s("foo"), &listings), None);
}

#[test]
fn locate_keeps_trailing_separator() {
    let listings = vec![listing("D1/", &["foo"])];
    assert_eq!(locate(&s("foo"), &listings), Some(s("D1/foo")));
}

#[test]
fn missing_search_path_is_a_failure() {
    let r = find_system_command_path(&s("foo"), &None, &Vec::new());
    assert_eq!(
        r,
        Err(s("failed to get PATH variable to find commands in system folders"))
    );
}

#[test]
fn present_search_path_resolves() {
    let listings = vec![listing("D1", &["foo"])];
    let r = find_system_command_path(&s("foo"), &Some(s("D1")), &listings);
    assert_eq!(r, Ok(Some(s("D1/foo"))));
    let miss = find_system_command_path(&s("zzz"), &Some(s("D1")), &listings);
    assert_eq!(miss, Ok(None));
}

#[test]
fn parse_accepts_signed_decimals() {
    assert_eq!(parse_i32("0"), Some(0));
    assert_eq!(parse_i32("+7"), Some(7));
    assert_eq!(parse_i32("-0"), Some(0));
    assert_eq!(parse_i32("007"), Some(7));
    assert_eq!(parse_i32("-2147483648"), Some(i32::MIN));
    assert_eq!(parse_i32("2147483647"), Some(i32::MAX));
}

#[test]
fn parse_rejects_non_numerals() {
    assert_eq!(parse_i32(""), None);
    assert_eq!(parse_i32("+"), None);
    assert_eq!(parse_i32("-"), None);
    assert_eq!(parse_i32("1x"), None);
    assert_eq!(parse_i32(" 3"), None);
    assert_eq!(parse_i32("+-3"), None);
    assert_eq!(parse_i32("2147483648"), None);
    assert_eq!(parse_i32("-2147483649"), None);
}

#[test]
fn trim_removes_both_ends() {
    assert_eq!(trim_str("  x\t\n"), s("x"));
    assert_eq!(trim_str("x"), s("x"));
    assert_eq!(trim_str(" \n "), s(""));
}

#[test]
fn trim_end_keeps_the_front() {
    assert_eq!(trim_end_str(" x "), s(" x"));
    assert_eq!(trim_end_str("x\r\n"), s("x"));
}
