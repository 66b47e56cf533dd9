use cargo_remote::config::{
    pick_remote, project_config_path, read_remote, resolve_remote, shallow_enough, Unreadable,
    NESTING_LIMIT,
};
use cargo_remote::error::FatalError;

fn text(value: &str) -> Option<String> {
    Some(String::from(value))
}

#[test]
fn remote_is_read_from_a_document() {
    let read = read_remote("remote = \"buildbox\"\n");
    assert_eq!(read, Ok(text("buildbox")));
}

#[test]
fn remote_is_read_among_other_entries() {
    let document = "# build settings\nname = \"x\"\nremote = 'user@host.example'\n\n[other]\nremote = \"inner\"\n";
    assert_eq!(read_remote(document), Ok(text("user@host.example")));
}

#[test]
fn document_without_remote_offers_nothing() {
    assert_eq!(read_remote(""), Ok(None));
    assert_eq!(read_remote("name = \"x\"\n"), Ok(None));
    assert_eq!(read_remote("[remote]\nhost = \"x\"\n"), Ok(None));
}

#[test]
fn remote_that_is_no_string_offers_nothing() {
    assert_eq!(read_remote("remote = 5\n"), Ok(None));
    assert_eq!(read_remote("remote = true\n"), Ok(None));
    assert_eq!(read_remote("remote = [\"a\", \"b\"]\n"), Ok(None));
}

#[test]
fn empty_remote_is_read_as_it_is() {
    assert_eq!(read_remote("remote = \"\"\n"), Ok(text("")));
}

#[test]
fn malformed_document_is_reported() {
    let read = read_remote("remote = \n");
    match read {
        Err(Unreadable::Malformed(account)) => assert!(!account.is_empty()),
        other => panic!("not reported as malformed: {:?}", other),
    }
    assert!(matches!(read_remote("this is not toml"), Err(Unreadable::Malformed(_))));
    assert!(matches!(read_remote("remote = \"unterminated\n"), Err(Unreadable::Malformed(_))));
    assert!(matches!(
        read_remote("remote = \"a\"\nremote = \"b\"\n"),
        Err(Unreadable::Malformed(_))
    ));
}

#[test]
fn reason_of_a_malformed_document_is_the_parsers() {
    let problem = read_remote("remote = \n").unwrap_err();
    let account = match &problem {
        Unreadable::Malformed(account) => account.clone(),
        Unreadable::TooNested => panic!("a short text was refused unread"),
    };
    assert_eq!(problem.reason(), account);
    assert_eq!(Unreadable::TooNested.reason(), "nested too deeply");
}

fn arrays_nested(depth: usize) -> String {
    format!("remote = \"h\"\na = {}{}\n", "[".repeat(depth), "]".repeat(depth))
}

fn tables_nested(depth: usize) -> String {
    format!("remote = \"h\"\na = {}1{}\n", "{a = ".repeat(depth), "}".repeat(depth))
}

fn key_of_parts(dots: usize) -> String {
    format!("remote = \"h\"\na{} = 1\n", ".a".repeat(dots))
}

fn header_of_parts(dots: usize) -> String {
    format!("remote = \"h\"\n[a{}]\nb = 1\n", ".a".repeat(dots))
}

#[test]
fn nesting_limit_is_as_documented() {
    assert_eq!(NESTING_LIMIT, 128);
}

#[test]
fn marks_of_nesting_are_counted() {
    assert!(shallow_enough(""));
    assert!(shallow_enough("remote = \"user@build.example.com\"\n"));
    assert!(shallow_enough(&"[".repeat(128)));
    assert!(!shallow_enough(&"[".repeat(129)));
    assert!(shallow_enough(&"{".repeat(128)));
    assert!(!shallow_enough(&"{".repeat(129)));
    assert!(shallow_enough(&".".repeat(128)));
    assert!(!shallow_enough(&".".repeat(129)));
    assert!(shallow_enough(&"]}x=\"".repeat(1000)));
    let mixed = format!("{}{}{}", "[".repeat(50), "{".repeat(50), ".".repeat(28));
    assert!(shallow_enough(&mixed));
    assert!(!shallow_enough(&format!("{}.", mixed)));
}

#[test]
fn document_nested_up_to_the_limit_is_read() {
    let host = Some(String::from("h"));
    assert_eq!(read_remote(&arrays_nested(128)), Ok(host.clone()));
    assert_eq!(read_remote(&tables_nested(128)), Ok(host.clone()));
    assert_eq!(read_remote(&key_of_parts(128)), Ok(host.clone()));
    assert_eq!(read_remote(&header_of_parts(127)), Ok(host));
}

#[test]
fn document_nested_beyond_the_limit_is_refused_unread() {
    assert_eq!(read_remote(&arrays_nested(129)), Err(Unreadable::TooNested));
    assert_eq!(read_remote(&tables_nested(129)), Err(Unreadable::TooNested));
    assert_eq!(read_remote(&key_of_parts(129)), Err(Unreadable::TooNested));
    assert_eq!(read_remote(&header_of_parts(128)), Err(Unreadable::TooNested));
    assert_eq!(read_remote(&arrays_nested(100_000)), Err(Unreadable::TooNested));
    assert_eq!(read_remote(&"[".repeat(1_000_000)), Err(Unreadable::TooNested));
}

#[test]
fn refused_document_is_passed_over() {
    let sources = vec![
        Some(arrays_nested(5000)),
        Some(String::from("remote = \"global-host\"\n")),
    ];
    assert_eq!(resolve_remote(None, &sources), Ok(String::from("global-host")));
    let sources = vec![Some(arrays_nested(5000)), None];
    assert_eq!(resolve_remote(None, &sources), Err(FatalError::NoRemote));
}

#[test]
fn project_config_lies_in_the_project_root() {
    assert_eq!(project_config_path("/home/u/proj"), "/home/u/proj/.cargo-remote.toml");
}

#[test]
fn command_line_overrides_every_file() {
    let picked = pick_remote(text("cli-host"), &vec![text("local-host"), text("global-host")]);
    assert_eq!(picked, Ok(String::from("cli-host")));
    let picked = pick_remote(text("cli-host"), &vec![None, None]);
    assert_eq!(picked, Ok(String::from("cli-host")));
    let picked = pick_remote(text("cli-host"), &Vec::new());
    assert_eq!(picked, Ok(String::from("cli-host")));
}

#[test]
fn command_line_value_is_taken_as_it_is() {
    let picked = pick_remote(text(""), &vec![text("local-host")]);
    assert_eq!(picked, Ok(String::new()));
}

#[test]
fn project_file_comes_before_user_file() {
    let picked = pick_remote(None, &vec![text("local-host"), text("global-host")]);
    assert_eq!(picked, Ok(String::from("local-host")));
}

#[test]
fn user_file_is_used_where_project_file_offers_nothing() {
    let picked = pick_remote(None, &vec![None, text("global-host")]);
    assert_eq!(picked, Ok(String::from("global-host")));
}

#[test]
fn empty_offer_is_passed_over() {
    let picked = pick_remote(None, &vec![text(""), text("global-host")]);
    assert_eq!(picked, Ok(String::from("global-host")));
    let picked = pick_remote(None, &vec![text(""), text("")]);
    assert_eq!(picked, Err(FatalError::NoRemote));
}

#[test]
fn no_offer_at_all_is_fatal() {
    assert_eq!(pick_remote(None, &vec![None, None]), Err(FatalError::NoRemote));
    assert_eq!(pick_remote(None, &Vec::new()), Err(FatalError::NoRemote));
}

#[test]
fn resolve_prefers_command_line_over_documents() {
    let sources = vec![text("remote = \"local-host\"\n"), text("remote = \"global-host\"\n")];
    assert_eq!(resolve_remote(text("cli-host"), &sources), Ok(String::from("cli-host")));
    let broken = vec![text("not toml at all"), None];
    assert_eq!(resolve_remote(text("cli-host"), &broken), Ok(String::from("cli-host")));
}

#[test]
fn resolve_reads_documents_in_order() {
    let sources = vec![text("remote = \"local-host\"\n"), text("remote = \"global-host\"\n")];
    assert_eq!(resolve_remote(None, &sources), Ok(String::from("local-host")));
}

#[test]
fn resolve_passes_over_missing_and_malformed_documents() {
    let sources = vec![None, text("remote = \"global-host\"\n")];
    assert_eq!(resolve_remote(None, &sources), Ok(String::from("global-host")));
    let sources = vec![text("remote = "), text("remote = \"global-host\"\n")];
    assert_eq!(resolve_remote(None, &sources), Ok(String::from("global-host")));
    let sources = vec![text("name = \"x\"\n"), text("remote = \"global-host\"\n")];
    assert_eq!(resolve_remote(None, &sources), Ok(String::from("global-host")));
    let sources = vec![text("remote = \"\"\n"), text("remote = \"global-host\"\n")];
    assert_eq!(resolve_remote(None, &sources), Ok(String::from("global-host")));
}

#[test]
fn resolve_without_any_remote_is_fatal() {
    assert_eq!(resolve_remote(None, &vec![None, None]), Err(FatalError::NoRemote));
    assert_eq!(resolve_remote(None, &Vec::new()), Err(FatalError::NoRemote));
    let sources = vec![text("broken = "), text("remote = 7\n")];
    assert_eq!(resolve_remote(None, &sources), Err(FatalError::NoRemote));
    assert_eq!(FatalError::NoRemote.exit_code(), -3);
}
