use rust_demo::cli::{exit_code, help_text, parse, version_string, InvocationRequest, ParseError};

fn args(tokens: &[&str]) -> Vec<String> {
    tokens.iter().map(|t| t.to_string()).collect()
}

#[test]
fn empty_args_yield_run() {
    assert_eq!(parse(&args(&[])), Ok(InvocationRequest::Run));
}

#[test]
fn short_help_yields_help() {
    assert_eq!(parse(&args(&["-h"])), Ok(InvocationRequest::Help));
}

#[test]
fn long_help_yields_help() {
    assert_eq!(parse(&args(&["--help"])), Ok(InvocationRequest::Help));
}

#[test]
fn help_wins_over_version_in_any_position() {
    assert_eq!(parse(&args(&["--version", "-h"])), Ok(InvocationRequest::Help));
    assert_eq!(parse(&args(&["-h", "--version"])), Ok(InvocationRequest::Help));
    assert_eq!(parse(&args(&["-v", "--help", "-v"])), Ok(InvocationRequest::Help));
}

#[test]
fn short_version_yields_version() {
    assert_eq!(parse(&args(&["-v"])), Ok(InvocationRequest::Version));
}

#[test]
fn long_version_yields_version() {
    assert_eq!(parse(&args(&["--version"])), Ok(InvocationRequest::Version));
}

#[test]
fn repeated_version_yields_version() {
    assert_eq!(parse(&args(&["-v", "--version"])), Ok(InvocationRequest::Version));
}

#[test]
fn unknown_token_is_rejected_and_named() {
    let r = parse(&args(&["--bogus"]));
    assert_eq!(r, Err(ParseError::UnknownOption("--bogus".to_string())));
}

#[test]
fn first_unknown_token_is_the_one_named() {
    let r = parse(&args(&["-h", "oops", "nope"]));
    assert_eq!(r, Err(ParseError::UnknownOption("oops".to_string())));
}

#[test]
fn positional_value_is_unknown() {
    let r = parse(&args(&["file.txt"]));
    assert_eq!(r, Err(ParseError::UnknownOption("file.txt".to_string())));
}

#[test]
fn repeated_help_parses_like_single_help() {
    assert_eq!(parse(&args(&["-h", "-h"])), parse(&args(&["-h"])));
}

#[test]
fn error_message_names_the_token() {
    let r = parse(&args(&["--bogus"]));
    let e = r.unwrap_err();
    let msg = e.message();
    assert_eq!(msg, "Unrecognized option: '--bogus'");
    assert!(msg.contains("--bogus"));
}

#[test]
fn exit_codes_follow_the_result() {
    assert_eq!(exit_code(&parse(&args(&[]))), 0);
    assert_eq!(exit_code(&parse(&args(&["-h"]))), 0);
    assert_eq!(exit_code(&parse(&args(&["--version"]))), 0);
    assert_eq!(exit_code(&parse(&args(&["--bogus"]))), 1);
}

#[test]
fn version_string_is_fixed() {
    assert_eq!(version_string(), "x.y.z");
}

#[test]
fn help_text_names_program_and_flags() {
    let text = help_text("demo");
    assert_eq!(
        text,
        "Help: demo [options]\n    -h, --help       print the help information\n    -v, --version    print the version number\n"
    );
}
