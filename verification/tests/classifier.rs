use rustr::cli::{parse_args_from, CliArgs, CliError, Invocation};

fn tokens(args: &[&str]) -> Vec<String> {
    args.iter().map(|s| s.to_string()).collect()
}

fn parsed(args: &[&str]) -> CliArgs {
    match parse_args_from(tokens(args)) {
        Ok(Invocation::Run(c)) => c,
        other => panic!("expected a command, got {:?}", other),
    }
}

fn strings(args: &[&str]) -> Vec<String> {
    tokens(args)
}

#[test]
fn default_command_asks_for_nothing() {
    let c = CliArgs::default();
    assert!(!c.test && !c.build && !c.release);
    assert_eq!(c.release_bin, None);
    assert_eq!(c.project, None);
    assert_eq!(c.project_name, None);
    assert!(c.project_args.is_empty());
    assert_eq!(parsed(&[]), c);
}

#[test]
fn first_bare_token_is_promoted_once() {
    let c = parsed(&["proj", "proj", "x", "proj"]);
    assert_eq!(c.project_name, Some("proj".to_string()));
    assert_eq!(c.project, None);
    assert_eq!(c.project_args, strings(&["proj", "x", "proj"]));
}

#[test]
fn single_dash_first_token_is_promoted() {
    let c = parsed(&["-x", "a"]);
    assert_eq!(c.project_name, Some("-x".to_string()));
    assert_eq!(c.project_args, strings(&["a"]));
}

#[test]
fn long_first_token_is_not_promoted() {
    let c = parsed(&["--verbose", "proj"]);
    assert_eq!(c.project_name, None);
    assert_eq!(c.project_args, strings(&["--verbose", "proj"]));
}

#[test]
fn bare_project_flag_fails() {
    assert_eq!(
        parse_args_from(tokens(&["--project"])),
        Err(CliError::MissingProjectName)
    );
    assert_eq!(
        parse_args_from(tokens(&["a", "--build", "--project"])),
        Err(CliError::MissingProjectName)
    );
}

#[test]
fn empty_project_value_fails() {
    assert_eq!(
        parse_args_from(tokens(&["--project="])),
        Err(CliError::MissingProjectName)
    );
}

#[test]
fn missing_project_message() {
    assert_eq!(
        CliError::MissingProjectName.message(),
        "Missing project name after --project"
    );
}

#[test]
fn separator_suppresses_flags() {
    let c = parsed(&["a", "--", "--build", "-h"]);
    assert_eq!(c.project_name, Some("a".to_string()));
    assert!(!c.build);
    assert_eq!(c.project_args, strings(&["--build", "-h"]));
}

#[test]
fn separator_is_dropped_once() {
    let c = parsed(&["a", "--", "--", "--project"]);
    assert_eq!(c.project_name, Some("a".to_string()));
    assert_eq!(c.project, None);
    assert_eq!(c.project_args, strings(&["--", "--project"]));
}

#[test]
fn token_after_separator_may_be_promoted() {
    let c = parsed(&["--build", "--", "proj", "--x"]);
    assert!(c.build);
    assert_eq!(c.project_name, Some("proj".to_string()));
    assert_eq!(c.project_args, strings(&["--x"]));
}

#[test]
fn release_bin_with_destination_then_project() {
    let c = parsed(&["--release-bin", "/opt/bin", "p", "--flag"]);
    assert_eq!(c.release_bin, Some(Some("/opt/bin".to_string())));
    assert_eq!(c.project_name, Some("p".to_string()));
    assert_eq!(c.project_args, strings(&["--flag"]));
}

#[test]
fn release_bin_does_not_take_a_long_token() {
    let c = parsed(&["p", "--release-bin", "--build"]);
    assert_eq!(c.release_bin, Some(None));
    assert!(c.build);
    assert!(c.project_args.is_empty());
}

#[test]
fn release_bin_takes_a_single_dash_token() {
    let c = parsed(&["p", "--release-bin", "-x"]);
    assert_eq!(c.release_bin, Some(Some("-x".to_string())));
    assert!(c.project_args.is_empty());
}

#[test]
fn release_bin_empty_value_means_default() {
    let c = parsed(&["p", "--release-bin="]);
    assert_eq!(c.release_bin, Some(None));
}

#[test]
fn release_bin_last_write_wins() {
    let c = parsed(&["--release-bin=/a", "--release-bin"]);
    assert_eq!(c.release_bin, Some(None));
    let d = parsed(&["--release-bin", "--release-bin=/b"]);
    assert_eq!(d.release_bin, Some(Some("/b".to_string())));
}

#[test]
fn project_takes_next_token_even_a_flag() {
    let c = parsed(&["--project", "--build", "x"]);
    assert_eq!(c.project, Some("--build".to_string()));
    assert!(!c.build);
    assert_eq!(c.project_name, None);
    assert_eq!(c.project_args, strings(&["x"]));
}

#[test]
fn project_takes_separator_as_name() {
    let c = parsed(&["--project", "--", "--build"]);
    assert_eq!(c.project, Some("--".to_string()));
    assert!(c.build);
}

#[test]
fn later_project_flag_suppresses_promotion() {
    let c = parsed(&["foo", "bar", "--project=x"]);
    assert_eq!(c.project, Some("x".to_string()));
    assert_eq!(c.project_name, None);
    assert_eq!(c.project_args, strings(&["foo", "bar"]));
}

#[test]
fn project_flag_after_separator_is_forwarded() {
    let c = parsed(&["foo", "--", "--project=x"]);
    assert_eq!(c.project, None);
    assert_eq!(c.project_name, Some("foo".to_string()));
    assert_eq!(c.project_args, strings(&["--project=x"]));
}

#[test]
fn help_stops_the_scan() {
    assert_eq!(parse_args_from(tokens(&["-h"])), Ok(Invocation::Help));
    assert_eq!(parse_args_from(tokens(&["p", "--help", "--project"])), Ok(Invocation::Help));
}

#[test]
fn version_stops_the_scan() {
    assert_eq!(parse_args_from(tokens(&["-V"])), Ok(Invocation::Version));
    assert_eq!(
        parse_args_from(tokens(&["--build", "--version", "-h"])),
        Ok(Invocation::Version)
    );
}

#[test]
fn error_before_help_wins() {
    assert_eq!(
        parse_args_from(tokens(&["--project=", "--help"])),
        Err(CliError::MissingProjectName)
    );
}

#[test]
fn test_flag_is_recognised() {
    let c = parsed(&["p", "--test"]);
    assert!(c.test);
    assert!(!c.build && !c.release);
    assert!(c.project_args.is_empty());
}

#[test]
fn near_misses_are_forwarded() {
    let c = parsed(&["p", "--tests", "--Build", "--release-binx", "--projects", "-help"]);
    assert!(!c.test && !c.build && !c.release);
    assert_eq!(c.release_bin, None);
    assert_eq!(c.project, None);
    assert_eq!(
        c.project_args,
        strings(&["--tests", "--Build", "--release-binx", "--projects", "-help"])
    );
}

#[test]
fn forwarded_tokens_round_trip() {
    let c = parsed(&["p", "", "a b", "", "--k=v", "é", "--", "", "--test"]);
    assert_eq!(c.project_args, strings(&["", "a b", "", "--k=v", "é", "", "--test"]));
    assert!(!c.test);
}

#[test]
fn empty_first_token_is_promoted() {
    let c = parsed(&["", "x"]);
    assert_eq!(c.project_name, Some(String::new()));
    assert_eq!(c.project_args, strings(&["x"]));
}

#[test]
fn value_with_equals_sign_is_kept_whole() {
    let c = parsed(&["--project=a=b", "--release-bin==c"]);
    assert_eq!(c.project, Some("a=b".to_string()));
    assert_eq!(c.release_bin, Some(Some("=c".to_string())));
}

#[test]
fn named_project_and_separator_forward_everything() {
    let c = parsed(&["--project", "p", "--", "", "--test", "--project", "-h", "x"]);
    let mut expected = CliArgs::default();
    expected.project = Some("p".to_string());
    expected.project_args = strings(&["", "--test", "--project", "-h", "x"]);
    assert_eq!(c, expected);
}
