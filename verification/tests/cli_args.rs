use postui::cli::{parse_args, CliCommand};

fn args(values: &[&str]) -> Vec<String> {
    values.iter().map(|value| value.to_string()).collect()
}

#[test]
fn no_arguments_run_with_defaults() {
    match parse_args(&args(&[])).unwrap() {
        CliCommand::Run(options) => {
            assert!(options.project_path.is_none());
            assert!(options.config_path.is_none());
            assert!(options.scenario.is_none());
            assert!(!options.debug);
            assert!(!options.perf);
            assert!(options.log_file.is_none());
        }
        _ => panic!("expected a run"),
    }
}

#[test]
fn help_answers_at_once() {
    assert!(matches!(parse_args(&args(&["--help", "--bogus"])).unwrap(), CliCommand::Help));
    assert!(matches!(parse_args(&args(&["-V"])).unwrap(), CliCommand::Version));
}

#[test]
fn perf_turns_on_debug() {
    match parse_args(&args(&["--perf", "--log-file", "out.log", "project"])).unwrap() {
        CliCommand::Run(options) => {
            assert!(options.debug);
            assert!(options.perf);
            assert_eq!(options.log_file.as_deref(), Some("out.log"));
            assert_eq!(options.project_path.as_deref(), Some("project"));
        }
        _ => panic!("expected a run"),
    }
}

#[test]
fn options_are_refused_when_repeated_or_unknown() {
    assert_eq!(
        parse_args(&args(&["--config", "a", "--config", "b"])).err().unwrap(),
        "--config may be specified only once"
    );
    assert_eq!(parse_args(&args(&["--what"])).err().unwrap(), "Unknown argument: --what");
    assert_eq!(
        parse_args(&args(&["--scenario"])).err().unwrap(),
        "--scenario requires a value; provide a path or name after it"
    );
    assert_eq!(
        parse_args(&args(&["--scenario", "-x"])).err().unwrap(),
        "--scenario requires a value; provide a path or name after it"
    );
    assert_eq!(
        parse_args(&args(&["a", "b"])).err().unwrap(),
        "Project path may be specified only once"
    );
    assert_eq!(
        parse_args(&args(&["--log-file", "x"])).err().unwrap(),
        "--log-file requires --debug"
    );
}

#[test]
fn init_takes_nothing_else() {
    assert!(matches!(parse_args(&args(&["init"])).unwrap(), CliCommand::Init));
    assert_eq!(
        parse_args(&args(&["init", "init"])).err().unwrap(),
        "postui init may be specified only once"
    );
    assert_eq!(
        parse_args(&args(&["init", "--debug"])).err().unwrap(),
        "postui init does not accept --debug"
    );
    assert_eq!(
        parse_args(&args(&["init", "dir"])).err().unwrap(),
        "postui init does not accept a project path"
    );
    assert_eq!(
        parse_args(&args(&["init", "--scenario", "x"])).err().unwrap(),
        "postui init does not accept --config or --scenario"
    );
}
