use rustyml::cli::{parse_argv, Mode};

fn test_parse(args: &[&str]) -> Result<rustyml::cli::Cli, String> {
    let mut argv = vec!["rustyml".to_string()];
    for a in args {
        argv.push(a.to_string());
    }
    parse_argv(argv)
}

#[test]
fn test_parse_help() {
    let cli = test_parse(&["help"]).unwrap();
    assert!(cli.help);

    let cli = test_parse(&["unknown"]).unwrap();
    assert!(cli.help);

    let cli = test_parse(&["run", "--help"]).unwrap();
    assert!(cli.help);
}

#[test]
fn test_parse_mode() {
    let cli = test_parse(&["run", "tests/cli_tests.rs"]).unwrap();
    assert_eq!(cli.mode, Mode::Run);

    let cli = test_parse(&["build", "tests/cli_tests.rs"]).unwrap();
    assert_eq!(cli.mode, Mode::Build);

    let cli = test_parse(&["parse", "tests/cli_tests.rs"]).unwrap();
    assert_eq!(cli.mode, Mode::Parse);

    let cli = test_parse(&["help"]).unwrap();
    assert_eq!(cli.mode, Mode::Nop);

    let cli = test_parse(&["unknown"]).unwrap();
    assert_eq!(cli.mode, Mode::Nop);

    let cli = test_parse(&["unknown", "tests/cli_tests.rs"]).unwrap();
    assert_eq!(cli.mode, Mode::Nop);
}

#[test]
fn test_parse_path() {
    let cli = test_parse(&["run", "tests/cli_tests.rs", "tests/cli_tests.rs"]).unwrap();
    assert_eq!(cli.files.len(), 2);
    assert!(cli.files.first().unwrap().ends_with("tests/cli_tests.rs"));
}

#[test]
fn test_parse_only() {
    let ret = test_parse(&["parse", "tests/cli_tests.rs", "tests/cli_tests.rs"]);
    assert!(ret.is_err());
}

#[test]
fn no_file_target_is_an_error() {
    let ret = test_parse(&["run"]);
    assert_eq!(ret.unwrap_err(), "No file target is specified.");
    let ret = test_parse(&["parse", "a", "b"]);
    assert_eq!(
        ret.unwrap_err(),
        "Only one file can be specified for 'parse' subcommand"
    );
}
