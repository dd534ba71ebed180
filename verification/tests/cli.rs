use luatools::cli::{get_arg, parse_command, CliError, Command};

fn args(v: &[&str]) -> Vec<String> {
    v.iter().map(|s| s.to_string()).collect()
}

#[test]
fn get_arg_finds_value_after_flag() {
    let a = args(&["bk-cli", "flash", "--soc", "fw.soc", "--port", "COM6"]);
    assert_eq!(get_arg(&a, "--soc"), Some("fw.soc".to_string()));
    assert_eq!(get_arg(&a, "--port"), Some("COM6".to_string()));
    assert_eq!(get_arg(&a, "--baud"), None);
}

#[test]
fn get_arg_ignores_trailing_flag_and_takes_first() {
    assert_eq!(get_arg(&args(&["x", "log", "--port"]), "--port"), None);
    assert_eq!(get_arg(&args(&["x", "--port", "A", "--port", "B"]), "--port"), Some("A".to_string()));
    assert_eq!(get_arg(&args(&[]), "--port"), None);
}

#[test]
fn no_command_is_usage_error() {
    assert!(matches!(parse_command(&args(&["bk-cli"])), Err(CliError::Usage)));
    assert!(matches!(parse_command(&args(&[])), Err(CliError::Usage)));
}

#[test]
fn ports_and_help() {
    assert!(matches!(parse_command(&args(&["bk-cli", "ports"])), Ok(Command::Ports)));
    for h in ["--help", "-h", "help"] {
        assert!(matches!(parse_command(&args(&["bk-cli", h])), Ok(Command::Help)));
    }
}

#[test]
fn flash_needs_soc_then_port() {
    match parse_command(&args(&["bk-cli", "flash", "--soc", "a.soc", "--port", "COM3"])) {
        Ok(Command::Flash { soc, port }) => {
            assert_eq!(soc, "a.soc");
            assert_eq!(port, "COM3");
        }
        _ => panic!("expected flash"),
    }
    match parse_command(&args(&["bk-cli", "flash", "--port", "COM3"])) {
        Err(e) => {
            assert!(matches!(&e, CliError::MissingArgument(f) if f == "--soc"));
            assert_eq!(e.message(), Some("--soc is required".to_string()));
        }
        _ => panic!("expected error"),
    }
    assert!(matches!(
        parse_command(&args(&["bk-cli", "flash", "--soc", "a.soc"])),
        Err(CliError::MissingArgument(f)) if f == "--port"
    ));
}

#[test]
fn log_baud_defaults_and_parses() {
    match parse_command(&args(&["bk-cli", "log", "--port", "COM3"])) {
        Ok(Command::Log { port, baud }) => {
            assert_eq!(port, "COM3");
            assert_eq!(baud, 2_000_000);
        }
        _ => panic!("expected log"),
    }
    match parse_command(&args(&["bk-cli", "log", "--port", "COM3", "--baud", "115200"])) {
        Ok(Command::Log { baud, .. }) => assert_eq!(baud, 115_200),
        _ => panic!("expected log"),
    }
    match parse_command(&args(&["bk-cli", "log", "--port", "COM3", "--baud", "fast"])) {
        Ok(Command::Log { baud, .. }) => assert_eq!(baud, 2_000_000),
        _ => panic!("expected log"),
    }
    match parse_command(&args(&["bk-cli", "log", "--port", "COM3", "--baud", "4294967296"])) {
        Ok(Command::Log { baud, .. }) => assert_eq!(baud, 2_000_000),
        _ => panic!("expected log"),
    }
    assert!(matches!(
        parse_command(&args(&["bk-cli", "log"])),
        Err(CliError::MissingArgument(f)) if f == "--port"
    ));
}

#[test]
fn test_timeout_defaults_and_parses() {
    match parse_command(&args(&["bk-cli", "test", "--soc", "s", "--port", "p"])) {
        Ok(Command::Test { soc, port, timeout_secs }) => {
            assert_eq!(soc, "s");
            assert_eq!(port, "p");
            assert_eq!(timeout_secs, 20);
        }
        _ => panic!("expected test"),
    }
    match parse_command(&args(&["bk-cli", "test", "--soc", "s", "--port", "p", "--timeout", "+45"])) {
        Ok(Command::Test { timeout_secs, .. }) => assert_eq!(timeout_secs, 45),
        _ => panic!("expected test"),
    }
    match parse_command(&args(&["bk-cli", "test", "--soc", "s", "--port", "p", "--timeout", "-1"])) {
        Ok(Command::Test { timeout_secs, .. }) => assert_eq!(timeout_secs, 20),
        _ => panic!("expected test"),
    }
}

#[test]
fn unknown_command() {
    match parse_command(&args(&["bk-cli", "erase"])) {
        Err(e) => {
            assert!(matches!(&e, CliError::UnknownCommand(c) if c == "erase"));
            assert_eq!(e.message(), Some("Unknown command: erase".to_string()));
        }
        _ => panic!("expected error"),
    }
    assert_eq!(CliError::Usage.message(), None);
}
